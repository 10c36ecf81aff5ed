use transaction_bench::text::{decimal_text, find_char, is_white_space, parse_u64, split, trim};

#[test]
fn test_white_space_is_that_of_unicode() {
    for code in 0..=0x10ffffu32 {
        if let Some(c) = char::from_u32(code) {
            assert_eq!(is_white_space(c), c.is_whitespace(), "{code:x}");
        }
    }
}

#[test]
fn test_trim_and_split() {
    assert_eq!(trim(" \t a b\u{a0}\n"), "a b");
    assert_eq!(trim("   "), "");
    assert_eq!(trim(""), "");
    assert_eq!(split("a,,b,", ','), vec!["a", "", "b", ""]);
    assert_eq!(split("", ','), vec![""]);
    assert_eq!(split("äö:ü", ':'), vec!["äö", "ü"]);
}

#[test]
fn test_searching() {
    assert_eq!(find_char("äb:c:", ':'), Some(2));
    assert_eq!(find_char("abc", ':'), None);
}

#[test]
fn test_numbers() {
    for text in [
        "0", "00", "7", "+7", "-7", "", "+", "++1", "18446744073709551615", "18446744073709551616",
        "99999999999999999999999", "1a", " 1", "1_0", "٣",
    ] {
        assert_eq!(parse_u64(text), text.parse::<u64>().ok(), "{text}");
    }
    for n in [0, 9, 10, 65_536, 1_000_000_007, u64::MAX] {
        assert_eq!(decimal_text(n), n.to_string());
    }
}
