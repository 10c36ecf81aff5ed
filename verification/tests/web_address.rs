use transaction_bench::web_address::{
    port_is_last, scheme_is_exchangeable, scheme_of_url_is, significant_chars,
};

#[test]
fn test_significant_characters() {
    let text: String = significant_chars(" \u{0} a\tb \r\nc\u{1f}\t ").into_iter().collect();
    assert_eq!(text, "ab c");
    assert!(significant_chars(" \n\t").is_empty());
    assert!(significant_chars("").is_empty());
    // Other white space stays.
    assert_eq!(significant_chars("\u{a0}"), vec!['\u{a0}']);
}

#[test]
fn test_schemes() {
    assert!(scheme_of_url_is("http://h", "http"));
    assert!(scheme_of_url_is("\nH\tTtP:h", "http"));
    assert!(!scheme_of_url_is("https://h", "http"));
    assert!(!scheme_of_url_is("http", "http"));
    assert!(!scheme_of_url_is("h@tp:", "http"));
    for scheme in ["http", "https", "ws", "wss", "ftp", "file"] {
        assert!(scheme_is_exchangeable(&format!("{scheme}://h")));
        assert!(scheme_is_exchangeable(&format!("{}://h", scheme.to_uppercase())));
        assert!(!scheme_is_exchangeable(&format!("x{scheme}://h")));
    }
    assert!(!scheme_is_exchangeable("mailto:a@b"));
    assert!(!scheme_is_exchangeable(""));
}

#[test]
fn test_last_port() {
    assert!(port_is_last("http://h:65535"));
    assert!(port_is_last("http:h:0065535/"));
    assert!(port_is_last("ws:////[::1]:65535\\x"));
    assert!(!port_is_last("http://h:65534"));
    assert!(!port_is_last("http://h:65536"));
    assert!(!port_is_last("http://h:655350"));
    assert!(!port_is_last("http://h:99999999999999999999"));
    assert!(!port_is_last("http://h:"));
    assert!(!port_is_last("http://h"));
    assert!(!port_is_last("http://h/:65535"));
    assert!(!port_is_last("http://u:65535@h"));
    assert!(!port_is_last("65535"));
}
