//! The few text operations that the command-line rules are stated over:
//! splitting, trimming, and decimal numbers.
use vstd::prelude::*;
use vstd::string::*;

verus! {

/// The characters with the Unicode property `White_Space`.
pub open spec fn white_space(c: char) -> bool {
    ||| '\u{9}' <= c <= '\u{d}'
    ||| c == '\u{20}'
    ||| c == '\u{85}'
    ||| c == '\u{a0}'
    ||| c == '\u{1680}'
    ||| '\u{2000}' <= c <= '\u{200a}'
    ||| c == '\u{2028}'
    ||| c == '\u{2029}'
    ||| c == '\u{202f}'
    ||| c == '\u{205f}'
    ||| c == '\u{3000}'
}

/// `s` without its leading white space.
pub open spec fn trimmed_start(s: Seq<char>) -> Seq<char>
    decreases s.len(),
{
    if s.len() > 0 && white_space(s.first()) {
        trimmed_start(s.drop_first())
    } else {
        s
    }
}

/// `s` without its trailing white space.
pub open spec fn trimmed_end(s: Seq<char>) -> Seq<char>
    decreases s.len(),
{
    if s.len() > 0 && white_space(s.last()) {
        trimmed_end(s.drop_last())
    } else {
        s
    }
}

/// `s` without its leading and trailing white space.
pub open spec fn trimmed(s: Seq<char>) -> Seq<char> {
    trimmed_end(trimmed_start(s))
}

/// The position of the first `c` in `s`, or the length of `s`.
pub open spec fn first_position(s: Seq<char>, c: char) -> int
    decreases s.len(),
{
    if s.len() == 0 || s.first() == c {
        0
    } else {
        1 + first_position(s.drop_first(), c)
    }
}

/// The pieces of `s` between the separators, empty pieces among them: one more
/// than there are separators.
pub open spec fn pieces(s: Seq<char>, separator: char) -> Seq<Seq<char>>
    decreases s.len(),
{
    let k = first_position(s, separator);
    if k < 0 || k >= s.len() {
        seq![s]
    } else {
        seq![s.take(k)] + pieces(s.skip(k + 1), separator)
    }
}

pub open spec fn is_digit(c: char) -> bool {
    '0' <= c <= '9'
}

/// The number that a sequence of decimal digits stands for.
pub open spec fn digits_value(digits: Seq<char>) -> nat
    decreases digits.len(),
{
    if digits.len() == 0 {
        0
    } else {
        digits_value(digits.drop_last()) * 10 + (digits.last() as int - '0' as int) as nat
    }
}

/// The digits of a number text: what follows an optional plus sign.
pub open spec fn unsigned_part(s: Seq<char>) -> Seq<char> {
    if s.len() > 0 && s.first() == '+' {
        s.drop_first()
    } else {
        s
    }
}

/// The 64-bit number that `s` stands for: an optional plus sign, then one or
/// more decimal digits and nothing else.
pub open spec fn number_of(s: Seq<char>) -> Option<u64> {
    let digits = unsigned_part(s);
    if digits.len() > 0 && (forall|i: int| 0 <= i < digits.len() ==> is_digit(#[trigger] digits[i]))
        && digits_value(digits) <= u64::MAX {
        Some(digits_value(digits) as u64)
    } else {
        None
    }
}

/// One decimal digit.
pub open spec fn digit_char(d: int) -> char {
    (d + '0' as int) as char
}

/// The decimal notation of `n`, without leading zeros.
pub open spec fn decimal(n: nat) -> Seq<char>
    decreases n,
{
    if n < 10 {
        seq![digit_char(n as int)]
    } else {
        decimal(n / 10).push(digit_char((n % 10) as int))
    }
}

pub fn is_white_space(c: char) -> (b: bool)
    ensures
        b == white_space(c),
{
    ('\u{9}' <= c && c <= '\u{d}') || c == '\u{20}' || c == '\u{85}' || c == '\u{a0}' || c
        == '\u{1680}' || ('\u{2000}' <= c && c <= '\u{200a}') || c == '\u{2028}' || c == '\u{2029}'
        || c == '\u{202f}' || c == '\u{205f}' || c == '\u{3000}'
}

/// Cuts leading and trailing white space off.
pub fn trim<'a>(s: &'a str) -> (r: &'a str)
    ensures
        r@ == trimmed(s@),
{
    let n: usize = s.unicode_len();
    let mut start: usize = 0;
    assert(s@.skip(0) =~= s@);
    while start < n && is_white_space(s.get_char(start))
        invariant
            n == s@.len(),
            start <= n,
            trimmed_start(s@) == trimmed_start(s@.skip(start as int)),
        decreases n - start,
    {
        assert(s@.skip(start as int).drop_first() =~= s@.skip(start + 1));
        start += 1;
    }
    let ghost rest = s@.skip(start as int);
    assert(trimmed_start(s@) == rest);
    let mut end: usize = n;
    assert(s@.subrange(start as int, n as int) =~= rest);
    while end > start && is_white_space(s.get_char(end - 1))
        invariant
            n == s@.len(),
            start <= end <= n,
            trimmed_end(rest) == trimmed_end(s@.subrange(start as int, end as int)),
        decreases end,
    {
        assert(s@.subrange(start as int, end as int).drop_last() =~= s@.subrange(
            start as int,
            end - 1,
        ));
        end -= 1;
    }
    s.substring_char(start, end)
}

/// Where `c` first occurs in `s`.
pub fn find_char(s: &str, c: char) -> (r: Option<usize>)
    ensures
        match r {
            Some(k) => k < s@.len() && k == first_position(s@, c),
            None => first_position(s@, c) == s@.len(),
        },
{
    let n: usize = s.unicode_len();
    let mut i: usize = 0;
    assert(s@.skip(0) =~= s@);
    while i < n
        invariant
            n == s@.len(),
            i <= n,
            first_position(s@, c) == i + first_position(s@.skip(i as int), c),
        decreases n - i,
    {
        if s.get_char(i) == c {
            return Some(i);
        }
        assert(s@.skip(i as int).drop_first() =~= s@.skip(i + 1));
        i += 1;
    }
    None
}

/// Cuts `s` at each separator.
pub fn split<'a>(s: &'a str, separator: char) -> (parts: Vec<&'a str>)
    ensures
        parts@.len() == pieces(s@, separator).len(),
        forall|i: int|
            0 <= i < parts@.len() ==> (#[trigger] parts@[i])@ == pieces(s@, separator)[i],
{
    let mut parts: Vec<&'a str> = Vec::new();
    let mut rest: &'a str = s;
    let ghost expected = pieces(s@, separator);
    assert(pieces(rest@, separator) =~= expected.skip(0));
    loop
        invariant_except_break
            pieces(rest@, separator) == expected.skip(parts@.len() as int),
        invariant
            expected == pieces(s@, separator),
            parts@.len() <= expected.len(),
            forall|i: int| 0 <= i < parts@.len() ==> (#[trigger] parts@[i])@ == expected[i],
        ensures
            parts@.len() == expected.len(),
        decreases rest@.len(),
    {
        let len: usize = rest.unicode_len();
        let ghost tail = pieces(rest@, separator);
        assert(tail.len() >= 1);
        assert(tail[0] == expected[parts@.len() as int]);
        match find_char(rest, separator) {
            Some(k) => {
                assert(tail.drop_first() =~= pieces(rest@.skip(k + 1), separator));
                assert(tail.drop_first() =~= expected.skip(parts@.len() as int + 1));
                parts.push(rest.substring_char(0, k));
                assert(rest@.subrange(0, k as int) =~= rest@.take(k as int));
                assert(rest@.subrange(k + 1, len as int) =~= rest@.skip(k + 1));
                rest = rest.substring_char(k + 1, len);
            },
            None => {
                parts.push(rest);
                assert(tail.len() == 1);
                break ;
            },
        }
    }
    parts
}

/// `s` begins with `prefix`.
pub open spec fn begins_with(s: Seq<char>, prefix: Seq<char>) -> bool {
    prefix.len() <= s.len() && s.take(prefix.len() as int) == prefix
}

/// Further digits do not make a number smaller.
pub proof fn lemma_digits_value_grows(digits: Seq<char>, k: int)
    requires
        0 <= k <= digits.len(),
        forall|i: int| 0 <= i < digits.len() ==> is_digit(#[trigger] digits[i]),
    ensures
        digits_value(digits.take(k)) <= digits_value(digits),
    decreases digits.len(),
{
    if k == digits.len() {
        assert(digits.take(k) =~= digits);
    } else {
        lemma_digits_value_grows(digits.drop_last(), k);
        assert(digits.drop_last().take(k) =~= digits.take(k));
    }
}

/// Reads a 64-bit number. `None` where `s` stands for none.
pub fn parse_u64(s: &str) -> (r: Option<u64>)
    ensures
        r == number_of(s@),
{
    let n: usize = s.unicode_len();
    let ghost digits = unsigned_part(s@);
    let mut i: usize = 0;
    if n > 0 && s.get_char(0) == '+' {
        i = 1;
    }
    let start: usize = i;
    if start == n {
        return None;
    }
    let mut value: u64 = 0;
    assert(digits.take(0) =~= Seq::<char>::empty());
    while i < n
        invariant
            n == s@.len(),
            start <= i <= n,
            start <= 1,
            digits == unsigned_part(s@),
            digits == s@.skip(start as int),
            forall|j: int| 0 <= j < i - start ==> is_digit(#[trigger] digits[j]),
            value == digits_value(digits.take(i - start)),
        decreases n - i,
    {
        let c: char = s.get_char(i);
        assert(digits[i - start] == c);
        if !('0' <= c && c <= '9') {
            return None;
        }
        let d: u64 = (c as u32 - '0' as u32) as u64;
        assert(digits.take(i - start + 1).drop_last() =~= digits.take(i - start));
        if value > (u64::MAX - d) / 10 {
            proof {
                assert(digits_value(digits.take(i - start + 1)) > u64::MAX);
                if forall|j: int| 0 <= j < digits.len() ==> is_digit(#[trigger] digits[j]) {
                    lemma_digits_value_grows(digits, i - start + 1);
                }
            }
            return None;
        }
        value = value * 10 + d;
        i += 1;
    }
    assert(digits.take(n - start) =~= digits);
    Some(value)
}

fn digit_text(d: u64) -> (s: &'static str)
    requires
        d < 10,
    ensures
        s@ == seq![digit_char(d as int)],
{
    proof {
        reveal_strlit("0");
        reveal_strlit("1");
        reveal_strlit("2");
        reveal_strlit("3");
        reveal_strlit("4");
        reveal_strlit("5");
        reveal_strlit("6");
        reveal_strlit("7");
        reveal_strlit("8");
        reveal_strlit("9");
    }
    match d {
        0 => "0",
        1 => "1",
        2 => "2",
        3 => "3",
        4 => "4",
        5 => "5",
        6 => "6",
        7 => "7",
        8 => "8",
        _ => "9",
    }
}

/// Writes a number in decimal notation.
pub fn decimal_text(n: u64) -> (s: String)
    ensures
        s@ == decimal(n as nat),
    decreases n,
{
    if n < 10 {
        let s: String = digit_text(n).to_string();
        s
    } else {
        let mut s: String = decimal_text(n / 10);
        s.append(digit_text(n % 10));
        s
    }
}

/// The first position of a character is where it stands and has not stood before; it
/// is the end of the text where the character does not occur.
pub proof fn law_first_position(s: Seq<char>, c: char)
    ensures
        ({
            let k = first_position(s, c);
            &&& 0 <= k <= s.len()
            &&& forall|j: int| 0 <= j < k ==> #[trigger] s[j] != c
            &&& k < s.len() ==> s[k] == c
        }),
    decreases s.len(),
{
    if s.len() > 0 && s.first() != c {
        let rest = s.drop_first();
        law_first_position(rest, c);
        let k = first_position(s, c);
        assert forall|j: int| 0 <= j < k implies #[trigger] s[j] != c by {
            if j > 0 {
                assert(s[j] == rest[j - 1]);
            }
        }
        if k < s.len() {
            assert(s[k] == rest[k - 1]);
        }
    }
}

/// A character that is first seen at `k` has its first position there.
pub proof fn lemma_first_position_is(s: Seq<char>, c: char, k: int)
    requires
        0 <= k <= s.len(),
        forall|j: int| 0 <= j < k ==> #[trigger] s[j] != c,
        k < s.len() ==> s[k] == c,
    ensures
        first_position(s, c) == k,
{
    law_first_position(s, c);
}

/// Texts with a separator between them.
pub open spec fn joined(parts: Seq<Seq<char>>, separator: char) -> Seq<char>
    decreases parts.len(),
{
    if parts.len() == 0 {
        Seq::empty()
    } else if parts.len() == 1 {
        parts[0]
    } else {
        parts[0] + seq![separator] + joined(parts.drop_first(), separator)
    }
}

/// The pieces of a text are what stands between the separators: put together again
/// they are the text, and none holds a separator.
pub proof fn law_pieces_make_up_the_text(s: Seq<char>, separator: char)
    ensures
        ({
            let parts = pieces(s, separator);
            &&& parts.len() >= 1
            &&& joined(parts, separator) == s
            &&& forall|i: int|
                0 <= i < parts.len() ==> !(#[trigger] parts[i]).contains(separator)
        }),
    decreases s.len(),
{
    let parts = pieces(s, separator);
    let k = first_position(s, separator);
    law_first_position(s, separator);
    if k < s.len() {
        let rest = pieces(s.skip(k + 1), separator);
        law_pieces_make_up_the_text(s.skip(k + 1), separator);
        assert(parts.drop_first() =~= rest);
        assert(parts[0] == s.take(k));
        assert(s =~= s.take(k) + seq![separator] + s.skip(k + 1));
        assert forall|i: int| 0 <= i < parts.len() implies !(#[trigger] parts[i]).contains(
            separator,
        ) by {
            if i > 0 {
                assert(parts[i] == rest[i - 1]);
            }
        }
    }
}

/// Texts that hold no separator are the pieces of what they make up together.
pub proof fn law_pieces_are_read_back(parts: Seq<Seq<char>>, separator: char)
    requires
        parts.len() >= 1,
        forall|i: int| 0 <= i < parts.len() ==> !(#[trigger] parts[i]).contains(separator),
    ensures
        pieces(joined(parts, separator), separator) == parts,
    decreases parts.len(),
{
    let s = joined(parts, separator);
    let first = parts[0];
    if parts.len() == 1 {
        assert forall|j: int| 0 <= j < s.len() implies #[trigger] s[j] != separator by {
            assert(first.contains(s[j]));
        }
        lemma_first_position_is(s, separator, s.len() as int);
        assert(pieces(s, separator) =~= parts);
    } else {
        let rest = parts.drop_first();
        assert forall|i: int| 0 <= i < rest.len() implies !(#[trigger] rest[i]).contains(
            separator,
        ) by {
            assert(rest[i] == parts[i + 1]);
        }
        law_pieces_are_read_back(rest, separator);
        let k = first.len() as int;
        assert forall|j: int| 0 <= j < k implies #[trigger] s[j] != separator by {
            assert(s[j] == first[j]);
            assert(first.contains(s[j]));
        }
        lemma_first_position_is(s, separator, k);
        assert(s.take(k) =~= first);
        assert(s.skip(k + 1) =~= joined(rest, separator));
        assert(pieces(s, separator) =~= seq![first] + rest);
        assert(seq![first] + rest =~= parts);
    }
}

/// What trimming cuts off is white space, at the ends only, and all of it: what is
/// left neither begins nor ends with white space.
pub proof fn law_trimming_cuts_white_space_only(s: Seq<char>)
    ensures
        exists|i: int, j: int|
            #![trigger s.subrange(i, j)]
            {
                &&& 0 <= i <= j <= s.len()
                &&& trimmed(s) == s.subrange(i, j)
                &&& forall|k: int| 0 <= k < i || j <= k < s.len() ==> white_space(#[trigger] s[k])
            },
        trimmed(s).len() > 0 ==> !white_space(trimmed(s)[0]) && !white_space(trimmed(s).last()),
{
    let i = lemma_trimmed_start(s);
    let rest = trimmed_start(s);
    let m = lemma_trimmed_end(rest);
    let j = i + m;
    assert(trimmed(s) =~= s.subrange(i, j));
    assert forall|k: int| 0 <= k < i || j <= k < s.len() implies white_space(#[trigger] s[k]) by {
        if k >= j {
            assert(s[k] == rest[k - i]);
        }
    }
    if m > 0 {
        assert(trimmed(s)[0] == rest[0]);
        assert(rest == s.skip(i));
    }
}

proof fn lemma_trimmed_start(s: Seq<char>) -> (i: int)
    ensures
        0 <= i <= s.len(),
        trimmed_start(s) == s.skip(i),
        forall|k: int| 0 <= k < i ==> white_space(#[trigger] s[k]),
        i < s.len() ==> !white_space(s[i]),
    decreases s.len(),
{
    if s.len() > 0 && white_space(s.first()) {
        let rest = s.drop_first();
        let i = lemma_trimmed_start(rest);
        assert(rest.skip(i) =~= s.skip(i + 1));
        assert forall|k: int| 0 <= k < i + 1 implies white_space(#[trigger] s[k]) by {
            if k > 0 {
                assert(s[k] == rest[k - 1]);
            }
        }
        if i + 1 < s.len() {
            assert(s[i + 1] == rest[i]);
        }
        i + 1
    } else {
        assert(s.skip(0) =~= s);
        0
    }
}

proof fn lemma_trimmed_end(s: Seq<char>) -> (m: int)
    ensures
        0 <= m <= s.len(),
        trimmed_end(s) == s.take(m),
        forall|k: int| m <= k < s.len() ==> white_space(#[trigger] s[k]),
        m > 0 ==> !white_space(s[m - 1]),
    decreases s.len(),
{
    if s.len() > 0 && white_space(s.last()) {
        let rest = s.drop_last();
        let m = lemma_trimmed_end(rest);
        assert(rest.take(m) =~= s.take(m));
        assert forall|k: int| m <= k < s.len() implies white_space(#[trigger] s[k]) by {
            if k < s.len() - 1 {
                assert(s[k] == rest[k]);
            }
        }
        m
    } else {
        assert(s.take(s.len() as int) =~= s);
        s.len() as int
    }
}

/// A text that begins with something other than white space is only cut at its end,
/// and nothing up to a character that is not white space is lost.
pub proof fn lemma_trimmed_behind(s: Seq<char>, k: int) -> (m: int)
    requires
        0 <= k < s.len(),
        !white_space(s[0]),
        !white_space(s[k]),
    ensures
        k < m <= s.len(),
        trimmed(s) == s.take(m),
        m == s.len() || white_space(s.last()),
        forall|j: int| m <= j < s.len() ==> white_space(#[trigger] s[j]),
{
    let i = lemma_trimmed_start(s);
    if i > 0 {
        assert(white_space(s[0]));
    }
    assert(s.skip(0) =~= s);
    let m = lemma_trimmed_end(s);
    if m <= k {
        assert(white_space(s[k]));
    }
    if m < s.len() {
        assert(white_space(s[s.len() - 1]));
    }
    m
}

/// The decimal notation of a number is read back as that number. It holds digits
/// only, and does not begin with a zero but for the number zero.
pub proof fn law_decimal_is_read_back(n: nat)
    ensures
        decimal(n).len() >= 1,
        forall|i: int| 0 <= i < decimal(n).len() ==> is_digit(#[trigger] decimal(n)[i]),
        digits_value(decimal(n)) == n,
        n > 0 ==> decimal(n)[0] != '0',
        n <= u64::MAX ==> number_of(decimal(n)) == Some(n as u64),
    decreases n,
{
    let text = decimal(n);
    if n < 10 {
        assert(text.drop_last() =~= Seq::<char>::empty());
        assert(digits_value(text.drop_last()) == 0);
        assert(text.last() as int - '0' as int == n);
    } else {
        law_decimal_is_read_back(n / 10);
        let front = decimal(n / 10);
        let last = digit_char((n % 10) as int);
        assert(text == front.push(last));
        assert(text.drop_last() =~= front);
        assert(text.last() as int - '0' as int == n % 10);
        assert forall|i: int| 0 <= i < text.len() implies is_digit(#[trigger] text[i]) by {
            if i < front.len() {
                assert(text[i] == front[i]);
            }
        }
        assert(text[0] == front[0]);
    }
    assert(is_digit(text[0]));
    assert(unsigned_part(text) == text);
}

/// A plus sign in front of a number says nothing, and so does a zero.
pub proof fn law_signs_and_zeros_say_nothing(digits: Seq<char>)
    requires
        digits.len() > 0,
        digits[0] != '+',
    ensures
        number_of(seq!['+'] + digits) == number_of(digits),
        number_of(seq!['0'] + digits) == number_of(digits),
{
    assert((seq!['+'] + digits).drop_first() =~= digits);
    let longer = seq!['0'] + digits;
    lemma_leading_zero(digits);
    if forall|i: int| 0 <= i < digits.len() ==> is_digit(#[trigger] digits[i]) {
        assert forall|i: int| 0 <= i < longer.len() implies is_digit(#[trigger] longer[i]) by {
            if i > 0 {
                assert(longer[i] == digits[i - 1]);
            }
        }
    } else {
        let i = choose|i: int| 0 <= i < digits.len() && !is_digit(#[trigger] digits[i]);
        assert(longer[i + 1] == digits[i]);
    }
}

proof fn lemma_leading_zero(digits: Seq<char>)
    ensures
        digits_value(seq!['0'] + digits) == digits_value(digits),
    decreases digits.len(),
{
    let longer = seq!['0'] + digits;
    if digits.len() > 0 {
        lemma_leading_zero(digits.drop_last());
        assert(longer.drop_last() =~= seq!['0'] + digits.drop_last());
    } else {
        assert(longer.drop_last() =~= Seq::<char>::empty());
        assert(digits_value(longer.drop_last()) == 0);
    }
}

/// A text with anything but digits behind an optional plus sign is no number, and
/// neither is an empty one.
pub proof fn law_other_texts_are_no_numbers(s: Seq<char>, k: int)
    requires
        0 <= k < s.len(),
        !('0' <= s[k] <= '9'),
        s[k] != '+' || k > 0,
    ensures
        number_of(s) is None,
        number_of(Seq::empty()) is None,
        number_of(seq!['+']) is None,
{
    let digits = unsigned_part(s);
    if s.first() == '+' {
        assert(digits[k - 1] == s[k]);
        assert(!is_digit(digits[k - 1]));
    } else {
        assert(!is_digit(digits[k]));
    }
    assert(seq!['+'].drop_first().len() == 0);
}

/// White space at the end of a text makes no difference to what is left of it.
pub proof fn lemma_trailing_white_space(s: Seq<char>, k: int)
    requires
        0 <= k <= s.len(),
        forall|j: int| k <= j < s.len() ==> white_space(#[trigger] s[j]),
    ensures
        trimmed(s.take(k)) == trimmed(s),
    decreases s.len(),
{
    if k < s.len() {
        let shorter = s.drop_last();
        let i = lemma_trimmed_start(s);
        let i2 = lemma_trimmed_start(shorter);
        let last = s.len() - 1;
        assert(white_space(s[last]));
        if i < s.len() {
            assert(i != last);
            if i2 < i {
                assert(shorter[i2] == s[i2]);
            } else if i < i2 {
                assert(shorter[i] == s[i]);
            }
            assert(s.skip(i).drop_last() =~= shorter.skip(i));
            assert(s.skip(i).last() == s[last]);
        } else {
            if i2 < shorter.len() {
                assert(shorter[i2] == s[i2]);
            }
            assert(s.skip(i) =~= Seq::<char>::empty());
            assert(shorter.skip(i2) =~= Seq::<char>::empty());
        }
        assert(trimmed(shorter) == trimmed(s));
        assert forall|j: int| k <= j < shorter.len() implies white_space(#[trigger] shorter[j]) by {
            assert(shorter[j] == s[j]);
        }
        lemma_trailing_white_space(shorter, k);
        assert(shorter.take(k) =~= s.take(k));
    } else {
        assert(s.take(k) =~= s);
    }
}

/// White space in front of a text makes no difference to what is left of it.
pub proof fn lemma_leading_white_space(blank: Seq<char>, s: Seq<char>)
    requires
        forall|j: int| 0 <= j < blank.len() ==> white_space(#[trigger] blank[j]),
    ensures
        trimmed(blank + s) == trimmed(s),
    decreases blank.len(),
{
    let whole = blank + s;
    if blank.len() > 0 {
        let rest = blank.drop_first();
        assert forall|j: int| 0 <= j < rest.len() implies white_space(#[trigger] rest[j]) by {
            assert(rest[j] == blank[j + 1]);
        }
        lemma_leading_white_space(rest, s);
        assert(whole.drop_first() =~= rest + s);
        assert(whole[0] == blank[0]);
    } else {
        assert(whole =~= s);
    }
}

/// White space around a text does not count.
pub proof fn law_white_space_around_does_not_count(
    before: Seq<char>,
    s: Seq<char>,
    behind: Seq<char>,
)
    requires
        forall|j: int| 0 <= j < before.len() ==> white_space(#[trigger] before[j]),
        forall|j: int| 0 <= j < behind.len() ==> white_space(#[trigger] behind[j]),
    ensures
        trimmed(before + s + behind) == trimmed(s),
        s.len() > 0 && !white_space(s[0]) && !white_space(s.last()) ==> trimmed(
            before + s + behind,
        ) == s,
{
    let whole = before + s + behind;
    let n = (before + s).len() as int;
    assert forall|j: int| n <= j < whole.len() implies white_space(#[trigger] whole[j]) by {
        assert(whole[j] == behind[j - n]);
    }
    lemma_trailing_white_space(whole, n);
    assert(whole.take(n) =~= before + s);
    lemma_leading_white_space(before, s);
    if s.len() > 0 && !white_space(s[0]) && !white_space(s.last()) {
        let m = lemma_trimmed_behind(s, s.len() - 1);
        assert(s.take(s.len() as int) =~= s);
    }
}

} // verus!
