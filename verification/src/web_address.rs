//! What can be told of a URL from its text: the scheme, and the port that is
//! spelled out.
//!
//! Whether a text is a URL at all is decided elsewhere. The readings here are those
//! of a text that is one.
use vstd::prelude::*;
use vstd::string::*;
use crate::text;

verus! {

/// Control characters and the space are dropped at both ends of a URL.
pub open spec fn is_padding(c: char) -> bool {
    c <= ' '
}

/// Tabs and line breaks are dropped anywhere in a URL.
pub open spec fn is_break(c: char) -> bool {
    c == '\t' || c == '\n' || c == '\r'
}

/// `s` without the padding in front.
pub open spec fn unpadded_start(s: Seq<char>) -> Seq<char>
    decreases s.len(),
{
    if s.len() > 0 && is_padding(s.first()) {
        unpadded_start(s.drop_first())
    } else {
        s
    }
}

/// `s` without the padding at the end.
pub open spec fn unpadded_end(s: Seq<char>) -> Seq<char>
    decreases s.len(),
{
    if s.len() > 0 && is_padding(s.last()) {
        unpadded_end(s.drop_last())
    } else {
        s
    }
}

/// `s` without tabs and line breaks.
pub open spec fn unbroken(s: Seq<char>) -> Seq<char>
    decreases s.len(),
{
    if s.len() == 0 {
        s
    } else if is_break(s.last()) {
        unbroken(s.drop_last())
    } else {
        unbroken(s.drop_last()).push(s.last())
    }
}

/// The characters of a URL that count.
pub open spec fn significant(url: Seq<char>) -> Seq<char> {
    unbroken(unpadded_end(unpadded_start(url)))
}

/// `c` is the lower-case letter `letter`, or its upper case.
pub open spec fn same_letter(c: char, letter: char) -> bool {
    c == letter || ('A' <= c <= 'Z' && c as int + 32 == letter as int)
}

/// `s` is `name`, which is in lower case, up to the case of letters.
pub open spec fn spells(s: Seq<char>, name: Seq<char>) -> bool {
    s.len() == name.len() && forall|i: int|
        0 <= i < name.len() ==> same_letter(#[trigger] s[i], name[i])
}

/// The scheme of a URL is this one, which is given in lower case.
pub open spec fn has_scheme(url: Seq<char>, name: Seq<char>) -> bool {
    let s = significant(url);
    let k = text::first_position(s, ':');
    k < s.len() && spells(s.take(k), name)
}

/// The scheme is one of those that can be exchanged for a websocket scheme.
pub open spec fn has_exchangeable_scheme(url: Seq<char>) -> bool {
    ||| has_scheme(url, "http"@)
    ||| has_scheme(url, "https"@)
    ||| has_scheme(url, "ws"@)
    ||| has_scheme(url, "wss"@)
    ||| has_scheme(url, "ftp"@)
    ||| has_scheme(url, "file"@)
}

pub open spec fn is_slash(c: char) -> bool {
    c == '/' || c == '\\'
}

/// The number of slashes that `s` begins with.
pub open spec fn leading_slashes(s: Seq<char>) -> int
    decreases s.len(),
{
    if s.len() > 0 && is_slash(s.first()) {
        1 + leading_slashes(s.drop_first())
    } else {
        0
    }
}

/// How much of `s` comes before its path, query and fragment.
pub open spec fn authority_len(s: Seq<char>) -> int
    decreases s.len(),
{
    if s.len() == 0 || is_slash(s.first()) || s.first() == '?' || s.first() == '#' {
        0
    } else {
        1 + authority_len(s.drop_first())
    }
}

/// The part of a URL that names user, host and port.
pub open spec fn authority(url: Seq<char>) -> Seq<char> {
    let s = significant(url);
    let k = text::first_position(s, ':');
    if k < s.len() {
        let rest = s.skip(k + 1);
        let behind_slashes = rest.skip(leading_slashes(rest));
        behind_slashes.take(authority_len(behind_slashes))
    } else {
        Seq::empty()
    }
}

/// The position of the last `c` in `s`, or -1.
pub open spec fn last_position(s: Seq<char>, c: char) -> int
    decreases s.len(),
{
    if s.len() == 0 {
        -1
    } else if s.last() == c {
        s.len() - 1
    } else {
        last_position(s.drop_last(), c)
    }
}

/// Decimal digits that stand for the last of all port numbers.
pub open spec fn is_last_port(digits: Seq<char>) -> bool {
    &&& forall|i: int| 0 <= i < digits.len() ==> text::is_digit(#[trigger] digits[i])
    &&& text::digits_value(digits) == 65_535
}

/// The port of a URL is the last of all.
pub open spec fn has_last_port(url: Seq<char>) -> bool {
    let whole = authority(url);
    let k = last_position(whole, ':');
    k >= 0 && is_last_port(whole.skip(k + 1))
}

/// The characters of a URL that count.
pub fn significant_chars(url: &str) -> (chars: Vec<char>)
    ensures
        chars@ == significant(url@),
{
    let n: usize = url.unicode_len();
    let mut start: usize = 0;
    assert(url@.skip(0) =~= url@);
    while start < n && url.get_char(start) <= ' '
        invariant
            n == url@.len(),
            start <= n,
            unpadded_start(url@) == unpadded_start(url@.skip(start as int)),
        decreases n - start,
    {
        assert(url@.skip(start as int).drop_first() =~= url@.skip(start + 1));
        start += 1;
    }
    let ghost rest = url@.skip(start as int);
    assert(unpadded_start(url@) == rest);
    let mut end: usize = n;
    assert(url@.subrange(start as int, n as int) =~= rest);
    while end > start && url.get_char(end - 1) <= ' '
        invariant
            n == url@.len(),
            start <= end <= n,
            unpadded_end(rest) == unpadded_end(url@.subrange(start as int, end as int)),
        decreases end,
    {
        assert(url@.subrange(start as int, end as int).drop_last() =~= url@.subrange(
            start as int,
            end - 1,
        ));
        end -= 1;
    }
    let ghost core = url@.subrange(start as int, end as int);
    assert(unpadded_end(rest) == core);
    let mut chars: Vec<char> = Vec::new();
    let mut i: usize = start;
    assert(core.take(0) =~= Seq::<char>::empty());
    while i < end
        invariant
            n == url@.len(),
            start <= i <= end <= n,
            core == url@.subrange(start as int, end as int),
            chars@ == unbroken(core.take(i - start)),
        decreases end - i,
    {
        let c: char = url.get_char(i);
        assert(core.take(i - start + 1).drop_last() =~= core.take(i - start));
        assert(core.take(i - start + 1).last() == c);
        if c != '\t' && c != '\n' && c != '\r' {
            chars.push(c);
        }
        i += 1;
    }
    assert(core.take(end - start) =~= core);
    chars
}

fn scheme_end(chars: &Vec<char>) -> (k: usize)
    ensures
        k == text::first_position(chars@, ':'),
        k <= chars@.len(),
{
    let mut i: usize = 0;
    assert(chars@.skip(0) =~= chars@);
    while i < chars.len() && chars[i] != ':'
        invariant
            i <= chars@.len(),
            text::first_position(chars@, ':') == i + text::first_position(
                chars@.skip(i as int),
                ':',
            ),
        decreases chars@.len() - i,
    {
        assert(chars@.skip(i as int).drop_first() =~= chars@.skip(i + 1));
        i += 1;
    }
    i
}

/// Whether the first `end` characters are this scheme.
fn scheme_is(chars: &Vec<char>, end: usize, name: &str) -> (b: bool)
    requires
        end <= chars@.len(),
    ensures
        b == spells(chars@.take(end as int), name@),
{
    let ghost scheme = chars@.take(end as int);
    if name.unicode_len() != end {
        return false;
    }
    let mut i: usize = 0;
    while i < end
        invariant
            end == name@.len(),
            end <= chars@.len(),
            i <= end,
            scheme == chars@.take(end as int),
            forall|j: int| 0 <= j < i ==> same_letter(#[trigger] scheme[j], name@[j]),
        decreases end - i,
    {
        let c: char = chars[i];
        let letter: char = name.get_char(i);
        assert(scheme[i as int] == c);
        if c != letter && !('A' <= c && c <= 'Z' && c as u32 + 32 == letter as u32) {
            return false;
        }
        i += 1;
    }
    true
}

/// Whether the scheme of a URL is this one, which is given in lower case.
pub fn scheme_of_url_is(url: &str, name: &str) -> (b: bool)
    ensures
        b == has_scheme(url@, name@),
{
    let chars: Vec<char> = significant_chars(url);
    let end: usize = scheme_end(&chars);
    end < chars.len() && scheme_is(&chars, end, name)
}

/// Whether the scheme of a URL can be exchanged for a websocket scheme.
pub fn scheme_is_exchangeable(url: &str) -> (b: bool)
    ensures
        b == has_exchangeable_scheme(url@),
{
    scheme_of_url_is(url, "http") || scheme_of_url_is(url, "https") || scheme_of_url_is(url, "ws")
        || scheme_of_url_is(url, "wss") || scheme_of_url_is(url, "ftp") || scheme_of_url_is(
        url,
        "file",
    )
}

fn authority_start(chars: &Vec<char>, from: usize) -> (k: usize)
    requires
        from <= chars@.len(),
    ensures
        from <= k <= chars@.len(),
        k == from + leading_slashes(chars@.skip(from as int)),
{
    let mut i: usize = from;
    while i < chars.len() && (chars[i] == '/' || chars[i] == '\\')
        invariant
            from <= i <= chars@.len(),
            leading_slashes(chars@.skip(from as int)) == i - from + leading_slashes(
                chars@.skip(i as int),
            ),
        decreases chars@.len() - i,
    {
        assert(chars@.skip(i as int).drop_first() =~= chars@.skip(i + 1));
        i += 1;
    }
    i
}

fn authority_end(chars: &Vec<char>, from: usize) -> (k: usize)
    requires
        from <= chars@.len(),
    ensures
        from <= k <= chars@.len(),
        k == from + authority_len(chars@.skip(from as int)),
{
    let mut i: usize = from;
    while i < chars.len() && chars[i] != '/' && chars[i] != '\\' && chars[i] != '?' && chars[i]
        != '#'
        invariant
            from <= i <= chars@.len(),
            authority_len(chars@.skip(from as int)) == i - from + authority_len(
                chars@.skip(i as int),
            ),
        decreases chars@.len() - i,
    {
        assert(chars@.skip(i as int).drop_first() =~= chars@.skip(i + 1));
        i += 1;
    }
    i
}

/// Where the port begins, in the part of a URL that names user, host and port.
fn port_start(chars: &Vec<char>, from: usize, to: usize) -> (r: Option<usize>)
    requires
        from <= to <= chars@.len(),
    ensures
        ({
            let k = last_position(chars@.subrange(from as int, to as int), ':');
            match r {
                Some(start) => from < start <= to && k == start - from - 1,
                None => k < 0,
            }
        }),
{
    let mut i: usize = to;
    while i > from
        invariant
            from <= i <= to <= chars@.len(),
            last_position(chars@.subrange(from as int, to as int), ':') == last_position(
                chars@.subrange(from as int, i as int),
                ':',
            ),
        decreases i,
    {
        if chars[i - 1] == ':' {
            return Some(i);
        }
        assert(chars@.subrange(from as int, i as int).drop_last() =~= chars@.subrange(
            from as int,
            i - 1,
        ));
        i -= 1;
    }
    None
}

/// Whether these characters are digits that stand for the last port number.
fn last_port_stands_at(chars: &Vec<char>, from: usize, to: usize) -> (b: bool)
    requires
        from <= to <= chars@.len(),
    ensures
        b == is_last_port(chars@.subrange(from as int, to as int)),
{
    let ghost digits = chars@.subrange(from as int, to as int);
    let mut value: u32 = 0;
    let mut i: usize = from;
    assert(digits.take(0) =~= Seq::<char>::empty());
    while i < to
        invariant
            from <= i <= to <= chars@.len(),
            digits == chars@.subrange(from as int, to as int),
            forall|j: int| 0 <= j < i - from ==> text::is_digit(#[trigger] digits[j]),
            value == text::digits_value(digits.take(i - from)),
            value <= 65_535,
        decreases to - i,
    {
        let c: char = chars[i];
        assert(digits[i - from] == c);
        if !('0' <= c && c <= '9') {
            return false;
        }
        assert(digits.take(i - from + 1).drop_last() =~= digits.take(i - from));
        value = value * 10 + (c as u32 - '0' as u32);
        i += 1;
        if value > 65_535 {
            proof {
                if forall|j: int| 0 <= j < digits.len() ==> text::is_digit(#[trigger] digits[j]) {
                    text::lemma_digits_value_grows(digits, i - from);
                }
            }
            return false;
        }
    }
    assert(digits.take(to - from) =~= digits);
    value == 65_535
}

/// Whether the port of a URL is the last of all.
pub fn port_is_last(url: &str) -> (b: bool)
    ensures
        b == has_last_port(url@),
{
    let chars: Vec<char> = significant_chars(url);
    let n: usize = chars.len();
    let colon: usize = scheme_end(&chars);
    if colon >= n {
        return false;
    }
    let from: usize = authority_start(&chars, colon + 1);
    let to: usize = authority_end(&chars, from);
    let ghost rest = chars@.skip(colon + 1);
    assert(rest.skip(from - colon - 1) =~= chars@.skip(from as int));
    assert(chars@.skip(from as int).take(to - from) =~= chars@.subrange(from as int, to as int));
    match port_start(&chars, from, to) {
        Some(start) => {
            assert(authority(url@).skip(start - from) =~= chars@.subrange(start as int, to as int));
            last_port_stands_at(&chars, start, to)
        },
        None => false,
    }
}

proof fn lemma_nothing_to_drop(s: Seq<char>)
    requires
        forall|i: int| 0 <= i < s.len() ==> #[trigger] s[i] > ' ',
    ensures
        significant(s) == s,
{
    lemma_nothing_broken(s);
    if s.len() > 0 {
        assert(s[0] > ' ');
        assert(s[s.len() - 1] > ' ');
    }
}

proof fn lemma_nothing_broken(s: Seq<char>)
    requires
        forall|i: int| 0 <= i < s.len() ==> #[trigger] s[i] > ' ',
    ensures
        unbroken(s) == s,
    decreases s.len(),
{
    if s.len() > 0 {
        let rest = s.drop_last();
        assert forall|i: int| 0 <= i < rest.len() implies #[trigger] rest[i] > ' ' by {
            assert(rest[i] == s[i]);
        }
        lemma_nothing_broken(rest);
        assert(s[s.len() - 1] > ' ');
        assert(rest.push(s.last()) =~= s);
    }
}

proof fn lemma_authority_ends(front: Seq<char>, tail: Seq<char>)
    requires
        forall|i: int|
            0 <= i < front.len() ==> !is_slash(#[trigger] front[i]) && front[i] != '?' && front[i]
                != '#',
        tail.len() == 0 || is_slash(tail[0]) || tail[0] == '?' || tail[0] == '#',
    ensures
        authority_len(front + tail) == front.len(),
    decreases front.len(),
{
    let s = front + tail;
    if front.len() > 0 {
        let rest = front.drop_first();
        assert forall|i: int| 0 <= i < rest.len() implies !is_slash(#[trigger] rest[i]) && rest[i]
            != '?' && rest[i] != '#' by {
            assert(rest[i] == front[i + 1]);
        }
        lemma_authority_ends(rest, tail);
        assert(s.drop_first() =~= rest + tail);
        assert(s[0] == front[0]);
    } else {
        assert(s =~= tail);
    }
}

/// The last position of a character is where it stands and does not stand again; it
/// is -1 where the character does not occur.
pub proof fn law_last_position(s: Seq<char>, c: char)
    ensures
        ({
            let k = last_position(s, c);
            &&& -1 <= k < s.len()
            &&& k >= 0 ==> s[k] == c
            &&& forall|j: int| k < j < s.len() ==> #[trigger] s[j] != c
        }),
    decreases s.len(),
{
    if s.len() > 0 && s.last() != c {
        let rest = s.drop_last();
        law_last_position(rest, c);
        let k = last_position(s, c);
        assert forall|j: int| k < j < s.len() implies #[trigger] s[j] != c by {
            if j < s.len() - 1 {
                assert(s[j] == rest[j]);
            }
        }
    }
}

/// A character that can stand in a host name: none that ends the host, and none that
/// is dropped.
pub open spec fn plain(c: char) -> bool {
    c > ' ' && c != ':' && c != '/' && c != '\\' && c != '?' && c != '#'
}

/// A URL that is spelled out.
pub open spec fn spelled_out(
    scheme: Seq<char>,
    host: Seq<char>,
    port: Option<nat>,
    tail: Seq<char>,
) -> Seq<char> {
    scheme + seq![':', '/', '/'] + host + (match port {
        Some(port) => seq![':'] + text::decimal(port),
        None => Seq::empty(),
    }) + tail
}

/// Scheme and port are read as they were written: of a URL that is spelled out, the
/// scheme is the one in front, whatever the case of its letters, and the port is the
/// last of all exactly where the number behind the host is 65535.
pub proof fn law_scheme_and_port_are_read_back(
    scheme: Seq<char>,
    name: Seq<char>,
    host: Seq<char>,
    port: Option<nat>,
    tail: Seq<char>,
)
    requires
        scheme.len() > 0,
        host.len() > 0,
        forall|i: int| 0 <= i < scheme.len() ==> plain(#[trigger] scheme[i]),
        forall|i: int| 0 <= i < host.len() ==> plain(#[trigger] host[i]),
        forall|i: int| 0 <= i < tail.len() ==> #[trigger] tail[i] > ' ',
        tail.len() == 0 || tail[0] == '/' || tail[0] == '\\' || tail[0] == '?' || tail[0] == '#',
    ensures
        ({
            let url = spelled_out(scheme, host, port, tail);
            &&& has_last_port(url) <==> port == Some(65_535nat)
            &&& has_scheme(url, name) <==> scheme.len() == name.len() && forall|i: int|
                0 <= i < name.len() ==> #[trigger] scheme[i] == name[i] || ('A' <= scheme[i] <= 'Z'
                    && scheme[i] as int + 32 == name[i] as int)
        }),
{
    let url = spelled_out(scheme, host, port, tail);
    let colon_port = match port {
        Some(port) => seq![':'] + text::decimal(port),
        None => Seq::empty(),
    };
    let digits = match port {
        Some(port) => text::decimal(port),
        None => Seq::empty(),
    };
    if let Some(port) = port {
        text::law_decimal_is_read_back(port);
    }
    let whole = host + colon_port;
    let k = scheme.len() as int;
    let slashes = seq![':', '/', '/'];
    assert(url =~= scheme + slashes + whole + tail);
    assert forall|i: int| 0 <= i < whole.len() implies #[trigger] whole[i] > ' ' && !is_slash(
        whole[i],
    ) && whole[i] != '?' && whole[i] != '#' by {
        if i < host.len() {
            assert(whole[i] == host[i]);
            assert(plain(host[i]));
        } else if i > host.len() {
            assert(whole[i] == digits[i - host.len() - 1]);
            assert(text::is_digit(digits[i - host.len() - 1]));
        }
    }
    assert forall|i: int| 0 <= i < url.len() implies #[trigger] url[i] > ' ' by {
        if i < k {
            assert(url[i] == scheme[i]);
            assert(plain(scheme[i]));
        } else if i < k + 3 {
            assert(url[i] == slashes[i - k]);
        } else if i < k + 3 + whole.len() {
            assert(url[i] == whole[i - k - 3]);
        } else {
            assert(url[i] == tail[i - k - 3 - whole.len()]);
        }
    }
    lemma_nothing_to_drop(url);
    assert forall|i: int| 0 <= i < k implies #[trigger] url[i] != ':' by {
        assert(url[i] == scheme[i]);
        assert(plain(scheme[i]));
    }
    assert(url[k] == ':');
    text::lemma_first_position_is(url, ':', k);
    assert(url.take(k) =~= scheme);
    let rest = url.skip(k + 1);
    assert(rest =~= seq!['/', '/'] + whole + tail);
    assert(leading_slashes(rest) == 2) by {
        let once = rest.drop_first();
        let twice = once.drop_first();
        assert(rest[0] == '/' && once[0] == '/');
        assert(twice[0] == whole[0]);
        assert(whole[0] == host[0]);
        assert(plain(host[0]));
        assert(leading_slashes(twice) == 0);
        assert(leading_slashes(once) == 1);
    }
    assert(rest.skip(2) =~= whole + tail);
    lemma_authority_ends(whole, tail);
    assert((whole + tail).take(whole.len() as int) =~= whole);
    assert(authority(url) == whole);
    law_last_position(whole, ':');
    let at = last_position(whole, ':');
    if port is Some {
        assert(whole[host.len() as int] == ':');
        assert(at >= host.len());
        if at > host.len() {
            assert(whole[at] == digits[at - host.len() - 1]);
            assert(text::is_digit(digits[at - host.len() - 1]));
        }
        assert(whole.skip(at + 1) =~= digits);
    } else if at >= 0 {
        assert(whole[at] == host[at]);
        assert(plain(host[at]));
    }
}

/// What does not count in a URL: control characters and spaces in front, and tabs and
/// line breaks anywhere behind.
pub proof fn law_padding_does_not_count(c: char, front: Seq<char>, back: Seq<char>)
    ensures
        c <= ' ' ==> significant(seq![c] + back) == significant(back),
        (c == '\t' || c == '\n' || c == '\r') && front.len() > 0 && back.len() > 0 && front[0]
            > ' ' && back.last() > ' ' ==> significant(front + seq![c] + back) == significant(
            front + back,
        ),
{
    assert((seq![c] + back).drop_first() =~= back);
    assert((seq![c] + back)[0] == c);
    let with = front + seq![c] + back;
    let without = front + back;
    if (c == '\t' || c == '\n' || c == '\r') && front.len() > 0 && back.len() > 0 && front[0] > ' '
        && back.last() > ' ' {
        assert(with[0] == front[0] && without[0] == front[0]);
        assert(with.last() == back.last() && without.last() == back.last());
        lemma_breaks_are_dropped(c, front, back);
    }
}

proof fn lemma_breaks_are_dropped(c: char, front: Seq<char>, back: Seq<char>)
    requires
        is_break(c),
    ensures
        unbroken(front + seq![c] + back) == unbroken(front + back),
    decreases back.len(),
{
    let with = front + seq![c] + back;
    let without = front + back;
    if back.len() == 0 {
        assert(with.drop_last() =~= front);
        assert(without =~= front);
        assert(with.last() == c);
    } else {
        lemma_breaks_are_dropped(c, front, back.drop_last());
        assert(with.drop_last() =~= front + seq![c] + back.drop_last());
        assert(without.drop_last() =~= front + back.drop_last());
    }
}

/// Which schemes can be exchanged for a websocket one, in any case of their letters.
pub proof fn law_exchangeable_schemes(
    scheme: Seq<char>,
    host: Seq<char>,
    port: Option<nat>,
    tail: Seq<char>,
)
    requires
        scheme.len() > 0,
        host.len() > 0,
        forall|i: int| 0 <= i < scheme.len() ==> plain(#[trigger] scheme[i]),
        forall|i: int| 0 <= i < host.len() ==> plain(#[trigger] host[i]),
        forall|i: int| 0 <= i < tail.len() ==> #[trigger] tail[i] > ' ',
        tail.len() == 0 || tail[0] == '/' || tail[0] == '\\' || tail[0] == '?' || tail[0] == '#',
    ensures
        ({
            let url = spelled_out(scheme, host, port, tail);
            &&& scheme == "http"@ || scheme == "https"@ || scheme == "ws"@ || scheme == "wss"@
                || scheme == "ftp"@ || scheme == "file"@ ==> has_exchangeable_scheme(url)
            &&& has_exchangeable_scheme(url) ==> scheme.len() <= 5
        }),
{
    reveal_strlit("http");
    reveal_strlit("https");
    reveal_strlit("ws");
    reveal_strlit("wss");
    reveal_strlit("ftp");
    reveal_strlit("file");
    law_scheme_and_port_are_read_back(scheme, "http"@, host, port, tail);
    law_scheme_and_port_are_read_back(scheme, "https"@, host, port, tail);
    law_scheme_and_port_are_read_back(scheme, "ws"@, host, port, tail);
    law_scheme_and_port_are_read_back(scheme, "wss"@, host, port, tail);
    law_scheme_and_port_are_read_back(scheme, "ftp"@, host, port, tail);
    law_scheme_and_port_are_read_back(scheme, "file"@, host, port, tail);
}

} // verus!
