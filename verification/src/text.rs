//! Text that goes into and comes out of a connection: decimal numbers, `host:port`
//! addresses, comparisons, lines.
use vstd::prelude::*;
use vstd::string::*;

verus! {

/// Whether `pattern` stands in `s` at position `i`.
pub open spec fn occurs_at<T>(s: Seq<T>, pattern: Seq<T>, i: int) -> bool {
    0 <= i && i + pattern.len() <= s.len() && s.subrange(i, i + pattern.len()) == pattern
}

/// Whether `pattern` stands in `s` at all.
pub open spec fn occurs<T>(s: Seq<T>, pattern: Seq<T>) -> bool {
    exists|i: int| occurs_at(s, pattern, i)
}

/// The character of a decimal digit.
pub open spec fn digit_char(d: nat) -> char {
    (0x30 + d) as char
}

/// A number in decimal, without leading zeros.
pub open spec fn decimal_text(n: nat) -> Seq<char>
    decreases n,
{
    if n < 10 {
        seq![digit_char(n)]
    } else {
        decimal_text(n / 10).push(digit_char(n % 10))
    }
}

/// `host:port`.
pub open spec fn host_port_text(host: Seq<char>, port: u16) -> Seq<char> {
    host + seq![':'] + decimal_text(port as nat)
}

/// An ASCII capital as its small letter, any other character as it is.
pub open spec fn ascii_lower(c: char) -> char {
    if 'A' <= c <= 'Z' {
        (c as u32 + 0x20) as char
    } else {
        c
    }
}

/// Whether two texts are the same up to the case of ASCII letters.
pub open spec fn same_ignoring_ascii_case(a: Seq<char>, b: Seq<char>) -> bool {
    &&& a.len() == b.len()
    &&& forall|i: int|
        #![trigger a[i]]
        #![trigger b[i]]
        0 <= i < a.len() ==> ascii_lower(a[i]) == ascii_lower(b[i])
}

/// The position of the first line feed, or the length where there is none.
pub open spec fn line_feed(text: Seq<char>) -> int
    decreases text.len(),
{
    if text.len() == 0 || text[0] == '\n' {
        0
    } else {
        1 + line_feed(text.skip(1))
    }
}

/// The first line of a text without its line ending, which is a line feed or a carriage
/// return and a line feed; nothing where the text is empty.
pub open spec fn first_line_text(text: Seq<char>) -> Option<Seq<char>> {
    let n = line_feed(text);
    if text.len() == 0 {
        None
    } else if n < text.len() && n > 0 && text[n - 1] == '\r' {
        Some(text.take(n - 1))
    } else {
        Some(text.take(n))
    }
}

/// The characters of a text.
pub fn chars_of(text: &str) -> (chars: Vec<char>)
    ensures
        chars@ == text@,
{
    let mut chars: Vec<char> = Vec::new();
    for c in it: text.chars()
        invariant
            it.seq() == text@,
            chars@ == text@.take(it.index()),
    {
        chars.push(c);
        assert(text@.take(it.index() + 1) == text@.take(it.index()).push(c));
    }
    assert(text@.take(text@.len() as int) == text@);
    chars
}

/// Whether two texts are the same.
pub fn same_text(a: &str, b: &str) -> (same: bool)
    ensures
        same == (a@ == b@),
{
    let a: String = a.to_owned();
    let b: String = b.to_owned();
    a == b
}

fn digit(d: u16) -> (text: &'static str)
    requires
        d < 10,
    ensures
        text@ == seq![digit_char(d as nat)],
{
    proof {
        reveal_strlit("0");
        reveal_strlit("1");
        reveal_strlit("2");
        reveal_strlit("3");
        reveal_strlit("4");
        reveal_strlit("5");
        reveal_strlit("6");
        reveal_strlit("7");
        reveal_strlit("8");
        reveal_strlit("9");
    }
    match d {
        0 => "0",
        1 => "1",
        2 => "2",
        3 => "3",
        4 => "4",
        5 => "5",
        6 => "6",
        7 => "7",
        8 => "8",
        _ => "9",
    }
}

/// A number in decimal.
pub fn decimal(n: u16) -> (text: String)
    ensures
        text@ == decimal_text(n as nat),
    decreases n,
{
    if n < 10 {
        digit(n).to_owned()
    } else {
        let mut text = decimal(n / 10);
        text.append(digit(n % 10));
        assert(text@ == decimal_text(n as nat / 10) + seq![digit_char(n as nat % 10)]);
        text
    }
}

/// The address `host:port`.
pub fn host_port(host: &str, port: u16) -> (address: String)
    ensures
        address@ == host_port_text(host@, port),
{
    proof {
        reveal_strlit(":");
    }
    let mut address = host.to_owned();
    address.append(":");
    address.append(decimal(port).as_str());
    assert(":"@ == seq![':']);
    address
}

fn lower(c: char) -> (l: char)
    ensures
        l == ascii_lower(c),
{
    if 'A' <= c && c <= 'Z' {
        (c as u8 + 0x20) as char
    } else {
        c
    }
}

/// Whether two texts are the same up to the case of ASCII letters.
pub fn eq_ignore_ascii_case(a: &str, b: &str) -> (same: bool)
    ensures
        same == same_ignoring_ascii_case(a@, b@),
{
    let left = chars_of(a);
    let right = chars_of(b);
    if left.len() != right.len() {
        return false;
    }
    for i in 0..left.len()
        invariant
            left@ == a@,
            right@ == b@,
            left@.len() == right@.len(),
            forall|j: int|
                #![trigger a@[j]]
                #![trigger b@[j]]
                0 <= j < i ==> ascii_lower(a@[j]) == ascii_lower(b@[j]),
    {
        if lower(left[i]) != lower(right[i]) {
            return false;
        }
    }
    true
}

proof fn lemma_line_feed(text: Seq<char>, n: int)
    requires
        0 <= n <= text.len(),
        forall|j: int| 0 <= j < n ==> text[j] != '\n',
        n < text.len() ==> text[n] == '\n',
    ensures
        line_feed(text) == n,
    decreases n,
{
    if n > 0 {
        lemma_line_feed(text.skip(1), n - 1);
    }
}

/// The first line of a text is fixed as soon as a line feed has come: texts that agree up to
/// one have the same first line.
pub proof fn first_line_is_stable(a: Seq<char>, b: Seq<char>, n: int)
    requires
        0 <= n < a.len(),
        n < b.len(),
        a[n] == '\n',
        a.take(n + 1) == b.take(n + 1),
    ensures
        first_line_text(a) == first_line_text(b),
{
    lemma_same_line_feed(a, b, n);
    let m = line_feed(a);
    assert forall|i: int| 0 <= i <= n implies a[i] == b[i] by {
        assert(a[i] == a.take(n + 1)[i] && b[i] == b.take(n + 1)[i]);
    }
    assert(a.take(m) == b.take(m));
    if m > 0 {
        assert(a.take(m - 1) == b.take(m - 1));
    }
}

proof fn lemma_same_line_feed(a: Seq<char>, b: Seq<char>, n: int)
    requires
        0 <= n < a.len(),
        n < b.len(),
        a[n] == '\n',
        a.take(n + 1) == b.take(n + 1),
    ensures
        line_feed(a) == line_feed(b),
        0 <= line_feed(a) <= n,
    decreases n,
{
    assert(a[0] == a.take(n + 1)[0] && b[0] == b.take(n + 1)[0]);
    if a[0] != '\n' {
        assert(a.skip(1).take(n) == a.take(n + 1).skip(1));
        assert(b.skip(1).take(n) == b.take(n + 1).skip(1));
        lemma_same_line_feed(a.skip(1), b.skip(1), n - 1);
    }
}

/// The first line of a text, without its line ending.
pub fn first_line(text: &str) -> (line: Option<String>)
    ensures
        line matches Some(l) ==> first_line_text(text@) == Some(l@),
        line is None ==> first_line_text(text@) is None,
{
    let chars = chars_of(text);
    if chars.len() == 0 {
        return None;
    }
    let mut n: usize = 0;
    while n < chars.len() && chars[n] != '\n'
        invariant
            n <= chars@.len(),
            forall|j: int| 0 <= j < n ==> chars@[j] != '\n',
        decreases chars@.len() - n,
    {
        n = n + 1;
    }
    proof {
        lemma_line_feed(text@, n as int);
    }
    if n < chars.len() && n > 0 && chars[n - 1] == '\r' {
        Some(text.substring_char(0, n - 1).to_owned())
    } else {
        Some(text.substring_char(0, n).to_owned())
    }
}

/// Whether `pattern` stands in `text`.
pub fn contains_text(text: &str, pattern: &str) -> (found: bool)
    ensures
        found == occurs(text@, pattern@),
{
    let s = chars_of(text);
    let p = chars_of(pattern);
    if s.len() < p.len() {
        return false;
    }
    let last = s.len() - p.len();
    let mut i: usize = 0;
    while i <= last
        invariant
            s@ == text@,
            p@ == pattern@,
            last == s@.len() - p@.len(),
            i <= last + 1,
            forall|j: int| 0 <= j < i ==> !occurs_at(text@, pattern@, j),
        decreases last + 1 - i,
    {
        let mut k: usize = 0;
        while k < p.len() && s[i + k] == p[k]
            invariant
                k <= p@.len(),
                i + p.len() <= s.len(),
                forall|j: int| 0 <= j < k ==> s@[i + j] == p@[j],
            decreases p@.len() - k,
        {
            k = k + 1;
        }
        if k == p.len() {
            assert(s@.subrange(i as int, i + p@.len()) == p@);
            assert(occurs_at(text@, pattern@, i as int));
            return true;
        }
        assert(s@.subrange(i as int, i + p@.len())[k as int] == s@[i + k]);
        if i == last {
            return false;
        }
        i = i + 1;
    }
    false
}

/// The number that digits stand for.
pub open spec fn number_of(digits: Seq<char>) -> int
    decreases digits.len(),
{
    if digits.len() == 0 {
        0
    } else {
        10 * number_of(digits.drop_last()) + (digits.last() as int - '0' as int)
    }
}

/// A number in decimal is made of digits, reads back as that number, and has no zero in
/// front, unless it is zero itself.
pub proof fn decimals_read_back(n: nat)
    ensures
        decimal_text(n).len() > 0,
        forall|i: int|
            0 <= i < decimal_text(n).len() ==> '0' <= #[trigger] decimal_text(n)[i] <= '9',
        number_of(decimal_text(n)) == n,
        decimal_text(n)[0] == '0' ==> n == 0 && decimal_text(n).len() == 1,
    decreases n,
{
    let text = decimal_text(n);
    reveal_with_fuel(number_of, 2);
    if n < 10 {
        assert(text.drop_last() == Seq::<char>::empty());
    } else {
        decimals_read_back(n / 10);
        assert(text.drop_last() == decimal_text(n / 10));
        assert(text[0] == decimal_text(n / 10)[0]);
    }
}

/// An address is the host as it is, a colon, and digits that read back as the port.
pub proof fn addresses_read_back(host: Seq<char>, port: u16)
    ensures
        host_port_text(host, port).len() > host.len() + 1,
        host_port_text(host, port).take(host.len() as int) == host,
        host_port_text(host, port)[host.len() as int] == ':',
        number_of(host_port_text(host, port).skip(host.len() as int + 1)) == port,
        forall|i: int|
            host.len() < i < host_port_text(host, port).len() ==> '0' <= #[trigger] host_port_text(
                host,
                port,
            )[i] <= '9',
        host_port_text(host, port)[host.len() as int + 1] == '0' ==> port == 0 && host_port_text(
            host,
            port,
        ).len() == host.len() + 2,
{
    decimals_read_back(port as nat);
    let text = host_port_text(host, port);
    let digits = decimal_text(port as nat);
    assert(text.take(host.len() as int) == host);
    assert(text.skip(host.len() as int + 1) == digits);
    assert forall|i: int| host.len() < i < text.len() implies '0' <= #[trigger] text[i] <= '9' by {
        assert(text[i] == digits[i - host.len() - 1]);
    }
    assert(text[host.len() as int + 1] == digits[0]);
}

/// Addresses of the same host tell its ports apart.
pub proof fn ports_are_told_apart(host: Seq<char>, port: u16, other: u16)
    ensures
        host_port_text(host, port) == host_port_text(host, other) ==> port == other,
{
    addresses_read_back(host, port);
    addresses_read_back(host, other);
}

/// A pattern stands in a text if and only if the text is something before it, the pattern,
/// and something after it.
pub proof fn occurring_is_standing_between<T>(s: Seq<T>, pattern: Seq<T>)
    ensures
        occurs(s, pattern) <==> exists|before: Seq<T>, after: Seq<T>|
            s == #[trigger] (before + pattern + after),
{
    if occurs(s, pattern) {
        let i = choose|i: int| occurs_at(s, pattern, i);
        let before = s.take(i);
        let after = s.skip(i + pattern.len());
        let window = s.subrange(i, i + pattern.len());
        assert forall|k: int| 0 <= k < pattern.len() implies s[i + k] == #[trigger] pattern[k] by {
            assert(window[k] == s[i + k]);
        }
        assert(s == before + pattern + after);
    }
    if exists|before: Seq<T>, after: Seq<T>| s == #[trigger] (before + pattern + after) {
        let (before, after) = choose|before: Seq<T>, after: Seq<T>|
            s == #[trigger] (before + pattern + after);
        let i = before.len() as int;
        assert(s.subrange(i, i + pattern.len()) == pattern);
        assert(occurs_at(s, pattern, i));
    }
}

/// Two texts are the same up to the case of ASCII letters if and only if each character of
/// one is that of the other, or a letter from `a` to `z` against its capital.
pub proof fn case_is_all_that_is_ignored(a: Seq<char>, b: Seq<char>)
    ensures
        same_ignoring_ascii_case(a, b) <==> a.len() == b.len() && forall|i: int|
            0 <= i < a.len() ==> (#[trigger] a[i] == b[i] || ('A' <= a[i] <= 'Z' && b[i] as int
                == a[i] as int + 32) || ('A' <= b[i] <= 'Z' && a[i] as int == b[i] as int + 32)),
{
    assert forall|c: char, d: char|
        (#[trigger] ascii_lower(c) == #[trigger] ascii_lower(d)) <==> (c == d || ('A' <= c <= 'Z'
            && d as int == c as int + 32) || ('A' <= d <= 'Z' && c as int == d as int + 32)) by {
        lemma_ascii_lower(c);
        lemma_ascii_lower(d);
    }
    if a.len() == b.len() && forall|i: int|
        0 <= i < a.len() ==> (#[trigger] a[i] == b[i] || ('A' <= a[i] <= 'Z' && b[i] as int
            == a[i] as int + 32) || ('A' <= b[i] <= 'Z' && a[i] as int == b[i] as int + 32)) {
        assert forall|i: int|
            #![trigger a[i]]
            #![trigger b[i]]
            0 <= i < a.len() implies ascii_lower(a[i]) == ascii_lower(b[i]) by {
            assert(a[i] == a[i]);
        }
    }
    if same_ignoring_ascii_case(a, b) {
        assert forall|i: int| 0 <= i < a.len() implies (#[trigger] a[i] == b[i] || ('A' <= a[i]
            <= 'Z' && b[i] as int == a[i] as int + 32) || ('A' <= b[i] <= 'Z' && a[i] as int
            == b[i] as int + 32)) by {
            assert(ascii_lower(a[i]) == ascii_lower(b[i]));
        }
    }
}

proof fn lemma_ascii_lower(c: char)
    ensures
        'A' <= c <= 'Z' ==> ascii_lower(c) as int == c as int + 32,
        !('A' <= c <= 'Z') ==> ascii_lower(c) == c,
{
}

/// The first line of a text is what stands before its first line feed, or before a carriage
/// return and that line feed, or the whole text where there is none; only the empty text has
/// no line.
pub proof fn first_lines_end_at_a_line_feed(line: Seq<char>, rest: Seq<char>)
    requires
        forall|i: int| 0 <= i < line.len() ==> line[i] != '\n',
    ensures
        first_line_text(Seq::empty()) is None,
        line.len() > 0 ==> first_line_text(line) == Some(line),
        first_line_text(line + seq!['\r', '\n'] + rest) == Some(line),
        line.len() == 0 || line.last() != '\r' ==> first_line_text(line + seq!['\n'] + rest)
            == Some(line),
{
    let n = line.len() as int;
    lemma_line_feed(line, n);
    assert(line.take(n) == line);
    let crlf = line + seq!['\r', '\n'] + rest;
    lemma_line_feed(crlf, n + 1);
    assert(crlf[n] == '\r');
    assert(crlf.take(n) == line);
    let lf = line + seq!['\n'] + rest;
    lemma_line_feed(lf, n);
    assert(lf.take(n) == line);
    if n > 0 {
        assert(lf[n - 1] == line.last());
    }
}

} // verus!
