//! URLs: the parts of one that a connection depends on, and the form of one that may be
//! shown in a log.
use vstd::prelude::*;
use vstd::utf8::*;

use crate::text::same_text;

verus! {

/// The parts of a URL that a connection depends on.
#[derive(Debug)]
pub struct Address {
    /// The URL up to its query or fragment.
    pub before_query: String,
    /// The scheme, in small letters.
    pub scheme: String,
    /// The host, where the URL has one.
    pub host: Option<String>,
    /// The port, or else the default port of the scheme where it is known.
    pub port: Option<u16>,
    /// The user name, percent-encoded; empty where there is none.
    pub username: String,
    /// The password, percent-encoded, where there is one.
    pub password: Option<String>,
    /// The names and values in the query, decoded.
    pub query: Vec<(String, String)>,
    /// The fragment, where there is one.
    pub fragment: Option<String>,
}

/// The parts of a URL, in contracts.
pub struct AddressView {
    pub before_query: Seq<char>,
    pub scheme: Seq<char>,
    pub host: Option<Seq<char>>,
    pub port: Option<u16>,
    pub username: Seq<char>,
    pub password: Option<Seq<char>>,
    pub query: Seq<(Seq<char>, Seq<char>)>,
    pub fragment: Option<Seq<char>>,
}

impl View for Address {
    type V = AddressView;

    open spec fn view(&self) -> AddressView {
        AddressView {
            before_query: self.before_query@,
            scheme: self.scheme@,
            host: self.host.deep_view(),
            port: self.port,
            username: self.username@,
            password: self.password.deep_view(),
            query: self.query.deep_view(),
            fragment: self.fragment.deep_view(),
        }
    }
}

/// A text without carriage returns and line feeds.
pub open spec fn single_line(text: Seq<char>) -> bool {
    forall|i: int| 0 <= i < text.len() ==> text[i] != '\r' && text[i] != '\n'
}

/// The schemes that have a default port.
pub open spec fn has_default_port(scheme: Seq<char>) -> bool {
    scheme == "http"@ || scheme == "https"@ || scheme == "ws"@ || scheme == "wss"@ || scheme
        == "ftp"@
}

/// Whether a text is short enough to be read as a URL. `url::Url` keeps positions in the URL
/// as numbers of 32 bits and counts on from them, and the URL that it writes can be several
/// times as long as the text: percent-encoding makes three bytes of one, and the ASCII form
/// of a host may grow more than that.
pub open spec fn text_fits(text: Seq<char>) -> bool {
    encode_utf8(text).len() <= 0x03ff_ffff
}

/// What `url::Url::parse` makes of a text that fits: the parts of the URL, or its error in
/// words.
pub uninterp spec fn url_parts(text: Seq<char>) -> Result<AddressView, Seq<char>>;

/// Calls `url::Url::parse` and reads the parts of the URL off with `scheme`, `host_str`,
/// `port_or_known_default`, `username`, `password`, `query_pairs` and `fragment` of
/// `url::Url`, and what stands up to `url::Position::AfterPath`. What comes back is a
/// function of the text alone. A URL whose scheme has a default port has a port, and a host
/// has neither a carriage return nor a line feed in it.
#[verifier::external_body]
fn parse_parts(text: &str) -> (parts: Result<Address, String>)
    requires
        text_fits(text@),
    ensures
        parsed_view(parts) == url_parts(text@),
        parts matches Ok(address) ==> has_default_port(address@.scheme) ==> address.port is Some,
        parts matches Ok(address) ==> address@.host matches Some(host) ==> single_line(host),
{
    match url::Url::parse(text) {
        Ok(url) => Ok(Address {
            before_query: url[..url::Position::AfterPath].to_owned(),
            scheme: url.scheme().to_owned(),
            host: url.host_str().map(str::to_owned),
            port: url.port_or_known_default(),
            username: url.username().to_owned(),
            password: url.password().map(str::to_owned),
            query: url.query_pairs().into_owned().collect(),
            fragment: url.fragment().map(str::to_owned),
        }),
        Err(error) => Err(error.to_string()),
    }
}

/// What the reading of a URL gave, in contracts.
pub open spec fn parsed_view(parsed: Result<Address, String>) -> Result<AddressView, Seq<char>> {
    match parsed {
        Ok(address) => Ok(address@),
        Err(error) => Err(error@),
    }
}

/// What the reading of any text as a URL gives: a text that does not fit is an error.
pub open spec fn parsed(text: Seq<char>) -> Result<AddressView, Seq<char>> {
    if text_fits(text) {
        url_parts(text)
    } else {
        Err("URLs of 64 MiB and more are not supported"@)
    }
}

/// Whether a text is short enough to be read as a URL.
fn fits_as_url(text: &str) -> (fit: bool)
    ensures
        fit == text_fits(text@),
{
    text.as_bytes().len() <= 0x03ff_ffff
}

impl Address {
    /// Reads a URL. The error is in words.
    pub fn parse(text: &str) -> (parts: Result<Address, String>)
        ensures
            parsed_view(parts) == parsed(text@),
            parts matches Ok(address) ==> has_default_port(address@.scheme)
                ==> address.port is Some,
            parts matches Ok(address) ==> address@.host matches Some(host) ==> single_line(host),
    {
        if fits_as_url(text) {
            parse_parts(text)
        } else {
            Err("URLs of 64 MiB and more are not supported".to_owned())
        }
    }
}

/// The name in a query whose value must not be shown.
pub open spec fn secret_name() -> Seq<char> {
    "access_token"@
}

/// The names and values of a query that may be shown: those of every other name as they
/// are, and at the end the secret name with three dots for its value.
pub open spec fn shown_query(query: Seq<(Seq<char>, Seq<char>)>) -> Seq<(Seq<char>, Seq<char>)> {
    query.filter(|pair: (Seq<char>, Seq<char>)| pair.0 != secret_name()).push(
        (secret_name(), "..."@),
    )
}

/// What may be shown of a query.
pub fn redact_query(query: &Vec<(String, String)>) -> (shown: Vec<(String, String)>)
    ensures
        shown.deep_view() == shown_query(query.deep_view()),
{
    let ghost keep = |pair: (Seq<char>, Seq<char>)| pair.0 != secret_name();
    let mut shown: Vec<(String, String)> = Vec::new();
    for i in 0..query.len()
        invariant
            keep == (|pair: (Seq<char>, Seq<char>)| pair.0 != secret_name()),
            shown.deep_view() == query.deep_view().take(i as int).filter(keep),
    {
        let ghost before = shown.deep_view();
        let ghost all = query.deep_view();
        assert(all.take(i + 1).drop_last() == all.take(i as int));
        assert(all.take(i + 1).last() == query@[i as int].deep_view());
        proof {
            reveal(Seq::filter);
        }
        if !same_text(query[i].0.as_str(), "access_token") {
            shown.push((query[i].0.clone(), query[i].1.clone()));
            assert(shown.deep_view() == before.push(query@[i as int].deep_view()));
        }
    }
    assert(query.deep_view().take(query@.len() as int) == query.deep_view());
    let ghost before = shown.deep_view();
    shown.push(("access_token".to_owned(), "...".to_owned()));
    assert(shown.deep_view() == before.push((secret_name(), "..."@)));
    shown
}

/// The bytes that stand for themselves in an encoded query: ASCII letters and digits, and
/// `*`, `-`, `.` and `_`.
pub open spec fn stands_for_itself(b: u8) -> bool {
    0x30 <= b <= 0x39 || 0x41 <= b <= 0x5a || 0x61 <= b <= 0x7a || b == 0x2a || b == 0x2d || b
        == 0x2e || b == 0x5f
}

/// A digit to the base 16, in capitals.
pub open spec fn hex_digit(d: int) -> char {
    if d < 10 {
        (0x30 + d) as char
    } else {
        (0x41 + d - 10) as char
    }
}

/// A byte in an encoded query: itself, a plus for a space, or a percent sign and two digits.
pub open spec fn form_byte(b: u8) -> Seq<char> {
    if stands_for_itself(b) {
        seq![b as char]
    } else if b == 0x20 {
        seq!['+']
    } else {
        seq!['%', hex_digit(b as int / 16), hex_digit(b as int % 16)]
    }
}

/// Bytes in an encoded query.
pub open spec fn form_bytes(bytes: Seq<u8>) -> Seq<char>
    decreases bytes.len(),
{
    if bytes.len() == 0 {
        Seq::empty()
    } else {
        form_bytes(bytes.drop_last()) + form_byte(bytes.last())
    }
}

/// A name and its value in an encoded query.
pub open spec fn form_pair(pair: (Seq<char>, Seq<char>)) -> Seq<char> {
    form_bytes(encode_utf8(pair.0)) + seq!['='] + form_bytes(encode_utf8(pair.1))
}

/// An encoded query: names and values, with ampersands between them.
pub open spec fn form_query(query: Seq<(Seq<char>, Seq<char>)>) -> Seq<char>
    decreases query.len(),
{
    if query.len() == 0 {
        Seq::empty()
    } else if query.len() == 1 {
        form_pair(query[0])
    } else {
        form_query(query.drop_last()) + seq!['&'] + form_pair(query.last())
    }
}

/// A URL put together from what stands before its query, its query and its fragment.
pub open spec fn url_text(
    before_query: Seq<char>,
    query: Seq<(Seq<char>, Seq<char>)>,
    fragment: Option<Seq<char>>,
) -> Seq<char> {
    before_query + seq!['?'] + form_query(query) + match fragment {
        Some(text) => seq!['#'] + text,
        None => Seq::empty(),
    }
}

/// Whether `url::Url` can write a query: its positions in the URL are numbers of 32 bits,
/// that of the query and, where there is one, that of the fragment.
pub open spec fn query_fits(
    before_query: Seq<char>,
    query: Seq<(Seq<char>, Seq<char>)>,
    fragment: Option<Seq<char>>,
) -> bool {
    &&& encode_utf8(before_query).len() <= u32::MAX
    &&& fragment is Some ==> encode_utf8(before_query).len() + 1 + form_query(query).len()
        <= u32::MAX
}

/// Calls `url::Url::query_pairs_mut` on the URL in a text, clears the query and writes the
/// given names and values into it with `extend_pairs`. It writes a URL where it was given
/// one: what stood before the query as it was, the names and values encoded as forms are,
/// and the fragment as it was. Whoever reads that URL finds these names and values in its
/// query.
#[verifier::external_body]
fn replace_query(text: &str, query: &Vec<(String, String)>) -> (replaced: Option<String>)
    requires
        text_fits(text@),
        url_parts(text@) matches Ok(address) ==> query_fits(
            address.before_query,
            query.deep_view(),
            address.fragment,
        ),
    ensures
        replaced.deep_view() == match url_parts(text@) {
            Ok(address) => Some(
                url_text(address.before_query, query.deep_view(), address.fragment),
            ),
            Err(_) => None,
        },
        replaced matches Some(r) ==> text_fits(r@) ==> (url_parts(r@) matches Ok(address)
            ==> address.query == query.deep_view()),
{
    let mut url = url::Url::parse(text).ok()?;
    url.query_pairs_mut().clear().extend_pairs(query);
    Some(url.into())
}

/// Adds the length of encoded bytes to a total, as long as it stays within a limit.
fn add_encoded_length(total: u64, bytes: &[u8], limit: u64) -> (sum: Option<u64>)
    requires
        total <= limit <= u32::MAX,
    ensures
        match sum {
            Some(n) => n == total + form_bytes(bytes@).len() && n <= limit,
            None => total + form_bytes(bytes@).len() > limit,
        },
{
    let mut sum: u64 = total;
    for i in 0..bytes.len()
        invariant
            sum == total + form_bytes(bytes@.take(i as int)).len(),
            sum <= limit <= u32::MAX,
    {
        proof {
            assert(bytes@.take(i + 1).drop_last() == bytes@.take(i as int));
            lemma_form_bytes_grow(bytes@, i + 1);
        }
        let b: u8 = bytes[i];
        let one = (0x30 <= b && b <= 0x39) || (0x41 <= b && b <= 0x5a) || (0x61 <= b && b <= 0x7a)
            || b == 0x2a || b == 0x2d || b == 0x2e || b == 0x5f || b == 0x20;
        sum = sum + if one {
            1
        } else {
            3
        };
        if sum > limit {
            return None;
        }
    }
    assert(bytes@.take(bytes@.len() as int) == bytes@);
    Some(sum)
}

proof fn lemma_form_bytes_grow(bytes: Seq<u8>, n: int)
    requires
        0 <= n <= bytes.len(),
    ensures
        form_bytes(bytes.take(n)).len() <= form_bytes(bytes).len(),
    decreases bytes.len(),
{
    if n < bytes.len() {
        lemma_form_bytes_grow(bytes.drop_last(), n);
        assert(bytes.drop_last().take(n) == bytes.take(n));
    } else {
        assert(bytes.take(n) == bytes);
    }
}

proof fn lemma_form_query_grow(query: Seq<(Seq<char>, Seq<char>)>, n: int)
    requires
        0 <= n <= query.len(),
    ensures
        form_query(query.take(n)).len() <= form_query(query).len(),
    decreases query.len(),
{
    if n < query.len() {
        lemma_form_query_grow(query.drop_last(), n);
        assert(query.drop_last().take(n) == query.take(n));
    } else {
        assert(query.take(n) == query);
    }
}

/// Whether the new query fits, see [`query_fits`].
fn fits(before_query: &str, query: &Vec<(String, String)>, fragment: &Option<String>) -> (fit: bool)
    ensures
        fit == query_fits(before_query@, query.deep_view(), fragment.deep_view()),
{
    let limit: u64 = 0xffff_ffff;
    let length = before_query.as_bytes().len();
    if length as u64 > limit {
        return false;
    }
    if fragment.is_none() {
        return true;
    }
    let ghost all = query.deep_view();
    let ghost start = encode_utf8(before_query@).len() + 1;
    if length as u64 == limit {
        return false;
    }
    let mut total: u64 = length as u64 + 1;
    for i in 0..query.len()
        invariant
            all == query.deep_view(),
            limit == u32::MAX,
            start == encode_utf8(before_query@).len() + 1,
            total == start + form_query(all.take(i as int)).len(),
            total <= limit,
            fragment.deep_view() is Some,
    {
        let ghost next = all.take(i + 1);
        proof {
            assert(next.drop_last() == all.take(i as int));
            assert(next.last() == query@[i as int].deep_view());
            lemma_form_query_grow(all, i + 1);
            if i == 0 {
                assert(form_query(next) == form_pair(next[0]));
            }
        }
        let signs: u64 = if i == 0 {
            1
        } else {
            2
        };
        if limit - total < signs {
            return false;
        }
        let sum = match add_encoded_length(total + signs, query[i].0.as_str().as_bytes(), limit) {
            Some(sum) => sum,
            None => {
                return false;
            },
        };
        total = match add_encoded_length(sum, query[i].1.as_str().as_bytes(), limit) {
            Some(sum) => sum,
            None => {
                return false;
            },
        };
    }
    assert(all.take(all.len() as int) == all);
    true
}

/// The form of a URL that may be shown in a log: nothing where the text is not a URL or the
/// query cannot be written.
pub open spec fn shown_url(text: Seq<char>) -> Option<Seq<char>> {
    match parsed(text) {
        Ok(address) => if query_fits(
            address.before_query,
            shown_query(address.query),
            address.fragment,
        ) {
            Some(url_text(address.before_query, shown_query(address.query), address.fragment))
        } else {
            None
        },
        Err(_) => None,
    }
}

/// Writes a URL so that it may be shown in a log. It shows no value of the secret name:
/// whoever reads the result finds the shown query in it.
pub fn redact_url(text: &str) -> (shown: Option<String>)
    ensures
        shown.deep_view() == shown_url(text@),
        shown matches Some(s) ==> (parsed(s@) matches Ok(read) ==> read.query == shown_query(
            parsed(text@)->Ok_0.query,
        )),
{
    match Address::parse(text) {
        Ok(address) => {
            let query = redact_query(&address.query);
            if fits(address.before_query.as_str(), &query, &address.fragment) {
                replace_query(text, &query)
            } else {
                None
            }
        },
        Err(_) => None,
    }
}

/// What a log shows of two URLs does not tell their tokens apart. URLs that are the same but
/// for their queries, with the same names and values there but for the secret name, are
/// shown alike, whether they have a token or not.
pub proof fn shown_urls_do_not_tell_tokens_apart(a: Seq<char>, b: Seq<char>)
    requires
        parsed(a) matches Ok(x) && parsed(b) matches Ok(y) && x.before_query == y.before_query
            && x.fragment == y.fragment && x.query.filter(
            |pair: (Seq<char>, Seq<char>)| pair.0 != "access_token"@,
        ) == y.query.filter(|pair: (Seq<char>, Seq<char>)| pair.0 != "access_token"@),
    ensures
        shown_url(a) == shown_url(b),
{
    let other = |pair: (Seq<char>, Seq<char>)| pair.0 != "access_token"@;
    assert(other =~= (|pair: (Seq<char>, Seq<char>)| pair.0 != secret_name()));
}

/// A shown query holds the secret name exactly once, at the end, with three dots for its
/// value: no other value of it is shown, whatever the query held.
pub proof fn secret_is_never_shown(query: Seq<(Seq<char>, Seq<char>)>)
    ensures
        forall|i: int|
            0 <= i < shown_query(query).len() ==> (#[trigger] shown_query(query)[i].0
                == "access_token"@ <==> i == shown_query(query).len() - 1),
        shown_query(query).last() == ("access_token"@, "..."@),
{
    let keep = |pair: (Seq<char>, Seq<char>)| pair.0 != secret_name();
    assert forall|i: int| 0 <= i < shown_query(query).len() implies (
    #[trigger] shown_query(query)[i].0 == secret_name() <==> i == shown_query(query).len() - 1) by {
        if i < shown_query(query).len() - 1 {
            assert(keep(query.filter(keep)[i]));
        }
    }
}

/// Showing a query keeps every name but the secret one, with its value: a pair of another
/// name is in the shown query if and only if it is in the query.
pub proof fn other_names_are_shown(query: Seq<(Seq<char>, Seq<char>)>, pair: (Seq<char>, Seq<char>))
    requires
        pair.0 != "access_token"@,
    ensures
        shown_query(query).contains(pair) <==> query.contains(pair),
{
    let keep = |pair: (Seq<char>, Seq<char>)| pair.0 != secret_name();
    let kept = query.filter(keep);
    if query.contains(pair) {
        let i = choose|i: int| 0 <= i < query.len() && query[i] == pair;
        assert(keep(query[i]));
        assert(kept.contains(pair));
        let j = choose|j: int| 0 <= j < kept.len() && kept[j] == pair;
        assert(shown_query(query)[j] == pair);
    }
    if shown_query(query).contains(pair) {
        let j = choose|j: int| 0 <= j < shown_query(query).len() && shown_query(query)[j] == pair;
        assert(j < kept.len());
        assert(kept[j] == pair);
        query.lemma_filter_contains_rev(keep, pair);
    }
}

/// Showing twice shows the same as showing once.
pub proof fn showing_is_idempotent(query: Seq<(Seq<char>, Seq<char>)>)
    ensures
        shown_query(shown_query(query)) == shown_query(query),
{
    let keep = |pair: (Seq<char>, Seq<char>)| pair.0 != secret_name();
    let kept = query.filter(keep);
    let shown = kept.push((secret_name(), "..."@));
    reveal(Seq::filter);
    assert(shown.drop_last() == kept);
    lemma_filter_all(kept, keep);
    assert(shown.filter(keep) == kept);
}

proof fn lemma_filter_all<T>(s: Seq<T>, keep: spec_fn(T) -> bool)
    requires
        forall|i: int| 0 <= i < s.len() ==> keep(#[trigger] s[i]),
    ensures
        s.filter(keep) == s,
    decreases s.len(),
{
    reveal(Seq::filter);
    if s.len() > 0 {
        lemma_filter_all(s.drop_last(), keep);
    }
}

/// Showing goes pair by pair and keeps their order: what is shown of a query that goes on is
/// what is shown of its first part and of the rest, in this order, and then the dots. A pair
/// is shown as it is, unless its name is `access_token`; then it is not shown.
pub proof fn showing_goes_pair_by_pair(
    query: Seq<(Seq<char>, Seq<char>)>,
    rest: Seq<(Seq<char>, Seq<char>)>,
    name: Seq<char>,
    value: Seq<char>,
)
    ensures
        shown_query(Seq::empty()) == seq![("access_token"@, "..."@)],
        shown_query(query + rest) == shown_query(query).drop_last() + shown_query(rest),
        name != "access_token"@ ==> shown_query(seq![(name, value)]) == seq![
            (name, value),
            ("access_token"@, "..."@),
        ],
        shown_query(seq![("access_token"@, value)]) == seq![("access_token"@, "..."@)],
{
    let keep = |pair: (Seq<char>, Seq<char>)| pair.0 != secret_name();
    reveal(Seq::filter);
    assert(Seq::<(Seq<char>, Seq<char>)>::empty().filter(keep) =~= Seq::empty());
    lemma_filter_of_one((name, value), keep);
    lemma_filter_of_one(("access_token"@, value), keep);
    Seq::filter_distributes_over_add(query, rest, keep);
    assert(shown_query(query).drop_last() == query.filter(keep));
    assert(shown_query(query + rest) == shown_query(query).drop_last() + shown_query(rest));
}

proof fn lemma_filter_of_one<T>(x: T, keep: spec_fn(T) -> bool)
    ensures
        seq![x].filter(keep) == if keep(x) {
            seq![x]
        } else {
            Seq::empty()
        },
{
    reveal(Seq::filter);
    assert(seq![x].drop_last() == Seq::<T>::empty());
    reveal_with_fuel(Seq::filter, 2);
}

/// Any text of fewer than 64 MiB is read as the URL that it is, or is not; only longer ones
/// are refused unread.
pub proof fn only_long_texts_are_refused(text: Seq<char>)
    ensures
        encode_utf8(text).len() < 64 * 1024 * 1024 ==> parsed(text) == url_parts(text),
        encode_utf8(text).len() >= 64 * 1024 * 1024 ==> parsed(text) is Err,
{
}

/// A URL is shown as what stands before its query, a question mark, the shown query, and its
/// fragment behind a number sign where it has one. It is not shown only where the text is no
/// URL or a position in what is shown does not fit into 32 bits.
pub proof fn urls_are_shown_whole(text: Seq<char>)
    ensures
        parsed(text) is Err ==> shown_url(text) is None,
        parsed(text) matches Ok(url) ==> {
            let start = url.before_query + seq!['?'] + form_query(shown_query(url.query));
            &&& url.fragment is None && encode_utf8(url.before_query).len() < 0x1_0000_0000
                ==> shown_url(text) == Some(start)
            &&& url.fragment matches Some(fragment) ==> encode_utf8(url.before_query).len() + 1
                + form_query(shown_query(url.query)).len() < 0x1_0000_0000 ==> shown_url(text)
                == Some(start + seq!['#'] + fragment)
        },
{
    if let Ok(url) = parsed(text) {
        let start = url.before_query + seq!['?'] + form_query(shown_query(url.query));
        if let Some(fragment) = url.fragment {
            assert(start + (seq!['#'] + fragment) == start + seq!['#'] + fragment);
        } else {
            assert(start + Seq::<char>::empty() == start);
        }
    }
}

} // verus!
