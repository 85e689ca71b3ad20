//! Going through an HTTP proxy: when, with which request, and what the answer means.
use vstd::prelude::*;
use vstd::string::*;
use vstd::utf8::*;

use crate::address::{parsed, parsed_view, single_line, Address, AddressView};
use crate::error::{ConnectError, ConnectErrorOf};
use crate::options::SignalStreamOptions;
use crate::text::{
    case_is_all_that_is_ignored, contains_text, decimal_text, decimals_read_back,
    eq_ignore_ascii_case, first_line, first_line_is_stable, first_line_text,
    first_lines_end_at_a_line_feed, host_port, host_port_text, occurs, occurs_at,
    same_ignoring_ascii_case, same_text,
};

verus! {

/// The environment variables that a connection depends on, each where it is set.
#[derive(Debug)]
pub struct Environment {
    /// `LIVEKIT_SKIP_CERT_VERIFY`.
    pub skip_cert_verify: Option<String>,
    /// `HTTPS_PROXY`.
    pub https_proxy: Option<String>,
    /// `https_proxy`.
    pub https_proxy_lower: Option<String>,
    /// `HTTP_PROXY`.
    pub http_proxy: Option<String>,
    /// `http_proxy`.
    pub http_proxy_lower: Option<String>,
}

/// The environment, in contracts.
pub struct EnvironmentView {
    pub skip_cert_verify: Option<Seq<char>>,
    pub https_proxy: Option<Seq<char>>,
    pub https_proxy_lower: Option<Seq<char>>,
    pub http_proxy: Option<Seq<char>>,
    pub http_proxy_lower: Option<Seq<char>>,
}

impl View for Environment {
    type V = EnvironmentView;

    open spec fn view(&self) -> EnvironmentView {
        EnvironmentView {
            skip_cert_verify: self.skip_cert_verify.deep_view(),
            https_proxy: self.https_proxy.deep_view(),
            https_proxy_lower: self.https_proxy_lower.deep_view(),
            http_proxy: self.http_proxy.deep_view(),
            http_proxy_lower: self.http_proxy_lower.deep_view(),
        }
    }
}

/// Whether a setting says yes: `1`, or `true` in any case.
pub open spec fn says_yes(setting: Option<Seq<char>>) -> bool {
    setting matches Some(value) && (value == "1"@ || same_ignoring_ascii_case(value, "true"@))
}

/// Whether certificates go unverified: the options say so, or the environment does.
pub fn skips_cert_verify(options: &SignalStreamOptions, environment: &Environment) -> (skips: bool)
    ensures
        skips == (options.skip_cert_verify || says_yes(environment@.skip_cert_verify)),
{
    if options.skip_cert_verify {
        return true;
    }
    match &environment.skip_cert_verify {
        Some(value) => same_text(value.as_str(), "1") || eq_ignore_ascii_case(
            value.as_str(),
            "true",
        ),
        None => false,
    }
}

/// The proxy to go through: `HTTPS_PROXY` for a `wss` URL and `HTTP_PROXY` for any other,
/// or the variable in small letters where that one is not set. An empty value means none.
pub open spec fn proxy_for(scheme: Seq<char>, environment: EnvironmentView) -> Option<Seq<char>> {
    let (first, second) = if scheme == "wss"@ {
        (environment.https_proxy, environment.https_proxy_lower)
    } else {
        (environment.http_proxy, environment.http_proxy_lower)
    };
    let set = if first is Some {
        first
    } else {
        second
    };
    if set == Some(Seq::<char>::empty()) {
        None
    } else {
        set
    }
}

/// The proxy to go through, see [`proxy_for`].
pub fn proxy_setting<'a>(scheme: &str, environment: &'a Environment) -> (proxy: Option<&'a String>)
    ensures
        proxy.deep_view() == proxy_for(scheme@, environment@),
{
    let (first, second) = if same_text(scheme, "wss") {
        (&environment.https_proxy, &environment.https_proxy_lower)
    } else {
        (&environment.http_proxy, &environment.http_proxy_lower)
    };
    let set: Option<&String> = match first {
        Some(value) => Some(value),
        None => match second {
            Some(value) => Some(value),
            None => None,
        },
    };
    match set {
        Some(value) => if value.as_str().is_empty() {
            assert(value@ == Seq::<char>::empty());
            None
        } else {
            Some(value)
        },
        None => None,
    }
}

/// The character of base64 for six bits, in the standard alphabet.
pub open spec fn base64_char(v: int) -> char {
    if v < 26 {
        (0x41 + v) as char
    } else if v < 52 {
        (0x61 + v - 26) as char
    } else if v < 62 {
        (0x30 + v - 52) as char
    } else if v == 62 {
        '+'
    } else {
        '/'
    }
}

/// Bytes in base64: four characters of six bits each for three bytes, in the standard
/// alphabet, with padding where the last three are not complete.
pub open spec fn base64_text(bytes: Seq<u8>) -> Seq<char>
    decreases bytes.len(),
{
    if bytes.len() == 0 {
        Seq::empty()
    } else {
        let a = bytes[0] as int;
        let b = if bytes.len() > 1 {
            bytes[1] as int
        } else {
            0
        };
        let c = if bytes.len() > 2 {
            bytes[2] as int
        } else {
            0
        };
        let third = if bytes.len() > 1 {
            base64_char(b % 16 * 4 + c / 64)
        } else {
            '='
        };
        let fourth = if bytes.len() > 2 {
            base64_char(c % 64)
        } else {
            '='
        };
        let rest = if bytes.len() > 3 {
            base64_text(bytes.skip(3))
        } else {
            Seq::empty()
        };
        seq![base64_char(a / 4), base64_char(a % 4 * 16 + b / 16), third, fourth] + rest
    }
}

/// Whether the text of that many bytes in base64 still fits into memory.
pub open spec fn base64_fits(length: nat) -> bool {
    4 * ((length + 2) / 3) <= isize::MAX
}

/// Calls `base64::Engine::encode` of `base64::engine::general_purpose::STANDARD`. It gives
/// the bytes in base64 with the standard alphabet and padding.
#[verifier::external_body]
fn base64_encode(bytes: &[u8]) -> (text: String)
    requires
        base64_fits(bytes@.len()),
    ensures
        text@ == base64_text(bytes@),
{
    base64::Engine::encode(&base64::engine::general_purpose::STANDARD, bytes)
}

proof fn lemma_base64_single_line(bytes: Seq<u8>)
    ensures
        single_line(base64_text(bytes)),
    decreases bytes.len(),
{
    if bytes.len() > 3 {
        lemma_base64_single_line(bytes.skip(3));
    }
    let text = base64_text(bytes);
    assert forall|i: int| 0 <= i < text.len() implies text[i] != '\r' && text[i] != '\n' by {
        if i >= 4 {
            assert(text[i] == base64_text(bytes.skip(3))[i - 4]);
        }
    }
}

/// `user:password`, as they stand in the proxy's URL.
pub open spec fn credentials(username: Seq<char>, password: Seq<char>) -> Seq<char> {
    username + ":"@ + password
}

/// Whether these credentials can be encoded.
pub open spec fn credentials_fit(username: Seq<char>, password: Seq<char>) -> bool {
    base64_fits(encode_utf8(credentials(username, password)).len())
}

/// The value of the header that carries the credentials.
pub open spec fn basic_authorization(username: Seq<char>, password: Seq<char>) -> Seq<char> {
    "Basic "@ + base64_text(encode_utf8(credentials(username, password)))
}

fn join_credentials(username: &str, password: &str) -> (joined: String)
    ensures
        joined@ == credentials(username@, password@),
{
    let mut joined = username.to_owned();
    joined.append(":");
    joined.append(password);
    joined
}

/// Whether these credentials can be encoded.
pub fn credentials_can_be_encoded(username: &str, password: &str) -> (fit: bool)
    ensures
        fit == credentials_fit(username@, password@),
{
    let joined = join_credentials(username, password);
    let length = joined.as_str().as_bytes().len();
    let most: usize = isize::MAX as usize / 4;
    assert(base64_fits(length as nat) == ((length + 2) / 3 <= most));
    length / 3 < most || (length / 3 == most && length % 3 == 0)
}

/// The value of the header that carries the credentials: basic authentication. It stands on
/// one line.
pub fn authorization(username: &str, password: &str) -> (value: String)
    requires
        credentials_fit(username@, password@),
    ensures
        value@ == basic_authorization(username@, password@),
        single_line(value@),
{
    let joined = join_credentials(username, password);
    let encoded = base64_encode(joined.as_str().as_bytes());
    let mut value = "Basic ".to_owned();
    proof {
        reveal_strlit("Basic ");
    }
    value.append(encoded.as_str());
    proof {
        lemma_base64_single_line(encode_utf8(joined@));
    }
    assert forall|i: int| 0 <= i < value@.len() implies value@[i] != '\r' && value@[i] != '\n' by {
        if i >= 6 {
            assert(value@[i] == encoded@[i - 6]);
        }
    }
    value
}

/// The header line that carries the credentials, where there are any.
pub open spec fn authorization_line(authorization: Option<Seq<char>>) -> Seq<char> {
    match authorization {
        Some(value) => "Proxy-Authorization: "@ + value + "\r\n"@,
        None => Seq::empty(),
    }
}

/// The request that asks a proxy for a tunnel to a target.
pub open spec fn request_text(target: Seq<char>, authorization: Option<Seq<char>>) -> Seq<char> {
    "CONNECT "@ + target + " HTTP/1.1\r\nHost: "@ + target + "\r\n"@ + authorization_line(
        authorization,
    ) + "\r\n"@
}

/// Writes the request that asks a proxy for a tunnel to a target.
pub fn connect_request(target: &str, authorization: &Option<String>) -> (request: String)
    ensures
        request@ == request_text(target@, authorization.deep_view()),
{
    let mut request = "CONNECT ".to_owned();
    request.append(target);
    request.append(" HTTP/1.1\r\nHost: ");
    request.append(target);
    request.append("\r\n");
    match authorization {
        Some(value) => {
            let ghost before = request@;
            request.append("Proxy-Authorization: ");
            request.append(value.as_str());
            request.append("\r\n");
            assert(request@ == before + authorization_line(Some(value@)));
        },
        None => {
            assert(request@ == request@ + authorization_line(None));
        },
    }
    request.append("\r\n");
    request
}

/// The end of a head: an empty line after a line.
pub open spec fn head_end() -> Seq<u8> {
    seq![13u8, 10u8, 13u8, 10u8]
}

/// Whether the head of an answer is complete.
pub open spec fn head_complete(response: Seq<u8>) -> bool {
    occurs(response, head_end())
}

/// Whether the head of an answer is complete.
pub fn has_head_end(response: &Vec<u8>) -> (complete: bool)
    ensures
        complete == head_complete(response@),
{
    if response.len() < 4 {
        return false;
    }
    for i in 0..response.len() - 3
        invariant
            response@.len() >= 4,
            forall|j: int| 0 <= j < i ==> !occurs_at(response@, head_end(), j),
    {
        let ghost window = response@.subrange(i as int, i + 4);
        assert(window[0] == response@[i as int] && window[1] == response@[i + 1] && window[2]
            == response@[i + 2] && window[3] == response@[i + 3]);
        if response[i] == 13 && response[i + 1] == 10 && response[i + 2] == 13 && response[i + 3]
            == 10 {
            assert(window == head_end());
            assert(occurs_at(response@, head_end(), i as int));
            return true;
        }
        assert(head_end()[0] == 13 && head_end()[1] == 10 && head_end()[2] == 13 && head_end()[3]
            == 10);
    }
    false
}

/// What `String::from_utf8_lossy` makes of bytes.
pub uninterp spec fn utf8_lossy(bytes: Seq<u8>) -> Seq<char>;

/// Calls `String::from_utf8_lossy`. The text is a function of the bytes alone. Bytes that are
/// UTF-8 are decoded as they stand. A line feed is never part of a longer sequence: it
/// stands for itself, and what comes before and after it is decoded on its own.
#[verifier::external_body]
fn decode_lossy(bytes: &Vec<u8>) -> (text: String)
    ensures
        text@ == utf8_lossy(bytes@),
        valid_utf8(bytes@) ==> text@ == decode_utf8(bytes@),
        forall|n: int|
            0 <= n < bytes@.len() && #[trigger] bytes@[n] == 10 ==> text@ == utf8_lossy(
                bytes@.take(n),
            ) + seq!['\n'] + utf8_lossy(bytes@.skip(n + 1)),
{
    String::from_utf8_lossy(bytes).into_owned()
}

/// What the text of a proxy's answer means: the tunnel stands where the first line has
/// `200` in it.
pub open spec fn verdict_on(text: Seq<char>) -> Result<(), ConnectErrorOf<Seq<char>>> {
    match first_line_text(text) {
        None => Err(ConnectErrorOf::InvalidProxyResponse),
        Some(line) => if occurs(line, "200"@) {
            Ok(())
        } else {
            Err(ConnectErrorOf::ProxyRefused(line))
        },
    }
}

/// What the text of a proxy's answer means, see [`verdict_on`].
pub fn check_status(text: &str) -> (verdict: Result<(), ConnectError>)
    ensures
        match verdict {
            Ok(_) => verdict_on(text@) is Ok,
            Err(error) => verdict_on(text@) == Err::<(), ConnectErrorOf<Seq<char>>>(error@),
        },
{
    match first_line(text) {
        None => Err(ConnectErrorOf::InvalidProxyResponse),
        Some(line) => if contains_text(line.as_str(), "200") {
            Ok(())
        } else {
            Err(ConnectErrorOf::ProxyRefused(line))
        },
    }
}

/// The position of the first line feed in bytes, or their number where there is none.
pub open spec fn line_feed_byte(bytes: Seq<u8>) -> int
    decreases bytes.len(),
{
    if bytes.len() == 0 || bytes[0] == 10 {
        0
    } else {
        1 + line_feed_byte(bytes.skip(1))
    }
}

/// What a proxy's answer means: that of its first line, whatever bytes follow.
pub open spec fn verdict_on_bytes(response: Seq<u8>) -> Result<(), ConnectErrorOf<Seq<char>>> {
    let n = line_feed_byte(response);
    if n < response.len() {
        verdict_on(utf8_lossy(response.take(n)).push('\n'))
    } else {
        verdict_on(utf8_lossy(response))
    }
}

/// What a proxy's answer means. It is what its text means, and nothing that follows a line
/// feed changes it: the first line alone decides.
pub fn check_response(response: &Vec<u8>) -> (verdict: Result<(), ConnectError>)
    ensures
        match verdict {
            Ok(_) => verdict_on_bytes(response@) is Ok,
            Err(error) => verdict_on_bytes(response@) == Err::<(), ConnectErrorOf<Seq<char>>>(
                error@,
            ),
        },
        verdict_on_bytes(response@) == verdict_on(utf8_lossy(response@)),
        forall|n: int|
            0 <= n < response@.len() && #[trigger] response@[n] == 10 ==> verdict_on(
                utf8_lossy(response@),
            ) == verdict_on(utf8_lossy(response@.take(n)).push('\n')),
        valid_utf8(response@) ==> utf8_lossy(response@) == decode_utf8(response@),
{
    let text = decode_lossy(response);
    proof {
        lemma_line_feed_byte(response@);
    }
    assert forall|n: int| 0 <= n < response@.len() && #[trigger] response@[n]
        == 10 implies verdict_on(text@) == verdict_on(
        utf8_lossy(response@.take(n)).push('\n'),
    ) by {
        let before = utf8_lossy(response@.take(n));
        let short = before.push('\n');
        let end = before.len() as int;
        assert(text@.take(end + 1) == short);
        assert(short.take(end + 1) == short);
        first_line_is_stable(text@, short, end);
    }
    check_status(text.as_str())
}

proof fn lemma_line_feed_byte(bytes: Seq<u8>)
    ensures
        0 <= line_feed_byte(bytes) <= bytes.len(),
        line_feed_byte(bytes) < bytes.len() ==> bytes[line_feed_byte(bytes)] == 10,
    decreases bytes.len(),
{
    if bytes.len() > 0 && bytes[0] != 10 {
        lemma_line_feed_byte(bytes.skip(1));
    }
}

/// How to get through a proxy to a target. `T` is the type of the texts in it.
#[derive(Debug)]
pub struct ProxyPlanOf<T> {
    /// The host of the target.
    pub host: T,
    /// The host of the proxy.
    pub proxy_host: T,
    /// The address of the proxy.
    pub proxy_address: T,
    /// The request for a tunnel to the target.
    pub request: T,
}

/// How to get through a proxy to a target.
pub type ProxyPlan = ProxyPlanOf<String>;

impl View for ProxyPlanOf<String> {
    type V = ProxyPlanOf<Seq<char>>;

    open spec fn view(&self) -> ProxyPlanOf<Seq<char>> {
        ProxyPlanOf {
            host: self.host@,
            proxy_host: self.proxy_host@,
            proxy_address: self.proxy_address@,
            request: self.request@,
        }
    }
}

/// The authorization that a proxy's URL carries: none without a password.
pub open spec fn authorization_of(proxy: AddressView) -> Option<Seq<char>> {
    match proxy.password {
        Some(password) => Some(basic_authorization(proxy.username, password)),
        None => None,
    }
}

/// The port of a proxy: that of its URL, or else 80.
pub open spec fn proxy_port(proxy: AddressView) -> u16 {
    match proxy.port {
        Some(port) => port,
        None => 80,
    }
}

/// How to get to a target through a proxy, once the proxy's URL was read.
pub open spec fn plan_through(
    target: AddressView,
    proxy: Result<AddressView, Seq<char>>,
) -> Result<ProxyPlanOf<Seq<char>>, ConnectErrorOf<Seq<char>>> {
    match proxy {
        Err(error) => Err(ConnectErrorOf::InvalidProxyUrl(error)),
        Ok(proxy) => match (target.host, target.port, proxy.host) {
            (None, _, _) => Err(ConnectErrorOf::NoTargetHost),
            (Some(_), None, _) => Err(ConnectErrorOf::NoTargetPort),
            (Some(_), Some(_), None) => Err(ConnectErrorOf::NoProxyHost),
            (Some(host), Some(port), Some(proxy_host)) => if proxy.password matches Some(password)
                && !credentials_fit(proxy.username, password) {
                Err(ConnectErrorOf::CredentialsTooLong)
            } else {
                Ok(
                    ProxyPlanOf {
                        host,
                        proxy_host,
                        proxy_address: host_port_text(proxy_host, proxy_port(proxy)),
                        request: request_text(host_port_text(host, port), authorization_of(proxy)),
                    },
                )
            },
        },
    }
}

/// Decides how to get to a target through a proxy, once the proxy's URL was read. The
/// request is one head where the target's host stands on one line.
pub fn plan_for(target: &Address, proxy: Result<Address, String>) -> (plan: Result<
    ProxyPlan,
    ConnectError,
>)
    ensures
        match plan {
            Ok(p) => plan_through(target@, parsed_view(proxy)) == Ok::<
                ProxyPlanOf<Seq<char>>,
                ConnectErrorOf<Seq<char>>,
            >(p@),
            Err(error) => plan_through(target@, parsed_view(proxy)) == Err::<
                ProxyPlanOf<Seq<char>>,
                ConnectErrorOf<Seq<char>>,
            >(error@),
        },
        plan matches Ok(p) ==> (target@.host matches Some(host) && single_line(host)) ==> forall|
            i: int,
        |
            #[trigger] occurs_at(p.request@, "\r\n\r\n"@, i) <==> i == p.request@.len() - 4,
{
    let proxy = match proxy {
        Ok(proxy) => proxy,
        Err(error) => {
            return Err(ConnectErrorOf::InvalidProxyUrl(error));
        },
    };
    let host = match &target.host {
        Some(host) => host,
        None => {
            return Err(ConnectErrorOf::NoTargetHost);
        },
    };
    let port: u16 = match target.port {
        Some(port) => port,
        None => {
            return Err(ConnectErrorOf::NoTargetPort);
        },
    };
    let proxy_host = match &proxy.host {
        Some(host) => host,
        None => {
            return Err(ConnectErrorOf::NoProxyHost);
        },
    };
    let port_of_proxy: u16 = match proxy.port {
        Some(port) => port,
        None => 80,
    };
    let value: Option<String> = match &proxy.password {
        Some(password) => {
            if !credentials_can_be_encoded(proxy.username.as_str(), password.as_str()) {
                return Err(ConnectErrorOf::CredentialsTooLong);
            }
            Some(authorization(proxy.username.as_str(), password.as_str()))
        },
        None => None,
    };
    let target_address = host_port(host.as_str(), port);
    let request = connect_request(target_address.as_str(), &value);
    proof {
        if single_line(host@) {
            lemma_host_port_single_line(host@, port);
            assert forall|i: int|
                #[trigger] occurs_at(request@, "\r\n\r\n"@, i) <==> i == request@.len() - 4 by {
                request_is_one_head(target_address@, value.deep_view(), i);
            }
        }
    }
    Ok(
        ProxyPlanOf {
            host: host.clone(),
            proxy_host: proxy_host.clone(),
            proxy_address: host_port(proxy_host.as_str(), port_of_proxy),
            request,
        },
    )
}

/// Decides how to get to a target through the proxy of a setting.
pub fn plan_proxy(target: &Address, setting: &str) -> (plan: Result<ProxyPlan, ConnectError>)
    ensures
        match plan {
            Ok(p) => plan_through(target@, parsed(setting@)) == Ok::<
                ProxyPlanOf<Seq<char>>,
                ConnectErrorOf<Seq<char>>,
            >(p@),
            Err(error) => plan_through(target@, parsed(setting@)) == Err::<
                ProxyPlanOf<Seq<char>>,
                ConnectErrorOf<Seq<char>>,
            >(error@),
        },
        plan matches Ok(p) ==> (target@.host matches Some(host) && single_line(host)) ==> forall|
            i: int,
        |
            #[trigger] occurs_at(p.request@, "\r\n\r\n"@, i) <==> i == p.request@.len() - 4,
{
    plan_for(target, Address::parse(setting))
}

proof fn lemma_host_port_single_line(host: Seq<char>, port: u16)
    requires
        single_line(host),
    ensures
        single_line(host_port_text(host, port)),
{
    lemma_decimal_single_line(port as nat);
    let digits = decimal_text(port as nat);
    let text = host_port_text(host, port);
    assert forall|i: int| 0 <= i < text.len() implies text[i] != '\r' && text[i] != '\n' by {
        if i > host.len() {
            assert(text[i] == digits[i - host.len() - 1]);
        }
    }
}

proof fn lemma_decimal_single_line(n: nat)
    ensures
        single_line(decimal_text(n)),
    decreases n,
{
    if n >= 10 {
        lemma_decimal_single_line(n / 10);
    }
}

/// Once the head of an answer is complete, more bytes change nothing about what it means,
/// whatever bytes they are.
pub proof fn verdict_needs_no_more_than_the_head(response: Seq<u8>, more: Seq<u8>)
    requires
        head_complete(response),
    ensures
        head_complete(response + more),
        verdict_on_bytes(response + more) == verdict_on_bytes(response),
{
    let longer = response + more;
    let i = choose|i: int| occurs_at(response, head_end(), i);
    assert(longer.subrange(i, i + 4) == response.subrange(i, i + 4));
    assert(occurs_at(longer, head_end(), i));
    assert(response.subrange(i, i + 4)[1] == response[i + 1]);
    lemma_same_line_feed_byte(response, more, i + 1);
    let n = line_feed_byte(response);
    assert(longer.take(n) == response.take(n));
}

proof fn lemma_same_line_feed_byte(bytes: Seq<u8>, more: Seq<u8>, n: int)
    requires
        0 <= n < bytes.len(),
        bytes[n] == 10,
    ensures
        line_feed_byte(bytes + more) == line_feed_byte(bytes),
        0 <= line_feed_byte(bytes) <= n,
    decreases n,
{
    assert((bytes + more)[0] == bytes[0]);
    if bytes[0] != 10 {
        assert((bytes + more).skip(1) == bytes.skip(1) + more);
        lemma_same_line_feed_byte(bytes.skip(1), more, n - 1);
    }
}

/// An empty line ends the request, and nothing before it looks like its end: a proxy reads
/// the request whole and nothing else, as long as target and authorization stand on one
/// line each.
pub proof fn request_is_one_head(target: Seq<char>, authorization: Option<Seq<char>>, i: int)
    requires
        single_line(target),
        authorization matches Some(value) ==> single_line(value),
    ensures
        occurs_at(request_text(target, authorization), "\r\n\r\n"@, i) <==> i == request_text(
            target,
            authorization,
        ).len() - 4,
{
    reveal_strlit("CONNECT ");
    reveal_strlit(" HTTP/1.1\r\nHost: ");
    reveal_strlit(" HTTP/1.1");
    reveal_strlit("Host: ");
    reveal_strlit("\r\n");
    reveal_strlit("\r\n\r\n");
    reveal_strlit("Proxy-Authorization: ");
    let end = "\r\n"@;
    let first = "CONNECT "@ + target + " HTTP/1.1"@;
    let second = "Host: "@ + target;
    assert(" HTTP/1.1\r\nHost: "@ == " HTTP/1.1"@ + end + "Host: "@);
    let lines = match authorization {
        Some(value) => seq![first, second, "Proxy-Authorization: "@ + value],
        None => seq![first, second],
    };
    let text = request_text(target, authorization);
    reveal_with_fuel(head_of, 4);
    assert(text == head_of(lines)) by {
        match authorization {
            Some(value) => {
                let third = "Proxy-Authorization: "@ + value;
                assert(lines.skip(1) == seq![second, third]);
                assert(lines.skip(1).skip(1) == seq![third]);
                assert(lines.skip(1).skip(1).skip(1) == Seq::<Seq<char>>::empty());
                assert(text == first + end + (second + end + (third + end + end)));
            },
            None => {
                assert(lines.skip(1) == seq![second]);
                assert(lines.skip(1).skip(1) == Seq::<Seq<char>>::empty());
                assert(text == first + end + (second + end + end));
            },
        }
    }
    lemma_head_of(lines, i);
}

/// Lines, each with its ending, and an empty line.
spec fn head_of(lines: Seq<Seq<char>>) -> Seq<char>
    decreases lines.len(),
{
    if lines.len() == 0 {
        "\r\n"@
    } else {
        lines[0] + "\r\n"@ + head_of(lines.skip(1))
    }
}

proof fn lemma_head_of(lines: Seq<Seq<char>>, i: int)
    requires
        forall|k: int|
            0 <= k < lines.len() ==> #[trigger] lines[k].len() > 0 && single_line(lines[k]),
    ensures
        head_of(lines).len() >= 2,
        lines.len() > 0 ==> head_of(lines).len() >= 4 && head_of(lines)[0] != '\r',
        lines.len() == 0 ==> head_of(lines) == "\r\n"@,
        occurs_at(head_of(lines), "\r\n\r\n"@, i) <==> lines.len() > 0 && i == head_of(lines).len()
            - 4,
    decreases lines.len(),
{
    reveal_strlit("\r\n");
    reveal_strlit("\r\n\r\n");
    let text = head_of(lines);
    let end = "\r\n\r\n"@;
    if lines.len() > 0 {
        let line = lines[0];
        let rest = head_of(lines.skip(1));
        let n = line.len() as int;
        lemma_head_of(lines.skip(1), i - n - 2);
        assert(text == line + "\r\n"@ + rest);
        assert(forall|k: int| 0 <= k < n ==> text[k] == line[k]);
        assert(text[n] == '\r' && text[n + 1] == '\n');
        assert(forall|k: int| 0 <= k < rest.len() ==> text[n + 2 + k] == rest[k]);
        if 0 <= i && i + 4 <= text.len() {
            let window = text.subrange(i, i + 4);
            assert(window[0] == text[i] && window[1] == text[i + 1] && window[2] == text[i + 2]
                && window[3] == text[i + 3]);
            if i >= n + 2 {
                assert(window == rest.subrange(i - n - 2, i - n - 2 + 4));
            } else if i == n {
                assert(text[i + 2] == rest[0] && text[i + 3] == rest[1]);
                if lines.len() == 1 {
                    assert(lines.skip(1).len() == 0);
                    assert(window == end);
                } else {
                    assert(lines.skip(1)[0] == lines[1]);
                    assert(window[2] != end[2]);
                }
            } else {
                assert(window[0] != end[0]);
            }
        }
    }
}

/// A setting says yes if and only if it is the digit one or the four letters of `true`, each
/// small or capital.
pub proof fn yes_is_one_or_true(setting: Option<Seq<char>>)
    ensures
        says_yes(setting) <==> (setting matches Some(v) && ((v.len() == 1 && v[0] == '1') || (
        v.len() == 4 && (v[0] == 't' || v[0] == 'T') && (v[1] == 'r' || v[1] == 'R') && (v[2] == 'u'
            || v[2] == 'U') && (v[3] == 'e' || v[3] == 'E')))),
{
    reveal_strlit("1");
    reveal_strlit("true");
    if let Some(v) = setting {
        case_is_all_that_is_ignored(v, "true"@);
        if v.len() == 1 && v[0] == '1' {
            assert(v == "1"@);
        }
        if v.len() == 4 && (v[0] == 't' || v[0] == 'T') && (v[1] == 'r' || v[1] == 'R') && (v[2]
            == 'u' || v[2] == 'U') && (v[3] == 'e' || v[3] == 'E') {
            assert(same_ignoring_ascii_case(v, "true"@));
        }
    }
}

/// The proxy for a `wss` URL is the value of `HTTPS_PROXY`, or that of `https_proxy` where the
/// first is not set, as long as it is not empty; that for any other URL comes from
/// `HTTP_PROXY` and `http_proxy` in the same way.
pub proof fn proxy_is_what_was_set(scheme: Seq<char>, environment: EnvironmentView)
    ensures
        scheme == "wss"@ && environment.https_proxy is Some ==> (proxy_for(scheme, environment)
            == if environment.https_proxy->0.len() > 0 {
            environment.https_proxy
        } else {
            None
        }),
        scheme == "wss"@ && environment.https_proxy is None ==> (proxy_for(scheme, environment)
            == if environment.https_proxy_lower is Some && environment.https_proxy_lower->0.len()
            > 0 {
            environment.https_proxy_lower
        } else {
            None
        }),
        scheme != "wss"@ && environment.http_proxy is Some ==> (proxy_for(scheme, environment)
            == if environment.http_proxy->0.len() > 0 {
            environment.http_proxy
        } else {
            None
        }),
        scheme != "wss"@ && environment.http_proxy is None ==> (proxy_for(scheme, environment)
            == if environment.http_proxy_lower is Some && environment.http_proxy_lower->0.len()
            > 0 {
            environment.http_proxy_lower
        } else {
            None
        }),
{
    if let Some(v) = environment.https_proxy {
        assert(v.len() == 0 ==> v == Seq::<char>::empty());
    }
    if let Some(v) = environment.https_proxy_lower {
        assert(v.len() == 0 ==> v == Seq::<char>::empty());
    }
    if let Some(v) = environment.http_proxy {
        assert(v.len() == 0 ==> v == Seq::<char>::empty());
    }
    if let Some(v) = environment.http_proxy_lower {
        assert(v.len() == 0 ==> v == Seq::<char>::empty());
    }
}

/// The variables for other schemes do not matter. Environments that agree on `HTTPS_PROXY` and
/// `https_proxy` give the same proxy for `wss`, and none where neither is set; those that
/// agree on `HTTP_PROXY` and `http_proxy` give the same one for any other scheme, and none
/// where neither is set.
pub proof fn variables_of_other_schemes_do_not_matter(
    scheme: Seq<char>,
    environment: EnvironmentView,
    other: EnvironmentView,
)
    ensures
        environment.https_proxy == other.https_proxy && environment.https_proxy_lower
            == other.https_proxy_lower ==> proxy_for("wss"@, environment) == proxy_for(
            "wss"@,
            other,
        ),
        environment.https_proxy is None && environment.https_proxy_lower is None ==> proxy_for(
            "wss"@,
            environment,
        ) is None,
        scheme != "wss"@ && environment.http_proxy == other.http_proxy
            && environment.http_proxy_lower == other.http_proxy_lower ==> proxy_for(
            scheme,
            environment,
        ) == proxy_for(scheme, other),
        scheme != "wss"@ && environment.http_proxy is None && environment.http_proxy_lower is None
            ==> proxy_for(scheme, environment) is None,
{
}

/// Six bits out of their character in base64, in the standard alphabet.
pub open spec fn base64_value(c: char) -> int {
    if 'A' <= c <= 'Z' {
        c as int - 'A' as int
    } else if 'a' <= c <= 'z' {
        c as int - 'a' as int + 26
    } else if '0' <= c <= '9' {
        c as int - '0' as int + 52
    } else if c == '+' {
        62
    } else {
        63
    }
}

/// The bytes that a text in base64 stands for.
pub open spec fn base64_bytes(text: Seq<char>) -> Seq<u8>
    decreases text.len(),
{
    if text.len() < 4 {
        Seq::empty()
    } else {
        let v = |i: int| base64_value(text[i]);
        let first = (v(0) * 4 + v(1) / 16) as u8;
        let second = (v(1) % 16 * 16 + v(2) / 4) as u8;
        let third = (v(2) % 4 * 64 + v(3)) as u8;
        let group = if text[2] == '=' {
            seq![first]
        } else if text[3] == '=' {
            seq![first, second]
        } else {
            seq![first, second, third]
        };
        group + base64_bytes(text.skip(4))
    }
}

proof fn lemma_base64_char(v: int)
    requires
        0 <= v < 64,
    ensures
        base64_value(base64_char(v)) == v,
        base64_char(v) != '=',
{
}

/// Bytes in base64 read back as those bytes, and there are four characters for every three
/// bytes begun.
pub proof fn base64_reads_back(bytes: Seq<u8>)
    ensures
        base64_bytes(base64_text(bytes)) == bytes,
        base64_text(bytes).len() == 4 * ((bytes.len() + 2) / 3),
    decreases bytes.len(),
{
    let text = base64_text(bytes);
    if bytes.len() > 0 {
        let a = bytes[0] as int;
        let b = if bytes.len() > 1 {
            bytes[1] as int
        } else {
            0
        };
        let c = if bytes.len() > 2 {
            bytes[2] as int
        } else {
            0
        };
        lemma_base64_char(a / 4);
        lemma_base64_char(a % 4 * 16 + b / 16);
        lemma_base64_char(b % 16 * 4 + c / 64);
        lemma_base64_char(c % 64);
        if bytes.len() > 3 {
            base64_reads_back(bytes.skip(3));
            assert(text.skip(4) == base64_text(bytes.skip(3)));
            assert(bytes == seq![bytes[0], bytes[1], bytes[2]] + bytes.skip(3));
        } else {
            assert(text.skip(4) == Seq::<char>::empty());
            assert(base64_bytes(text.skip(4)) == Seq::<u8>::empty());
        }
        let v0 = a / 4;
        let v1 = a % 4 * 16 + b / 16;
        let v2 = b % 16 * 4 + c / 64;
        let v3 = c % 64;
        assert(v0 * 4 + v1 / 16 == a);
        assert(v1 % 16 * 16 + v2 / 4 == b);
        assert(v2 % 4 * 64 + v3 == c);
        assert(base64_value(text[0]) == v0 && base64_value(text[1]) == v1);
        if bytes.len() > 1 {
            assert(base64_value(text[2]) == v2 && text[2] != '=');
        }
        if bytes.len() > 2 {
            assert(base64_value(text[3]) == v3 && text[3] != '=');
        }
        assert(base64_bytes(text) == bytes);
    }
}

/// The header value of credentials is the word `Basic`, a space, and a text that reads back in
/// base64 as user name, colon and password.
pub proof fn authorization_reads_back(username: Seq<char>, password: Seq<char>)
    ensures
        basic_authorization(username, password).take(6) == seq!['B', 'a', 's', 'i', 'c', ' '],
        base64_bytes(basic_authorization(username, password).skip(6)) == encode_utf8(
            username + seq![':'] + password,
        ),
{
    reveal_strlit("Basic ");
    reveal_strlit(":");
    let joined = username + seq![':'] + password;
    assert(credentials(username, password) == joined);
    let value = basic_authorization(username, password);
    assert(value.take(6) == seq!['B', 'a', 's', 'i', 'c', ' ']);
    assert(value.skip(6) == base64_text(encode_utf8(joined)));
    base64_reads_back(encode_utf8(joined));
}

/// A plan asks for a tunnel to the host and the port of the target, in the request line and in
/// the header, gives the credentials of the proxy's URL where it has a password, and goes to
/// the host of the proxy, at its port or else at port 80.
pub proof fn plans_ask_for_the_target(target: AddressView, proxy: AddressView)
    ensures
        plan_through(target, Ok(proxy)) matches Ok(plan) ==> {
            let name = target.host->0 + seq![':'] + decimal_text(target.port->0 as nat);
            let authorization = match proxy.password {
                Some(password) => "Proxy-Authorization: Basic "@ + base64_text(
                    encode_utf8(proxy.username + seq![':'] + password),
                ) + "\r\n"@,
                None => Seq::empty(),
            };
            &&& target.host == Some(plan.host)
            &&& target.port is Some
            &&& plan.request == "CONNECT "@ + name + " HTTP/1.1\r\nHost: "@ + name + "\r\n"@
                + authorization + "\r\n"@
            &&& proxy.host == Some(plan.proxy_host)
            &&& plan.proxy_address == plan.proxy_host + seq![':'] + decimal_text(
                match proxy.port {
                    Some(port) => port as nat,
                    None => 80,
                },
            )
        },
{
    reveal_strlit(":");
    reveal_strlit("Basic ");
    reveal_strlit("Proxy-Authorization: ");
    reveal_strlit("Proxy-Authorization: Basic ");
    assert("Proxy-Authorization: "@ + "Basic "@ == "Proxy-Authorization: Basic "@);
    if let Some(password) = proxy.password {
        let joined = proxy.username + seq![':'] + password;
        assert(credentials(proxy.username, password) == joined);
        let value = basic_authorization(proxy.username, password);
        assert("Proxy-Authorization: "@ + value == "Proxy-Authorization: Basic "@ + base64_text(
            encode_utf8(joined),
        ));
    }
}

/// There is a plan if and only if the proxy's setting is a URL with a host, the target has a
/// host and a port, and the credentials, if any, can be written down. Otherwise the first of
/// these that is missing is the failure, in this order: the proxy's URL, the target's host,
/// its port, the proxy's host, the credentials.
pub proof fn plans_fail_for_what_is_missing(
    target: AddressView,
    proxy: Result<AddressView, Seq<char>>,
)
    ensures
        proxy matches Err(why) ==> plan_through(target, proxy) == Err::<
            ProxyPlanOf<Seq<char>>,
            ConnectErrorOf<Seq<char>>,
        >(ConnectErrorOf::InvalidProxyUrl(why)),
        proxy matches Ok(p) ==> {
            let plan = plan_through(target, proxy);
            let fits = p.password is None || 4 * ((encode_utf8(
                p.username + seq![':'] + p.password->0,
            ).len() + 2) / 3) <= isize::MAX;
            &&& plan is Ok <==> target.host is Some && target.port is Some && p.host is Some && fits
            &&& target.host is None ==> plan->Err_0 is NoTargetHost
            &&& target.host is Some && target.port is None ==> plan->Err_0 is NoTargetPort
            &&& target.host is Some && target.port is Some && p.host is None
                ==> plan->Err_0 is NoProxyHost
            &&& target.host is Some && target.port is Some && p.host is Some && !fits
                ==> plan->Err_0 is CredentialsTooLong
        },
{
    reveal_strlit(":");
    if let Ok(p) = proxy {
        if let Some(password) = p.password {
            assert(credentials(p.username, password) == p.username + seq![':'] + password);
        }
    }
}

/// Requests for the same host tell its ports apart, through whatever proxies.
pub proof fn requests_tell_ports_apart(
    target: AddressView,
    other: AddressView,
    proxy: AddressView,
    other_proxy: AddressView,
)
    requires
        target.host == other.host,
        target.port != other.port,
    ensures
        plan_through(target, Ok(proxy)) matches Ok(plan) ==> plan_through(other, Ok(other_proxy))
            matches Ok(other_plan) ==> plan.request != other_plan.request,
{
    if let Ok(plan) = plan_through(target, Ok(proxy)) {
        if let Ok(other_plan) = plan_through(other, Ok(other_proxy)) {
            if plan.request == other_plan.request {
                let host = plan.host;
                let p = target.port->0;
                let q = other.port->0;
                plans_ask_for_the_target(target, proxy);
                plans_ask_for_the_target(other, other_proxy);
                lemma_request_line(host, p, authorization_of(proxy));
                lemma_request_line(host, q, authorization_of(other_proxy));
                decimals_read_back(p as nat);
                decimals_read_back(q as nat);
                let d = decimal_text(p as nat);
                let e = decimal_text(q as nat);
                let n: int = 8 + host.len() as int + 1;
                let text = plan.request;
                if d.len() < e.len() {
                    assert(text[n + d.len()] == e[d.len() as int]);
                } else if e.len() < d.len() {
                    assert(text[n + e.len()] == d[e.len() as int]);
                } else {
                    assert forall|i: int| 0 <= i < d.len() implies d[i] == e[i] by {
                        assert(text[n + i] == d[i]);
                        assert(text[n + i] == e[i]);
                    }
                    assert(d == e);
                }
            }
        }
    }
}

proof fn lemma_request_line(host: Seq<char>, port: u16, authorization: Option<Seq<char>>)
    ensures
        ({
            let text = request_text(host_port_text(host, port), authorization);
            let digits = decimal_text(port as nat);
            let n: int = 8 + host.len() as int + 1;
            &&& text.len() > n + digits.len()
            &&& forall|i: int| 0 <= i < digits.len() ==> text[n + i] == #[trigger] digits[i]
            &&& text[n + digits.len()] == ' '
        }),
{
    reveal_strlit("CONNECT ");
    reveal_strlit(" HTTP/1.1\r\nHost: ");
}

/// The head of an answer is complete if and only if carriage return and line feed stand in it
/// twice in a row.
pub proof fn heads_end_with_an_empty_line(response: Seq<u8>)
    ensures
        head_complete(response) <==> exists|i: int|
            0 <= i && i + 3 < response.len() && #[trigger] response[i] == 13 && response[i + 1]
                == 10 && response[i + 2] == 13 && response[i + 3] == 10,
{
    if head_complete(response) {
        let i = choose|i: int| occurs_at(response, head_end(), i);
        let window = response.subrange(i, i + 4);
        assert(window[0] == response[i] && window[1] == response[i + 1] && window[2] == response[i
            + 2] && window[3] == response[i + 3]);
        assert(response[i] == 13);
    }
    if exists|i: int|
        0 <= i && i + 3 < response.len() && #[trigger] response[i] == 13 && response[i + 1] == 10
            && response[i + 2] == 13 && response[i + 3] == 10 {
        let i = choose|i: int|
            0 <= i && i + 3 < response.len() && #[trigger] response[i] == 13 && response[i + 1]
                == 10 && response[i + 2] == 13 && response[i + 3] == 10;
        assert(response.subrange(i, i + 4) == head_end());
        assert(occurs_at(response, head_end(), i));
    }
}

/// The digits two, zero and zero, next to each other somewhere in a line.
pub open spec fn has_two_zero_zero(line: Seq<char>) -> bool {
    exists|i: int|
        0 <= i && i + 2 < line.len() && #[trigger] line[i] == '2' && line[i + 1] == '0' && line[i
            + 2] == '0'
}

/// An answer grants the tunnel if and only if the digits two, zero and zero stand next to each
/// other in its first line, whatever follows that line; otherwise the tunnel is refused with
/// that very line. An answer without a line is none.
pub proof fn tunnel_stands_with_200_in_the_first_line(line: Seq<char>, rest: Seq<char>)
    requires
        forall|i: int| 0 <= i < line.len() ==> line[i] != '\n',
    ensures
        verdict_on(Seq::empty()) == Err::<(), ConnectErrorOf<Seq<char>>>(
            ConnectErrorOf::InvalidProxyResponse,
        ),
        ({
            let verdict = if has_two_zero_zero(line) {
                Ok::<(), ConnectErrorOf<Seq<char>>>(())
            } else {
                Err(ConnectErrorOf::ProxyRefused(line))
            };
            &&& verdict_on(line + seq!['\r', '\n'] + rest) == verdict
            &&& line.len() > 0 ==> verdict_on(line) == verdict
            &&& line.len() == 0 || line.last() != '\r' ==> verdict_on(line + seq!['\n'] + rest)
                == verdict
        }),
{
    first_lines_end_at_a_line_feed(line, rest);
    reveal_strlit("200");
    let code = "200"@;
    assert(occurs(line, code) <==> has_two_zero_zero(line)) by {
        if occurs(line, code) {
            let i = choose|i: int| occurs_at(line, code, i);
            let window = line.subrange(i, i + 3);
            assert(window[0] == line[i] && window[1] == line[i + 1] && window[2] == line[i + 2]);
        }
        if has_two_zero_zero(line) {
            let i = choose|i: int|
                0 <= i && i + 2 < line.len() && #[trigger] line[i] == '2' && line[i + 1] == '0'
                    && line[i + 2] == '0';
            assert(line.subrange(i, i + 3) == code);
            assert(occurs_at(line, code, i));
        }
    }
}

/// A first line without the digit two never grants a tunnel.
pub proof fn no_tunnel_without_a_two(line: Seq<char>, rest: Seq<char>)
    requires
        forall|i: int| 0 <= i < line.len() ==> line[i] != '\n' && line[i] != '2',
    ensures
        verdict_on(line + seq!['\r', '\n'] + rest) == Err::<(), ConnectErrorOf<Seq<char>>>(
            ConnectErrorOf::ProxyRefused(line),
        ),
{
    tunnel_stands_with_200_in_the_first_line(line, rest);
}

/// A request names its target twice, in the request line and in the header, and carries the
/// authorization where there is one and no such header where there is none.
pub proof fn requests_are_written_out(target: Seq<char>, value: Seq<char>)
    ensures
        request_text(target, None) == "CONNECT "@ + target + " HTTP/1.1\r\nHost: "@ + target
            + "\r\n\r\n"@,
        request_text(target, Some(value)) == "CONNECT "@ + target + " HTTP/1.1\r\nHost: "@
            + target + "\r\nProxy-Authorization: "@ + value + "\r\n\r\n"@,
{
    reveal_strlit("CONNECT ");
    reveal_strlit(" HTTP/1.1\r\nHost: ");
    reveal_strlit("\r\n");
    reveal_strlit("\r\n\r\n");
    reveal_strlit("Proxy-Authorization: ");
    reveal_strlit("\r\nProxy-Authorization: ");
    assert("\r\n"@ + "\r\n"@ == "\r\n\r\n"@);
    assert("\r\n"@ + "Proxy-Authorization: "@ == "\r\nProxy-Authorization: "@);
    assert(request_text(target, None) == "CONNECT "@ + target + " HTTP/1.1\r\nHost: "@ + target + (
    "\r\n"@ + "\r\n"@));
    assert(request_text(target, Some(value)) == "CONNECT "@ + target + " HTTP/1.1\r\nHost: "@
        + target + ("\r\n"@ + "Proxy-Authorization: "@) + value + ("\r\n"@ + "\r\n"@));
}

} // verus!
