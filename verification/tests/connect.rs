use signal_stream::address::Address;
use signal_stream::connect::{Action, ActionOf, Connector, Event, EventOf, Stack};
use signal_stream::error::ConnectErrorOf;
use signal_stream::options::SignalStreamOptions;
use signal_stream::proxy::Environment;
use signal_stream::tls::Trust;

const GRANTED: &[u8] = b"HTTP/1.1 200 Connection established\r\n\r\n";

fn environment(proxy: Option<&str>) -> Environment {
    Environment {
        skip_cert_verify: None,
        https_proxy: proxy.map(str::to_owned),
        https_proxy_lower: None,
        http_proxy: proxy.map(str::to_owned),
        http_proxy_lower: None,
    }
}

fn start(url: &str, skip: bool, proxy: Option<&str>, stack: Stack) -> (Connector, Action) {
    let options = SignalStreamOptions::new().with_skip_cert_verify(skip);
    Connector::start(Address::parse(url).unwrap(), &options, &environment(proxy), stack)
}

/// An action in short, for comparison.
fn short(action: &Action) -> String {
    match action {
        ActionOf::Resolve(address) => format!("resolve {}", address),
        ActionOf::Connect => "connect".to_owned(),
        ActionOf::Send(text) => format!("send {}", text.lines().next().unwrap()),
        ActionOf::Receive => "receive".to_owned(),
        ActionOf::LoadRoots => "roots".to_owned(),
        ActionOf::StartTls { host, trust: Trust::AcceptAny } => format!("tls {} any", host),
        ActionOf::StartTls { host, trust: Trust::Roots(store) } => {
            format!("tls {} {}", host, store.len())
        }
        ActionOf::Upgrade => "upgrade".to_owned(),
        ActionOf::Dial => "dial".to_owned(),
        ActionOf::Finish => "finish".to_owned(),
        ActionOf::Abort => "abort".to_owned(),
        ActionOf::Fail(error) => format!("fail {}", error.message()),
        ActionOf::Ignore => "ignore".to_owned(),
    }
}

fn run(first: (Connector, Action), events: Vec<Event>) -> Vec<String> {
    let (mut connector, action) = first;
    let mut actions = vec![short(&action)];
    for event in events {
        let (next, action) = connector.next(event);
        connector = next;
        actions.push(short(&action));
    }
    actions
}

fn root() -> Vec<u8> {
    let mut der = vec![0x30, 0x1a, 0x30, 0x12, 0xa0, 0x03, 0x02, 0x01, 0x02, 0x02, 0x01, 0x01];
    for _ in 0..6 {
        der.extend([0x30, 0x00]);
    }
    der.extend([0x03, 0x02, 0x00, 0x00]);
    der
}

fn tunnel(answer: &[u8]) -> Vec<Event> {
    vec![
        EventOf::Resolved(2),
        EventOf::Connected,
        EventOf::Sent,
        EventOf::Received(answer.to_vec()),
    ]
}

#[test]
fn plain_connection() {
    assert_eq!(
        run(
            start("ws://example.com", false, None, Stack::TokioRustls),
            vec![EventOf::Resolved(1), EventOf::Connected, EventOf::Upgraded]
        ),
        ["resolve example.com:80", "connect", "upgrade", "finish"]
    );
}

#[test]
fn verified_tls_connection() {
    assert_eq!(
        run(
            start("wss://example.com:7443", false, None, Stack::TokioRustls),
            vec![
                EventOf::RootsLoaded(Some(vec![root(), root()])),
                EventOf::Resolved(1),
                EventOf::Connected,
                EventOf::TlsStarted,
                EventOf::Upgraded
            ]
        ),
        ["roots", "resolve example.com:7443", "connect", "tls example.com 2", "upgrade", "finish"]
    );
}

#[test]
fn unverified_tls_connection() {
    assert_eq!(
        run(
            start("wss://example.com", true, None, Stack::TokioRustls),
            vec![EventOf::Resolved(1), EventOf::Connected, EventOf::TlsStarted, EventOf::Upgraded]
        ),
        ["resolve example.com:443", "connect", "tls example.com any", "upgrade", "finish"]
    );
}

#[test]
fn other_schemes_take_tls_without_a_proxy() {
    assert_eq!(
        run(start("http://example.com", true, None, Stack::TokioRustls), vec![]),
        ["resolve example.com:80"]
    );
    assert_eq!(
        run(start("http://example.com", false, None, Stack::TokioRustls), vec![]),
        ["roots"]
    );
}

#[test]
fn roots_that_cannot_be_loaded_or_read() {
    assert_eq!(
        run(
            start("wss://example.com", false, None, Stack::TokioRustls),
            vec![EventOf::RootsLoaded(None), EventOf::Resolved(1), EventOf::Connected]
        ),
        ["roots", "resolve example.com:443", "connect", "tls example.com 0"]
    );
    assert_eq!(
        run(
            start("wss://example.com", false, None, Stack::TokioRustls),
            vec![EventOf::RootsLoaded(Some(vec![vec![0]]))]
        ),
        ["roots", "fail Failed to parse root certificate: InvalidCertificate(BadEncoding)"]
    );
}

#[test]
fn direct_connections_that_fail() {
    let stack = Stack::TokioRustls;
    assert_eq!(run(start("foo:bar", true, None, stack), vec![]), ["fail No host in URL"]);
    assert_eq!(run(start("foo://a", true, None, stack), vec![]), ["fail No port in URL"]);
    assert_eq!(
        run(start("ws://a", false, None, stack), vec![EventOf::Resolved(0)]),
        ["resolve a:80", "fail Failed to resolve host: a"]
    );
    assert_eq!(
        run(
            start("wss://[::1]", true, None, stack),
            vec![EventOf::Resolved(1), EventOf::Connected]
        ),
        ["resolve [::1]:443", "connect", "fail Invalid DNS name"]
    );
    assert_eq!(
        run(
            start("wss://a", true, None, stack),
            vec![EventOf::Resolved(1), EventOf::Connected, EventOf::TlsFailed("why".to_owned())]
        ),
        ["resolve a:443", "connect", "tls a any", "fail TLS error: why"]
    );
}

#[test]
fn tunnel_without_tls() {
    let mut events = tunnel(GRANTED);
    events.push(EventOf::Upgraded);
    assert_eq!(
        run(start("ws://a", false, Some("http://proxy:3128"), Stack::TokioRustls), events),
        [
            "resolve proxy:3128",
            "connect",
            "send CONNECT a:80 HTTP/1.1",
            "receive",
            "upgrade",
            "finish"
        ]
    );
}

#[test]
fn tunnel_with_verified_tls() {
    let mut events = tunnel(GRANTED);
    events.push(EventOf::RootsLoaded(Some(vec![root()])));
    events.push(EventOf::TlsStarted);
    events.push(EventOf::Upgraded);
    assert_eq!(
        run(start("wss://a", false, Some("http://proxy"), Stack::TokioRustls), events),
        [
            "resolve proxy:80",
            "connect",
            "send CONNECT a:443 HTTP/1.1",
            "receive",
            "roots",
            "tls a 1",
            "upgrade",
            "finish"
        ]
    );
}

#[test]
fn tunnel_with_unverified_tls() {
    let mut events = tunnel(GRANTED);
    events.push(EventOf::TlsFailed("why".to_owned()));
    let actions = run(start("wss://a", true, Some("http://proxy"), Stack::TokioRustls), events);
    assert_eq!(actions[4..], ["tls a any", "fail TLS connection error: why"]);
}

#[test]
fn answer_in_pieces() {
    let mut events = tunnel(b"HTTP/1.1 200 OK\r");
    for piece in ["\nVia: x\r\n\r", "\n"] {
        events.push(EventOf::Received(piece.as_bytes().to_vec()));
    }
    let actions = run(start("ws://a", false, Some("http://proxy"), Stack::TokioRustls), events);
    assert_eq!(actions[3..], ["receive", "receive", "receive", "upgrade"]);
}

#[test]
fn answer_piece_by_piece_is_the_same_as_at_once() {
    for answer in ["HTTP/1.1 200 OK\r\n\r\n", "HTTP/1.1 403 Forbidden\r\nA: 200\r\n\r\n"] {
        let mut events = tunnel(&answer.as_bytes()[..1]);
        for byte in &answer.as_bytes()[1..] {
            events.push(EventOf::Received(vec![*byte]));
        }
        let proxy = Some("http://proxy");
        let slow = run(start("ws://a", false, proxy, Stack::Tokio), events);
        let fast = run(start("ws://a", false, proxy, Stack::Tokio), tunnel(answer.as_bytes()));
        assert_eq!(slow.last(), fast.last());
    }
}

#[test]
fn proxies_that_fail() {
    let at = |events: Vec<Event>| {
        let first = start("wss://[::1]", true, Some("http://proxy"), Stack::TokioRustls);
        run(first, events).pop().unwrap()
    };
    assert_eq!(at(vec![EventOf::Resolved(0)]), "fail Failed to resolve proxy host: proxy");
    assert_eq!(at(tunnel(b"")), "fail Proxy connection closed while reading response");
    assert_eq!(
        at(tunnel(b"HTTP/1.1 407 Denied\r\n\r\n")),
        "fail Proxy connection failed: HTTP/1.1 407 Denied"
    );
    assert_eq!(at(tunnel(GRANTED)), "fail Invalid DNS name: [::1]");
    assert_eq!(
        run(start("ws://a", false, Some("proxy"), Stack::TokioRustls), vec![]),
        ["fail Invalid proxy URL: relative URL without a base"]
    );
}

#[test]
fn tunnel_for_tls_needs_tls() {
    let actions = run(
        start("wss://a", true, Some("http://proxy"), Stack::Tokio),
        tunnel(GRANTED),
    );
    assert_eq!(
        actions[4],
        "fail WSS over proxy requires rustls-tls-native-roots feature"
    );
}

#[test]
fn stacks_that_dial_by_themselves() {
    let upgraded = || vec![EventOf::Upgraded];
    assert_eq!(run(start("wss://a", true, None, Stack::Tokio), upgraded()), ["dial", "finish"]);
    assert_eq!(run(start("ws://a", true, None, Stack::Tokio), vec![]), ["resolve a:80"]);
    assert_eq!(
        run(start("ws://a", false, Some("http://proxy"), Stack::Async), upgraded()),
        ["dial", "finish"]
    );
}

#[test]
fn errors_of_actions_are_passed_on() {
    for n in 0..3 {
        let mut events: Vec<Event> = tunnel(GRANTED);
        events.truncate(n);
        events.push(EventOf::Failed);
        let actions = run(start("ws://a", false, Some("http://proxy"), Stack::Tokio), events);
        assert_eq!(actions[n + 1], "abort");
    }
}

#[test]
fn ended_connections_ignore_everything() {
    for end in [EventOf::Upgraded, EventOf::Failed] {
        let actions = run(
            start("ws://a", false, None, Stack::Async),
            vec![end, EventOf::Connected, EventOf::Failed, EventOf::Upgraded],
        );
        assert_eq!(actions[2..], ["ignore", "ignore", "ignore"]);
    }
}

#[test]
fn events_out_of_turn_are_ignored() {
    assert_eq!(
        run(
            start("ws://a", false, None, Stack::TokioRustls),
            vec![EventOf::Connected, EventOf::Upgraded, EventOf::Resolved(1)]
        ),
        ["resolve a:80", "ignore", "ignore", "connect"]
    );
}

#[test]
fn decisions_on_results_from_outside() {
    let connector = || start("wss://a", true, None, Stack::TokioRustls).0;
    let next = connector().direct_tls("a".to_owned(), Trust::AcceptAny, false).1;
    assert_eq!(short(&next), "fail Invalid DNS name");
    let next = connector().proxy_tls("a".to_owned(), Trust::AcceptAny, true).1;
    assert_eq!(short(&next), "tls a any");
    let next = connector().answered("a".to_owned(), Err(ConnectErrorOf::InvalidProxyResponse)).1;
    assert_eq!(short(&next), "fail Invalid proxy response");
    let next = connector().answered("a".to_owned(), Ok(())).1;
    assert_eq!(short(&next), "tls a any");
    let next = connector().through(Err(ConnectErrorOf::CredentialsTooLong)).1;
    assert_eq!(short(&next), "fail Proxy credentials are too long");
    let next = connector().resolve_direct(None).1;
    assert_eq!(short(&next), "resolve a:443");
}

#[test]
fn pieces_of_any_answer_come_to_the_same() {
    for (answer, outcome) in [
        (&b"HTTP/1.1 200 \xe2\x82\r\nVia: \xff\r\n\r\n\xbf"[..], "upgrade"),
        (b"\xc3\xa9 403\xf0\x9f\r\n\r\n200", "fail Proxy connection failed: \u{e9} 403\u{fffd}"),
        (b"\r\n\r\n", "fail Proxy connection failed: "),
    ] {
        for size in 1..=answer.len() {
            let (mut connector, mut action) =
                start("ws://example.com", false, Some("http://proxy"), Stack::TokioRustls);
            for event in [EventOf::Resolved(1), EventOf::Connected, EventOf::Sent] {
                (connector, action) = connector.next(event);
            }
            for piece in answer.chunks(size) {
                if matches!(action, ActionOf::Receive) {
                    (connector, action) = connector.next(EventOf::Received(piece.to_vec()));
                }
            }
            assert_eq!(short(&action), outcome);
        }
    }
}

#[test]
fn only_ws_is_upgraded_without_tls() {
    for scheme in ["wss", "http", "https", "ftp"] {
        for stack in [Stack::TokioRustls, Stack::Tokio, Stack::Async] {
            let events =
                vec![EventOf::Resolved(1), EventOf::Connected, EventOf::TlsStarted];
            let actions = run(start(&format!("{}://a", scheme), true, None, stack), events);
            if stack == Stack::TokioRustls {
                assert_eq!(actions[2..], ["tls a any", "upgrade"]);
            } else {
                assert_eq!(actions, ["dial", "ignore", "ignore", "ignore"]);
            }
        }
    }
}
