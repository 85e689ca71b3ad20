use signal_stream::error::{ConnectError, ConnectErrorOf, FailureKind, SignalError};
use signal_stream::stream::{close_request, send_outcome, send_request, InternalMessage};

fn check(error: ConnectError, kind: FailureKind, message: &str) {
    assert_eq!(error.kind(), kind);
    assert_eq!(error.message(), message);
}

#[test]
fn kinds_and_messages() {
    let t = || "x".to_owned();
    check(ConnectErrorOf::InvalidProxyUrl(t()), FailureKind::InvalidInput, "Invalid proxy URL: x");
    check(
        ConnectErrorOf::CredentialsTooLong,
        FailureKind::InvalidInput,
        "Proxy credentials are too long",
    );
    check(ConnectErrorOf::NoTargetHost, FailureKind::InvalidInput, "Target URL has no host");
    check(
        ConnectErrorOf::NoTargetPort,
        FailureKind::InvalidInput,
        "Target URL has no port and no default for scheme",
    );
    check(ConnectErrorOf::NoProxyHost, FailureKind::InvalidInput, "Proxy URL has no host");
    check(
        ConnectErrorOf::ProxyUnresolved(t()),
        FailureKind::Other,
        "Failed to resolve proxy host: x",
    );
    check(
        ConnectErrorOf::ProxyClosed,
        FailureKind::UnexpectedEof,
        "Proxy connection closed while reading response",
    );
    check(ConnectErrorOf::InvalidProxyResponse, FailureKind::InvalidData, "Invalid proxy response");
    check(
        ConnectErrorOf::ProxyRefused(t()),
        FailureKind::ConnectionRefused,
        "Proxy connection failed: x",
    );
    check(
        ConnectErrorOf::ProxyTlsUnavailable,
        FailureKind::Other,
        "WSS over proxy requires rustls-tls-native-roots feature",
    );
    check(ConnectErrorOf::NoHost, FailureKind::InvalidInput, "No host in URL");
    check(ConnectErrorOf::NoPort, FailureKind::InvalidInput, "No port in URL");
    check(ConnectErrorOf::Unresolved(t()), FailureKind::Other, "Failed to resolve host: x");
    check(
        ConnectErrorOf::InvalidRoot(t()),
        FailureKind::Other,
        "Failed to parse root certificate: x",
    );
    check(ConnectErrorOf::InvalidDnsName, FailureKind::InvalidInput, "Invalid DNS name");
    check(
        ConnectErrorOf::InvalidDnsNameBehindProxy(t()),
        FailureKind::InvalidInput,
        "Invalid DNS name: x",
    );
    check(ConnectErrorOf::TlsFailed(t()), FailureKind::Other, "TLS error: x");
    check(
        ConnectErrorOf::TlsFailedBehindProxy(t()),
        FailureKind::Other,
        "TLS connection error: x",
    );
}

#[test]
fn outcome_of_a_signal() {
    assert!(send_outcome::<u8>(Some(Ok(()))).is_ok());
    assert!(matches!(
        send_outcome(Some(Err(SignalError::WsError(7u8)))),
        Err(SignalError::WsError(7))
    ));
    assert!(matches!(send_outcome::<u8>(None), Err(SignalError::SendError)));
}

#[test]
fn request_for_a_signal() {
    match send_request("signal", 5u8) {
        InternalMessage::Signal { signal, response_chn } => {
            assert_eq!((signal, response_chn), ("signal", 5))
        }
        other => panic!("{:?}", other),
    }
}

#[test]
fn closing_with_and_without_notice() {
    assert!(matches!(close_request::<u8, u8>(true), Some(InternalMessage::Close)));
    assert!(close_request::<u8, u8>(false).is_none());
}
