//! What can go wrong while connecting, sending and closing.
use vstd::prelude::*;
use vstd::string::*;

verus! {

/// The class of a connection failure, under the names of `std::io::ErrorKind`.
#[derive(Debug, Clone, Copy, PartialEq, Eq, Structural)]
pub enum FailureKind {
    InvalidInput,
    InvalidData,
    ConnectionRefused,
    UnexpectedEof,
    Other,
}

/// A connection failure that the stream itself decides on. `T` is the type of the texts in
/// it: `String` in running code, `Seq<char>` in contracts.
#[derive(Debug)]
pub enum ConnectErrorOf<T> {
    /// The proxy setting is not a URL; the text says why.
    InvalidProxyUrl(T),
    /// The proxy URL's user name and password are too long to be encoded.
    CredentialsTooLong,
    /// The target URL has no host to ask the proxy for.
    NoTargetHost,
    /// The target URL has no port, and its scheme has no default one.
    NoTargetPort,
    /// The proxy URL has no host.
    NoProxyHost,
    /// The host name of the proxy has no address.
    ProxyUnresolved(T),
    /// The proxy closed the connection before its answer was complete.
    ProxyClosed,
    /// The proxy's answer has no status line.
    InvalidProxyResponse,
    /// The proxy refused; the text is its status line.
    ProxyRefused(T),
    /// A `wss` target behind a proxy needs TLS, and this build has none.
    ProxyTlsUnavailable,
    /// The target URL has no host.
    NoHost,
    /// The target URL has no port, and its scheme has no default one.
    NoPort,
    /// The host name of the target has no address.
    Unresolved(T),
    /// A root certificate of the system could not be read; the text says why.
    InvalidRoot(T),
    /// The target's host is no name to ask for in TLS.
    InvalidDnsName,
    /// The target's host, given here, is no name to ask for in TLS through a proxy.
    InvalidDnsNameBehindProxy(T),
    /// TLS failed; the text says why.
    TlsFailed(T),
    /// TLS through a proxy failed; the text says why.
    TlsFailedBehindProxy(T),
}

/// A connection failure.
pub type ConnectError = ConnectErrorOf<String>;

impl View for ConnectErrorOf<String> {
    type V = ConnectErrorOf<Seq<char>>;

    open spec fn view(&self) -> ConnectErrorOf<Seq<char>> {
        match *self {
            ConnectErrorOf::InvalidProxyUrl(t) => ConnectErrorOf::InvalidProxyUrl(t@),
            ConnectErrorOf::CredentialsTooLong => ConnectErrorOf::CredentialsTooLong,
            ConnectErrorOf::NoTargetHost => ConnectErrorOf::NoTargetHost,
            ConnectErrorOf::NoTargetPort => ConnectErrorOf::NoTargetPort,
            ConnectErrorOf::NoProxyHost => ConnectErrorOf::NoProxyHost,
            ConnectErrorOf::ProxyUnresolved(t) => ConnectErrorOf::ProxyUnresolved(t@),
            ConnectErrorOf::ProxyClosed => ConnectErrorOf::ProxyClosed,
            ConnectErrorOf::InvalidProxyResponse => ConnectErrorOf::InvalidProxyResponse,
            ConnectErrorOf::ProxyRefused(t) => ConnectErrorOf::ProxyRefused(t@),
            ConnectErrorOf::ProxyTlsUnavailable => ConnectErrorOf::ProxyTlsUnavailable,
            ConnectErrorOf::NoHost => ConnectErrorOf::NoHost,
            ConnectErrorOf::NoPort => ConnectErrorOf::NoPort,
            ConnectErrorOf::Unresolved(t) => ConnectErrorOf::Unresolved(t@),
            ConnectErrorOf::InvalidRoot(t) => ConnectErrorOf::InvalidRoot(t@),
            ConnectErrorOf::InvalidDnsName => ConnectErrorOf::InvalidDnsName,
            ConnectErrorOf::InvalidDnsNameBehindProxy(t) =>
                ConnectErrorOf::InvalidDnsNameBehindProxy(t@),
            ConnectErrorOf::TlsFailed(t) => ConnectErrorOf::TlsFailed(t@),
            ConnectErrorOf::TlsFailedBehindProxy(t) => ConnectErrorOf::TlsFailedBehindProxy(t@),
        }
    }
}

impl<T> ConnectErrorOf<T> {
    /// The class of this failure.
    pub open spec fn spec_kind(self) -> FailureKind {
        match self {
            ConnectErrorOf::ProxyClosed => FailureKind::UnexpectedEof,
            ConnectErrorOf::InvalidProxyResponse => FailureKind::InvalidData,
            ConnectErrorOf::ProxyRefused(_) => FailureKind::ConnectionRefused,
            ConnectErrorOf::ProxyUnresolved(_)
            | ConnectErrorOf::ProxyTlsUnavailable
            | ConnectErrorOf::Unresolved(_)
            | ConnectErrorOf::InvalidRoot(_)
            | ConnectErrorOf::TlsFailed(_)
            | ConnectErrorOf::TlsFailedBehindProxy(_) => FailureKind::Other,
            _ => FailureKind::InvalidInput,
        }
    }

    /// The class of this failure.
    pub fn kind(&self) -> (kind: FailureKind)
        ensures
            kind == self.spec_kind(),
    {
        match self {
            ConnectErrorOf::ProxyClosed => FailureKind::UnexpectedEof,
            ConnectErrorOf::InvalidProxyResponse => FailureKind::InvalidData,
            ConnectErrorOf::ProxyRefused(_) => FailureKind::ConnectionRefused,
            ConnectErrorOf::ProxyUnresolved(_)
            | ConnectErrorOf::ProxyTlsUnavailable
            | ConnectErrorOf::Unresolved(_)
            | ConnectErrorOf::InvalidRoot(_)
            | ConnectErrorOf::TlsFailed(_)
            | ConnectErrorOf::TlsFailedBehindProxy(_) => FailureKind::Other,
            _ => FailureKind::InvalidInput,
        }
    }
}

impl ConnectErrorOf<Seq<char>> {
    /// This failure in words.
    pub open spec fn message_text(self) -> Seq<char> {
        match self {
            ConnectErrorOf::InvalidProxyUrl(t) => "Invalid proxy URL: "@ + t,
            ConnectErrorOf::CredentialsTooLong => "Proxy credentials are too long"@,
            ConnectErrorOf::NoTargetHost => "Target URL has no host"@,
            ConnectErrorOf::NoTargetPort => "Target URL has no port and no default for scheme"@,
            ConnectErrorOf::NoProxyHost => "Proxy URL has no host"@,
            ConnectErrorOf::ProxyUnresolved(t) => "Failed to resolve proxy host: "@ + t,
            ConnectErrorOf::ProxyClosed => "Proxy connection closed while reading response"@,
            ConnectErrorOf::InvalidProxyResponse => "Invalid proxy response"@,
            ConnectErrorOf::ProxyRefused(t) => "Proxy connection failed: "@ + t,
            ConnectErrorOf::ProxyTlsUnavailable =>
                "WSS over proxy requires rustls-tls-native-roots feature"@,
            ConnectErrorOf::NoHost => "No host in URL"@,
            ConnectErrorOf::NoPort => "No port in URL"@,
            ConnectErrorOf::Unresolved(t) => "Failed to resolve host: "@ + t,
            ConnectErrorOf::InvalidRoot(t) => "Failed to parse root certificate: "@ + t,
            ConnectErrorOf::InvalidDnsName => "Invalid DNS name"@,
            ConnectErrorOf::InvalidDnsNameBehindProxy(t) => "Invalid DNS name: "@ + t,
            ConnectErrorOf::TlsFailed(t) => "TLS error: "@ + t,
            ConnectErrorOf::TlsFailedBehindProxy(t) => "TLS connection error: "@ + t,
        }
    }
}

fn joined(prefix: &str, text: &String) -> (message: String)
    ensures
        message@ == prefix@ + text@,
{
    let mut message = prefix.to_owned();
    message.append(text.as_str());
    message
}

impl ConnectErrorOf<String> {
    /// This failure in words.
    pub fn message(&self) -> (message: String)
        ensures
            message@ == self@.message_text(),
    {
        match self {
            ConnectErrorOf::InvalidProxyUrl(t) => joined("Invalid proxy URL: ", t),
            ConnectErrorOf::CredentialsTooLong => "Proxy credentials are too long".to_owned(),
            ConnectErrorOf::NoTargetHost => "Target URL has no host".to_owned(),
            ConnectErrorOf::NoTargetPort =>
                "Target URL has no port and no default for scheme".to_owned(),
            ConnectErrorOf::NoProxyHost => "Proxy URL has no host".to_owned(),
            ConnectErrorOf::ProxyUnresolved(t) => joined("Failed to resolve proxy host: ", t),
            ConnectErrorOf::ProxyClosed =>
                "Proxy connection closed while reading response".to_owned(),
            ConnectErrorOf::InvalidProxyResponse => "Invalid proxy response".to_owned(),
            ConnectErrorOf::ProxyRefused(t) => joined("Proxy connection failed: ", t),
            ConnectErrorOf::ProxyTlsUnavailable =>
                "WSS over proxy requires rustls-tls-native-roots feature".to_owned(),
            ConnectErrorOf::NoHost => "No host in URL".to_owned(),
            ConnectErrorOf::NoPort => "No port in URL".to_owned(),
            ConnectErrorOf::Unresolved(t) => joined("Failed to resolve host: ", t),
            ConnectErrorOf::InvalidRoot(t) => joined("Failed to parse root certificate: ", t),
            ConnectErrorOf::InvalidDnsName => "Invalid DNS name".to_owned(),
            ConnectErrorOf::InvalidDnsNameBehindProxy(t) => joined("Invalid DNS name: ", t),
            ConnectErrorOf::TlsFailed(t) => joined("TLS error: ", t),
            ConnectErrorOf::TlsFailedBehindProxy(t) => joined("TLS connection error: ", t),
        }
    }
}

/// Why a signal could not be sent. `E` is the error of the WebSocket.
#[derive(Debug)]
pub enum SignalError<E> {
    /// The WebSocket failed.
    WsError(E),
    /// The stream ended before the signal was handled.
    SendError,
}

/// The class of each failure: what the other side sent wrong, refused or left out has a class
/// of its own, what did not work out on the way has none, and the rest is wrong input.
pub proof fn failures_have_their_class<T>(text: T)
    ensures
        ConnectErrorOf::<T>::ProxyClosed.spec_kind() == FailureKind::UnexpectedEof,
        ConnectErrorOf::<T>::InvalidProxyResponse.spec_kind() == FailureKind::InvalidData,
        ConnectErrorOf::ProxyRefused(text).spec_kind() == FailureKind::ConnectionRefused,
        ConnectErrorOf::ProxyUnresolved(text).spec_kind() == FailureKind::Other,
        ConnectErrorOf::Unresolved(text).spec_kind() == FailureKind::Other,
        ConnectErrorOf::InvalidRoot(text).spec_kind() == FailureKind::Other,
        ConnectErrorOf::TlsFailed(text).spec_kind() == FailureKind::Other,
        ConnectErrorOf::TlsFailedBehindProxy(text).spec_kind() == FailureKind::Other,
        ConnectErrorOf::<T>::ProxyTlsUnavailable.spec_kind() == FailureKind::Other,
        ConnectErrorOf::InvalidProxyUrl(text).spec_kind() == FailureKind::InvalidInput,
        ConnectErrorOf::<T>::CredentialsTooLong.spec_kind() == FailureKind::InvalidInput,
        ConnectErrorOf::<T>::NoTargetHost.spec_kind() == FailureKind::InvalidInput,
        ConnectErrorOf::<T>::NoTargetPort.spec_kind() == FailureKind::InvalidInput,
        ConnectErrorOf::<T>::NoProxyHost.spec_kind() == FailureKind::InvalidInput,
        ConnectErrorOf::<T>::NoHost.spec_kind() == FailureKind::InvalidInput,
        ConnectErrorOf::<T>::NoPort.spec_kind() == FailureKind::InvalidInput,
        ConnectErrorOf::<T>::InvalidDnsName.spec_kind() == FailureKind::InvalidInput,
        ConnectErrorOf::InvalidDnsNameBehindProxy(text).spec_kind() == FailureKind::InvalidInput,
{
}

/// What a failure says ends with the text that it carries, whole and unchanged, behind words
/// that say what failed.
pub proof fn failures_say_what_they_carry(text: Seq<char>)
    ensures
        ConnectErrorOf::InvalidProxyUrl(text).message_text() == "Invalid proxy URL: "@ + text,
        ConnectErrorOf::ProxyUnresolved(text).message_text() == "Failed to resolve proxy host: "@
            + text,
        ConnectErrorOf::ProxyRefused(text).message_text() == "Proxy connection failed: "@ + text,
        ConnectErrorOf::Unresolved(text).message_text() == "Failed to resolve host: "@ + text,
        ConnectErrorOf::InvalidRoot(text).message_text() == "Failed to parse root certificate: "@
            + text,
        ConnectErrorOf::InvalidDnsNameBehindProxy(text).message_text() == "Invalid DNS name: "@
            + text,
        ConnectErrorOf::TlsFailed(text).message_text() == "TLS error: "@ + text,
        ConnectErrorOf::TlsFailedBehindProxy(text).message_text() == "TLS connection error: "@
            + text,
{
}

} // verus!
