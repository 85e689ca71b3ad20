//! Making a connection, one decision at a time. A [`Connector`] says what to do next; the
//! program around it does that and hands back what came of it.
use vstd::prelude::*;

use crate::address::{parsed, Address, AddressView};
use crate::error::{ConnectError, ConnectErrorOf};
use crate::options::SignalStreamOptions;
use crate::proxy::{
    check_response, has_head_end, head_complete, plan_proxy, plan_through, proxy_for, proxy_setting,
    says_yes, skips_cert_verify, verdict_on_bytes, Environment, EnvironmentView, ProxyPlan,
    ProxyPlanOf,
};
use crate::text::{host_port, host_port_text, same_text};
use crate::tls::{is_server_name, server_name_valid, trust_roots, trusted_roots, Trust, TrustView};

verus! {

/// What a program connects with.
#[derive(Debug, Clone, Copy, PartialEq, Eq, Structural)]
pub enum Stack {
    /// Tokio, with TLS by rustls and the root certificates of the system.
    TokioRustls,
    /// Tokio, with the TLS of the WebSocket library, if it has any.
    Tokio,
    /// Another runtime, whose WebSocket library connects by itself.
    Async,
}

/// What a program is to do next. `T` is the type of the texts in it and `R` that of the
/// trust in certificates.
#[derive(Debug)]
pub enum ActionOf<T, R> {
    /// Look the address `host:port` up.
    Resolve(T),
    /// Connect to the addresses that were found.
    Connect,
    /// Send this text to the proxy.
    Send(T),
    /// Receive from the proxy.
    Receive,
    /// Load the root certificates of the system.
    LoadRoots,
    /// Start TLS with this host on the connection.
    StartTls { host: T, trust: R },
    /// Do the WebSocket handshake on the connection.
    Upgrade,
    /// Have the WebSocket library connect to the URL by itself.
    Dial,
    /// Done: the WebSocket stands.
    Finish,
    /// Give up with the error that the last action had.
    Abort,
    /// Give up with this error.
    Fail(ConnectErrorOf<T>),
    /// Nothing: the event was not an answer to the last action.
    Ignore,
}

/// What a program is to do next.
pub type Action = ActionOf<String, Trust>;

/// What came of an action. `T` is the type of the texts in it, `B` that of bytes and `C`
/// that of certificates.
#[derive(Debug)]
pub enum EventOf<T, B, C> {
    /// So many addresses were found.
    Resolved(usize),
    /// The connection stands.
    Connected,
    /// The text was sent.
    Sent,
    /// These bytes came; none where the other side closed the connection.
    Received(B),
    /// These root certificates were loaded, in DER; nothing where that failed.
    RootsLoaded(Option<C>),
    /// TLS stands.
    TlsStarted,
    /// TLS failed; the text says why.
    TlsFailed(T),
    /// The WebSocket stands.
    Upgraded,
    /// The action failed with an error of its own.
    Failed,
}

/// What came of an action.
pub type Event = EventOf<String, Vec<u8>, Vec<Vec<u8>>>;

/// How far a connection has come. `T` is the type of the texts in it, `B` that of bytes and
/// `R` that of the trust in certificates.
#[derive(Debug)]
pub enum StageOf<T, B, R> {
    /// The WebSocket library connects by itself.
    Dialing,
    /// Roots are loaded for a connection without a proxy.
    DirectRoots,
    /// The target is looked up. Without trust there will be no TLS.
    DirectResolve { host: T, trust: Option<R> },
    /// The target is connected to. Without trust there will be no TLS.
    DirectConnect { host: T, trust: Option<R> },
    /// TLS is started with the target.
    DirectTls,
    /// The proxy is looked up.
    ProxyResolve { host: T, proxy_host: T, request: T },
    /// The proxy is connected to.
    ProxyConnect { host: T, request: T },
    /// The request for a tunnel is sent.
    ProxySend { host: T },
    /// The proxy's answer comes in; so much of it is there.
    ProxyReceive { host: T, response: B },
    /// Roots are loaded for a connection through a proxy.
    ProxyRoots { host: T },
    /// TLS is started with the target, through the proxy.
    ProxyTls,
    /// The WebSocket handshake is done.
    Upgrading,
    /// The WebSocket stands.
    Finished,
    /// The connection was given up.
    Failed,
}

/// How far a connection has come.
pub type Stage = StageOf<String, Vec<u8>, Trust>;

/// An action, in contracts.
pub type ActionView = ActionOf<Seq<char>, TrustView>;

/// An event, in contracts.
pub type EventView = EventOf<Seq<char>, Seq<u8>, Seq<Seq<u8>>>;

/// A stage, in contracts.
pub type StageView = StageOf<Seq<char>, Seq<u8>, TrustView>;

/// A connection in the making.
#[derive(Debug)]
pub struct Connector {
    /// Where to.
    pub target: Address,
    /// Whether certificates go unverified.
    pub skip_cert_verify: bool,
    /// With what.
    pub stack: Stack,
    /// How far.
    pub stage: Stage,
}

/// A connection in the making, in contracts.
pub struct ConnectorView {
    pub target: AddressView,
    pub skip_cert_verify: bool,
    pub stack: Stack,
    pub stage: StageView,
}

impl View for ActionOf<String, Trust> {
    type V = ActionView;

    open spec fn view(&self) -> ActionView {
        match *self {
            ActionOf::Resolve(t) => ActionOf::Resolve(t@),
            ActionOf::Connect => ActionOf::Connect,
            ActionOf::Send(t) => ActionOf::Send(t@),
            ActionOf::Receive => ActionOf::Receive,
            ActionOf::LoadRoots => ActionOf::LoadRoots,
            ActionOf::StartTls { host, trust } => ActionOf::StartTls { host: host@, trust: trust@ },
            ActionOf::Upgrade => ActionOf::Upgrade,
            ActionOf::Dial => ActionOf::Dial,
            ActionOf::Finish => ActionOf::Finish,
            ActionOf::Abort => ActionOf::Abort,
            ActionOf::Fail(e) => ActionOf::Fail(e@),
            ActionOf::Ignore => ActionOf::Ignore,
        }
    }
}

impl View for EventOf<String, Vec<u8>, Vec<Vec<u8>>> {
    type V = EventView;

    open spec fn view(&self) -> EventView {
        match *self {
            EventOf::Resolved(n) => EventOf::Resolved(n),
            EventOf::Connected => EventOf::Connected,
            EventOf::Sent => EventOf::Sent,
            EventOf::Received(b) => EventOf::Received(b@),
            EventOf::RootsLoaded(c) => EventOf::RootsLoaded(c.deep_view()),
            EventOf::TlsStarted => EventOf::TlsStarted,
            EventOf::TlsFailed(t) => EventOf::TlsFailed(t@),
            EventOf::Upgraded => EventOf::Upgraded,
            EventOf::Failed => EventOf::Failed,
        }
    }
}

/// Trust that may be missing, in contracts.
pub open spec fn trust_view(trust: Option<Trust>) -> Option<TrustView> {
    match trust {
        Some(t) => Some(t@),
        None => None,
    }
}

impl View for StageOf<String, Vec<u8>, Trust> {
    type V = StageView;

    open spec fn view(&self) -> StageView {
        match *self {
            StageOf::Dialing => StageOf::Dialing,
            StageOf::DirectRoots => StageOf::DirectRoots,
            StageOf::DirectResolve { host, trust } => StageOf::DirectResolve {
                host: host@,
                trust: trust_view(trust),
            },
            StageOf::DirectConnect { host, trust } => StageOf::DirectConnect {
                host: host@,
                trust: trust_view(trust),
            },
            StageOf::DirectTls => StageOf::DirectTls,
            StageOf::ProxyResolve { host, proxy_host, request } => StageOf::ProxyResolve {
                host: host@,
                proxy_host: proxy_host@,
                request: request@,
            },
            StageOf::ProxyConnect { host, request } => StageOf::ProxyConnect {
                host: host@,
                request: request@,
            },
            StageOf::ProxySend { host } => StageOf::ProxySend { host: host@ },
            StageOf::ProxyReceive { host, response } => StageOf::ProxyReceive {
                host: host@,
                response: response@,
            },
            StageOf::ProxyRoots { host } => StageOf::ProxyRoots { host: host@ },
            StageOf::ProxyTls => StageOf::ProxyTls,
            StageOf::Upgrading => StageOf::Upgrading,
            StageOf::Finished => StageOf::Finished,
            StageOf::Failed => StageOf::Failed,
        }
    }
}

impl View for Connector {
    type V = ConnectorView;

    open spec fn view(&self) -> ConnectorView {
        ConnectorView {
            target: self.target@,
            skip_cert_verify: self.skip_cert_verify,
            stack: self.stack,
            stage: self.stage@,
        }
    }
}

impl ConnectorView {
    /// The connection at another stage.
    pub open spec fn at(self, stage: StageView) -> ConnectorView {
        ConnectorView { stage, ..self }
    }

    /// Giving up with an error.
    pub open spec fn fail(self, error: ConnectErrorOf<Seq<char>>) -> (ConnectorView, ActionView) {
        (self.at(StageOf::Failed), ActionOf::Fail(error))
    }

    /// Looking the target up, without a proxy.
    pub open spec fn resolve_direct(self, trust: Option<TrustView>) -> (ConnectorView, ActionView) {
        match (self.target.host, self.target.port) {
            (None, _) => self.fail(ConnectErrorOf::NoHost),
            (Some(_), None) => self.fail(ConnectErrorOf::NoPort),
            (Some(host), Some(port)) => (
                self.at(StageOf::DirectResolve { host, trust }),
                ActionOf::Resolve(host_port_text(host, port)),
            ),
        }
    }

    /// Connecting without a proxy: a `ws` URL without TLS, any other with it.
    pub open spec fn direct(self) -> (ConnectorView, ActionView) {
        if self.target.scheme == "ws"@ {
            self.resolve_direct(None)
        } else if self.stack != Stack::TokioRustls {
            (self.at(StageOf::Dialing), ActionOf::Dial)
        } else if self.skip_cert_verify {
            self.resolve_direct(Some(TrustView::AcceptAny))
        } else {
            (self.at(StageOf::DirectRoots), ActionOf::LoadRoots)
        }
    }

    /// Connecting through a proxy.
    pub open spec fn through(
        self,
        plan: Result<ProxyPlanOf<Seq<char>>, ConnectErrorOf<Seq<char>>>,
    ) -> (ConnectorView, ActionView) {
        match plan {
            Err(error) => self.fail(error),
            Ok(plan) => (
                self.at(
                    StageOf::ProxyResolve {
                        host: plan.host,
                        proxy_host: plan.proxy_host,
                        request: plan.request,
                    },
                ),
                ActionOf::Resolve(plan.proxy_address),
            ),
        }
    }

    /// Starting TLS without a proxy; `valid` says whether the host is a server name.
    pub open spec fn direct_tls(
        self,
        host: Seq<char>,
        trust: TrustView,
        valid: bool,
    ) -> (ConnectorView, ActionView) {
        if valid {
            (self.at(StageOf::DirectTls), ActionOf::StartTls { host, trust })
        } else {
            self.fail(ConnectErrorOf::InvalidDnsName)
        }
    }

    /// Starting TLS through a proxy; `valid` says whether the host is a server name.
    pub open spec fn proxy_tls(
        self,
        host: Seq<char>,
        trust: TrustView,
        valid: bool,
    ) -> (ConnectorView, ActionView) {
        if valid {
            (self.at(StageOf::ProxyTls), ActionOf::StartTls { host, trust })
        } else {
            self.fail(ConnectErrorOf::InvalidDnsNameBehindProxy(host))
        }
    }

    /// What follows the proxy's answer: TLS for a `wss` URL, the handshake for any other.
    pub open spec fn answered(
        self,
        host: Seq<char>,
        verdict: Result<(), ConnectErrorOf<Seq<char>>>,
    ) -> (ConnectorView, ActionView) {
        match verdict {
            Err(error) => self.fail(error),
            Ok(_) => if self.target.scheme != "wss"@ {
                (self.at(StageOf::Upgrading), ActionOf::Upgrade)
            } else if self.stack != Stack::TokioRustls {
                self.fail(ConnectErrorOf::ProxyTlsUnavailable)
            } else if self.skip_cert_verify {
                self.proxy_tls(host, TrustView::AcceptAny, server_name_valid(host))
            } else {
                (self.at(StageOf::ProxyRoots { host }), ActionOf::LoadRoots)
            },
        }
    }

    /// What follows bytes from the proxy: more of them, until the head is complete.
    pub open spec fn received(
        self,
        host: Seq<char>,
        response: Seq<u8>,
        bytes: Seq<u8>,
    ) -> (ConnectorView, ActionView) {
        if bytes.len() == 0 {
            self.fail(ConnectErrorOf::ProxyClosed)
        } else if !head_complete(response + bytes) {
            (
                self.at(StageOf::ProxyReceive { host, response: response + bytes }),
                ActionOf::Receive,
            )
        } else {
            self.answered(host, verdict_on_bytes(response + bytes))
        }
    }

    /// The stage and the action that follow an event.
    pub open spec fn next(self, event: EventView) -> (ConnectorView, ActionView) {
        match (self.stage, event) {
            (StageOf::Finished, _) | (StageOf::Failed, _) => (self, ActionOf::Ignore),
            (_, EventOf::Failed) => (self.at(StageOf::Failed), ActionOf::Abort),
            (StageOf::Dialing, EventOf::Upgraded) | (StageOf::Upgrading, EventOf::Upgraded) => (
                self.at(StageOf::Finished),
                ActionOf::Finish,
            ),
            (StageOf::DirectRoots, EventOf::RootsLoaded(loaded)) => match trusted_roots(loaded) {
                Ok(trust) => self.resolve_direct(Some(trust)),
                Err(error) => self.fail(error),
            },
            (StageOf::DirectResolve { host, trust }, EventOf::Resolved(n)) => if n == 0 {
                self.fail(ConnectErrorOf::Unresolved(host))
            } else {
                (self.at(StageOf::DirectConnect { host, trust }), ActionOf::Connect)
            },
            (StageOf::DirectConnect { host, trust }, EventOf::Connected) => match trust {
                None => (self.at(StageOf::Upgrading), ActionOf::Upgrade),
                Some(trust) => self.direct_tls(host, trust, server_name_valid(host)),
            },
            (StageOf::DirectTls, EventOf::TlsStarted) | (StageOf::ProxyTls, EventOf::TlsStarted)
                => (self.at(StageOf::Upgrading), ActionOf::Upgrade),
            (StageOf::DirectTls, EventOf::TlsFailed(why)) => self.fail(
                ConnectErrorOf::TlsFailed(why),
            ),
            (StageOf::ProxyTls, EventOf::TlsFailed(why)) => self.fail(
                ConnectErrorOf::TlsFailedBehindProxy(why),
            ),
            (StageOf::ProxyResolve { host, proxy_host, request }, EventOf::Resolved(n)) => if n
                == 0 {
                self.fail(ConnectErrorOf::ProxyUnresolved(proxy_host))
            } else {
                (self.at(StageOf::ProxyConnect { host, request }), ActionOf::Connect)
            },
            (StageOf::ProxyConnect { host, request }, EventOf::Connected) => (
                self.at(StageOf::ProxySend { host }),
                ActionOf::Send(request),
            ),
            (StageOf::ProxySend { host }, EventOf::Sent) => (
                self.at(StageOf::ProxyReceive { host, response: Seq::empty() }),
                ActionOf::Receive,
            ),
            (StageOf::ProxyReceive { host, response }, EventOf::Received(bytes)) => self.received(
                host,
                response,
                bytes,
            ),
            (StageOf::ProxyRoots { host }, EventOf::RootsLoaded(loaded)) => match trusted_roots(
                loaded,
            ) {
                Ok(trust) => self.proxy_tls(host, trust, server_name_valid(host)),
                Err(error) => self.fail(error),
            },
            _ => (self, ActionOf::Ignore),
        }
    }
}

/// A connection before its first action.
pub open spec fn fresh(
    target: AddressView,
    skip_cert_verify: bool,
    stack: Stack,
) -> ConnectorView {
    ConnectorView { target, skip_cert_verify, stack, stage: StageOf::Dialing }
}

/// The first stage and the first action of a connection.
pub open spec fn start_of(
    target: AddressView,
    options: SignalStreamOptions,
    environment: EnvironmentView,
    stack: Stack,
) -> (ConnectorView, ActionView) {
    let skip = options.skip_cert_verify || says_yes(environment.skip_cert_verify);
    let connector = fresh(target, skip, stack);
    if stack == Stack::Async {
        (connector, ActionOf::Dial)
    } else {
        match proxy_for(target.scheme, environment) {
            Some(proxy) => connector.through(plan_through(target, parsed(proxy))),
            None => connector.direct(),
        }
    }
}

impl Connector {
    fn at(self, stage: Stage) -> (connector: Connector)
        ensures
            connector@ == self@.at(stage@),
    {
        Connector {
            target: self.target,
            skip_cert_verify: self.skip_cert_verify,
            stack: self.stack,
            stage,
        }
    }

    fn fail(self, error: ConnectError) -> (next: (Connector, Action))
        ensures
            (next.0@, next.1@) == self@.fail(error@),
    {
        (self.at(StageOf::Failed), ActionOf::Fail(error))
    }

    /// Looks the target up, without a proxy. With trust there will be TLS.
    pub fn resolve_direct(self, trust: Option<Trust>) -> (next: (Connector, Action))
        ensures
            (next.0@, next.1@) == self@.resolve_direct(trust_view(trust)),
    {
        let host: String = match &self.target.host {
            Some(host) => host.clone(),
            None => {
                return self.fail(ConnectErrorOf::NoHost);
            },
        };
        let port: u16 = match self.target.port {
            Some(port) => port,
            None => {
                return self.fail(ConnectErrorOf::NoPort);
            },
        };
        let address = host_port(host.as_str(), port);
        (self.at(StageOf::DirectResolve { host, trust }), ActionOf::Resolve(address))
    }

    fn direct(self) -> (next: (Connector, Action))
        ensures
            (next.0@, next.1@) == self@.direct(),
    {
        if same_text(self.target.scheme.as_str(), "ws") {
            self.resolve_direct(None)
        } else if self.stack != Stack::TokioRustls {
            (self.at(StageOf::Dialing), ActionOf::Dial)
        } else if self.skip_cert_verify {
            self.resolve_direct(Some(Trust::AcceptAny))
        } else {
            (self.at(StageOf::DirectRoots), ActionOf::LoadRoots)
        }
    }

    /// Connects through a proxy, once it was decided how.
    pub fn through(self, plan: Result<ProxyPlan, ConnectError>) -> (next: (Connector, Action))
        ensures
            (next.0@, next.1@) == self@.through(
                match plan {
                    Ok(p) => Ok(p@),
                    Err(e) => Err(e@),
                },
            ),
    {
        match plan {
            Err(error) => self.fail(error),
            Ok(plan) => (
                self.at(
                    StageOf::ProxyResolve {
                        host: plan.host,
                        proxy_host: plan.proxy_host,
                        request: plan.request,
                    },
                ),
                ActionOf::Resolve(plan.proxy_address),
            ),
        }
    }

    /// Starts to connect to a target.
    pub fn start(
        target: Address,
        options: &SignalStreamOptions,
        environment: &Environment,
        stack: Stack,
    ) -> (next: (Connector, Action))
        ensures
            (next.0@, next.1@) == start_of(target@, *options, environment@, stack),
    {
        let skip_cert_verify = skips_cert_verify(options, environment);
        let connector = Connector { target, skip_cert_verify, stack, stage: StageOf::Dialing };
        if stack == Stack::Async {
            return (connector, ActionOf::Dial);
        }
        match proxy_setting(connector.target.scheme.as_str(), environment) {
            Some(setting) => {
                let plan = plan_proxy(&connector.target, setting.as_str());
                connector.through(plan)
            },
            None => connector.direct(),
        }
    }

    /// Starts TLS without a proxy; `valid` says whether the host is a server name.
    pub fn direct_tls(self, host: String, trust: Trust, valid: bool) -> (next: (Connector, Action))
        ensures
            (next.0@, next.1@) == self@.direct_tls(host@, trust@, valid),
    {
        if valid {
            (self.at(StageOf::DirectTls), ActionOf::StartTls { host, trust })
        } else {
            self.fail(ConnectErrorOf::InvalidDnsName)
        }
    }

    /// Starts TLS through a proxy; `valid` says whether the host is a server name.
    pub fn proxy_tls(self, host: String, trust: Trust, valid: bool) -> (next: (Connector, Action))
        ensures
            (next.0@, next.1@) == self@.proxy_tls(host@, trust@, valid),
    {
        if valid {
            (self.at(StageOf::ProxyTls), ActionOf::StartTls { host, trust })
        } else {
            self.fail(ConnectErrorOf::InvalidDnsNameBehindProxy(host))
        }
    }

    /// Goes on after the proxy's answer, once it is known what that means.
    pub fn answered(self, host: String, verdict: Result<(), ConnectError>) -> (next: (
        Connector,
        Action,
    ))
        ensures
            (next.0@, next.1@) == self@.answered(
                host@,
                match verdict {
                    Ok(_) => Ok(()),
                    Err(e) => Err(e@),
                },
            ),
    {
        match verdict {
            Err(error) => self.fail(error),
            Ok(_) => if !same_text(self.target.scheme.as_str(), "wss") {
                (self.at(StageOf::Upgrading), ActionOf::Upgrade)
            } else if self.stack != Stack::TokioRustls {
                self.fail(ConnectErrorOf::ProxyTlsUnavailable)
            } else if self.skip_cert_verify {
                let valid = is_server_name(host.as_str());
                self.proxy_tls(host, Trust::AcceptAny, valid)
            } else {
                (self.at(StageOf::ProxyRoots { host }), ActionOf::LoadRoots)
            },
        }
    }

    fn received(self, host: String, response: Vec<u8>, bytes: Vec<u8>) -> (next: (
        Connector,
        Action,
    ))
        ensures
            (next.0@, next.1@) == self@.received(host@, response@, bytes@),
    {
        if bytes.len() == 0 {
            return self.fail(ConnectErrorOf::ProxyClosed);
        }
        let mut all = response;
        let mut more = bytes;
        all.append(&mut more);
        if !has_head_end(&all) {
            return (self.at(StageOf::ProxyReceive { host, response: all }), ActionOf::Receive);
        }
        let verdict = check_response(&all);
        self.answered(host, verdict)
    }

    fn roots_loaded(self, loaded: Option<Vec<Vec<u8>>>, behind_proxy: Option<String>) -> (next: (
        Connector,
        Action,
    ))
        ensures
            (next.0@, next.1@) == match trusted_roots(loaded.deep_view()) {
                Ok(trust) => match behind_proxy {
                    None => self@.resolve_direct(Some(trust)),
                    Some(host) => self@.proxy_tls(host@, trust, server_name_valid(host@)),
                },
                Err(error) => self@.fail(error),
            },
    {
        match trust_roots(loaded) {
            Ok(trust) => match behind_proxy {
                None => self.resolve_direct(Some(trust)),
                Some(host) => {
                    let valid = is_server_name(host.as_str());
                    self.proxy_tls(host, trust, valid)
                },
            },
            Err(error) => self.fail(error),
        }
    }

    /// Takes what came of the last action and says what to do next.
    pub fn next(self, event: Event) -> (next: (Connector, Action))
        ensures
            (next.0@, next.1@) == self@.next(event@),
    {
        let Connector { target, skip_cert_verify, stack, stage } = self;
        let rest = Connector { target, skip_cert_verify, stack, stage: StageOf::Failed };
        match (stage, event) {
            (StageOf::Finished, _) => (rest.at(StageOf::Finished), ActionOf::Ignore),
            (StageOf::Failed, _) => (rest.at(StageOf::Failed), ActionOf::Ignore),
            (_, EventOf::Failed) => (rest.at(StageOf::Failed), ActionOf::Abort),
            (StageOf::Dialing, EventOf::Upgraded) | (StageOf::Upgrading, EventOf::Upgraded) => (
                rest.at(StageOf::Finished),
                ActionOf::Finish,
            ),
            (StageOf::DirectRoots, EventOf::RootsLoaded(loaded)) => rest.roots_loaded(loaded, None),
            (StageOf::DirectResolve { host, trust }, EventOf::Resolved(n)) => if n == 0 {
                rest.fail(ConnectErrorOf::Unresolved(host))
            } else {
                (rest.at(StageOf::DirectConnect { host, trust }), ActionOf::Connect)
            },
            (StageOf::DirectConnect { host, trust }, EventOf::Connected) => match trust {
                None => (rest.at(StageOf::Upgrading), ActionOf::Upgrade),
                Some(trust) => {
                    let valid = is_server_name(host.as_str());
                    rest.direct_tls(host, trust, valid)
                },
            },
            (StageOf::DirectTls, EventOf::TlsStarted) | (StageOf::ProxyTls, EventOf::TlsStarted)
                => (rest.at(StageOf::Upgrading), ActionOf::Upgrade),
            (StageOf::DirectTls, EventOf::TlsFailed(why)) => rest.fail(
                ConnectErrorOf::TlsFailed(why),
            ),
            (StageOf::ProxyTls, EventOf::TlsFailed(why)) => rest.fail(
                ConnectErrorOf::TlsFailedBehindProxy(why),
            ),
            (StageOf::ProxyResolve { host, proxy_host, request }, EventOf::Resolved(n)) => if n
                == 0 {
                rest.fail(ConnectErrorOf::ProxyUnresolved(proxy_host))
            } else {
                (rest.at(StageOf::ProxyConnect { host, request }), ActionOf::Connect)
            },
            (StageOf::ProxyConnect { host, request }, EventOf::Connected) => (
                rest.at(StageOf::ProxySend { host }),
                ActionOf::Send(request),
            ),
            (StageOf::ProxySend { host }, EventOf::Sent) => (
                rest.at(StageOf::ProxyReceive { host, response: Vec::new() }),
                ActionOf::Receive,
            ),
            (StageOf::ProxyReceive { host, response }, EventOf::Received(bytes)) => rest.received(
                host,
                response,
                bytes,
            ),
            (StageOf::ProxyRoots { host }, EventOf::RootsLoaded(loaded)) => rest.roots_loaded(
                loaded,
                Some(host),
            ),
            (stage, _) => (rest.at(stage), ActionOf::Ignore),
        }
    }
}

} // verus!
