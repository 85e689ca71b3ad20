//! What holds of every connection from its first action to its last, whatever events come.
use vstd::prelude::*;

use crate::address::{parsed, AddressView};
use crate::connect::{
    start_of, ActionOf, ActionView, ConnectorView, EventOf, EventView, Stack, StageOf,
};
use crate::error::ConnectErrorOf;
use crate::options::SignalStreamOptions;
use crate::proxy::{
    head_complete, plan_through, proxy_for, says_yes, verdict_needs_no_more_than_the_head,
    verdict_on_bytes, yes_is_one_or_true, EnvironmentView, ProxyPlanOf,
};
use crate::text::host_port_text;
use crate::tls::{
    every_loaded_root_is_trusted, server_name_valid, trust_anchor, trusted_roots, Anchor, TrustView,
};

verus! {

/// What a connection starts from.
pub struct Setup {
    pub target: AddressView,
    pub options: SignalStreamOptions,
    pub environment: EnvironmentView,
    pub stack: Stack,
}

impl Setup {
    /// Whether certificates go unverified.
    pub open spec fn skips(self) -> bool {
        self.options.skip_cert_verify || says_yes(self.environment.skip_cert_verify)
    }

    /// How to get through the proxy, where there is one.
    pub open spec fn plan(self) -> Option<
        Result<ProxyPlanOf<Seq<char>>, ConnectErrorOf<Seq<char>>>,
    > {
        if self.stack == Stack::Async {
            None
        } else {
            match proxy_for(self.target.scheme, self.environment) {
                Some(proxy) => Some(plan_through(self.target, parsed(proxy))),
                None => None,
            }
        }
    }

    /// The connection after these events.
    pub open spec fn after(self, events: Seq<EventView>) -> ConnectorView
        decreases events.len(),
    {
        if events.len() == 0 {
            start_of(self.target, self.options, self.environment, self.stack).0
        } else {
            self.after(events.drop_last()).next(events.last()).0
        }
    }

    /// The action after these events.
    pub open spec fn action(self, events: Seq<EventView>) -> ActionView {
        if events.len() == 0 {
            start_of(self.target, self.options, self.environment, self.stack).1
        } else {
            self.after(events.drop_last()).next(events.last()).1
        }
    }

    /// What the proxy has answered in these events.
    pub open spec fn answer(self, events: Seq<EventView>) -> Seq<u8>
        decreases events.len(),
    {
        if events.len() == 0 {
            Seq::empty()
        } else {
            let before = self.answer(events.drop_last());
            if self.after(events.drop_last()).stage is ProxyReceive {
                match events.last() {
                    EventOf::Received(bytes) => before + bytes,
                    _ => before,
                }
            } else {
                before
            }
        }
    }

    /// Whether the proxy granted the tunnel in these events.
    pub open spec fn granted(self, events: Seq<EventView>) -> bool {
        head_complete(self.answer(events)) && verdict_on_bytes(self.answer(events)) is Ok
    }

    /// Whether TLS with the target was started before the last of these events.
    pub open spec fn tls_started(self, events: Seq<EventView>) -> bool {
        exists|n: int|
            0 <= n < events.len() && (#[trigger] self.action(
                events.take(n),
            ) matches ActionOf::StartTls { host, .. } && Some(host) == self.target.host)
    }

    /// Whether these roots were loaded in these events.
    pub open spec fn roots_loaded(self, events: Seq<EventView>, trust: TrustView) -> bool {
        exists|n: int|
            0 <= n < events.len() && (#[trigger] events[n] matches EventOf::RootsLoaded(loaded)
                && trusted_roots(loaded) == Ok::<TrustView, ConnectErrorOf<Seq<char>>>(trust))
    }

    /// Trust that this connection may have.
    spec fn may_trust(self, events: Seq<EventView>, trust: TrustView) -> bool {
        if self.skips() {
            trust is AcceptAny
        } else {
            self.roots_loaded(events, trust)
        }
    }

    /// What holds at every stage.
    spec fn inv(self, events: Seq<EventView>) -> bool {
        let c = self.after(events);
        let direct = self.plan() is None && self.stack == Stack::TokioRustls;
        &&& c.target == self.target
        &&& c.skip_cert_verify == self.skips()
        &&& c.stack == self.stack
        &&& match c.stage {
            StageOf::Dialing => self.plan() is None && self.stack != Stack::TokioRustls,
            StageOf::DirectRoots => direct && !self.skips() && self.target.scheme != "ws"@,
            StageOf::DirectResolve { host, trust } | StageOf::DirectConnect { host, trust } => {
                &&& self.plan() is None
                &&& Some(host) == self.target.host
                &&& trust is None <==> self.target.scheme == "ws"@
                &&& trust matches Some(t) ==> self.may_trust(events, t)
            },
            StageOf::DirectTls => self.plan() is None,
            StageOf::ProxyResolve { host, proxy_host, request } => {
                &&& self.plan() matches Some(Ok(plan))
                &&& host == plan.host && proxy_host == plan.proxy_host && request == plan.request
                &&& self.answer(events) == Seq::<u8>::empty()
            },
            StageOf::ProxyConnect { host, request } => {
                &&& self.plan() matches Some(Ok(plan))
                &&& host == plan.host && request == plan.request
                &&& self.answer(events) == Seq::<u8>::empty()
            },
            StageOf::ProxySend { host } => {
                &&& self.plan() matches Some(Ok(plan))
                &&& host == plan.host
                &&& self.answer(events) == Seq::<u8>::empty()
            },
            StageOf::ProxyReceive { host, response } => {
                &&& self.plan() matches Some(Ok(plan))
                &&& host == plan.host
                &&& response == self.answer(events)
            },
            StageOf::ProxyRoots { host } => {
                &&& self.plan() matches Some(Ok(plan))
                &&& host == plan.host
                &&& !self.skips()
                &&& self.granted(events)
            },
            StageOf::ProxyTls => self.plan() matches Some(Ok(_)) && self.granted(events),
            StageOf::Upgrading => self.plan() is Some ==> self.granted(events),
            StageOf::Finished | StageOf::Failed => true,
        }
    }

    proof fn lemma_inv_at_start(self, events: Seq<EventView>)
        requires
            events.len() == 0,
        ensures
            self.inv(events),
    {
    }

    proof fn lemma_trust_is_kept(self, events: Seq<EventView>)
        requires
            events.len() > 0,
        ensures
            forall|t: TrustView|
                self.may_trust(events.drop_last(), t) ==> #[trigger] self.may_trust(events, t),
    {
        let before = events.drop_last();
        assert forall|t: TrustView| self.may_trust(before, t) implies #[trigger] self.may_trust(
            events,
            t,
        ) by {
            if !self.skips() {
                let n = choose|n: int|
                    0 <= n < before.len() && (#[trigger] before[n] matches EventOf::RootsLoaded(
                        loaded,
                    ) && trusted_roots(loaded) == Ok::<TrustView, ConnectErrorOf<Seq<char>>>(t));
                assert(events[n] == before[n]);
            }
        }
    }

    proof fn lemma_inv(self, events: Seq<EventView>)
        ensures
            self.inv(events),
        decreases events.len(),
    {
        if events.len() == 0 {
            self.lemma_inv_at_start(events);
        } else {
            self.lemma_inv(events.drop_last());
            self.lemma_trust_is_kept(events);
            assert(events[events.len() - 1] == events.last());
        }
    }
}

/// Connections through a proxy talk to the proxy alone: no other address is ever looked up.
pub proof fn only_the_proxy_is_looked_up(setup: Setup, events: Seq<EventView>)
    requires
        setup.plan() is Some,
    ensures
        setup.action(events) matches ActionOf::Resolve(address) ==> (setup.plan() matches Some(
            Ok(plan),
        ) && address == plan.proxy_address),
{
    if events.len() > 0 {
        setup.lemma_inv(events.drop_last());
    }
}

/// Connections without a proxy look up the target alone.
pub proof fn only_the_target_is_looked_up(setup: Setup, events: Seq<EventView>)
    requires
        setup.plan() is None,
    ensures
        setup.action(events) matches ActionOf::Resolve(address) ==> (setup.target.host matches Some(
            host,
        ) && setup.target.port matches Some(port) && address == host_port_text(host, port)),
{
    if events.len() > 0 {
        setup.lemma_inv(events.drop_last());
    }
}

/// Nothing is sent before the WebSocket handshake but the request for a tunnel, and that
/// only to a proxy.
pub proof fn only_the_request_is_sent(setup: Setup, events: Seq<EventView>)
    ensures
        setup.action(events) matches ActionOf::Send(text) ==> (setup.plan() matches Some(Ok(plan))
            && text == plan.request),
{
    if events.len() > 0 {
        setup.lemma_inv(events.drop_last());
    }
}

/// A tunnel is used only once the proxy has granted it: before that there is neither TLS
/// nor a WebSocket handshake.
pub proof fn tunnel_is_used_only_when_granted(setup: Setup, events: Seq<EventView>)
    requires
        setup.plan() is Some,
    ensures
        setup.action(events) is StartTls || setup.action(events) is Upgrade || setup.action(
            events,
        ) is Finish ==> setup.granted(events),
{
    if events.len() > 0 {
        setup.lemma_inv(events.drop_last());
    }
}

/// TLS is always started with the target's own host, also through a proxy.
pub proof fn tls_is_started_with_the_target(setup: Setup, events: Seq<EventView>)
    ensures
        setup.action(events) matches ActionOf::StartTls { host, .. } ==> Some(host)
            == setup.target.host,
{
    if events.len() > 0 {
        setup.lemma_inv(events.drop_last());
    }
}

/// Certificates go unverified only where the options or the environment say so; otherwise
/// what is trusted are the roots that were loaded.
pub proof fn certificates_are_verified_unless_skipped(setup: Setup, events: Seq<EventView>)
    ensures
        setup.action(events) matches ActionOf::StartTls { trust, .. } ==> if setup.skips() {
            trust is AcceptAny
        } else {
            trust is Roots && setup.roots_loaded(events, trust)
        },
{
    if events.len() > 0 {
        setup.lemma_inv(events.drop_last());
        setup.lemma_inv(events);
        if let ActionOf::StartTls { host, trust } = setup.action(events) {
            if !setup.skips() {
                let before = events.drop_last();
                match setup.after(before).stage {
                    StageOf::ProxyRoots { .. } => {
                        assert(events[events.len() - 1] == events.last());
                    },
                    _ => {
                        assert(setup.may_trust(before, trust));
                        let n = choose|n: int|
                            0 <= n < before.len() && (
                            #[trigger] before[n] matches EventOf::RootsLoaded(loaded)
                                && trusted_roots(loaded) == Ok::<
                                TrustView,
                                ConnectErrorOf<Seq<char>>,
                            >(trust));
                        assert(events[n] == before[n]);
                    },
                }
            }
        }
    }
}

proof fn lemma_tls_before_upgrade(setup: Setup, events: Seq<EventView>)
    requires
        setup.target.scheme != "ws"@,
        setup.plan() is None || setup.target.scheme == "wss"@,
    ensures
        setup.after(events).stage is DirectTls || setup.after(events).stage is ProxyTls
            || setup.after(events).stage is Upgrading ==> (exists|n: int|
            0 <= n <= events.len() && (#[trigger] setup.action(
                events.take(n),
            ) matches ActionOf::StartTls { host, .. } && Some(host) == setup.target.host)),
    decreases events.len(),
{
    if events.len() > 0 {
        let before = events.drop_last();
        let was = setup.after(before).stage;
        setup.lemma_inv(before);
        lemma_tls_before_upgrade(setup, before);
        tls_is_started_with_the_target(setup, events);
        assert(events.take(events.len() as int) == events);
        if was is DirectTls || was is ProxyTls || was is Upgrading {
            let n = choose|n: int|
                0 <= n <= before.len() && (#[trigger] setup.action(
                    before.take(n),
                ) matches ActionOf::StartTls { host, .. } && Some(host) == setup.target.host);
            assert(before.take(n) == events.take(n));
        }
    }
}

proof fn lemma_encrypted(setup: Setup, events: Seq<EventView>)
    requires
        setup.target.scheme != "ws"@,
        setup.plan() is None || setup.target.scheme == "wss"@,
    ensures
        setup.action(events) is Upgrade ==> setup.tls_started(events),
        setup.stack == Stack::TokioRustls ==> !(setup.action(events) is Dial),
{
    if events.len() > 0 {
        let before = events.drop_last();
        setup.lemma_inv(before);
        lemma_tls_before_upgrade(setup, before);
        if setup.action(events) is Upgrade {
            let n = choose|n: int|
                0 <= n <= before.len() && (#[trigger] setup.action(
                    before.take(n),
                ) matches ActionOf::StartTls { host, .. } && Some(host) == setup.target.host);
            assert(before.take(n) == events.take(n));
        }
    }
}

/// A `wss` connection never goes in the clear: the WebSocket handshake is done only after
/// TLS with the target was started. With rustls it is never left to the WebSocket library to
/// see to that.
pub proof fn wss_is_always_encrypted(setup: Setup, events: Seq<EventView>)
    requires
        setup.target.scheme == "wss"@,
    ensures
        setup.action(events) is Upgrade ==> setup.tls_started(events),
        setup.stack == Stack::TokioRustls ==> !(setup.action(events) is Dial),
{
    reveal_strlit("ws");
    reveal_strlit("wss");
    assert("ws"@.len() != "wss"@.len());
    lemma_encrypted(setup, events);
}

/// Without a proxy only `ws` goes in the clear: for a URL of any other scheme the WebSocket
/// handshake is done only after TLS with the target was started, and with rustls it is never
/// left to the WebSocket library to see to that.
pub proof fn only_ws_goes_in_the_clear_without_a_proxy(setup: Setup, events: Seq<EventView>)
    requires
        setup.plan() is None,
        setup.target.scheme != "ws"@,
    ensures
        setup.action(events) is Upgrade ==> setup.tls_started(events),
        setup.stack == Stack::TokioRustls ==> !(setup.action(events) is Dial),
{
    lemma_encrypted(setup, events);
}

/// What a connection comes to while a proxy's answer comes in these pieces: where it stands
/// after the last piece, or after the one with which it asks for no more.
pub open spec fn fed(connector: ConnectorView, pieces: Seq<Seq<u8>>) -> (ConnectorView, ActionView)
    decreases pieces.len(),
{
    if pieces.len() == 0 {
        (connector, ActionOf::Receive)
    } else {
        let (next, action) = connector.next(EventOf::Received(pieces[0]));
        if action is Receive {
            fed(next, pieces.drop_first())
        } else {
            (next, action)
        }
    }
}

/// What a connection comes to once so much of a proxy's answer is there, in whatever pieces:
/// it asks for more until the head is complete, and then the first line decides.
pub open spec fn judged(
    connector: ConnectorView,
    host: Seq<char>,
    response: Seq<u8>,
) -> (ConnectorView, ActionView) {
    if head_complete(response) {
        connector.answered(host, verdict_on_bytes(response))
    } else {
        (connector.at(StageOf::ProxyReceive { host, response }), ActionOf::Receive)
    }
}

/// How a proxy's answer comes in pieces does not matter, be its bytes text or not: pieces of
/// the same answer, none of them empty, bring a connection to the same stage and the same
/// action.
pub proof fn pieces_of_an_answer_do_not_matter(
    connector: ConnectorView,
    host: Seq<char>,
    pieces: Seq<Seq<u8>>,
    others: Seq<Seq<u8>>,
)
    requires
        connector.stage == (StageOf::<Seq<char>, Seq<u8>, TrustView>::ProxyReceive {
            host,
            response: Seq::empty(),
        }),
        forall|i: int| 0 <= i < pieces.len() ==> #[trigger] pieces[i].len() > 0,
        forall|i: int| 0 <= i < others.len() ==> #[trigger] others[i].len() > 0,
        pieces.flatten() == others.flatten(),
    ensures
        fed(connector, pieces) == judged(connector, host, pieces.flatten()),
        fed(connector, pieces) == fed(connector, others),
{
    let none = Seq::<u8>::empty();
    assert(!head_complete(none));
    lemma_fed(connector, host, none, pieces);
    lemma_fed(connector, host, none, others);
    assert(none + pieces.flatten() == pieces.flatten());
    assert(none + others.flatten() == others.flatten());
}

proof fn lemma_fed(
    connector: ConnectorView,
    host: Seq<char>,
    response: Seq<u8>,
    pieces: Seq<Seq<u8>>,
)
    requires
        connector.stage == (StageOf::<Seq<char>, Seq<u8>, TrustView>::ProxyReceive {
            host,
            response,
        }),
        forall|i: int| 0 <= i < pieces.len() ==> #[trigger] pieces[i].len() > 0,
        !head_complete(response),
    ensures
        fed(connector, pieces) == judged(connector, host, response + pieces.flatten()),
    decreases pieces.len(),
{
    if pieces.len() == 0 {
        assert(response + pieces.flatten() == response);
    } else {
        let more = response + pieces[0];
        let rest = pieces.drop_first();
        assert(response + pieces.flatten() == more + rest.flatten());
        if head_complete(more) {
            verdict_needs_no_more_than_the_head(more, rest.flatten());
        } else {
            let next = connector.at(StageOf::ProxyReceive { host, response: more });
            assert forall|i: int| 0 <= i < rest.len() implies #[trigger] rest[i].len() > 0 by {
                assert(rest[i] == pieces[i + 1]);
            }
            lemma_fed(next, host, more, rest);
        }
    }
}

/// The end of a connection is final: after success or failure every event is ignored.
pub proof fn the_end_is_final(setup: Setup, events: Seq<EventView>, n: int)
    requires
        0 <= n < events.len(),
        setup.action(events.take(n)) is Finish || setup.action(events.take(n)) is Abort
            || setup.action(events.take(n)) is Fail,
    ensures
        setup.action(events) is Ignore,
        setup.after(events) == setup.after(events.take(n)),
    decreases events.len(),
{
    let before = events.drop_last();
    let end = setup.after(events.take(n)).stage;
    assert(end is Finished || end is Failed);
    if n < events.len() - 1 {
        assert(before.take(n) == events.take(n));
        the_end_is_final(setup, before, n);
    } else {
        assert(events.take(n) == before);
    }
}

/// A connection succeeds only through a WebSocket handshake that came out well: the action
/// before the last event was the handshake, alone or with everything before it.
pub proof fn success_is_a_handshake(setup: Setup, events: Seq<EventView>)
    ensures
        setup.action(events) is Finish ==> events.len() > 0 && events.last() is Upgraded && (
        setup.after(events.drop_last()).stage is Upgrading || setup.after(
            events.drop_last(),
        ).stage is Dialing),
{
}

/// How many actions a connection may still take, not counting the receiving of more bytes.
pub open spec fn steps_left(connector: ConnectorView) -> nat {
    match connector.stage {
        StageOf::ProxyResolve { .. } => 8,
        StageOf::ProxyConnect { .. } => 7,
        StageOf::ProxySend { .. } => 6,
        StageOf::ProxyReceive { .. } => 5,
        StageOf::ProxyRoots { .. } => 4,
        StageOf::DirectRoots => 6,
        StageOf::DirectResolve { .. } => 5,
        StageOf::DirectConnect { .. } => 4,
        StageOf::ProxyTls | StageOf::DirectTls => 3,
        StageOf::Upgrading => 2,
        StageOf::Dialing => 1,
        StageOf::Finished | StageOf::Failed => 0,
    }
}

/// A connection comes to an end: every action but the receiving of more bytes from a proxy
/// brings it nearer, and it keeps asking for bytes only as long as the head of the answer
/// is incomplete.
pub proof fn every_action_is_progress(connector: ConnectorView, event: EventView)
    ensures
        ({
            let (next, action) = connector.next(event);
            ||| action is Ignore && next == connector
            ||| steps_left(next) < steps_left(connector)
            ||| action is Receive && connector.stage is ProxyReceive && (
            next.stage matches StageOf::ProxyReceive { response, .. } && !head_complete(response))
        }),
{
}

impl Setup {
    /// The action that is waiting for its answer after these events: the last one that was
    /// not to do nothing.
    pub open spec fn pending(self, events: Seq<EventView>) -> ActionView
        decreases events.len(),
    {
        if events.len() > 0 && self.action(events) is Ignore {
            self.pending(events.drop_last())
        } else {
            self.action(events)
        }
    }

    /// The action that one more event leads to.
    pub open spec fn follows(self, events: Seq<EventView>, event: EventView) -> ActionView {
        self.action(events.push(event))
    }

    /// The root certificates that came, or did not come, when they were asked for.
    pub open spec fn loaded(self, events: Seq<EventView>) -> Option<Option<Seq<Seq<u8>>>>
        decreases events.len(),
    {
        if events.len() == 0 {
            None
        } else {
            let before = events.drop_last();
            match (self.pending(before), events.last()) {
                (ActionOf::LoadRoots, EventOf::RootsLoaded(loaded)) => Some(loaded),
                _ => self.loaded(before),
            }
        }
    }

    /// Whether what is pending is what the stage waits for.
    spec fn pending_fits(self, events: Seq<EventView>) -> bool {
        let pending = self.pending(events);
        match self.after(events).stage {
            StageOf::Dialing => pending is Dial,
            StageOf::DirectRoots => pending is LoadRoots,
            StageOf::DirectResolve { .. } => pending is Resolve,
            StageOf::DirectConnect { .. } => pending is Connect,
            StageOf::DirectTls => pending is StartTls,
            StageOf::ProxyResolve { .. } => pending is Resolve,
            StageOf::ProxyConnect { .. } => pending is Connect,
            StageOf::ProxySend { .. } => pending is Send,
            StageOf::ProxyReceive { .. } => pending is Receive,
            StageOf::ProxyRoots { .. } => pending is LoadRoots,
            StageOf::ProxyTls => pending is StartTls,
            StageOf::Upgrading => pending is Upgrade,
            StageOf::Finished => pending is Finish,
            StageOf::Failed => pending is Fail || pending is Abort,
        }
    }

    proof fn lemma_pending(self, events: Seq<EventView>)
        ensures
            self.pending_fits(events),
        decreases events.len(),
    {
        if events.len() > 0 {
            self.lemma_pending(events.drop_last());
        }
    }

    /// What is known before one more event, and how it leads on.
    proof fn lemma_follows(self, events: Seq<EventView>, event: EventView)
        ensures
            self.follows(events, event) == self.after(events).next(event).1,
            self.after(events.push(event)) == self.after(events).next(event).0,
            self.inv(events),
            self.pending_fits(events),
    {
        assert(events.push(event).drop_last() == events);
        self.lemma_inv(events);
        self.lemma_pending(events);
    }
}

/// A connection starts with the look-up of the proxy, where there is one, and fails at once
/// where there is no plan for it. Without a proxy it looks the target up, after it has asked
/// for the roots where TLS is to verify certificates; schemes other than `ws` are left to
/// the WebSocket library where there is no rustls, and everything is on other runtimes.
pub proof fn connections_start_with_a_look_up(setup: Setup)
    ensures
        ({
            let first = setup.action(Seq::empty());
            let look_up = match (setup.target.host, setup.target.port) {
                (None, _) => ActionOf::<Seq<char>, TrustView>::Fail(ConnectErrorOf::NoHost),
                (_, None) => ActionOf::Fail(ConnectErrorOf::NoPort),
                (Some(host), Some(port)) => ActionOf::Resolve(host_port_text(host, port)),
            };
            &&& setup.stack == Stack::Async ==> first is Dial
            &&& setup.plan() matches Some(Err(error)) ==> first == ActionOf::<
                Seq<char>,
                TrustView,
            >::Fail(error)
            &&& setup.plan() matches Some(Ok(plan)) ==> first == ActionOf::<
                Seq<char>,
                TrustView,
            >::Resolve(plan.proxy_address)
            &&& setup.plan() is None && setup.stack != Stack::Async ==> {
                &&& setup.target.scheme == "ws"@ ==> first == look_up
                &&& setup.target.scheme != "ws"@ && setup.stack == Stack::Tokio ==> first is Dial
                &&& setup.target.scheme != "ws"@ && setup.stack == Stack::TokioRustls
                    && setup.skips() ==> first == look_up
                &&& setup.target.scheme != "ws"@ && setup.stack == Stack::TokioRustls
                    && !setup.skips() ==> first is LoadRoots
            }
        }),
{
}

/// A connection to a `wss` URL starts in the same way whatever `HTTP_PROXY` and `http_proxy`
/// say, and one to any other URL whatever `HTTPS_PROXY` and `https_proxy` say.
pub proof fn other_proxies_do_not_matter(setup: Setup, environment: EnvironmentView)
    requires
        environment.skip_cert_verify == setup.environment.skip_cert_verify,
        setup.target.scheme == "wss"@ ==> environment.https_proxy == setup.environment.https_proxy
            && environment.https_proxy_lower == setup.environment.https_proxy_lower,
        setup.target.scheme != "wss"@ ==> environment.http_proxy == setup.environment.http_proxy
            && environment.http_proxy_lower == setup.environment.http_proxy_lower,
    ensures
        start_of(setup.target, setup.options, environment, setup.stack) == start_of(
            setup.target,
            setup.options,
            setup.environment,
            setup.stack,
        ),
{
}

/// Certificates go unverified if and only if the options say so or the environment does, with
/// the digit one or the word `true`; without either they are verified.
pub proof fn skipping_is_asked_for(setup: Setup, events: Seq<EventView>)
    ensures
        setup.after(events).skip_cert_verify <==> setup.options.skip_cert_verify || (
        setup.environment.skip_cert_verify matches Some(v) && ((v.len() == 1 && v[0] == '1') || (
        v.len() == 4 && (v[0] == 't' || v[0] == 'T') && (v[1] == 'r' || v[1] == 'R') && (v[2] == 'u'
            || v[2] == 'U') && (v[3] == 'e' || v[3] == 'E')))),
        setup.after(events).skip_cert_verify == setup.skips(),
{
    setup.lemma_inv(events);
    yes_is_one_or_true(setup.environment.skip_cert_verify);
}

/// A host that has addresses, however many, is connected to; one without any is a failure that
/// names it, the proxy's host where there is a proxy and the target's otherwise.
pub proof fn addresses_are_connected_to(setup: Setup, events: Seq<EventView>, n: usize)
    requires
        setup.pending(events) is Resolve,
    ensures
        n > 0 ==> setup.follows(events, EventOf::Resolved(n)) is Connect,
        n == 0 ==> setup.follows(events, EventOf::Resolved(n)) == ActionOf::<
            Seq<char>,
            TrustView,
        >::Fail(
            match setup.plan() {
                Some(plan) => ConnectErrorOf::ProxyUnresolved(plan->Ok_0.proxy_host),
                None => ConnectErrorOf::Unresolved(setup.target.host->0),
            },
        ),
{
    setup.lemma_follows(events, EventOf::Resolved(n));
}

/// On a connection to a proxy the request is sent, and then its answer is awaited. On one to
/// the target the WebSocket handshake is done for `ws`, and TLS is started for any other
/// scheme, unless the host is no server name.
pub proof fn connections_are_used(setup: Setup, events: Seq<EventView>)
    ensures
        setup.pending(events) is Connect ==> {
            let next = setup.follows(events, EventOf::Connected);
            &&& setup.plan() matches Some(plan) ==> next == ActionOf::<Seq<char>, TrustView>::Send(
                plan->Ok_0.request,
            )
            &&& setup.plan() is None && setup.target.scheme == "ws"@ ==> next is Upgrade
            &&& setup.plan() is None && setup.target.scheme != "ws"@ ==> if server_name_valid(
                setup.target.host->0,
            ) {
                next matches ActionOf::StartTls { host, .. } && Some(host) == setup.target.host
            } else {
                next == ActionOf::<Seq<char>, TrustView>::Fail(ConnectErrorOf::InvalidDnsName)
            }
        },
        setup.pending(events) is Send ==> setup.follows(events, EventOf::Sent) is Receive,
{
    setup.lemma_follows(events, EventOf::Connected);
    setup.lemma_follows(events, EventOf::Sent);
}

/// The answer of a proxy is awaited until its head is complete; where the proxy closes before
/// that, the connection fails. A refusal is handed on. With a tunnel a `wss` connection goes
/// on to TLS with the target, after it has asked for the roots where certificates are to be
/// verified, and any other to the WebSocket handshake.
pub proof fn answers_are_acted_on(setup: Setup, events: Seq<EventView>, bytes: Seq<u8>)
    requires
        setup.pending(events) is Receive,
    ensures
        ({
            let next = setup.follows(events, EventOf::Received(bytes));
            let answer = setup.answer(events) + bytes;
            let verdict = verdict_on_bytes(answer);
            let host = setup.target.host->0;
            let fail = |error: ConnectErrorOf<Seq<char>>|
                next == ActionOf::<Seq<char>, TrustView>::Fail(error);
            &&& bytes.len() == 0 ==> fail(ConnectErrorOf::ProxyClosed)
            &&& bytes.len() > 0 && !head_complete(answer) ==> next is Receive
            &&& bytes.len() > 0 && head_complete(answer) ==> {
                &&& verdict matches Err(error) ==> fail(error)
                &&& verdict is Ok && setup.target.scheme != "wss"@ ==> next is Upgrade
                &&& verdict is Ok && setup.target.scheme == "wss"@ ==> if setup.stack
                    != Stack::TokioRustls {
                    fail(ConnectErrorOf::ProxyTlsUnavailable)
                } else if !setup.skips() {
                    next is LoadRoots
                } else if server_name_valid(host) {
                    next == (ActionOf::StartTls { host, trust: TrustView::AcceptAny })
                } else {
                    fail(ConnectErrorOf::InvalidDnsNameBehindProxy(host))
                }
            }
        }),
{
    setup.lemma_follows(events, EventOf::Received(bytes));
}

/// Whether these anchors are what the loaded certificates stand for: one for each, in their
/// order; none where nothing was loaded.
pub open spec fn stand_for(anchors: Seq<Anchor>, loaded: Option<Seq<Seq<u8>>>) -> bool {
    match loaded {
        None => anchors.len() == 0,
        Some(certs) => anchors.len() == certs.len() && forall|i: int|
            0 <= i < certs.len() ==> Some(#[trigger] anchors[i]) == trust_anchor(certs[i]),
    }
}

/// Whether all that was loaded can be read.
pub open spec fn readable(loaded: Option<Seq<Seq<u8>>>) -> bool {
    loaded matches Some(certs) ==> forall|i: int|
        0 <= i < certs.len() ==> trust_anchor(#[trigger] certs[i]) is Some
}

/// Roots that can all be read, or that could not be loaded at all, lead on: to the look-up of
/// the target without a proxy, and to TLS with the target through one, unless the target's
/// host is no server name. A root that cannot be read is a failure.
pub proof fn roots_lead_on(setup: Setup, events: Seq<EventView>, loaded: Option<Seq<Seq<u8>>>)
    requires
        setup.pending(events) is LoadRoots,
    ensures
        ({
            let next = setup.follows(events, EventOf::RootsLoaded(loaded));
            let fail = |error: ConnectErrorOf<Seq<char>>|
                next == ActionOf::<Seq<char>, TrustView>::Fail(error);
            &&& !readable(loaded) ==> fail(
                ConnectErrorOf::InvalidRoot("InvalidCertificate(BadEncoding)"@),
            )
            &&& readable(loaded) && setup.plan() is None ==> match (
                setup.target.host,
                setup.target.port,
            ) {
                (None, _) => fail(ConnectErrorOf::NoHost),
                (_, None) => fail(ConnectErrorOf::NoPort),
                (Some(host), Some(port)) => next == ActionOf::<Seq<char>, TrustView>::Resolve(
                    host_port_text(host, port),
                ),
            }
            &&& readable(loaded) && setup.plan() is Some ==> if server_name_valid(
                setup.target.host->0,
            ) {
                next matches ActionOf::StartTls { host, trust } && Some(host) == setup.target.host
                    && (trust matches TrustView::Roots(anchors) && stand_for(anchors, loaded))
            } else {
                fail(ConnectErrorOf::InvalidDnsNameBehindProxy(setup.target.host->0))
            }
        }),
{
    setup.lemma_follows(events, EventOf::RootsLoaded(loaded));
    if let Some(certs) = loaded {
        every_loaded_root_is_trusted(certs);
    }
}

/// TLS that stands leads to the WebSocket handshake; TLS that does not is a failure that says
/// why, and whether a proxy was in between. A WebSocket that stands is the success.
pub proof fn tls_leads_to_the_handshake(setup: Setup, events: Seq<EventView>, why: Seq<char>)
    ensures
        setup.pending(events) is StartTls ==> {
            &&& setup.follows(events, EventOf::TlsStarted) is Upgrade
            &&& setup.follows(events, EventOf::TlsFailed(why)) == ActionOf::<
                Seq<char>,
                TrustView,
            >::Fail(
                if setup.plan() is Some {
                    ConnectErrorOf::TlsFailedBehindProxy(why)
                } else {
                    ConnectErrorOf::TlsFailed(why)
                },
            )
        },
        setup.pending(events) is Upgrade || setup.pending(events) is Dial ==> setup.follows(
            events,
            EventOf::Upgraded,
        ) is Finish,
{
    setup.lemma_follows(events, EventOf::TlsStarted);
    setup.lemma_follows(events, EventOf::TlsFailed(why));
    setup.lemma_follows(events, EventOf::Upgraded);
}

/// Whether an event is an answer to an action.
pub open spec fn answers(event: EventView, action: ActionView) -> bool {
    match event {
        EventOf::Resolved(_) => action is Resolve,
        EventOf::Connected => action is Connect,
        EventOf::Sent => action is Send,
        EventOf::Received(_) => action is Receive,
        EventOf::RootsLoaded(_) => action is LoadRoots,
        EventOf::TlsStarted | EventOf::TlsFailed(_) => action is StartTls,
        EventOf::Upgraded => action is Upgrade || action is Dial,
        EventOf::Failed => !(action is Finish || action is Abort || action is Fail),
    }
}

/// Any action that fails with an error of its own is the end, with that error. Events that are
/// no answer to what is pending are ignored and change nothing, and no answer ever is.
pub proof fn only_answers_count(setup: Setup, events: Seq<EventView>, event: EventView)
    ensures
        answers(EventOf::Failed, setup.pending(events)) ==> setup.follows(events, EventOf::Failed)
            is Abort,
        !answers(event, setup.pending(events)) ==> setup.follows(events, event) is Ignore
            && setup.after(events.push(event)) == setup.after(events),
        answers(event, setup.pending(events)) ==> !(setup.follows(events, event) is Ignore),
{
    setup.lemma_follows(events, EventOf::Failed);
    setup.lemma_follows(events, event);
}

/// Whether an event says that an action went well.
pub open spec fn goes_well(event: EventView, action: ActionView) -> bool {
    &&& answers(event, action)
    &&& match event {
        EventOf::Resolved(n) => n > 0,
        EventOf::Received(bytes) => bytes.len() > 0,
        EventOf::RootsLoaded(loaded) => readable(loaded),
        EventOf::TlsFailed(_) | EventOf::Failed => false,
        _ => true,
    }
}

impl Setup {
    /// Whether there is nothing in the way of this connection: the target has a host and a
    /// port, there is a plan for the proxy, if any, and where there is TLS the host is a
    /// server name and rustls is there for it.
    pub open spec fn can_connect(self) -> bool {
        &&& self.target.host is Some && self.target.port is Some
        &&& server_name_valid(self.target.host->0)
        &&& self.plan() matches Some(plan) ==> plan is Ok && (self.target.scheme != "wss"@
            || self.stack == Stack::TokioRustls)
    }

    /// Whether every action went well in these events, the proxy granted the tunnel if it
    /// answered, and no event came too many.
    pub open spec fn all_went_well(self, events: Seq<EventView>) -> bool
        decreases events.len(),
    {
        events.len() > 0 ==> {
            let before = events.drop_last();
            &&& self.all_went_well(before)
            &&& goes_well(events.last(), self.action(before))
            &&& head_complete(self.answer(events)) ==> verdict_on_bytes(self.answer(events)) is Ok
        }
    }
}

/// A connection with nothing in its way, whose every action goes well, never fails and never
/// stalls: after each event it has succeeded, or there is another thing to do.
pub proof fn what_goes_well_goes_on(setup: Setup, events: Seq<EventView>)
    requires
        setup.can_connect(),
        setup.all_went_well(events),
    ensures
        ({
            let action = setup.action(events);
            &&& !(action is Fail || action is Abort || action is Ignore)
            &&& action is Finish <==> steps_left(setup.after(events)) == 0
        }),
    decreases events.len(),
{
    if events.len() > 0 {
        let before = events.drop_last();
        let event = events.last();
        what_goes_well_goes_on(setup, before);
        setup.lemma_follows(before, event);
        assert(before.push(event) == events);
        only_answers_count(setup, before, event);
        match event {
            EventOf::Resolved(n) => {
                addresses_are_connected_to(setup, before, n);
            },
            EventOf::Connected => {
                connections_are_used(setup, before);
            },
            EventOf::Sent => {
                connections_are_used(setup, before);
            },
            EventOf::Received(bytes) => {
                answers_are_acted_on(setup, before, bytes);
            },
            EventOf::RootsLoaded(loaded) => {
                roots_lead_on(setup, before, loaded);
            },
            _ => {
                tls_leads_to_the_handshake(setup, before, Seq::empty());
            },
        }
        setup.lemma_pending(events);
    } else {
        connections_start_with_a_look_up(setup);
        setup.lemma_pending(events);
    }
}

impl Setup {
    /// Whether trust that is kept for later is what the loaded roots stand for.
    spec fn trust_fits(self, events: Seq<EventView>) -> bool {
        match self.after(events).stage {
            StageOf::DirectResolve { trust: Some(trust), .. }
            | StageOf::DirectConnect { trust: Some(trust), .. } => !self.skips() ==> (
            self.loaded(events) matches Some(loaded) && (trust matches TrustView::Roots(anchors)
                && stand_for(anchors, loaded))),
            _ => true,
        }
    }

    proof fn lemma_trust_fits(self, events: Seq<EventView>)
        ensures
            self.trust_fits(events),
        decreases events.len(),
    {
        if events.len() > 0 {
            let before = events.drop_last();
            self.lemma_trust_fits(before);
            self.lemma_inv(before);
            self.lemma_pending(before);
            if let EventOf::RootsLoaded(Some(certs)) = events.last() {
                every_loaded_root_is_trusted(certs);
            }
        }
    }
}

/// Where certificates are verified, TLS is started with the anchors of exactly the roots that
/// were loaded: one for each certificate, in their order, however many there are.
pub proof fn tls_trusts_every_loaded_root(setup: Setup, events: Seq<EventView>)
    ensures
        setup.action(events) matches ActionOf::StartTls { trust, .. } ==> !setup.skips() ==> (
        setup.loaded(events) matches Some(loaded) && (trust matches TrustView::Roots(anchors)
            && stand_for(anchors, loaded))),
{
    if events.len() > 0 {
        let before = events.drop_last();
        setup.lemma_inv(before);
        setup.lemma_pending(before);
        setup.lemma_trust_fits(before);
        if let EventOf::RootsLoaded(Some(certs)) = events.last() {
            every_loaded_root_is_trusted(certs);
        }
    }
}

/// A direct connection with nothing in its way comes to success by way of the look-up, the
/// connection, TLS for any scheme but `ws`, and the WebSocket handshake, whatever number of
/// addresses the target has and whatever readable roots are loaded.
pub proof fn direct_connections_succeed(setup: Setup, n: usize, loaded: Option<Seq<Seq<u8>>>)
    requires
        setup.can_connect(),
        setup.plan() is None,
        setup.stack == Stack::TokioRustls,
        n > 0,
        readable(loaded),
    ensures
        setup.target.scheme == "ws"@ ==> setup.action(
            seq![EventOf::Resolved(n), EventOf::Connected, EventOf::Upgraded],
        ) is Finish,
        setup.target.scheme != "ws"@ && setup.skips() ==> setup.action(
            seq![
                EventOf::Resolved(n),
                EventOf::Connected,
                EventOf::TlsStarted,
                EventOf::Upgraded,
            ],
        ) is Finish,
        setup.target.scheme != "ws"@ && !setup.skips() ==> setup.action(
            seq![
                EventOf::RootsLoaded(loaded),
                EventOf::Resolved(n),
                EventOf::Connected,
                EventOf::TlsStarted,
                EventOf::Upgraded,
            ],
        ) is Finish,
{
    connections_start_with_a_look_up(setup);
    let none = Seq::<EventView>::empty();
    let start = if setup.target.scheme != "ws"@ && !setup.skips() {
        roots_lead_on(setup, none, loaded);
        none.push(EventOf::RootsLoaded(loaded))
    } else {
        none
    };
    addresses_are_connected_to(setup, start, n);
    let resolved = start.push(EventOf::Resolved(n));
    connections_are_used(setup, resolved);
    let connected = resolved.push(EventOf::Connected);
    let ready = if setup.target.scheme == "ws"@ {
        connected
    } else {
        tls_leads_to_the_handshake(setup, connected, Seq::empty());
        connected.push(EventOf::TlsStarted)
    };
    tls_leads_to_the_handshake(setup, ready, Seq::empty());
    let all = ready.push(EventOf::Upgraded);
    let expected: Seq<EventView> = if setup.target.scheme == "ws"@ {
        seq![EventOf::Resolved(n), EventOf::Connected, EventOf::Upgraded]
    } else if setup.skips() {
        seq![EventOf::Resolved(n), EventOf::Connected, EventOf::TlsStarted, EventOf::Upgraded]
    } else {
        seq![
            EventOf::RootsLoaded(loaded),
            EventOf::Resolved(n),
            EventOf::Connected,
            EventOf::TlsStarted,
            EventOf::Upgraded,
        ]
    };
    assert(all == expected);
}

/// A connection through a proxy with nothing in its way comes to success by way of the
/// look-up, the connection, the request, an answer that grants the tunnel, TLS for `wss`, and
/// the WebSocket handshake.
pub proof fn proxied_connections_succeed(
    setup: Setup,
    n: usize,
    answer: Seq<u8>,
    loaded: Option<Seq<Seq<u8>>>,
)
    requires
        setup.can_connect(),
        setup.plan() is Some,
        n > 0,
        head_complete(answer),
        verdict_on_bytes(answer) is Ok,
        readable(loaded),
    ensures
        ({
            let tunnel = seq![
                EventOf::Resolved(n),
                EventOf::Connected,
                EventOf::Sent,
                EventOf::Received(answer),
            ];
            &&& setup.target.scheme != "wss"@ ==> setup.action(tunnel.push(EventOf::Upgraded))
                is Finish
            &&& setup.target.scheme == "wss"@ && setup.skips() ==> setup.action(
                tunnel.push(EventOf::TlsStarted).push(EventOf::Upgraded),
            ) is Finish
            &&& setup.target.scheme == "wss"@ && !setup.skips() ==> setup.action(
                tunnel.push(EventOf::RootsLoaded(loaded)).push(EventOf::TlsStarted).push(
                    EventOf::Upgraded,
                ),
            ) is Finish
        }),
{
    connections_start_with_a_look_up(setup);
    let none = Seq::<EventView>::empty();
    addresses_are_connected_to(setup, none, n);
    let resolved = none.push(EventOf::Resolved(n));
    connections_are_used(setup, resolved);
    let connected = resolved.push(EventOf::Connected);
    connections_are_used(setup, connected);
    let sent = connected.push(EventOf::Sent);
    lemma_no_answer_yet(setup, n);
    assert(setup.answer(sent) + answer == answer);
    assert(answer.len() > 0);
    answers_are_acted_on(setup, sent, answer);
    let tunnel = sent.push(EventOf::Received(answer));
    let expected: Seq<EventView> = seq![
        EventOf::Resolved(n),
        EventOf::Connected,
        EventOf::Sent,
        EventOf::Received(answer),
    ];
    assert(tunnel == expected);
    if setup.target.scheme == "wss"@ {
        let ready = if setup.skips() {
            tunnel
        } else {
            roots_lead_on(setup, tunnel, loaded);
            tunnel.push(EventOf::RootsLoaded(loaded))
        };
        tls_leads_to_the_handshake(setup, ready, Seq::empty());
        tls_leads_to_the_handshake(setup, ready.push(EventOf::TlsStarted), Seq::empty());
    } else {
        tls_leads_to_the_handshake(setup, tunnel, Seq::empty());
    }
}

proof fn lemma_no_answer_yet(setup: Setup, n: usize)
    ensures
        setup.answer(
            Seq::empty().push(EventOf::Resolved(n)).push(EventOf::Connected).push(EventOf::Sent),
        ) == Seq::<u8>::empty(),
{
    let none = Seq::<EventView>::empty();
    let resolved = none.push(EventOf::Resolved(n));
    let connected = resolved.push(EventOf::Connected);
    assert(connected.push(EventOf::Sent).drop_last() == connected);
    assert(connected.drop_last() == resolved);
    assert(resolved.drop_last() == none);
    assert(setup.answer(none) == Seq::<u8>::empty());
    assert(setup.answer(resolved) == Seq::<u8>::empty());
    assert(setup.answer(connected) == Seq::<u8>::empty());
}

} // verus!
