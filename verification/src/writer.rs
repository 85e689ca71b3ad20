//! The writer of a stream: it takes messages one after the other, sends them to the
//! WebSocket, and closes it in the end.
use vstd::prelude::*;

use crate::error::SignalError;
use crate::stream::InternalMessage;

verus! {

/// Where the writer stands. `R` is the type of the channel on which the sender of a signal
/// waits.
#[derive(Debug)]
pub enum WriterState<R> {
    /// Waiting for a message.
    Receiving,
    /// Sending a signal, whose sender waits.
    SendingSignal { response_chn: R },
    /// Reporting the outcome of a signal.
    Reporting { failed: bool },
    /// Sending a pong.
    SendingPong,
    /// Closing the WebSocket.
    Closing,
    /// Done.
    Done,
}

/// What came of the writer's last action. `S` is the type of signals and `E` that of the
/// errors of the WebSocket.
#[derive(Debug)]
pub enum WriterEvent<S, R, E> {
    /// A message came.
    Message(InternalMessage<S, R>),
    /// No message will come any more.
    Disconnected,
    /// What was to be sent was sent, or not.
    Sent(Result<(), E>),
    /// The outcome was reported, or nobody waited for it.
    Reported,
    /// The WebSocket was closed, or could not be.
    Closed,
}

/// What the writer does next.
#[derive(Debug)]
pub enum WriterAction<S, R, E> {
    /// Wait for a message.
    Receive,
    /// Send this signal.
    SendSignal { signal: S },
    /// Report the outcome of a signal to its sender.
    Report { response_chn: R, outcome: Result<(), SignalError<E>> },
    /// Send a pong with this data.
    SendPong { ping_data: Vec<u8> },
    /// Close the WebSocket.
    Close,
    /// Stop.
    Stop,
    /// Nothing: the event was not an answer to the last action.
    Ignore,
}

/// The outcome of a signal, as its sender learns it.
pub open spec fn outcome_of<E>(sent: Result<(), E>) -> Result<(), SignalError<E>> {
    match sent {
        Ok(_) => Ok(()),
        Err(error) => Err(SignalError::WsError(error)),
    }
}

/// The state and the action of the writer that follow an event.
pub open spec fn writer_next<S, R, E>(
    state: WriterState<R>,
    event: WriterEvent<S, R, E>,
) -> (WriterState<R>, WriterAction<S, R, E>) {
    match (state, event) {
        (WriterState::Receiving, WriterEvent::Message(message)) => match message {
            InternalMessage::Signal { signal, response_chn } => (
                WriterState::SendingSignal { response_chn },
                WriterAction::SendSignal { signal },
            ),
            InternalMessage::Pong { ping_data } => (
                WriterState::SendingPong,
                WriterAction::SendPong { ping_data },
            ),
            InternalMessage::Close => (WriterState::Closing, WriterAction::Close),
        },
        (WriterState::Receiving, WriterEvent::Disconnected) => (
            WriterState::Closing,
            WriterAction::Close,
        ),
        (WriterState::SendingSignal { response_chn }, WriterEvent::Sent(sent)) => (
            WriterState::Reporting { failed: sent is Err },
            WriterAction::Report { response_chn, outcome: outcome_of(sent) },
        ),
        (WriterState::Reporting { failed }, WriterEvent::Reported) => if failed {
            (WriterState::Closing, WriterAction::Close)
        } else {
            (WriterState::Receiving, WriterAction::Receive)
        },
        (WriterState::SendingPong, WriterEvent::Sent(_)) => (
            WriterState::Receiving,
            WriterAction::Receive,
        ),
        (WriterState::Closing, WriterEvent::Closed) => (WriterState::Done, WriterAction::Stop),
        _ => (state, WriterAction::Ignore),
    }
}

impl<R> WriterState<R> {
    /// The writer before its first message, and the first thing to do: to wait for one.
    pub fn start<S, E>() -> (start: (WriterState<R>, WriterAction<S, R, E>))
        ensures
            start == (WriterState::<R>::Receiving, WriterAction::<S, R, E>::Receive),
    {
        (WriterState::Receiving, WriterAction::Receive)
    }

    /// Takes what came of the last action and says what to do next.
    pub fn next<S, E>(self, event: WriterEvent<S, R, E>) -> (next: (
        WriterState<R>,
        WriterAction<S, R, E>,
    ))
        ensures
            next == writer_next(self, event),
    {
        match (self, event) {
            (WriterState::Receiving, WriterEvent::Message(message)) => match message {
                InternalMessage::Signal { signal, response_chn } => (
                    WriterState::SendingSignal { response_chn },
                    WriterAction::SendSignal { signal },
                ),
                InternalMessage::Pong { ping_data } => (
                    WriterState::SendingPong,
                    WriterAction::SendPong { ping_data },
                ),
                InternalMessage::Close => (WriterState::Closing, WriterAction::Close),
            },
            (WriterState::Receiving, WriterEvent::Disconnected) => (
                WriterState::Closing,
                WriterAction::Close,
            ),
            (WriterState::SendingSignal { response_chn }, WriterEvent::Sent(sent)) => match sent {
                Ok(_) => (
                    WriterState::Reporting { failed: false },
                    WriterAction::Report { response_chn, outcome: Ok(()) },
                ),
                Err(error) => (
                    WriterState::Reporting { failed: true },
                    WriterAction::Report {
                        response_chn,
                        outcome: Err(SignalError::WsError(error)),
                    },
                ),
            },
            (WriterState::Reporting { failed }, WriterEvent::Reported) => if failed {
                (WriterState::Closing, WriterAction::Close)
            } else {
                (WriterState::Receiving, WriterAction::Receive)
            },
            (WriterState::SendingPong, WriterEvent::Sent(_)) => (
                WriterState::Receiving,
                WriterAction::Receive,
            ),
            (WriterState::Closing, WriterEvent::Closed) => (WriterState::Done, WriterAction::Stop),
            (state, _) => (state, WriterAction::Ignore),
        }
    }
}

/// The writer after these events.
pub open spec fn writer_after<S, R, E>(
    state: WriterState<R>,
    events: Seq<WriterEvent<S, R, E>>,
) -> WriterState<R>
    decreases events.len(),
{
    if events.len() == 0 {
        state
    } else {
        writer_after(writer_next(state, events[0]).0, events.skip(1))
    }
}

/// What the writer does to the world in the course of these events: everything but waiting.
pub open spec fn writer_effects<S, R, E>(
    state: WriterState<R>,
    events: Seq<WriterEvent<S, R, E>>,
) -> Seq<WriterAction<S, R, E>>
    decreases events.len(),
{
    if events.len() == 0 {
        Seq::empty()
    } else {
        let (next, action) = writer_next(state, events[0]);
        let rest = writer_effects(next, events.skip(1));
        if action is Receive || action is Stop || action is Ignore {
            rest
        } else {
            seq![action] + rest
        }
    }
}

/// A message, with what comes of sending it.
pub struct Delivery<S, R, E> {
    pub message: InternalMessage<S, R>,
    pub sent: Result<(), E>,
}

/// The events of a writer that takes these messages, after which no more come.
pub open spec fn writer_events<S, R, E>(queue: Seq<Delivery<S, R, E>>) -> Seq<
    WriterEvent<S, R, E>,
>
    decreases queue.len(),
{
    if queue.len() == 0 {
        seq![WriterEvent::Disconnected, WriterEvent::Closed]
    } else {
        let first = seq![WriterEvent::Message(queue[0].message)];
        let rest = writer_events(queue.skip(1));
        match queue[0].message {
            InternalMessage::Signal { .. } => first + (seq![
                WriterEvent::Sent(queue[0].sent),
                WriterEvent::Reported,
            ] + if queue[0].sent is Ok {
                rest
            } else {
                seq![WriterEvent::Closed]
            }),
            InternalMessage::Pong { .. } => first + (seq![WriterEvent::Sent(queue[0].sent)] + rest),
            InternalMessage::Close => first + seq![WriterEvent::Closed],
        }
    }
}

/// What a queue of messages comes to. In their order, signals are sent and each is
/// reported to its sender at once; pongs are sent. It ends with the closing of the
/// WebSocket: at a request for that, after a signal that could not be sent, or when no more
/// messages come. A pong that cannot be sent ends nothing.
pub open spec fn written<S, R, E>(queue: Seq<Delivery<S, R, E>>) -> Seq<WriterAction<S, R, E>>
    decreases queue.len(),
{
    if queue.len() == 0 {
        seq![WriterAction::Close]
    } else {
        match queue[0].message {
            InternalMessage::Signal { signal, response_chn } => seq![
                WriterAction::SendSignal { signal },
                WriterAction::Report { response_chn, outcome: outcome_of(queue[0].sent) },
            ] + if queue[0].sent is Ok {
                written(queue.skip(1))
            } else {
                seq![WriterAction::Close]
            },
            InternalMessage::Pong { ping_data } => seq![WriterAction::SendPong { ping_data }]
                + written(queue.skip(1)),
            InternalMessage::Close => seq![WriterAction::Close],
        }
    }
}

/// Messages are handled in order, each signal is sent once and reported once, and the
/// WebSocket is closed once, at the end: a writer does to the world what [`written`] says.
pub proof fn writer_handles_its_queue<S, R, E>(queue: Seq<Delivery<S, R, E>>)
    ensures
        writer_effects(WriterState::Receiving, writer_events(queue)) == written(queue),
        writer_after(WriterState::Receiving, writer_events(queue)) is Done,
    decreases queue.len(),
{
    let start = WriterState::<R>::Receiving;
    let events = writer_events(queue);
    reveal_with_fuel(writer_effects, 5);
    reveal_with_fuel(writer_after, 5);
    if queue.len() == 0 {
        assert(events.skip(1) == seq![WriterEvent::<S, R, E>::Closed]);
        assert(events.skip(1).skip(1) == Seq::<WriterEvent<S, R, E>>::empty());
    } else {
        let rest = writer_events(queue.skip(1));
        writer_handles_its_queue(queue.skip(1));
        match queue[0].message {
            InternalMessage::Signal { .. } => {
                let tail = if queue[0].sent is Ok {
                    rest
                } else {
                    seq![WriterEvent::Closed]
                };
                assert(events.skip(1) == seq![
                    WriterEvent::Sent(queue[0].sent),
                    WriterEvent::Reported,
                ] + tail);
                assert(events.skip(1).skip(1) == seq![WriterEvent::Reported] + tail);
                assert(events.skip(1).skip(1).skip(1) == tail);
                if queue[0].sent is Err {
                    assert(tail.skip(1) == Seq::<WriterEvent<S, R, E>>::empty());
                }
            },
            InternalMessage::Pong { .. } => {
                assert(events.skip(1) == seq![WriterEvent::Sent(queue[0].sent)] + rest);
                assert(events.skip(1).skip(1) == rest);
            },
            InternalMessage::Close => {
                assert(events.skip(1) == seq![WriterEvent::<S, R, E>::Closed]);
                assert(events.skip(1).skip(1) == Seq::<WriterEvent<S, R, E>>::empty());
            },
        }
        assert(writer_effects(start, events) == written(queue));
    }
}

/// The WebSocket is closed exactly once, as the very last thing.
pub proof fn closing_comes_last_and_once<S, R, E>(queue: Seq<Delivery<S, R, E>>)
    ensures
        written(queue).len() > 0,
        forall|i: int|
            0 <= i < written(queue).len() ==> (#[trigger] written(queue)[i] is Close <==> i
                == written(queue).len() - 1),
    decreases queue.len(),
{
    if queue.len() > 0 {
        closing_comes_last_and_once(queue.skip(1));
        let all = written(queue);
        let rest = written(queue.skip(1));
        assert forall|i: int| 0 <= i < all.len() implies (#[trigger] all[i] is Close <==> i
            == all.len() - 1) by {
            match queue[0].message {
                InternalMessage::Signal { .. } => {
                    if i >= 2 && queue[0].sent is Ok {
                        assert(all[i] == rest[i - 2]);
                    }
                },
                InternalMessage::Pong { .. } => {
                    if i >= 1 {
                        assert(all[i] == rest[i - 1]);
                    }
                },
                InternalMessage::Close => {},
            }
        }
    }
}

/// The signals and pongs that the writer takes: all of them up to a request to close or up
/// to a signal that cannot be sent, and that one too.
pub open spec fn taken<S, R, E>(queue: Seq<Delivery<S, R, E>>) -> Seq<Delivery<S, R, E>>
    decreases queue.len(),
{
    if queue.len() == 0 || queue[0].message is Close {
        Seq::empty()
    } else if queue[0].message is Signal && queue[0].sent is Err {
        seq![queue[0]]
    } else {
        seq![queue[0]] + taken(queue.skip(1))
    }
}

/// The data of the pongs among messages.
pub open spec fn pong_data<S, R, E>(queue: Seq<Delivery<S, R, E>>) -> Seq<Vec<u8>>
    decreases queue.len(),
{
    if queue.len() == 0 {
        Seq::empty()
    } else {
        match queue[0].message {
            InternalMessage::Pong { ping_data } => seq![ping_data] + pong_data(queue.skip(1)),
            _ => pong_data(queue.skip(1)),
        }
    }
}

/// The data of the pongs among what a writer does.
pub open spec fn pongs_sent<S, R, E>(actions: Seq<WriterAction<S, R, E>>) -> Seq<Vec<u8>>
    decreases actions.len(),
{
    if actions.len() == 0 {
        Seq::empty()
    } else {
        match actions[0] {
            WriterAction::SendPong { ping_data } => seq![ping_data] + pongs_sent(actions.skip(1)),
            _ => pongs_sent(actions.skip(1)),
        }
    }
}

/// The signals among messages.
pub open spec fn signals_in<S, R, E>(queue: Seq<Delivery<S, R, E>>) -> Seq<S>
    decreases queue.len(),
{
    if queue.len() == 0 {
        Seq::empty()
    } else {
        match queue[0].message {
            InternalMessage::Signal { signal, .. } => seq![signal] + signals_in(queue.skip(1)),
            _ => signals_in(queue.skip(1)),
        }
    }
}

/// The signals among what a writer does.
pub open spec fn signals_sent<S, R, E>(actions: Seq<WriterAction<S, R, E>>) -> Seq<S>
    decreases actions.len(),
{
    if actions.len() == 0 {
        Seq::empty()
    } else {
        match actions[0] {
            WriterAction::SendSignal { signal } => seq![signal] + signals_sent(actions.skip(1)),
            _ => signals_sent(actions.skip(1)),
        }
    }
}

/// Whom the signals among messages are reported to, and how they came out.
pub open spec fn reports_owed<S, R, E>(queue: Seq<Delivery<S, R, E>>) -> Seq<
    (R, Result<(), SignalError<E>>),
>
    decreases queue.len(),
{
    if queue.len() == 0 {
        Seq::empty()
    } else {
        match queue[0].message {
            InternalMessage::Signal { response_chn, .. } => seq![
                (response_chn, outcome_of(queue[0].sent)),
            ] + reports_owed(queue.skip(1)),
            _ => reports_owed(queue.skip(1)),
        }
    }
}

/// The reports among what a writer does.
pub open spec fn reports_made<S, R, E>(actions: Seq<WriterAction<S, R, E>>) -> Seq<
    (R, Result<(), SignalError<E>>),
>
    decreases actions.len(),
{
    if actions.len() == 0 {
        Seq::empty()
    } else {
        match actions[0] {
            WriterAction::Report { response_chn, outcome } => seq![(response_chn, outcome)]
                + reports_made(actions.skip(1)),
            _ => reports_made(actions.skip(1)),
        }
    }
}

/// Signals and pongs get along: however they are mixed, those that the writer takes before
/// it ends are all sent, the signals in their order and the pongs in theirs, with their own
/// data; and each of those signals is reported once, as it came out.
pub proof fn all_taken_messages_are_sent<S, R, E>(queue: Seq<Delivery<S, R, E>>)
    ensures
        pongs_sent(written(queue)) == pong_data(taken(queue)),
        signals_sent(written(queue)) == signals_in(taken(queue)),
        reports_made(written(queue)) == reports_owed(taken(queue)),
    decreases queue.len(),
{
    reveal_with_fuel(pongs_sent, 4);
    reveal_with_fuel(signals_sent, 4);
    reveal_with_fuel(reports_made, 4);
    reveal_with_fuel(reports_owed, 2);
    reveal_with_fuel(pong_data, 2);
    reveal_with_fuel(signals_in, 2);
    let close = seq![WriterAction::<S, R, E>::Close];
    let none = Seq::<WriterAction<S, R, E>>::empty();
    assert(close.skip(1) == none);
    if queue.len() > 0 {
        let all = written(queue);
        let rest = written(queue.skip(1));
        all_taken_messages_are_sent(queue.skip(1));
        match queue[0].message {
            InternalMessage::Signal { .. } => {
                let tail = if queue[0].sent is Ok {
                    rest
                } else {
                    close
                };
                assert(all.skip(1) == seq![all[1]] + tail);
                assert(all.skip(1).skip(1) == tail);
                if queue[0].sent is Ok {
                    assert(taken(queue).skip(1) == taken(queue.skip(1)));
                } else {
                    assert(taken(queue).skip(1) == Seq::<Delivery<S, R, E>>::empty());
                }
            },
            InternalMessage::Pong { .. } => {
                assert(all.skip(1) == rest);
                assert(taken(queue).skip(1) == taken(queue.skip(1)));
            },
            InternalMessage::Close => {},
        }
    }
}

/// A writer that closes or has closed the WebSocket sends nothing more, whatever events
/// come.
pub proof fn nothing_is_sent_after_closing<S, R, E>(
    state: WriterState<R>,
    events: Seq<WriterEvent<S, R, E>>,
)
    requires
        state is Closing || state is Done,
    ensures
        writer_effects(state, events) == Seq::<WriterAction<S, R, E>>::empty(),
    decreases events.len(),
{
    if events.len() > 0 {
        nothing_is_sent_after_closing(writer_next(state, events[0]).0, events.skip(1));
    }
}

/// Whoever sends a signal hears of it before the writer turns to anything else: that it was
/// sent if it was, and otherwise the very error with which it was not.
pub proof fn every_signal_is_reported<S, R, E>(
    signal: S,
    response_chn: R,
    sent: Result<(), E>,
)
    ensures
        ({
            let (sending, action) = writer_next::<S, R, E>(
                WriterState::Receiving,
                WriterEvent::Message(InternalMessage::Signal { signal, response_chn }),
            );
            let (reporting, report) = writer_next::<S, R, E>(sending, WriterEvent::Sent(sent));
            &&& action == (WriterAction::<S, R, E>::SendSignal { signal })
            &&& report matches WriterAction::Report { response_chn: to, outcome }
            &&& to == response_chn
            &&& outcome == outcome_of(sent)
        }),
{
}

/// Whether an event is an answer to what the writer does in a state.
pub open spec fn writer_awaits<S, R, E>(
    state: WriterState<R>,
    event: WriterEvent<S, R, E>,
) -> bool {
    match event {
        WriterEvent::Message(_) | WriterEvent::Disconnected => state is Receiving,
        WriterEvent::Sent(_) => state is SendingSignal || state is SendingPong,
        WriterEvent::Reported => state is Reporting,
        WriterEvent::Closed => state is Closing,
    }
}

/// The writer never loses its place: what is no answer to what it does is ignored and changes
/// nothing, and an answer never is.
pub proof fn writer_ignores_what_is_no_answer<S, R, E>(
    state: WriterState<R>,
    event: WriterEvent<S, R, E>,
)
    ensures
        !writer_awaits(state, event) ==> writer_next(state, event) == (
            state,
            WriterAction::<S, R, E>::Ignore,
        ),
        writer_awaits(state, event) ==> !(writer_next(state, event).1 is Ignore),
{
}

/// A pong is sent with the data it was asked for with, and then the writer waits for the next
/// message, whether it could be sent or not.
pub proof fn pongs_end_nothing<S, R, E>(ping_data: Vec<u8>, sent: Result<(), E>)
    ensures
        ({
            let (state, action) = writer_next::<S, R, E>(
                WriterState::Receiving,
                WriterEvent::Message(InternalMessage::Pong { ping_data }),
            );
            &&& action == (WriterAction::<S, R, E>::SendPong { ping_data })
            &&& writer_next::<S, R, E>(state, WriterEvent::Sent(sent)) == (
                WriterState::<R>::Receiving,
                WriterAction::<S, R, E>::Receive,
            )
        }),
{
}

/// After a signal that was sent the writer waits for the next message; after one that was not
/// it closes the WebSocket, and so it does at a request for that and when no more messages
/// come. Once the WebSocket is closed it stops.
pub proof fn writer_closes_in_the_end<S, R, E>(
    signal: S,
    response_chn: R,
    sent: Result<(), E>,
)
    ensures
        ({
            let start = WriterState::<R>::Receiving;
            let message = WriterEvent::<S, R, E>::Message(
                InternalMessage::Signal { signal, response_chn },
            );
            let sending = writer_next(start, message).0;
            let reporting = writer_next::<S, R, E>(sending, WriterEvent::Sent(sent)).0;
            let (after, action) = writer_next::<S, R, E>(reporting, WriterEvent::Reported);
            let asked = writer_next::<S, R, E>(start, WriterEvent::Message(InternalMessage::Close));
            let left = writer_next::<S, R, E>(start, WriterEvent::Disconnected);
            &&& sent is Ok ==> action is Receive && after == start
            &&& sent is Err ==> action is Close
            &&& asked.1 is Close && left.1 is Close
            &&& sent is Err ==> writer_next::<S, R, E>(after, WriterEvent::Closed).1 is Stop
            &&& writer_next::<S, R, E>(asked.0, WriterEvent::Closed).1 is Stop
            &&& writer_next::<S, R, E>(left.0, WriterEvent::Closed).1 is Stop
        }),
{
}

} // verus!
