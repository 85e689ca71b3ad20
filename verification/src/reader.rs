//! The reader of a stream: it takes what comes from the WebSocket, hands messages on,
//! answers pings, and has the writer close in the end.
use vstd::prelude::*;

use crate::stream::InternalMessage;
use crate::writer::{written, Delivery, WriterAction};

verus! {

/// What came from the WebSocket. `M` is the type of the messages in binary frames.
#[derive(Debug)]
pub enum Incoming<M> {
    /// A binary frame, decoded; nothing where it carried no message.
    Binary(Option<M>),
    /// A ping with its data.
    Ping(Vec<u8>),
    /// A pong.
    Pong,
    /// A text frame.
    Text,
    /// A closing frame.
    Close,
    /// A raw frame.
    Frame,
    /// The connection was reset without a closing handshake.
    Reset,
    /// Any other error.
    Error,
    /// Nothing more will come.
    End,
}

/// Where the reader stands.
#[derive(Debug, Clone, Copy, PartialEq, Eq, Structural)]
pub enum ReaderState {
    /// Waiting for the WebSocket.
    Reading,
    /// Handing a message on, or a ping's answer to the writer.
    Delivering,
    /// Asking the writer to close.
    Closing,
    /// Done.
    Done,
}

/// What came of the reader's last action.
#[derive(Debug)]
pub enum ReaderEvent<M> {
    /// Something came from the WebSocket.
    Incoming(Incoming<M>),
    /// It was delivered, or nobody was there to take it.
    Delivered,
}

/// What the reader does next. `S` and `R` are the types of signals and of the channels of
/// their senders in the writer's messages.
#[derive(Debug)]
pub enum ReaderAction<M, S, R> {
    /// Wait for the WebSocket.
    Read,
    /// Hand this message on.
    Emit(M),
    /// Hand this message to the writer.
    Request(InternalMessage<S, R>),
    /// Stop.
    Stop,
    /// Nothing: the event was not an answer to the last action.
    Ignore,
}

/// Whether the stream ends with this. Pongs and text frames are not expected and end it, as
/// errors do.
pub open spec fn ends_stream<M>(incoming: Incoming<M>) -> bool {
    !(incoming is Binary || incoming is Ping || incoming is Frame)
}

/// The state and the action of the reader that follow an event.
pub open spec fn reader_next<M, S, R>(
    state: ReaderState,
    event: ReaderEvent<M>,
) -> (ReaderState, ReaderAction<M, S, R>) {
    match (state, event) {
        (ReaderState::Reading, ReaderEvent::Incoming(incoming)) => match incoming {
            Incoming::Binary(Some(message)) => (
                ReaderState::Delivering,
                ReaderAction::Emit(message),
            ),
            Incoming::Ping(ping_data) => (
                ReaderState::Delivering,
                ReaderAction::Request(InternalMessage::Pong { ping_data }),
            ),
            _ => if ends_stream(incoming) {
                (ReaderState::Closing, ReaderAction::Request(InternalMessage::Close))
            } else {
                (ReaderState::Reading, ReaderAction::Read)
            },
        },
        (ReaderState::Delivering, ReaderEvent::Delivered) => (
            ReaderState::Reading,
            ReaderAction::Read,
        ),
        (ReaderState::Closing, ReaderEvent::Delivered) => (ReaderState::Done, ReaderAction::Stop),
        _ => (state, ReaderAction::Ignore),
    }
}

impl ReaderState {
    /// The reader before anything came, and the first thing to do: to wait for something.
    pub fn start<M, S, R>() -> (start: (ReaderState, ReaderAction<M, S, R>))
        ensures
            start == (ReaderState::Reading, ReaderAction::<M, S, R>::Read),
    {
        (ReaderState::Reading, ReaderAction::Read)
    }

    /// Takes what came of the last action and says what to do next.
    pub fn next<M, S, R>(self, event: ReaderEvent<M>) -> (next: (
        ReaderState,
        ReaderAction<M, S, R>,
    ))
        ensures
            next == reader_next::<M, S, R>(self, event),
    {
        match (self, event) {
            (ReaderState::Reading, ReaderEvent::Incoming(incoming)) => match incoming {
                Incoming::Binary(Some(message)) => (
                    ReaderState::Delivering,
                    ReaderAction::Emit(message),
                ),
                Incoming::Ping(ping_data) => (
                    ReaderState::Delivering,
                    ReaderAction::Request(InternalMessage::Pong { ping_data }),
                ),
                Incoming::Binary(None) | Incoming::Frame => (
                    ReaderState::Reading,
                    ReaderAction::Read,
                ),
                _ => (ReaderState::Closing, ReaderAction::Request(InternalMessage::Close)),
            },
            (ReaderState::Delivering, ReaderEvent::Delivered) => (
                ReaderState::Reading,
                ReaderAction::Read,
            ),
            (ReaderState::Closing, ReaderEvent::Delivered) => (
                ReaderState::Done,
                ReaderAction::Stop,
            ),
            (state, _) => (state, ReaderAction::Ignore),
        }
    }
}

/// The reader after these events.
pub open spec fn reader_after<M, S, R>(
    state: ReaderState,
    events: Seq<ReaderEvent<M>>,
) -> ReaderState
    decreases events.len(),
{
    if events.len() == 0 {
        state
    } else {
        reader_after::<M, S, R>(reader_next::<M, S, R>(state, events[0]).0, events.skip(1))
    }
}

/// What the reader does to the world in the course of these events: everything but waiting.
pub open spec fn reader_effects<M, S, R>(
    state: ReaderState,
    events: Seq<ReaderEvent<M>>,
) -> Seq<ReaderAction<M, S, R>>
    decreases events.len(),
{
    if events.len() == 0 {
        Seq::empty()
    } else {
        let (next, action) = reader_next::<M, S, R>(state, events[0]);
        let rest = reader_effects::<M, S, R>(next, events.skip(1));
        if action is Emit || action is Request {
            seq![action] + rest
        } else {
            rest
        }
    }
}

/// The events of a reader to which this comes, after which nothing more comes.
pub open spec fn reader_events<M>(incoming: Seq<Incoming<M>>) -> Seq<ReaderEvent<M>>
    decreases incoming.len(),
{
    if incoming.len() == 0 {
        seq![ReaderEvent::Incoming(Incoming::End), ReaderEvent::Delivered]
    } else {
        let first = seq![ReaderEvent::Incoming(incoming[0])];
        let rest = reader_events(incoming.skip(1));
        match incoming[0] {
            Incoming::Binary(Some(_)) | Incoming::Ping(_) => first + (seq![ReaderEvent::Delivered]
                + rest),
            _ => if ends_stream(incoming[0]) {
                first + seq![ReaderEvent::Delivered]
            } else {
                first + rest
            },
        }
    }
}

/// What comes of what came in. In its order, messages are handed on and pings go to the
/// writer to be answered with their own data; frames without a message come to nothing. It
/// ends with a request to close, at the first thing that ends the stream.
pub open spec fn delivered<M, S, R>(incoming: Seq<Incoming<M>>) -> Seq<ReaderAction<M, S, R>>
    decreases incoming.len(),
{
    if incoming.len() == 0 || ends_stream(incoming[0]) {
        seq![ReaderAction::Request(InternalMessage::Close)]
    } else {
        let rest = delivered::<M, S, R>(incoming.skip(1));
        match incoming[0] {
            Incoming::Binary(Some(message)) => seq![ReaderAction::Emit(message)] + rest,
            Incoming::Ping(ping_data) => seq![
                ReaderAction::Request(InternalMessage::Pong { ping_data }),
            ] + rest,
            _ => rest,
        }
    }
}

/// Messages are handed on in order and pings are answered in order, until something ends
/// the stream; then the writer is asked to close, once: a reader does to the world what
/// [`delivered`] says.
pub proof fn reader_delivers_what_comes<M, S, R>(incoming: Seq<Incoming<M>>)
    ensures
        reader_effects::<M, S, R>(ReaderState::Reading, reader_events(incoming)) == delivered::<
            M,
            S,
            R,
        >(incoming),
        reader_after::<M, S, R>(ReaderState::Reading, reader_events(incoming)) is Done,
    decreases incoming.len(),
{
    let events = reader_events(incoming);
    reveal_with_fuel(reader_effects, 4);
    reveal_with_fuel(reader_after, 4);
    let none = Seq::<ReaderEvent<M>>::empty();
    if incoming.len() == 0 || ends_stream(incoming[0]) {
        assert(events.skip(1) == seq![ReaderEvent::<M>::Delivered]);
        assert(events.skip(1).skip(1) == none);
        assert(seq![ReaderAction::<M, S, R>::Request(InternalMessage::Close)] + Seq::<
            ReaderAction<M, S, R>,
        >::empty() == seq![ReaderAction::<M, S, R>::Request(InternalMessage::Close)]);
    } else {
        let rest = reader_events(incoming.skip(1));
        reader_delivers_what_comes::<M, S, R>(incoming.skip(1));
        match incoming[0] {
            Incoming::Binary(Some(_)) | Incoming::Ping(_) => {
                assert(events.skip(1) == seq![ReaderEvent::<M>::Delivered] + rest);
                assert(events.skip(1).skip(1) == rest);
            },
            _ => {
                assert(events.skip(1) == rest);
            },
        }
    }
}

/// A reader that asks or has asked the writer to close does nothing more, whatever comes.
pub proof fn nothing_is_delivered_after_closing<M, S, R>(
    state: ReaderState,
    events: Seq<ReaderEvent<M>>,
)
    requires
        state is Closing || state is Done,
    ensures
        reader_effects::<M, S, R>(state, events) == Seq::<ReaderAction<M, S, R>>::empty(),
    decreases events.len(),
{
    if events.len() > 0 {
        nothing_is_delivered_after_closing::<M, S, R>(
            reader_next::<M, S, R>(state, events[0]).0,
            events.skip(1),
        );
    }
}

/// The pings in what came in, up to the end of the stream.
pub open spec fn pings<M>(incoming: Seq<Incoming<M>>) -> Seq<Vec<u8>>
    decreases incoming.len(),
{
    if incoming.len() == 0 || ends_stream(incoming[0]) {
        Seq::empty()
    } else {
        match incoming[0] {
            Incoming::Ping(ping_data) => seq![ping_data] + pings(incoming.skip(1)),
            _ => pings(incoming.skip(1)),
        }
    }
}

/// The messages in what came in, up to the end of the stream.
pub open spec fn messages<M>(incoming: Seq<Incoming<M>>) -> Seq<M>
    decreases incoming.len(),
{
    if incoming.len() == 0 || ends_stream(incoming[0]) {
        Seq::empty()
    } else {
        match incoming[0] {
            Incoming::Binary(Some(message)) => seq![message] + messages(incoming.skip(1)),
            _ => messages(incoming.skip(1)),
        }
    }
}

/// The messages among what a reader does.
pub open spec fn emitted<M, S, R>(actions: Seq<ReaderAction<M, S, R>>) -> Seq<M>
    decreases actions.len(),
{
    if actions.len() == 0 {
        Seq::empty()
    } else {
        match actions[0] {
            ReaderAction::Emit(message) => seq![message] + emitted(actions.skip(1)),
            _ => emitted(actions.skip(1)),
        }
    }
}

/// What a reader asks of the writer, with what comes of sending it.
pub open spec fn requested<M, S, R, E>(
    actions: Seq<ReaderAction<M, S, R>>,
    sent: Result<(), E>,
) -> Seq<Delivery<S, R, E>>
    decreases actions.len(),
{
    if actions.len() == 0 {
        Seq::empty()
    } else {
        let rest = requested(actions.skip(1), sent);
        match actions[0] {
            ReaderAction::Request(message) => seq![Delivery { message, sent }] + rest,
            _ => rest,
        }
    }
}

/// Every message that comes in before the end of the stream is handed on, once and in
/// order, and no other.
pub proof fn every_message_is_handed_on<M, S, R>(incoming: Seq<Incoming<M>>)
    ensures
        emitted(delivered::<M, S, R>(incoming)) == messages(incoming),
    decreases incoming.len(),
{
    reveal_with_fuel(emitted, 2);
    let all = delivered::<M, S, R>(incoming);
    if incoming.len() == 0 || ends_stream(incoming[0]) {
        assert(all.skip(1) == Seq::<ReaderAction<M, S, R>>::empty());
    } else {
        every_message_is_handed_on::<M, S, R>(incoming.skip(1));
        let rest = delivered::<M, S, R>(incoming.skip(1));
        match incoming[0] {
            Incoming::Binary(Some(_)) | Incoming::Ping(_) => {
                assert(all.skip(1) == rest);
            },
            _ => {},
        }
    }
}

/// Pongs with this data, in this order, and then the closing of the WebSocket.
pub open spec fn pongs_and_close<S, R, E>(data: Seq<Vec<u8>>) -> Seq<WriterAction<S, R, E>> {
    Seq::new(data.len(), |i: int| WriterAction::SendPong { ping_data: data[i] }).push(
        WriterAction::Close,
    )
}

/// Reader and writer together answer every ping that comes in before the end of the stream
/// with a pong of the same data, in order, and then close the WebSocket, also where a pong
/// cannot be sent.
pub proof fn every_ping_is_answered<M, S, R, E>(incoming: Seq<Incoming<M>>, sent: Result<(), E>)
    ensures
        written(requested(delivered::<M, S, R>(incoming), sent)) == pongs_and_close::<S, R, E>(
            pings(incoming),
        ),
    decreases incoming.len(),
{
    reveal_with_fuel(requested, 2);
    reveal_with_fuel(written, 2);
    let all = delivered::<M, S, R>(incoming);
    let queue = requested(all, sent);
    let answer = pongs_and_close::<S, R, E>(pings(incoming));
    if incoming.len() == 0 || ends_stream(incoming[0]) {
        assert(all.skip(1) == Seq::<ReaderAction<M, S, R>>::empty());
        assert(queue == seq![Delivery { message: InternalMessage::<S, R>::Close, sent }]);
        assert(answer == seq![WriterAction::<S, R, E>::Close]);
    } else {
        every_ping_is_answered::<M, S, R, E>(incoming.skip(1), sent);
        let rest = delivered::<M, S, R>(incoming.skip(1));
        match incoming[0] {
            Incoming::Binary(Some(_)) => {
                assert(all.skip(1) == rest);
            },
            Incoming::Ping(ping_data) => {
                assert(all.skip(1) == rest);
                assert(queue.skip(1) == requested(rest, sent));
                assert(answer == seq![WriterAction::<S, R, E>::SendPong { ping_data }]
                    + pongs_and_close::<S, R, E>(pings(incoming.skip(1))));
            },
            _ => {},
        }
    }
}

/// The stream goes on after binary frames, pings and raw frames, whatever is in them, and ends
/// with anything else: pongs, text, a closing frame, any error, or the end of the WebSocket.
pub proof fn what_ends_a_stream<M>(message: Option<M>, data: Vec<u8>)
    ensures
        !ends_stream(Incoming::Binary(message)),
        !ends_stream(Incoming::<M>::Ping(data)),
        !ends_stream(Incoming::<M>::Frame),
        ends_stream(Incoming::<M>::Pong),
        ends_stream(Incoming::<M>::Text),
        ends_stream(Incoming::<M>::Close),
        ends_stream(Incoming::<M>::Reset),
        ends_stream(Incoming::<M>::Error),
        ends_stream(Incoming::<M>::End),
{
}

/// Each thing that comes in has its one effect: a message is handed on as it is, a ping goes
/// to the writer with its own data, a frame without a message comes to nothing, and what
/// ends the stream has the writer close. After each the reader goes on reading, and after
/// the last it stops.
pub proof fn each_incoming_has_its_effect<M, S, R>(message: M, ping_data: Vec<u8>, end: Incoming<M>)
    requires
        end is Pong || end is Text || end is Close || end is Reset || end is Error || end is End,
    ensures
        ({
            let reading = ReaderState::Reading;
            let read = |incoming: Incoming<M>|
                reader_next::<M, S, R>(reading, ReaderEvent::Incoming(incoming));
            let delivered = |state: ReaderState|
                reader_next::<M, S, R>(state, ReaderEvent::Delivered);
            let emit = read(Incoming::Binary(Some(message)));
            let answer = read(Incoming::Ping(ping_data));
            let close = read(end);
            &&& emit.1 == ReaderAction::<M, S, R>::Emit(message)
            &&& delivered(emit.0) == (reading, ReaderAction::<M, S, R>::Read)
            &&& answer.1 == ReaderAction::<M, S, R>::Request(InternalMessage::Pong { ping_data })
            &&& delivered(answer.0) == (reading, ReaderAction::<M, S, R>::Read)
            &&& read(Incoming::Binary(None)) == (reading, ReaderAction::<M, S, R>::Read)
            &&& read(Incoming::Frame) == (reading, ReaderAction::<M, S, R>::Read)
            &&& close.1 == ReaderAction::<M, S, R>::Request(InternalMessage::Close)
            &&& delivered(close.0).1 is Stop
        }),
{
}

/// The reader never loses its place: what is no answer to what it does is ignored and changes
/// nothing, and an answer never is.
pub proof fn reader_ignores_what_is_no_answer<M, S, R>(state: ReaderState, event: ReaderEvent<M>)
    ensures
        ({
            let answered = match event {
                ReaderEvent::Incoming(_) => state is Reading,
                ReaderEvent::Delivered => state is Delivering || state is Closing,
            };
            let next = reader_next::<M, S, R>(state, event);
            &&& !answered ==> next == (state, ReaderAction::<M, S, R>::Ignore)
            &&& answered ==> !(next.1 is Ignore)
        }),
{
}

} // verus!
