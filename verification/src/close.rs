//! The closing of a stream: it asks the writer to close, where the other side is to be told,
//! and waits for both tasks.
use vstd::prelude::*;

use crate::reader::{reader_next, ReaderAction, ReaderEvent, ReaderState};
use crate::stream::{close_request, InternalMessage};
use crate::writer::{writer_next, WriterAction, WriterEvent, WriterState};

verus! {

/// How far the closing of a stream has come.
#[derive(Debug, Clone, Copy, PartialEq, Eq, Structural)]
pub enum CloserState {
    /// Asking the writer to close.
    Requesting,
    /// Waiting for the writer to end.
    AwaitingWriter,
    /// Waiting for the reader to end.
    AwaitingReader,
    /// Done.
    Closed,
}

/// What came of the last action of closing.
#[derive(Debug, Clone, Copy, PartialEq, Eq, Structural)]
pub enum CloserEvent {
    /// The request was delivered, or nobody was there to take it.
    Delivered,
    /// The writer has ended.
    WriterEnded,
    /// The reader has ended.
    ReaderEnded,
}

/// What closing does next. `S` and `R` are the types of signals and of the channels of their
/// senders in the writer's messages.
#[derive(Debug)]
pub enum CloserAction<S, R> {
    /// Hand this message to the writer.
    Request(InternalMessage<S, R>),
    /// Wait for the writer to end.
    AwaitWriter,
    /// Wait for the reader to end.
    AwaitReader,
    /// Done: the stream is closed.
    Return,
    /// Nothing: the event was not an answer to the last action.
    Ignore,
}

/// The first state and the first action of closing.
pub open spec fn closer_start<S, R>(notify_close: bool) -> (CloserState, CloserAction<S, R>) {
    if notify_close {
        (CloserState::Requesting, CloserAction::Request(InternalMessage::Close))
    } else {
        (CloserState::AwaitingWriter, CloserAction::AwaitWriter)
    }
}

/// The state and the action of closing that follow an event.
pub open spec fn closer_next<S, R>(
    state: CloserState,
    event: CloserEvent,
) -> (CloserState, CloserAction<S, R>) {
    match (state, event) {
        (CloserState::Requesting, CloserEvent::Delivered) => (
            CloserState::AwaitingWriter,
            CloserAction::AwaitWriter,
        ),
        (CloserState::AwaitingWriter, CloserEvent::WriterEnded) => (
            CloserState::AwaitingReader,
            CloserAction::AwaitReader,
        ),
        (CloserState::AwaitingReader, CloserEvent::ReaderEnded) => (
            CloserState::Closed,
            CloserAction::Return,
        ),
        _ => (state, CloserAction::Ignore),
    }
}

impl CloserState {
    /// Starts to close; `notify_close` says whether the other side is to be told.
    pub fn start<S, R>(notify_close: bool) -> (start: (CloserState, CloserAction<S, R>))
        ensures
            start == closer_start::<S, R>(notify_close),
    {
        match close_request(notify_close) {
            Some(request) => (CloserState::Requesting, CloserAction::Request(request)),
            None => (CloserState::AwaitingWriter, CloserAction::AwaitWriter),
        }
    }

    /// Takes what came of the last action and says what to do next.
    pub fn next<S, R>(self, event: CloserEvent) -> (next: (CloserState, CloserAction<S, R>))
        ensures
            next == closer_next::<S, R>(self, event),
    {
        match (self, event) {
            (CloserState::Requesting, CloserEvent::Delivered) => (
                CloserState::AwaitingWriter,
                CloserAction::AwaitWriter,
            ),
            (CloserState::AwaitingWriter, CloserEvent::WriterEnded) => (
                CloserState::AwaitingReader,
                CloserAction::AwaitReader,
            ),
            (CloserState::AwaitingReader, CloserEvent::ReaderEnded) => (
                CloserState::Closed,
                CloserAction::Return,
            ),
            (state, _) => (state, CloserAction::Ignore),
        }
    }
}

/// A stream that is being closed: where the closing, the writer and the reader stand.
pub struct Stream<R> {
    pub closer: CloserState,
    pub writer: WriterState<R>,
    pub reader: ReaderState,
}

/// What happens in a stream, in whatever order closing and the two tasks take their turns.
pub enum StreamEvent<M, S, R, E> {
    /// Something came of what closing did.
    Closer(CloserEvent),
    /// Something came of what the writer did.
    Writer(WriterEvent<S, R, E>),
    /// Something came of what the reader did.
    Reader(ReaderEvent<M>),
    /// The writer was torn down in the middle of its work.
    WriterLost,
    /// The reader was torn down in the middle of its work.
    ReaderLost,
}

/// What a stream does next, and who does it.
pub enum StreamAction<M, S, R, E> {
    Closer(CloserAction<S, R>),
    Writer(WriterAction<S, R, E>),
    Reader(ReaderAction<M, S, R>),
    Nothing,
}

impl<M, S, R, E> StreamAction<M, S, R, E> {
    /// Whether nothing is done.
    pub open spec fn is_idle(self) -> bool {
        match self {
            StreamAction::Closer(action) => action is Ignore,
            StreamAction::Writer(action) => action is Ignore,
            StreamAction::Reader(action) => action is Ignore,
            StreamAction::Nothing => true,
        }
    }
}

impl<R> Stream<R> {
    /// Whether this can happen: a task is seen to have ended only once it has.
    pub open spec fn can_see<M, S, E>(self, event: StreamEvent<M, S, R, E>) -> bool {
        &&& event == StreamEvent::<M, S, R, E>::Closer(CloserEvent::WriterEnded)
            ==> self.writer is Done
        &&& event == StreamEvent::<M, S, R, E>::Closer(CloserEvent::ReaderEnded)
            ==> self.reader is Done
    }

    /// The stream and the action that follow an event.
    pub open spec fn next<M, S, E>(self, event: StreamEvent<M, S, R, E>) -> (
        Stream<R>,
        StreamAction<M, S, R, E>,
    ) {
        match event {
            StreamEvent::Closer(event) => {
                let (closer, action) = closer_next::<S, R>(self.closer, event);
                (Stream { closer, ..self }, StreamAction::Closer(action))
            },
            StreamEvent::Writer(event) => {
                let (writer, action) = writer_next(self.writer, event);
                (Stream { writer, ..self }, StreamAction::Writer(action))
            },
            StreamEvent::Reader(event) => {
                let (reader, action) = reader_next::<M, S, R>(self.reader, event);
                (Stream { reader, ..self }, StreamAction::Reader(action))
            },
            StreamEvent::WriterLost => (
                Stream { writer: WriterState::Done, ..self },
                StreamAction::Nothing,
            ),
            StreamEvent::ReaderLost => (
                Stream { reader: ReaderState::Done, ..self },
                StreamAction::Nothing,
            ),
        }
    }

    /// The stream after these events.
    pub open spec fn after<M, S, E>(self, events: Seq<StreamEvent<M, S, R, E>>) -> Stream<R>
        decreases events.len(),
    {
        if events.len() == 0 {
            self
        } else {
            self.after(events.drop_last()).next(events.last()).0
        }
    }

    /// Whether all of these events can happen, one after the other.
    pub open spec fn can_see_all<M, S, E>(self, events: Seq<StreamEvent<M, S, R, E>>) -> bool
        decreases events.len(),
    {
        events.len() > 0 ==> self.can_see_all(events.drop_last()) && self.after(
            events.drop_last(),
        ).can_see(events.last())
    }

    /// Everything that the stream does in the course of these events.
    pub open spec fn actions<M, S, E>(self, events: Seq<StreamEvent<M, S, R, E>>) -> Seq<
        StreamAction<M, S, R, E>,
    >
        decreases events.len(),
    {
        if events.len() == 0 {
            Seq::empty()
        } else {
            let before = self.actions(events.drop_last());
            let action = self.after(events.drop_last()).next(events.last()).1;
            if action.is_idle() {
                before
            } else {
                before.push(action)
            }
        }
    }
}

proof fn lemma_ended_tasks<M, S, R, E>(
    stream: Stream<R>,
    notify_close: bool,
    events: Seq<StreamEvent<M, S, R, E>>,
)
    requires
        stream.closer == closer_start::<S, R>(notify_close).0,
        stream.can_see_all(events),
    ensures
        stream.after(events).closer is AwaitingReader ==> stream.after(events).writer is Done,
        stream.after(events).closer is Closed ==> stream.after(events).writer is Done
            && stream.after(events).reader is Done,
    decreases events.len(),
{
    if events.len() > 0 {
        lemma_ended_tasks(stream, notify_close, events.drop_last());
    }
}

/// Closing returns only once both tasks have ended, wherever they stood when it began,
/// whether the other side is told or not, and whatever happens on the way.
pub proof fn closing_waits_for_both_tasks<M, S, R, E>(
    stream: Stream<R>,
    notify_close: bool,
    events: Seq<StreamEvent<M, S, R, E>>,
)
    requires
        stream.closer == closer_start::<S, R>(notify_close).0,
        stream.can_see_all(events),
    ensures
        stream.after(events).closer is Closed ==> stream.after(events).writer is Done
            && stream.after(events).reader is Done,
{
    lemma_ended_tasks(stream, notify_close, events);
}

/// Once closing has returned the stream does nothing more: no message is handed on, nothing
/// is read from the WebSocket and nothing is written to it, whatever happens.
pub proof fn nothing_happens_after_closing<M, S, R, E>(
    stream: Stream<R>,
    notify_close: bool,
    events: Seq<StreamEvent<M, S, R, E>>,
    n: int,
)
    requires
        stream.closer == closer_start::<S, R>(notify_close).0,
        stream.can_see_all(events),
        0 <= n <= events.len(),
        stream.after(events.take(n)).closer is Closed,
    ensures
        stream.after(events) == stream.after(events.take(n)),
        stream.actions(events) == stream.actions(events.take(n)),
    decreases events.len(),
{
    if n < events.len() {
        let before = events.drop_last();
        assert(before.take(n) == events.take(n));
        nothing_happens_after_closing(stream, notify_close, before, n);
        lemma_ended_tasks(stream, notify_close, before);
    } else {
        assert(events.take(n) == events);
    }
}

/// Closing comes to its end: each answer brings it one step nearer, and it never waits for
/// anything but the end of a task, or for the writer to take the request.
pub proof fn closing_takes_its_steps<S, R>(notify_close: bool)
    ensures
        ({
            let (first, action) = closer_start::<S, R>(notify_close);
            let asked = closer_next::<S, R>(first, CloserEvent::Delivered);
            let awaiting = if notify_close {
                asked
            } else {
                (first, action)
            };
            let then = closer_next::<S, R>(awaiting.0, CloserEvent::WriterEnded);
            let last = closer_next::<S, R>(then.0, CloserEvent::ReaderEnded);
            &&& notify_close ==> action == CloserAction::<S, R>::Request(InternalMessage::Close)
            &&& awaiting.1 is AwaitWriter
            &&& then.1 is AwaitReader
            &&& last == (CloserState::Closed, CloserAction::<S, R>::Return)
        }),
{
}

/// Closing never loses its place: what is no answer to what it does is ignored and changes
/// nothing, and an answer never is.
pub proof fn closing_ignores_what_is_no_answer<S, R>(state: CloserState, event: CloserEvent)
    ensures
        ({
            let answered = match event {
                CloserEvent::Delivered => state is Requesting,
                CloserEvent::WriterEnded => state is AwaitingWriter,
                CloserEvent::ReaderEnded => state is AwaitingReader,
            };
            let next = closer_next::<S, R>(state, event);
            &&& !answered ==> next == (state, CloserAction::<S, R>::Ignore)
            &&& answered ==> !(next.1 is Ignore)
        }),
{
}

} // verus!
