use signal_stream::close::{CloserAction, CloserEvent, CloserState};
use signal_stream::error::SignalError;
use signal_stream::reader::{Incoming, ReaderAction, ReaderEvent, ReaderState};
use signal_stream::stream::InternalMessage;
use signal_stream::writer::{WriterAction, WriterEvent, WriterState};

type Message = InternalMessage<&'static str, u32>;

/// Runs a writer over a queue; the socket fails for what `fails` names.
fn write(queue: Vec<Message>, fails: &[&str]) -> Vec<String> {
    let mut queue = queue.into_iter();
    let mut seen = Vec::new();
    let (mut state, mut action) = WriterState::start();
    loop {
        let event = match action {
            WriterAction::Receive => match queue.next() {
                Some(message) => WriterEvent::Message(message),
                None => WriterEvent::Disconnected,
            },
            WriterAction::SendSignal { signal } => {
                seen.push(format!("signal {}", signal));
                WriterEvent::Sent(if fails.contains(&signal) { Err("broken") } else { Ok(()) })
            }
            WriterAction::Report { response_chn, outcome } => {
                seen.push(match outcome {
                    Ok(()) => format!("sent {}", response_chn),
                    Err(SignalError::WsError(error)) => format!("{} {}", error, response_chn),
                    Err(SignalError::SendError) => panic!("not the writer's"),
                });
                WriterEvent::Reported
            }
            WriterAction::SendPong { ping_data } => {
                seen.push(format!("pong {:?}", ping_data));
                WriterEvent::Sent(if fails.contains(&"pong") { Err("broken") } else { Ok(()) })
            }
            WriterAction::Close => {
                seen.push("close".to_owned());
                WriterEvent::Closed
            }
            WriterAction::Stop => return seen,
            WriterAction::Ignore => panic!("every event is an answer"),
        };
        (state, action) = state.next(event);
    }
}

/// Runs a reader over what comes in; gives the messages and the requests to the writer.
fn read(incoming: Vec<Incoming<&'static str>>) -> (Vec<&'static str>, Vec<Message>) {
    let mut incoming = incoming.into_iter();
    let mut emitted = Vec::new();
    let mut requested = Vec::new();
    let (mut state, mut action) = ReaderState::start();
    loop {
        let event = match action {
            ReaderAction::Read => ReaderEvent::Incoming(incoming.next().unwrap_or(Incoming::End)),
            ReaderAction::Emit(message) => {
                emitted.push(message);
                ReaderEvent::Delivered
            }
            ReaderAction::Request(message) => {
                requested.push(message);
                ReaderEvent::Delivered
            }
            ReaderAction::Stop => return (emitted, requested),
            ReaderAction::Ignore => panic!("every event is an answer"),
        };
        (state, action) = state.next(event);
    }
}

fn signal(signal: &'static str, response_chn: u32) -> Message {
    InternalMessage::Signal { signal, response_chn }
}

fn pong(ping_data: &[u8]) -> Message {
    InternalMessage::Pong { ping_data: ping_data.to_vec() }
}

#[test]
fn writer_sends_in_order_and_reports_each() {
    assert_eq!(
        write(vec![signal("a", 1), pong(&[7, 8]), signal("b", 2)], &[]),
        ["signal a", "sent 1", "pong [7, 8]", "signal b", "sent 2", "close"]
    );
}

#[test]
fn writer_stops_at_a_request_to_close() {
    assert_eq!(
        write(vec![signal("a", 1), InternalMessage::Close, signal("b", 2)], &[]),
        ["signal a", "sent 1", "close"]
    );
    assert_eq!(write(vec![], &[]), ["close"]);
}

#[test]
fn writer_stops_at_a_signal_that_fails() {
    assert_eq!(
        write(vec![signal("a", 1), signal("b", 2), signal("c", 3)], &["b"]),
        ["signal a", "sent 1", "signal b", "broken 2", "close"]
    );
}

#[test]
fn writer_goes_on_after_a_pong_that_fails() {
    assert_eq!(
        write(vec![pong(&[1]), signal("a", 1)], &["pong"]),
        ["pong [1]", "signal a", "sent 1", "close"]
    );
}

#[test]
fn writer_ignores_events_out_of_turn() {
    let (state, action) = WriterState::<u32>::start::<u8, u8>();
    assert!(matches!(action, WriterAction::Receive));
    let (state, action) = state.next::<u8, u8>(WriterEvent::Reported);
    assert!(matches!((state, action), (WriterState::Receiving, WriterAction::Ignore)));
    let (state, action) = WriterState::<u32>::Done
        .next::<u8, u8>(WriterEvent::Message(InternalMessage::Close));
    assert!(matches!((state, action), (WriterState::Done, WriterAction::Ignore)));
}

#[test]
fn reader_hands_messages_on_in_order() {
    let (emitted, requested) = read(vec![
        Incoming::Binary(Some("a")),
        Incoming::Binary(None),
        Incoming::Frame,
        Incoming::Binary(Some("b")),
    ]);
    assert_eq!(emitted, ["a", "b"]);
    assert!(matches!(requested[..], [InternalMessage::Close]));
}

#[test]
fn reader_stops_at_the_end_of_the_stream() {
    for end in [
        Incoming::Close,
        Incoming::Reset,
        Incoming::Error,
        Incoming::Text,
        Incoming::Pong,
        Incoming::End,
    ] {
        let (emitted, requested) =
            read(vec![Incoming::Binary(Some("a")), end, Incoming::Binary(Some("b"))]);
        assert_eq!(emitted, ["a"]);
        assert!(matches!(requested[..], [InternalMessage::Close]));
    }
}

#[test]
fn reader_ignores_events_out_of_turn() {
    let (state, action) = ReaderState::start::<u8, u8, u8>();
    assert!(matches!((state, action), (ReaderState::Reading, ReaderAction::Read)));
    let (state, action) = ReaderState::Done.next::<u8, u8, u8>(ReaderEvent::Delivered);
    assert!(matches!((state, action), (ReaderState::Done, ReaderAction::Ignore)));
    let (state, action) =
        ReaderState::Closing.next::<u8, u8, u8>(ReaderEvent::Incoming(Incoming::Ping(vec![1])));
    assert!(matches!((state, action), (ReaderState::Closing, ReaderAction::Ignore)));
}

#[test]
fn pings_are_answered_with_their_data() {
    let (_, requested) = read(vec![
        Incoming::Ping(vec![1, 2]),
        Incoming::Binary(Some("a")),
        Incoming::Ping(vec![]),
        Incoming::Close,
        Incoming::Ping(vec![3]),
    ]);
    assert_eq!(write(requested, &[]), ["pong [1, 2]", "pong []", "close"]);
}

/// Runs a closing in which every action is answered.
fn close(notify_close: bool) -> Vec<&'static str> {
    let mut seen = Vec::new();
    let (mut state, mut action) = CloserState::start::<u8, u8>(notify_close);
    loop {
        let event = match action {
            CloserAction::Request(InternalMessage::Close) => {
                seen.push("request");
                CloserEvent::Delivered
            }
            CloserAction::AwaitWriter => {
                seen.push("writer");
                CloserEvent::WriterEnded
            }
            CloserAction::AwaitReader => {
                seen.push("reader");
                CloserEvent::ReaderEnded
            }
            CloserAction::Return => {
                assert_eq!(state, CloserState::Closed);
                return seen;
            }
            other => panic!("{:?}", other),
        };
        (state, action) = state.next(event);
    }
}

#[test]
fn closing_waits_for_writer_and_reader() {
    assert_eq!(close(true), ["request", "writer", "reader"]);
    assert_eq!(close(false), ["writer", "reader"]);
}

#[test]
fn closing_ignores_events_out_of_turn() {
    for (state, event) in [
        (CloserState::Requesting, CloserEvent::ReaderEnded),
        (CloserState::AwaitingWriter, CloserEvent::ReaderEnded),
        (CloserState::AwaitingWriter, CloserEvent::Delivered),
        (CloserState::AwaitingReader, CloserEvent::WriterEnded),
        (CloserState::Closed, CloserEvent::ReaderEnded),
    ] {
        let (next, action) = state.next::<u8, u8>(event);
        assert_eq!(next, state);
        assert!(matches!(action, CloserAction::Ignore));
    }
}

#[test]
fn tasks_do_nothing_once_they_are_done() {
    for event in [WriterEvent::Message(signal("a", 1)), WriterEvent::Disconnected] {
        let (state, action) = WriterState::Done.next::<_, u8>(event);
        assert!(matches!((state, action), (WriterState::Done, WriterAction::Ignore)));
    }
    for incoming in [Incoming::Binary(Some(1)), Incoming::Ping(vec![1]), Incoming::Close] {
        let (state, action) = ReaderState::Done.next::<_, u8, u8>(ReaderEvent::Incoming(incoming));
        assert!(matches!((state, action), (ReaderState::Done, ReaderAction::Ignore)));
    }
}
