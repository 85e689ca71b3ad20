//! A signal stream seen from its user: sending a signal, closing.
use vstd::prelude::*;

use crate::error::SignalError;

verus! {

/// What the writer of a stream is asked to do. `S` is the type of signals and `R` that of
/// the channel on which the sender of one waits for its outcome.
#[derive(Debug)]
pub enum InternalMessage<S, R> {
    /// Send a signal and report the outcome.
    Signal { signal: S, response_chn: R },
    /// Answer a ping with its own data.
    Pong { ping_data: Vec<u8> },
    /// Close the WebSocket.
    Close,
}

/// What the closing of a stream asks of the writer: to close the WebSocket, where the other
/// side is to be told; otherwise nothing.
pub fn close_request<S, R>(notify_close: bool) -> (request: Option<InternalMessage<S, R>>)
    ensures
        request == if notify_close {
            Some(InternalMessage::<S, R>::Close)
        } else {
            None
        },
{
    if notify_close {
        Some(InternalMessage::Close)
    } else {
        None
    }
}

/// What the sending of a signal asks of the writer.
pub fn send_request<S, R>(signal: S, response_chn: R) -> (request: InternalMessage<S, R>)
    ensures
        request == (InternalMessage::Signal { signal, response_chn }),
{
    InternalMessage::Signal { signal, response_chn }
}

/// The outcome of sending a signal: the writer's report, or a failure of its own where the
/// writer went away without one.
pub fn send_outcome<E>(report: Option<Result<(), SignalError<E>>>) -> (outcome: Result<
    (),
    SignalError<E>,
>)
    ensures
        outcome == match report {
            Some(result) => result,
            None => Err(SignalError::SendError),
        },
{
    match report {
        Some(result) => result,
        None => Err(SignalError::SendError),
    }
}

} // verus!
