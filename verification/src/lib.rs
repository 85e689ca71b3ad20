//! The decisions of a signal stream: how to connect a WebSocket, directly or through a
//! proxy, what to trust on the way, and what to do with everything that is sent and comes
//! in. A program around it does the input and output.
pub mod address;
pub mod close;
pub mod connect;
pub mod connect_laws;
pub mod error;
pub mod options;
pub mod proxy;
pub mod reader;
pub mod stream;
pub mod text;
pub mod tls;
pub mod writer;
