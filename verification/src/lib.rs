//! The decisions of a minimal HTTP server that answers every connection with one fixed
//! response, without any I/O of their own.
//!
//! The server binds one port, accepts connections for ever, and gives each connection to a
//! handler that reads once, writes the response, flushes and closes. Listener and handler
//! are state machines: each says what is to be done next, and is told how it went. The
//! program around this library owns the sockets, the threads and the console.
//!
//! - [`listener`]: the bind and the accept loop.
//! - [`handler`]: one connection, step by step.
//! - [`session`]: what holds of every connection from its first step to its last.
//! - [`concurrency`]: what holds of many connections at once.
//! - [`request`]: the buffer that the one read fills.
//! - [`response`]: the response.
//! - [`shutdown`]: the reaction to an interrupt or a termination request.
//! - [`console`]: the lines that the server prints.

pub mod concurrency;
pub mod console;
pub mod handler;
pub mod listener;
pub mod request;
pub mod response;
pub mod session;
pub mod shutdown;
