//! A minimal key-value store behind a line-based wire protocol.
//!
//! A client connects, sends one comma-separated request, `READ,<name>` or
//! `WRITE,<name>,<content>`, receives one response, and the connection is
//! closed. This crate holds the request-handling core as verified code:
//!
//! - [`store`]: the mapping from names to contents;
//! - [`fields`], [`decode`] and [`encode`]: the codec, from the bytes of a
//!   request to a typed request and from a typed response to its bytes;
//! - [`server`]: the dispatch of a request to the store;
//! - [`connection`]: the states that one connection runs through;
//! - [`laws`]: what holds of every store and every request.
//!
//! Sockets, tasks and locking live outside it: a caller gives each request
//! exclusive access to the server for the length of one dispatch.
//!
//! Bytes that are no request are answered by an error response; the
//! connection is not dropped. A content ends at its first comma.

pub mod connection;
pub mod decode;
pub mod encode;
pub mod fields;
pub mod laws;
pub mod protocol;
pub mod server;
pub mod store;
