//! A client for a language server that is driven over its standard streams.
//!
//! - [`frame`]: how a message body is found on a stream of bytes and how one
//!   is written.
//! - [`json`]: the documents that messages carry, read and written with
//!   `serde_json`.
//! - [`message`]: requests, notifications and responses, and how a body is
//!   told to be one of them.
//! - [`reader`]: the queue of the messages that have arrived, from which the
//!   oldest message of a wanted kind is taken.
//! - [`client`]: the session, which gives each request its id and accepts
//!   the response with that id alone.
//! - [`builder`] and [`params`]: how a client and the parameters of its
//!   first request are set up.
//! - [`decimal`]: decimal numerals.
//!
//! Nothing here blocks, starts a process or touches a stream of the
//! operating system: the library decides, and its caller acts. The caller
//! hands over the bytes that the server has sent and sends the bytes that
//! the session has written. Where the protocol knows a state from which a
//! session cannot go on, the function that would meet it leaves it out by
//! its precondition, and a function beside it tests for it.

pub mod builder;
pub mod client;
pub mod decimal;
pub mod frame;
pub mod json;
pub mod message;
pub mod params;
pub mod reader;
