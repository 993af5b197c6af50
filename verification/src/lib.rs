//! Session and relay layer of a small multi-user text chat.
//!
//! A client announces its username inside the fixed-size user data that the
//! transport carries during connection setup. The server keeps a table from
//! client identifier to username, and relays every line a client sends to all
//! the other connected clients.

pub mod client;
pub mod codec;
pub mod error;
pub mod model;
pub mod relay;
pub mod session;
pub mod text;
pub mod transport;
