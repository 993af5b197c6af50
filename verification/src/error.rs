//! The ways in which a single client or a single message can fail.
//!
//! None of them is fatal to the relay: each is confined to the connection or the
//! message that caused it.

use vstd::prelude::*;

verus! {

#[derive(Clone, Copy, Debug, PartialEq, Eq)]
pub enum ChatError {
    /// The UTF-8 form of a username does not fit behind the length prefix.
    PayloadTooLarge,
    /// The name bytes of a payload are not valid UTF-8.
    InvalidEncoding,
    /// A chat message is not valid UTF-8.
    MalformedMessage,
    /// No session is registered for the client identifier.
    UnknownClient,
}

} // verus!
