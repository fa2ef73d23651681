//! Typed client for the AnkiConnect JSON-over-HTTP action protocol.
//!
//! Every action is a value of a contract type binding the action's name,
//! the protocol version, a parameter shape and a result shape. One generic
//! dispatcher builds the request envelope, performs the transport call and
//! resolves the response envelope into a typed result or a typed error.
use vstd::prelude::*;

pub mod card_actions;
pub mod client;
pub mod codec;
pub mod deck_actions;
pub mod envelope;
pub mod graphical_actions;
pub mod json;
pub mod notes_actions;
pub mod parse;
pub mod request;
pub mod statistic_actions;

verus! {

/// Why a response could not be decoded: the body was not JSON at all, or it
/// was JSON of the wrong shape for the expected envelope or result.
#[derive(Debug, Clone, Copy, PartialEq, Eq, Structural)]
pub enum DecodeError {
    NotJson,
    WrongShape,
}

/// The possible failures of one dispatched action.
#[derive(Debug)]
pub enum AnkiError {
    /// The transport call itself failed.
    Ureq(Box<ureq::Error>),
    /// The response body could not be read from the connection.
    Serde(std::io::Error),
    /// The response could not be decoded into the expected shape.
    Decode(DecodeError),
    /// The remote application answered with an error message, carried
    /// verbatim.
    Anki(String),
}

} // verus!
