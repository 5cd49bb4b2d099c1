//! Core of a webhook relay listener: it models the persistent tunnel to a
//! relay service, verifies the authenticity and freshness of each inbound
//! delivery, builds the local replay request, and keeps a bounded, ordered
//! history of outcomes.
//!
//! The surrounding binary owns the actual sockets, clocks and console; this
//! crate holds the decisions and data structures, each with a contract:
//!
//! - [`token`]: the opaque session credential and its hexadecimal form;
//! - [`gate`]: authenticity and freshness verification of each delivery;
//! - [`frame`]: the wire codec for delivery frames, with a round-trip proof;
//! - [`forward`]: building and serializing the local replay request;
//! - [`history`]: the bounded, ordered record of outcomes and its console lines;
//! - [`pipeline`]: the verify → forward → record flow over one delivery;
//! - [`tunnel`]: the connection state machine with backoff and cancellation;
//! - [`url`]: validation of the local target URL;
//! - [`cli_types`], [`commands`]: the plain data of the command surface.

use vstd::prelude::*;

pub mod cli_types;
pub mod commands;
pub mod forward;
pub mod frame;
pub mod gate;
pub mod history;
pub mod pipeline;
pub mod token;
pub mod tunnel;
pub mod url;

verus! {

/// The error kinds that terminate a listen session before or during connect.
/// Every other failure is absorbed into the pipeline as a recorded outcome.
#[derive(Clone, Copy, Debug, PartialEq, Eq, Structural)]
pub enum FatalError {
    /// The secure random source could not be read while generating a token.
    EntropyUnavailable,
    /// The relay refused the handshake: the token is invalid or expired.
    AuthRejected,
}

impl FatalError {
    /// A human-readable description for the process exit message.
    pub fn describe(&self) -> (r: &'static str)
        ensures
            *self is EntropyUnavailable ==> r@ == "secure random source unavailable"@,
            *self is AuthRejected ==> r@
                == "relay rejected the token; delete the stored relay token to start a new session"@,
    {
        match self {
            FatalError::EntropyUnavailable => "secure random source unavailable",
            FatalError::AuthRejected => "relay rejected the token; delete the stored relay token to start a new session",
        }
    }
}

} // verus!
