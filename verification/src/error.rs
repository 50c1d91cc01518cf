//! What can go wrong with a session.

use vstd::prelude::*;

verus! {

/// Why an operation or a session ended, as far as a decision depends on it.
#[derive(Clone, Copy, Debug, PartialEq, Eq, Structural)]
pub enum Error {
    /// The other side of a channel is gone.
    Dropped,
    /// The session is no longer wanted.
    Cancel,
    /// The transport failed.
    Transport,
    /// Anything else.
    Other,
}

/// An error with the code and the text that stand for it on the wire.
#[derive(Debug)]
pub struct Failure {
    pub error: Error,
    pub code: u32,
    pub message: String,
}

} // verus!
