//! The error domain of the library.
//!
//! Every failure reported by the native engine is carried as its raw
//! status code; the downstream sink and a broken engine invariant get a
//! variant each.

use vstd::prelude::*;

use crate::engine;
use crate::engine::engine_error_text;

verus! {

/// A failure reported by a compression operation.
#[derive(Debug, Clone, PartialEq, Eq, Structural)]
pub enum Error {
    /// The engine returned a non-success status; the code can be turned
    /// into the engine's own diagnostic text with [`Error::message`].
    Engine { code: usize },
    /// The downstream sink refused a write.
    Sink,
    /// The engine broke its own protocol: a step that must make progress
    /// made none. Continuing with the context would be unsafe, so the
    /// operation is abandoned.
    Violation,
    /// An operation on an encoder whose finish handshake already ran.
    Finished,
}

impl Error {
    /// A human-readable account of the failure. For an engine failure it
    /// is the engine's own diagnostic text for the status code; the
    /// other variants have a fixed text each.
    pub fn message(&self) -> (r: String)
        ensures
            self matches Error::Engine { code } ==> r@ == engine_error_text(code as nat),
            self is Sink ==> r@ == "the downstream sink refused a write"@,
            self is Violation ==> r@ == "the engine broke its own protocol"@,
            self is Finished ==> r@ == "the encoder was already finished"@,
    {
        match self {
            Error::Engine { code } => engine::error_name(*code),
            Error::Sink => "the downstream sink refused a write".to_owned(),
            Error::Violation => "the engine broke its own protocol".to_owned(),
            Error::Finished => "the encoder was already finished".to_owned(),
        }
    }
}

} // verus!
