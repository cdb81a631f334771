//! The ways in which building an alphabet, encoding or decoding can fail.

use vstd::prelude::*;

verus! {

/// Every failure is final: nothing is retried and no partial result is kept.
#[derive(Clone, Copy, Debug, PartialEq, Eq, Structural)]
pub enum CodecError {
    /// Two entries of an alphabet table share one pattern.
    AlphabetCollision,
    /// A character of the transport text has no entry in the alphabet.
    UnknownSymbol(char),
    /// The decoder closed a symbol whose pattern no entry of the alphabet has.
    Irrecoverable,
    /// The recovered transport text is not the text of any payload.
    MalformedText,
}

} // verus!
