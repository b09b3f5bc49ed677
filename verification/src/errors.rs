//! Error taxonomy of the protocol core.

use vstd::prelude::*;

verus! {

/// Failure of a decode step.
#[derive(Clone, Copy, Debug, PartialEq, Eq, Structural)]
pub enum CodecError {
    /// The header is not canonical Base64URL without padding.
    MalformedEncoding,
    /// A decoded field violates its fixed size, its length prefix, UTF-8
    /// validity, or the record invariant.
    MalformedField,
}

/// Failure of a solution search.
#[derive(Clone, Copy, Debug, PartialEq, Eq, Structural)]
pub enum SearchError {
    /// The challenge's validity window closed before a solution was found.
    ChallengeExpired,
    /// The bounded candidate range was scanned without success.
    SearchExhausted,
}

} // verus!
