//! The ways in which obtaining the current records can fail.

use vstd::prelude::*;

verus! {

/// Why no records could be delivered.
///
/// A failure of the snapshot's storage is not among the reasons: a snapshot
/// that cannot be looked up or read counts as absent, and one that cannot be
/// written is done without.
#[derive(Clone, Copy, Debug, PartialEq, Eq, Structural)]
pub enum Failure {
    /// The remote export could not be retrieved.
    FetchFailure,
    /// The tokenizer could not decode the raw text.
    DecodeFailure,
}

} // verus!
