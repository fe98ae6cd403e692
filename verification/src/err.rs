//! Error values for the entry codec.

use vstd::prelude::*;

verus! {

/// The distinct failure kinds of the entry codec.
///
/// Reads that find no bytes at all at the requested offset are reported as
/// `Ok(None)`, never through this type: a clean end of stream is not an error.
#[derive(Clone, Copy, Debug, PartialEq, Eq, Structural)]
pub enum FormatError {
    /// A record starts at the offset but the stream ends before its declared
    /// bytes do: the tail was truncated, typically by a crash mid-append.
    Truncated,
    /// A hint entry was derived from a data entry that has no assigned offset.
    NotPlaced,
    /// A hint entry was constructed with a total entry size that cannot hold
    /// its own header and key, or whose value size does not fit the format.
    InvalidSize,
}

} // verus!
