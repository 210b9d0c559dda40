//! The failure taxonomy of the donation history core.

use vstd::prelude::*;

verus! {

/// Every way a codec or store operation can fail.
///
/// All failures abort the requested operation with no partial mutation of the
/// buffer; retrying or aborting is the caller's decision.
#[derive(Clone, Copy, Debug, PartialEq, Eq, Structural)]
pub enum HistoryError {
    /// A record could not be decoded because fewer than 40 input bytes were
    /// available.
    MalformedRecord,
    /// An append would exceed the buffer's fixed capacity.
    BufferFull,
    /// The occupied prefix is not a whole number of 40-byte records, so its
    /// record boundaries cannot be trusted.
    UnalignedBuffer,
}

} // verus!
