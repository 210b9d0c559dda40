//! A fixed-capacity donation history: a binary codec for fixed-width donation
//! records and a flat-buffer store that appends records and scans them back.
//!
//! Every record occupies exactly 40 bytes: 32 bytes of donor name, 3 bytes of
//! blood type, and a 5-byte little-endian date. The store keeps an occupied
//! prefix of complete records inside a buffer of fixed capacity; appending
//! extends the prefix by one encoded record, and scanning decodes the prefix
//! back into the ordered list of records that produced it.

pub mod error;
pub mod record;
pub mod store;
