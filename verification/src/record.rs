//! The record codec: a pure, deterministic, bidirectional mapping between a
//! donation record and its fixed 40-byte layout.
//!
//! Layout: bytes `[0, 32)` hold the donor name, bytes `[32, 35)` the blood
//! type, and bytes `[35, 40)` the date, least-significant byte first. Five
//! bytes are available for the date, so a date value round-trips exactly when
//! it is below `2^40`; decoding always produces a date in that range.

use crate::error::HistoryError;
use vstd::prelude::*;

verus! {

broadcast use vstd::array::group_array_axioms;

/// Number of bytes a single encoded donation record occupies.
pub const RECORD_LEN: usize = 40;

/// Exclusive upper bound on the date values that the five date bytes of the
/// layout can represent: `2^40`.
pub const DATE_BOUND: u64 = 0x100_0000_0000;

/// One donation event. The name and blood type fields are fixed-width raw
/// bytes (a shorter value is zero-padded by the caller); the date is an
/// epoch-style integer. Any field contents are representable, so every record
/// is encodable and no decoded content is rejected.
#[derive(Clone, Copy, Debug, PartialEq, Eq)]
pub struct Donation {
    pub donor_name: [u8; 32],
    pub blood_type: [u8; 3],
    pub date: u64,
}

/// The five lowest bytes of `x`, least-significant byte first: exactly what
/// the layout stores for the date.
pub open spec fn date_le_bytes(x: u64) -> Seq<u8> {
    seq![x as u8, (x >> 8) as u8, (x >> 16) as u8, (x >> 24) as u8, (x >> 32) as u8]
}

/// The integer whose little-endian bytes are `s[0], ..., s[4]`; always below
/// `2^40`. Meaningful only when `s` has exactly five elements.
pub open spec fn le_bytes_to_date(s: Seq<u8>) -> u64 {
    (s[0] as u64) | ((s[1] as u64) << 8) | ((s[2] as u64) << 16) | ((s[3] as u64) << 24) | ((s[4]
        as u64) << 32)
}

/// The exact 40-byte encoding of a record: donor name, then blood type, then
/// the little-endian date.
pub open spec fn encoded(r: Donation) -> Seq<u8> {
    r.donor_name@ + r.blood_type@ + date_le_bytes(r.date)
}

/// `r` is the record stored in the first 40 bytes of `bytes`: the three fixed
/// ranges of the layout, read back field by field. For any given `bytes` at
/// most one record satisfies this (`lemma_decodes_to_unique`).
pub open spec fn decodes_to(bytes: Seq<u8>, r: Donation) -> bool {
    &&& bytes.len() >= 40
    &&& r.donor_name@ == bytes.subrange(0, 32)
    &&& r.blood_type@ == bytes.subrange(32, 35)
    &&& r.date == le_bytes_to_date(bytes.subrange(35, 40))
}

/// Splitting a date into its five little-endian bytes and reassembling them
/// gives the date back, provided it fits the five bytes.
proof fn lemma_date_le_bytes_roundtrip(x: u64)
    requires
        x < DATE_BOUND,
    ensures
        le_bytes_to_date(date_le_bytes(x)) == x,
{
    assert(((x as u8) as u64) | ((((x >> 8) as u8) as u64) << 8) | ((((x >> 16) as u8) as u64)
        << 16) | ((((x >> 24) as u8) as u64) << 24) | ((((x >> 32) as u8) as u64) << 32) == x)
        by (bit_vector)
        requires
            x < 0x100_0000_0000u64,
    ;
}

/// Reassembling five bytes into a date and splitting it again gives the same
/// five bytes back.
proof fn lemma_date_le_bytes_inverse(s: Seq<u8>)
    requires
        s.len() == 5,
    ensures
        u64_in_date_range(le_bytes_to_date(s)),
        date_le_bytes(le_bytes_to_date(s)) == s,
{
    let b0 = s[0];
    let b1 = s[1];
    let b2 = s[2];
    let b3 = s[3];
    let b4 = s[4];
    let x = le_bytes_to_date(s);
    assert(x == (b0 as u64) | ((b1 as u64) << 8) | ((b2 as u64) << 16) | ((b3 as u64) << 24) | ((
    b4 as u64) << 32));
    assert(x < 0x100_0000_0000u64 && x as u8 == b0 && (x >> 8) as u8 == b1 && (x >> 16) as u8 == b2
        && (x >> 24) as u8 == b3 && (x >> 32) as u8 == b4) by (bit_vector)
        requires
            x == (b0 as u64) | ((b1 as u64) << 8) | ((b2 as u64) << 16) | ((b3 as u64) << 24) | ((
            b4 as u64) << 32),
    ;
    assert(date_le_bytes(x) =~= s);
}

/// `x` fits the five date bytes of the layout.
pub open spec fn u64_in_date_range(x: u64) -> bool {
    x < DATE_BOUND
}

impl Donation {
    /// The date fits the five bytes the layout stores for it, so encoding
    /// this record loses nothing. Every decoded record is valid.
    pub open spec fn valid(self) -> bool {
        u64_in_date_range(self.date)
    }

    /// Every valid record decodes back from its own encoding: the round-trip
    /// law in one direction. Together with `lemma_decodes_to_unique` this
    /// says that decoding the encoding of `r` yields exactly `r`.
    pub proof fn lemma_round_trip(r: Donation)
        requires
            r.valid(),
        ensures
            decodes_to(encoded(r), r),
    {
        let bytes = encoded(r);
        assert(r.donor_name@.len() == 32);
        assert(r.blood_type@.len() == 3);
        assert(r.donor_name@ =~= bytes.subrange(0, 32));
        assert(r.blood_type@ =~= bytes.subrange(32, 35));
        assert(date_le_bytes(r.date) =~= bytes.subrange(35, 40));
        lemma_date_le_bytes_roundtrip(r.date);
    }

    /// The layout stores a record without loss: two records read back from
    /// the same bytes are the same record.
    pub proof fn lemma_decodes_to_unique(bytes: Seq<u8>, r1: Donation, r2: Donation)
        requires
            decodes_to(bytes, r1),
            decodes_to(bytes, r2),
        ensures
            r1 == r2,
    {
        assert(r1.donor_name =~= r2.donor_name);
        assert(r1.blood_type =~= r2.blood_type);
    }

    /// A record read back from bytes is valid: its date is below `2^40`.
    pub proof fn lemma_decoded_valid(bytes: Seq<u8>, r: Donation)
        requires
            decodes_to(bytes, r),
        ensures
            r.valid(),
    {
        lemma_date_le_bytes_inverse(bytes.subrange(35, 40));
    }

    /// Write this record into its exact 40-byte layout: donor name, blood
    /// type, then the five little-endian date bytes. Every record is
    /// encodable; a date at or above `2^40` loses its high bytes.
    pub fn encode(&self) -> (out: Vec<u8>)
        ensures
            out@ == encoded(*self),
            out@.len() == 40,
    {
        let mut out: Vec<u8> = Vec::new();
        let mut i: usize = 0;
        while i < 32
            invariant
                i <= 32,
                out@.len() == i,
                forall|j: int| 0 <= j < i ==> out@[j] == self.donor_name@[j],
            decreases 32 - i,
        {
            out.push(self.donor_name[i]);
            i += 1;
        }
        let mut k: usize = 0;
        while k < 3
            invariant
                k <= 3,
                out@.len() == 32 + k,
                forall|j: int| 0 <= j < 32 ==> out@[j] == self.donor_name@[j],
                forall|j: int| 0 <= j < k ==> out@[32 + j] == self.blood_type@[j],
            decreases 3 - k,
        {
            out.push(self.blood_type[k]);
            k += 1;
        }
        let d: u64 = self.date;
        out.push(#[verifier::truncate] (d as u8));
        out.push(#[verifier::truncate] ((d >> 8) as u8));
        out.push(#[verifier::truncate] ((d >> 16) as u8));
        out.push(#[verifier::truncate] ((d >> 24) as u8));
        out.push(#[verifier::truncate] ((d >> 32) as u8));
        proof {
            assert(out@ =~= encoded(*self));
        }
        out
    }

    /// Read back the record stored in the first 40 bytes of `bytes`,
    /// consuming exactly 40 of them. Fails with `MalformedRecord` exactly
    /// when fewer than 40 bytes are available; the field contents are
    /// arbitrary bytes and are never validated.
    pub fn decode(bytes: &[u8]) -> (r: Result<Donation, HistoryError>)
        ensures
            match r {
                Ok(rec) => bytes@.len() >= 40 && decodes_to(bytes@, rec) && rec.valid(),
                Err(e) => bytes@.len() < 40 && e == HistoryError::MalformedRecord,
            },
    {
        if bytes.len() < 40 {
            return Err(HistoryError::MalformedRecord);
        }
        let mut donor_name: [u8; 32] = [0u8; 32];
        let mut i: usize = 0;
        while i < 32
            invariant
                i <= 32,
                bytes@.len() >= 40,
                forall|j: int| 0 <= j < i ==> donor_name@[j] == bytes@[j],
            decreases 32 - i,
        {
            donor_name[i] = bytes[i];
            i += 1;
        }
        let mut blood_type: [u8; 3] = [0u8; 3];
        let mut k: usize = 0;
        while k < 3
            invariant
                k <= 3,
                bytes@.len() >= 40,
                forall|j: int| 0 <= j < k ==> blood_type@[j] == bytes@[32 + j],
            decreases 3 - k,
        {
            blood_type[k] = bytes[32 + k];
            k += 1;
        }
        let date: u64 = (bytes[35] as u64) | ((bytes[36] as u64) << 8) | ((bytes[37] as u64)
            << 16) | ((bytes[38] as u64) << 24) | ((bytes[39] as u64) << 32);
        let rec = Donation { donor_name, blood_type, date };
        proof {
            let s = bytes@.subrange(35, 40);
            assert(s[0] == bytes@[35] && s[1] == bytes@[36] && s[2] == bytes@[37] && s[3]
                == bytes@[38] && s[4] == bytes@[39]);
            assert(rec.donor_name@ =~= bytes@.subrange(0, 32));
            assert(rec.blood_type@ =~= bytes@.subrange(32, 35));
            assert(rec.date == le_bytes_to_date(s));
            Donation::lemma_decoded_valid(bytes@, rec);
        }
        Ok(rec)
    }

    /// Re-encoding a decoded record reproduces the 40 bytes it was read
    /// from: the round-trip law in the other direction.
    pub proof fn lemma_encoded_of_decoded(bytes: Seq<u8>, r: Donation)
        requires
            decodes_to(bytes, r),
        ensures
            encoded(r) == bytes.subrange(0, 40),
    {
        lemma_date_le_bytes_inverse(bytes.subrange(35, 40));
        assert(r.donor_name@.len() == 32);
        assert(r.blood_type@.len() == 3);
        assert(encoded(r) =~= bytes.subrange(0, 40));
    }
}

} // verus!
