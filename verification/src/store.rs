//! The history store: a mutable byte buffer of fixed capacity whose occupied
//! prefix is a concatenation of complete 40-byte records.
//!
//! Appending encodes one record and extends the occupied prefix by exactly 40
//! bytes; scanning walks the prefix in fixed strides and decodes every slot
//! back, in the order the records were appended. There is no length field
//! anywhere: the record count is the occupied length divided by 40, and an
//! occupied length that is not a multiple of 40 is reported as
//! `UnalignedBuffer` rather than silently truncated.

use crate::error::HistoryError;
use crate::record::{decodes_to, encoded, Donation};
use vstd::prelude::*;
use vstd::slice::slice_subrange;

verus! {

/// The storage image of a record list: the concatenation
/// `encoded(rs[0]) + encoded(rs[1]) + ... + encoded(rs[len - 1])`.
pub open spec fn encoded_all(rs: Seq<Donation>) -> Seq<u8>
    decreases rs.len(),
{
    if rs.len() == 0 {
        Seq::empty()
    } else {
        encoded_all(rs.drop_last()) + encoded(rs.last())
    }
}

/// `recs` is exactly what a scan of `bytes` yields: the length is a whole
/// number of records, and each 40-byte slot of `bytes` decodes to the record
/// at the same position.
pub open spec fn scan_ok(bytes: Seq<u8>, recs: Seq<Donation>) -> bool {
    &&& bytes.len() % 40 == 0
    &&& recs.len() == bytes.len() / 40
    &&& forall|i: int|
        0 <= i < recs.len() ==> decodes_to(bytes.subrange(40 * i, 40 * i + 40), #[trigger] recs[i])
}

/// A record list occupies exactly 40 bytes per record.
pub proof fn lemma_encoded_all_len(rs: Seq<Donation>)
    ensures
        encoded_all(rs).len() == 40 * rs.len(),
    decreases rs.len(),
{
    if rs.len() > 0 {
        lemma_encoded_all_len(rs.drop_last());
    }
}

/// The 40-byte slot at position `i` of a record list's storage image is the
/// encoding of the record at position `i`.
pub proof fn lemma_encoded_all_slot(rs: Seq<Donation>, i: int)
    requires
        0 <= i < rs.len(),
    ensures
        encoded_all(rs).subrange(40 * i, 40 * i + 40) == encoded(rs[i]),
    decreases rs.len(),
{
    lemma_encoded_all_len(rs);
    lemma_encoded_all_len(rs.drop_last());
    if i == rs.len() - 1 {
        assert(encoded_all(rs).subrange(40 * i, 40 * i + 40) =~= encoded(rs[i]));
    } else {
        lemma_encoded_all_slot(rs.drop_last(), i);
        assert(encoded_all(rs).subrange(40 * i, 40 * i + 40) =~= encoded_all(
            rs.drop_last(),
        ).subrange(40 * i, 40 * i + 40));
    }
}

/// Appending one record to a list appends its 40-byte encoding to the list's
/// storage image: what one `append` does to the occupied prefix.
pub proof fn lemma_encoded_all_push(rs: Seq<Donation>, r: Donation)
    ensures
        encoded_all(rs.push(r)) == encoded_all(rs) + encoded(r),
{
    assert(rs.push(r).drop_last() =~= rs);
    assert(rs.push(r).last() == r);
}

/// Scanning is exact: re-encoding whatever a scan yields reproduces the
/// scanned bytes, byte for byte.
pub proof fn lemma_scan_ok_encodes(bytes: Seq<u8>, recs: Seq<Donation>)
    requires
        scan_ok(bytes, recs),
    ensures
        encoded_all(recs) == bytes,
    decreases recs.len(),
{
    lemma_encoded_all_len(recs);
    if recs.len() == 0 {
        assert(encoded_all(recs) =~= bytes);
    } else {
        let n = recs.len() as int;
        let front = bytes.subrange(0, 40 * (n - 1));
        assert forall|i: int| 0 <= i < n - 1 implies decodes_to(
            front.subrange(40 * i, 40 * i + 40),
            #[trigger] recs.drop_last()[i],
        ) by {
            assert(front.subrange(40 * i, 40 * i + 40) =~= bytes.subrange(40 * i, 40 * i + 40));
            assert(recs.drop_last()[i] == recs[i]);
        }
        lemma_scan_ok_encodes(front, recs.drop_last());
        assert(decodes_to(bytes.subrange(40 * (n - 1), 40 * n), recs[n - 1]));
        Donation::lemma_encoded_of_decoded(bytes.subrange(40 * (n - 1), 40 * n), recs[n - 1]);
        assert(encoded(recs.last()) =~= bytes.subrange(40 * (n - 1), 40 * n));
        assert(encoded_all(recs) =~= bytes);
    }
}

/// Scanning the storage image of a list of valid records yields that list
/// itself: each slot holds the encoding of the record that produced it, and
/// the round-trip law reads it back.
pub proof fn lemma_encoded_all_scan_ok(rs: Seq<Donation>)
    requires
        forall|i: int| 0 <= i < rs.len() ==> (#[trigger] rs[i]).valid(),
    ensures
        scan_ok(encoded_all(rs), rs),
{
    lemma_encoded_all_len(rs);
    assert forall|i: int| 0 <= i < rs.len() implies decodes_to(
        encoded_all(rs).subrange(40 * i, 40 * i + 40),
        #[trigger] rs[i],
    ) by {
        lemma_encoded_all_slot(rs, i);
        Donation::lemma_round_trip(rs[i]);
    }
}

/// The scan of a given byte sequence is unique: two record lists that both
/// satisfy `scan_ok` on the same bytes are the same list. Since `scan` on an
/// unmodified buffer always yields a list satisfying `scan_ok`, two such
/// scans yield identical sequences.
pub proof fn lemma_scan_deterministic(bytes: Seq<u8>, recs1: Seq<Donation>, recs2: Seq<Donation>)
    requires
        scan_ok(bytes, recs1),
        scan_ok(bytes, recs2),
    ensures
        recs1 == recs2,
{
    assert forall|i: int| 0 <= i < recs1.len() implies recs1[i] == recs2[i] by {
        Donation::lemma_decodes_to_unique(
            bytes.subrange(40 * i, 40 * i + 40),
            recs1[i],
            recs2[i],
        );
    }
    assert(recs1 =~= recs2);
}

/// Append/scan consistency: a sequence of valid records appended in order to
/// an initially empty buffer occupies exactly its storage image, and any scan
/// of that image yields exactly the appended records, in the same order.
pub proof fn lemma_append_scan_consistent(appended: Seq<Donation>, scanned: Seq<Donation>)
    requires
        forall|i: int| 0 <= i < appended.len() ==> (#[trigger] appended[i]).valid(),
        scan_ok(encoded_all(appended), scanned),
    ensures
        scanned == appended,
{
    lemma_encoded_all_scan_ok(appended);
    lemma_scan_deterministic(encoded_all(appended), appended, scanned);
}

/// Decode every 40-byte slot of `bytes`, in storage order, treating the whole
/// slice as the occupied prefix. Fails with `UnalignedBuffer` exactly when
/// the length is not a whole number of records; an empty slice yields an
/// empty list. On success the result is the unique list whose storage image
/// is `bytes` itself.
pub fn scan_bytes(bytes: &[u8]) -> (r: Result<Vec<Donation>, HistoryError>)
    ensures
        match r {
            Ok(recs) => {
                &&& bytes@.len() % 40 == 0
                &&& scan_ok(bytes@, recs@)
                &&& encoded_all(recs@) == bytes@
            },
            Err(e) => bytes@.len() % 40 != 0 && e == HistoryError::UnalignedBuffer,
        },
{
    if bytes.len() % 40 != 0 {
        return Err(HistoryError::UnalignedBuffer);
    }
    let mut recs: Vec<Donation> = Vec::new();
    let mut off: usize = 0;
    while bytes.len() - off >= 40
        invariant
            off <= bytes@.len(),
            off == 40 * recs@.len(),
            bytes@.len() % 40 == 0,
            forall|i: int|
                0 <= i < recs@.len() ==> decodes_to(
                    bytes@.subrange(40 * i, 40 * i + 40),
                    #[trigger] recs@[i],
                ),
        decreases bytes@.len() - off,
    {
        let window = slice_subrange(bytes, off, off + 40);
        let rec = match Donation::decode(window) {
            Ok(rec) => rec,
            Err(_) => {
                proof {
                    assert(false);
                }
                return Err(HistoryError::UnalignedBuffer);
            },
        };
        recs.push(rec);
        off = off + 40;
    }
    proof {
        assert(off == bytes@.len());
        assert(recs@.len() == bytes@.len() / 40);
        lemma_scan_ok_encodes(bytes@, recs@);
    }
    Ok(recs)
}

/// Serialize a whole record list into the flat storage format: the
/// concatenation of the 40-byte encodings, with no header, footer or count.
pub fn encode_history(records: &Vec<Donation>) -> (out: Vec<u8>)
    ensures
        out@ == encoded_all(records@),
        out@.len() == 40 * records@.len(),
{
    let mut out: Vec<u8> = Vec::new();
    let mut i: usize = 0;
    while i < records.len()
        invariant
            i <= records@.len(),
            out@ == encoded_all(records@.take(i as int)),
        decreases records@.len() - i,
    {
        let mut enc = records[i].encode();
        out.append(&mut enc);
        proof {
            assert(records@.take(i as int + 1).drop_last() =~= records@.take(i as int));
            assert(records@.take(i as int + 1).last() == records@[i as int]);
        }
        i += 1;
    }
    proof {
        assert(records@.take(records@.len() as int) =~= records@);
        lemma_encoded_all_len(records@);
    }
    out
}

/// The sole persistent entity: a byte buffer of fixed capacity whose
/// occupied prefix holds the appended records. The caller must hand a given
/// buffer to at most one operation at a time; the store itself does no
/// locking.
pub struct HistoryBuffer {
    bytes: Vec<u8>,
    capacity: usize,
}

impl HistoryBuffer {
    /// The occupied prefix: the bytes holding the records appended so far.
    pub closed spec fn occupied(&self) -> Seq<u8> {
        self.bytes@
    }

    /// The fixed total capacity in bytes. Never changed by any operation.
    pub closed spec fn cap(&self) -> int {
        self.capacity as int
    }

    /// Well-formedness: the occupied prefix fits the capacity. Established
    /// by the constructors and preserved by every operation.
    pub open spec fn wf(&self) -> bool {
        self.occupied().len() <= self.cap()
    }

    /// The occupied prefix is a whole number of 40-byte records, so every
    /// record boundary is intact.
    pub open spec fn aligned(&self) -> bool {
        self.occupied().len() % 40 == 0
    }

    /// The implicit record count: there is no length field anywhere, so the
    /// count is the occupied length divided by 40.
    pub open spec fn record_count(&self) -> int {
        self.occupied().len() as int / 40
    }

    /// An empty history buffer of the given fixed capacity.
    pub fn new(capacity: usize) -> (buf: HistoryBuffer)
        ensures
            buf.wf(),
            buf.occupied() == Seq::<u8>::empty(),
            buf.cap() == capacity,
    {
        HistoryBuffer { bytes: Vec::new(), capacity }
    }

    /// Adopt an existing occupied prefix, as handed over by the storage
    /// context that owns the underlying buffer. The bytes are taken as they
    /// are: a prefix that is not record-aligned is adopted too, and reported
    /// by the operations as `UnalignedBuffer`.
    pub fn from_bytes(bytes: Vec<u8>, capacity: usize) -> (buf: HistoryBuffer)
        requires
            bytes@.len() <= capacity,
        ensures
            buf.wf(),
            buf.occupied() == bytes@,
            buf.cap() == capacity,
    {
        HistoryBuffer { bytes, capacity }
    }

    /// Append one record: encode it and write the 40 bytes at the end of the
    /// occupied prefix, extending it. The only mutator, and atomic: on any
    /// failure the buffer is untouched. Fails with `UnalignedBuffer` when
    /// the occupied prefix is not record-aligned, and with `BufferFull`
    /// exactly when fewer than 40 free bytes remain.
    pub fn append(&mut self, rec: &Donation) -> (r: Result<(), HistoryError>)
        requires
            old(self).wf(),
        ensures
            final(self).wf(),
            final(self).cap() == old(self).cap(),
            match r {
                Ok(()) => {
                    &&& old(self).aligned()
                    &&& old(self).occupied().len() + 40 <= old(self).cap()
                    &&& final(self).occupied() == old(self).occupied() + encoded(*rec)
                },
                Err(e) => {
                    &&& final(self).occupied() == old(self).occupied()
                    &&& match e {
                        HistoryError::UnalignedBuffer => !old(self).aligned(),
                        HistoryError::BufferFull => old(self).aligned() && old(
                            self,
                        ).occupied().len() + 40 > old(self).cap(),
                        HistoryError::MalformedRecord => false,
                    }
                },
            },
    {
        if self.bytes.len() % 40 != 0 {
            return Err(HistoryError::UnalignedBuffer);
        }
        if self.capacity - self.bytes.len() < 40 {
            return Err(HistoryError::BufferFull);
        }
        let mut enc = rec.encode();
        self.bytes.append(&mut enc);
        Ok(())
    }

    /// Append one not-yet-encoded record, handed over as raw bytes: decode
    /// the first 40 bytes of `data`, then append the record. On success the
    /// occupied prefix grows by exactly those 40 bytes; on any failure the
    /// buffer is untouched.
    pub fn append_bytes(&mut self, data: &[u8]) -> (r: Result<(), HistoryError>)
        requires
            old(self).wf(),
        ensures
            final(self).wf(),
            final(self).cap() == old(self).cap(),
            match r {
                Ok(()) => {
                    &&& data@.len() >= 40
                    &&& old(self).aligned()
                    &&& old(self).occupied().len() + 40 <= old(self).cap()
                    &&& final(self).occupied() == old(self).occupied() + data@.subrange(0, 40)
                },
                Err(e) => {
                    &&& final(self).occupied() == old(self).occupied()
                    &&& match e {
                        HistoryError::MalformedRecord => data@.len() < 40,
                        HistoryError::UnalignedBuffer => data@.len() >= 40 && !old(self).aligned(),
                        HistoryError::BufferFull => data@.len() >= 40 && old(self).aligned()
                            && old(self).occupied().len() + 40 > old(self).cap(),
                    }
                },
            },
    {
        let rec = match Donation::decode(data) {
            Ok(rec) => rec,
            Err(e) => {
                return Err(e);
            },
        };
        let r = self.append(&rec);
        proof {
            if r is Ok {
                Donation::lemma_encoded_of_decoded(data@, rec);
            }
        }
        r
    }

    /// Reconstruct the full record list from the occupied prefix, in the
    /// exact order the records were appended: no reordering, deduplication
    /// or filtering. An empty prefix yields an empty list; a prefix that is
    /// not record-aligned fails with `UnalignedBuffer`. The records are
    /// owned values, never references into the buffer.
    pub fn scan(&self) -> (r: Result<Vec<Donation>, HistoryError>)
        ensures
            match r {
                Ok(recs) => {
                    &&& self.aligned()
                    &&& scan_ok(self.occupied(), recs@)
                    &&& encoded_all(recs@) == self.occupied()
                    &&& recs@.len() == self.record_count()
                },
                Err(e) => !self.aligned() && e == HistoryError::UnalignedBuffer,
            },
    {
        scan_bytes(self.bytes.as_slice())
    }

    /// Read access to the occupied prefix, for the storage context that
    /// persists the buffer.
    pub fn occupied_bytes(&self) -> (r: &Vec<u8>)
        ensures
            r@ == self.occupied(),
    {
        &self.bytes
    }

    /// The occupied length in bytes.
    pub fn occupied_len(&self) -> (r: usize)
        ensures
            r == self.occupied().len(),
    {
        self.bytes.len()
    }

    /// The fixed total capacity in bytes.
    pub fn capacity(&self) -> (r: usize)
        ensures
            r == self.cap(),
    {
        self.capacity
    }

    /// The number of complete records in the occupied prefix.
    pub fn len(&self) -> (r: usize)
        ensures
            r == self.record_count(),
    {
        self.bytes.len() / 40
    }
}

} // verus!
