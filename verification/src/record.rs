//! The network-visible chunk record and its wire form.
//!
//! A record is an immutable payload under one of two addressing
//! namespaces: published (world readable) or restricted (owner bound, with
//! the owner's public key attached).  Its content address is computed by
//! the chunk store from these same serialized bytes, so the serialization
//! here is the record's identity; it is strict on parse, like every wire
//! form of this crate.

use crate::errors::CoreError;
use vstd::bytes::*;
use vstd::prelude::*;

verus! {

/// Largest serialized chunk record the network accepts, in bytes.
pub const MAX_CHUNK_SIZE: usize = 1024 * 1024;

/// The addressing namespace of a record, with the owner key attached
/// exactly when the record is owner bound.
#[derive(Debug)]
pub enum Visibility {
    /// World readable; nobody owns or deletes it.
    Published,
    /// Owner bound; holds the owner's public key bytes.
    Restricted(Vec<u8>),
}

/// Mathematical model of a `Visibility`.
pub enum VisibilityModel {
    Published,
    Restricted(Seq<u8>),
}

impl View for Visibility {
    type V = VisibilityModel;

    open spec fn view(&self) -> VisibilityModel {
        match self {
            Visibility::Published => VisibilityModel::Published,
            Visibility::Restricted(owner) => VisibilityModel::Restricted(
                owner@,
            ),
        }
    }
}

/// An immutable, content-addressed network object.
#[derive(Debug)]
pub struct ChunkRecord {
    /// Which namespace the record lives in.
    pub visibility: Visibility,
    /// The record's bytes: always a tagged encoding.
    pub payload: Vec<u8>,
}

/// Mathematical model of a `ChunkRecord`.
pub struct ChunkRecordModel {
    pub visibility: VisibilityModel,
    pub payload: Seq<u8>,
}

impl View for ChunkRecord {
    type V = ChunkRecordModel;

    open spec fn view(&self) -> ChunkRecordModel {
        ChunkRecordModel { visibility: self.visibility@, payload: self.payload@ }
    }
}

/// A visibility model is well formed when an attached owner key could
/// come from a real in-memory value.
pub open spec fn vis_wf(v: VisibilityModel) -> bool {
    match v {
        VisibilityModel::Restricted(owner) => owner.len() <= u64::MAX,
        VisibilityModel::Published => true,
    }
}

/// A record model is well formed when its visibility is.
pub open spec fn record_wf(r: ChunkRecordModel) -> bool {
    vis_wf(r.visibility)
}

/// Serialized length of a record, stated arithmetically.
pub open spec fn record_size(r: ChunkRecordModel) -> int {
    match r.visibility {
        VisibilityModel::Published => 1 + r.payload.len() as int,
        VisibilityModel::Restricted(owner) => 9 + owner.len() as int
            + r.payload.len() as int,
    }
}

/// The size invariant the network enforces on every submitted record.
pub open spec fn record_fits(r: ChunkRecordModel) -> bool {
    record_size(r) <= MAX_CHUNK_SIZE
}

/// Wire form of a record: a namespace tag, for restricted records the
/// length-prefixed owner key, then the payload to the end of the buffer.
pub open spec fn ser_record(r: ChunkRecordModel) -> Seq<u8> {
    match r.visibility {
        VisibilityModel::Published => seq![0u8] + r.payload,
        VisibilityModel::Restricted(owner) => seq![1u8]
            + spec_u64_to_le_bytes(owner.len() as u64) + owner + r.payload,
    }
}

/// Strict parse of a record; `None` on malformed or truncated bytes.
pub open spec fn parse_record(b: Seq<u8>) -> Option<ChunkRecordModel> {
    if b.len() == 0 {
        None
    } else if b[0] == 0u8 {
        Some(
            ChunkRecordModel {
                visibility: VisibilityModel::Published,
                payload: b.skip(1),
            },
        )
    } else if b[0] == 1u8 {
        if b.len() < 9 {
            None
        } else {
            let olen = spec_u64_from_le_bytes(b.subrange(1, 9)) as int;
            if 9 + olen <= b.len() {
                Some(
                    ChunkRecordModel {
                        visibility: VisibilityModel::Restricted(
                            b.subrange(9, 9 + olen),
                        ),
                        payload: b.skip(9 + olen),
                    },
                )
            } else {
                None
            }
        }
    } else {
        None
    }
}

/// The arithmetic size equals the length of the wire form.
pub proof fn lemma_record_size(r: ChunkRecordModel)
    ensures
        ser_record(r).len() == record_size(r),
{
    lemma_auto_spec_u64_to_from_le_bytes();
}

/// Parsing undoes serializing for records.
pub proof fn lemma_record_round_trip(r: ChunkRecordModel)
    requires
        record_wf(r),
    ensures
        parse_record(ser_record(r)) == Some(r),
{
    lemma_auto_spec_u64_to_from_le_bytes();
    let b = ser_record(r);
    match r.visibility {
        VisibilityModel::Published => {
            assert(b.skip(1) =~= r.payload);
        },
        VisibilityModel::Restricted(owner) => {
            let olen = owner.len() as int;
            assert(b.subrange(1, 9) =~= spec_u64_to_le_bytes(
                owner.len() as u64,
            ));
            assert(b.subrange(9, 9 + olen) =~= owner);
            assert(b.skip(9 + olen) =~= r.payload);
        },
    }
}

/// Byte-for-byte comparison of two slices.
pub fn bytes_eq(a: &[u8], b: &[u8]) -> (r: bool)
    ensures
        r == (a@ == b@),
{
    if a.len() != b.len() {
        return false;
    }
    let mut i: usize = 0;
    while i < a.len()
        invariant
            i <= a.len(),
            a@.len() == b@.len(),
            forall|j: int| 0 <= j < i ==> a@[j] == b@[j],
        decreases a.len() - i,
    {
        if a[i] != b[i] {
            return false;
        }
        i = i + 1;
    }
    proof {
        assert(a@ =~= b@);
    }
    true
}

/// Whether two visibilities are the same namespace under the same owner.
pub fn visibility_matches(a: &Visibility, b: &Visibility) -> (r: bool)
    ensures
        r == (a@ == b@),
{
    match (a, b) {
        (Visibility::Published, Visibility::Published) => true,
        (Visibility::Restricted(x), Visibility::Restricted(y)) => bytes_eq(
            x.as_slice(),
            y.as_slice(),
        ),
        _ => false,
    }
}

/// Whether the record meets the network's size invariant.
pub fn validate_size(r: &ChunkRecord) -> (ok: bool)
    ensures
        ok == record_fits(r@),
{
    match &r.visibility {
        Visibility::Published => r.payload.len() <= MAX_CHUNK_SIZE - 1,
        Visibility::Restricted(owner) => {
            if owner.len() > MAX_CHUNK_SIZE - 9 {
                false
            } else {
                r.payload.len() <= MAX_CHUNK_SIZE - 9 - owner.len()
            }
        },
    }
}

/// Serializes a record into its strict wire form.
pub fn serialize_record(r: &ChunkRecord) -> (out: Vec<u8>)
    ensures
        out@ == ser_record(r@),
{
    let mut out: Vec<u8> = Vec::new();
    match &r.visibility {
        Visibility::Published => {
            out.push(0u8);
            crate::chunk_map::push_bytes(&mut out, r.payload.as_slice());
            assert(out@ =~= ser_record(r@));
        },
        Visibility::Restricted(owner) => {
            out.push(1u8);
            let len_bytes = u64_to_le_bytes(owner.len() as u64);
            crate::chunk_map::push_bytes(&mut out, len_bytes.as_slice());
            crate::chunk_map::push_bytes(&mut out, owner.as_slice());
            crate::chunk_map::push_bytes(&mut out, r.payload.as_slice());
            assert(out@ =~= ser_record(r@));
        },
    }
    out
}

/// Parses a record from its strict wire form; fails closed with
/// `DecodeError`.
pub fn deserialize_record(b: &[u8]) -> (r: Result<ChunkRecord, CoreError>)
    ensures
        match r {
            Ok(rec) => parse_record(b@) == Some(rec@) && record_wf(rec@),
            Err(e) => parse_record(b@) is None && e == CoreError::DecodeError,
        },
{
    if b.len() == 0 {
        return Err(CoreError::DecodeError);
    }
    let tag = b[0];
    if tag == 0u8 {
        let payload = vstd::slice::slice_to_vec(
            vstd::slice::slice_subrange(b, 1, b.len()),
        );
        assert(payload@ =~= b@.skip(1));
        Ok(ChunkRecord { visibility: Visibility::Published, payload })
    } else if tag == 1u8 {
        if b.len() < 9 {
            return Err(CoreError::DecodeError);
        }
        let olen = u64_from_le_bytes(vstd::slice::slice_subrange(b, 1, 9));
        if olen > (b.len() - 9) as u64 {
            return Err(CoreError::DecodeError);
        }
        let olen_us = olen as usize;
        let owner = vstd::slice::slice_to_vec(
            vstd::slice::slice_subrange(b, 9, 9 + olen_us),
        );
        let payload = vstd::slice::slice_to_vec(
            vstd::slice::slice_subrange(b, 9 + olen_us, b.len()),
        );
        assert(owner@ =~= b@.subrange(9, 9 + olen as int));
        assert(payload@ =~= b@.skip(9 + olen as int));
        Ok(ChunkRecord { visibility: Visibility::Restricted(owner), payload })
    } else {
        Err(CoreError::DecodeError)
    }
}

} // verus!
