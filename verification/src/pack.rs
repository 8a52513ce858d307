//! The packing engine: wraps a byte buffer into a network-sized chunk
//! record, one explicit step per wrap level.
//!
//! A step either finishes with a record that provably meets the size
//! invariant, or hands back the oversized record's serialized bytes for
//! the external content encryptor to chunk; the caller then feeds the
//! resulting descriptor to `pack_resume` and loops.  The loop lives with
//! the caller because chunking writes to the chunk store, which this
//! engine never touches.

use crate::chunk_map::{map_wf, ser_map, ChunkMap, ChunkMapModel};
use crate::codec::{
    encode_descriptor, encode_literal, ser_encoding, EncodingModel,
};
use crate::crypt::spec_encrypt;
use crate::errors::CoreError;
use crate::record::{
    record_fits, ser_record, validate_size, serialize_record, ChunkRecord,
    ChunkRecordModel, Visibility, VisibilityModel,
};
use vstd::prelude::*;

verus! {

/// One step of the packing loop.
#[derive(Debug)]
pub enum PackStep {
    /// The record fits the network; packing is finished.
    Done(ChunkRecord),
    /// The candidate record was oversized: these are its serialized
    /// bytes, to be chunked by the content encryptor and resumed with the
    /// resulting descriptor.
    NeedsChunking(Vec<u8>),
}

/// Mathematical model of a `PackStep`.
pub enum PackStepModel {
    Done(ChunkRecordModel),
    NeedsChunking(Seq<u8>),
}

impl View for PackStep {
    type V = PackStepModel;

    open spec fn view(&self) -> PackStepModel {
        match self {
            PackStep::Done(r) => PackStepModel::Done(r@),
            PackStep::NeedsChunking(b) => PackStepModel::NeedsChunking(b@),
        }
    }
}

/// What one packing step does with a candidate payload.
pub open spec fn spec_pack(
    value: Seq<u8>,
    vis: VisibilityModel,
) -> PackStepModel {
    let r = ChunkRecordModel { visibility: vis, payload: value };
    if record_fits(r) {
        PackStepModel::Done(r)
    } else {
        PackStepModel::NeedsChunking(ser_record(r))
    }
}

/// The literal bytes `create` wraps: the serialized descriptor, encrypted
/// exactly when the caller supplied a key.
pub open spec fn literal_payload(
    m: ChunkMapModel,
    key: Option<Seq<u8>>,
) -> Seq<u8> {
    match key {
        Some(k) => spec_encrypt(ser_map(m), k),
        None => ser_map(m),
    }
}

/// What `create` does with a freshly chunked payload's descriptor.
pub open spec fn spec_create(
    m: ChunkMapModel,
    vis: VisibilityModel,
    key: Option<Seq<u8>>,
) -> PackStepModel {
    spec_pack(
        ser_encoding(EncodingModel::Literal(literal_payload(m, key))),
        vis,
    )
}

/// Model of an optional borrowed key.
pub open spec fn key_view(k: Option<&Vec<u8>>) -> Option<Seq<u8>> {
    match k {
        Some(key) => Some(key@),
        None => None,
    }
}

/// Builds a candidate record from the value under the requested
/// visibility.  A finished record provably meets the size invariant; an
/// oversized candidate comes back as its serialized bytes for chunking.
pub fn pack(value: Vec<u8>, visibility: Visibility) -> (r: PackStep)
    ensures
        r@ == spec_pack(value@, visibility@),
        r@ matches PackStepModel::Done(rec) ==> record_fits(rec)
            && rec.payload == value@ && rec.visibility == visibility@,
{
    let record = ChunkRecord { visibility, payload: value };
    if validate_size(&record) {
        PackStep::Done(record)
    } else {
        PackStep::NeedsChunking(serialize_record(&record))
    }
}

/// Continues packing after the content encryptor chunked an oversized
/// record: the descriptor is wrapped as a tagged descriptor and packed
/// again under the same visibility.
pub fn pack_resume(map: &ChunkMap, visibility: Visibility) -> (r: PackStep)
    requires
        map_wf(map@),
    ensures
        r@ == spec_pack(
            ser_encoding(EncodingModel::Descriptor(map@)),
            visibility@,
        ),
        r@ matches PackStepModel::Done(rec) ==> record_fits(rec)
            && rec.visibility == visibility@,
{
    let wrapped = encode_descriptor(map);
    pack(wrapped, visibility)
}

/// The packing side of creation.  The caller first hands the raw payload
/// to the content encryptor; the resulting descriptor is serialized,
/// encrypted when a key is supplied, wrapped as a tagged literal, and
/// packed.  Only this first wrap is a literal, and only it sees the key:
/// the descriptors of `pack_resume`'s own recursion stay unencrypted.
pub fn create(
    map: &ChunkMap,
    visibility: Visibility,
    encryption_key: Option<&Vec<u8>>,
) -> (r: PackStep)
    requires
        map_wf(map@),
        crate::crypt::key_ok(key_view(encryption_key)),
    ensures
        r@ == spec_create(map@, visibility@, key_view(encryption_key)),
        r@ matches PackStepModel::Done(rec) ==> record_fits(rec)
            && rec.visibility == visibility@,
{
    let serialised_map = crate::chunk_map::serialize_map(map);
    let payload = match encryption_key {
        Some(key) => crate::crypt::symmetric_encrypt(
            serialised_map.as_slice(),
            key.as_slice(),
        ),
        None => serialised_map,
    };
    let literal = encode_literal(&payload);
    pack(literal, visibility)
}

/// Guard before submitting a record to the chunk store: an oversized
/// record marks a bug in the packing loop and is fatal to the operation.
pub fn ready_for_store(record: &ChunkRecord) -> (r: Result<(), CoreError>)
    ensures
        match r {
            Ok(_) => record_fits(record@),
            Err(e) => !record_fits(record@) && e
                == CoreError::SizeInvariantViolation,
        },
{
    if validate_size(record) {
        Ok(())
    } else {
        Err(CoreError::SizeInvariantViolation)
    }
}

} // verus!
