//! The unpacking engine: the inverse of packing, one explicit step per
//! wrap level.
//!
//! `unpack` decodes a record's payload; a descriptor sends the caller to
//! the content encryptor for reassembly, and `unpack_resume` takes the
//! reassembled bytes back, insisting that every record met on the walk
//! carries the visibility of the top-level record.  `extract_value` and
//! `extract_resume` drive the same walk down to the innermost literal,
//! open it under the caller's optional key, and hand back the payload's
//! own descriptor for the final reassembly.

use crate::chunk_map::{map_wf, parse_map, ChunkMap, ChunkMapModel};
use crate::codec::{decode, parse_encoding, Encoding, EncodingModel};
use crate::crypt::spec_decrypt;
use crate::errors::CoreError;
use crate::pack::key_view;
use crate::record::{
    deserialize_record, parse_record, visibility_matches, ChunkRecord,
    ChunkRecordModel, Visibility, VisibilityModel,
};
use vstd::prelude::*;

verus! {

/// One step of the unpacking loop.
#[derive(Debug)]
pub enum UnpackStep {
    /// The innermost literal: the (possibly encrypted) serialized
    /// descriptor that `create` wrapped.
    Done(Vec<u8>),
    /// The record held a descriptor: reassemble it through the content
    /// encryptor and resume on the bytes, which are a serialized record.
    NeedsReassembly(ChunkMap),
}

/// Mathematical model of an `UnpackStep`.
pub enum UnpackStepModel {
    Done(Seq<u8>),
    NeedsReassembly(ChunkMapModel),
}

impl View for UnpackStep {
    type V = UnpackStepModel;

    open spec fn view(&self) -> UnpackStepModel {
        match self {
            UnpackStep::Done(b) => UnpackStepModel::Done(b@),
            UnpackStep::NeedsReassembly(m) => UnpackStepModel::NeedsReassembly(
                m@,
            ),
        }
    }
}

/// One step of the extraction loop.
#[derive(Debug)]
pub enum ExtractStep {
    /// An intermediate wrap level: reassembling this descriptor yields a
    /// serialized record; continue with `extract_resume`.
    FetchWrapped(ChunkMap),
    /// The innermost descriptor, already decrypted and decoded:
    /// reassembling it yields the original raw payload.
    FetchContent(ChunkMap),
}

/// Mathematical model of an `ExtractStep`.
pub enum ExtractStepModel {
    FetchWrapped(ChunkMapModel),
    FetchContent(ChunkMapModel),
}

impl View for ExtractStep {
    type V = ExtractStepModel;

    open spec fn view(&self) -> ExtractStepModel {
        match self {
            ExtractStep::FetchWrapped(m) => ExtractStepModel::FetchWrapped(m@),
            ExtractStep::FetchContent(m) => ExtractStepModel::FetchContent(m@),
        }
    }
}

/// What unpacking one record yields.
pub open spec fn spec_unpack(
    r: ChunkRecordModel,
) -> Result<UnpackStepModel, CoreError> {
    match parse_encoding(r.payload) {
        Some(EncodingModel::Literal(b)) => Ok(UnpackStepModel::Done(b)),
        Some(EncodingModel::Descriptor(m)) => Ok(
            UnpackStepModel::NeedsReassembly(m),
        ),
        None => Err(CoreError::DecodeError),
    }
}

/// What resuming the unpack walk on reassembled bytes yields: the bytes
/// must parse as a record of the expected visibility, which is then
/// unpacked.
pub open spec fn spec_unpack_resume(
    b: Seq<u8>,
    expected: VisibilityModel,
) -> Result<UnpackStepModel, CoreError> {
    match parse_record(b) {
        Some(rec) => if rec.visibility == expected {
            spec_unpack(rec)
        } else {
            Err(CoreError::VisibilityMismatch)
        },
        None => Err(CoreError::DecodeError),
    }
}

/// What opening the innermost literal yields: decrypt exactly when a key
/// is supplied, then parse the serialized descriptor.
pub open spec fn spec_extract_literal(
    b: Seq<u8>,
    key: Option<Seq<u8>>,
) -> Result<ChunkMapModel, CoreError> {
    match key {
        Some(k) => match spec_decrypt(b, k) {
            Some(plain) => match parse_map(plain) {
                Some(m) => Ok(m),
                None => Err(CoreError::DecodeError),
            },
            None => Err(CoreError::DecryptError),
        },
        None => match parse_map(b) {
            Some(m) => Ok(m),
            None => Err(CoreError::DecodeError),
        },
    }
}

/// What one extraction step on a record yields.
pub open spec fn spec_extract_value(
    r: ChunkRecordModel,
    key: Option<Seq<u8>>,
) -> Result<ExtractStepModel, CoreError> {
    match spec_unpack(r) {
        Ok(UnpackStepModel::Done(lit)) => match spec_extract_literal(
            lit,
            key,
        ) {
            Ok(m) => Ok(ExtractStepModel::FetchContent(m)),
            Err(e) => Err(e),
        },
        Ok(UnpackStepModel::NeedsReassembly(m)) => Ok(
            ExtractStepModel::FetchWrapped(m),
        ),
        Err(e) => Err(e),
    }
}

/// What one extraction step on reassembled bytes yields.
pub open spec fn spec_extract_resume(
    b: Seq<u8>,
    expected: VisibilityModel,
    key: Option<Seq<u8>>,
) -> Result<ExtractStepModel, CoreError> {
    match spec_unpack_resume(b, expected) {
        Ok(UnpackStepModel::Done(lit)) => match spec_extract_literal(
            lit,
            key,
        ) {
            Ok(m) => Ok(ExtractStepModel::FetchContent(m)),
            Err(e) => Err(e),
        },
        Ok(UnpackStepModel::NeedsReassembly(m)) => Ok(
            ExtractStepModel::FetchWrapped(m),
        ),
        Err(e) => Err(e),
    }
}

/// Decodes one record's payload; a held descriptor is handed back for
/// reassembly.
pub fn unpack(record: &ChunkRecord) -> (r: Result<UnpackStep, CoreError>)
    ensures
        match r {
            Ok(s) => spec_unpack(record@) == Ok::<
                UnpackStepModel,
                CoreError,
            >(s@) && (s@ matches UnpackStepModel::NeedsReassembly(m)
                ==> map_wf(m)),
            Err(e) => spec_unpack(record@) == Err::<
                UnpackStepModel,
                CoreError,
            >(e),
        },
{
    match decode(record.payload.as_slice()) {
        Ok(Encoding::Literal(b)) => Ok(UnpackStep::Done(b)),
        Ok(Encoding::Descriptor(m)) => Ok(UnpackStep::NeedsReassembly(m)),
        Err(e) => Err(e),
    }
}

/// Resumes the unpack walk on reassembled bytes: they must be a record of
/// the expected visibility, which is then unpacked in turn.
pub fn unpack_resume(b: &[u8], expected: &Visibility) -> (r: Result<
    UnpackStep,
    CoreError,
>)
    ensures
        match r {
            Ok(s) => spec_unpack_resume(b@, expected@) == Ok::<
                UnpackStepModel,
                CoreError,
            >(s@) && (s@ matches UnpackStepModel::NeedsReassembly(m)
                ==> map_wf(m)),
            Err(e) => spec_unpack_resume(b@, expected@) == Err::<
                UnpackStepModel,
                CoreError,
            >(e),
        },
{
    let record = match deserialize_record(b) {
        Ok(rec) => rec,
        Err(e) => {
            return Err(e);
        },
    };
    if !visibility_matches(&record.visibility, expected) {
        return Err(CoreError::VisibilityMismatch);
    }
    unpack(&record)
}

/// Opens the innermost literal under the caller's optional key.
pub fn extract_literal(b: &[u8], decryption_key: Option<&Vec<u8>>) -> (r:
    Result<ChunkMap, CoreError>)
    requires
        crate::crypt::key_ok(key_view(decryption_key)),
    ensures
        match r {
            Ok(m) => spec_extract_literal(b@, key_view(decryption_key)) == Ok::<
                ChunkMapModel,
                CoreError,
            >(m@) && map_wf(m@),
            Err(e) => spec_extract_literal(b@, key_view(decryption_key))
                == Err::<ChunkMapModel, CoreError>(e),
        },
{
    match decryption_key {
        Some(key) => {
            let plain = match crate::crypt::symmetric_decrypt(
                b,
                key.as_slice(),
            ) {
                Ok(p) => p,
                Err(e) => {
                    return Err(e);
                },
            };
            crate::chunk_map::deserialize_map(plain.as_slice())
        },
        None => crate::chunk_map::deserialize_map(b),
    }
}

/// One extraction step on a fetched record: unpack it, and open the
/// literal when the walk has reached it.
pub fn extract_value(
    record: &ChunkRecord,
    decryption_key: Option<&Vec<u8>>,
) -> (r: Result<ExtractStep, CoreError>)
    requires
        crate::crypt::key_ok(key_view(decryption_key)),
    ensures
        match r {
            Ok(s) => spec_extract_value(record@, key_view(decryption_key))
                == Ok::<ExtractStepModel, CoreError>(s@) && (s@ matches
            ExtractStepModel::FetchWrapped(m) ==> map_wf(m)) && (s@ matches
            ExtractStepModel::FetchContent(m) ==> map_wf(m)),
            Err(e) => spec_extract_value(record@, key_view(decryption_key))
                == Err::<ExtractStepModel, CoreError>(e),
        },
{
    match unpack(record) {
        Ok(UnpackStep::Done(lit)) => match extract_literal(
            lit.as_slice(),
            decryption_key,
        ) {
            Ok(m) => Ok(ExtractStep::FetchContent(m)),
            Err(e) => Err(e),
        },
        Ok(UnpackStep::NeedsReassembly(m)) => Ok(ExtractStep::FetchWrapped(m)),
        Err(e) => Err(e),
    }
}

/// One extraction step on reassembled bytes: parse and unpack the record
/// they hold, insisting on the top-level visibility.
pub fn extract_resume(
    b: &[u8],
    expected: &Visibility,
    decryption_key: Option<&Vec<u8>>,
) -> (r: Result<ExtractStep, CoreError>)
    requires
        crate::crypt::key_ok(key_view(decryption_key)),
    ensures
        match r {
            Ok(s) => spec_extract_resume(
                b@,
                expected@,
                key_view(decryption_key),
            ) == Ok::<ExtractStepModel, CoreError>(s@) && (s@ matches
            ExtractStepModel::FetchWrapped(m) ==> map_wf(m)) && (s@ matches
            ExtractStepModel::FetchContent(m) ==> map_wf(m)),
            Err(e) => spec_extract_resume(
                b@,
                expected@,
                key_view(decryption_key),
            ) == Err::<ExtractStepModel, CoreError>(e),
        },
{
    match unpack_resume(b, expected) {
        Ok(UnpackStep::Done(lit)) => match extract_literal(
            lit.as_slice(),
            decryption_key,
        ) {
            Ok(m) => Ok(ExtractStep::FetchContent(m)),
            Err(e) => Err(e),
        },
        Ok(UnpackStep::NeedsReassembly(m)) => Ok(ExtractStep::FetchWrapped(m)),
        Err(e) => Err(e),
    }
}

} // verus!
