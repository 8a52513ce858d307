//! The tagged encoding: the two-variant, self-describing wire format that
//! stands in every chunk record's payload.
//!
//! `Literal` marks a buffer as the final content (already encrypted when a
//! key was supplied at creation); `Descriptor` marks it as a reassembly
//! descriptor whose dereference yields another tagged encoding.  Decoding
//! is strict and fails closed: malformed or truncated input is a
//! `DecodeError`, never a default value.

use crate::chunk_map::{
    map_wf, parse_map, ser_map, ChunkMap, ChunkMapModel, deserialize_map,
    serialize_map, push_bytes, lemma_map_round_trip,
};
use crate::errors::CoreError;
use vstd::prelude::*;

verus! {

/// One level of the recursive self-description scheme.
#[derive(Debug)]
pub enum Encoding {
    /// The buffer is the final (possibly encrypted) content.
    Literal(Vec<u8>),
    /// The buffer describes how to reassemble a larger buffer.
    Descriptor(ChunkMap),
}

/// Mathematical model of an `Encoding`.
pub enum EncodingModel {
    Literal(Seq<u8>),
    Descriptor(ChunkMapModel),
}

impl View for Encoding {
    type V = EncodingModel;

    open spec fn view(&self) -> EncodingModel {
        match self {
            Encoding::Literal(b) => EncodingModel::Literal(b@),
            Encoding::Descriptor(m) => EncodingModel::Descriptor(m@),
        }
    }
}

/// A model encoding is well formed when a held descriptor is.
pub open spec fn encoding_wf(e: EncodingModel) -> bool {
    match e {
        EncodingModel::Literal(_) => true,
        EncodingModel::Descriptor(m) => map_wf(m),
    }
}

/// Wire form of an encoding: a variant tag, then the variant's body.
pub open spec fn ser_encoding(e: EncodingModel) -> Seq<u8> {
    match e {
        EncodingModel::Literal(b) => seq![0u8] + b,
        EncodingModel::Descriptor(m) => seq![1u8] + ser_map(m),
    }
}

/// Strict parse of an encoding; `None` on malformed or truncated bytes.
pub open spec fn parse_encoding(b: Seq<u8>) -> Option<EncodingModel> {
    if b.len() == 0 {
        None
    } else if b[0] == 0u8 {
        Some(EncodingModel::Literal(b.skip(1)))
    } else if b[0] == 1u8 {
        match parse_map(b.skip(1)) {
            Some(m) => Some(EncodingModel::Descriptor(m)),
            None => None,
        }
    } else {
        None
    }
}

/// Wraps final content bytes as a tagged literal.
pub fn encode_literal(b: &Vec<u8>) -> (out: Vec<u8>)
    ensures
        out@ == ser_encoding(EncodingModel::Literal(b@)),
{
    let mut out: Vec<u8> = Vec::new();
    out.push(0u8);
    push_bytes(&mut out, b.as_slice());
    assert(out@ =~= seq![0u8] + b@);
    out
}

/// Wraps a reassembly descriptor as a tagged descriptor.
pub fn encode_descriptor(m: &ChunkMap) -> (out: Vec<u8>)
    requires
        map_wf(m@),
    ensures
        out@ == ser_encoding(EncodingModel::Descriptor(m@)),
{
    let body = serialize_map(m);
    let mut out: Vec<u8> = Vec::new();
    out.push(1u8);
    push_bytes(&mut out, body.as_slice());
    assert(out@ =~= seq![1u8] + ser_map(m@));
    out
}

/// Decodes one level of the tagged encoding; fails closed with
/// `DecodeError` on anything malformed.
pub fn decode(b: &[u8]) -> (r: Result<Encoding, CoreError>)
    ensures
        match r {
            Ok(e) => parse_encoding(b@) == Some(e@) && encoding_wf(e@),
            Err(err) => parse_encoding(b@) is None && err
                == CoreError::DecodeError,
        },
{
    if b.len() == 0 {
        return Err(CoreError::DecodeError);
    }
    let tag = b[0];
    if tag == 0u8 {
        let content = vstd::slice::slice_to_vec(
            vstd::slice::slice_subrange(b, 1, b.len()),
        );
        assert(content@ =~= b@.skip(1));
        Ok(Encoding::Literal(content))
    } else if tag == 1u8 {
        let body = vstd::slice::slice_subrange(b, 1, b.len());
        assert(body@ =~= b@.skip(1));
        match deserialize_map(body) {
            Ok(m) => Ok(Encoding::Descriptor(m)),
            Err(e) => Err(e),
        }
    } else {
        Err(CoreError::DecodeError)
    }
}

/// Decoding undoes encoding: a literal comes back as the same literal.
pub proof fn lemma_decode_encode_literal(b: Seq<u8>)
    ensures
        parse_encoding(ser_encoding(EncodingModel::Literal(b))) == Some(
            EncodingModel::Literal(b),
        ),
{
    assert((seq![0u8] + b).skip(1) =~= b);
}

/// Decoding undoes encoding: a descriptor comes back as the same
/// descriptor.
pub proof fn lemma_decode_encode_descriptor(m: ChunkMapModel)
    requires
        map_wf(m),
    ensures
        parse_encoding(ser_encoding(EncodingModel::Descriptor(m))) == Some(
            EncodingModel::Descriptor(m),
        ),
{
    lemma_map_round_trip(m);
    assert((seq![1u8] + ser_map(m)).skip(1) =~= ser_map(m));
}

} // verus!
