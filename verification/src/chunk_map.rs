//! The reassembly descriptor ("chunk map") and its wire form.
//!
//! The content encryptor describes how a byte stream was split into
//! encrypted chunks; the engine only carries that description around, so
//! the map holds plain values: either nothing, inline content, or the hash
//! and size of each stored chunk.  The serialization here is the exact
//! byte form in which a map travels inside a tagged encoding, and it is
//! strict: trailing or truncated bytes are a decode failure, never a
//! default value.

use crate::errors::CoreError;
use vstd::bytes::*;
use vstd::prelude::*;

verus! {

/// Number of bytes of a stored chunk's content hash.
pub const CHUNK_HASH_LEN: usize = 32;

/// What a chunk map records of one stored chunk.
#[derive(Debug)]
pub struct ChunkInfo {
    /// Content hash of the stored chunk; always `CHUNK_HASH_LEN` bytes.
    pub hash: Vec<u8>,
    /// Length in bytes of the chunk's plaintext slice of the stream.
    pub size: u64,
}

/// Mathematical model of a `ChunkInfo`.
pub struct ChunkInfoModel {
    pub hash: Seq<u8>,
    pub size: u64,
}

impl View for ChunkInfo {
    type V = ChunkInfoModel;

    open spec fn view(&self) -> ChunkInfoModel {
        ChunkInfoModel { hash: self.hash@, size: self.size }
    }
}

/// The reassembly descriptor a content encryptor hands back.
#[derive(Debug)]
pub enum ChunkMap {
    /// No content at all.
    Empty,
    /// The stream was small enough to keep inline.
    Content(Vec<u8>),
    /// The stream lives in stored chunks, one entry each.
    Chunks(Vec<ChunkInfo>),
}

/// Mathematical model of a `ChunkMap`.
pub enum ChunkMapModel {
    Empty,
    Content(Seq<u8>),
    Chunks(Seq<ChunkInfoModel>),
}

impl View for ChunkMap {
    type V = ChunkMapModel;

    open spec fn view(&self) -> ChunkMapModel {
        match self {
            ChunkMap::Empty => ChunkMapModel::Empty,
            ChunkMap::Content(b) => ChunkMapModel::Content(b@),
            ChunkMap::Chunks(v) => ChunkMapModel::Chunks(
                v@.map_values(|c: ChunkInfo| c@),
            ),
        }
    }
}

/// A chunk entry is well formed when its hash has the fixed length.
pub open spec fn info_wf(c: ChunkInfoModel) -> bool {
    c.hash.len() == CHUNK_HASH_LEN
}

/// A chunk map is well formed when every entry is.
pub open spec fn map_wf(m: ChunkMapModel) -> bool {
    match m {
        ChunkMapModel::Chunks(v) => forall|i: int|
            0 <= i < v.len() ==> info_wf(#[trigger] v[i]),
        _ => true,
    }
}

/// Wire form of one chunk entry: the hash, then the size in little-endian
/// bytes.
pub open spec fn ser_info(c: ChunkInfoModel) -> Seq<u8> {
    c.hash + spec_u64_to_le_bytes(c.size)
}

/// Wire form of a run of chunk entries, in order.
pub open spec fn ser_infos(v: Seq<ChunkInfoModel>) -> Seq<u8>
    decreases v.len(),
{
    if v.len() == 0 {
        Seq::empty()
    } else {
        ser_infos(v.drop_last()) + ser_info(v.last())
    }
}

/// Wire form of a chunk map: a tag byte, then the variant's body.
pub open spec fn ser_map(m: ChunkMapModel) -> Seq<u8> {
    match m {
        ChunkMapModel::Empty => seq![0u8],
        ChunkMapModel::Content(b) => seq![1u8] + b,
        ChunkMapModel::Chunks(v) => seq![2u8] + ser_infos(v),
    }
}

/// Strict parse of a run of chunk entries: every entry takes exactly
/// `CHUNK_HASH_LEN + 8` bytes and nothing may be left over.
pub open spec fn parse_infos(b: Seq<u8>) -> Option<Seq<ChunkInfoModel>>
    decreases b.len(),
{
    if b.len() == 0 {
        Some(Seq::empty())
    } else if b.len() < 40 {
        None
    } else {
        match parse_infos(b.take(b.len() - 40)) {
            Some(v) => Some(
                v.push(
                    ChunkInfoModel {
                        hash: b.subrange(b.len() - 40, b.len() - 8),
                        size: spec_u64_from_le_bytes(
                            b.subrange(b.len() - 8, b.len() as int),
                        ),
                    },
                ),
            ),
            None => None,
        }
    }
}

/// Strict parse of a chunk map; `None` on malformed or truncated bytes.
pub open spec fn parse_map(b: Seq<u8>) -> Option<ChunkMapModel> {
    if b.len() == 0 {
        None
    } else if b[0] == 0u8 {
        if b.len() == 1 {
            Some(ChunkMapModel::Empty)
        } else {
            None
        }
    } else if b[0] == 1u8 {
        Some(ChunkMapModel::Content(b.skip(1)))
    } else if b[0] == 2u8 {
        match parse_infos(b.skip(1)) {
            Some(v) => Some(ChunkMapModel::Chunks(v)),
            None => None,
        }
    } else {
        None
    }
}

/// The wire form of a well-formed entry run is forty bytes per entry.
pub proof fn lemma_ser_infos_len(v: Seq<ChunkInfoModel>)
    requires
        forall|i: int| 0 <= i < v.len() ==> info_wf(#[trigger] v[i]),
    ensures
        ser_infos(v).len() == 40 * v.len(),
    decreases v.len(),
{
    if v.len() > 0 {
        lemma_ser_infos_len(v.drop_last());
        vstd::bytes::lemma_auto_spec_u64_to_from_le_bytes();
    }
}

/// Parsing undoes serializing for entry runs.
pub proof fn lemma_infos_round_trip(v: Seq<ChunkInfoModel>)
    requires
        forall|i: int| 0 <= i < v.len() ==> info_wf(#[trigger] v[i]),
    ensures
        parse_infos(ser_infos(v)) == Some(v),
    decreases v.len(),
{
    lemma_auto_spec_u64_to_from_le_bytes();
    if v.len() > 0 {
        lemma_infos_round_trip(v.drop_last());
        lemma_ser_infos_len(v.drop_last());
        lemma_ser_infos_len(v);
        let b = ser_infos(v);
        assert(b.take(b.len() - 40) =~= ser_infos(v.drop_last()));
        assert(b.subrange(b.len() - 40, b.len() - 8) =~= v.last().hash);
        assert(b.subrange(b.len() - 8, b.len() as int) =~= spec_u64_to_le_bytes(
            v.last().size,
        ));
        assert(v.drop_last().push(v.last()) =~= v);
    }
}

/// Parsing undoes serializing for whole chunk maps.
pub proof fn lemma_map_round_trip(m: ChunkMapModel)
    requires
        map_wf(m),
    ensures
        parse_map(ser_map(m)) == Some(m),
{
    match m {
        ChunkMapModel::Empty => {},
        ChunkMapModel::Content(b) => {
            assert((seq![1u8] + b).skip(1) =~= b);
        },
        ChunkMapModel::Chunks(v) => {
            lemma_infos_round_trip(v);
            assert((seq![2u8] + ser_infos(v)).skip(1) =~= ser_infos(v));
        },
    }
}

/// Every parsed chunk map is well formed.
pub proof fn lemma_parse_infos_wf(b: Seq<u8>)
    ensures
        parse_infos(b) matches Some(v) ==> forall|i: int|
            0 <= i < v.len() ==> info_wf(#[trigger] v[i]),
    decreases b.len(),
{
    if b.len() >= 40 {
        lemma_parse_infos_wf(b.take(b.len() - 40));
    }
}

/// An entry run parses exactly when its length is a whole number of
/// forty-byte entries.
pub proof fn lemma_parse_infos_total(b: Seq<u8>)
    ensures
        (parse_infos(b) is Some) <==> b.len() % 40 == 0,
    decreases b.len(),
{
    if b.len() >= 40 {
        lemma_parse_infos_total(b.take(b.len() - 40));
        let n = b.len() as int;
        assert((n - 40) % 40 == n % 40) by (nonlinear_arith)
            requires
                n >= 40,
        ;
    }
}

/// Appends the bytes of a slice to a growing buffer.
pub fn push_bytes(out: &mut Vec<u8>, b: &[u8])
    ensures
        final(out)@ == old(out)@ + b@,
{
    let mut i: usize = 0;
    while i < b.len()
        invariant
            i <= b.len(),
            out@ == old(out)@ + b@.take(i as int),
        decreases b.len() - i,
    {
        out.push(b[i]);
        assert(b@.take(i as int).push(b@[i as int]) =~= b@.take(i + 1));
        i = i + 1;
    }
    assert(b@.take(b.len() as int) =~= b@);
}

/// Serializes a chunk map into its strict wire form.
pub fn serialize_map(m: &ChunkMap) -> (r: Vec<u8>)
    requires
        map_wf(m@),
    ensures
        r@ == ser_map(m@),
{
    match m {
        ChunkMap::Empty => {
            let mut out: Vec<u8> = Vec::new();
            out.push(0u8);
            assert(out@ =~= seq![0u8]);
            out
        },
        ChunkMap::Content(b) => {
            let mut out: Vec<u8> = Vec::new();
            out.push(1u8);
            push_bytes(&mut out, b.as_slice());
            assert(out@ =~= seq![1u8] + b@);
            out
        },
        ChunkMap::Chunks(v) => {
            let ghost vm = v@.map_values(|c: ChunkInfo| c@);
            let mut out: Vec<u8> = Vec::new();
            out.push(2u8);
            assert(out@ =~= seq![2u8] + ser_infos(vm.take(0)));
            let mut i: usize = 0;
            while i < v.len()
                invariant
                    i <= v.len(),
                    vm == v@.map_values(|c: ChunkInfo| c@),
                    vm.len() == v.len(),
                    out@ == seq![2u8] + ser_infos(vm.take(i as int)),
                decreases v.len() - i,
            {
                push_bytes(&mut out, v[i].hash.as_slice());
                let size_bytes = u64_to_le_bytes(v[i].size);
                push_bytes(&mut out, size_bytes.as_slice());
                proof {
                    assert(vm.take(i + 1).drop_last() =~= vm.take(i as int));
                    assert(vm.take(i + 1).last() == vm[i as int]);
                    assert(out@ =~= seq![2u8] + ser_infos(vm.take(i + 1)));
                }
                i = i + 1;
            }
            assert(vm.take(v.len() as int) =~= vm);
            out
        },
    }
}

/// Parses a chunk map from its strict wire form; fails closed with
/// `DecodeError` on anything malformed.
pub fn deserialize_map(b: &[u8]) -> (r: Result<ChunkMap, CoreError>)
    ensures
        match r {
            Ok(m) => parse_map(b@) == Some(m@) && map_wf(m@),
            Err(e) => parse_map(b@) is None && e == CoreError::DecodeError,
        },
{
    if b.len() == 0 {
        return Err(CoreError::DecodeError);
    }
    let tag = b[0];
    if tag == 0u8 {
        if b.len() == 1 {
            Ok(ChunkMap::Empty)
        } else {
            Err(CoreError::DecodeError)
        }
    } else if tag == 1u8 {
        let content = vstd::slice::slice_to_vec(
            vstd::slice::slice_subrange(b, 1, b.len()),
        );
        assert(content@ =~= b@.skip(1));
        Ok(ChunkMap::Content(content))
    } else if tag == 2u8 {
        let body_len = b.len() - 1;
        proof {
            lemma_parse_infos_total(b@.skip(1));
        }
        if body_len % 40 != 0 {
            return Err(CoreError::DecodeError);
        }
        let mut infos: Vec<ChunkInfo> = Vec::new();
        let mut pos: usize = 1;
        proof {
            assert(b@.skip(1).take(0) =~= Seq::<u8>::empty());
        }
        while pos < b.len()
            invariant
                1 <= pos <= b.len(),
                (pos - 1) % 40 == 0,
                (b@.len() - 1) % 40 == 0,
                parse_infos(b@.subrange(1, pos as int)) == Some(
                    infos@.map_values(|c: ChunkInfo| c@),
                ),
            decreases b.len() - pos,
        {
            proof {
                let d = b.len() - pos;
                assert(d % 40 == 0) by (nonlinear_arith)
                    requires
                        (b@.len() - 1) % 40 == 0,
                        (pos - 1) % 40 == 0,
                        d == b@.len() - pos,
                ;
                assert(d >= 40) by (nonlinear_arith)
                    requires
                        d % 40 == 0,
                        d > 0,
                ;
            }
            let hash = vstd::slice::slice_to_vec(
                vstd::slice::slice_subrange(b, pos, pos + 32),
            );
            let size = u64_from_le_bytes(
                vstd::slice::slice_subrange(b, pos + 32, pos + 40),
            );
            infos.push(ChunkInfo { hash, size });
            proof {
                let prefix = b@.subrange(1, pos + 40);
                assert(prefix.take(prefix.len() - 40) =~= b@.subrange(
                    1,
                    pos as int,
                ));
                assert(prefix.subrange(prefix.len() - 40, prefix.len() - 8)
                    =~= b@.subrange(pos as int, pos + 32));
                assert(prefix.subrange(prefix.len() - 8, prefix.len() as int)
                    =~= b@.subrange(pos + 32, pos + 40));
                assert(infos@.map_values(|c: ChunkInfo| c@) =~= infos@
                    .drop_last()
                    .map_values(|c: ChunkInfo| c@)
                    .push(infos@.last()@));
                assert((pos + 40 - 1) % 40 == 0) by (nonlinear_arith)
                    requires
                        (pos - 1) % 40 == 0,
                ;
            }
            pos = pos + 40;
        }
        proof {
            assert(b@.subrange(1, b@.len() as int) =~= b@.skip(1));
        }
        let r = ChunkMap::Chunks(infos);
        proof {
            lemma_parse_infos_wf(b@.skip(1));
        }
        Ok(r)
    } else {
        Err(CoreError::DecodeError)
    }
}

} // verus!
