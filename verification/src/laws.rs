//! The properties that hold across the engines, proved once and for all.
//!
//! Packing and extraction are loops driven by an external content
//! encryptor, so the round trip is stated per wrap level: one lemma for
//! the finished record, one for each intermediate descriptor hop, and one
//! for the hop back into the literal.  Chained along any number of hops
//! they give the full round trip for every payload, visibility and
//! optional key.

use crate::chunk_map::{
    lemma_map_round_trip, map_wf, parse_map, ser_map, ChunkMapModel,
};
use crate::codec::{
    lemma_decode_encode_descriptor, lemma_decode_encode_literal,
    ser_encoding, EncodingModel,
};
use crate::crypt::{lemma_encrypt_round_trip, spec_encrypt};
use crate::errors::CoreError;
use crate::pack::{
    literal_payload, spec_create, spec_pack, PackStepModel,
};
use crate::record::{
    lemma_record_round_trip, record_fits, ser_record, vis_wf,
    ChunkRecordModel, VisibilityModel,
};
use crate::unpack::{
    spec_extract_literal, spec_extract_resume, spec_extract_value,
    spec_unpack_resume, ExtractStepModel, UnpackStepModel,
};
use vstd::prelude::*;

verus! {

/// Opening the literal bytes that `create` wrapped, under the key that
/// wrapped them, gives the descriptor back — for both the keyed and the
/// keyless wrap.
pub proof fn lemma_literal_round_trip(m: ChunkMapModel, key: Option<Seq<u8>>)
    requires
        map_wf(m),
    ensures
        spec_extract_literal(literal_payload(m, key), key) == Ok::<
            ChunkMapModel,
            CoreError,
        >(m),
{
    lemma_map_round_trip(m);
    match key {
        Some(k) => {
            lemma_encrypt_round_trip(ser_map(m), k);
        },
        None => {},
    }
}

/// Round trip, final level: when `create` (or `pack_resume` after its
/// recursion) finished with a literal-wrapped record, one extraction step
/// on that record yields the original descriptor, under the same key.
pub proof fn lemma_create_extract_round_trip(
    m: ChunkMapModel,
    vis: VisibilityModel,
    key: Option<Seq<u8>>,
)
    requires
        map_wf(m),
    ensures
        spec_create(m, vis, key) matches PackStepModel::Done(rec)
            ==> spec_extract_value(rec, key) == Ok::<
            ExtractStepModel,
            CoreError,
        >(ExtractStepModel::FetchContent(m)),
{
    let lp = literal_payload(m, key);
    lemma_decode_encode_literal(lp);
    lemma_literal_round_trip(m, key);
}

/// Round trip, oversized first wrap: when `create`'s literal-wrapped
/// record was oversized and handed out for chunking, resuming extraction
/// on the bytes the encryptor later reassembles (those very serialized
/// record bytes) yields the original descriptor, under the same key.
pub proof fn lemma_create_oversized_round_trip(
    m: ChunkMapModel,
    vis: VisibilityModel,
    key: Option<Seq<u8>>,
)
    requires
        map_wf(m),
        vis_wf(vis),
    ensures
        spec_create(m, vis, key) matches PackStepModel::NeedsChunking(b)
            ==> spec_extract_resume(b, vis, key) == Ok::<
            ExtractStepModel,
            CoreError,
        >(ExtractStepModel::FetchContent(m)),
{
    let lp = literal_payload(m, key);
    let rec = ChunkRecordModel {
        visibility: vis,
        payload: ser_encoding(EncodingModel::Literal(lp)),
    };
    lemma_record_round_trip(rec);
    lemma_decode_encode_literal(lp);
    lemma_literal_round_trip(m, key);
}

/// Round trip, finished descriptor hop: a record that `pack_resume`
/// finished unpacks to the very descriptor that was wrapped, whatever key
/// the extraction carries.
pub proof fn lemma_pack_resume_extract(
    m2: ChunkMapModel,
    vis: VisibilityModel,
    key: Option<Seq<u8>>,
)
    requires
        map_wf(m2),
    ensures
        spec_pack(ser_encoding(EncodingModel::Descriptor(m2)), vis) matches
            PackStepModel::Done(rec) ==> spec_extract_value(rec, key) == Ok::<
            ExtractStepModel,
            CoreError,
        >(ExtractStepModel::FetchWrapped(m2)),
{
    lemma_decode_encode_descriptor(m2);
}

/// Round trip, oversized descriptor hop: when `pack_resume`'s candidate
/// was itself oversized and handed out for chunking, resuming the walk on
/// the reassembled bytes yields that same descriptor and keeps the
/// top-level visibility.
pub proof fn lemma_pack_resume_oversized_unpack(
    m2: ChunkMapModel,
    vis: VisibilityModel,
)
    requires
        map_wf(m2),
        vis_wf(vis),
    ensures
        spec_pack(ser_encoding(EncodingModel::Descriptor(m2)), vis) matches
            PackStepModel::NeedsChunking(b) ==> spec_unpack_resume(b, vis)
            == Ok::<UnpackStepModel, CoreError>(
            UnpackStepModel::NeedsReassembly(m2),
        ),
{
    let rec = ChunkRecordModel {
        visibility: vis,
        payload: ser_encoding(EncodingModel::Descriptor(m2)),
    };
    lemma_record_round_trip(rec);
    lemma_decode_encode_descriptor(m2);
}

/// The candidate payload at wrap level `i` of a packing run: the tagged
/// literal at the bottom, and above it the tagged descriptor of the hop
/// below.
pub open spec fn level_payload(
    m: ChunkMapModel,
    key: Option<Seq<u8>>,
    hops: Seq<ChunkMapModel>,
    i: int,
) -> Seq<u8> {
    if i == 0 {
        ser_encoding(EncodingModel::Literal(literal_payload(m, key)))
    } else {
        ser_encoding(EncodingModel::Descriptor(hops[i - 1]))
    }
}

/// The candidate record at wrap level `i` of a packing run.
pub open spec fn level_record(
    m: ChunkMapModel,
    vis: VisibilityModel,
    key: Option<Seq<u8>>,
    hops: Seq<ChunkMapModel>,
    i: int,
) -> ChunkRecordModel {
    ChunkRecordModel { visibility: vis, payload: level_payload(m, key, hops, i) }
}

/// A packing run driven to completion: at each level the candidate either
/// fits, closing the run with no hops left, or its serialized bytes go to
/// the encryptor, whose answer is the next hop.
pub open spec fn pack_run(
    m: ChunkMapModel,
    vis: VisibilityModel,
    key: Option<Seq<u8>>,
    hops: Seq<ChunkMapModel>,
    i: int,
) -> bool
    decreases hops.len() - i,
{
    if i < 0 || i > hops.len() {
        false
    } else {
        match spec_pack(level_payload(m, key, hops, i), vis) {
            PackStepModel::Done(_) => i == hops.len(),
            PackStepModel::NeedsChunking(_) => i < hops.len() && pack_run(
                m,
                vis,
                key,
                hops,
                i + 1,
            ),
        }
    }
}

/// Round trip, whole walk: however many descriptor hops a packing run
/// took, the extraction walk undoes them one for one.  When the content
/// encryptor faithfully reassembles each hop to the bytes it was given —
/// which at hop `i` are the serialized level-`i` record — the walk steps
/// from the finished record through `FetchWrapped` of every hop, top
/// down, to `FetchContent` of the original descriptor, under the same
/// key.
pub proof fn lemma_round_trip_every_hop(
    m: ChunkMapModel,
    vis: VisibilityModel,
    key: Option<Seq<u8>>,
    hops: Seq<ChunkMapModel>,
)
    requires
        map_wf(m),
        vis_wf(vis),
        forall|i: int| 0 <= i < hops.len() ==> map_wf(#[trigger] hops[i]),
        pack_run(m, vis, key, hops, 0),
    ensures
        spec_pack(level_payload(m, key, hops, hops.len() as int), vis)
            == PackStepModel::Done(
            level_record(m, vis, key, hops, hops.len() as int),
        ),
        record_fits(level_record(m, vis, key, hops, hops.len() as int)),
        hops.len() == 0 ==> spec_extract_value(
            level_record(m, vis, key, hops, 0),
            key,
        ) == Ok::<ExtractStepModel, CoreError>(
            ExtractStepModel::FetchContent(m),
        ),
        hops.len() > 0 ==> spec_extract_value(
            level_record(m, vis, key, hops, hops.len() as int),
            key,
        ) == Ok::<ExtractStepModel, CoreError>(
            ExtractStepModel::FetchWrapped(hops.last()),
        ),
        forall|i: int| 1 <= i < hops.len() ==> spec_extract_resume(
            ser_record(level_record(m, vis, key, hops, i)),
            vis,
            key,
        ) == Ok::<ExtractStepModel, CoreError>(
            ExtractStepModel::FetchWrapped(hops[i - 1]),
        ),
        hops.len() > 0 ==> spec_extract_resume(
            ser_record(level_record(m, vis, key, hops, 0)),
            vis,
            key,
        ) == Ok::<ExtractStepModel, CoreError>(
            ExtractStepModel::FetchContent(m),
        ),
{
    lemma_pack_run_closes(m, vis, key, hops, 0);
    let n = hops.len() as int;
    if n == 0 {
        lemma_create_extract_round_trip(m, vis, key);
        assert(spec_create(m, vis, key) == spec_pack(
            level_payload(m, key, hops, 0),
            vis,
        ));
    } else {
        lemma_pack_resume_extract(hops.last(), vis, key);
        assert forall|i: int| 1 <= i < n implies spec_extract_resume(
            ser_record(level_record(m, vis, key, hops, i)),
            vis,
            key,
        ) == Ok::<ExtractStepModel, CoreError>(
            ExtractStepModel::FetchWrapped(hops[i - 1]),
        ) by {
            let rec = level_record(m, vis, key, hops, i);
            lemma_record_round_trip(rec);
            lemma_decode_encode_descriptor(hops[i - 1]);
        }
        let rec0 = level_record(m, vis, key, hops, 0);
        lemma_record_round_trip(rec0);
        lemma_decode_encode_literal(literal_payload(m, key));
        lemma_literal_round_trip(m, key);
    }
}

/// A packing run that holds from level `i` ends with the last candidate
/// fitting.
proof fn lemma_pack_run_closes(
    m: ChunkMapModel,
    vis: VisibilityModel,
    key: Option<Seq<u8>>,
    hops: Seq<ChunkMapModel>,
    i: int,
)
    requires
        pack_run(m, vis, key, hops, i),
    ensures
        spec_pack(level_payload(m, key, hops, hops.len() as int), vis)
            == PackStepModel::Done(
            level_record(m, vis, key, hops, hops.len() as int),
        ),
        record_fits(level_record(m, vis, key, hops, hops.len() as int)),
    decreases hops.len() - i,
{
    if i < hops.len() {
        match spec_pack(level_payload(m, key, hops, i), vis) {
            PackStepModel::Done(_) => {},
            PackStepModel::NeedsChunking(_) => {
                lemma_pack_run_closes(m, vis, key, hops, i + 1);
            },
        }
    }
}

/// Key mismatch fails closed, keyed data opened keyless: the literal
/// bytes of a keyed creation never parse as a descriptor, because
/// ciphertext opens with a byte no serialized chunk map opens with.
/// Keyless data opened with a key fails closed the same way, as
/// decryption insists on that byte.  (A wrong — rather than absent — key
/// is rejected by the authenticator check, stated in `spec_decrypt`;
/// that two keys authenticate the same bytes is a collision of the
/// authenticator, which no logical argument rules out.)
pub proof fn lemma_key_mismatch_fails_closed(
    m: ChunkMapModel,
    vis: VisibilityModel,
    k: Seq<u8>,
)
    requires
        map_wf(m),
    ensures
        spec_extract_literal(literal_payload(m, Some(k)), None) == Err::<
            ChunkMapModel,
            CoreError,
        >(CoreError::DecodeError),
        spec_extract_literal(literal_payload(m, None), Some(k)) == Err::<
            ChunkMapModel,
            CoreError,
        >(CoreError::DecryptError),
        spec_create(m, vis, Some(k)) matches PackStepModel::Done(rec)
            ==> spec_extract_value(rec, None) == Err::<
            ExtractStepModel,
            CoreError,
        >(CoreError::DecodeError),
        spec_create(m, vis, None) matches PackStepModel::Done(rec)
            ==> spec_extract_value(rec, Some(k)) == Err::<
            ExtractStepModel,
            CoreError,
        >(CoreError::DecryptError),
{
    let c = spec_encrypt(ser_map(m), k);
    assert(c[0] == 231u8);
    assert(parse_map(c) is None);
    let p = ser_map(m);
    assert(p[0] == 0u8 || p[0] == 1u8 || p[0] == 2u8);
    lemma_decode_encode_literal(literal_payload(m, Some(k)));
    lemma_decode_encode_literal(literal_payload(m, None));
}

/// Visibility mismatch fails closed: a record met during the walk that
/// does not carry the top-level visibility is a fetch error, never data.
pub proof fn lemma_visibility_mismatch_fails_closed(
    b: Seq<u8>,
    expected: VisibilityModel,
)
    ensures
        crate::record::parse_record(b) matches Some(rec) && rec.visibility
            != expected ==> spec_unpack_resume(b, expected) == Err::<
            UnpackStepModel,
            CoreError,
        >(CoreError::VisibilityMismatch),
{
}

/// Size invariant: every record a packing step finishes with fits the
/// network's maximum chunk size — its serialized wire form included — so
/// an oversized candidate is never handed out as a record, only as bytes
/// to chunk.
pub proof fn lemma_packed_records_fit(value: Seq<u8>, vis: VisibilityModel)
    ensures
        spec_pack(value, vis) matches PackStepModel::Done(rec)
            ==> record_fits(rec) && ser_record(rec).len()
            <= crate::record::MAX_CHUNK_SIZE,
{
    match spec_pack(value, vis) {
        PackStepModel::Done(rec) => {
            crate::record::lemma_record_size(rec);
        },
        PackStepModel::NeedsChunking(_) => {},
    }
}

} // verus!
