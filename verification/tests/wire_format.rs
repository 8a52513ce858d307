//! The tagged encoding, the record wire form and the packing step,
//! checked on concrete values.

use safe_core::chunk_map::{
    deserialize_map, serialize_map, ChunkInfo, ChunkMap,
};
use safe_core::codec::{decode, encode_descriptor, encode_literal, Encoding};
use safe_core::errors::CoreError;
use safe_core::pack::{create, pack, ready_for_store, PackStep};
use safe_core::record::{
    deserialize_record, serialize_record, validate_size, ChunkRecord,
    Visibility, MAX_CHUNK_SIZE,
};
use safe_core::unpack::{unpack, unpack_resume, UnpackStep};

fn sample_infos() -> Vec<ChunkInfo> {
    vec![
        ChunkInfo { hash: vec![1u8; 32], size: 1000 },
        ChunkInfo { hash: vec![2u8; 32], size: 65536 },
        ChunkInfo { hash: vec![0xABu8; 32], size: u64::MAX },
    ]
}

#[test]
fn decode_undoes_encode_literal() {
    for content in [vec![], vec![0u8], vec![9u8, 8, 7, 6, 5]] {
        let encoded = encode_literal(&content);
        match decode(&encoded).unwrap() {
            Encoding::Literal(b) => assert_eq!(b, content),
            _ => panic!("expected a literal"),
        }
    }
}

#[test]
fn decode_undoes_encode_descriptor() {
    let maps = [
        ChunkMap::Empty,
        ChunkMap::Content(vec![3u8, 1, 4, 1, 5]),
        ChunkMap::Chunks(sample_infos()),
    ];
    for map in maps {
        let expected = serialize_map(&map);
        let encoded = encode_descriptor(&map);
        match decode(&encoded).unwrap() {
            Encoding::Descriptor(m) => {
                assert_eq!(serialize_map(&m), expected);
            },
            _ => panic!("expected a descriptor"),
        }
    }
}

#[test]
fn decode_rejects_malformed_bytes() {
    assert_eq!(decode(&[]).unwrap_err(), CoreError::DecodeError);
    assert_eq!(decode(&[2u8]).unwrap_err(), CoreError::DecodeError);
    // A descriptor whose chunk-map body is truncated.
    assert_eq!(decode(&[1u8, 2u8, 9u8]).unwrap_err(), CoreError::DecodeError);
}

#[test]
fn chunk_map_wire_form_is_strict() {
    // An empty map with trailing bytes is malformed.
    assert_eq!(
        deserialize_map(&[0u8, 0u8]).unwrap_err(),
        CoreError::DecodeError
    );
    // An entry run must be a whole number of forty-byte entries.
    assert_eq!(
        deserialize_map(&[2u8, 1u8, 2u8, 3u8]).unwrap_err(),
        CoreError::DecodeError
    );
    // An unknown tag is malformed.
    assert_eq!(deserialize_map(&[7u8]).unwrap_err(), CoreError::DecodeError);
    // The empty buffer is malformed.
    assert_eq!(deserialize_map(&[]).unwrap_err(), CoreError::DecodeError);
}

#[test]
fn chunk_map_round_trips_through_bytes() {
    let map = ChunkMap::Chunks(sample_infos());
    let bytes = serialize_map(&map);
    assert_eq!(bytes.len(), 1 + 3 * 40);
    match deserialize_map(&bytes).unwrap() {
        ChunkMap::Chunks(infos) => {
            assert_eq!(infos.len(), 3);
            assert_eq!(infos[0].hash, vec![1u8; 32]);
            assert_eq!(infos[0].size, 1000);
            assert_eq!(infos[2].size, u64::MAX);
        },
        _ => panic!("expected chunk entries"),
    }
}

#[test]
fn record_round_trips_through_bytes() {
    let published = ChunkRecord {
        visibility: Visibility::Published,
        payload: vec![0u8, 1, 2, 3],
    };
    let bytes = serialize_record(&published);
    assert_eq!(bytes, vec![0u8, 0, 1, 2, 3]);
    let back = deserialize_record(&bytes).unwrap();
    assert!(matches!(back.visibility, Visibility::Published));
    assert_eq!(back.payload, vec![0u8, 1, 2, 3]);

    let restricted = ChunkRecord {
        visibility: Visibility::Restricted(vec![9u8; 32]),
        payload: vec![5u8, 5],
    };
    let bytes = serialize_record(&restricted);
    assert_eq!(bytes.len(), 1 + 8 + 32 + 2);
    let back = deserialize_record(&bytes).unwrap();
    match back.visibility {
        Visibility::Restricted(owner) => assert_eq!(owner, vec![9u8; 32]),
        _ => panic!("expected a restricted record"),
    }
    assert_eq!(back.payload, vec![5u8, 5]);
}

#[test]
fn record_parse_rejects_malformed_bytes() {
    assert!(deserialize_record(&[]).is_err());
    assert!(deserialize_record(&[9u8]).is_err());
    // Restricted header cut short.
    assert!(deserialize_record(&[1u8, 4, 0, 0]).is_err());
    // Owner length pointing past the end.
    let mut bytes = vec![1u8];
    bytes.extend_from_slice(&100u64.to_le_bytes());
    bytes.extend_from_slice(&[0u8; 10]);
    assert!(deserialize_record(&bytes).is_err());
}

#[test]
fn pack_respects_the_size_boundary() {
    // The largest published payload that still fits.
    let at_limit = vec![6u8; MAX_CHUNK_SIZE - 1];
    match pack(at_limit, Visibility::Published) {
        PackStep::Done(record) => {
            assert!(validate_size(&record));
            assert_eq!(serialize_record(&record).len(), MAX_CHUNK_SIZE);
            assert!(ready_for_store(&record).is_ok());
        },
        _ => panic!("a payload at the limit must pack directly"),
    }
    // One byte more and the candidate must go out for chunking.
    let over_limit = vec![6u8; MAX_CHUNK_SIZE];
    match pack(over_limit, Visibility::Published) {
        PackStep::NeedsChunking(bytes) => {
            assert_eq!(bytes.len(), MAX_CHUNK_SIZE + 1);
        },
        _ => panic!("an oversized payload must be handed out for chunking"),
    }
    // The restricted header costs nine bytes plus the owner key.
    let owner = vec![1u8; 32];
    let payload = vec![2u8; MAX_CHUNK_SIZE - 9 - 32];
    match pack(payload, Visibility::Restricted(owner)) {
        PackStep::Done(record) => {
            assert_eq!(serialize_record(&record).len(), MAX_CHUNK_SIZE);
        },
        _ => panic!("a restricted payload at the limit must pack directly"),
    }
}

#[test]
fn oversized_record_fails_the_store_guard() {
    let record = ChunkRecord {
        visibility: Visibility::Published,
        payload: vec![0u8; MAX_CHUNK_SIZE],
    };
    assert_eq!(
        ready_for_store(&record).unwrap_err(),
        CoreError::SizeInvariantViolation
    );
}

#[test]
fn unpack_walk_rejects_visibility_mismatch() {
    let map = ChunkMap::Content(vec![1u8, 2, 3]);
    let record = match create(&map, Visibility::Published, None) {
        PackStep::Done(record) => record,
        _ => panic!("a tiny map must pack directly"),
    };
    let bytes = serialize_record(&record);
    // Walking with the published expectation succeeds.
    assert!(unpack_resume(&bytes, &Visibility::Published).is_ok());
    // Walking with a restricted expectation is a fetch error.
    let expected = Visibility::Restricted(vec![0u8; 32]);
    assert_eq!(
        unpack_resume(&bytes, &expected).unwrap_err(),
        CoreError::VisibilityMismatch
    );
}

#[test]
fn unpack_reads_back_the_wrapped_literal() {
    let map = ChunkMap::Empty;
    let record = match create(&map, Visibility::Published, None) {
        PackStep::Done(record) => record,
        _ => panic!("the empty map must pack directly"),
    };
    // The payload is the tagged literal holding the serialized empty map.
    assert_eq!(record.payload, vec![0u8, 0u8]);
    match unpack(&record).unwrap() {
        UnpackStep::Done(lit) => assert_eq!(lit, vec![0u8]),
        _ => panic!("expected the literal"),
    }
}
