//! End-to-end create/retrieve runs over an in-memory chunk store and an
//! in-memory content encryptor standing in for the external capabilities.

use safe_core::chunk_map::{ChunkInfo, ChunkMap};
use safe_core::errors::CoreError;
use safe_core::pack::{create, pack_resume, ready_for_store, PackStep};
use safe_core::record::{
    deserialize_record, serialize_record, ChunkRecord, Visibility,
    MAX_CHUNK_SIZE,
};
use safe_core::unpack::{extract_resume, extract_value, ExtractStep};
use std::collections::HashMap;

const INLINE_LIMIT: usize = 1024;
const CHUNK_SPLIT: usize = 512 * 1024;

/// Deterministic pseudo-random bytes, so runs are reproducible.
fn generate_vector(size: usize) -> Vec<u8> {
    let mut state: u64 = 0x9E37_79B9_7F4A_7C15;
    let mut out = Vec::with_capacity(size);
    for _ in 0..size {
        state ^= state << 13;
        state ^= state >> 7;
        state ^= state << 17;
        out.push((state & 0xff) as u8);
    }
    out
}

/// A cheap content digest for addressing within the fake store.
fn digest(bytes: &[u8]) -> Vec<u8> {
    let mut state: [u8; 32] = [0x42; 32];
    for (i, b) in bytes.iter().enumerate() {
        let idx = i % 32;
        state[idx] = state[idx].wrapping_mul(31).wrapping_add(*b ^ (i as u8));
    }
    state.to_vec()
}

/// In-memory stand-ins for the chunk store and the content encryptor.
struct FakeNetwork {
    /// Chunks written by the encryptor, keyed by namespace and hash.
    chunks: HashMap<(bool, Vec<u8>), Vec<u8>>,
    /// Top-level records, keyed by namespace and content address.
    records: HashMap<(bool, Vec<u8>), Vec<u8>>,
}

impl FakeNetwork {
    fn new() -> Self {
        FakeNetwork { chunks: HashMap::new(), records: HashMap::new() }
    }

    /// The content encryptor's chunking side: split, store, describe.
    fn chunk(&mut self, bytes: &[u8], published: bool) -> ChunkMap {
        if bytes.is_empty() {
            ChunkMap::Empty
        } else if bytes.len() <= INLINE_LIMIT {
            ChunkMap::Content(bytes.to_vec())
        } else {
            let mut infos = Vec::new();
            for piece in bytes.chunks(CHUNK_SPLIT) {
                let hash = digest(piece);
                self.chunks
                    .insert((published, hash.clone()), piece.to_vec());
                infos.push(ChunkInfo { hash, size: piece.len() as u64 });
            }
            ChunkMap::Chunks(infos)
        }
    }

    /// The content encryptor's reassembly side.
    fn reassemble(
        &self,
        map: &ChunkMap,
        published: bool,
    ) -> Result<Vec<u8>, CoreError> {
        match map {
            ChunkMap::Empty => Ok(Vec::new()),
            ChunkMap::Content(b) => Ok(b.clone()),
            ChunkMap::Chunks(infos) => {
                let mut out = Vec::new();
                for info in infos {
                    let piece = self
                        .chunks
                        .get(&(published, info.hash.clone()))
                        .ok_or(CoreError::NotFound)?;
                    out.extend_from_slice(piece);
                }
                Ok(out)
            },
        }
    }

    /// Submits a record and returns its content address.
    fn put_record(&mut self, record: &ChunkRecord) -> Result<Vec<u8>, CoreError> {
        ready_for_store(record)?;
        let bytes = serialize_record(record);
        assert!(bytes.len() <= MAX_CHUNK_SIZE);
        let published = matches!(record.visibility, Visibility::Published);
        let address = digest(&bytes);
        self.records.insert((published, address.clone()), bytes);
        Ok(address)
    }

    fn get_record_bytes(
        &self,
        address: &[u8],
        published: bool,
    ) -> Result<Vec<u8>, CoreError> {
        self.records
            .get(&(published, address.to_vec()))
            .cloned()
            .ok_or(CoreError::NotFound)
    }
}

fn is_published(v: &Visibility) -> bool {
    matches!(v, Visibility::Published)
}

fn clone_visibility(v: &Visibility) -> Visibility {
    match v {
        Visibility::Published => Visibility::Published,
        Visibility::Restricted(owner) => Visibility::Restricted(owner.clone()),
    }
}

/// Drives the packing loop: chunk the raw value, create, and keep
/// chunking oversized candidates until the record fits.
fn create_full(
    net: &mut FakeNetwork,
    value: &[u8],
    published: bool,
    encryption_key: Option<&Vec<u8>>,
) -> Result<ChunkRecord, CoreError> {
    let owner: Vec<u8> = vec![7u8; 32];
    let visibility = if published {
        Visibility::Published
    } else {
        Visibility::Restricted(owner)
    };
    let map = net.chunk(value, published);
    let mut step = create(&map, clone_visibility(&visibility), encryption_key);
    loop {
        match step {
            PackStep::Done(record) => {
                return Ok(record);
            },
            PackStep::NeedsChunking(bytes) => {
                let map2 = net.chunk(&bytes, published);
                step = pack_resume(&map2, clone_visibility(&visibility));
            },
        }
    }
}

/// Drives the extraction loop from a stored address back to the raw
/// value.
fn get_value_full(
    net: &FakeNetwork,
    address: &[u8],
    published: bool,
    decryption_key: Option<&Vec<u8>>,
) -> Result<Vec<u8>, CoreError> {
    let bytes = net.get_record_bytes(address, published)?;
    let record = deserialize_record(&bytes)?;
    let top_visibility = clone_visibility(&record.visibility);
    let top_published = is_published(&top_visibility);
    let mut step = extract_value(&record, decryption_key)?;
    loop {
        match step {
            ExtractStep::FetchWrapped(map) => {
                let reassembled = net.reassemble(&map, top_published)?;
                step = extract_resume(
                    &reassembled,
                    &top_visibility,
                    decryption_key,
                )?;
            },
            ExtractStep::FetchContent(map) => {
                return net.reassemble(&map, top_published);
            },
        }
    }
}

fn create_and_retrieve(size: usize) {
    let value = generate_vector(size);

    // Unencrypted and published
    {
        let mut net = FakeNetwork::new();
        let data = create_full(&mut net, &value, true, None).unwrap();
        let address = net.put_record(&data).unwrap();
        let value_after = get_value_full(&net, &address, true, None).unwrap();
        assert_eq!(value_after, value);
    }

    // Encrypted and unpublished
    {
        let mut net = FakeNetwork::new();
        let key: Vec<u8> = (0u8..32).map(|i| i.wrapping_mul(9)).collect();
        let data = create_full(&mut net, &value, false, Some(&key)).unwrap();
        let address = net.put_record(&data).unwrap();
        let value_after =
            get_value_full(&net, &address, false, Some(&key)).unwrap();
        assert_eq!(value_after, value);
    }

    // Put unencrypted, retrieve encrypted - should fail
    {
        let mut net = FakeNetwork::new();
        let key: Vec<u8> = vec![5u8; 32];
        let data = create_full(&mut net, &value, true, None).unwrap();
        let address = net.put_record(&data).unwrap();
        let res = get_value_full(&net, &address, true, Some(&key));
        assert!(res.is_err());
    }

    // Put encrypted, retrieve unencrypted - should fail
    {
        let mut net = FakeNetwork::new();
        let key: Vec<u8> = vec![5u8; 32];
        let data = create_full(&mut net, &value, true, Some(&key)).unwrap();
        let address = net.put_record(&data).unwrap();
        let res = get_value_full(&net, &address, true, None);
        assert!(res.is_err());
    }

    // Put published, retrieve unpublished - should fail
    {
        let mut net = FakeNetwork::new();
        let data = create_full(&mut net, &value, true, None).unwrap();
        let address = net.put_record(&data).unwrap();
        let res = get_value_full(&net, &address, false, None);
        assert!(res.is_err());
    }

    // Put unpublished, retrieve published - should fail
    {
        let mut net = FakeNetwork::new();
        let data = create_full(&mut net, &value, false, None).unwrap();
        let address = net.put_record(&data).unwrap();
        let res = get_value_full(&net, &address, true, None);
        assert!(res.is_err());
    }
}

// Test creating and retrieving a 1kb payload.
#[test]
fn create_and_retrieve_1kb() {
    create_and_retrieve(1024)
}

// Test creating and retrieving a 1mb payload.
#[test]
fn create_and_retrieve_1mb() {
    create_and_retrieve(1024 * 1024)
}

// Test creating and retrieving a 2mb payload.
#[test]
fn create_and_retrieve_2mb() {
    create_and_retrieve(2 * 1024 * 1024)
}

// Test creating and retrieving a 10mb payload.
#[test]
fn create_and_retrieve_10mb() {
    create_and_retrieve(10 * 1024 * 1024)
}

// An oversized first wrap: a descriptor too large for one record forces
// the packing recursion through a descriptor hop, and extraction
// retraces the hop back to the same content.
#[test]
fn oversized_wrap_recurses_and_round_trips() {
    let big = generate_vector(3 * 1024 * 1024);
    let map = ChunkMap::Content(big.clone());
    let mut net = FakeNetwork::new();
    let mut step = create(&map, Visibility::Published, None);
    assert!(matches!(step, PackStep::NeedsChunking(_)));
    let record = loop {
        match step {
            PackStep::Done(record) => break record,
            PackStep::NeedsChunking(bytes) => {
                let map2 = net.chunk(&bytes, true);
                step = pack_resume(&map2, Visibility::Published);
            },
        }
    };
    let address = net.put_record(&record).unwrap();
    let bytes = net.get_record_bytes(&address, true).unwrap();
    let fetched = deserialize_record(&bytes).unwrap();
    let mut walk = extract_value(&fetched, None).unwrap();
    let mut hops = 0;
    let content = loop {
        match walk {
            ExtractStep::FetchWrapped(m) => {
                hops += 1;
                let reassembled = net.reassemble(&m, true).unwrap();
                walk = extract_resume(&reassembled, &Visibility::Published, None)
                    .unwrap();
            },
            ExtractStep::FetchContent(m) => {
                break net.reassemble(&m, true).unwrap();
            },
        }
    };
    assert!(hops >= 1);
    assert_eq!(content, big);
}

// A 10 MiB unencrypted published payload: the stored top-level record
// stays within the maximum chunk size and comes back unchanged.
#[test]
fn ten_mib_scenario_respects_chunk_size() {
    let value = generate_vector(10 * 1024 * 1024);
    let mut net = FakeNetwork::new();
    let data = create_full(&mut net, &value, true, None).unwrap();
    assert!(serialize_record(&data).len() <= MAX_CHUNK_SIZE);
    let address = net.put_record(&data).unwrap();
    let value_after = get_value_full(&net, &address, true, None).unwrap();
    assert_eq!(value_after.len(), 10 * 1024 * 1024);
    assert_eq!(value_after, value);
}
