//! Symmetric protection of the innermost reassembly descriptor.
//!
//! The caller's key is a fixed thirty-two byte secret; it never leaves
//! the caller and only keys the stream that masks the serialized
//! descriptor and the authenticator checked on extraction.  Both the
//! stream and the authenticator start from a digest that absorbs every
//! key byte and the key length, so no two distinct admitted keys act
//! alike by construction; rejecting a wrong key then rests on the
//! authenticator comparison alone.  Ciphertext opens with a marker byte
//! that no serialized chunk map opens with, so the two shapes never parse
//! as one another: extracting keyless data with a key, or keyed data
//! without one, fails closed rather than returning garbage bytes.

use crate::errors::CoreError;
use vstd::pervasive::VecAdditionalExecFns;
use vstd::prelude::*;

verus! {

/// First byte of every ciphertext; serialized chunk maps never open with
/// it.
pub const CIPHER_MAGIC: u8 = 231;

/// Length in bytes of the authenticator.
pub const MAC_LEN: usize = 16;

/// Length in bytes of an admitted symmetric key.
pub const KEY_LEN: usize = 32;

/// Whether an optional key is one the cipher admits.
pub open spec fn key_ok(key: Option<Seq<u8>>) -> bool {
    match key {
        Some(k) => k.len() == KEY_LEN,
        None => true,
    }
}

/// Rotates a byte left by three bits; the rotation carries differences
/// out of the top bit, where additions alone would keep them linear.
pub open spec fn rot3(x: int) -> u8 {
    ((x * 8) % 256 + x / 32) as u8
}

/// One absorption step of the digest and the authenticator.
pub open spec fn mix(s: u8, b: u8, i: int) -> u8 {
    rot3(((s ^ b) as int + i % 251 + 1) % 256)
}

/// Digest state after absorbing the first `n` key bytes; the seed mixes
/// in the key length, so keys of different lengths never share a digest
/// path.
pub open spec fn key_state(k: Seq<u8>, n: int) -> Seq<u8>
    decreases n,
{
    if n <= 0 {
        Seq::new(
            MAC_LEN as nat,
            |j: int| ((17 * j + 11 + k.len() % 256) % 256) as u8,
        )
    } else {
        let prev = key_state(k, n - 1);
        prev.update((n - 1) % 16, mix(prev[(n - 1) % 16], k[n - 1], n - 1))
    }
}

/// The digest of the whole key: every key byte has been absorbed.
pub open spec fn key_digest(k: Seq<u8>) -> Seq<u8> {
    key_state(k, k.len() as int)
}

/// The key-driven masking byte at stream position `i`: the key byte at
/// that position, the whole-key digest, and the position itself.
pub open spec fn keystream_byte(k: Seq<u8>, i: int) -> u8 {
    if k.len() == 0 {
        (i % 256) as u8
    } else {
        ((k[i % k.len() as int] as int + key_digest(k)[i % 16] as int + i
            % 256) % 256) as u8
    }
}

/// The byte stream masked (or unmasked: the operation is its own inverse)
/// under the key.
pub open spec fn xor_stream(k: Seq<u8>, m: Seq<u8>) -> Seq<u8> {
    Seq::new(m.len(), |i: int| m[i] ^ keystream_byte(k, i))
}

/// Initial authenticator state: the whole-key digest, domain-separated
/// from its use in the keystream.
pub open spec fn mac_init(k: Seq<u8>) -> Seq<u8> {
    Seq::new(MAC_LEN as nat, |j: int| key_digest(k)[j] ^ 0x36u8)
}

/// Authenticator state after absorbing the first `n` message bytes.
pub open spec fn mac_state(k: Seq<u8>, m: Seq<u8>, n: int) -> Seq<u8>
    decreases n,
{
    if n <= 0 {
        mac_init(k)
    } else {
        let prev = mac_state(k, m, n - 1);
        prev.update((n - 1) % 16, mix(prev[(n - 1) % 16], m[n - 1], n - 1))
    }
}

/// The authenticator of a message under a key.
pub open spec fn mac(k: Seq<u8>, m: Seq<u8>) -> Seq<u8> {
    mac_state(k, m, m.len() as int)
}

/// Ciphertext: the marker byte, the authenticator, then the masked
/// message.
pub open spec fn spec_encrypt(m: Seq<u8>, k: Seq<u8>) -> Seq<u8> {
    seq![CIPHER_MAGIC] + mac(k, m) + xor_stream(k, m)
}

/// What decryption yields: the unmasked message exactly when the marker
/// stands and the authenticator matches under the supplied key, `None`
/// otherwise.
pub open spec fn spec_decrypt(c: Seq<u8>, k: Seq<u8>) -> Option<Seq<u8>> {
    if c.len() < 17 || c[0] != CIPHER_MAGIC {
        None
    } else {
        let m = xor_stream(k, c.skip(17));
        if mac(k, m) == c.subrange(1, 17) {
            Some(m)
        } else {
            None
        }
    }
}

/// The key digest state always holds `MAC_LEN` bytes.
pub proof fn lemma_key_state_len(k: Seq<u8>, n: int)
    ensures
        key_state(k, n).len() == MAC_LEN,
    decreases n,
{
    if n > 0 {
        lemma_key_state_len(k, n - 1);
    }
}

/// The authenticator state always holds `MAC_LEN` bytes.
pub proof fn lemma_mac_len(k: Seq<u8>, m: Seq<u8>, n: int)
    ensures
        mac_state(k, m, n).len() == MAC_LEN,
    decreases n,
{
    if n > 0 {
        lemma_mac_len(k, m, n - 1);
    }
}

/// Masking twice under one key gives the message back.
pub proof fn lemma_xor_stream_involution(k: Seq<u8>, m: Seq<u8>)
    ensures
        xor_stream(k, xor_stream(k, m)) == m,
{
    assert forall|i: int| 0 <= i < m.len() implies xor_stream(
        k,
        xor_stream(k, m),
    )[i] == m[i] by {
        let s = keystream_byte(k, i);
        let b = m[i];
        assert((b ^ s) ^ s == b) by (bit_vector);
    }
    assert(xor_stream(k, xor_stream(k, m)) =~= m);
}

/// Decrypting with the key that encrypted gives the message back.
pub proof fn lemma_encrypt_round_trip(m: Seq<u8>, k: Seq<u8>)
    ensures
        spec_decrypt(spec_encrypt(m, k), k) == Some(m),
{
    lemma_mac_len(k, m, m.len() as int);
    let c = spec_encrypt(m, k);
    assert(c.skip(17) =~= xor_stream(k, m));
    lemma_xor_stream_involution(k, m);
    assert(c.subrange(1, 17) =~= mac(k, m));
}

/// The whole-key digest, computed.
fn compute_key_digest(k: &[u8]) -> (r: Vec<u8>)
    ensures
        r@ == key_digest(k@),
        r@.len() == MAC_LEN,
{
    let klen_mod = k.len() % 256;
    let mut state: Vec<u8> = Vec::new();
    let mut j: usize = 0;
    while j < MAC_LEN
        invariant
            j <= MAC_LEN,
            state@.len() == j,
            klen_mod == k@.len() % 256,
            forall|p: int| 0 <= p < j ==> state@[p] == key_state(k@, 0)[p],
        decreases MAC_LEN - j,
    {
        state.push(((17 * j + 11 + klen_mod) % 256) as u8);
        j = j + 1;
    }
    assert(state@ =~= key_state(k@, 0));
    let mut i: usize = 0;
    while i < k.len()
        invariant
            i <= k.len(),
            state@ == key_state(k@, i as int),
            state@.len() == MAC_LEN,
        decreases k.len() - i,
    {
        let idx = i % 16;
        let s = state[idx];
        let b = k[i];
        let t = ((s ^ b) as usize + i % 251 + 1) % 256;
        let mixed = ((t * 8) % 256 + t / 32) as u8;
        state.set(idx, mixed);
        proof {
            lemma_key_state_len(k@, i as int);
        }
        i = i + 1;
    }
    state
}

/// The masking byte at position `i`, computed from the precomputed key
/// digest.
fn ks_byte(k: &[u8], digest: &Vec<u8>, i: usize) -> (r: u8)
    requires
        digest@ == key_digest(k@),
        digest@.len() == MAC_LEN,
    ensures
        r == keystream_byte(k@, i as int),
{
    if k.len() == 0 {
        (i % 256) as u8
    } else {
        let kb = k[i % k.len()];
        let db = digest[i % 16];
        (((kb as usize) + (db as usize) + i % 256) % 256) as u8
    }
}

/// The authenticator of a message under a key, computed.
fn compute_mac(k: &[u8], m: &[u8]) -> (r: Vec<u8>)
    ensures
        r@ == mac(k@, m@),
        r@.len() == MAC_LEN,
{
    let digest = compute_key_digest(k);
    let mut state: Vec<u8> = Vec::new();
    let mut j: usize = 0;
    while j < MAC_LEN
        invariant
            j <= MAC_LEN,
            state@.len() == j,
            digest@ == key_digest(k@),
            digest@.len() == MAC_LEN,
            forall|p: int| 0 <= p < j ==> state@[p] == mac_init(k@)[p],
        decreases MAC_LEN - j,
    {
        state.push(digest[j] ^ 0x36u8);
        j = j + 1;
    }
    assert(state@ =~= mac_init(k@));
    let mut i: usize = 0;
    while i < m.len()
        invariant
            i <= m.len(),
            state@ == mac_state(k@, m@, i as int),
            state@.len() == MAC_LEN,
        decreases m.len() - i,
    {
        let idx = i % 16;
        let s = state[idx];
        let b = m[i];
        let t = ((s ^ b) as usize + i % 251 + 1) % 256;
        let mixed = ((t * 8) % 256 + t / 32) as u8;
        state.set(idx, mixed);
        proof {
            lemma_mac_len(k@, m@, i as int);
        }
        i = i + 1;
    }
    proof {
        lemma_mac_len(k@, m@, m@.len() as int);
    }
    state
}

/// Masks (or unmasks) a byte buffer under a key.
fn apply_stream(k: &[u8], m: &[u8]) -> (r: Vec<u8>)
    ensures
        r@ == xor_stream(k@, m@),
{
    let digest = compute_key_digest(k);
    let mut out: Vec<u8> = Vec::new();
    let mut i: usize = 0;
    while i < m.len()
        invariant
            i <= m.len(),
            out@.len() == i,
            digest@ == key_digest(k@),
            digest@.len() == MAC_LEN,
            forall|p: int| 0 <= p < i ==> out@[p] == m@[p] ^ keystream_byte(
                k@,
                p,
            ),
        decreases m.len() - i,
    {
        out.push(m[i] ^ ks_byte(k, &digest, i));
        i = i + 1;
    }
    assert(out@ =~= xor_stream(k@, m@));
    out
}

/// Encrypts a buffer under the caller's symmetric key.
pub fn symmetric_encrypt(m: &[u8], k: &[u8]) -> (r: Vec<u8>)
    requires
        k@.len() == KEY_LEN,
    ensures
        r@ == spec_encrypt(m@, k@),
{
    let mut out: Vec<u8> = Vec::new();
    out.push(CIPHER_MAGIC);
    let tag = compute_mac(k, m);
    crate::chunk_map::push_bytes(&mut out, tag.as_slice());
    let body = apply_stream(k, m);
    crate::chunk_map::push_bytes(&mut out, body.as_slice());
    assert(out@ =~= spec_encrypt(m@, k@));
    out
}

/// Decrypts a buffer under the caller's symmetric key; fails closed with
/// `DecryptError` when the marker is absent or the authenticator does not
/// match under this key.
pub fn symmetric_decrypt(c: &[u8], k: &[u8]) -> (r: Result<Vec<u8>, CoreError>)
    requires
        k@.len() == KEY_LEN,
    ensures
        match r {
            Ok(m) => spec_decrypt(c@, k@) == Some(m@),
            Err(e) => spec_decrypt(c@, k@) is None && e
                == CoreError::DecryptError,
        },
{
    if c.len() < 17 {
        return Err(CoreError::DecryptError);
    }
    if c[0] != CIPHER_MAGIC {
        return Err(CoreError::DecryptError);
    }
    let body = vstd::slice::slice_subrange(c, 17, c.len());
    assert(body@ =~= c@.skip(17));
    let m = apply_stream(k, body);
    let tag = compute_mac(k, m.as_slice());
    let expected = vstd::slice::slice_subrange(c, 1, 17);
    if crate::record::bytes_eq(tag.as_slice(), expected) {
        Ok(m)
    } else {
        Err(CoreError::DecryptError)
    }
}

} // verus!
