//! The symmetric protection of the innermost descriptor, its fail-closed
//! behaviour under mismatched keys, and the error types.

use safe_core::chunk_map::{serialize_map, ChunkMap};
use safe_core::crypt::{symmetric_decrypt, symmetric_encrypt, CIPHER_MAGIC};
use safe_core::errors::{CoreError, IpcError};
use safe_core::unpack::extract_literal;

fn key_a() -> Vec<u8> {
    (0u8..32).map(|i| i.wrapping_mul(7).wrapping_add(3)).collect()
}

fn key_b() -> Vec<u8> {
    (0u8..32).map(|i| i.wrapping_mul(11).wrapping_add(5)).collect()
}

#[test]
fn decrypt_undoes_encrypt() {
    let key = key_a();
    for message in [
        Vec::new(),
        vec![0u8],
        vec![1u8, 2, 3, 4, 5],
        (0..10_000u32).map(|i| (i % 251) as u8).collect::<Vec<u8>>(),
    ] {
        let cipher = symmetric_encrypt(&message, &key);
        assert_eq!(cipher.len(), message.len() + 17);
        assert_eq!(cipher[0], CIPHER_MAGIC);
        let plain = symmetric_decrypt(&cipher, &key).unwrap();
        assert_eq!(plain, message);
    }
}

#[test]
fn ciphertext_differs_from_plaintext() {
    let key = key_a();
    let message = vec![42u8; 64];
    let cipher = symmetric_encrypt(&message, &key);
    assert_ne!(&cipher[17..], &message[..]);
}

#[test]
fn wrong_key_fails_decryption() {
    let message = vec![10u8, 20, 30, 40];
    let cipher = symmetric_encrypt(&message, &key_a());
    assert_eq!(
        symmetric_decrypt(&cipher, &key_b()).unwrap_err(),
        CoreError::DecryptError
    );
}

#[test]
fn keys_sharing_a_long_prefix_still_differ() {
    // Keys that agree except in the final byte must act as different
    // keys even on messages far shorter than the key.
    let base = key_a();
    let mut twin = key_a();
    twin[31] ^= 0x01;
    for message in [vec![], vec![7u8], vec![1u8, 2, 3, 4]] {
        let cipher = symmetric_encrypt(&message, &base);
        assert_eq!(
            symmetric_decrypt(&cipher, &twin).unwrap_err(),
            CoreError::DecryptError
        );
        assert_eq!(symmetric_decrypt(&cipher, &base).unwrap(), message);
    }
}

#[test]
fn single_middle_byte_difference_rejects() {
    let base = key_a();
    let mut twin = key_a();
    twin[20] = twin[20].wrapping_add(1);
    let message = vec![10u8, 20, 30, 40];
    let cipher = symmetric_encrypt(&message, &base);
    assert_eq!(
        symmetric_decrypt(&cipher, &twin).unwrap_err(),
        CoreError::DecryptError
    );
}

#[test]
fn wrong_key_never_opens_the_literal() {
    let map = ChunkMap::Content(vec![3u8; 100]);
    let serialised = serialize_map(&map);
    let cipher = symmetric_encrypt(&serialised, &key_a());
    let mut twin = key_a();
    twin[31] ^= 0x80;
    assert!(extract_literal(&cipher, Some(&twin)).is_err());
    assert!(extract_literal(&cipher, Some(&key_b())).is_err());
    assert!(extract_literal(&cipher, Some(&key_a())).is_ok());
}

#[test]
fn corrupt_ciphertext_fails_decryption() {
    let key = key_a();
    let message = vec![1u8; 40];
    let mut cipher = symmetric_encrypt(&message, &key);
    // Too short to hold the authenticator.
    assert_eq!(
        symmetric_decrypt(&cipher[..10], &key).unwrap_err(),
        CoreError::DecryptError
    );
    // A flipped body byte breaks authentication.
    let last = cipher.len() - 1;
    cipher[last] ^= 0x80;
    assert_eq!(
        symmetric_decrypt(&cipher, &key).unwrap_err(),
        CoreError::DecryptError
    );
}

#[test]
fn keyed_literal_never_opens_without_the_key() {
    let map = ChunkMap::Content(vec![9u8, 9, 9]);
    let serialised = serialize_map(&map);
    let cipher = symmetric_encrypt(&serialised, &key_a());
    // Created with a key, extracted without one: the ciphertext never
    // parses as a descriptor.
    assert_eq!(
        extract_literal(&cipher, None).unwrap_err(),
        CoreError::DecodeError
    );
    // Created with a key, extracted with a different one.
    assert_eq!(
        extract_literal(&cipher, Some(&key_b())).unwrap_err(),
        CoreError::DecryptError
    );
}

#[test]
fn keyless_literal_never_opens_with_a_key() {
    let map = ChunkMap::Content(vec![8u8, 8]);
    let serialised = serialize_map(&map);
    assert_eq!(
        extract_literal(&serialised, Some(&key_a())).unwrap_err(),
        CoreError::DecryptError
    );
    // Without a key it opens fine.
    assert!(extract_literal(&serialised, None).is_ok());
}

#[test]
fn core_error_variants_are_distinct() {
    let errors = [
        CoreError::DecodeError,
        CoreError::DecryptError,
        CoreError::SizeInvariantViolation,
        CoreError::NotFound,
        CoreError::VisibilityMismatch,
        CoreError::UnderlyingStorage(String::from("store fell over")),
    ];
    for (i, a) in errors.iter().enumerate() {
        for (j, b) in errors.iter().enumerate() {
            assert_eq!(i == j, a == b);
        }
    }
}

#[test]
fn ipc_error_from_string() {
    let err = IpcError::from(String::from("pipe broke"));
    assert_eq!(err, IpcError::Unexpected(String::from("pipe broke")));
    assert_ne!(err, IpcError::EncodeDecodeError);
    assert_eq!(IpcError::AuthDenied, IpcError::AuthDenied);
}

#[test]
fn ipc_error_from_str_slice() {
    let err = IpcError::from("socket closed");
    assert_eq!(err, IpcError::Unexpected(String::from("socket closed")));
    let err = safe_core::errors::ipc_error_from_str("");
    assert_eq!(err, IpcError::Unexpected(String::new()));
}
