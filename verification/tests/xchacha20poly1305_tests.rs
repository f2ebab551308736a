use chacha20poly1305::aead::{Aead, OsRng};
use chacha20poly1305::{AeadCore, KeyInit};
use ferris_vault::errors::CryptographyError;
use ferris_vault::vault::{Entry, UncryptedVault};
use ferris_vault::xchacha20poly1305::{KEY_INFO, KEY_LENGTH, TAG_LENGTH};
use ferris_vault::xchacha20poly1305::{
    Cryptography, NoKeyCipher, NoKeyXChaCha20Poly1305, NONCE_LENGTH,
};

#[test]
fn should_encrypt_vault() {
    let mut uncrypted_vault = UncryptedVault::new();
    uncrypted_vault.add_entry(
        "title".to_string(),
        "username".to_string(),
        "password".to_string(),
    );

    let key = &[42; 32];

    let xchacha = NoKeyXChaCha20Poly1305::create_cipher_from_key(key).unwrap();

    let key = chacha20poly1305::Key::clone_from_slice(key);

    let cipher = chacha20poly1305::XChaCha20Poly1305::new(&key);

    let result = xchacha.encrypt(&uncrypted_vault);

    assert!(result.is_ok());

    let result = result.unwrap();

    let (nonce, data) = result.split_at(NONCE_LENGTH);
    let nonce = chacha20poly1305::XNonce::clone_from_slice(nonce);

    let result = cipher.decrypt(&nonce, data).unwrap();

    assert_eq!(result, uncrypted_vault.as_bytes().unwrap());
}

#[test]
fn should_decrypt_vault() {
    let mut uncrypted_vault = UncryptedVault::new();
    uncrypted_vault.add_entry(
        "title".to_string(),
        "username".to_string(),
        "password".to_string(),
    );

    let key = &[42; 32];

    let xchacha = NoKeyXChaCha20Poly1305::create_cipher_from_key(key).unwrap();

    let key = chacha20poly1305::Key::clone_from_slice(key);
    let cipher = chacha20poly1305::XChaCha20Poly1305::new(&key);
    let nonce = chacha20poly1305::XChaCha20Poly1305::generate_nonce(&mut OsRng);

    let crypted_vault = cipher
        .encrypt(&nonce, uncrypted_vault.as_bytes().unwrap().as_ref())
        .unwrap();

    let mut data = Vec::with_capacity(NONCE_LENGTH + crypted_vault.len());
    data.extend_from_slice(&nonce);
    data.extend_from_slice(&crypted_vault);

    let result = xchacha.decrypt(&data);

    assert!(result.is_ok());

    let result = result.unwrap();

    assert_eq!(result, uncrypted_vault);
}

#[test]
fn should_derive_key_from_64_bytes() {
    let key = &[42; 64];

    let result = NoKeyXChaCha20Poly1305::create_cipher_from_key(key);

    assert!(result.is_ok());
}

#[test]
fn should_derive_key_from_16_bytes() {
    let key = &[42; 16];

    let result = NoKeyXChaCha20Poly1305::create_cipher_from_key(key);

    assert!(result.is_ok());
}

#[test]
fn should_not_derive_key_from_32_bytes() {
    let key = &[42; 32];

    let result = NoKeyXChaCha20Poly1305::create_cipher_from_key(key);

    assert!(result.is_ok());
}


fn sample_vault() -> UncryptedVault {
    let mut vault = UncryptedVault::new();
    vault.add_entry("title".to_string(), "alice".to_string(), "s3cret".to_string());
    vault.add_entry("é€".to_string(), "".to_string(), "🔐".to_string());
    vault.update_entry(Entry::new(0, "moved".to_string(), "bob".to_string(), "pw".to_string()));
    vault
}

fn raw_cipher(key: &[u8]) -> chacha20poly1305::XChaCha20Poly1305 {
    chacha20poly1305::XChaCha20Poly1305::new(chacha20poly1305::Key::from_slice(key))
}

fn derive(material: &[u8]) -> Vec<u8> {
    let hkdf = hkdf::Hkdf::<sha2::Sha256>::new(None, material);
    let mut derived = vec![0u8; 32];
    hkdf.expand(b"xchacha20-poly1305-key", &mut derived).unwrap();
    derived
}

fn assert_not_decrypted(cipher: &ferris_vault::xchacha20poly1305::XChaCha20Poly1305, blob: &[u8]) {
    match cipher.decrypt(blob) {
        Err(CryptographyError::DecryptionError(_)) => {}
        Err(other) => panic!("wrong error: {:?}", other),
        Ok(_) => panic!("should not decrypt"),
    }
}

#[test]
fn the_constants_of_the_cipher() {
    assert_eq!(NONCE_LENGTH, 24);
    assert_eq!(KEY_LENGTH, 32);
    assert_eq!(TAG_LENGTH, 16);
    assert_eq!(KEY_INFO, "xchacha20-poly1305-key");
}

#[test]
fn decrypt_inverts_encrypt_for_keys_of_any_length() {
    let vault = sample_vault();
    for length in [0usize, 1, 16, 31, 32, 33, 64, 100] {
        let material = vec![7u8; length];
        let cipher = NoKeyXChaCha20Poly1305::create_cipher_from_key(&material).unwrap();
        let blob = cipher.encrypt(&vault).unwrap();
        assert!(cipher.decrypt(&blob).unwrap() == vault);
    }
}

#[test]
fn decrypt_inverts_encrypt_for_the_empty_vault() {
    let cipher = NoKeyXChaCha20Poly1305::create_cipher_from_key(&[1u8; 64]).unwrap();
    let vault = UncryptedVault::new();
    let blob = cipher.encrypt(&vault).unwrap();
    assert_eq!(blob.len(), 24 + 1 + 16);
    assert!(cipher.decrypt(&blob).unwrap() == vault);
}

#[test]
fn a_blob_is_the_nonce_the_encrypted_bytes_and_the_tag() {
    let vault = sample_vault();
    let cipher = NoKeyXChaCha20Poly1305::create_cipher_from_key(&[9u8; 32]).unwrap();
    let blob = cipher.encrypt(&vault).unwrap();
    let plain = vault.as_bytes().unwrap();
    assert_eq!(blob.len(), NONCE_LENGTH + plain.len() + TAG_LENGTH);
    let (nonce, sealed) = blob.split_at(NONCE_LENGTH);
    let expected = raw_cipher(&[9u8; 32])
        .encrypt(chacha20poly1305::XNonce::from_slice(nonce), plain.as_ref())
        .unwrap();
    assert_eq!(sealed, &expected[..]);
}

#[test]
fn every_blob_has_a_nonce_of_its_own() {
    let vault = sample_vault();
    let cipher = NoKeyXChaCha20Poly1305::create_cipher_from_key(&[9u8; 32]).unwrap();
    let first = cipher.encrypt(&vault).unwrap();
    let second = cipher.encrypt(&vault).unwrap();
    assert_ne!(&first[..NONCE_LENGTH], &second[..NONCE_LENGTH]);
    assert_ne!(first, second);
}

#[test]
fn a_key_of_32_bytes_is_used_as_it_is() {
    let vault = sample_vault();
    let key = [42u8; 32];
    let cipher = NoKeyXChaCha20Poly1305::create_cipher_from_key(&key).unwrap();
    let blob = cipher.encrypt(&vault).unwrap();
    let (nonce, sealed) = blob.split_at(NONCE_LENGTH);
    let plain = raw_cipher(&key)
        .decrypt(chacha20poly1305::XNonce::from_slice(nonce), sealed)
        .unwrap();
    assert_eq!(plain, vault.as_bytes().unwrap());
}

#[test]
fn a_key_of_another_length_is_derived_with_hkdf() {
    let vault = sample_vault();
    for length in [16usize, 64] {
        let material = vec![42u8; length];
        let cipher = NoKeyXChaCha20Poly1305::create_cipher_from_key(&material).unwrap();
        let blob = cipher.encrypt(&vault).unwrap();
        let (nonce, sealed) = blob.split_at(NONCE_LENGTH);
        let plain = raw_cipher(&derive(&material))
            .decrypt(chacha20poly1305::XNonce::from_slice(nonce), sealed)
            .unwrap();
        assert_eq!(plain, vault.as_bytes().unwrap());
    }
}

#[test]
fn a_derived_key_is_not_the_beginning_of_its_material() {
    let vault = sample_vault();
    let material = [42u8; 64];
    let derived = NoKeyXChaCha20Poly1305::create_cipher_from_key(&material).unwrap();
    let truncated = NoKeyXChaCha20Poly1305::create_cipher_from_key(&material[..32]).unwrap();
    let blob = derived.encrypt(&vault).unwrap();
    assert_not_decrypted(&truncated, &blob);
}

#[test]
fn ciphers_of_the_same_key_decrypt_alike() {
    let vault = sample_vault();
    for length in [32usize, 64] {
        let material = vec![5u8; length];
        let first = NoKeyXChaCha20Poly1305::create_cipher_from_key(&material).unwrap();
        let second = NoKeyXChaCha20Poly1305::create_cipher_from_key(&material).unwrap();
        let blob = first.encrypt(&vault).unwrap();
        assert!(second.decrypt(&blob).unwrap() == vault);
        let blob = second.encrypt(&vault).unwrap();
        assert!(first.decrypt(&blob).unwrap() == vault);
    }
}

#[test]
fn a_cipher_of_the_derived_key_decrypts_what_the_material_encrypted() {
    let vault = sample_vault();
    let material = [5u8; 64];
    let first = NoKeyXChaCha20Poly1305::create_cipher_from_key(&material).unwrap();
    let second = NoKeyXChaCha20Poly1305::create_cipher_from_key(&derive(&material)).unwrap();
    let blob = first.encrypt(&vault).unwrap();
    assert!(second.decrypt(&blob).unwrap() == vault);
}

#[test]
fn a_cipher_of_another_key_does_not_decrypt() {
    let vault = sample_vault();
    let first = NoKeyXChaCha20Poly1305::create_cipher_from_key(&[5u8; 64]).unwrap();
    let second = NoKeyXChaCha20Poly1305::create_cipher_from_key(&[6u8; 64]).unwrap();
    let blob = first.encrypt(&vault).unwrap();
    assert_not_decrypted(&second, &blob);
}

#[test]
fn a_flipped_bit_anywhere_is_detected() {
    let vault = sample_vault();
    let cipher = NoKeyXChaCha20Poly1305::create_cipher_from_key(&[3u8; 64]).unwrap();
    let blob = cipher.encrypt(&vault).unwrap();
    assert!(blob.len() >= 40);
    for position in 0..blob.len() {
        for bit in 0..8 {
            let mut changed = blob.clone();
            changed[position] ^= 1 << bit;
            assert_not_decrypted(&cipher, &changed);
        }
    }
}

#[test]
fn a_flipped_bit_in_the_smallest_blob_is_detected() {
    let cipher = NoKeyXChaCha20Poly1305::create_cipher_from_key(&[3u8; 32]).unwrap();
    let nonce = [0u8; 24];
    let sealed = raw_cipher(&[3u8; 32])
        .encrypt(chacha20poly1305::XNonce::from_slice(&nonce), &[][..])
        .unwrap();
    let mut blob = nonce.to_vec();
    blob.extend_from_slice(&sealed);
    assert_eq!(blob.len(), 40);
    for position in 0..blob.len() {
        let mut changed = blob.clone();
        changed[position] ^= 0x80;
        assert_not_decrypted(&cipher, &changed);
    }
}

#[test]
fn a_blob_that_is_cut_short_is_not_decrypted() {
    let vault = sample_vault();
    let cipher = NoKeyXChaCha20Poly1305::create_cipher_from_key(&[3u8; 64]).unwrap();
    let blob = cipher.encrypt(&vault).unwrap();
    for length in [0usize, 1, 23, 24, 39, 40, blob.len() - 1] {
        assert_not_decrypted(&cipher, &blob[..length]);
    }
    let mut longer = blob.clone();
    longer.push(0);
    assert_not_decrypted(&cipher, &longer);
}

#[test]
fn an_authentic_blob_that_holds_no_vault_is_not_decoded() {
    let key = [8u8; 32];
    let cipher = NoKeyXChaCha20Poly1305::create_cipher_from_key(&key).unwrap();
    let nonce = [1u8; 24];
    for plain in [&[][..], &[1u8][..], &[1, 0, 1, 0xFF, 0, 0][..], &[2, 4, 0, 0, 0, 4, 0, 0, 0][..]] {
        let sealed = raw_cipher(&key)
            .encrypt(chacha20poly1305::XNonce::from_slice(&nonce), plain)
            .unwrap();
        let mut blob = nonce.to_vec();
        blob.extend_from_slice(&sealed);
        match cipher.decrypt(&blob) {
            Err(CryptographyError::BinaryDecodingError(_)) => {}
            Err(other) => panic!("wrong error: {:?}", other),
            Ok(_) => panic!("should not decode"),
        }
    }
}

#[test]
fn the_errors_of_the_cipher_have_their_texts() {
    assert_eq!(
        CryptographyError::MissingKeyError.to_string(),
        "Error couldn't find the key."
    );
    assert_eq!(
        CryptographyError::DerivationError("a".to_string()).to_string(),
        "Error couldn't derive the key: a"
    );
    assert_eq!(
        CryptographyError::BinaryEncodingError("b".to_string()).to_string(),
        "Error couldn't encode struct to binary: b"
    );
    assert_eq!(
        CryptographyError::BinaryDecodingError("c".to_string()).to_string(),
        "Error couldn't decode struct to binary: c"
    );
    assert_eq!(
        CryptographyError::EncryptionError("d".to_string()).to_string(),
        "Error couldn't encrypt data: d"
    );
    assert_eq!(
        CryptographyError::DecryptionError("e".to_string()).to_string(),
        "Error couldn't decrypt data: e"
    );
}
