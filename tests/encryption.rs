use webtags_host::encryption::{
    decode_stored_key, encode_key_for_store, generate_key, EncryptedData, EncryptionError,
    EncryptionManager,
};

fn key() -> Vec<u8> {
    (0u8..32).collect()
}

fn envelope(encrypted: bool, algorithm: &str, nonce: Vec<u8>) -> EncryptedData {
    EncryptedData {
        version: "1".to_string(),
        encrypted,
        algorithm: algorithm.to_string(),
        nonce,
        ciphertext: vec![1, 2, 3, 4, 5],
    }
}

#[test]
fn test_encryption_manager_creation() {
    let manager = EncryptionManager::new(false);
    assert!(!manager.is_enabled());
    let manager = EncryptionManager::new(true);
    assert!(manager.is_enabled());
}

#[test]
fn test_encrypt_when_disabled() {
    let manager = EncryptionManager::new(false);
    let plaintext = b"test data";
    let result = manager.encrypt(&key(), plaintext);
    assert!(result.is_err());
    assert!(matches!(result.unwrap_err(), EncryptionError::NotEnabled));
}

#[test]
fn test_decrypt_with_invalid_nonce_size() {
    let manager = EncryptionManager::new(true);
    let encrypted = envelope(true, "AES-256-GCM", vec![1, 2, 3]);
    let result = manager.decrypt(&key(), &encrypted);
    assert!(result.is_err());
    assert_eq!(result.unwrap_err(), EncryptionError::InvalidNonceSize);
}

#[test]
fn test_decrypt_with_unsupported_algorithm() {
    let manager = EncryptionManager::new(true);
    let encrypted = envelope(true, "AES-128-CBC", vec![1, 2, 3, 4, 5, 6, 7, 8, 9, 10, 11, 12]);
    let result = manager.decrypt(&key(), &encrypted);
    assert!(result.is_err());
    assert_eq!(result.unwrap_err(), EncryptionError::UnsupportedAlgorithm);
}

#[test]
fn test_decrypt_when_not_encrypted() {
    let manager = EncryptionManager::new(true);
    let encrypted = envelope(false, "AES-256-GCM", vec![1, 2, 3, 4, 5, 6, 7, 8, 9, 10, 11, 12]);
    let result = manager.decrypt(&key(), &encrypted);
    assert!(result.is_err());
    assert_eq!(result.unwrap_err(), EncryptionError::NotEncrypted);
}

#[test]
fn sealing_then_opening_gives_the_plaintext_back() {
    let manager = EncryptionManager::new(true);
    let plaintext = b"{\"jsonapi\":{\"version\":\"1.1\"},\"data\":[]}".to_vec();
    let sealed = manager.encrypt(&key(), &plaintext).unwrap();
    assert_eq!(sealed.version, "1");
    assert!(sealed.encrypted);
    assert_eq!(sealed.algorithm, "AES-256-GCM");
    assert_eq!(sealed.nonce.len(), 12);
    assert_eq!(sealed.ciphertext.len(), plaintext.len() + 16);
    assert_ne!(&sealed.ciphertext[..plaintext.len()], &plaintext[..]);
    assert_eq!(manager.decrypt(&key(), &sealed).unwrap(), plaintext);
}

#[test]
fn two_sealings_use_different_nonces() {
    let manager = EncryptionManager::new(true);
    let a = manager.encrypt(&key(), b"same text").unwrap();
    let b = manager.encrypt(&key(), b"same text").unwrap();
    assert_ne!(a.nonce, b.nonce);
    assert_ne!(a.ciphertext, b.ciphertext);
}

#[test]
fn tampered_or_wrongly_keyed_envelope_does_not_open() {
    let manager = EncryptionManager::new(true);
    let mut sealed = manager.encrypt(&key(), b"secret").unwrap();
    let other: Vec<u8> = vec![7u8; 32];
    assert_eq!(manager.decrypt(&other, &sealed).unwrap_err(), EncryptionError::DecryptionFailed);
    sealed.ciphertext[0] ^= 1;
    assert_eq!(manager.decrypt(&key(), &sealed).unwrap_err(), EncryptionError::DecryptionFailed);
}

#[test]
fn key_size_and_enabled_flag_are_checked() {
    let on = EncryptionManager::new(true);
    assert_eq!(on.encrypt(&[1, 2, 3], b"x").unwrap_err(), EncryptionError::InvalidKeySize);
    let e = envelope(true, "AES-256-GCM", vec![0; 12]);
    assert_eq!(on.decrypt(&[1, 2, 3], &e).unwrap_err(), EncryptionError::InvalidKeySize);
    let off = EncryptionManager::new(false);
    assert_eq!(off.decrypt(&key(), &e).unwrap_err(), EncryptionError::NotEnabled);
}

#[test]
fn generated_keys_are_fresh_and_sized() {
    let a = generate_key().unwrap();
    let b = generate_key().unwrap();
    assert_eq!(a.len(), 32);
    assert_ne!(a, b);
}

#[test]
fn stored_key_form_round_trips() {
    let stored = encode_key_for_store(&[0u8; 32]);
    assert_eq!(stored, format!("{}=", "A".repeat(43)));
    assert_eq!(decode_stored_key(&stored).unwrap(), vec![0u8; 32]);
    let k = key();
    assert_eq!(decode_stored_key(&encode_key_for_store(&k)).unwrap(), k);
    assert_eq!(decode_stored_key("AAAA").unwrap_err(), EncryptionError::InvalidKeySize);
    assert_eq!(decode_stored_key("not base64!").unwrap_err(), EncryptionError::KeyDecodeFailed);
}

#[test]
fn sealing_with_a_given_nonce_is_deterministic() {
    let manager = EncryptionManager::new(true);
    let nonce: Vec<u8> = (20u8..32).collect();
    let a = manager.seal_with_nonce(&key(), nonce.clone(), b"text").unwrap();
    let b = manager.seal_with_nonce(&key(), nonce.clone(), b"text").unwrap();
    assert_eq!(a.nonce, nonce);
    assert_eq!(a.ciphertext, b.ciphertext);
    assert_eq!(a.ciphertext.len(), 4 + 16);
    assert_eq!(manager.decrypt(&key(), &a).unwrap(), b"text".to_vec());
    assert_eq!(
        manager.seal_with_nonce(&key(), vec![0; 11], b"text").unwrap_err(),
        EncryptionError::InvalidNonceSize
    );
    assert_eq!(
        EncryptionManager::new(false).seal_with_nonce(&key(), nonce, b"text").unwrap_err(),
        EncryptionError::NotEnabled
    );
}
