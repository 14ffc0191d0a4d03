use resonance::security::{SecurityError, SecurityModule};

#[test]
fn test_key_generation() {
    let mut security = SecurityModule::new();
    let key_pair = security.generate_key_pair().unwrap();

    assert!(!key_pair.public_key.is_empty());
    assert!(!key_pair.private_key.is_empty());
}

#[test]
fn test_encryption_decryption() {
    let mut security = SecurityModule::new();
    security.generate_key_pair().unwrap();

    let original_data = b"test audio data".to_vec();

    let encrypted = security.encrypt(&original_data).unwrap();
    let decrypted = security.decrypt(&encrypted).unwrap();

    assert_eq!(original_data, decrypted);
    assert_ne!(original_data, encrypted);
}

#[test]
fn test_session_token_generation() {
    let security = SecurityModule::new();
    let token1 = security.generate_session_token();
    let token2 = security.generate_session_token();

    assert!(!token1.is_empty());
    assert_ne!(token1, token2);
}

#[test]
fn encryption_without_key_pair_fails() {
    let security = SecurityModule::new();
    assert_eq!(security.encrypt(b"data"), Err(SecurityError::NoKeyPair));
    assert_eq!(security.decrypt(b"data"), Err(SecurityError::NoKeyPair));
    assert_eq!(SecurityError::NoKeyPair.to_display_string(), "No key pair available");
}

#[test]
fn encryption_xors_with_the_repeated_public_key() {
    let mut security = SecurityModule::new();
    let pair = security.generate_key_pair().unwrap();
    assert_eq!(pair.public_key, vec![1, 2, 3, 4, 5]);
    assert_eq!(pair.private_key, vec![6, 7, 8, 9, 10]);
    let encrypted = security.encrypt(&[0, 0, 0, 0, 0, 0, 255]).unwrap();
    assert_eq!(encrypted, vec![1, 2, 3, 4, 5, 1, 253]);
}

#[test]
fn signatures_authenticate_the_signed_data() {
    let mut security = SecurityModule::new();
    assert_eq!(security.sign(b"msg"), Err(SecurityError::NoKeyPair));
    assert!(!security.verify_signature(b"msg", b""));
    security.generate_key_pair().unwrap();
    let sig = security.sign(b"msg").unwrap();
    assert_eq!(sig.len(), 32);
    assert!(security.verify_signature(b"msg", &sig));
    assert!(!security.verify_signature(b"msg", b""));
    assert!(!security.verify_signature(b"msg", b"sig"));
    assert!(!security.verify_signature(b"other", &sig));
    assert!(!security.verify_signature(b"msg", &sig[..16]));
    let mut forged = sig.clone();
    forged[0] ^= 1;
    assert!(!security.verify_signature(b"msg", &forged));
    let fresh = SecurityModule::new();
    assert!(!fresh.verify_signature(b"msg", &sig));
}
