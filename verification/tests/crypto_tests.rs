use resonance::crypto::{CryptoProvider, DH_PUBLIC_KEY_SIZE, NONCE_SIZE};
use resonance::room_core::Error;

#[test]
fn test_dh_key_generation() {
    let (private_key, public_key) = CryptoProvider::generate_dh_keypair();
    assert_eq!(public_key.len(), DH_PUBLIC_KEY_SIZE);

    let (private_key2, public_key2) = CryptoProvider::generate_dh_keypair();

    let shared_secret1 = CryptoProvider::compute_shared_secret(private_key, &public_key2);
    let shared_secret2 = CryptoProvider::compute_shared_secret(private_key2, &public_key);

    assert_eq!(shared_secret1, shared_secret2);
}

#[test]
fn test_key_derivation() {
    let shared_secret = [1u8; 32];
    let link_key = b"room_link_key";
    let info = b"encryption";

    let derived_key = CryptoProvider::derive_key(&shared_secret, link_key, info, 32).unwrap();

    assert_eq!(derived_key.len(), 32);

    let derived_key2 = CryptoProvider::derive_key(&shared_secret, link_key, b"hmac", 32).unwrap();

    assert_ne!(derived_key, derived_key2);
}

#[test]
fn test_encrypt_decrypt_roundtrip() {
    let key = [7u8; 32];
    let plaintext = b"secret message";
    let associated_data = b"additional data";

    let ciphertext = CryptoProvider::encrypt(&key, plaintext, associated_data).unwrap();

    assert!(ciphertext.len() > plaintext.len() + NONCE_SIZE);

    let decrypted = CryptoProvider::decrypt(&key, &ciphertext, associated_data).unwrap();

    assert_eq!(decrypted, plaintext);

    let mut tampered = ciphertext.clone();
    if tampered.len() > NONCE_SIZE + 1 {
        tampered[NONCE_SIZE + 1] ^= 1;
        assert!(CryptoProvider::decrypt(&key, &tampered, associated_data).is_err());
    }
}

#[test]
fn test_hmac() {
    let key = b"hmac_test_key";
    let message = b"message to authenticate";

    let hmac_tag = CryptoProvider::hmac(key, message).unwrap();

    assert!(CryptoProvider::verify_hmac(key, message, &hmac_tag).is_ok());

    let modified = b"modified message";
    assert!(CryptoProvider::verify_hmac(key, modified, &hmac_tag).is_err());

    let mut modified_tag = hmac_tag;
    modified_tag[0] ^= 1;
    assert!(CryptoProvider::verify_hmac(key, message, &modified_tag).is_err());
}

#[test]
fn wrong_key_lengths_are_refused() {
    let r = CryptoProvider::encrypt(&[0u8; 16], b"x", b"");
    assert_eq!(
        r,
        Err(Error::Crypto("Invalid key length: 16, expected 32".to_string()))
    );
    let r = CryptoProvider::decrypt(&[0u8; 31], &[0u8; 40], b"");
    assert!(matches!(r, Err(Error::Crypto(_))));
}

#[test]
fn short_ciphertext_is_refused() {
    let r = CryptoProvider::decrypt(&[0u8; 32], &[0u8; 5], b"");
    assert_eq!(
        r,
        Err(Error::Crypto("Ciphertext too short: 5, expected at least 12".to_string()))
    );
}

#[test]
fn ciphertext_has_nonce_and_tag() {
    let c = CryptoProvider::encrypt(&[3u8; 32], b"abc", b"").unwrap();
    assert_eq!(c.len(), 12 + 3 + 16);
    assert_ne!(&c[12..15], b"abc");
}

#[test]
fn derive_key_too_long_fails() {
    let r = CryptoProvider::derive_key(&[1u8; 32], b"k", b"i", 8161);
    assert_eq!(
        r,
        Err(Error::Crypto(
            "HKDF expand failed: invalid number of blocks, too large output".to_string()
        ))
    );
    assert_eq!(CryptoProvider::derive_key(&[1u8; 32], b"k", b"i", 8160).unwrap().len(), 8160);
}

#[test]
fn hmac_depends_on_key_and_message() {
    let t1 = CryptoProvider::hmac(b"k1", b"m").unwrap();
    let t2 = CryptoProvider::hmac(b"k2", b"m").unwrap();
    let t3 = CryptoProvider::hmac(b"k1", b"n").unwrap();
    assert_ne!(t1, t2);
    assert_ne!(t1, t3);
    assert!(CryptoProvider::verify_hmac(b"k1", b"m", &t1[..16]).is_err());
}

#[test]
fn decryption_with_other_associated_data_fails() {
    let key = [9u8; 32];
    let c = CryptoProvider::encrypt(&key, b"payload", b"header-a").unwrap();
    assert_eq!(CryptoProvider::decrypt(&key, &c, b"header-a").unwrap(), b"payload".to_vec());
    assert!(matches!(CryptoProvider::decrypt(&key, &c, b"header-b"), Err(Error::Crypto(_))));
    assert!(matches!(CryptoProvider::decrypt(&key, &c, b""), Err(Error::Crypto(_))));
}
