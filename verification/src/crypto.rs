//! Cryptographic primitives for secure communication between peers: X25519 key agreement,
//! HKDF-SHA256 key derivation, ChaCha20-Poly1305 encryption and HMAC-SHA256.

use vstd::prelude::*;
use chacha20poly1305::aead::{Aead, AeadCore, KeyInit};
use hmac::Mac;
use crate::room_core::Error;
use crate::text::{push_decimal, push_str, string_from};

verus! {

/// Size of a ChaCha20-Poly1305 nonce, in bytes.
pub const NONCE_SIZE: usize = 12;

/// Size of an X25519 public key, in bytes.
pub const DH_PUBLIC_KEY_SIZE: usize = 32;

/// Size of an HMAC-SHA256 tag, in bytes.
pub const HMAC_SIZE: usize = 32;

/// Size of a Poly1305 authentication tag, in bytes.
pub const TAG_SIZE: usize = 16;

/// Largest number of output bytes HKDF-SHA256 can produce (255 blocks of 32 bytes).
pub const HKDF_MAX_OUTPUT: usize = 8160;

/// Messages of at least this many bytes are refused by ChaCha20-Poly1305
/// (`u32::MAX` blocks of 64 bytes).
pub const AEAD_MAX_MESSAGE: u64 = 274877906880;

/// Errors specific to cryptographic operations.
#[derive(Debug, Clone, PartialEq, Eq)]
pub enum CryptoError {
    KeyGeneration(String),
    Encryption(String),
    Decryption(String),
    HmacVerification,
    InvalidFormat(String),
    InvalidParameter(String),
}

/// The text a cryptographic error displays as.
pub open spec fn crypto_error_text(e: CryptoError) -> Seq<char> {
    match e {
        CryptoError::KeyGeneration(m) => "Key generation failed: "@ + m@,
        CryptoError::Encryption(m) => "Encryption failed: "@ + m@,
        CryptoError::Decryption(m) => "Decryption failed: "@ + m@,
        CryptoError::HmacVerification => "HMAC verification failed"@,
        CryptoError::InvalidFormat(m) => "Invalid key format: "@ + m@,
        CryptoError::InvalidParameter(m) => "Invalid parameter: "@ + m@,
    }
}

impl CryptoError {
    /// The text `Display` shows for this error.
    pub fn to_display_string(&self) -> (s: String)
        ensures
            s@ == crypto_error_text(*self),
    {
        match self {
            CryptoError::KeyGeneration(m) => {
                let mut s = string_from("Key generation failed: ");
                push_str(&mut s, m.as_str());
                s
            },
            CryptoError::Encryption(m) => {
                let mut s = string_from("Encryption failed: ");
                push_str(&mut s, m.as_str());
                s
            },
            CryptoError::Decryption(m) => {
                let mut s = string_from("Decryption failed: ");
                push_str(&mut s, m.as_str());
                s
            },
            CryptoError::HmacVerification => string_from("HMAC verification failed"),
            CryptoError::InvalidFormat(m) => {
                let mut s = string_from("Invalid key format: ");
                push_str(&mut s, m.as_str());
                s
            },
            CryptoError::InvalidParameter(m) => {
                let mut s = string_from("Invalid parameter: ");
                push_str(&mut s, m.as_str());
                s
            },
        }
    }
}

/// HKDF-SHA256 output: `hkdf_sha256(salt, ikm, info, n)` is the `n`-byte output key material
/// for salt `salt`, input key material `ikm` and context `info`.
pub uninterp spec fn hkdf_sha256(salt: Seq<u8>, ikm: Seq<u8>, info: Seq<u8>, n: nat) -> Seq<u8>;

/// HMAC-SHA256 tag of `msg` under `key`.
pub uninterp spec fn hmac_sha256(key: Seq<u8>, msg: Seq<u8>) -> Seq<u8>;

/// ChaCha20-Poly1305 ciphertext (encrypted message followed by the 16-byte tag) of `msg`
/// under `key` and `nonce`, authenticating the associated data `aad`.
pub uninterp spec fn chacha_seal(key: Seq<u8>, nonce: Seq<u8>, aad: Seq<u8>, msg: Seq<u8>) -> Seq<u8>;

/// ChaCha20-Poly1305 decryption of `ct` under `key` and `nonce` with associated data `aad`:
/// the message, or `None` when the tag does not authenticate.
pub uninterp spec fn chacha_open(key: Seq<u8>, nonce: Seq<u8>, aad: Seq<u8>, ct: Seq<u8>) -> Option<Seq<u8>>;

/// The X25519 public key of a secret key.
pub uninterp spec fn x25519_public(secret: Seq<u8>) -> Seq<u8>;

/// The X25519 shared secret of a secret key and a peer's public key.
pub uninterp spec fn x25519_shared(secret: Seq<u8>, peer_public: Seq<u8>) -> Seq<u8>;

/// `shared` is the X25519 exchange of `secret` with `peer_public`, and agrees with the other
/// side: with a peer whose public key is that of a 32-byte secret `other`, it is what
/// `other` computes with the public key of `secret`.
pub open spec fn dh_agreement(shared: Seq<u8>, secret: Seq<u8>, peer_public: Seq<u8>) -> bool {
    &&& shared == x25519_shared(secret, peer_public)
    &&& forall|other: Seq<u8>|
        other.len() == 32 && peer_public == x25519_public(other) ==> shared
            == #[trigger] x25519_shared(other, x25519_public(secret))
}

/// A random X25519 secret key (`StaticSecret::random_from_rng(OsRng)`, as bytes). It is
/// random: nothing is stated of it.
#[verifier::external_body]
pub(crate) fn random_static_secret() -> (s: [u8; 32]) {
    x25519_dalek::StaticSecret::random_from_rng(rand::rngs::OsRng).to_bytes()
}

/// `PublicKey::from(&StaticSecret::from(secret))`, as bytes.
#[verifier::external_body]
pub(crate) fn public_of(secret: &[u8; 32]) -> (p: [u8; 32])
    ensures
        p@ == x25519_public(secret@),
{
    let s = x25519_dalek::StaticSecret::from(*secret);
    x25519_dalek::PublicKey::from(&s).to_bytes()
}

/// `StaticSecret::from(secret).diffie_hellman(&PublicKey::from(peer))`, as bytes. Both sides
/// of an exchange between 32-byte secrets agree (both scalars are clamped before the
/// multiplication).
#[verifier::external_body]
pub(crate) fn shared_of(secret: &[u8; 32], peer: &[u8; 32]) -> (r: [u8; 32])
    ensures
        r@ == x25519_shared(secret@, peer@),
        forall|other: Seq<u8>|
            other.len() == 32 && peer@ == x25519_public(other) ==> r@ == #[trigger] x25519_shared(
                other,
                x25519_public(secret@),
            ),
{
    let s = x25519_dalek::StaticSecret::from(*secret);
    *s.diffie_hellman(&x25519_dalek::PublicKey::from(*peer)).as_bytes()
}

/// HKDF-SHA256 extract-and-expand (`Hkdf::<Sha256>::new(Some(salt), ikm)` then `expand`):
/// `expand` fails exactly when more than 255 blocks of 32 bytes are asked for, and otherwise
/// fills `n` bytes.
#[verifier::external_body]
fn hkdf_expand(salt: &[u8], ikm: &[u8], info: &[u8], n: usize) -> (r: Result<Vec<u8>, hkdf::InvalidLength>)
    ensures
        n <= HKDF_MAX_OUTPUT ==> r is Ok && r->Ok_0@ == hkdf_sha256(salt@, ikm@, info@, n as nat)
            && r->Ok_0@.len() == n,
        n > HKDF_MAX_OUTPUT ==> r is Err,
{
    let hk = hkdf::Hkdf::<sha2::Sha256>::new(Some(salt), ikm);
    let mut okm = vec![0u8; n];
    hk.expand(info, &mut okm).map(|_| okm)
}

/// The text `hkdf::InvalidLength` displays.
#[verifier::external_body]
fn hkdf_error_text(e: &hkdf::InvalidLength) -> (s: String)
    ensures
        s@ == "invalid number of blocks, too large output"@,
{
    e.to_string()
}

/// A random 12-byte nonce (`ChaCha20Poly1305::generate_nonce(&mut OsRng)`).
#[verifier::external_body]
fn random_nonce() -> (n: [u8; 12]) {
    let n = chacha20poly1305::ChaCha20Poly1305::generate_nonce(&mut chacha20poly1305::aead::OsRng);
    n.into()
}

/// ChaCha20-Poly1305 encryption with associated data
/// (`ChaCha20Poly1305::new(key).encrypt(nonce, Payload { msg, aad })`): refuses messages of
/// [`AEAD_MAX_MESSAGE`] bytes or more; otherwise returns the encrypted message followed by the
/// 16-byte tag, which decryption under the same key, nonce and associated data turns back into
/// the message. An error is returned as the text `aead::Error` displays.
#[verifier::external_body]
fn aead_seal(key: &[u8; 32], nonce: &[u8; 12], aad: &[u8], msg: &[u8]) -> (r: Result<Vec<u8>, String>)
    ensures
        r is Err ==> r->Err_0@ == "aead::Error"@,
        msg@.len() < AEAD_MAX_MESSAGE ==> r is Ok && r->Ok_0@ == chacha_seal(key@, nonce@, aad@, msg@)
            && r->Ok_0@.len() == msg@.len() + TAG_SIZE && chacha_open(key@, nonce@, aad@, r->Ok_0@)
            == Some(msg@),
        msg@.len() >= AEAD_MAX_MESSAGE ==> r is Err,
{
    let cipher = chacha20poly1305::ChaCha20Poly1305::new(key.into());
    let payload = chacha20poly1305::aead::Payload { msg, aad };
    cipher.encrypt(nonce.into(), payload).map_err(|e| e.to_string())
}

/// ChaCha20-Poly1305 decryption with associated data
/// (`ChaCha20Poly1305::new(key).decrypt(nonce, Payload { msg: ct, aad })`). An error is
/// returned as the text `aead::Error` displays.
#[verifier::external_body]
fn aead_open(key: &[u8; 32], nonce: &[u8; 12], aad: &[u8], ct: &[u8]) -> (r: Result<Vec<u8>, String>)
    ensures
        r is Err ==> r->Err_0@ == "aead::Error"@,
        match chacha_open(key@, nonce@, aad@, ct@) {
            Some(m) => r matches Ok(v) && v@ == m,
            None => r is Err,
        },
{
    let cipher = chacha20poly1305::ChaCha20Poly1305::new(key.into());
    let payload = chacha20poly1305::aead::Payload { msg: ct, aad };
    cipher.decrypt(nonce.into(), payload).map_err(|e| e.to_string())
}

/// HMAC-SHA256 tag (`Hmac::<Sha256>::new_from_slice(key)`, `update(msg)`, `finalize`); HMAC
/// accepts keys of every length.
#[verifier::external_body]
fn hmac_tag(key: &[u8], msg: &[u8]) -> (t: [u8; 32])
    ensures
        t@ == hmac_sha256(key@, msg@),
{
    let mut mac = <hmac::Hmac<sha2::Sha256> as Mac>::new_from_slice(key).expect(
        "HMAC accepts keys of every length",
    );
    mac.update(msg);
    mac.finalize().into_bytes().into()
}

/// HMAC-SHA256 verification (`Mac::verify_slice`): accepts exactly the full 32-byte tag of
/// `msg` under `key`.
#[verifier::external_body]
fn hmac_check(key: &[u8], msg: &[u8], tag: &[u8]) -> (ok: bool)
    ensures
        ok == (tag@.len() == HMAC_SIZE && tag@ == hmac_sha256(key@, msg@)),
{
    let mut mac = <hmac::Hmac<sha2::Sha256> as Mac>::new_from_slice(key).expect(
        "HMAC accepts keys of every length",
    );
    mac.update(msg);
    mac.verify_slice(tag).is_ok()
}

/// What [`CryptoProvider::decrypt`] yields for `data` with associated data `aad`: the
/// plaintext, or `None` on error.
pub open spec fn decrypt_result(key: Seq<u8>, aad: Seq<u8>, data: Seq<u8>) -> Option<Seq<u8>> {
    if key.len() != 32 || data.len() < NONCE_SIZE {
        None
    } else {
        chacha_open(key, data.take(NONCE_SIZE as int), aad, data.skip(NONCE_SIZE as int))
    }
}

/// Message of the error for a key of the wrong length.
pub open spec fn key_length_text(n: nat) -> Seq<char> {
    "Invalid key length: "@ + crate::text::decimal(n) + ", expected 32"@
}

fn key_length_error(n: usize) -> (e: Error)
    ensures
        e == Error::Crypto(e->Crypto_0) && e->Crypto_0@ == key_length_text(n as nat),
{
    let mut s = string_from("Invalid key length: ");
    push_decimal(&mut s, n as u64);
    push_str(&mut s, ", expected 32");
    Error::Crypto(s)
}

fn key_array(key: &[u8]) -> (k: [u8; 32])
    requires
        key@.len() == 32,
    ensures
        k@ == key@,
{
    let mut k = [0u8; 32];
    let mut i: usize = 0;
    while i < 32
        invariant
            i <= 32,
            key@.len() == 32,
            forall|j: int| 0 <= j < i ==> k@[j] == key@[j],
        decreases 32 - i,
    {
        k.set(i, key[i]);
        i = i + 1;
    }
    assert(k@ =~= key@);
    k
}

fn nonce_array(data: &[u8]) -> (n: [u8; 12])
    requires
        data@.len() >= 12,
    ensures
        n@ == data@.take(12),
{
    let mut n = [0u8; 12];
    let mut i: usize = 0;
    while i < 12
        invariant
            i <= 12,
            data@.len() >= 12,
            forall|j: int| 0 <= j < i ==> n@[j] == data@[j],
        decreases 12 - i,
    {
        n.set(i, data[i]);
        i = i + 1;
    }
    assert(n@ =~= data@.take(12));
    n
}

fn bytes_from(from: &[u8], start: usize) -> (v: Vec<u8>)
    requires
        start <= from@.len(),
    ensures
        v@ == from@.skip(start as int),
{
    let mut v: Vec<u8> = Vec::new();
    let mut i = start;
    while i < from.len()
        invariant
            start <= i <= from@.len(),
            v@ == from@.subrange(start as int, i as int),
        decreases from@.len() - i,
    {
        v.push(from[i]);
        i = i + 1;
        assert(v@ =~= from@.subrange(start as int, i as int));
    }
    assert(from@.subrange(start as int, from@.len() as int) =~= from@.skip(start as int));
    v
}

/// Cryptographic primitives; the provider holds no state.
pub struct CryptoProvider {}

impl CryptoProvider {
    /// A new crypto provider.
    pub fn new() -> (r: Result<Self, Error>)
        ensures
            r is Ok,
    {
        Ok(CryptoProvider {})
    }

    /// A fresh random X25519 key pair: the secret key's bytes and the public key's bytes.
    pub fn generate_dh_keypair() -> (r: ([u8; 32], [u8; 32]))
        ensures
            r.1@ == x25519_public(r.0@),
    {
        let secret = random_static_secret();
        let public = public_of(&secret);
        (secret, public)
    }

    /// The X25519 shared secret of our secret key and the peer's public key; the peer,
    /// computing with its secret key and our public key, gets the same.
    pub fn compute_shared_secret(private_key: [u8; 32], peer_public_key: &[u8; 32]) -> (r: [u8; 32])
        ensures
            dh_agreement(r@, private_key@, peer_public_key@),
    {
        shared_of(&private_key, peer_public_key)
    }

    /// Derives `output_length` bytes with HKDF-SHA256 from a shared secret, the link key as
    /// salt, and `info` as context.
    pub fn derive_key(shared_secret: &[u8], link_key: &[u8], info: &[u8], output_length: usize)
        -> (r: Result<Vec<u8>, Error>)
        ensures
            output_length <= HKDF_MAX_OUTPUT ==> (r matches Ok(k) && k@ == hkdf_sha256(
                link_key@,
                shared_secret@,
                info@,
                output_length as nat,
            ) && k@.len() == output_length),
            output_length > HKDF_MAX_OUTPUT ==> r == Err::<Vec<u8>, Error>(
                Error::Crypto(r->Err_0->Crypto_0),
            ) && r->Err_0->Crypto_0@ == "HKDF expand failed: "@
                + "invalid number of blocks, too large output"@,
    {
        match hkdf_expand(link_key, shared_secret, info, output_length) {
            Ok(okm) => Ok(okm),
            Err(e) => {
                let mut s = string_from("HKDF expand failed: ");
                let t = hkdf_error_text(&e);
                push_str(&mut s, t.as_str());
                Err(Error::Crypto(s))
            },
        }
    }

    /// Encrypts `plaintext` with ChaCha20-Poly1305 under a 32-byte key and a fresh random
    /// nonce, authenticating `associated_data`; the result is the nonce followed by the
    /// ciphertext and tag.
    pub fn encrypt(key: &[u8], plaintext: &[u8], associated_data: &[u8]) -> (r: Result<Vec<u8>, Error>)
        ensures
            key@.len() != 32 ==> r == Err::<Vec<u8>, Error>(Error::Crypto(r->Err_0->Crypto_0))
                && r->Err_0->Crypto_0@ == key_length_text(key@.len()),
            key@.len() == 32 && plaintext@.len() >= AEAD_MAX_MESSAGE ==> r
                == Err::<Vec<u8>, Error>(Error::Crypto(r->Err_0->Crypto_0))
                && r->Err_0->Crypto_0@ == "Encryption failed: "@ + "aead::Error"@,
            key@.len() == 32 && plaintext@.len() < AEAD_MAX_MESSAGE ==> (r matches Ok(c) && c@.len()
                == NONCE_SIZE + plaintext@.len() + TAG_SIZE && c@.skip(NONCE_SIZE as int)
                == chacha_seal(key@, c@.take(NONCE_SIZE as int), associated_data@, plaintext@)
                && decrypt_result(key@, associated_data@, c@) == Some(plaintext@)),
    {
        if key.len() != 32 {
            return Err(key_length_error(key.len()));
        }
        let k = key_array(key);
        let nonce = random_nonce();
        match aead_seal(&k, &nonce, associated_data, plaintext) {
            Ok(ct) => {
                let mut out: Vec<u8> = Vec::new();
                let mut i: usize = 0;
                while i < 12
                    invariant
                        i <= 12,
                        out@ == nonce@.take(i as int),
                    decreases 12 - i,
                {
                    out.push(nonce[i]);
                    i = i + 1;
                    assert(out@ =~= nonce@.take(i as int));
                }
                let ghost head = out@;
                let mut j: usize = 0;
                while j < ct.len()
                    invariant
                        j <= ct.len(),
                        head == nonce@,
                        out@ == head + ct@.take(j as int),
                    decreases ct.len() - j,
                {
                    out.push(ct[j]);
                    j = j + 1;
                    assert(out@ =~= head + ct@.take(j as int));
                }
                assert(nonce@.take(12) =~= nonce@);
                assert(ct@.take(ct.len() as int) =~= ct@);
                assert(out@.take(12) =~= nonce@);
                assert(out@.skip(12) =~= ct@);
                Ok(out)
            },
            Err(e) => {
                let mut s = string_from("Encryption failed: ");
                push_str(&mut s, e.as_str());
                Err(Error::Crypto(s))
            },
        }
    }

    /// Decrypts data made by [`CryptoProvider::encrypt`]: a 12-byte nonce followed by the
    /// ciphertext and tag, under a 32-byte key; the associated data must be the one it was
    /// encrypted with.
    pub fn decrypt(key: &[u8], ciphertext: &[u8], associated_data: &[u8]) -> (r: Result<Vec<u8>, Error>)
        ensures
            match decrypt_result(key@, associated_data@, ciphertext@) {
                Some(p) => r matches Ok(v) && v@ == p,
                None => r matches Err(Error::Crypto(_)),
            },
            key@.len() != 32 ==> r == Err::<Vec<u8>, Error>(Error::Crypto(r->Err_0->Crypto_0))
                && r->Err_0->Crypto_0@ == key_length_text(key@.len()),
            key@.len() == 32 && ciphertext@.len() < NONCE_SIZE ==> r == Err::<Vec<u8>, Error>(
                Error::Crypto(r->Err_0->Crypto_0),
            ) && r->Err_0->Crypto_0@ == "Ciphertext too short: "@ + crate::text::decimal(
                ciphertext@.len(),
            ) + ", expected at least 12"@,
            key@.len() == 32 && ciphertext@.len() >= NONCE_SIZE && decrypt_result(
                key@,
                associated_data@,
                ciphertext@,
            ) is None ==> r == Err::<Vec<u8>, Error>(Error::Crypto(r->Err_0->Crypto_0))
                && r->Err_0->Crypto_0@ == "Decryption failed: "@ + "aead::Error"@,
    {
        if key.len() != 32 {
            return Err(key_length_error(key.len()));
        }
        if ciphertext.len() < NONCE_SIZE {
            let mut s = string_from("Ciphertext too short: ");
            push_decimal(&mut s, ciphertext.len() as u64);
            push_str(&mut s, ", expected at least 12");
            return Err(Error::Crypto(s));
        }
        let k = key_array(key);
        let nonce = nonce_array(ciphertext);
        let body = bytes_from(ciphertext, NONCE_SIZE);
        match aead_open(&k, &nonce, associated_data, body.as_slice()) {
            Ok(p) => Ok(p),
            Err(e) => {
                let mut s = string_from("Decryption failed: ");
                push_str(&mut s, e.as_str());
                Err(Error::Crypto(s))
            },
        }
    }

    /// The HMAC-SHA256 tag of `message` under `key`; every key length is accepted.
    pub fn hmac(key: &[u8], message: &[u8]) -> (r: Result<[u8; 32], Error>)
        ensures
            r matches Ok(t) && t@ == hmac_sha256(key@, message@),
    {
        Ok(hmac_tag(key, message))
    }

    /// Checks an HMAC-SHA256 tag: `Ok` exactly when `tag` is the full tag of `message`
    /// under `key`.
    pub fn verify_hmac(key: &[u8], message: &[u8], tag: &[u8]) -> (r: Result<(), Error>)
        ensures
            (tag@ == hmac_sha256(key@, message@) && tag@.len() == HMAC_SIZE) ==> r is Ok,
            !(tag@ == hmac_sha256(key@, message@) && tag@.len() == HMAC_SIZE) ==> r
                == Err::<(), Error>(Error::Crypto(r->Err_0->Crypto_0))
                && r->Err_0->Crypto_0@ == "HMAC verification failed"@,
    {
        if hmac_check(key, message, tag) {
            Ok(())
        } else {
            Err(Error::Crypto(string_from("HMAC verification failed")))
        }
    }
}

} // verus!
