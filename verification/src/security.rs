//! A placeholder security module: a fixed key pair, a keyed XOR transform that undoes
//! itself, random session tokens, and HMAC-SHA256 signatures under the private key.

use vstd::prelude::*;
use crate::crypto::{hmac_sha256, CryptoProvider, HMAC_SIZE};
use crate::room_core::{new_uuid_string, uuid_text};
use crate::text::string_from;

verus! {

/// A key pair for secure communication.
#[derive(Debug, Clone)]
pub struct KeyPair {
    pub public_key: Vec<u8>,
    pub private_key: Vec<u8>,
}

/// Errors of the security module.
#[derive(Debug, Clone, PartialEq, Eq)]
pub enum SecurityError {
    /// No key pair has been generated yet.
    NoKeyPair,
}

/// The text a security error displays as.
pub open spec fn security_error_text(e: SecurityError) -> Seq<char> {
    match e {
        SecurityError::NoKeyPair => "No key pair available"@,
    }
}

impl SecurityError {
    /// The text this error displays as.
    pub fn to_display_string(&self) -> (s: String)
        ensures
            s@ == security_error_text(*self),
    {
        match self {
            SecurityError::NoKeyPair => string_from("No key pair available"),
        }
    }
}

/// The public key every generated pair holds.
pub open spec fn fixed_public_key() -> Seq<u8> {
    seq![1u8, 2u8, 3u8, 4u8, 5u8]
}

/// The private key every generated pair holds.
pub open spec fn fixed_private_key() -> Seq<u8> {
    seq![6u8, 7u8, 8u8, 9u8, 10u8]
}

/// `data` with each byte XORed with the key byte at its position, the key repeating.
pub open spec fn xor_with(data: Seq<u8>, key: Seq<u8>) -> Seq<u8> {
    Seq::new(data.len(), |i: int| data[i] ^ key[i % key.len() as int])
}

/// Handles encryption and security.
pub struct SecurityModule {
    current_key_pair: Option<KeyPair>,
}

impl SecurityModule {
    /// The current key pair's public key, if one has been generated.
    pub closed spec fn public_key(&self) -> Option<Seq<u8>> {
        match self.current_key_pair {
            Some(k) => Some(k.public_key@),
            None => None,
        }
    }

    /// The current key pair's private key, which signs, if one has been generated.
    pub closed spec fn signing_key(&self) -> Option<Seq<u8>> {
        match self.current_key_pair {
            Some(k) => Some(k.private_key@),
            None => None,
        }
    }

    /// Well-formed: a current key pair has a non-empty public key.
    pub closed spec fn wf(&self) -> bool {
        self.current_key_pair matches Some(k) ==> k.public_key@.len() > 0
    }

    /// A module with no key pair.
    pub fn new() -> (m: Self)
        ensures
            m.wf(),
            m.public_key() is None,
            m.signing_key() is None,
    {
        SecurityModule { current_key_pair: None }
    }

    /// Makes the fixed key pair current and returns it.
    pub fn generate_key_pair(&mut self) -> (r: Result<KeyPair, SecurityError>)
        ensures
            final(self).wf(),
            final(self).public_key() == Some(fixed_public_key()),
            final(self).signing_key() == Some(fixed_private_key()),
            r matches Ok(k) && k.public_key@ == fixed_public_key() && k.private_key@
                == fixed_private_key(),
    {
        let public_key: Vec<u8> = vec![1, 2, 3, 4, 5];
        let private_key: Vec<u8> = vec![6, 7, 8, 9, 10];
        assert(public_key@ =~= fixed_public_key());
        assert(private_key@ =~= fixed_private_key());
        self.current_key_pair = Some(
            KeyPair { public_key: public_key.clone(), private_key: private_key.clone() },
        );
        assert(self.current_key_pair.unwrap().public_key@ =~= fixed_public_key());
        assert(self.current_key_pair.unwrap().private_key@ =~= fixed_private_key());
        Ok(KeyPair { public_key, private_key })
    }

    fn transform(&self, data: &[u8]) -> (r: Result<Vec<u8>, SecurityError>)
        requires
            self.wf(),
        ensures
            self.public_key() is None ==> r == Err::<Vec<u8>, SecurityError>(
                SecurityError::NoKeyPair,
            ),
            self.public_key() matches Some(k) ==> (r matches Ok(v) && v@ == xor_with(data@, k)),
    {
        let key = match &self.current_key_pair {
            Some(k) => &k.public_key,
            None => {
                return Err(SecurityError::NoKeyPair);
            },
        };
        let mut out: Vec<u8> = Vec::new();
        let mut i: usize = 0;
        while i < data.len()
            invariant
                i <= data.len(),
                key@.len() > 0,
                out@ == xor_with(data@, key@).take(i as int),
            decreases data.len() - i,
        {
            out.push(data[i] ^ key[i % key.len()]);
            i = i + 1;
            assert(out@ =~= xor_with(data@, key@).take(i as int));
        }
        assert(xor_with(data@, key@).take(data.len() as int) =~= xor_with(data@, key@));
        Ok(out)
    }

    /// XORs `data` with the public key, repeated; an error without a key pair.
    pub fn encrypt(&self, data: &[u8]) -> (r: Result<Vec<u8>, SecurityError>)
        requires
            self.wf(),
        ensures
            self.public_key() is None ==> r == Err::<Vec<u8>, SecurityError>(
                SecurityError::NoKeyPair,
            ),
            self.public_key() matches Some(k) ==> (r matches Ok(v) && v@ == xor_with(data@, k)),
    {
        self.transform(data)
    }

    /// Undoes [`SecurityModule::encrypt`] (the same transform); an error without a key pair.
    pub fn decrypt(&self, data: &[u8]) -> (r: Result<Vec<u8>, SecurityError>)
        requires
            self.wf(),
        ensures
            self.public_key() is None ==> r == Err::<Vec<u8>, SecurityError>(
                SecurityError::NoKeyPair,
            ),
            self.public_key() matches Some(k) ==> (r matches Ok(v) && v@ == xor_with(data@, k)),
    {
        self.transform(data)
    }

    /// A fresh random session token: the text of a random UUID.
    pub fn generate_session_token(&self) -> (s: String)
        ensures
            exists|x: u128| s@ == uuid_text(x),
    {
        new_uuid_string()
    }

    /// Signs `data`: its HMAC-SHA256 tag under the current private key; an error without a
    /// key pair.
    pub fn sign(&self, data: &[u8]) -> (r: Result<Vec<u8>, SecurityError>)
        ensures
            self.signing_key() is None ==> r == Err::<Vec<u8>, SecurityError>(
                SecurityError::NoKeyPair,
            ),
            self.signing_key() matches Some(k) ==> (r matches Ok(sig) && sig@ == hmac_sha256(
                k,
                data@,
            ) && sig@.len() == HMAC_SIZE),
    {
        match &self.current_key_pair {
            Some(k) => {
                let tag = match CryptoProvider::hmac(k.private_key.as_slice(), data) {
                    Ok(t) => t,
                    Err(_) => {
                        return Err(SecurityError::NoKeyPair);
                    },
                };
                let mut sig: Vec<u8> = Vec::new();
                let mut i: usize = 0;
                while i < 32
                    invariant
                        i <= 32,
                        sig@ == tag@.take(i as int),
                    decreases 32 - i,
                {
                    sig.push(tag[i]);
                    i = i + 1;
                    assert(sig@ =~= tag@.take(i as int));
                }
                assert(tag@.take(32) =~= tag@);
                Ok(sig)
            },
            None => Err(SecurityError::NoKeyPair),
        }
    }

    /// Checks that `signature` authenticates `data`: true exactly when a key pair exists and
    /// `signature` is the full HMAC-SHA256 tag of `data` under its private key.
    pub fn verify_signature(&self, data: &[u8], signature: &[u8]) -> (b: bool)
        ensures
            b == (self.signing_key() matches Some(k) && signature@.len() == HMAC_SIZE
                && signature@ == hmac_sha256(k, data@)),
    {
        match &self.current_key_pair {
            Some(k) => CryptoProvider::verify_hmac(k.private_key.as_slice(), data, signature).is_ok(),
            None => false,
        }
    }
}

/// Decryption undoes encryption: XORing twice with the same non-empty key gives the data
/// back.
pub proof fn lemma_xor_roundtrip(data: Seq<u8>, key: Seq<u8>)
    requires
        key.len() > 0,
    ensures
        xor_with(xor_with(data, key), key) == data,
{
    assert forall|i: int| 0 <= i < data.len() implies #[trigger] xor_with(
        xor_with(data, key),
        key,
    )[i] == data[i] by {
        let a = data[i];
        let b = key[i % key.len() as int];
        assert((a ^ b) ^ b == a) by (bit_vector);
    }
    assert(xor_with(xor_with(data, key), key) =~= data);
}

} // verus!
