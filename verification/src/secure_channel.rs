//! The peer-to-peer secure channel: static X25519 key pairs, packets sealed with
//! XChaCha20-Poly1305 under the shared secret (a random 24-byte nonce, then the
//! ciphertext), and the state of a channel through its handshake. The socket, the
//! serialization of messages and the rate limiter belong to the caller.

use vstd::prelude::*;
use chacha20poly1305::aead::{Aead, KeyInit};
use rand::RngCore;
use crate::crypto::{public_of, random_static_secret, shared_of, x25519_public, x25519_shared, AEAD_MAX_MESSAGE, TAG_SIZE};
use crate::net::SocketAddress;
use crate::p2p::ConnectionState;
use crate::room_core::{new_uuid_string, uuid_text};
use crate::text::{push_str, string_from};

verus! {

/// XChaCha20-Poly1305 ciphertext (encrypted message and tag) of `msg` under `key` and
/// `nonce`, with no associated data.
pub uninterp spec fn xchacha_seal(key: Seq<u8>, nonce: Seq<u8>, msg: Seq<u8>) -> Seq<u8>;

/// XChaCha20-Poly1305 decryption of `ct` under `key` and `nonce`, with no associated data:
/// the message, or `None` when the tag does not authenticate.
pub uninterp spec fn xchacha_open(key: Seq<u8>, nonce: Seq<u8>, ct: Seq<u8>) -> Option<Seq<u8>>;

/// A static X25519 key pair.
pub struct Keypair {
    secret: [u8; 32],
    /// The public key.
    pub public: [u8; 32],
}

impl Keypair {
    /// The secret key's bytes.
    pub closed spec fn secret_key(&self) -> Seq<u8> {
        self.secret@
    }

    /// The public key's bytes.
    pub closed spec fn public_key(&self) -> Seq<u8> {
        self.public@
    }

    /// Well-formed: the public key is the secret key's.
    pub closed spec fn wf(&self) -> bool {
        self.public@ == x25519_public(self.secret@)
    }

    /// The public key of a well-formed pair is its secret key's.
    pub proof fn lemma_public(&self)
        requires
            self.wf(),
        ensures
            self.public_key() == x25519_public(self.secret_key()),
    {
    }

    /// A fresh random key pair.
    pub fn generate() -> (k: Self)
        ensures
            k.wf(),
    {
        let secret = random_static_secret();
        let public = public_of(&secret);
        Keypair { secret, public }
    }

    /// The public key's bytes.
    pub fn public_bytes(&self) -> (r: [u8; 32])
        ensures
            r@ == self.public_key(),
    {
        self.public
    }

    /// The shared secret with a peer's public key. Two key pairs compute the same secret
    /// with each other's public keys.
    pub fn dh(&self, peer_public: &[u8; 32]) -> (r: [u8; 32])
        ensures
            r@ == x25519_shared(self.secret_key(), peer_public@),
            forall|other: Keypair|
                #![trigger other.secret_key()]
                other.wf() && peer_public@ == other.public_key() ==> r@ == x25519_shared(
                    other.secret_key(),
                    x25519_public(self.secret_key()),
                ),
    {
        let r = shared_of(&self.secret, peer_public);
        assert forall|other: Keypair|
            #![trigger other.secret_key()]
            other.wf() && peer_public@ == other.public_key() implies r@ == x25519_shared(
                other.secret_key(),
                x25519_public(self.secret_key()),
            ) by {
            assert(peer_public@ == x25519_public(other.secret_key()));
            assert(other.secret_key().len() == 32);
        }
        r
    }
}

/// Size of an XChaCha20-Poly1305 nonce, in bytes.
pub const XNONCE_SIZE: usize = 24;

/// Packets shorter than a nonce and a tag are refused before decryption.
pub const MIN_PACKET_SIZE: usize = 40;

/// Twenty-four random bytes (`thread_rng().fill_bytes`). They are random: nothing is
/// stated of them.
#[verifier::external_body]
fn random_xnonce() -> (n: [u8; 24]) {
    let mut n = [0u8; 24];
    rand::thread_rng().fill_bytes(&mut n);
    n
}

/// `XChaCha20Poly1305::new(key).encrypt(nonce, msg)`: refuses messages of
/// [`AEAD_MAX_MESSAGE`] bytes or more; otherwise the encrypted message and the 16-byte tag,
/// which decryption under the same key and nonce turns back into the message. An error is
/// returned as the text `aead::Error` displays.
#[verifier::external_body]
fn xseal(key: &[u8; 32], nonce: &[u8; 24], msg: &[u8]) -> (r: Result<Vec<u8>, String>)
    ensures
        r is Err ==> r->Err_0@ == "aead::Error"@,
        msg@.len() < AEAD_MAX_MESSAGE ==> r is Ok && r->Ok_0@ == xchacha_seal(key@, nonce@, msg@)
            && r->Ok_0@.len() == msg@.len() + TAG_SIZE && xchacha_open(key@, nonce@, r->Ok_0@)
            == Some(msg@),
        msg@.len() >= AEAD_MAX_MESSAGE ==> r is Err,
{
    let cipher = chacha20poly1305::XChaCha20Poly1305::new(key.into());
    cipher.encrypt(nonce.into(), msg).map_err(|e| e.to_string())
}

/// `XChaCha20Poly1305::new(key).decrypt(nonce, ct)`. An error is returned as the text
/// `aead::Error` displays.
#[verifier::external_body]
fn xopen(key: &[u8; 32], nonce: &[u8; 24], ct: &[u8]) -> (r: Result<Vec<u8>, String>)
    ensures
        r is Err ==> r->Err_0@ == "aead::Error"@,
        match xchacha_open(key@, nonce@, ct@) {
            Some(m) => r matches Ok(v) && v@ == m,
            None => r is Err,
        },
{
    let cipher = chacha20poly1305::XChaCha20Poly1305::new(key.into());
    cipher.decrypt(nonce.into(), ct).map_err(|e| e.to_string())
}

/// What opening a packet under `key` gives: the message, or `None`.
pub open spec fn packet_message(key: Seq<u8>, packet: Seq<u8>) -> Option<Seq<u8>> {
    if packet.len() < XNONCE_SIZE {
        None
    } else {
        xchacha_open(key, packet.take(XNONCE_SIZE as int), packet.skip(XNONCE_SIZE as int))
    }
}

/// Seals `plaintext` under the shared secret: a fresh random nonce, then the ciphertext.
/// Opening the packet with the same secret gives the plaintext back.
pub fn seal_packet(shared: &[u8; 32], plaintext: &[u8]) -> (r: Result<Vec<u8>, String>)
    ensures
        plaintext@.len() < AEAD_MAX_MESSAGE ==> (r matches Ok(p) && p@.len() == XNONCE_SIZE
            + plaintext@.len() + TAG_SIZE && packet_message(shared@, p@) == Some(plaintext@)),
        plaintext@.len() >= AEAD_MAX_MESSAGE ==> (r matches Err(m) && m@ == "Encryption error: "@
            + "aead::Error"@),
{
    let nonce = random_xnonce();
    match xseal(shared, &nonce, plaintext) {
        Ok(ct) => {
            let mut packet: Vec<u8> = Vec::new();
            let mut i: usize = 0;
            while i < 24
                invariant
                    i <= 24,
                    packet@ == nonce@.take(i as int),
                decreases 24 - i,
            {
                packet.push(nonce[i]);
                i = i + 1;
                assert(packet@ =~= nonce@.take(i as int));
            }
            let ghost head = packet@;
            let mut j: usize = 0;
            while j < ct.len()
                invariant
                    j <= ct.len(),
                    head == nonce@.take(24),
                    packet@ == head + ct@.take(j as int),
                decreases ct.len() - j,
            {
                packet.push(ct[j]);
                j = j + 1;
                assert(packet@ =~= head + ct@.take(j as int));
            }
            assert(nonce@.take(24) =~= nonce@);
            assert(ct@.take(ct.len() as int) =~= ct@);
            assert(packet@.take(24) =~= nonce@);
            assert(packet@.skip(24) =~= ct@);
            Ok(packet)
        },
        Err(e) => {
            let mut m = string_from("Encryption error: ");
            push_str(&mut m, e.as_str());
            Err(m)
        },
    }
}

/// Whether a received packet is long enough to hold a nonce and a tag.
pub fn check_packet_size(packet: &[u8]) -> (r: Result<(), String>)
    ensures
        packet@.len() >= MIN_PACKET_SIZE ==> r is Ok,
        packet@.len() < MIN_PACKET_SIZE ==> (r matches Err(m) && m@ == "Packet too small"@),
{
    if packet.len() < MIN_PACKET_SIZE {
        Err(string_from("Packet too small"))
    } else {
        Ok(())
    }
}

/// Opens a sealed packet under the shared secret: the message, or the decryption error.
pub fn open_packet(shared: &[u8; 32], packet: &[u8]) -> (r: Result<Vec<u8>, String>)
    ensures
        match packet_message(shared@, packet@) {
            Some(m) => r matches Ok(v) && v@ == m,
            None => r is Err,
        },
        packet@.len() < XNONCE_SIZE ==> (r matches Err(m) && m@ == "Received packet too small"@),
        packet@.len() >= XNONCE_SIZE && packet_message(shared@, packet@) is None ==> (r matches Err(
            m,
        ) && m@ == "Decryption error: "@ + "aead::Error"@),
{
    if packet.len() < XNONCE_SIZE {
        return Err(string_from("Received packet too small"));
    }
    let mut nonce: [u8; 24] = [0u8; 24];
    let mut i: usize = 0;
    while i < 24
        invariant
            i <= 24,
            packet@.len() >= 24,
            forall|k: int| 0 <= k < i ==> nonce@[k] == packet@[k],
        decreases 24 - i,
    {
        nonce.set(i, packet[i]);
        i = i + 1;
    }
    assert(nonce@ =~= packet@.take(24));
    let mut body: Vec<u8> = Vec::new();
    let mut j: usize = 24;
    while j < packet.len()
        invariant
            24 <= j <= packet@.len(),
            body@ == packet@.subrange(24, j as int),
        decreases packet@.len() - j,
    {
        body.push(packet[j]);
        j = j + 1;
        assert(body@ =~= packet@.subrange(24, j as int));
    }
    assert(body@ =~= packet@.skip(24));
    match xopen(shared, &nonce, body.as_slice()) {
        Ok(m) => Ok(m),
        Err(e) => {
            let mut m = string_from("Decryption error: ");
            push_str(&mut m, e.as_str());
            Err(m)
        },
    }
}

/// A handshake: the sender's public key and its session identifier.
#[derive(Debug, Clone)]
pub struct Handshake {
    pub public_key: [u8; 32],
    pub session_id: String,
}

/// A secure channel with one remote endpoint: our key pair, the shared secret once the keys
/// are exchanged, the session identifier and the connection state.
pub struct SecureChannel {
    remote: SocketAddress,
    keypair: Keypair,
    shared_secret: Option<[u8; 32]>,
    session_id: String,
    state: ConnectionState,
}

/// The shared secret as bytes, if there is one.
pub open spec fn secret_view(s: Option<[u8; 32]>) -> Option<Seq<u8>> {
    match s {
        Some(k) => Some(k@),
        None => None,
    }
}

impl SecureChannel {
    /// The remote endpoint.
    pub closed spec fn remote(&self) -> SocketAddress {
        self.remote
    }

    /// Our key pair.
    pub closed spec fn keys(&self) -> Keypair {
        self.keypair
    }

    /// The shared secret, once the keys are exchanged.
    pub closed spec fn shared(&self) -> Option<Seq<u8>> {
        secret_view(self.shared_secret)
    }

    /// The session identifier.
    pub closed spec fn session(&self) -> Seq<char> {
        self.session_id@
    }

    /// The connection state.
    pub closed spec fn conn_state(&self) -> ConnectionState {
        self.state
    }

    /// Well-formed: the key pair is.
    pub closed spec fn wf(&self) -> bool {
        self.keypair.wf()
    }

    /// A channel to `remote`, with a fresh key pair and a random session identifier, not
    /// connected and with no shared secret.
    pub fn new(remote: SocketAddress) -> (c: Self)
        ensures
            c.wf(),
            c.remote() == remote,
            c.shared() is None,
            c.conn_state() == ConnectionState::Disconnected,
            exists|x: u128| c.session() == uuid_text(x),
    {
        SecureChannel {
            remote,
            keypair: Keypair::generate(),
            shared_secret: None,
            session_id: new_uuid_string(),
            state: ConnectionState::Disconnected,
        }
    }

    /// Our public key.
    pub fn public_key(&self) -> (r: [u8; 32])
        ensures
            r@ == self.keys().public_key(),
    {
        self.keypair.public_bytes()
    }

    /// The connection state.
    pub fn state(&self) -> (r: ConnectionState)
        ensures
            r == self.conn_state(),
    {
        self.state
    }

    /// The session identifier.
    pub fn session_id(&self) -> (r: &String)
        ensures
            r@ == self.session(),
    {
        &self.session_id
    }

    /// Computes the shared secret with the remote public key and marks the channel as
    /// connected; always succeeds. A remote whose key pair made that public key computes
    /// the same secret with ours.
    pub fn compute_shared_secret(&mut self, remote_public_key: [u8; 32]) -> (r: Result<(), String>)
        requires
            old(self).wf(),
        ensures
            r is Ok,
            final(self).wf(),
            final(self).shared() == Some(
                x25519_shared(old(self).keys().secret_key(), remote_public_key@),
            ),
            forall|other: Keypair|
                #![trigger other.secret_key()]
                other.wf() && remote_public_key@ == other.public_key() ==> final(self).shared()
                    == Some(x25519_shared(other.secret_key(), old(self).keys().public_key())),
            final(self).conn_state() == ConnectionState::Connected,
            final(self).keys() == old(self).keys(),
            final(self).remote() == old(self).remote(),
            final(self).session() == old(self).session(),
    {
        let shared = self.keypair.dh(&remote_public_key);
        proof {
            self.keypair.lemma_public();
        }
        self.shared_secret = Some(shared);
        self.state = ConnectionState::Connected;
        Ok(())
    }

    /// Starts the key exchange: with the remote key known, computes the shared secret and
    /// is connected; otherwise is connecting and waits for the reply. Gives the handshake
    /// to send in either case: our public key and the session identifier.
    pub fn begin_key_exchange(&mut self, remote_public_key: Option<[u8; 32]>) -> (h: Handshake)
        requires
            old(self).wf(),
        ensures
            final(self).wf(),
            h.public_key@ == old(self).keys().public_key(),
            h.session_id@ == old(self).session(),
            final(self).keys() == old(self).keys(),
            final(self).remote() == old(self).remote(),
            final(self).session() == old(self).session(),
            remote_public_key matches Some(k) ==> final(self).shared() == Some(
                x25519_shared(old(self).keys().secret_key(), k@),
            ) && final(self).conn_state() == ConnectionState::Connected,
            remote_public_key is None ==> final(self).shared() == old(self).shared()
                && final(self).conn_state() == ConnectionState::Connecting,
    {
        match remote_public_key {
            Some(k) => {
                let _ = self.compute_shared_secret(k);
            },
            None => {
                self.state = ConnectionState::Connecting;
            },
        }
        Handshake { public_key: self.keypair.public_bytes(), session_id: self.session_id.clone() }
    }

    /// Finishes the key exchange with the reply that came from `from`: `None` stands for a
    /// message other than a handshake. From the remote endpoint, a handshake gives the
    /// shared secret and the remote's session identifier, and the channel is connected;
    /// anything else is an error that changes nothing.
    pub fn finish_key_exchange(&mut self, from: SocketAddress, reply: Option<Handshake>) -> (r: Result<
        (),
        String,
    >)
        requires
            old(self).wf(),
        ensures
            final(self).wf(),
            final(self).keys() == old(self).keys(),
            final(self).remote() == old(self).remote(),
            from != old(self).remote() ==> (r matches Err(m) && m@
                == "Received handshake from unexpected address"@),
            from == old(self).remote() && reply is None ==> (r matches Err(m) && m@
                == "Unexpected message during handshake"@),
            r is Err ==> final(self).shared() == old(self).shared() && final(self).conn_state()
                == old(self).conn_state() && final(self).session() == old(self).session(),
            from == old(self).remote() && reply is Some ==> r is Ok && final(self).shared()
                == Some(
                x25519_shared(old(self).keys().secret_key(), reply.unwrap().public_key@),
            ) && final(self).session() == reply.unwrap().session_id@ && final(self).conn_state()
                == ConnectionState::Connected,
    {
        if from != self.remote {
            return Err(string_from("Received handshake from unexpected address"));
        }
        match reply {
            Some(h) => {
                let _ = self.compute_shared_secret(h.public_key);
                self.session_id = h.session_id;
                self.state = ConnectionState::Connected;
                Ok(())
            },
            None => Err(string_from("Unexpected message during handshake")),
        }
    }

    /// Seals a serialized message for the remote: an error before the keys are exchanged.
    pub fn seal(&self, message: &[u8]) -> (r: Result<Vec<u8>, String>)
        ensures
            self.shared() is None ==> (r matches Err(m) && m@ == "Secure channel not established"@),
            self.shared() matches Some(k) ==> (message@.len() < AEAD_MAX_MESSAGE ==> (r matches Ok(
                p,
            ) && p@.len() == XNONCE_SIZE + message@.len() + TAG_SIZE && packet_message(k, p@)
                == Some(message@))) && (message@.len() >= AEAD_MAX_MESSAGE ==> (r matches Err(m)
                && m@ == "Encryption error: "@ + "aead::Error"@)),
    {
        match &self.shared_secret {
            Some(k) => seal_packet(k, message),
            None => Err(string_from("Secure channel not established")),
        }
    }

    /// Checks a received packet before the rate limiter: it must come from the remote and
    /// hold at least a nonce and a tag.
    pub fn check_incoming(&self, from: SocketAddress, packet: &[u8]) -> (r: Result<(), String>)
        ensures
            from != self.remote() ==> (r matches Err(m) && m@
                == "Received packet from unexpected address"@),
            from == self.remote() && packet@.len() < MIN_PACKET_SIZE ==> (r matches Err(m) && m@
                == "Packet too small"@),
            from == self.remote() && packet@.len() >= MIN_PACKET_SIZE ==> r is Ok,
    {
        if from != self.remote {
            return Err(string_from("Received packet from unexpected address"));
        }
        check_packet_size(packet)
    }

    /// The bytes of a received message: opened under the shared secret once the keys are
    /// exchanged; before that, messages travel in the clear.
    pub fn open_incoming(&self, packet: &[u8]) -> (r: Result<Vec<u8>, String>)
        ensures
            self.shared() is None ==> (r matches Ok(v) && v@ == packet@),
            self.shared() matches Some(k) ==> match packet_message(k, packet@) {
                Some(m) => r matches Ok(v) && v@ == m,
                None => r is Err,
            },
    {
        match &self.shared_secret {
            Some(k) => open_packet(k, packet),
            None => {
                let mut v: Vec<u8> = Vec::new();
                let mut i: usize = 0;
                while i < packet.len()
                    invariant
                        i <= packet.len(),
                        v@ == packet@.take(i as int),
                    decreases packet.len() - i,
                {
                    v.push(packet[i]);
                    i = i + 1;
                    assert(v@ =~= packet@.take(i as int));
                }
                assert(packet@.take(packet.len() as int) =~= packet@);
                Ok(v)
            },
        }
    }
}

} // verus!
