//! The bootstrap protocol (phase 1): peers exchange hellos and X25519 public keys over UDP,
//! derive session keys with HKDF, authenticate the exchange with an HMAC tag, and then talk
//! through ChaCha20-Poly1305.
//!
//! The network state and every decision live here. The socket, the timer and the event
//! channel belong to the caller: each step returns the actions to perform, in order, and the
//! result to report once they have all succeeded.

use vstd::prelude::*;
use std::collections::HashMap;
use crate::address_book::AddressBook;
use crate::crypto::{dh_agreement, hkdf_sha256, hmac_sha256, decrypt_result, x25519_public, x25519_shared, CryptoProvider};
use crate::net::SocketAddress;
use crate::protocol::{PeerInfo, Phase1Message, PROTOCOL_VERSION};
use crate::room_core::{peer_text, push_peer, Error, NetworkEvent, PeerId, RoomId};
use crate::text::{push_str, string_from};

verus! {

broadcast use vstd::std_specs::hash::group_hash_axioms;

/// Default port for phase-1 connections.
pub const DEFAULT_PORT: u16 = 12345;

/// Interval between keep-alive pings, in seconds.
pub const PING_INTERVAL: u64 = 30;

/// A joined peer silent for longer than this many milliseconds (two ping intervals) is
/// dropped.
pub const PING_TIMEOUT_MS: u64 = 60000;

/// Connection state for a peer.
#[derive(Debug, Clone, Copy, PartialEq, Eq, Structural)]
pub enum ConnectionState {
    /// Initial state, no connection yet.
    Initial,
    /// Hello exchanged, waiting for the key exchange.
    HelloExchanged,
    /// Keys exchanged, waiting for authentication.
    KeyExchanged,
    /// Authenticated: the secure channel is established.
    Authenticated,
    /// Join request sent, waiting for the answer.
    JoinRequested,
    /// Joined the room.
    Joined,
}

/// A peer connection: the peer, the state of the handshake, and the keys it produced.
pub struct PeerConnection {
    /// Peer information.
    pub info: PeerInfo,
    /// Current connection state.
    pub state: ConnectionState,
    /// Our X25519 secret key for this connection, until it is used.
    pub private_key: Option<[u8; 32]>,
    /// The peer's X25519 public key.
    pub peer_public_key: Option<[u8; 32]>,
    /// Shared secret of the key exchange.
    pub shared_secret: Option<[u8; 32]>,
    /// Key for what we send.
    pub encryption_key: Option<Vec<u8>>,
    /// Key for what we receive.
    pub decryption_key: Option<Vec<u8>>,
    /// Key of the authentication tag.
    pub hmac_key: Option<Vec<u8>>,
    /// Our own X25519 public key for this connection.
    pub our_public_key: Option<[u8; 32]>,
    /// When we last heard from the peer, in milliseconds of the caller's monotonic clock.
    pub last_received: u64,
}

/// A freshly made connection to `id` at `addr`, seen at time `now`: no name and no keys.
pub open spec fn fresh_conn(c: PeerConnection, id: PeerId, addr: SocketAddress, now: u64) -> bool {
    &&& c.info.peer_id == id
    &&& c.info.address == addr
    &&& c.info.name is None
    &&& c.peer_public_key is None
    &&& c.shared_secret is None
    &&& c.encryption_key is None
    &&& c.decryption_key is None
    &&& c.hmac_key is None
    &&& c.last_received == now
}

/// Whether a connection last heard from at `last` has been silent longer than `timeout`
/// at time `now` (an earlier `now` counts as no time elapsed).
pub open spec fn silent_longer(last: u64, now: u64, timeout: u64) -> bool {
    now >= last && now - last > timeout
}

impl PeerConnection {
    /// A new connection to `peer_id` at `address`, in the initial state, heard from at `now`.
    pub fn new(peer_id: PeerId, address: SocketAddress, now: u64) -> (c: Self)
        ensures
            fresh_conn(c, peer_id, address, now),
            c.state == ConnectionState::Initial,
            c.private_key is None,
            c.our_public_key is None,
    {
        PeerConnection {
            info: PeerInfo { peer_id, address, name: None },
            state: ConnectionState::Initial,
            private_key: None,
            peer_public_key: None,
            shared_secret: None,
            encryption_key: None,
            decryption_key: None,
            hmac_key: None,
            our_public_key: None,
            last_received: now,
        }
    }

    /// Records that the peer was heard from at `now`.
    pub fn update_received_time(&mut self, now: u64)
        ensures
            final(self).last_received == now,
            final(self).info == old(self).info,
            final(self).state == old(self).state,
            final(self).private_key == old(self).private_key,
            final(self).peer_public_key == old(self).peer_public_key,
            final(self).shared_secret == old(self).shared_secret,
            final(self).encryption_key == old(self).encryption_key,
            final(self).decryption_key == old(self).decryption_key,
            final(self).hmac_key == old(self).hmac_key,
            final(self).our_public_key == old(self).our_public_key,
    {
        self.last_received = now;
    }

    /// Whether the peer has been silent for longer than `timeout_ms` at time `now`.
    pub fn is_timed_out(&self, now: u64, timeout_ms: u64) -> (b: bool)
        ensures
            b == silent_longer(self.last_received, now, timeout_ms),
    {
        now >= self.last_received && now - self.last_received > timeout_ms
    }
}

/// What the caller performs for a step, in order.
pub enum Phase1Action {
    /// Serialize `message` and send it to `to`.
    Send { to: SocketAddress, message: Phase1Message },
    /// Serialize `message`, encrypt it with [`CryptoProvider::encrypt`] under `key`, and send
    /// it to `to` as the payload of an `EncryptedMessage`.
    SendEncrypted { to: SocketAddress, key: Vec<u8>, message: Phase1Message },
    /// Deliver `event` to the listeners.
    Emit { event: NetworkEvent },
    /// Deliver a message received from `peer_id` to the listeners.
    Forward { peer_id: PeerId, message: Phase1Message },
    /// Deserialize `plaintext`, decrypted from a message of `peer_id` that came from `from`,
    /// and hand it to [`Phase1Network::handle_inner_message`]; drop it if it does not parse.
    Decode { peer_id: PeerId, from: SocketAddress, plaintext: Vec<u8> },
    /// Hand the state to [`Phase1Network::set_peer_state`].
    SetState { peer_id: PeerId, state: ConnectionState },
    /// Hand our key pair to [`Phase1Network::store_own_keys`].
    StoreOwnKeys { peer_id: PeerId, secret: [u8; 32], public_key: [u8; 32] },
}

/// The outcome of a step: actions to perform in order, stopping at the first that fails,
/// and the result to report when they all succeed.
pub struct Phase1Step {
    pub actions: Vec<Phase1Action>,
    pub outcome: Result<(), Error>,
}

/// Bytes of an ASCII text.
pub open spec fn ascii_bytes(s: Seq<char>) -> Seq<u8> {
    s.map_values(|c: char| c as u8)
}

/// Key-derivation context of the direction from the lower peer identifier to the higher.
pub open spec fn context_a_to_b() -> Seq<u8> {
    ascii_bytes("room-A-to-B"@)
}

/// Key-derivation context of the direction from the higher peer identifier to the lower.
pub open spec fn context_b_to_a() -> Seq<u8> {
    ascii_bytes("room-B-to-A"@)
}

/// Key-derivation context of the authentication key.
pub open spec fn context_hmac() -> Seq<u8> {
    ascii_bytes("room-hmac"@)
}

/// The context of the key `me` encrypts with towards `peer`.
pub open spec fn encryption_context(me: u128, peer: u128) -> Seq<u8> {
    if me <= peer {
        context_a_to_b()
    } else {
        context_b_to_a()
    }
}

/// The context of the key `me` decrypts with from `peer`.
pub open spec fn decryption_context(me: u128, peer: u128) -> Seq<u8> {
    if me <= peer {
        context_b_to_a()
    } else {
        context_a_to_b()
    }
}

/// The 32-byte session key for `context`, from the shared secret and the room's bytes.
pub open spec fn session_key(room: Seq<u8>, shared: Seq<u8>, context: Seq<u8>) -> Seq<u8> {
    hkdf_sha256(room, shared, context, 32)
}

fn context_a() -> (b: &'static [u8])
    ensures
        b@ == context_a_to_b(),
{
    proof {
        reveal_strlit("room-A-to-B");
        vstd::string::is_ascii_spec_bytes("room-A-to-B");
    }
    let b = "room-A-to-B".as_bytes();
    assert(b@ =~= context_a_to_b());
    b
}

fn context_b() -> (b: &'static [u8])
    ensures
        b@ == context_b_to_a(),
{
    proof {
        reveal_strlit("room-B-to-A");
        vstd::string::is_ascii_spec_bytes("room-B-to-A");
    }
    let b = "room-B-to-A".as_bytes();
    assert(b@ =~= context_b_to_a());
    b
}

fn context_mac() -> (b: &'static [u8])
    ensures
        b@ == context_hmac(),
{
    proof {
        reveal_strlit("room-hmac");
        vstd::string::is_ascii_spec_bytes("room-hmac");
    }
    let b = "room-hmac".as_bytes();
    assert(b@ =~= context_hmac());
    b
}

/// Lexicographic order of byte strings, the order `<=` gives byte slices.
pub open spec fn bytes_le(a: Seq<u8>, b: Seq<u8>) -> bool
    decreases a.len(),
{
    if a.len() == 0 {
        true
    } else if b.len() == 0 {
        false
    } else if a[0] < b[0] {
        true
    } else if a[0] > b[0] {
        false
    } else {
        bytes_le(a.drop_first(), b.drop_first())
    }
}

/// The data the authentication tag covers: the two public keys, the lesser first.
pub open spec fn auth_data(ours: Seq<u8>, theirs: Seq<u8>) -> Seq<u8> {
    if bytes_le(ours, theirs) {
        ours + theirs
    } else {
        theirs + ours
    }
}

proof fn lemma_bytes_le_skip(a: Seq<u8>, b: Seq<u8>, i: int)
    requires
        0 <= i < a.len(),
        a.len() == b.len(),
        a[i] == b[i],
    ensures
        bytes_le(a.skip(i), b.skip(i)) == bytes_le(a.skip(i + 1), b.skip(i + 1)),
{
    assert(a.skip(i).drop_first() =~= a.skip(i + 1));
    assert(b.skip(i).drop_first() =~= b.skip(i + 1));
}

fn keys_le(a: &[u8; 32], b: &[u8; 32]) -> (r: bool)
    ensures
        r == bytes_le(a@, b@),
{
    let mut i: usize = 0;
    assert(a@.skip(0) =~= a@);
    assert(b@.skip(0) =~= b@);
    while i < 32
        invariant
            i <= 32,
            a@.len() == 32,
            b@.len() == 32,
            bytes_le(a@, b@) == bytes_le(a@.skip(i as int), b@.skip(i as int)),
        decreases 32 - i,
    {
        if a[i] < b[i] {
            assert(a@.skip(i as int)[0] == a@[i as int]);
            assert(b@.skip(i as int)[0] == b@[i as int]);
            return true;
        }
        if a[i] > b[i] {
            assert(a@.skip(i as int)[0] == a@[i as int]);
            assert(b@.skip(i as int)[0] == b@[i as int]);
            return false;
        }
        proof {
            lemma_bytes_le_skip(a@, b@, i as int);
        }
        i = i + 1;
    }
    assert(a@.skip(32).len() == 0);
    true
}

fn push_key(v: &mut Vec<u8>, k: &[u8; 32])
    ensures
        final(v)@ == old(v)@ + k@,
{
    let ghost start = v@;
    let mut i: usize = 0;
    while i < 32
        invariant
            i <= 32,
            k@.len() == 32,
            v@ == start + k@.take(i as int),
        decreases 32 - i,
    {
        v.push(k[i]);
        i = i + 1;
        assert(v@ =~= start + k@.take(i as int));
    }
    assert(k@.take(32) =~= k@);
}

/// The bytes the authentication tag covers.
fn auth_bytes(ours: &[u8; 32], theirs: &[u8; 32]) -> (v: Vec<u8>)
    ensures
        v@ == auth_data(ours@, theirs@),
{
    let mut v: Vec<u8> = Vec::new();
    if keys_le(ours, theirs) {
        push_key(&mut v, ours);
        push_key(&mut v, theirs);
    } else {
        push_key(&mut v, theirs);
        push_key(&mut v, ours);
    }
    assert(v@ =~= auth_data(ours@, theirs@));
    v
}

/// A connection's invariant: it is stored under its peer's identifier, and every key it
/// holds is 32 bytes long.
pub open spec fn conn_wf(c: PeerConnection, k: u128) -> bool {
    &&& c.info.peer_id@ == k
    &&& (c.encryption_key matches Some(e) ==> e@.len() == 32)
    &&& (c.decryption_key matches Some(d) ==> d@.len() == 32)
    &&& (c.hmac_key matches Some(h) ==> h@.len() == 32)
}

/// States in which encrypted messages are accepted and sent.
pub open spec fn is_secure(s: ConnectionState) -> bool {
    s == ConnectionState::Authenticated || s == ConnectionState::JoinRequested || s
        == ConnectionState::Joined
}

/// Manages the phase-1 network: our identity, the room, and the peer connections.
pub struct Phase1Network {
    peer_id: PeerId,
    room_id: Option<RoomId>,
    peers: HashMap<u128, PeerConnection>,
    peer_addresses: AddressBook,
    crypto: CryptoProvider,
    is_server: bool,
}

/// The content of a phase-1 network.
pub struct Phase1Model {
    /// Our peer identifier.
    pub peer_id: PeerId,
    /// The room we created or connect to.
    pub room_id: Option<RoomId>,
    /// Whether we created the room.
    pub is_server: bool,
    /// The connections, by peer identifier.
    pub peers: Map<u128, PeerConnection>,
    /// The peer at each known address.
    pub addresses: Map<SocketAddress, PeerId>,
}

impl View for Phase1Network {
    type V = Phase1Model;

    closed spec fn view(&self) -> Phase1Model {
        Phase1Model {
            peer_id: self.peer_id,
            room_id: self.room_id,
            is_server: self.is_server,
            peers: self.peers@,
            addresses: self.peer_addresses@,
        }
    }
}

/// `new` differs from `old` at most at key `k`, which it holds.
pub open spec fn only_changed(
    old: Map<u128, PeerConnection>,
    new: Map<u128, PeerConnection>,
    k: u128,
) -> bool {
    &&& new.dom() == old.dom().insert(k)
    &&& forall|j: u128| j != k && #[trigger] old.contains_key(j) ==> new[j] == old[j]
}

/// The connections and addresses are unchanged.
pub open spec fn unchanged(old: Phase1Model, new: Phase1Model) -> bool {
    new.peers == old.peers && new.addresses == old.addresses
}

/// Nothing changes, nothing is to be done, and the step succeeds.
pub open spec fn quiet(old: Phase1Model, new: Phase1Model, r: Phase1Step) -> bool {
    unchanged(old, new) && r.actions@.len() == 0 && r.outcome is Ok
}

/// The message of a peer-identifier error: `prefix` then the peer's display text.
pub open spec fn peer_error_text(prefix: Seq<char>, id: u128) -> Seq<char> {
    prefix + peer_text(id)
}

fn peer_error(prefix: &str, id: &PeerId) -> (s: String)
    ensures
        s@ == peer_error_text(prefix@, id@),
{
    let mut s = string_from(prefix);
    push_peer(&mut s, id);
    s
}

impl Phase1Network {
    /// Well-formed: the address book is, and so is every connection.
    pub closed spec fn wf(&self) -> bool {
        &&& self.peer_addresses.wf()
        &&& forall|k: u128| #[trigger] self.peers@.contains_key(k) ==> conn_wf(self.peers@[k], k)
    }

    /// A network for peer `peer_id`, in no room, with no connections.
    pub fn new(peer_id: PeerId) -> (n: Self)
        ensures
            n.wf(),
            n@.peer_id == peer_id,
            n@.room_id is None,
            !n@.is_server,
            n@.peers == Map::<u128, PeerConnection>::empty(),
            n@.addresses == Map::<SocketAddress, PeerId>::empty(),
    {
        let crypto = match CryptoProvider::new() {
            Ok(c) => c,
            Err(_) => CryptoProvider {},
        };
        Phase1Network {
            peer_id,
            room_id: None,
            peers: HashMap::new(),
            peer_addresses: AddressBook::new(),
            crypto,
            is_server: false,
        }
    }

    /// Our peer identifier.
    pub fn peer_id(&self) -> (r: PeerId)
        ensures
            r == self@.peer_id,
    {
        self.peer_id
    }

    /// The room we created or connect to.
    pub fn room_id(&self) -> (r: Option<RoomId>)
        ensures
            r == self@.room_id,
    {
        self.room_id
    }

    /// Whether we created the room.
    pub fn is_server(&self) -> (r: bool)
        ensures
            r == self@.is_server,
    {
        self.is_server
    }

    /// The peer known at `addr`, if any.
    pub fn peer_at(&self, addr: &SocketAddress) -> (r: Option<PeerId>)
        requires
            self.wf(),
        ensures
            r == (if self@.addresses.contains_key(*addr) {
                Some(self@.addresses[*addr])
            } else {
                None::<PeerId>
            }),
    {
        self.peer_addresses.get(addr)
    }

    /// The state of the connection to `peer_id`, if there is one.
    pub fn peer_state(&self, peer_id: PeerId) -> (r: Option<ConnectionState>)
        ensures
            r == (if self@.peers.contains_key(peer_id@) {
                Some(self@.peers[peer_id@].state)
            } else {
                None::<ConnectionState>
            }),
    {
        match self.peers.get(&peer_id.as_u128()) {
            Some(c) => Some(c.state),
            None => None,
        }
    }

    /// Sets the state of the connection to `peer_id`, if there is one.
    pub fn set_peer_state(&mut self, peer_id: PeerId, state: ConnectionState)
        requires
            old(self).wf(),
        ensures
            final(self).wf(),
            final(self)@.peer_id == old(self)@.peer_id,
            final(self)@.room_id == old(self)@.room_id,
            final(self)@.is_server == old(self)@.is_server,
            final(self)@.addresses == old(self)@.addresses,
            !old(self)@.peers.contains_key(peer_id@) ==> final(self)@.peers == old(self)@.peers,
            old(self)@.peers.contains_key(peer_id@) ==> {
                let c = old(self)@.peers[peer_id@];
                let n = final(self)@.peers[peer_id@];
                &&& only_changed(old(self)@.peers, final(self)@.peers, peer_id@)
                &&& n.state == state
                &&& n.info == c.info
                &&& n.last_received == c.last_received
                &&& n.private_key == c.private_key
                &&& n.peer_public_key == c.peer_public_key
                &&& n.shared_secret == c.shared_secret
                &&& n.encryption_key == c.encryption_key
                &&& n.decryption_key == c.decryption_key
                &&& n.hmac_key == c.hmac_key
                &&& n.our_public_key == c.our_public_key
            },
    {
        let k = peer_id.as_u128();
        match self.peers.remove(&k) {
            Some(mut c) => {
                c.state = state;
                self.peers.insert(k, c);
                assert(self.peers@.dom() =~= old(self).peers@.dom().insert(k));
            },
            None => {
                assert(self.peers@ =~= old(self).peers@);
            },
        }
    }

    /// Stores our key pair on the connection to `peer_id`, if there is one.
    pub fn store_own_keys(
        &mut self,
        peer_id: PeerId,
        secret: [u8; 32],
        public_key: [u8; 32],
    )
        requires
            old(self).wf(),
        ensures
            final(self).wf(),
            final(self)@.peer_id == old(self)@.peer_id,
            final(self)@.room_id == old(self)@.room_id,
            final(self)@.is_server == old(self)@.is_server,
            final(self)@.addresses == old(self)@.addresses,
            !old(self)@.peers.contains_key(peer_id@) ==> final(self)@.peers == old(self)@.peers,
            old(self)@.peers.contains_key(peer_id@) ==> {
                let c = old(self)@.peers[peer_id@];
                let n = final(self)@.peers[peer_id@];
                &&& only_changed(old(self)@.peers, final(self)@.peers, peer_id@)
                &&& n.private_key == Some(secret)
                &&& n.our_public_key == Some(public_key)
                &&& n.state == c.state
                &&& n.info == c.info
                &&& n.last_received == c.last_received
                &&& n.peer_public_key == c.peer_public_key
                &&& n.shared_secret == c.shared_secret
                &&& n.encryption_key == c.encryption_key
                &&& n.decryption_key == c.decryption_key
                &&& n.hmac_key == c.hmac_key
            },
    {
        let k = peer_id.as_u128();
        match self.peers.remove(&k) {
            Some(mut c) => {
                c.our_public_key = Some(public_key);
                c.private_key = Some(secret);
                self.peers.insert(k, c);
                assert(self.peers@.dom() =~= old(self).peers@.dom().insert(k));
            },
            None => {
                assert(self.peers@ =~= old(self).peers@);
            },
        }
    }

    /// Sets the room to connect to and asks the host at `address` to let us in.
    pub fn connect(&mut self, room_id: RoomId, address: SocketAddress) -> (r: Phase1Step)
        ensures
            final(self)@.room_id == Some(room_id),
            final(self)@.peer_id == old(self)@.peer_id,
            final(self)@.is_server == old(self)@.is_server,
            unchanged(old(self)@, final(self)@),
            final(self).wf() == old(self).wf(),
            r.outcome is Ok,
            r.actions@.len() == 1,
            r.actions@[0] == (Phase1Action::Send {
                to: address,
                message: Phase1Message::HelloInitiate {
                    version: PROTOCOL_VERSION,
                    room_id,
                    peer_id: old(self)@.peer_id,
                },
            }),
    {
        self.room_id = Some(room_id);
        let hello = Phase1Message::HelloInitiate {
            version: PROTOCOL_VERSION,
            room_id,
            peer_id: self.peer_id,
        };
        let mut actions: Vec<Phase1Action> = Vec::new();
        actions.push(Phase1Action::Send { to: address, message: hello });
        Phase1Step { actions, outcome: Ok(()) }
    }

    /// Creates a room: sets it and becomes its host.
    pub fn create_room(&mut self, room_id: RoomId) -> (r: Result<(), Error>)
        ensures
            r is Ok,
            final(self)@.room_id == Some(room_id),
            final(self)@.is_server,
            final(self)@.peer_id == old(self)@.peer_id,
            unchanged(old(self)@, final(self)@),
            final(self).wf() == old(self).wf(),
    {
        self.room_id = Some(room_id);
        self.is_server = true;
        Ok(())
    }

    /// Prepares `message` for `peer_id`, to be sent encrypted: an error if the peer is
    /// unknown, or not authenticated yet.
    pub fn send_message(&self, peer_id: PeerId, message: Phase1Message) -> (r: Result<
        Phase1Action,
        Error,
    >)
        requires
            self.wf(),
        ensures
            !self@.peers.contains_key(peer_id@) ==> (r matches Err(Error::Network(m)) && m@
                == peer_error_text("Peer not found: "@, peer_id@)),
            self@.peers.contains_key(peer_id@) ==> {
                let c = self@.peers[peer_id@];
                if is_secure(c.state) && c.encryption_key is Some {
                    r matches Ok(Phase1Action::SendEncrypted { to, key, message: m }) && to
                        == c.info.address && key@ == c.encryption_key.unwrap()@ && m == message
                } else {
                    r matches Err(Error::Network(m)) && m@ == peer_error_text(
                        "Peer not authenticated: "@,
                        peer_id@,
                    )
                }
            },
    {
        match self.peers.get(&peer_id.as_u128()) {
            Some(c) => {
                if c.state == ConnectionState::Authenticated || c.state
                    == ConnectionState::JoinRequested || c.state == ConnectionState::Joined {
                    match &c.encryption_key {
                        Some(k) => {
                            return Ok(
                                Phase1Action::SendEncrypted {
                                    to: c.info.address,
                                    key: k.clone(),
                                    message,
                                },
                            );
                        },
                        None => {},
                    }
                }
                Err(Error::Network(peer_error("Peer not authenticated: ", &peer_id)))
            },
            None => Err(Error::Network(peer_error("Peer not found: ", &peer_id))),
        }
    }

    /// Prepares a join response for `peer_id`, as [`Phase1Network::send_message`] does.
    pub fn send_join_response(&self, peer_id: PeerId, approved: bool, reason: Option<String>)
        -> (r: Result<Phase1Action, Error>)
        requires
            self.wf(),
        ensures
            !self@.peers.contains_key(peer_id@) ==> (r matches Err(Error::Network(m)) && m@
                == peer_error_text("Peer not found: "@, peer_id@)),
            self@.peers.contains_key(peer_id@) ==> {
                let c = self@.peers[peer_id@];
                if is_secure(c.state) && c.encryption_key is Some {
                    r matches Ok(
                        Phase1Action::SendEncrypted {
                            to,
                            key,
                            message: Phase1Message::JoinResponse { approved: a, reason: why },
                        },
                    ) && to == c.info.address && key@ == c.encryption_key.unwrap()@ && a
                        == approved && why == reason
                } else {
                    r matches Err(Error::Network(m)) && m@ == peer_error_text(
                        "Peer not authenticated: "@,
                        peer_id@,
                    )
                }
            },
    {
        let response = Phase1Message::JoinResponse { approved, reason };
        self.send_message(peer_id, response)
    }

    /// Forgets the connection to `peer_id` and its address.
    pub fn disconnect_peer(&mut self, peer_id: PeerId) -> (r: Result<(), Error>)
        requires
            old(self).wf(),
        ensures
            r is Ok,
            final(self).wf(),
            final(self)@.peer_id == old(self)@.peer_id,
            final(self)@.room_id == old(self)@.room_id,
            final(self)@.is_server == old(self)@.is_server,
            final(self)@.peers == old(self)@.peers.remove(peer_id@),
            old(self)@.peers.contains_key(peer_id@) ==> final(self)@.addresses == old(
                self,
            )@.addresses.remove(old(self)@.peers[peer_id@].info.address),
            !old(self)@.peers.contains_key(peer_id@) ==> final(self)@.addresses == old(
                self,
            )@.addresses,
    {
        match self.peers.remove(&peer_id.as_u128()) {
            Some(c) => {
                self.peer_addresses.remove(&c.info.address);
            },
            None => {},
        }
        assert(self.peers@ =~= old(self).peers@.remove(peer_id@));
        Ok(())
    }
}

/// `n` keeps everything of `c` but the state and the time it was last heard from.
pub open spec fn same_keys(n: PeerConnection, c: PeerConnection) -> bool {
    &&& n.info == c.info
    &&& n.private_key == c.private_key
    &&& n.peer_public_key == c.peer_public_key
    &&& n.shared_secret == c.shared_secret
    &&& n.encryption_key == c.encryption_key
    &&& n.decryption_key == c.decryption_key
    &&& n.hmac_key == c.hmac_key
    &&& n.our_public_key == c.our_public_key
}

/// A hello from `from` at `addr` has been recorded: a fresh connection in `HelloExchanged`
/// replaces any earlier one, the address maps to the peer, and the first action announces
/// the peer.
pub open spec fn hello_recorded(
    old: Phase1Model,
    new: Phase1Model,
    r: Phase1Step,
    from: PeerId,
    addr: SocketAddress,
    now: u64,
) -> bool {
    &&& only_changed(old.peers, new.peers, from@)
    &&& new.addresses == old.addresses.insert(addr, from)
    &&& fresh_conn(new.peers[from@], from, addr, now)
    &&& new.peers[from@].state == ConnectionState::HelloExchanged
    &&& r.outcome is Ok
    &&& r.actions@.len() == 3
    &&& r.actions@[0] == (Phase1Action::Emit {
        event: NetworkEvent::PeerConnected { peer_id: from, address: addr },
    })
}

/// A `HelloInitiate` was handled (we are the host): on another protocol version nothing
/// happens; otherwise the peer is recorded with a fresh key pair of ours, and we answer with
/// a `HelloAck` and our public key.
pub open spec fn hello_initiate_handled(
    old: Phase1Model,
    new: Phase1Model,
    r: Phase1Step,
    version: u8,
    room_id: RoomId,
    from: PeerId,
    addr: SocketAddress,
    now: u64,
) -> bool {
    if version != PROTOCOL_VERSION {
        quiet(old, new, r)
    } else {
        &&& hello_recorded(old, new, r, from, addr, now)
        &&& new.peers[from@].private_key matches Some(sk)
        &&& new.peers[from@].our_public_key matches Some(pk) && pk@ == x25519_public(sk@)
        &&& r.actions@[1] == (Phase1Action::Send {
            to: addr,
            message: Phase1Message::HelloAck {
                version: PROTOCOL_VERSION,
                room_id,
                peer_id: old.peer_id,
            },
        })
        &&& new.peers[from@].our_public_key matches Some(pk)
        &&& r.actions@[2] matches Phase1Action::Send {
            to,
            message: Phase1Message::DHPubKey { pub_key },
        }
        &&& to == addr
        &&& pub_key@ == pk@
    }
}

/// A `HelloAck` was handled (we are joining): on another protocol version nothing happens;
/// otherwise the host is recorded, we send a fresh public key, and once it is sent the key
/// pair is stored on the connection.
pub open spec fn hello_ack_handled(
    old: Phase1Model,
    new: Phase1Model,
    r: Phase1Step,
    version: u8,
    from: PeerId,
    addr: SocketAddress,
    now: u64,
) -> bool {
    if version != PROTOCOL_VERSION {
        quiet(old, new, r)
    } else {
        &&& hello_recorded(old, new, r, from, addr, now)
        &&& new.peers[from@].private_key is None
        &&& new.peers[from@].our_public_key is None
        &&& r.actions@[1] matches Phase1Action::Send {
            to,
            message: Phase1Message::DHPubKey { pub_key },
        }
        &&& to == addr
        &&& r.actions@[2] matches Phase1Action::StoreOwnKeys { peer_id, secret, public_key }
        &&& peer_id == from
        &&& public_key@ == pub_key@
        &&& public_key@ == x25519_public(secret@)
    }
}

/// The three session keys of a connection, derived from its shared secret and the room.
pub open spec fn keys_derived(n: PeerConnection, room: Seq<u8>, me: u128, peer: u128) -> bool {
    &&& n.shared_secret matches Some(s)
    &&& n.encryption_key matches Some(e)
    &&& n.decryption_key matches Some(d)
    &&& n.hmac_key matches Some(h)
    &&& e@ == session_key(room, s@, encryption_context(me, peer))
    &&& d@ == session_key(room, s@, decryption_context(me, peer))
    &&& h@ == session_key(room, s@, context_hmac())
}

/// A peer's public key `pub_key` was handled. From an unknown address or peer nothing
/// happens. Otherwise the key is stored and the peer heard from; if our own key pair is
/// there, our secret key is used up and, in a room, the session keys are derived, an
/// authentication tag is sent to the peer, and the connection then moves to `KeyExchanged`;
/// outside a room that is an error. Without our key pair the connection stays in
/// `HelloExchanged`.
pub open spec fn dh_key_handled(
    old: Phase1Model,
    new: Phase1Model,
    r: Phase1Step,
    pub_key: Seq<u8>,
    incoming: Option<PeerId>,
    room: Option<RoomId>,
    room_bytes: Seq<u8>,
    now: u64,
) -> bool {
    match incoming {
        None => quiet(old, new, r),
        Some(pid) => if !old.peers.contains_key(pid@) {
            quiet(old, new, r)
        } else {
            let c = old.peers[pid@];
            let n = new.peers[pid@];
            &&& only_changed(old.peers, new.peers, pid@)
            &&& new.addresses == old.addresses
            &&& n.info == c.info
            &&& n.last_received == now
            &&& n.our_public_key == c.our_public_key
            &&& n.peer_public_key matches Some(p)
            &&& p@ == pub_key
            &&& if c.private_key is Some && c.our_public_key is Some {
                &&& n.private_key is None
                &&& n.state == c.state
                &&& match room {
                    None => {
                        &&& n.shared_secret == c.shared_secret
                        &&& n.encryption_key == c.encryption_key
                        &&& n.decryption_key == c.decryption_key
                        &&& n.hmac_key == c.hmac_key
                        &&& r.actions@.len() == 0
                        &&& r.outcome matches Err(Error::InvalidState(m))
                        &&& m@ == "Room ID not set when processing DHPubKey"@
                    },
                    Some(_) => {
                        &&& keys_derived(n, room_bytes, old.peer_id@, pid@)
                        &&& dh_agreement(n.shared_secret.unwrap()@, c.private_key.unwrap()@, pub_key)
                        &&& r.outcome is Ok
                        &&& r.actions@.len() == 2
                        &&& r.actions@[1] == (Phase1Action::SetState {
                            peer_id: pid,
                            state: ConnectionState::KeyExchanged,
                        })
                        &&& r.actions@[0] matches Phase1Action::Send {
                            to,
                            message: Phase1Message::AuthTag { tag },
                        }
                        &&& to == c.info.address
                        &&& tag@ == hmac_sha256(
                            n.hmac_key.unwrap()@,
                            auth_data(c.our_public_key.unwrap()@, pub_key),
                        )
                    },
                }
            } else {
                &&& n.state == ConnectionState::HelloExchanged
                &&& n.private_key == c.private_key
                &&& n.shared_secret == c.shared_secret
                &&& n.encryption_key == c.encryption_key
                &&& n.decryption_key == c.decryption_key
                &&& n.hmac_key == c.hmac_key
                &&& r.actions@.len() == 0
                &&& r.outcome is Ok
            }
        },
    }
}

/// The authentication tag a connection expects from its peer.
pub open spec fn expected_tag(c: PeerConnection) -> Seq<u8> {
    hmac_sha256(
        c.hmac_key.unwrap()@,
        auth_data(c.our_public_key.unwrap()@, c.peer_public_key.unwrap()@),
    )
}

/// An authentication tag `tag` from `addr` was handled. From an unknown address or peer
/// nothing happens. Otherwise the peer is heard from; without the keys to check the tag
/// nothing else happens. A good tag authenticates the connection and is announced; a
/// joining peer (not the host) then sends its encrypted join request, and once it is sent
/// the connection moves to `JoinRequested`. A bad tag resets the connection and the failure
/// is announced.
pub open spec fn auth_tag_handled(
    old: Phase1Model,
    new: Phase1Model,
    r: Phase1Step,
    tag: Seq<u8>,
    addr: SocketAddress,
    incoming: Option<PeerId>,
    is_server: bool,
    now: u64,
) -> bool {
    match incoming {
        None => quiet(old, new, r),
        Some(pid) => if !old.peers.contains_key(pid@) {
            quiet(old, new, r)
        } else {
            let c = old.peers[pid@];
            let n = new.peers[pid@];
            &&& only_changed(old.peers, new.peers, pid@)
            &&& new.addresses == old.addresses
            &&& same_keys(n, c)
            &&& n.last_received == now
            &&& if c.hmac_key is Some && c.our_public_key is Some && c.peer_public_key is Some {
                if tag == expected_tag(c) {
                    &&& n.state == ConnectionState::Authenticated
                    &&& r.actions@.len() >= 1
                    &&& r.actions@[0] == (Phase1Action::Emit {
                        event: NetworkEvent::AuthenticationSucceeded { peer_id: pid },
                    })
                    &&& if is_server {
                        r.actions@.len() == 1 && r.outcome is Ok
                    } else {
                        match c.encryption_key {
                            None => {
                                &&& r.actions@.len() == 1
                                &&& r.outcome matches Err(Error::InvalidState(m))
                                &&& m@ == "Missing encryption key after auth"@
                            },
                            Some(e) => {
                                &&& r.actions@.len() == 3
                                &&& r.outcome is Ok
                                &&& r.actions@[2] == (Phase1Action::SetState {
                                    peer_id: pid,
                                    state: ConnectionState::JoinRequested,
                                })
                                &&& r.actions@[1] matches Phase1Action::SendEncrypted {
                                    to,
                                    key,
                                    message: Phase1Message::JoinRequest { peer_id, name },
                                }
                                &&& to == c.info.address
                                &&& key@ == e@
                                &&& peer_id == old.peer_id
                                &&& name@ == "User"@
                            },
                        }
                    }
                } else {
                    &&& n.state == ConnectionState::Initial
                    &&& r.actions@.len() == 1
                    &&& r.outcome is Ok
                    &&& r.actions@[0] matches Phase1Action::Emit {
                        event: NetworkEvent::AuthenticationFailed { address, reason },
                    }
                    &&& address == addr
                    &&& reason@ == "HMAC verification failed"@
                }
            } else {
                n.state == c.state && r.actions@.len() == 0 && r.outcome is Ok
            }
        },
    }
}

/// An encrypted `payload` from `addr` was handled: nothing changes; when it comes from a
/// known peer of a secure connection and decrypts under the connection's key, the plaintext
/// is handed back for decoding; otherwise it is dropped.
pub open spec fn encrypted_handled(
    old: Phase1Model,
    new: Phase1Model,
    r: Phase1Step,
    payload: Seq<u8>,
    addr: SocketAddress,
    incoming: Option<PeerId>,
) -> bool {
    &&& unchanged(old, new)
    &&& r.outcome is Ok
    &&& match incoming {
        None => r.actions@.len() == 0,
        Some(pid) => {
            let c = old.peers[pid@];
            if old.peers.contains_key(pid@) && is_secure(c.state) && c.decryption_key is Some
                && decrypt_result(c.decryption_key.unwrap()@, Seq::empty(), payload) is Some {
                &&& r.actions@.len() == 1
                &&& r.actions@[0] matches Phase1Action::Decode { peer_id, from, plaintext }
                &&& peer_id == pid
                &&& from == addr
                &&& plaintext@ == decrypt_result(c.decryption_key.unwrap()@, Seq::empty(), payload).unwrap()
            } else {
                r.actions@.len() == 0
            }
        },
    }
}

/// A message received from `addr`, whose sender the address book names `incoming`, was
/// handled with the room `room` (serialized as `room_bytes`) and the host flag `is_server`.
/// Messages that only travel encrypted, and pings in the clear, are ignored.
pub open spec fn message_handled(
    old: Phase1Model,
    new: Phase1Model,
    r: Phase1Step,
    message: Phase1Message,
    addr: SocketAddress,
    incoming: Option<PeerId>,
    room: Option<RoomId>,
    room_bytes: Seq<u8>,
    is_server: bool,
    now: u64,
) -> bool {
    match message {
        Phase1Message::HelloInitiate { version, room_id, peer_id } => hello_initiate_handled(
            old,
            new,
            r,
            version,
            room_id,
            peer_id,
            addr,
            now,
        ),
        Phase1Message::HelloAck { version, room_id, peer_id } => hello_ack_handled(
            old,
            new,
            r,
            version,
            peer_id,
            addr,
            now,
        ),
        Phase1Message::DHPubKey { pub_key } => dh_key_handled(
            old,
            new,
            r,
            pub_key@,
            incoming,
            room,
            room_bytes,
            now,
        ),
        Phase1Message::AuthTag { tag } => auth_tag_handled(
            old,
            new,
            r,
            tag@,
            addr,
            incoming,
            is_server,
            now,
        ),
        Phase1Message::EncryptedMessage { payload } => encrypted_handled(
            old,
            new,
            r,
            payload@,
            addr,
            incoming,
        ),
        _ => quiet(old, new, r),
    }
}

/// A decrypted message from the connection of `pid` was handled: a join request or a join
/// answer is announced (an approval first marks the connection `Joined`); a ping is answered
/// with an encrypted pong when the connection has a key, and then forwarded; a pong whose
/// sender is the connection's peer refreshes it and is forwarded; anything else is forwarded.
pub open spec fn inner_handled(
    old: Phase1Model,
    new: Phase1Model,
    r: Phase1Step,
    pid: PeerId,
    addr: SocketAddress,
    message: Phase1Message,
    now: u64,
) -> bool {
    &&& new.addresses == old.addresses
    &&& r.outcome is Ok
    &&& match message {
        Phase1Message::JoinRequest { peer_id: req, name } => {
            &&& new.peers == old.peers
            &&& r.actions@.len() == 1
            &&& r.actions@[0] matches Phase1Action::Emit {
                event: NetworkEvent::JoinRequested { peer_id: p, name: n, address },
            }
            &&& p == req
            &&& n == name
            &&& address == addr
        },
        Phase1Message::JoinResponse { approved, reason } => {
            &&& r.actions@.len() == 1
            &&& r.actions@[0] matches Phase1Action::Emit {
                event: NetworkEvent::JoinResponseReceived { approved: a, reason: why },
            }
            &&& a == approved
            &&& why == reason
            &&& if approved && old.peers.contains_key(pid@) {
                &&& only_changed(old.peers, new.peers, pid@)
                &&& new.peers[pid@].state == ConnectionState::Joined
                &&& same_keys(new.peers[pid@], old.peers[pid@])
                &&& new.peers[pid@].last_received == old.peers[pid@].last_received
            } else {
                new.peers == old.peers
            }
        },
        Phase1Message::Ping { peer_id: pinger } => {
            let c = old.peers[pid@];
            &&& new.peers == old.peers
            &&& if old.peers.contains_key(pid@) && c.encryption_key is Some {
                &&& r.actions@.len() == 2
                &&& r.actions@[1] == (Phase1Action::Forward {
                    peer_id: pid,
                    message: Phase1Message::Ping { peer_id: pinger },
                })
                &&& r.actions@[0] matches Phase1Action::SendEncrypted {
                    to,
                    key,
                    message: Phase1Message::Pong { peer_id: me },
                }
                &&& to == c.info.address
                &&& key@ == c.encryption_key.unwrap()@
                &&& me == old.peer_id
            } else {
                r.actions@.len() == 0
            }
        },
        Phase1Message::Pong { peer_id: ponger } => {
            let c = old.peers[pid@];
            if old.peers.contains_key(pid@) && c.info.peer_id == ponger {
                &&& only_changed(old.peers, new.peers, pid@)
                &&& new.peers[pid@].last_received == now
                &&& new.peers[pid@].state == c.state
                &&& same_keys(new.peers[pid@], c)
                &&& r.actions@.len() == 1
                &&& r.actions@[0] == (Phase1Action::Forward {
                    peer_id: pid,
                    message: Phase1Message::Pong { peer_id: ponger },
                })
            } else {
                new.peers == old.peers && r.actions@.len() == 0
            }
        },
        _ => {
            &&& new.peers == old.peers
            &&& r.actions@.len() == 1
            &&& r.actions@[0] == (Phase1Action::Forward { peer_id: pid, message })
        },
    }
}

fn quiet_step() -> (r: Phase1Step)
    ensures
        r.actions@.len() == 0,
        r.outcome is Ok,
{
    Phase1Step { actions: Vec::new(), outcome: Ok(()) }
}

impl Phase1Network {
    fn on_hello_initiate(
        &mut self,
        version: u8,
        room_id: RoomId,
        from: PeerId,
        addr: SocketAddress,
        now: u64,
    ) -> (r: Phase1Step)
        requires
            old(self).wf(),
        ensures
            final(self).wf(),
            final(self)@.peer_id == old(self)@.peer_id,
            final(self)@.room_id == old(self)@.room_id,
            final(self)@.is_server == old(self)@.is_server,
            hello_initiate_handled(old(self)@, final(self)@, r, version, room_id, from, addr, now),
    {
        if version != PROTOCOL_VERSION {
            return quiet_step();
        }
        let mut conn = PeerConnection::new(from, addr, now);
        conn.state = ConnectionState::HelloExchanged;
        let (secret, public) = CryptoProvider::generate_dh_keypair();
        conn.our_public_key = Some(public);
        conn.private_key = Some(secret);
        self.peers.insert(from.as_u128(), conn);
        self.peer_addresses.insert(addr, from);
        let mut actions: Vec<Phase1Action> = Vec::new();
        actions.push(
            Phase1Action::Emit { event: NetworkEvent::PeerConnected { peer_id: from, address: addr } },
        );
        actions.push(
            Phase1Action::Send {
                to: addr,
                message: Phase1Message::HelloAck {
                    version: PROTOCOL_VERSION,
                    room_id,
                    peer_id: self.peer_id,
                },
            },
        );
        actions.push(Phase1Action::Send { to: addr, message: Phase1Message::DHPubKey { pub_key: public } });
        Phase1Step { actions, outcome: Ok(()) }
    }

    fn on_hello_ack(&mut self, version: u8, from: PeerId, addr: SocketAddress, now: u64) -> (r:
        Phase1Step)
        requires
            old(self).wf(),
        ensures
            final(self).wf(),
            final(self)@.peer_id == old(self)@.peer_id,
            final(self)@.room_id == old(self)@.room_id,
            final(self)@.is_server == old(self)@.is_server,
            hello_ack_handled(old(self)@, final(self)@, r, version, from, addr, now),
    {
        if version != PROTOCOL_VERSION {
            return quiet_step();
        }
        let mut conn = PeerConnection::new(from, addr, now);
        conn.state = ConnectionState::HelloExchanged;
        self.peers.insert(from.as_u128(), conn);
        self.peer_addresses.insert(addr, from);
        let (secret, public) = CryptoProvider::generate_dh_keypair();
        let mut actions: Vec<Phase1Action> = Vec::new();
        actions.push(
            Phase1Action::Emit { event: NetworkEvent::PeerConnected { peer_id: from, address: addr } },
        );
        actions.push(Phase1Action::Send { to: addr, message: Phase1Message::DHPubKey { pub_key: public } });
        actions.push(Phase1Action::StoreOwnKeys { peer_id: from, secret, public_key: public });
        Phase1Step { actions, outcome: Ok(()) }
    }

    fn on_dh_pub_key(
        &mut self,
        pub_key: [u8; 32],
        incoming: Option<PeerId>,
        current_room_id: Option<RoomId>,
        room_id_bytes: &[u8],
        now: u64,
    ) -> (r: Phase1Step)
        requires
            old(self).wf(),
        ensures
            final(self).wf(),
            final(self)@.peer_id == old(self)@.peer_id,
            final(self)@.room_id == old(self)@.room_id,
            final(self)@.is_server == old(self)@.is_server,
            dh_key_handled(
                old(self)@,
                final(self)@,
                r,
                pub_key@,
                incoming,
                current_room_id,
                room_id_bytes@,
                now,
            ),
    {
        let pid = match incoming {
            Some(p) => p,
            None => {
                return quiet_step();
            },
        };
        let k = pid.as_u128();
        let mut c = match self.peers.remove(&k) {
            Some(c) => c,
            None => {
                assert(self.peers@ =~= old(self).peers@);
                return quiet_step();
            },
        };
        c.last_received = now;
        c.peer_public_key = Some(pub_key);
        if c.private_key.is_some() && c.our_public_key.is_some() {
            let secret = c.private_key.take().unwrap();
            let ours = c.our_public_key.unwrap();
            let shared = CryptoProvider::compute_shared_secret(secret, &pub_key);
            if current_room_id.is_none() {
                self.peers.insert(k, c);
                assert(self.peers@.dom() =~= old(self).peers@.dom().insert(k));
                return Phase1Step {
                    actions: Vec::new(),
                    outcome: Err(
                        Error::InvalidState(string_from("Room ID not set when processing DHPubKey")),
                    ),
                };
            }
            let (enc_ctx, dec_ctx) = if self.peer_id.as_u128() <= k {
                (context_a(), context_b())
            } else {
                (context_b(), context_a())
            };
            let enc = match CryptoProvider::derive_key(&shared, room_id_bytes, enc_ctx, 32) {
                Ok(x) => x,
                Err(e) => {
                    self.peers.insert(k, c);
                    return Phase1Step { actions: Vec::new(), outcome: Err(e) };
                },
            };
            let dec = match CryptoProvider::derive_key(&shared, room_id_bytes, dec_ctx, 32) {
                Ok(x) => x,
                Err(e) => {
                    self.peers.insert(k, c);
                    return Phase1Step { actions: Vec::new(), outcome: Err(e) };
                },
            };
            let hk = match CryptoProvider::derive_key(&shared, room_id_bytes, context_mac(), 32) {
                Ok(x) => x,
                Err(e) => {
                    self.peers.insert(k, c);
                    return Phase1Step { actions: Vec::new(), outcome: Err(e) };
                },
            };
            let data = auth_bytes(&ours, &pub_key);
            let tag = match CryptoProvider::hmac(hk.as_slice(), data.as_slice()) {
                Ok(t) => t,
                Err(e) => {
                    self.peers.insert(k, c);
                    return Phase1Step { actions: Vec::new(), outcome: Err(e) };
                },
            };
            let to = c.info.address;
            c.shared_secret = Some(shared);
            c.encryption_key = Some(enc);
            c.decryption_key = Some(dec);
            c.hmac_key = Some(hk);
            self.peers.insert(k, c);
            assert(self.peers@.dom() =~= old(self).peers@.dom().insert(k));
            let mut actions: Vec<Phase1Action> = Vec::new();
            actions.push(Phase1Action::Send { to, message: Phase1Message::AuthTag { tag } });
            actions.push(
                Phase1Action::SetState { peer_id: pid, state: ConnectionState::KeyExchanged },
            );
            Phase1Step { actions, outcome: Ok(()) }
        } else {
            c.state = ConnectionState::HelloExchanged;
            self.peers.insert(k, c);
            assert(self.peers@.dom() =~= old(self).peers@.dom().insert(k));
            quiet_step()
        }
    }
}

impl Phase1Network {
    fn on_auth_tag(
        &mut self,
        tag: [u8; 32],
        addr: SocketAddress,
        incoming: Option<PeerId>,
        is_server: bool,
        now: u64,
    ) -> (r: Phase1Step)
        requires
            old(self).wf(),
        ensures
            final(self).wf(),
            final(self)@.peer_id == old(self)@.peer_id,
            final(self)@.room_id == old(self)@.room_id,
            final(self)@.is_server == old(self)@.is_server,
            auth_tag_handled(old(self)@, final(self)@, r, tag@, addr, incoming, is_server, now),
    {
        let pid = match incoming {
            Some(p) => p,
            None => {
                return quiet_step();
            },
        };
        let k = pid.as_u128();
        let mut c = match self.peers.remove(&k) {
            Some(c) => c,
            None => {
                assert(self.peers@ =~= old(self).peers@);
                return quiet_step();
            },
        };
        c.last_received = now;
        if !(c.hmac_key.is_some() && c.our_public_key.is_some() && c.peer_public_key.is_some()) {
            self.peers.insert(k, c);
            assert(self.peers@.dom() =~= old(self).peers@.dom().insert(k));
            return quiet_step();
        }
        let ours = c.our_public_key.unwrap();
        let theirs = c.peer_public_key.unwrap();
        let data = auth_bytes(&ours, &theirs);
        let verified = match &c.hmac_key {
            Some(hk) => CryptoProvider::verify_hmac(hk.as_slice(), data.as_slice(), &tag).is_ok(),
            None => false,
        };
        let mut actions: Vec<Phase1Action> = Vec::new();
        if !verified {
            c.state = ConnectionState::Initial;
            self.peers.insert(k, c);
            assert(self.peers@.dom() =~= old(self).peers@.dom().insert(k));
            actions.push(
                Phase1Action::Emit {
                    event: NetworkEvent::AuthenticationFailed {
                        address: addr,
                        reason: string_from("HMAC verification failed"),
                    },
                },
            );
            return Phase1Step { actions, outcome: Ok(()) };
        }
        c.state = ConnectionState::Authenticated;
        let to = c.info.address;
        let key = match &c.encryption_key {
            Some(e) => Some(e.clone()),
            None => None,
        };
        self.peers.insert(k, c);
        assert(self.peers@.dom() =~= old(self).peers@.dom().insert(k));
        actions.push(
            Phase1Action::Emit { event: NetworkEvent::AuthenticationSucceeded { peer_id: pid } },
        );
        if is_server {
            return Phase1Step { actions, outcome: Ok(()) };
        }
        match key {
            None => Phase1Step {
                actions,
                outcome: Err(Error::InvalidState(string_from("Missing encryption key after auth"))),
            },
            Some(e) => {
                let request = Phase1Message::JoinRequest {
                    peer_id: self.peer_id,
                    name: string_from("User"),
                };
                actions.push(Phase1Action::SendEncrypted { to, key: e, message: request });
                actions.push(
                    Phase1Action::SetState { peer_id: pid, state: ConnectionState::JoinRequested },
                );
                Phase1Step { actions, outcome: Ok(()) }
            },
        }
    }

    fn on_encrypted(&self, payload: &[u8], addr: SocketAddress, incoming: Option<PeerId>) -> (r:
        Phase1Step)
        requires
            self.wf(),
        ensures
            encrypted_handled(self@, self@, r, payload@, addr, incoming),
    {
        let pid = match incoming {
            Some(p) => p,
            None => {
                return quiet_step();
            },
        };
        let c = match self.peers.get(&pid.as_u128()) {
            Some(c) => c,
            None => {
                return quiet_step();
            },
        };
        if !(c.state == ConnectionState::Authenticated || c.state == ConnectionState::Joined
            || c.state == ConnectionState::JoinRequested) {
            return quiet_step();
        }
        let dk = match &c.decryption_key {
            Some(dk) => dk,
            None => {
                return quiet_step();
            },
        };
        let no_data: Vec<u8> = Vec::new();
        match CryptoProvider::decrypt(dk.as_slice(), payload, no_data.as_slice()) {
            Ok(plaintext) => {
                let mut actions: Vec<Phase1Action> = Vec::new();
                actions.push(Phase1Action::Decode { peer_id: pid, from: addr, plaintext });
                Phase1Step { actions, outcome: Ok(()) }
            },
            Err(_) => quiet_step(),
        }
    }

    /// Handles a message received from `addr`. `incoming_peer_id_opt` is the peer the
    /// address book names for `addr`; `current_room_id` and `is_server` are the room and
    /// host flag the receiver works with, and `room_id_bytes` the serialized room
    /// identifier that salts the key derivation.
    pub fn handle_message(
        &mut self,
        message: Phase1Message,
        addr: SocketAddress,
        incoming_peer_id_opt: Option<PeerId>,
        current_room_id: Option<RoomId>,
        room_id_bytes: &[u8],
        is_server: bool,
        now: u64,
    ) -> (r: Phase1Step)
        requires
            old(self).wf(),
        ensures
            final(self).wf(),
            final(self)@.peer_id == old(self)@.peer_id,
            final(self)@.room_id == old(self)@.room_id,
            final(self)@.is_server == old(self)@.is_server,
            message_handled(
                old(self)@,
                final(self)@,
                r,
                message,
                addr,
                incoming_peer_id_opt,
                current_room_id,
                room_id_bytes@,
                is_server,
                now,
            ),
    {
        match message {
            Phase1Message::HelloInitiate { version, room_id, peer_id } => {
                self.on_hello_initiate(version, room_id, peer_id, addr, now)
            },
            Phase1Message::HelloAck { version, room_id, peer_id } => {
                self.on_hello_ack(version, peer_id, addr, now)
            },
            Phase1Message::DHPubKey { pub_key } => {
                self.on_dh_pub_key(pub_key, incoming_peer_id_opt, current_room_id, room_id_bytes, now)
            },
            Phase1Message::AuthTag { tag } => {
                self.on_auth_tag(tag, addr, incoming_peer_id_opt, is_server, now)
            },
            Phase1Message::EncryptedMessage { payload } => {
                self.on_encrypted(payload.as_slice(), addr, incoming_peer_id_opt)
            },
            _ => quiet_step(),
        }
    }

    /// One turn of the receiver: handles a message from `addr`, naming its sender by the
    /// address book, with the room and host flag given.
    pub fn receive(
        &mut self,
        message: Phase1Message,
        addr: SocketAddress,
        current_room_id: Option<RoomId>,
        room_id_bytes: &[u8],
        is_server: bool,
        now: u64,
    ) -> (r: Phase1Step)
        requires
            old(self).wf(),
        ensures
            final(self).wf(),
            final(self)@.peer_id == old(self)@.peer_id,
            final(self)@.room_id == old(self)@.room_id,
            final(self)@.is_server == old(self)@.is_server,
            message_handled(
                old(self)@,
                final(self)@,
                r,
                message,
                addr,
                if old(self)@.addresses.contains_key(addr) {
                    Some(old(self)@.addresses[addr])
                } else {
                    None
                },
                current_room_id,
                room_id_bytes@,
                is_server,
                now,
            ),
    {
        let incoming = self.peer_at(&addr);
        self.handle_message(message, addr, incoming, current_room_id, room_id_bytes, is_server, now)
    }

    /// Handles a message decrypted from the connection of `peer_id`, whose datagram came
    /// from `addr`.
    pub fn handle_inner_message(
        &mut self,
        peer_id: PeerId,
        addr: SocketAddress,
        message: Phase1Message,
        now: u64,
    ) -> (r: Phase1Step)
        requires
            old(self).wf(),
        ensures
            final(self).wf(),
            final(self)@.peer_id == old(self)@.peer_id,
            final(self)@.room_id == old(self)@.room_id,
            final(self)@.is_server == old(self)@.is_server,
            inner_handled(old(self)@, final(self)@, r, peer_id, addr, message, now),
    {
        let k = peer_id.as_u128();
        let mut actions: Vec<Phase1Action> = Vec::new();
        match message {
            Phase1Message::JoinRequest { peer_id: requester, name } => {
                actions.push(
                    Phase1Action::Emit {
                        event: NetworkEvent::JoinRequested { peer_id: requester, name, address: addr },
                    },
                );
            },
            Phase1Message::JoinResponse { approved, reason } => {
                if approved {
                    match self.peers.remove(&k) {
                        Some(mut c) => {
                            c.state = ConnectionState::Joined;
                            self.peers.insert(k, c);
                            assert(self.peers@.dom() =~= old(self).peers@.dom().insert(k));
                        },
                        None => {
                            assert(self.peers@ =~= old(self).peers@);
                        },
                    }
                }
                actions.push(
                    Phase1Action::Emit { event: NetworkEvent::JoinResponseReceived { approved, reason } },
                );
            },
            Phase1Message::Ping { peer_id: pinger } => {
                match self.peers.get(&k) {
                    Some(c) => {
                        match &c.encryption_key {
                            Some(e) => {
                                let pong = Phase1Message::Pong { peer_id: self.peer_id };
                                actions.push(
                                    Phase1Action::SendEncrypted {
                                        to: c.info.address,
                                        key: e.clone(),
                                        message: pong,
                                    },
                                );
                                actions.push(
                                    Phase1Action::Forward {
                                        peer_id,
                                        message: Phase1Message::Ping { peer_id: pinger },
                                    },
                                );
                            },
                            None => {},
                        }
                    },
                    None => {},
                }
            },
            Phase1Message::Pong { peer_id: ponger } => {
                match self.peers.remove(&k) {
                    Some(mut c) => {
                        if c.info.peer_id == ponger {
                            c.last_received = now;
                            actions.push(
                                Phase1Action::Forward {
                                    peer_id,
                                    message: Phase1Message::Pong { peer_id: ponger },
                                },
                            );
                            self.peers.insert(k, c);
                            assert(self.peers@.dom() =~= old(self).peers@.dom().insert(k));
                        } else {
                            self.peers.insert(k, c);
                            assert(self.peers@ =~= old(self).peers@);
                        }
                    },
                    None => {
                        assert(self.peers@ =~= old(self).peers@);
                    },
                }
            },
            other => {
                actions.push(Phase1Action::Forward { peer_id, message: other });
            },
        }
        Phase1Step { actions, outcome: Ok(()) }
    }
}

/// Whether a connection is joined and has been silent past the ping timeout at `now`.
pub open spec fn expired(c: PeerConnection, now: u64) -> bool {
    c.state == ConnectionState::Joined && silent_longer(c.last_received, now, PING_TIMEOUT_MS)
}

/// The identifiers of `order` whose connection is joined, in order.
pub open spec fn joined_in(order: Seq<u128>, peers: Map<u128, PeerConnection>) -> Seq<u128>
    decreases order.len(),
{
    if order.len() == 0 {
        Seq::empty()
    } else {
        let rest = joined_in(order.drop_last(), peers);
        if peers[order.last()].state == ConnectionState::Joined {
            rest.push(order.last())
        } else {
            rest
        }
    }
}

/// The identifiers of `order` whose connection has expired at `now`, in order.
pub open spec fn expired_in(order: Seq<u128>, peers: Map<u128, PeerConnection>, now: u64) -> Seq<
    u128,
>
    decreases order.len(),
{
    if order.len() == 0 {
        Seq::empty()
    } else {
        let rest = expired_in(order.drop_last(), peers, now);
        if expired(peers[order.last()], now) {
            rest.push(order.last())
        } else {
            rest
        }
    }
}

/// The pings of a round: one to the address of each joined peer of `order`, in order.
pub open spec fn ping_actions(order: Seq<u128>, peers: Map<u128, PeerConnection>, me: PeerId)
    -> Seq<Phase1Action>
    decreases order.len(),
{
    if order.len() == 0 {
        Seq::empty()
    } else {
        let rest = ping_actions(order.drop_last(), peers, me);
        let c = peers[order.last()];
        if c.state == ConnectionState::Joined {
            rest.push(
                Phase1Action::Send {
                    to: c.info.address,
                    message: Phase1Message::Ping { peer_id: me },
                },
            )
        } else {
            rest
        }
    }
}

/// The announcement that `id` was dropped for not answering pings.
pub open spec fn is_timeout_drop(a: Phase1Action, id: PeerId) -> bool {
    &&& a matches Phase1Action::Emit {
        event: NetworkEvent::PeerDisconnected { peer_id, reason: Some(m) },
    }
    &&& peer_id == id
    &&& m@ == "Ping timeout"@
}

/// The actions of a ping round that visited the connections in `order`: the pings, then one
/// announcement per expired peer, in order.
pub open spec fn ping_round_done(
    a: Seq<Phase1Action>,
    order: Seq<u128>,
    peers: Map<u128, PeerConnection>,
    me: PeerId,
    now: u64,
) -> bool {
    let pings = ping_actions(order, peers, me);
    let gone = expired_in(order, peers, now);
    &&& order.no_duplicates()
    &&& order.to_set() == peers.dom()
    &&& a.len() == pings.len() + gone.len()
    &&& a.take(pings.len() as int) == pings
    &&& forall|i: int|
        0 <= i < gone.len() ==> is_timeout_drop(
            #[trigger] a[pings.len() + i],
            peers[gone[i]].info.peer_id,
        )
}

proof fn lemma_pings_are_sends(order: Seq<u128>, peers: Map<u128, PeerConnection>, me: PeerId)
    ensures
        forall|i: int|
            0 <= i < ping_actions(order, peers, me).len() ==> #[trigger] ping_actions(
                order,
                peers,
                me,
            )[i] is Send,
    decreases order.len(),
{
    if order.len() > 0 {
        lemma_pings_are_sends(order.drop_last(), peers, me);
    }
}

proof fn lemma_expired_in_expired(order: Seq<u128>, peers: Map<u128, PeerConnection>, now: u64)
    ensures
        forall|i: int|
            0 <= i < expired_in(order, peers, now).len() ==> expired(
                peers[#[trigger] expired_in(order, peers, now)[i]],
                now,
            ) && order.contains(expired_in(order, peers, now)[i]),
    decreases order.len(),
{
    if order.len() > 0 {
        let rest = order.drop_last();
        lemma_expired_in_expired(rest, peers, now);
        assert forall|i: int|
            0 <= i < expired_in(order, peers, now).len() implies expired(
                peers[#[trigger] expired_in(order, peers, now)[i]],
                now,
            ) && order.contains(expired_in(order, peers, now)[i]) by {
            let g = expired_in(order, peers, now);
            if i < expired_in(rest, peers, now).len() {
                let j = choose|j: int| 0 <= j < rest.len() && rest[j] == g[i];
                assert(order[j] == g[i]);
            } else {
                assert(order[order.len() - 1] == g[i]);
            }
        }
    }
}

/// A ping round never drops a peer heard from within the ping timeout: given what a round
/// reports (the peers kept and the actions), a peer last heard from at most
/// [`PING_TIMEOUT_MS`] before `now` (or after it) is still a peer, and no action announces
/// its disconnection.
pub proof fn lemma_ping_round_keeps_recent(
    old: Phase1Model,
    new: Phase1Model,
    actions: Seq<Phase1Action>,
    now: u64,
    k: u128,
)
    requires
        forall|j: u128| #[trigger] old.peers.contains_key(j) ==> old.peers[j].info.peer_id@ == j,
        forall|j: u128|
            #[trigger] new.peers.contains_key(j) <==> old.peers.contains_key(j) && !expired(
                old.peers[j],
                now,
            ),
        exists|order: Seq<u128>| #[trigger] ping_round_done(actions, order, old.peers, old.peer_id, now),
        old.peers.contains_key(k),
        now < old.peers[k].last_received || now - old.peers[k].last_received <= PING_TIMEOUT_MS,
    ensures
        new.peers.contains_key(k),
        forall|i: int|
            0 <= i < actions.len() ==> !(#[trigger] actions[i] matches Phase1Action::Emit {
                event: NetworkEvent::PeerDisconnected { peer_id, .. },
            } && peer_id@ == k),
{
    assert(new.peers.contains_key(k));
    let order = choose|order: Seq<u128>| #[trigger] ping_round_done(actions, order, old.peers, old.peer_id, now);
    let pings = ping_actions(order, old.peers, old.peer_id);
    let gone = expired_in(order, old.peers, now);
    lemma_pings_are_sends(order, old.peers, old.peer_id);
    lemma_expired_in_expired(order, old.peers, now);
    assert forall|i: int| 0 <= i < actions.len() implies !(#[trigger] actions[i] matches Phase1Action::Emit {
        event: NetworkEvent::PeerDisconnected { peer_id, .. },
    } && peer_id@ == k) by {
        if i < pings.len() {
            assert(actions.take(pings.len() as int)[i] == pings[i]);
            assert(pings[i] is Send);
        } else {
            let j = i - pings.len();
            assert(is_timeout_drop(actions[pings.len() + j], old.peers[gone[j]].info.peer_id));
            assert(expired(old.peers[gone[j]], now));
            assert(order.contains(gone[j]));
            assert(order.to_set().contains(gone[j]));
            assert(old.peers.contains_key(gone[j]));
            assert(gone[j] != k);
        }
    }
}

/// Whether `a` is the address of a connection that expired at `now`.
pub open spec fn dropped_address(peers: Map<u128, PeerConnection>, now: u64, a: SocketAddress)
    -> bool {
    exists|k: u128|
        #![trigger peers[k]]
        peers.contains_key(k) && expired(peers[k], now) && peers[k].info.address == a
}

/// The peer information of the joined connections of `order`, in order.
pub open spec fn joined_infos(order: Seq<u128>, peers: Map<u128, PeerConnection>) -> Seq<
    PeerInfo,
> {
    joined_in(order, peers).map_values(|k: u128| peers[k].info)
}

proof fn lemma_expired_in(order: Seq<u128>, peers: Map<u128, PeerConnection>, now: u64)
    ensures
        forall|k: u128|
            #[trigger] expired_in(order, peers, now).contains(k) <==> order.contains(k) && expired(
                peers[k],
                now,
            ),
        order.no_duplicates() ==> expired_in(order, peers, now).no_duplicates(),
    decreases order.len(),
{
    if order.len() > 0 {
        let init = order.drop_last();
        let l = order.last();
        let rest = expired_in(init, peers, now);
        lemma_expired_in(init, peers, now);
        assert forall|k: u128| order.contains(k) <==> (init.contains(k) || k == l) by {
            if order.contains(k) {
                let i = choose|i: int| 0 <= i < order.len() && #[trigger] order[i] == k;
                if i < order.len() - 1 {
                    assert(init[i] == k);
                }
            }
            if init.contains(k) {
                let i = choose|i: int| 0 <= i < init.len() && #[trigger] init[i] == k;
                assert(order[i] == k);
            }
            if k == l {
                assert(order[order.len() - 1] == k);
            }
        }
        if expired(peers[l], now) {
            assert(expired_in(order, peers, now) == rest.push(l));
            assert forall|k: u128| rest.push(l).contains(k) <==> (rest.contains(k) || k == l) by {
                if rest.push(l).contains(k) {
                    let i = choose|i: int| 0 <= i < rest.push(l).len() && #[trigger] rest.push(l)[i] == k;
                    if i < rest.len() {
                        assert(rest[i] == k);
                    }
                }
                if rest.contains(k) {
                    let i = choose|i: int| 0 <= i < rest.len() && #[trigger] rest[i] == k;
                    assert(rest.push(l)[i] == k);
                }
                if k == l {
                    assert(rest.push(l)[rest.len() as int] == k);
                }
            }
            if order.no_duplicates() {
                assert(init.no_duplicates()) by {
                    assert forall|a: int, b: int| 0 <= a < b < init.len() implies init[a] != init[b] by {
                        assert(init[a] == order[a] && init[b] == order[b]);
                    }
                }
                assert(!init.contains(l)) by {
                    if init.contains(l) {
                        let i = choose|i: int| 0 <= i < init.len() && #[trigger] init[i] == l;
                        assert(order[i] == order[order.len() - 1]);
                    }
                }
                assert(!rest.contains(l));
                assert forall|a: int, b: int| 0 <= a < b < rest.push(l).len() implies rest.push(l)[a]
                    != rest.push(l)[b] by {
                    if b == rest.len() {
                        assert(rest.contains(rest[a]));
                    } else {
                        assert(rest[a] != rest[b]);
                    }
                }
            }
        } else {
            assert(expired_in(order, peers, now) == rest);
            if order.no_duplicates() {
                assert(init.no_duplicates()) by {
                    assert forall|a: int, b: int| 0 <= a < b < init.len() implies init[a] != init[b] by {
                        assert(init[a] == order[a] && init[b] == order[b]);
                    }
                }
            }
        }
        assert forall|k: u128|
            #[trigger] expired_in(order, peers, now).contains(k) <==> order.contains(k) && expired(
                peers[k],
                now,
            ) by {
            assert(rest.contains(k) <==> init.contains(k) && expired(peers[k], now));
        }
    } else {
        assert forall|k: u128|
            #[trigger] expired_in(order, peers, now).contains(k) <==> order.contains(k) && expired(
                peers[k],
                now,
            ) by {
            assert(expired_in(order, peers, now) =~= Seq::<u128>::empty());
        }
    }
}

impl Phase1Network {
    /// The identifiers of the connections, each once, in the map's order.
    fn peer_ids(&self) -> (v: Vec<u128>)
        ensures
            v@.to_set() == self@.peers.dom(),
            v@.no_duplicates(),
    {
        let mut v: Vec<u128> = Vec::new();
        let ghost g = vstd::std_specs::hash::spec_keys_iter(&self.peers);
        for k in it: self.peers.keys()
            invariant
                v@ == it.seq().take(it.index() as int).unref(),
                it.seq() == vstd::std_specs::iter::IteratorSpec::remaining(&g),
            ensures
                v@ == it.seq().unref(),
        {
            v.push(*k);
            proof {
                assert(v@ =~= it.seq().take(it.index() + 1).unref());
            }
        }
        v
    }

    /// The peer information of every joined connection, each once, in the map's order.
    pub fn get_peers(&self) -> (r: Vec<PeerInfo>)
        ensures
            exists|order: Seq<u128>|
                #![trigger joined_infos(order, self@.peers)]
                order.no_duplicates() && order.to_set() == self@.peers.dom() && r@
                    == joined_infos(order, self@.peers),
    {
        let ids = self.peer_ids();
        let ghost order = ids@;
        let mut out: Vec<PeerInfo> = Vec::new();
        let mut i: usize = 0;
        while i < ids.len()
            invariant
                i <= ids.len(),
                order == ids@,
                order.to_set() == self@.peers.dom(),
                out@ == joined_infos(order.take(i as int), self@.peers),
            decreases ids.len() - i,
        {
            let k = ids[i];
            assert(order.take(i + 1).drop_last() =~= order.take(i as int));
            assert(order.take(i + 1).last() == k);
            assert(order.to_set().contains(k));
            let c = self.peers.get(&k).unwrap();
            if c.state == ConnectionState::Joined {
                let name = match &c.info.name {
                    Some(n) => Some(n.clone()),
                    None => None,
                };
                out.push(PeerInfo { peer_id: c.info.peer_id, address: c.info.address, name });
            }
            i = i + 1;
            assert(out@ =~= joined_infos(order.take(i as int), self@.peers));
        }
        assert(order.take(ids.len() as int) =~= order);
        out
    }

    /// One round of the keep-alive timer at time `now`: a ping to every joined peer, then
    /// every joined peer silent past the timeout is dropped, with its address, and its
    /// departure announced.
    pub fn ping_round(&mut self, now: u64) -> (r: Phase1Step)
        requires
            old(self).wf(),
        ensures
            final(self).wf(),
            final(self)@.peer_id == old(self)@.peer_id,
            final(self)@.room_id == old(self)@.room_id,
            final(self)@.is_server == old(self)@.is_server,
            r.outcome is Ok,
            forall|k: u128|
                #[trigger] final(self)@.peers.contains_key(k) <==> old(self)@.peers.contains_key(k)
                    && !expired(old(self)@.peers[k], now),
            forall|k: u128|
                #[trigger] old(self)@.peers.contains_key(k) && (now < old(self)@.peers[k].last_received
                    || now - old(self)@.peers[k].last_received <= PING_TIMEOUT_MS)
                    ==> final(self)@.peers.contains_key(k),
            forall|k: u128|
                #[trigger] final(self)@.peers.contains_key(k) ==> final(self)@.peers[k] == old(
                    self,
                )@.peers[k],
            forall|a: SocketAddress|
                #[trigger] final(self)@.addresses.contains_key(a) <==> old(
                    self,
                )@.addresses.contains_key(a) && !dropped_address(old(self)@.peers, now, a),
            forall|a: SocketAddress|
                #[trigger] final(self)@.addresses.contains_key(a) ==> final(self)@.addresses[a]
                    == old(self)@.addresses[a],
            exists|order: Seq<u128>|
                #[trigger] ping_round_done(
                    r.actions@,
                    order,
                    old(self)@.peers,
                    old(self)@.peer_id,
                    now,
                ),
    {
        let ids = self.peer_ids();
        let ghost order = ids@;
        let ghost peers0 = self.peers@;
        let ghost addrs0 = self.peer_addresses@;
        let mut actions: Vec<Phase1Action> = Vec::new();
        let mut i: usize = 0;
        while i < ids.len()
            invariant
                i <= ids.len(),
                order == ids@,
                order.to_set() == peers0.dom(),
                self.peers@ == peers0,
                self@.peer_id == old(self)@.peer_id,
                actions@ == ping_actions(order.take(i as int), peers0, self@.peer_id),
            decreases ids.len() - i,
        {
            let k = ids[i];
            assert(order.take(i + 1).drop_last() =~= order.take(i as int));
            assert(order.take(i + 1).last() == k);
            assert(order.to_set().contains(k));
            let c = self.peers.get(&k).unwrap();
            if c.state == ConnectionState::Joined {
                actions.push(
                    Phase1Action::Send {
                        to: c.info.address,
                        message: Phase1Message::Ping { peer_id: self.peer_id },
                    },
                );
            }
            i = i + 1;
        }
        assert(order.take(ids.len() as int) =~= order);
        let ghost pings = actions@;
        let mut gone: Vec<u128> = Vec::new();
        let mut i: usize = 0;
        while i < ids.len()
            invariant
                i <= ids.len(),
                order == ids@,
                order.to_set() == peers0.dom(),
                self.peers@ == peers0,
                gone@ == expired_in(order.take(i as int), peers0, now),
            decreases ids.len() - i,
        {
            let k = ids[i];
            assert(order.take(i + 1).drop_last() =~= order.take(i as int));
            assert(order.take(i + 1).last() == k);
            assert(order.to_set().contains(k));
            let c = self.peers.get(&k).unwrap();
            if c.state == ConnectionState::Joined && c.is_timed_out(now, PING_TIMEOUT_MS) {
                gone.push(k);
            }
            i = i + 1;
        }
        assert(order.take(ids.len() as int) =~= order);
        proof {
            lemma_expired_in(order, peers0, now);
        }
        let ghost x = gone@;
        assert(x.no_duplicates());
        let mut j: usize = 0;
        while j < gone.len()
            invariant
                j <= gone.len(),
                x == gone@,
                x.no_duplicates(),
                forall|k: u128| #[trigger] x.contains(k) <==> order.contains(k) && expired(peers0[k], now),
                order.to_set() == peers0.dom(),
                self.wf(),
                self@.peer_id == old(self)@.peer_id,
                self@.room_id == old(self)@.room_id,
                self@.is_server == old(self)@.is_server,
                forall|k: u128|
                    #[trigger] self.peers@.contains_key(k) <==> peers0.contains_key(k) && !x.take(
                        j as int,
                    ).contains(k),
                forall|k: u128| #[trigger] self.peers@.contains_key(k) ==> self.peers@[k] == peers0[k],
                forall|a: SocketAddress|
                    #[trigger] self.peer_addresses@.contains_key(a) <==> addrs0.contains_key(a)
                        && !(exists|t: int|
                        0 <= t < j && #[trigger] peers0[x[t]].info.address == a),
                forall|a: SocketAddress|
                    #[trigger] self.peer_addresses@.contains_key(a) ==> self.peer_addresses@[a]
                        == addrs0[a],
                actions@.len() == pings.len() + j,
                actions@.take(pings.len() as int) == pings,
                forall|t: int|
                    0 <= t < j ==> is_timeout_drop(
                        #[trigger] actions@[pings.len() + t],
                        peers0[x[t]].info.peer_id,
                    ),
            decreases gone.len() - j,
        {
            let k = gone[j];
            assert(x.contains(k)) by {
                assert(x[j as int] == k);
            }
            assert(order.to_set().contains(k));
            assert(!x.take(j as int).contains(k)) by {
                if x.take(j as int).contains(k) {
                    let t = choose|t: int| 0 <= t < j && #[trigger] x.take(j as int)[t] == k;
                    assert(x[t] == x[j as int]);
                }
            }
            let c = self.peers.remove(&k).unwrap();
            self.peer_addresses.remove(&c.info.address);
            let ghost before = actions@;
            actions.push(
                Phase1Action::Emit {
                    event: NetworkEvent::PeerDisconnected {
                        peer_id: c.info.peer_id,
                        reason: Some(string_from("Ping timeout")),
                    },
                },
            );
            proof {
                assert(actions@.take(pings.len() as int) =~= before.take(pings.len() as int));
                assert forall|kk: u128| #[trigger] self.peers@.contains_key(kk) <==> peers0.contains_key(kk)
                    && !x.take(j + 1).contains(kk) by {
                    if x.take(j + 1).contains(kk) && !x.take(j as int).contains(kk) {
                        let t = choose|t: int| 0 <= t < j + 1 && #[trigger] x.take(j + 1)[t] == kk;
                        if t < j {
                            assert(x.take(j as int)[t] == kk);
                        }
                    }
                    if x.take(j as int).contains(kk) {
                        let t = choose|t: int| 0 <= t < j && #[trigger] x.take(j as int)[t] == kk;
                        assert(x.take(j + 1)[t] == kk);
                    }
                    if kk == k {
                        assert(x.take(j + 1)[j as int] == kk);
                    }
                }
                assert forall|a: SocketAddress| #[trigger] self.peer_addresses@.contains_key(a)
                    <==> addrs0.contains_key(a) && !(exists|t: int|
                    0 <= t < j + 1 && #[trigger] peers0[x[t]].info.address == a) by {
                    if a == c.info.address {
                        assert(peers0[x[j as int]].info.address == a);
                    }
                }
            }
            j = j + 1;
        }
        proof {
            assert forall|k: u128| #[trigger] self.peers@.contains_key(k) <==> peers0.contains_key(k)
                && !expired(peers0[k], now) by {
                assert(x.take(x.len() as int) =~= x);
                if peers0.contains_key(k) {
                    assert(order.to_set().contains(k));
                }
            }
            assert forall|a: SocketAddress| #[trigger] self.peer_addresses@.contains_key(a)
                <==> addrs0.contains_key(a) && !dropped_address(peers0, now, a) by {
                if dropped_address(peers0, now, a) {
                    let kk = choose|kk: u128|
                        #![trigger peers0[kk]]
                        peers0.contains_key(kk) && expired(peers0[kk], now) && peers0[kk].info.address
                            == a;
                    assert(order.to_set().contains(kk));
                    assert(x.contains(kk));
                    let t = choose|t: int| 0 <= t < x.len() && #[trigger] x[t] == kk;
                    assert(peers0[x[t]].info.address == a);
                }
                if exists|t: int| 0 <= t < x.len() && #[trigger] peers0[x[t]].info.address == a {
                    let t = choose|t: int| 0 <= t < x.len() && #[trigger] peers0[x[t]].info.address == a;
                    assert(x.contains(x[t]));
                    assert(order.contains(x[t]));
                    assert(peers0.contains_key(x[t])) by {
                        assert(order.to_set().contains(x[t]));
                    }
                }
            }
            assert(ping_round_done(actions@, order, peers0, old(self)@.peer_id, now));
            assert(peers0 == old(self)@.peers);
            assert(ping_round_done(actions@, order, old(self)@.peers, old(self)@.peer_id, now));
        }
        let r = Phase1Step { actions, outcome: Ok(()) };
        assert(ping_round_done(r.actions@, order, old(self)@.peers, old(self)@.peer_id, now));
        r
    }
}

proof fn lemma_bytes_le_total(a: Seq<u8>, b: Seq<u8>)
    requires
        a.len() == b.len(),
    ensures
        bytes_le(a, b) || bytes_le(b, a),
        bytes_le(a, b) && bytes_le(b, a) ==> a == b,
    decreases a.len(),
{
    if a.len() > 0 && a[0] == b[0] {
        lemma_bytes_le_total(a.drop_first(), b.drop_first());
        if bytes_le(a, b) && bytes_le(b, a) {
            assert(a.drop_first() == b.drop_first());
            assert(a =~= seq![a[0]] + a.drop_first());
            assert(b =~= seq![b[0]] + b.drop_first());
        }
    } else if a.len() == 0 {
        assert(a =~= b);
    }
}

/// Both ends of a connection authenticate the same data: the tag covers the two public
/// keys, the lesser first, whichever end computes it.
pub proof fn lemma_auth_data_symmetric(ours: Seq<u8>, theirs: Seq<u8>)
    requires
        ours.len() == theirs.len(),
    ensures
        auth_data(ours, theirs) == auth_data(theirs, ours),
{
    lemma_bytes_le_total(ours, theirs);
}

/// The two ends of a connection between different peers derive matching keys from the same
/// shared secret and room: what one encrypts with, the other decrypts with, and they share
/// the authentication key.
pub proof fn lemma_session_keys_match(room: Seq<u8>, shared: Seq<u8>, a: u128, b: u128)
    requires
        a != b,
    ensures
        session_key(room, shared, encryption_context(a, b)) == session_key(
            room,
            shared,
            decryption_context(b, a),
        ),
        session_key(room, shared, decryption_context(a, b)) == session_key(
            room,
            shared,
            encryption_context(b, a),
        ),
{
}

/// The key exchange between two different peers `a` and `b` of a room gives both ends
/// matching keys: when each holds a key pair for the other and handles the other's public
/// key, both steps succeed, they compute the same shared secret, what one encrypts with the
/// other decrypts with, they share the authentication key, both connections are moved to
/// `KeyExchanged`, and the two authentication tags sent are the same.
pub proof fn lemma_handshake_keys_match(
    a_old: Phase1Model,
    a_new: Phase1Model,
    ra: Phase1Step,
    a_now: u64,
    b_old: Phase1Model,
    b_new: Phase1Model,
    rb: Phase1Step,
    b_now: u64,
    room: RoomId,
    room_bytes: Seq<u8>,
)
    requires
        a_old.peer_id@ != b_old.peer_id@,
        a_old.peers.contains_key(b_old.peer_id@),
        b_old.peers.contains_key(a_old.peer_id@),
        a_old.peers[b_old.peer_id@].private_key matches Some(sa) && a_old.peers[b_old.peer_id@].our_public_key
            matches Some(pka) && pka@ == x25519_public(sa@),
        b_old.peers[a_old.peer_id@].private_key matches Some(sb) && b_old.peers[a_old.peer_id@].our_public_key
            matches Some(pkb) && pkb@ == x25519_public(sb@),
        dh_key_handled(
            a_old,
            a_new,
            ra,
            b_old.peers[a_old.peer_id@].our_public_key.unwrap()@,
            Some(b_old.peer_id),
            Some(room),
            room_bytes,
            a_now,
        ),
        dh_key_handled(
            b_old,
            b_new,
            rb,
            a_old.peers[b_old.peer_id@].our_public_key.unwrap()@,
            Some(a_old.peer_id),
            Some(room),
            room_bytes,
            b_now,
        ),
    ensures
        ra.outcome is Ok,
        rb.outcome is Ok,
        ({
            let na = a_new.peers[b_old.peer_id@];
            let nb = b_new.peers[a_old.peer_id@];
            &&& na.shared_secret.unwrap()@ == nb.shared_secret.unwrap()@
            &&& na.encryption_key.unwrap()@ == nb.decryption_key.unwrap()@
            &&& na.decryption_key.unwrap()@ == nb.encryption_key.unwrap()@
            &&& na.hmac_key.unwrap()@ == nb.hmac_key.unwrap()@
        }),
        ra.actions@[1] == (Phase1Action::SetState {
            peer_id: b_old.peer_id,
            state: ConnectionState::KeyExchanged,
        }),
        rb.actions@[1] == (Phase1Action::SetState {
            peer_id: a_old.peer_id,
            state: ConnectionState::KeyExchanged,
        }),
        ra.actions@[0] matches Phase1Action::Send { message: Phase1Message::AuthTag { tag: ta }, .. }
            && rb.actions@[0] matches Phase1Action::Send {
            message: Phase1Message::AuthTag { tag: tb },
            ..
        } && ta@ == tb@,
{
    let a = a_old.peer_id@;
    let b = b_old.peer_id@;
    let ca = a_old.peers[b];
    let cb = b_old.peers[a];
    let na = a_new.peers[b];
    let nb = b_new.peers[a];
    let sa = ca.private_key.unwrap()@;
    let sb = cb.private_key.unwrap()@;
    let pka = ca.our_public_key.unwrap()@;
    let pkb = cb.our_public_key.unwrap()@;
    assert(sb.len() == 32);
    assert(na.shared_secret.unwrap()@ == x25519_shared(sb, x25519_public(sa)));
    let shared = na.shared_secret.unwrap()@;
    assert(nb.shared_secret.unwrap()@ == shared);
    lemma_session_keys_match(room_bytes, shared, a, b);
    lemma_auth_data_symmetric(pka, pkb);
}

/// Every key a well-formed network stores is 32 bytes long, and every connection is stored
/// under its peer's identifier.
pub proof fn lemma_connections_wf(n: Phase1Network, k: u128)
    requires
        n.wf(),
        n@.peers.contains_key(k),
    ensures
        conn_wf(n@.peers[k], k),
{
}

} // verus!
