//! Core types shared by the room, network and application layers: identifiers, the error
//! type, and the events and commands that flow between the layers.

use vstd::prelude::*;
use crate::net::{hex_digit, SocketAddress};
use crate::text::{push_char, push_chars, push_str, string_from};

verus! {

/// Audio sample rate, in samples per second.
pub const SAMPLE_RATE: u32 = 48000;

/// Number of audio channels (mono).
pub const CHANNELS: u16 = 1;

/// The `n` lower-case hexadecimal digits of `x mod 16^n`, most significant first.
pub open spec fn hex_fixed(x: nat, n: nat) -> Seq<char>
    decreases n,
{
    if n == 0 {
        Seq::empty()
    } else {
        hex_fixed(x / 16, (n - 1) as nat).push(hex_digit(x % 16))
    }
}

pub proof fn lemma_hex_fixed_len(x: nat, n: nat)
    ensures
        hex_fixed(x, n).len() == n,
    decreases n,
{
    if n > 0 {
        lemma_hex_fixed_len(x / 16, (n - 1) as nat);
    }
}

/// The hyphenated text of a UUID: 32 hexadecimal digits grouped 8-4-4-4-12.
pub open spec fn uuid_text(x: u128) -> Seq<char> {
    let h = hex_fixed(x as nat, 32);
    h.take(8) + seq!['-'] + h.subrange(8, 12) + seq!['-'] + h.subrange(12, 16) + seq!['-']
        + h.subrange(16, 20) + seq!['-'] + h.subrange(20, 32)
}

/// The text a peer identifier displays as: the first eight digits of its UUID.
pub open spec fn peer_text(x: u128) -> Seq<char> {
    hex_fixed(x as nat, 32).take(8)
}

fn hex_char(d: u128) -> (c: char)
    requires
        d < 16,
    ensures
        c == hex_digit(d as nat),
{
    if d < 10 {
        crate::text::digit(d as u64)
    } else if d == 10 {
        'a'
    } else if d == 11 {
        'b'
    } else if d == 12 {
        'c'
    } else if d == 13 {
        'd'
    } else if d == 14 {
        'e'
    } else {
        'f'
    }
}

/// The `n` hexadecimal digits of `x mod 16^n`.
fn hex_fixed_chars(x: u128, n: usize) -> (v: Vec<char>)
    ensures
        v@ == hex_fixed(x as nat, n as nat),
    decreases n,
{
    if n == 0 {
        Vec::new()
    } else {
        let mut v = hex_fixed_chars(x / 16, n - 1);
        v.push(hex_char(x % 16));
        v
    }
}

/// Whether the 128 bits are those of a version-4 UUID: version nibble 4 and the RFC 4122
/// variant (bits `10`).
pub open spec fn is_v4_uuid(x: u128) -> bool {
    &&& (x >> 76u128) & 0xfu128 == 4u128
    &&& (x >> 62u128) & 0x3u128 == 2u128
}

/// The 128 bits of a fresh `Uuid::new_v4()`: random bits with the version set to 4
/// (random) and the RFC 4122 variant. Nothing else is stated of them.
#[verifier::external_body]
fn random_uuid() -> (r: u128)
    ensures
        is_v4_uuid(r),
{
    uuid::Uuid::new_v4().as_u128()
}

/// The text of a fresh random UUID (`Uuid::new_v4().to_string()`).
pub fn new_uuid_string() -> (s: String)
    ensures
        exists|x: u128| s@ == uuid_text(x),
{
    let r = RoomId::new();
    r.to_display_string()
}

/// Unique identifier for a peer in the network.
#[derive(Debug, Clone, Copy, PartialEq, Eq, Hash, PartialOrd, Ord, Structural)]
pub struct PeerId {
    id: u128,
}

impl View for PeerId {
    type V = u128;

    closed spec fn view(&self) -> u128 {
        self.id
    }
}

impl PeerId {
    /// A new random identifier: a version-4 UUID.
    pub fn new() -> (p: Self)
        ensures
            is_v4_uuid(p@),
    {
        PeerId { id: random_uuid() }
    }

    /// The identifier with the given 128 bits.
    pub fn from_u128(id: u128) -> (p: Self)
        ensures
            p@ == id,
    {
        PeerId { id }
    }

    /// The 128 bits of the identifier.
    pub fn as_u128(&self) -> (r: u128)
        ensures
            r == self@,
    {
        self.id
    }

    /// The text `Display` shows: the first eight hexadecimal digits.
    pub fn to_display_string(&self) -> (s: String)
        ensures
            s@ == peer_text(self@),
    {
        let h = hex_fixed_chars(self.id, 32);
        proof {
            lemma_hex_fixed_len(self.id as nat, 32);
        }
        let mut s = String::new();
        let first = crate::text::slice_chars(&h, 0, 8);
        push_chars(&mut s, &first);
        assert(s@ =~= peer_text(self@));
        s
    }
}

/// Appends the display text of a peer identifier.
pub fn push_peer(s: &mut String, p: &PeerId)
    ensures
        final(s)@ == old(s)@ + peer_text(p@),
{
    let t = p.to_display_string();
    push_str(s, t.as_str());
}

/// Unique identifier for a room.
#[derive(Debug, Clone, Copy, PartialEq, Eq, Hash, PartialOrd, Ord, Structural)]
pub struct RoomId {
    id: u128,
}

impl View for RoomId {
    type V = u128;

    closed spec fn view(&self) -> u128 {
        self.id
    }
}

impl RoomId {
    /// A new random identifier: a version-4 UUID.
    pub fn new() -> (r: Self)
        ensures
            is_v4_uuid(r@),
    {
        RoomId { id: random_uuid() }
    }

    /// The identifier made of a UUID's 128 bits.
    pub fn from(id: u128) -> (r: Self)
        ensures
            r@ == id,
    {
        RoomId { id }
    }

    /// The 128 bits of the identifier.
    pub fn as_u128(&self) -> (r: u128)
        ensures
            r == self@,
    {
        self.id
    }

    /// The text `Display` shows: the hyphenated UUID.
    pub fn to_display_string(&self) -> (s: String)
        ensures
            s@ == uuid_text(self@),
    {
        let h = hex_fixed_chars(self.id, 32);
        proof {
            lemma_hex_fixed_len(self.id as nat, 32);
        }
        let mut s = String::new();
        push_chars(&mut s, &crate::text::slice_chars(&h, 0, 8));
        push_char(&mut s, '-');
        push_chars(&mut s, &crate::text::slice_chars(&h, 8, 12));
        push_char(&mut s, '-');
        push_chars(&mut s, &crate::text::slice_chars(&h, 12, 16));
        push_char(&mut s, '-');
        push_chars(&mut s, &crate::text::slice_chars(&h, 16, 20));
        push_char(&mut s, '-');
        push_chars(&mut s, &crate::text::slice_chars(&h, 20, 32));
        assert(h@.subrange(0, 8) =~= h@.take(8));
        assert(s@ =~= uuid_text(self@));
        s
    }
}

/// Unified error type for the application; each variant carries its message.
#[derive(Debug, Clone, PartialEq, Eq)]
pub enum Error {
    Io(String),
    Config(String),
    Network(String),
    Audio(String),
    Crypto(String),
    Serialization(String),
    Room(String),
    Initialization(String),
    NotFound(String),
    InvalidState(String),
    Other(String),
}

/// The text an error displays as.
pub open spec fn error_text(e: Error) -> Seq<char> {
    match e {
        Error::Io(m) => "I/O error: "@ + m@,
        Error::Config(m) => "Configuration error: "@ + m@,
        Error::Network(m) => "Network error: "@ + m@,
        Error::Audio(m) => "Audio error: "@ + m@,
        Error::Crypto(m) => "Cryptography error: "@ + m@,
        Error::Serialization(m) => "Serialization error: "@ + m@,
        Error::Room(m) => "Room logic error: "@ + m@,
        Error::Initialization(m) => "Initialization error: "@ + m@,
        Error::NotFound(m) => "Resource not found: "@ + m@,
        Error::InvalidState(m) => "Invalid state: "@ + m@,
        Error::Other(m) => m@,
    }
}

impl Error {
    /// The text `Display` shows for this error.
    pub fn to_display_string(&self) -> (s: String)
        ensures
            s@ == error_text(*self),
    {
        let (prefix, m) = match self {
            Error::Io(m) => ("I/O error: ", m),
            Error::Config(m) => ("Configuration error: ", m),
            Error::Network(m) => ("Network error: ", m),
            Error::Audio(m) => ("Audio error: ", m),
            Error::Crypto(m) => ("Cryptography error: ", m),
            Error::Serialization(m) => ("Serialization error: ", m),
            Error::Room(m) => ("Room logic error: ", m),
            Error::Initialization(m) => ("Initialization error: ", m),
            Error::NotFound(m) => ("Resource not found: ", m),
            Error::InvalidState(m) => ("Invalid state: ", m),
            Error::Other(m) => ("", m),
        };
        let mut s = string_from(prefix);
        push_str(&mut s, m.as_str());
        proof {
            reveal_strlit("");
        }
        assert(s@ =~= error_text(*self));
        s
    }
}

/// Status of a join request.
#[derive(Debug, Clone, Copy, PartialEq, Eq, Structural)]
pub enum JoinRequestStatus {
    Pending,
    Approved,
    Denied,
}

/// The text a join request status displays as.
pub open spec fn status_text(s: JoinRequestStatus) -> Seq<char> {
    match s {
        JoinRequestStatus::Pending => "Pending"@,
        JoinRequestStatus::Approved => "Approved"@,
        JoinRequestStatus::Denied => "Denied"@,
    }
}

impl JoinRequestStatus {
    /// The text `Display` shows for this status.
    pub fn to_display_string(&self) -> (s: String)
        ensures
            s@ == status_text(*self),
    {
        match self {
            JoinRequestStatus::Pending => string_from("Pending"),
            JoinRequestStatus::Approved => string_from("Approved"),
            JoinRequestStatus::Denied => string_from("Denied"),
        }
    }
}

/// Events the room emits to the user interface.
#[derive(Debug, Clone, Copy, PartialEq, Eq, Structural)]
pub enum RoomEvent {
    /// A peer has been added to the room.
    PeerAdded(PeerId),
    /// A peer has been removed from the room.
    PeerRemoved(PeerId),
    /// A join request has been received.
    JoinRequestReceived(PeerId),
    /// A join request status has changed.
    JoinRequestStatusChanged(PeerId, JoinRequestStatus),
    /// The peer list has been updated.
    PeerListUpdated,
}

/// A message of the network protocol as the room sees it.
#[derive(Debug, Clone)]
pub enum NetworkMessage {
    /// A text message.
    Text(String),
    /// A binary message.
    Binary(Vec<u8>),
}

/// Events emitted by the network layer.
#[derive(Debug, Clone)]
pub enum NetworkEvent {
    /// A new peer has connected.
    PeerConnected { peer_id: PeerId, address: SocketAddress },
    /// A peer has disconnected.
    PeerDisconnected { peer_id: PeerId, reason: Option<String> },
    /// A message was received from a peer.
    MessageReceived { peer_id: PeerId, message: NetworkMessage },
    /// A peer asked to join the room.
    JoinRequested { peer_id: PeerId, name: String, address: SocketAddress },
    /// The answer to our own join request arrived.
    JoinResponseReceived { approved: bool, reason: Option<String> },
    /// Authentication with a peer failed.
    AuthenticationFailed { address: SocketAddress, reason: String },
    /// Connecting to a peer failed.
    ConnectionFailed { address: SocketAddress, reason: String },
    /// Authentication with a peer succeeded.
    AuthenticationSucceeded { peer_id: PeerId },
    /// A network error occurred.
    Error { message: String },
}

/// Commands the user interface sends to the room.
#[derive(Debug, Clone)]
pub enum RoomCommand {
    /// Create a new room.
    CreateRoom,
    /// Join a room at a host address.
    JoinRoom { room_id: RoomId, address: SocketAddress },
    /// Approve a join request.
    ApproveJoinRequest { peer_id: PeerId },
    /// Deny a join request, optionally with a reason.
    DenyJoinRequest { peer_id: PeerId, reason: Option<String> },
    /// Leave the room.
    LeaveRoom,
    /// Ask for the current state of the room.
    RequestState,
    /// Stop the room handler.
    Shutdown,
}

/// Commands the room sends to the network layer.
#[derive(Debug, Clone)]
pub enum NetworkCommand {
    /// Create a new room.
    CreateRoom { room_id: RoomId },
    /// Connect to an existing room.
    ConnectToRoom { room_id: RoomId, address: SocketAddress },
    /// Answer a peer's join request.
    SendJoinResponse { peer_id: PeerId, approved: bool, reason: Option<String> },
    /// Start a WebRTC connection with a peer.
    InitiateWebRtcConnection { peer_id: PeerId },
    /// Hand a received SDP offer to WebRTC.
    HandleWebRtcOffer { peer_id: PeerId, offer: String },
    /// Hand a received SDP answer to WebRTC.
    HandleWebRtcAnswer { peer_id: PeerId, answer: String },
    /// Hand a received ICE candidate to WebRTC.
    HandleWebRtcIceCandidate { peer_id: PeerId, candidate: String },
    /// Send a message over a WebRTC data channel.
    SendWebRtcDataChannelMessage { peer_id: PeerId, label: String, data: Vec<u8> },
    /// Disconnect from a peer.
    DisconnectPeer { peer_id: PeerId },
}

} // verus!
