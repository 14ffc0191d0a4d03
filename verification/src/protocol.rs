//! Messages of the bootstrap protocol (phase 1) and of the application layer it carries.

use vstd::prelude::*;
use crate::net::SocketAddress;
use crate::room_core::{PeerId, RoomId};

verus! {

/// Maximum size of a UDP payload the protocol expects to handle.
pub const MAX_UDP_PAYLOAD_SIZE: usize = 1400;

/// Protocol version used for compatibility checks.
pub const PROTOCOL_VERSION: u8 = 1;

/// A peer's connection information.
#[derive(Debug, Clone)]
pub struct PeerInfo {
    /// The peer's identifier.
    pub peer_id: PeerId,
    /// The peer's socket address.
    pub address: SocketAddress,
    /// The peer's display name, if known.
    pub name: Option<String>,
}

/// Application-layer messages carried inside phase-1 messages.
#[derive(Debug, Clone)]
pub enum ApplicationMessage {
    /// WebRTC SDP offer.
    SdpOffer { offer: String },
    /// WebRTC SDP answer.
    SdpAnswer { answer: String },
    /// WebRTC ICE candidate, as JSON.
    IceCandidate { candidate: String },
    /// Request for a peer's current peer list.
    PeerListRequest,
    /// The peers currently in the room.
    PeerListResponse { peers: Vec<PeerInfo> },
}

/// Phase-1 messages: connection bootstrapping and the secure channel.
#[derive(Debug, Clone)]
pub enum Phase1Message {
    /// First message to a host: protocol version, room wanted, our identifier.
    HelloInitiate { version: u8, room_id: RoomId, peer_id: PeerId },
    /// The host's answer to `HelloInitiate`.
    HelloAck { version: u8, room_id: RoomId, peer_id: PeerId },
    /// A Diffie-Hellman public key.
    DHPubKey { pub_key: [u8; 32] },
    /// HMAC tag authenticating the Diffie-Hellman exchange.
    AuthTag { tag: [u8; 32] },
    /// Request to join the room (sent encrypted).
    JoinRequest { peer_id: PeerId, name: String },
    /// Answer to a join request (sent encrypted).
    JoinResponse { approved: bool, reason: Option<String> },
    /// An encrypted message: nonce followed by ciphertext.
    EncryptedMessage { payload: Vec<u8> },
    /// Application-layer message.
    ApplicationMessage { message: ApplicationMessage },
    /// Keep-alive request.
    Ping { peer_id: PeerId },
    /// Keep-alive answer.
    Pong { peer_id: PeerId },
}

} // verus!
