use std::collections::VecDeque;

use resonance::crypto::CryptoProvider;
use resonance::net::{IpAddress, SocketAddress};
use resonance::phase1::{ConnectionState, PeerConnection, Phase1Action, Phase1Network, Phase1Step};
use resonance::protocol::{Phase1Message, PROTOCOL_VERSION};
use resonance::room_core::{NetworkEvent, PeerId, RoomId};

const MARKER: &[u8] = b"inner message";

struct Side {
    net: Phase1Network,
    addr: SocketAddress,
    is_server: bool,
    events: Vec<NetworkEvent>,
    forwarded: Vec<Phase1Message>,
}

struct Wire {
    queue: VecDeque<(SocketAddress, SocketAddress, Phase1Message)>,
    inner: VecDeque<Phase1Message>,
}

fn perform(side: &mut Side, step: Phase1Step, wire: &mut Wire, now: u64) {
    assert!(step.outcome.is_ok());
    for action in step.actions {
        match action {
            Phase1Action::Send { to, message } => wire.queue.push_back((to, side.addr, message)),
            Phase1Action::SendEncrypted { to, key, message } => {
                let payload = CryptoProvider::encrypt(&key, MARKER, b"").unwrap();
                wire.inner.push_back(message);
                wire.queue
                    .push_back((to, side.addr, Phase1Message::EncryptedMessage { payload }));
            }
            Phase1Action::Emit { event } => side.events.push(event),
            Phase1Action::Forward { message, .. } => side.forwarded.push(message),
            Phase1Action::Decode { peer_id, from, plaintext } => {
                assert_eq!(plaintext, MARKER);
                let message = wire.inner.pop_front().unwrap();
                let next = side.net.handle_inner_message(peer_id, from, message, now);
                perform(side, next, wire, now);
            }
            Phase1Action::SetState { peer_id, state } => side.net.set_peer_state(peer_id, state),
            Phase1Action::StoreOwnKeys { peer_id, secret, public_key } => {
                side.net.store_own_keys(peer_id, secret, public_key)
            }
        }
    }
}

fn deliver(host: &mut Side, guest: &mut Side, wire: &mut Wire, room: RoomId, now: u64) {
    let room_bytes = room.as_u128().to_be_bytes();
    while let Some((to, from, message)) = wire.queue.pop_front() {
        let side = if to == host.addr { &mut *host } else { &mut *guest };
        let step = side.net.receive(message, from, Some(room), &room_bytes, side.is_server, now);
        perform(side, step, wire, now);
    }
}

fn addr(last: u8, port: u16) -> SocketAddress {
    SocketAddress { ip: IpAddress::V4(192, 0, 2, last), port }
}

#[test]
fn test_create_phase1_network() {
    let peer_id = PeerId::new();
    let mut network = Phase1Network::new(peer_id);
    assert_eq!(network.peer_id(), peer_id);
    assert!(network.room_id().is_none());
    assert!(!network.is_server());
    let room = RoomId::new();
    assert!(network.create_room(room).is_ok());
    assert_eq!(network.room_id(), Some(room));
    assert!(network.is_server());
}

#[test]
fn test_basic_connection() {
    let room = RoomId::from(0xfeed);
    let host_id = PeerId::from_u128(10);
    let guest_id = PeerId::from_u128(20);
    let mut host = Side {
        net: Phase1Network::new(host_id),
        addr: addr(1, 12345),
        is_server: true,
        events: vec![],
        forwarded: vec![],
    };
    let mut guest = Side {
        net: Phase1Network::new(guest_id),
        addr: addr(2, 40000),
        is_server: false,
        events: vec![],
        forwarded: vec![],
    };
    host.net.create_room(room).unwrap();
    let mut wire = Wire { queue: VecDeque::new(), inner: VecDeque::new() };

    let step = guest.net.connect(room, host.addr);
    assert!(matches!(
        &step.actions[0],
        Phase1Action::Send { message: Phase1Message::HelloInitiate { version: PROTOCOL_VERSION, .. }, .. }
    ));
    perform(&mut guest, step, &mut wire, 1);
    deliver(&mut host, &mut guest, &mut wire, room, 1);

    // the host authenticated the guest and received its join request
    assert_eq!(host.net.peer_state(guest_id), Some(ConnectionState::Authenticated));
    assert_eq!(guest.net.peer_state(host_id), Some(ConnectionState::JoinRequested));
    assert_eq!(host.net.peer_at(&guest.addr), Some(guest_id));
    assert_eq!(guest.net.peer_at(&host.addr), Some(host_id));
    assert!(host
        .events
        .iter()
        .any(|e| matches!(e, NetworkEvent::AuthenticationSucceeded { peer_id } if *peer_id == guest_id)));
    assert!(host
        .events
        .iter()
        .any(|e| matches!(e, NetworkEvent::JoinRequested { peer_id, .. } if *peer_id == guest_id)));
    assert!(guest
        .events
        .iter()
        .any(|e| matches!(e, NetworkEvent::AuthenticationSucceeded { peer_id } if *peer_id == host_id)));

    // the host approves: the guest joins
    let answer = host.net.send_join_response(guest_id, true, None).unwrap();
    let step = Phase1Step { actions: vec![answer], outcome: Ok(()) };
    perform(&mut host, step, &mut wire, 2);
    deliver(&mut host, &mut guest, &mut wire, room, 2);
    assert_eq!(guest.net.peer_state(host_id), Some(ConnectionState::Joined));
    assert!(guest
        .events
        .iter()
        .any(|e| matches!(e, NetworkEvent::JoinResponseReceived { approved: true, .. })));

    let peers = guest.net.get_peers();
    assert_eq!(peers.len(), 1);
    assert_eq!(peers[0].peer_id, host_id);
}

#[test]
fn unauthenticated_peers_cannot_be_sent_to() {
    let net = Phase1Network::new(PeerId::from_u128(1));
    let r = net.send_message(PeerId::from_u128(2), Phase1Message::Ping { peer_id: PeerId::from_u128(1) });
    match r {
        Err(resonance::room_core::Error::Network(m)) => assert!(m.starts_with("Peer not found: ")),
        _ => panic!("Expected a network error"),
    }
}

#[test]
fn wrong_version_hello_is_ignored() {
    let mut net = Phase1Network::new(PeerId::from_u128(1));
    net.create_room(RoomId::from(5)).unwrap();
    let step = net.receive(
        Phase1Message::HelloInitiate {
            version: PROTOCOL_VERSION + 1,
            room_id: RoomId::from(5),
            peer_id: PeerId::from_u128(2),
        },
        addr(3, 1),
        Some(RoomId::from(5)),
        &[],
        true,
        0,
    );
    assert!(step.actions.is_empty());
    assert!(net.peer_state(PeerId::from_u128(2)).is_none());
}

#[test]
fn connection_timeouts() {
    let c = PeerConnection::new(PeerId::from_u128(3), addr(4, 1), 1000);
    assert!(!c.is_timed_out(61000, 60000));
    assert!(c.is_timed_out(61001, 60000));
    assert!(!c.is_timed_out(10, 60000));
}

#[test]
fn disconnect_forgets_the_address() {
    let room = RoomId::from(9);
    let mut net = Phase1Network::new(PeerId::from_u128(1));
    net.create_room(room).unwrap();
    let step = net.receive(
        Phase1Message::HelloInitiate { version: PROTOCOL_VERSION, room_id: room, peer_id: PeerId::from_u128(2) },
        addr(5, 2),
        Some(room),
        &[],
        true,
        0,
    );
    assert_eq!(step.actions.len(), 3);
    assert_eq!(net.peer_at(&addr(5, 2)), Some(PeerId::from_u128(2)));
    net.disconnect_peer(PeerId::from_u128(2)).unwrap();
    assert!(net.peer_at(&addr(5, 2)).is_none());
    assert!(net.peer_state(PeerId::from_u128(2)).is_none());
}
