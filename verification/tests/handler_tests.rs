use resonance::net::{IpAddress, SocketAddress};
use resonance::room_core::{
    Error, JoinRequestStatus, NetworkCommand, NetworkEvent, PeerId, RoomCommand, RoomEvent, RoomId,
};
use resonance::room_handler::{RoomHandler, RoomOutput};

fn localhost() -> SocketAddress {
    SocketAddress { ip: IpAddress::V4(127, 0, 0, 1), port: 12345 }
}

#[test]
fn test_create_room() {
    let peer_id = PeerId::new();
    let mut handler = RoomHandler::new(peer_id);

    let step = handler.on_command(RoomCommand::CreateRoom).unwrap();
    assert!(step.outcome.is_ok());
    let mut outputs = step.outputs.into_iter();

    if let Some(RoomOutput::Network(NetworkCommand::CreateRoom { room_id })) = outputs.next() {
        assert!(room_id != RoomId::new());
        assert_eq!(handler.state().id(), room_id);
    } else {
        panic!("Expected NetworkCommand::CreateRoom");
    }

    if let Some(RoomOutput::Event(RoomEvent::PeerAdded(id))) = outputs.next() {
        assert_eq!(id, peer_id);
    } else {
        panic!("Expected RoomEvent::PeerAdded");
    }

    if let Some(RoomOutput::Event(RoomEvent::PeerListUpdated)) = outputs.next() {
    } else {
        panic!("Expected RoomEvent::PeerListUpdated");
    }

    assert!(handler.on_command(RoomCommand::Shutdown).is_none());
}

#[test]
fn test_join_room() {
    let peer_id = PeerId::new();
    let mut handler = RoomHandler::new(peer_id);

    let room_id = RoomId::new();
    let address = localhost();

    let step = handler.on_command(RoomCommand::JoinRoom { room_id, address }).unwrap();
    let mut outputs = step.outputs.into_iter();

    if let Some(RoomOutput::Network(NetworkCommand::ConnectToRoom {
        room_id: cmd_room_id,
        address: cmd_address,
    })) = outputs.next()
    {
        assert_eq!(cmd_room_id, room_id);
        assert_eq!(cmd_address, address);
    } else {
        panic!("Expected NetworkCommand::ConnectToRoom");
    }

    if let Some(RoomOutput::Event(RoomEvent::PeerAdded(id))) = outputs.next() {
        assert_eq!(id, peer_id);
    } else {
        panic!("Expected RoomEvent::PeerAdded");
    }

    if let Some(RoomOutput::Event(RoomEvent::PeerListUpdated)) = outputs.next() {
    } else {
        panic!("Expected RoomEvent::PeerListUpdated");
    }

    assert!(handler.on_command(RoomCommand::Shutdown).is_none());
}

#[test]
fn handler_test_handle_join_request() {
    let peer_id = PeerId::new();
    let mut handler = RoomHandler::new(peer_id);

    let joiner_id = PeerId::new();
    let joiner_name = "Test Joiner".to_string();
    let joiner_addr = localhost();

    let step = handler.handle_network_event(NetworkEvent::JoinRequested {
        peer_id: joiner_id,
        name: joiner_name,
        address: joiner_addr,
    });

    if let Some(RoomOutput::Event(RoomEvent::JoinRequestReceived(id))) = step.outputs.first() {
        assert_eq!(*id, joiner_id);
    } else {
        panic!("Expected RoomEvent::JoinRequestReceived");
    }

    assert!(handler.on_command(RoomCommand::Shutdown).is_none());
}

#[test]
fn approving_a_request_answers_and_starts_a_call() {
    let mut handler = RoomHandler::new(PeerId::from_u128(1));
    let joiner = PeerId::from_u128(2);
    handler.handle_network_event(NetworkEvent::JoinRequested {
        peer_id: joiner,
        name: "j".to_string(),
        address: localhost(),
    });
    let step = handler.on_command(RoomCommand::ApproveJoinRequest { peer_id: joiner }).unwrap();
    assert!(step.outcome.is_ok());
    assert_eq!(step.outputs.len(), 3);
    assert!(matches!(
        step.outputs[0],
        RoomOutput::Event(RoomEvent::JoinRequestStatusChanged(p, JoinRequestStatus::Approved)) if p == joiner
    ));
    assert!(matches!(
        step.outputs[1],
        RoomOutput::Network(NetworkCommand::SendJoinResponse { peer_id, approved: true, reason: None }) if peer_id == joiner
    ));
    assert!(matches!(
        step.outputs[2],
        RoomOutput::Network(NetworkCommand::InitiateWebRtcConnection { peer_id }) if peer_id == joiner
    ));
}

#[test]
fn denying_an_unknown_request_fails_without_output() {
    let mut handler = RoomHandler::new(PeerId::from_u128(1));
    let step = handler
        .on_command(RoomCommand::DenyJoinRequest { peer_id: PeerId::from_u128(5), reason: None })
        .unwrap();
    assert!(step.outputs.is_empty());
    assert!(matches!(step.outcome, Err(Error::NotFound(_))));
}

#[test]
fn leaving_disconnects_every_other_peer() {
    let me = PeerId::from_u128(1);
    let mut handler = RoomHandler::new(me);
    handler.on_command(RoomCommand::CreateRoom).unwrap();
    for k in 2..5u128 {
        handler.handle_network_event(NetworkEvent::PeerConnected {
            peer_id: PeerId::from_u128(k),
            address: localhost(),
        });
    }
    assert_eq!(handler.state().peer_count(), 4);
    let step = handler.on_command(RoomCommand::LeaveRoom).unwrap();
    assert_eq!(step.outputs.len(), 4);
    let mut seen: Vec<u128> = Vec::new();
    for o in &step.outputs[..3] {
        if let RoomOutput::Network(NetworkCommand::DisconnectPeer { peer_id }) = o {
            seen.push(peer_id.as_u128());
        } else {
            panic!("Expected DisconnectPeer");
        }
    }
    seen.sort();
    assert_eq!(seen, vec![2, 3, 4]);
    assert!(matches!(step.outputs[3], RoomOutput::Event(RoomEvent::PeerListUpdated)));
    assert_eq!(handler.state().peer_count(), 0);
}

#[test]
fn connected_peer_gets_a_name() {
    let mut handler = RoomHandler::new(PeerId::from_u128(1));
    let x: u128 = 0x0123_4567_89ab_cdef_0011_2233_4455_6677;
    handler.handle_network_event(NetworkEvent::PeerConnected {
        peer_id: PeerId::from_u128(x),
        address: localhost(),
    });
    assert_eq!(handler.state().peers()[&x].name, "Peer 01234567");
}

#[test]
fn refused_join_response_empties_the_room() {
    let mut handler = RoomHandler::new(PeerId::from_u128(1));
    handler.on_command(RoomCommand::CreateRoom).unwrap();
    let step = handler.handle_network_event(NetworkEvent::JoinResponseReceived {
        approved: false,
        reason: Some("no".to_string()),
    });
    assert_eq!(handler.state().peer_count(), 0);
    assert_eq!(step.outputs.len(), 1);
}
