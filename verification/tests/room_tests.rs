use resonance::room::{RoomState, MAX_USERS};
use resonance::room_core::{Error, JoinRequestStatus, PeerId, RoomEvent, RoomId};

fn create_test_peer_id() -> PeerId {
    PeerId::new()
}

#[test]
fn create_room() {
    let room = RoomState::new();
    let id = room.id();
    assert_eq!(room.id(), id);
    assert_eq!(room.peers().len(), 0);
    assert_eq!(room.pending_joins().len(), 0);
}

#[test]
fn create_room_with_id() {
    let room_id = RoomId::new();
    let room = RoomState::with_id(room_id);
    assert_eq!(room.id(), room_id);
}

#[test]
fn test_add_peer() {
    let mut room = RoomState::new();
    let peer_id = create_test_peer_id();
    let name = "Test User".to_string();

    let event = room.add_peer(peer_id, name.clone()).unwrap();

    assert_eq!(event, RoomEvent::PeerAdded(peer_id));
    assert_eq!(room.peers().len(), 1);
    assert!(room.peers().contains_key(&peer_id.as_u128()));
    assert_eq!(room.peers()[&peer_id.as_u128()].name, name);
}

#[test]
fn test_add_peer_room_full() {
    let mut room = RoomState::new();

    for i in 0..MAX_USERS {
        let peer_id = create_test_peer_id();
        let name = format!("User {}", i);
        room.add_peer(peer_id, name).unwrap();
    }

    let peer_id = create_test_peer_id();
    let name = "One Too Many".to_string();
    let result = room.add_peer(peer_id, name);

    assert!(result.is_err());
    if let Err(Error::Room(msg)) = result {
        assert!(msg.contains("full"));
    } else {
        panic!("Expected Room error");
    }
}

#[test]
fn test_remove_peer() {
    let mut room = RoomState::new();
    let peer_id = create_test_peer_id();

    room.add_peer(peer_id, "Test User".to_string()).unwrap();
    assert_eq!(room.peers().len(), 1);

    let event = room.remove_peer(peer_id).unwrap();
    assert_eq!(event, RoomEvent::PeerRemoved(peer_id));
    assert_eq!(room.peers().len(), 0);
}

#[test]
fn test_remove_nonexistent_peer() {
    let mut room = RoomState::new();
    let peer_id = create_test_peer_id();

    let result = room.remove_peer(peer_id);
    assert!(result.is_err());
    if let Err(Error::NotFound(_)) = result {
    } else {
        panic!("Expected NotFound error");
    }
}

#[test]
fn lib_test_handle_join_request() {
    let mut room = RoomState::new();
    let peer_id = create_test_peer_id();

    let event = room.handle_join_request(peer_id).unwrap();

    assert_eq!(event, RoomEvent::JoinRequestReceived(peer_id));
    assert_eq!(room.pending_joins().len(), 1);
    assert_eq!(room.pending_joins()[&peer_id.as_u128()], JoinRequestStatus::Pending);
}

#[test]
fn test_handle_duplicate_join_request() {
    let mut room = RoomState::new();
    let peer_id = create_test_peer_id();

    room.handle_join_request(peer_id).unwrap();

    let result = room.handle_join_request(peer_id);
    assert!(result.is_err());
    if let Err(Error::InvalidState(_)) = result {
    } else {
        panic!("Expected InvalidState error");
    }
}

#[test]
fn test_handle_join_request_for_existing_peer() {
    let mut room = RoomState::new();
    let peer_id = create_test_peer_id();

    room.add_peer(peer_id, "Test User".to_string()).unwrap();

    let result = room.handle_join_request(peer_id);
    assert!(result.is_err());
    if let Err(Error::InvalidState(_)) = result {
    } else {
        panic!("Expected InvalidState error");
    }
}

#[test]
fn test_approve_join_request() {
    let mut room = RoomState::new();
    let peer_id = create_test_peer_id();

    room.handle_join_request(peer_id).unwrap();

    let event = room.approve_join_request(peer_id).unwrap();

    assert_eq!(
        event,
        RoomEvent::JoinRequestStatusChanged(peer_id, JoinRequestStatus::Approved)
    );
    assert_eq!(room.pending_joins()[&peer_id.as_u128()], JoinRequestStatus::Approved);
}

#[test]
fn test_approve_nonexistent_join_request() {
    let mut room = RoomState::new();
    let peer_id = create_test_peer_id();

    let result = room.approve_join_request(peer_id);

    assert!(result.is_err());
    if let Err(Error::NotFound(_)) = result {
    } else {
        panic!("Expected NotFound error");
    }
}

#[test]
fn test_approve_join_request_room_full() {
    let mut room = RoomState::new();
    let joiner_id = create_test_peer_id();

    room.handle_join_request(joiner_id).unwrap();

    for i in 0..MAX_USERS {
        let peer_id = create_test_peer_id();
        let name = format!("User {}", i);
        room.add_peer(peer_id, name).unwrap();
    }

    let result = room.approve_join_request(joiner_id);

    assert!(result.is_err());
    if let Err(Error::Room(msg)) = result {
        assert!(msg.contains("full"));
    } else {
        panic!("Expected Room error");
    }
}

#[test]
fn test_deny_join_request() {
    let mut room = RoomState::new();
    let peer_id = create_test_peer_id();

    room.handle_join_request(peer_id).unwrap();

    let event = room.deny_join_request(peer_id).unwrap();

    assert_eq!(
        event,
        RoomEvent::JoinRequestStatusChanged(peer_id, JoinRequestStatus::Denied)
    );
    assert_eq!(room.pending_joins()[&peer_id.as_u128()], JoinRequestStatus::Denied);
}

#[test]
fn test_deny_nonexistent_join_request() {
    let mut room = RoomState::new();
    let peer_id = create_test_peer_id();

    let result = room.deny_join_request(peer_id);

    assert!(result.is_err());
    if let Err(Error::NotFound(_)) = result {
    } else {
        panic!("Expected NotFound error");
    }
}

#[test]
fn test_remove_join_request() {
    let mut room = RoomState::new();
    let peer_id = create_test_peer_id();

    room.handle_join_request(peer_id).unwrap();
    assert_eq!(room.pending_joins().len(), 1);

    room.remove_join_request(peer_id).unwrap();
    assert_eq!(room.pending_joins().len(), 0);
}

#[test]
fn test_remove_nonexistent_join_request() {
    let mut room = RoomState::new();
    let peer_id = create_test_peer_id();

    let result = room.remove_join_request(peer_id);

    assert!(result.is_err());
    if let Err(Error::NotFound(_)) = result {
    } else {
        panic!("Expected NotFound error");
    }
}

#[test]
fn test_peer_count_and_has_space() {
    let mut room = RoomState::new();

    assert_eq!(room.peer_count(), 0);
    assert!(room.has_space());

    for i in 0..(MAX_USERS - 1) {
        let peer_id = create_test_peer_id();
        let name = format!("User {}", i);
        room.add_peer(peer_id, name).unwrap();
    }

    assert_eq!(room.peer_count(), MAX_USERS - 1);
    assert!(room.has_space());

    let peer_id = create_test_peer_id();
    room.add_peer(peer_id, "Last User".to_string()).unwrap();

    assert_eq!(room.peer_count(), MAX_USERS);
    assert!(!room.has_space());
}

#[test]
fn full_room_errors_carry_their_messages() {
    let mut room = RoomState::new();
    let joiner = PeerId::from_u128(1000);
    room.handle_join_request(joiner).unwrap();
    for i in 0..MAX_USERS {
        room.add_peer(PeerId::from_u128(i as u128 + 1), format!("User {}", i)).unwrap();
    }
    assert_eq!(
        room.add_peer(PeerId::from_u128(999), "x".to_string()),
        Err(Error::Room("Room is full (max 8 users)".to_string()))
    );
    assert_eq!(
        room.approve_join_request(joiner),
        Err(Error::Room("Cannot approve request: room is full (max 8 users)".to_string()))
    );
    // a refused request stays pending
    assert_eq!(room.pending_joins()[&1000u128], JoinRequestStatus::Pending);
}

#[test]
fn adding_an_existing_peer_replaces_its_name() {
    let mut room = RoomState::new();
    let id = PeerId::from_u128(7);
    room.add_peer(id, "a".to_string()).unwrap();
    room.add_peer(id, "b".to_string()).unwrap();
    assert_eq!(room.peer_count(), 1);
    assert_eq!(room.peers()[&7u128].name, "b");
}
