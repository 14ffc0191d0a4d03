use resonance::room_core::{Error, JoinRequestStatus, PeerId, RoomId};

fn uuid_text(x: u128) -> String {
    uuid::Uuid::from_u128(x).to_string()
}

#[test]
fn lib_peer_id_display() {
    let peer_id = PeerId::new();
    let display = peer_id.to_display_string();
    assert_eq!(display.len(), 8);
    assert_eq!(display, &uuid_text(peer_id.as_u128())[..8]);
}

#[test]
fn lib_room_id_display() {
    let room_id = RoomId::new();
    let display = room_id.to_display_string();
    assert_eq!(display, uuid_text(room_id.as_u128()));
}

#[test]
fn lib_peer_id_equality() {
    let id1 = PeerId::new();
    let id2 = PeerId::from_u128(id1.as_u128());
    let id3 = PeerId::new();
    assert_eq!(id1, id2);
    assert_ne!(id1, id3);
}

#[test]
fn lib_error_display() {
    let io_err = Error::Io("file not found".to_string());
    assert!(io_err.to_display_string().contains("I/O error: file not found"));

    let config_err = Error::Config("Invalid setting".to_string());
    assert!(config_err
        .to_display_string()
        .contains("Configuration error: Invalid setting"));

    let other_err = Error::Other("Something went wrong".to_string());
    assert!(other_err.to_display_string().contains("Something went wrong"));
}

#[test]
fn test_join_request_status_display() {
    assert_eq!(JoinRequestStatus::Pending.to_display_string(), "Pending");
    assert_eq!(JoinRequestStatus::Approved.to_display_string(), "Approved");
    assert_eq!(JoinRequestStatus::Denied.to_display_string(), "Denied");
}

#[test]
fn error_texts_of_every_variant() {
    assert_eq!(Error::Network("x".to_string()).to_display_string(), "Network error: x");
    assert_eq!(Error::Audio("x".to_string()).to_display_string(), "Audio error: x");
    assert_eq!(Error::Crypto("x".to_string()).to_display_string(), "Cryptography error: x");
    assert_eq!(
        Error::Serialization("x".to_string()).to_display_string(),
        "Serialization error: x"
    );
    assert_eq!(Error::Room("x".to_string()).to_display_string(), "Room logic error: x");
    assert_eq!(
        Error::Initialization("x".to_string()).to_display_string(),
        "Initialization error: x"
    );
    assert_eq!(Error::NotFound("x".to_string()).to_display_string(), "Resource not found: x");
    assert_eq!(Error::InvalidState("x".to_string()).to_display_string(), "Invalid state: x");
    assert_eq!(Error::Other("x".to_string()).to_display_string(), "x");
}

#[test]
fn ids_display_fixed_uuid() {
    let x: u128 = 0x0123_4567_89ab_cdef_0011_2233_4455_6677;
    assert_eq!(PeerId::from_u128(x).to_display_string(), "01234567");
    assert_eq!(
        RoomId::from(x).to_display_string(),
        "01234567-89ab-cdef-0011-223344556677"
    );
}

#[test]
fn new_ids_are_version_4_uuids() {
    for _ in 0..16 {
        let p = PeerId::new().as_u128();
        let r = RoomId::new().as_u128();
        for x in [p, r] {
            assert_eq!((x >> 76) & 0xf, 4);
            assert_eq!((x >> 62) & 0x3, 2);
            assert_eq!(uuid::Uuid::from_u128(x).get_version_num(), 4);
        }
    }
}
