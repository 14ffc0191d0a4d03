use resonance::p2p::ConnectionState;
use resonance::session::{
    audio_failure, audio_send_result, connection_state, has_active_connection, new_peer_targets,
    plan_join, sync_targets, LinkStatus, Peer, PeerTable, PeerUpdate, Session, SessionError,
};
use resonance::participant_list::Participant;

#[test]
fn test_session_error_creation() {
    let error = SessionError::NoActiveSession;
    assert!(error.to_display_string().contains("No active session"));

    let error = SessionError::CreationError("test error".to_string());
    assert!(error.to_display_string().contains("test error"));
}

fn peer(id: &str, joined_at: u64, is_host: bool) -> Peer {
    Peer {
        id: id.to_string(),
        name: format!("Name {}", id),
        ip: "127.0.0.1".to_string(),
        port: 8080,
        public_key: [0; 32],
        is_host,
        joined_at,
    }
}

#[test]
fn session_error_texts() {
    assert_eq!(
        SessionError::JoinError("x".to_string()).to_display_string(),
        "Failed to join session: x"
    );
    assert_eq!(
        SessionError::LeaveError("x".to_string()).to_display_string(),
        "Failed to leave session: x"
    );
    assert_eq!(
        SessionError::NetworkError("x".to_string()).to_display_string(),
        "Network error: x"
    );
    assert_eq!(SessionError::UiError("x".to_string()).to_display_string(), "UI error: x");
}

#[test]
fn peer_list_adds_everyone_but_us() {
    let mut table = PeerTable::new("me".to_string());
    table.apply_update(PeerUpdate::PeerList {
        peers: vec![peer("a", 1, true), peer("me", 2, false), peer("b", 3, false)],
    });
    assert!(table.get("a").is_some());
    assert!(table.get("b").is_some());
    assert!(table.get("me").is_none());
}

#[test]
fn new_peer_replaces_a_peer_with_the_same_id() {
    let mut table = PeerTable::new("me".to_string());
    table.apply_update(PeerUpdate::NewPeer { peer: peer("a", 1, false) });
    table.apply_update(PeerUpdate::NewPeer { peer: peer("a", 5, true) });
    let a = table.get("a").unwrap();
    assert_eq!(a.joined_at, 5);
    assert!(a.is_host);
}

#[test]
fn peer_left_removes_the_peer_and_keeps_the_host() {
    let mut table = PeerTable::new("me".to_string());
    table.insert(peer("me", 1, false));
    table.insert(peer("host", 2, true));
    table.apply_update(PeerUpdate::PeerLeft { peer_id: "host".to_string() });
    assert!(table.get("host").is_none());
    assert!(!table.get("me").unwrap().is_host);
}

#[test]
fn election_makes_us_host_when_we_joined_first() {
    let mut table = PeerTable::new("me".to_string());
    table.insert(peer("b", 20, false));
    table.insert(peer("me", 10, false));
    table.elect_host();
    assert!(table.get("me").unwrap().is_host);

    let mut other = PeerTable::new("me".to_string());
    other.insert(peer("b", 5, false));
    other.insert(peer("me", 10, false));
    other.elect_host();
    assert!(!other.get("me").unwrap().is_host);
}

#[test]
fn joining_records_host_then_us() {
    let link = resonance::p2p::generate_connection_link(
        &resonance::p2p::Endpoint {
            ip: resonance::net::IpAddress::V4(192, 0, 2, 1),
            port: 12345,
        },
        "test-session",
        &[7u8; 32],
    );
    let target = plan_join(&link, Some(resonance::net::IpAddress::V4(192, 0, 2, 1))).unwrap();
    assert_eq!(target.host_id, "host-test-session");
    let mut table = PeerTable::new("me".to_string());
    table.record_join(&target, 100);
    let host = table.get("host-test-session").unwrap();
    assert_eq!(host.name, "Host");
    assert_eq!(host.ip, "192.0.2.1");
    assert_eq!(host.port, 12345);
    assert_eq!(host.public_key, [7u8; 32]);
    assert!(host.is_host);
    assert_eq!(host.joined_at, 99);
    let me = table.get("me").unwrap();
    assert_eq!(me.name, "Me");
    assert_eq!(me.ip, "0.0.0.0");
    assert_eq!(me.port, 0);
    assert!(!me.is_host);
    assert_eq!(me.joined_at, 100);
}

#[test]
fn joining_with_a_bad_link_is_a_join_error() {
    match plan_join("not a link", None) {
        Err(SessionError::JoinError(m)) => {
            assert_eq!(m, "Invalid link: Invalid connection link format")
        }
        _ => panic!("expected a join error"),
    }
    match plan_join("resonance://join?ip=nowhere&port=1&sid=s&key=AAAA", None) {
        Err(SessionError::JoinError(m)) => {
            assert_eq!(m, "Invalid link: invalid IP address syntax")
        }
        _ => panic!("expected a join error"),
    }
}

#[test]
fn creating_records_us_as_host_and_connect_plans() {
    let mut table = PeerTable::new("me".to_string());
    table.record_create("203.0.113.5".to_string(), 4000, [1u8; 32], 50);
    let me = table.get("me").unwrap();
    assert!(me.is_host);
    assert_eq!(me.name, "Me");
    assert!(matches!(table.plan_connect("me", false, true), Ok(None)));
    table.insert(peer("b", 60, false));
    assert!(matches!(table.plan_connect("b", false, true), Ok(Some(_))));
    assert!(matches!(table.plan_connect("b", true, true), Ok(None)));
    assert!(matches!(table.plan_connect("b", false, false), Err(SessionError::NoActiveSession)));
    assert!(matches!(table.plan_connect("zz", false, true), Err(SessionError::NetworkError(_))));
    table.clear();
    assert!(table.get("me").is_none());
}

fn link(id: &str, connected: bool) -> LinkStatus {
    LinkStatus { peer_id: id.to_string(), connected }
}

#[test]
fn host_broadcast_targets() {
    let links = vec![link("me", true), link("a", true), link("b", false), link("c", true)];
    assert_eq!(sync_targets(None, "me", &links).unwrap_err(), SessionError::NoActiveSession);
    assert!(sync_targets(Some(false), "me", &links).unwrap().is_empty());
    assert_eq!(sync_targets(Some(true), "me", &links).unwrap(), vec!["a", "c"]);
    assert_eq!(new_peer_targets(Some(true), "me", "c", &links).unwrap(), vec!["a"]);
    assert!(new_peer_targets(Some(false), "me", "c", &links).unwrap().is_empty());
}

#[test]
fn active_connections() {
    assert!(!has_active_connection(None, &vec![link("a", true)]));
    assert!(has_active_connection(Some(true), &vec![]));
    assert!(!has_active_connection(Some(false), &vec![]));
    assert!(!has_active_connection(Some(false), &vec![link("a", false)]));
    assert!(has_active_connection(Some(false), &vec![link("a", false), link("b", true)]));
    assert_eq!(connection_state(&vec![link("a", true)]), Some(ConnectionState::Connected));
    assert_eq!(connection_state(&vec![link("a", false)]), None);
}

#[test]
fn audio_failures_are_joined() {
    assert!(audio_send_result(&vec![]).is_ok());
    let failures = vec![audio_failure("a", "down"), audio_failure("b", "gone")];
    assert_eq!(
        audio_send_result(&failures).unwrap_err(),
        SessionError::NetworkError(
            "Failed to send audio to a: down; Failed to send audio to b: gone".to_string()
        )
    );
}

#[test]
fn session_test_session_creation() {
    let session = Session {
        id: "test-id".to_string(),
        connection_link: "test-link".to_string(),
        participants: vec![Participant::new("Me")],
        is_host: true,
        original_host_id: "test-id".to_string(),
        created_at: 0,
    };

    assert_eq!(session.id, "test-id");
    assert_eq!(session.connection_link, "test-link");
    assert_eq!(session.participants.len(), 1);
    assert!(session.is_host);
}

#[test]
fn test_peer_creation() {
    let peer = Peer {
        id: "test-peer".to_string(),
        name: "Test Peer".to_string(),
        ip: "127.0.0.1".to_string(),
        port: 8080,
        public_key: [0; 32],
        is_host: false,
        joined_at: 100,
    };

    assert_eq!(peer.id, "test-peer");
    assert_eq!(peer.name, "Test Peer");
    assert_eq!(peer.port, 8080);
    assert!(!peer.is_host);
}

#[test]
fn test_clone_implementation() {
    let session = Session {
        id: "test-id".to_string(),
        connection_link: "test-link".to_string(),
        participants: vec![Participant::new("Me")],
        is_host: true,
        original_host_id: "test-id".to_string(),
        created_at: 0,
    };

    let cloned = session.clone();
    assert_eq!(session.id, cloned.id);
    assert_eq!(session.participants.len(), cloned.participants.len());
}
