use resonance::signaling::{SignalingError, SignalingInterface, SignalingService};

#[test]
fn test_signaling_connection() {
    let mut signaling = SignalingService::new();
    let result = signaling.connect();
    assert!(result.is_ok());
    assert!(signaling.is_connected());
}

#[test]
fn signaling_test_session_creation() {
    let mut signaling = SignalingService::new();
    signaling.connect().unwrap();

    let session_info = signaling.create_session().unwrap();
    assert!(!session_info.session_id.is_empty());
    assert!(!session_info.connection_link.is_empty());
    assert!(session_info.connection_link.contains(&session_info.session_id));
}

#[test]
fn test_join_session() {
    let mut signaling = SignalingService::new();
    signaling.connect().unwrap();

    let link = "resonance://join/test-session-id";
    let session_info = signaling.join_session(link).unwrap();

    assert_eq!(session_info.session_id, "test-session-id");
    assert_eq!(session_info.connection_link, link);
    assert_eq!(signaling.current_session_id().unwrap(), "test-session-id");
}

#[test]
fn test_invalid_connection_link() {
    let mut signaling = SignalingService::new();
    signaling.connect().unwrap();

    let result = signaling.join_session("invalid-link");
    assert!(result.is_err());
}

#[test]
fn test_disconnect() {
    let mut signaling = SignalingService::new();
    signaling.connect().unwrap();

    let _session_info = signaling.create_session().unwrap();
    assert!(signaling.current_session_id().is_some());

    let result = signaling.disconnect();
    assert!(result.is_ok());
    assert!(!signaling.is_connected());
    assert!(signaling.current_session_id().is_none());
}

#[test]
fn signaling_errors() {
    let mut s = SignalingService::new();
    assert_eq!(s.create_session().unwrap_err(), SignalingError::NotConnected);
    assert_eq!(s.join_session("resonance://join/x").unwrap_err(), SignalingError::NotConnected);
    assert_eq!(s.add_peer("a", "b").unwrap_err(), SignalingError::NotConnected);
    s.connect().unwrap();
    assert_eq!(s.join_session("invalid").unwrap_err(), SignalingError::InvalidLinkFormat);
    assert_eq!(s.join_session("resonance://join/").unwrap_err(), SignalingError::InvalidSessionId);
    assert_eq!(
        SignalingError::NotConnected.to_display_string(),
        "Not connected to signaling service"
    );
}

#[test]
fn created_session_link_and_id() {
    let mut s = SignalingService::new();
    s.connect().unwrap();
    let info = s.create_session().unwrap();
    assert_eq!(info.session_id.len(), 36);
    assert_eq!(info.connection_link, format!("resonance://join/{}", info.session_id));
    assert_eq!(s.current_session_id().unwrap(), info.session_id);
}

#[test]
fn peers_are_replaced_by_id() {
    let mut s = SignalingService::new();
    s.connect().unwrap();
    s.add_peer("1", "a").unwrap();
    s.add_peer("2", "b").unwrap();
    s.add_peer("1", "c").unwrap();
    let peers = s.get_peers();
    assert_eq!(peers.len(), 2);
    assert_eq!(peers[0].id, "1");
    assert_eq!(peers[0].name, "c");
    assert_eq!(peers[1].name, "b");
}
