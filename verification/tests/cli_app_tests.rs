use resonance::cli_app::{CliApp, CliRequest, CliState, CopyOutcome, Key};
use resonance::room_core::{JoinRequestStatus, PeerId, RoomEvent};

#[test]
fn quit_from_main_menu() {
    let mut app = CliApp::new();
    assert!(app.handle_key(Key::Char('x')).is_none());
    assert!(!app.should_quit());
    assert!(app.handle_key(Key::Char('q')).is_none());
    assert!(app.should_quit());
    let mut app = CliApp::new();
    app.handle_key(Key::Esc);
    assert!(app.should_quit());
}

#[test]
fn create_room_flow() {
    let mut app = CliApp::new();
    assert!(matches!(app.handle_key(Key::Char('c')), Some(CliRequest::CreateRoom)));
    assert!(matches!(app.state(), CliState::CreatingRoom));
    assert_eq!(app.status_message().unwrap(), "Creating room...");
    assert_eq!(app.status_line(), "Creating Room...");
    assert!(app.handle_key(Key::Char('q')).is_none());
    assert!(!app.should_quit());
    app.on_create_result(Ok(()));
    assert!(matches!(app.state(), CliState::InRoom));
    assert_eq!(app.status_message().unwrap(), "Room created, waiting for peers");
    assert_eq!(app.status_line(), "In Room: Unknown | Peers: 0");

    let mut app = CliApp::new();
    app.handle_key(Key::Char('c'));
    app.on_create_result(Err("no network".to_string()));
    assert!(matches!(app.state(), CliState::MainMenu));
    assert_eq!(app.status_message().unwrap(), "Error creating room: no network");
}

#[test]
fn typing_a_link() {
    let mut app = CliApp::new();
    app.handle_key(Key::Char('j'));
    for c in "room:ab".chars() {
        app.handle_key(Key::Char(c));
    }
    app.handle_key(Key::Backspace);
    assert_eq!(app.status_line(), "Joining Room | Link: room:a");
    match app.handle_key(Key::Enter) {
        Some(CliRequest::JoinRoom { link }) => assert_eq!(link, "room:a"),
        _ => panic!("Expected a join request"),
    }
    app.on_join_result("room:a", Err("bad link".to_string()));
    assert_eq!(app.status_message().unwrap(), "Error: bad link");
    assert!(matches!(app.state(), CliState::JoiningRoom { .. }));
    app.on_join_result("room:a", Ok(()));
    assert!(matches!(app.state(), CliState::InRoom));
    assert_eq!(app.status_message().unwrap(), "Joining room via room:a");
}

#[test]
fn escape_while_joining() {
    let mut app = CliApp::new();
    app.handle_key(Key::Char('j'));
    app.handle_key(Key::Backspace);
    app.handle_key(Key::Esc);
    assert!(matches!(app.state(), CliState::MainMenu));
    assert!(app.status_message().is_none());
}

#[test]
fn room_events_and_requests() {
    let me = PeerId::from_u128(0x0123_4567_0000_0000_0000_0000_0000_0001);
    let other = PeerId::from_u128(0xabcd_ef01_0000_0000_0000_0000_0000_0002);
    let mut app = CliApp::new();
    app.handle_key(Key::Char('c'));
    app.on_create_result(Ok(()));
    app.process_event(RoomEvent::PeerAdded(me), me);
    app.process_event(RoomEvent::PeerAdded(other), me);
    assert_eq!(app.peers()[&me.as_u128()], "You");
    assert_eq!(app.peers()[&other.as_u128()], "Peer abcdef01");
    assert_eq!(app.status_line(), "In Room: Unknown | Peers: 2");

    assert!(app.handle_key(Key::Char('a')).is_none());
    let joiner = PeerId::from_u128(0x1111_2222_0000_0000_0000_0000_0000_0003);
    app.process_event(RoomEvent::JoinRequestReceived(joiner), me);
    assert!(app.has_pending_requests());
    assert_eq!(app.status_message().unwrap(), "Join request from 11112222");
    match app.handle_key(Key::Char('d')) {
        Some(CliRequest::Deny { peer_id, reason }) => {
            assert_eq!(peer_id, joiner);
            assert_eq!(reason, "Denied by user");
        }
        _ => panic!("Expected a denial"),
    }
    match app.handle_key(Key::Char('a')) {
        Some(CliRequest::Approve { peer_id }) => assert_eq!(peer_id, joiner),
        _ => panic!("Expected an approval"),
    }
    app.on_request_answered(joiner, true);
    assert!(!app.has_pending_requests());
    assert_eq!(app.status_message().unwrap(), "Approved join request from 11112222");

    app.process_event(RoomEvent::JoinRequestStatusChanged(joiner, JoinRequestStatus::Approved), me);
    assert_eq!(app.status_message().unwrap(), "Join request from 11112222 is now Approved");

    app.process_event(RoomEvent::PeerRemoved(other), me);
    assert_eq!(app.peers().len(), 1);

    assert!(matches!(app.handle_key(Key::Char('g')), Some(CliRequest::GetJoinLink)));
    assert_eq!(app.on_join_link(Ok("room:x".to_string())).unwrap(), "room:x");
    app.on_copied(CopyOutcome::Copied);
    assert_eq!(app.status_message().unwrap(), "Join link copied to clipboard!");
    app.on_copied(CopyOutcome::NoClipboard("none".to_string()));
    assert_eq!(app.status_message().unwrap(), "Error accessing clipboard: none");
    app.on_copied(CopyOutcome::CopyFailed("busy".to_string()));
    assert_eq!(app.status_message().unwrap(), "Error copying link: busy");
    assert!(app.on_join_link(Err("no room".to_string())).is_none());
    assert_eq!(app.status_message().unwrap(), "Error getting join link: no room");

    assert!(matches!(app.handle_key(Key::Esc), Some(CliRequest::LeaveRoom)));
    app.on_left_room();
    assert!(matches!(app.state(), CliState::MainMenu));
    assert_eq!(app.peers().len(), 0);
    assert!(app.status_message().is_none());
}

#[test]
fn typing_then_erasing_restores_link() {
    let mut app = CliApp::new();
    app.handle_key(Key::Char('j'));
    app.handle_key(Key::Char('r'));
    assert!(app.handle_key(Key::Char('x')).is_none());
    assert!(app.handle_key(Key::Backspace).is_none());
    assert_eq!(app.status_line(), "Joining Room | Link: r");
}
