use resonance::connection_manager::{
    after_heartbeat, after_send_failure, heartbeat_due, send_plan, should_reconnect,
    should_send_heartbeat, SendPlan, MAX_SEND_RETRIES,
};
use resonance::p2p::ConnectionState;

#[test]
fn heartbeat_timing() {
    assert!(!heartbeat_due(5000, 0));
    assert!(heartbeat_due(5001, 0));
    assert!(!heartbeat_due(10, 20));
    assert!(should_send_heartbeat(ConnectionState::Connected, true));
    assert!(!should_send_heartbeat(ConnectionState::Connected, false));
    assert!(!should_send_heartbeat(ConnectionState::Connecting, true));
    assert_eq!(after_heartbeat(ConnectionState::Connected, false), ConnectionState::Connecting);
    assert_eq!(after_heartbeat(ConnectionState::Connected, true), ConnectionState::Connected);
    assert!(should_reconnect(ConnectionState::Connecting));
    assert!(!should_reconnect(ConnectionState::Disconnected));
}

#[test]
fn sending_retries() {
    assert_eq!(send_plan(ConnectionState::Connected, true), SendPlan::Send);
    assert_eq!(send_plan(ConnectionState::Connected, false), SendPlan::MarkAndWait);
    assert_eq!(send_plan(ConnectionState::Disconnected, true), SendPlan::Wait);
    let mut retries = 0;
    let mut attempts = 0;
    loop {
        attempts += 1;
        let (n, give_up) = after_send_failure(retries);
        retries = n;
        if give_up {
            break;
        }
    }
    assert_eq!(attempts, MAX_SEND_RETRIES);
}
