use resonance::p2p::NetworkError;
use resonance::net::IpAddress;
use resonance::p2p::{
    create_stun_binding_request, discovery_server_list, generate_connection_link, is_blocked_ip,
    parse_connection_link, parse_connection_link_checked, link_address, parse_stun_response, stun_response_is_readable, Endpoint, IntErrorKind,
    LinkError,
};

fn v4(a: u8, b: u8, c: u8, d: u8) -> IpAddress {
    IpAddress::V4(a, b, c, d)
}

#[test]
fn test_connection_link_format() {
    let endpoint = Endpoint { ip: v4(192, 0, 2, 1), port: 12345 };

    let session_id = "test-session-123";
    let public_key = [0u8; 32];

    let link = generate_connection_link(&endpoint, session_id, &public_key);

    assert!(link.starts_with("resonance://join?"));
    assert!(link.contains(&format!("ip={}", "192.0.2.1")));
    assert!(link.contains(&format!("port={}", endpoint.port)));
    assert!(link.contains(&format!("sid={}", session_id)));
    assert!(link.contains("key="));
}

#[test]
fn test_parse_connection_link() {
    let original_ip = v4(192, 0, 2, 1);
    let original_port = 12345;
    let original_session_id = "test-session-123".to_string();
    let original_key = [42u8; 32];

    let endpoint = Endpoint { ip: original_ip, port: original_port };

    let link = generate_connection_link(&endpoint, &original_session_id, &original_key);

    let parsed = parse_connection_link(&link).unwrap();

    assert_eq!(parsed.ip, "192.0.2.1");
    assert_eq!(parsed.port, original_port);
    assert_eq!(parsed.session_id, original_session_id);
    assert_eq!(parsed.public_key, original_key);
}

#[test]
fn test_blocked_ip_detection() {
    assert!(is_blocked_ip(&v4(192, 168, 1, 1)));
    assert!(is_blocked_ip(&v4(10, 0, 0, 1)));
    assert!(is_blocked_ip(&v4(172, 16, 0, 1)));

    assert!(is_blocked_ip(&v4(127, 0, 0, 1)));

    assert!(!is_blocked_ip(&v4(8, 8, 8, 8)));
    assert!(!is_blocked_ip(&v4(8, 8, 4, 4)));
}

#[test]
fn test_stun_binding_request_format() {
    let request = create_stun_binding_request();

    assert_eq!(request[0], 0x00);
    assert_eq!(request[1], 0x01);
    assert_eq!(request[2], 0x00);
    assert_eq!(request[3], 0x00);
    assert_eq!(request[4], 0x21);
    assert_eq!(request[5], 0x12);
    assert_eq!(request[6], 0xA4);
    assert_eq!(request[7], 0x42);

    assert_eq!(request.len(), 20);
}

#[test]
fn blocked_ranges_edges() {
    assert!(is_blocked_ip(&v4(169, 254, 3, 4)));
    assert!(is_blocked_ip(&v4(255, 255, 255, 255)));
    assert!(is_blocked_ip(&v4(198, 51, 100, 7)));
    assert!(is_blocked_ip(&v4(203, 0, 113, 7)));
    assert!(is_blocked_ip(&v4(0, 0, 0, 0)));
    assert!(!is_blocked_ip(&v4(172, 32, 0, 1)));
    assert!(!is_blocked_ip(&v4(172, 15, 0, 1)));
    assert!(is_blocked_ip(&IpAddress::V6(0, 0, 0, 0, 0, 0, 0, 1)));
    assert!(is_blocked_ip(&IpAddress::V6(0, 0, 0, 0, 0, 0, 0, 0)));
    assert!(!is_blocked_ip(&IpAddress::V6(0x2001, 0xdb8, 0, 0, 0, 0, 0, 1)));
}

#[test]
fn link_errors_in_order() {
    assert_eq!(parse_connection_link("http://x").unwrap_err(), LinkError::InvalidFormat);
    assert_eq!(
        parse_connection_link("resonance://join?port=1").unwrap_err(),
        LinkError::MissingIp
    );
    assert_eq!(
        parse_connection_link("resonance://join?ip=1.2.3.4").unwrap_err(),
        LinkError::MissingPort
    );
    assert_eq!(
        parse_connection_link("resonance://join?ip=1.2.3.4&port=70000").unwrap_err(),
        LinkError::InvalidPort(IntErrorKind::PosOverflow)
    );
    assert_eq!(
        parse_connection_link("resonance://join?ip=1.2.3.4&port=x").unwrap_err(),
        LinkError::InvalidPort(IntErrorKind::InvalidDigit)
    );
    assert_eq!(
        parse_connection_link("resonance://join?ip=1.2.3.4&port=").unwrap_err(),
        LinkError::InvalidPort(IntErrorKind::Empty)
    );
    assert_eq!(
        parse_connection_link("resonance://join?ip=1.2.3.4&port=5").unwrap_err(),
        LinkError::MissingSessionId
    );
    assert_eq!(
        parse_connection_link("resonance://join?ip=1.2.3.4&port=5&sid=s").unwrap_err(),
        LinkError::MissingKey
    );
    assert!(matches!(
        parse_connection_link("resonance://join?ip=1.2.3.4&port=5&sid=s&key=!!").unwrap_err(),
        LinkError::InvalidKey(_)
    ));
    assert_eq!(
        parse_connection_link("resonance://join?ip=1.2.3.4&port=5&sid=s&key=AAAA").unwrap_err(),
        LinkError::InvalidKeyLength
    );
    assert_eq!(LinkError::MissingIp.to_display_string(), "Missing IP address");
    assert_eq!(
        LinkError::InvalidPort(IntErrorKind::InvalidDigit).to_display_string(),
        "invalid digit found in string"
    );
}

#[test]
fn link_with_ipv6_and_plus_sign() {
    let ep = Endpoint { ip: IpAddress::V6(0x2001, 0xdb8, 0, 0, 0, 0, 0, 1), port: 7 };
    let link = generate_connection_link(&ep, "s", &[0xffu8; 32]);
    assert_eq!(
        link,
        "resonance://join?ip=2001:db8::1&port=7&sid=s&key=//////////////////////////////////////////8="
    );
    let parsed = parse_connection_link(&link).unwrap();
    assert_eq!(parsed.ip, "2001:db8::1");
    assert_eq!(parsed.public_key, [0xffu8; 32]);
}

fn response_v4(id: [u8; 12], ip: [u8; 4], port: u16) -> Vec<u8> {
    let mut r = vec![0x01, 0x01, 0x00, 0x0c, 0x21, 0x12, 0xA4, 0x42];
    r.extend_from_slice(&id);
    r.extend_from_slice(&[0x00, 0x20, 0x00, 0x08, 0x00, 0x01]);
    let p = port ^ 0x2112;
    r.extend_from_slice(&p.to_be_bytes());
    r.push(ip[0] ^ 0x21);
    r.push(ip[1] ^ 0x12);
    r.push(ip[2] ^ 0xA4);
    r.push(ip[3] ^ 0x42);
    r
}

#[test]
fn stun_response_ipv4() {
    let r = response_v4([7u8; 12], [203, 0, 113, 5], 54321);
    assert!(stun_response_is_readable(&r));
    assert_eq!(parse_stun_response(&r), Some((v4(203, 0, 113, 5), 54321)));
}

#[test]
fn stun_response_not_binding() {
    let mut r = response_v4([7u8; 12], [1, 2, 3, 4], 1);
    r[1] = 0x11;
    assert!(stun_response_is_readable(&r));
    assert_eq!(parse_stun_response(&r), None);
    assert_eq!(parse_stun_response(&r[..10]), None);
}

#[test]
fn discovery_servers_in_order() {
    assert_eq!(
        discovery_server_list(),
        vec![
            "stun1.l.google.com:19302".to_string(),
            "stun2.l.google.com:19302".to_string(),
            "stun.stunprotocol.org:3478".to_string()
        ]
    );
}

#[test]
fn network_errors_display_their_kind_and_message() {
    let m = "timeout".to_string();
    assert_eq!(NetworkError::ConnectionFailed(m.clone()).to_display_string(), "Connection failed: timeout");
    assert_eq!(
        NetworkError::InvalidParameters(m.clone()).to_display_string(),
        "Invalid connection parameters: timeout"
    );
    assert_eq!(NetworkError::SecurityError(m.clone()).to_display_string(), "Security error: timeout");
    assert_eq!(NetworkError::ConnectionLost(m).to_display_string(), "Connection lost: timeout");
}

#[test]
fn an_unreadable_address_is_refused_before_the_port() {
        let bad = "resonance://join?ip=999.1.1.1";
    assert_eq!(link_address(bad), Some("999.1.1.1".to_string()));
    assert_eq!(parse_connection_link_checked(bad, None).unwrap_err(), LinkError::InvalidIp);
    assert_eq!(LinkError::InvalidIp.to_display_string(), "invalid IP address syntax");
    assert_eq!(parse_connection_link(bad).unwrap_err(), LinkError::MissingPort);
    assert_eq!(link_address("http://x"), None);
    assert_eq!(parse_connection_link_checked("http://x", None).unwrap_err(), LinkError::InvalidFormat);
    assert_eq!(
        parse_connection_link_checked("resonance://join?port=1", None).unwrap_err(),
        LinkError::MissingIp
    );
    let link = generate_connection_link(
        &Endpoint { ip: IpAddress::V4(10, 0, 0, 7), port: 9 },
        "sid",
        &[5u8; 32],
    );
    let parsed = parse_connection_link_checked(&link, Some(IpAddress::V4(10, 0, 0, 7))).unwrap();
    assert_eq!(parsed.ip, "10.0.0.7");
    assert_eq!(parsed.port, 9);
    assert_eq!(parsed.session_id, "sid");
    assert_eq!(parsed.public_key, [5u8; 32]);
}
