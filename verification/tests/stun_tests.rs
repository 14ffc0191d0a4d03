use resonance::net::{IpAddress, SocketAddress};
use resonance::room_core::Error;
use resonance::stun_client::{
    binding_request, binding_response_readable, new_binding_request, parse_binding_response,
    StunClient, StunServer,
};

#[test]
fn test_stun_server_parsing() {
    let server = StunServer::from_str("stun:stun.l.google.com:19302").unwrap();
    assert_eq!(server.url, "stun.l.google.com:19302");

    let result = StunServer::from_str("invalid:example.com");
    assert!(result.is_err());
}

#[test]
fn invalid_server_message() {
    match StunServer::from_str("invalid:example.com") {
        Err(Error::Network(m)) => assert_eq!(m, "Invalid STUN server URL: invalid:example.com"),
        _ => panic!("Expected a network error"),
    }
    // every leading scheme is removed
    assert_eq!(StunServer::from_str("stun:stun:x:1").unwrap().url, "x:1");
}

#[test]
fn client_keeps_valid_servers_in_order() {
    let c = StunClient::new(vec![
        "bad".to_string(),
        "stun:a:1".to_string(),
        "stun:b:2".to_string(),
    ]);
    let urls: Vec<String> = c.servers().iter().map(|s| s.url.clone()).collect();
    assert_eq!(urls, vec!["a:1".to_string(), "b:2".to_string()]);
}

#[test]
fn client_falls_back_to_defaults() {
    let c = StunClient::new(vec!["bad".to_string()]);
    let urls: Vec<String> = c.servers().iter().map(|s| s.url.clone()).collect();
    assert_eq!(
        urls,
        vec!["stun.l.google.com:19302".to_string(), "stun1.l.google.com:19302".to_string()]
    );
}

#[test]
fn binding_request_layout() {
    let id = [9u8; 12];
    let r = binding_request(&id);
    assert_eq!(&r[..8], &[0x00, 0x01, 0x00, 0x00, 0x21, 0x12, 0xA4, 0x42]);
    assert_eq!(&r[8..], &id);
    let fresh = new_binding_request();
    assert_eq!(fresh.len(), 20);
    assert_eq!(&fresh[..8], &[0x00, 0x01, 0x00, 0x00, 0x21, 0x12, 0xA4, 0x42]);
}

#[test]
fn binding_response_with_padding_attribute_first() {
    let mut r = vec![0x01, 0x01, 0x00, 0x14, 0x21, 0x12, 0xA4, 0x42];
    r.extend_from_slice(&[5u8; 12]);
    // an unknown attribute of 3 bytes, padded to 4
    r.extend_from_slice(&[0x80, 0x22, 0x00, 0x03, 1, 2, 3, 0]);
    // XOR-MAPPED-ADDRESS for 192.0.2.33:4000
    let port = 4000u16 ^ 0x2112;
    r.extend_from_slice(&[0x00, 0x20, 0x00, 0x08, 0x00, 0x01]);
    r.extend_from_slice(&port.to_be_bytes());
    r.extend_from_slice(&[192 ^ 0x21, 0 ^ 0x12, 2 ^ 0xA4, 33 ^ 0x42]);
    assert!(binding_response_readable(&r));
    assert_eq!(
        parse_binding_response(&r).unwrap(),
        SocketAddress { ip: IpAddress::V4(192, 0, 2, 33), port: 4000 }
    );
}

#[test]
fn binding_response_without_address() {
    let r = vec![0x01, 0x01, 0, 0, 0x21, 0x12, 0xA4, 0x42, 0, 0, 0, 0, 0, 0, 0, 0, 0, 0, 0, 0];
    assert!(binding_response_readable(&r));
    match parse_binding_response(&r) {
        Err(Error::Network(m)) => assert_eq!(m, "Failed to parse STUN response"),
        _ => panic!("Expected a network error"),
    }
}

#[test]
fn truncated_binding_response_is_not_readable() {
    let mut r = vec![0x01, 0x01, 0x00, 0x08, 0x21, 0x12, 0xA4, 0x42];
    r.extend_from_slice(&[5u8; 12]);
    r.extend_from_slice(&[0x00, 0x20, 0x00, 0x08, 0x00, 0x01, 0x00, 0x00]);
    assert!(!binding_response_readable(&r));
}
