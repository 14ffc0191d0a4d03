use resonance::net::{IpAddress, SocketAddress};
use resonance::room_core::RoomId;
use resonance::room_link::{fallback_address, join_link, parse_join_link};
use resonance::p2p::ConnectionState;
use resonance::secure_channel::{
    check_packet_size, open_packet, seal_packet, Handshake, Keypair, SecureChannel,
};

#[test]
fn test_keypair_generation() {
    let keypair = Keypair::generate();
    let public_bytes = keypair.public_bytes();

    assert_eq!(public_bytes.len(), 32);

    assert_ne!(public_bytes, [0u8; 32]);
}

#[test]
fn test_diffie_hellman() {
    let keypair1 = Keypair::generate();
    let keypair2 = Keypair::generate();

    let shared1 = keypair1.dh(&keypair2.public_bytes());
    let shared2 = keypair2.dh(&keypair1.public_bytes());

    assert_eq!(shared1, shared2);

    assert_ne!(shared1, [0u8; 32]);
}

#[test]
fn packets_roundtrip() {
    let k1 = Keypair::generate();
    let k2 = Keypair::generate();
    let key = k1.dh(&k2.public_bytes());
    let packet = seal_packet(&key, b"hello there").unwrap();
    assert_eq!(packet.len(), 24 + 11 + 16);
    assert!(check_packet_size(&packet).is_ok());
    assert_eq!(open_packet(&key, &packet).unwrap(), b"hello there");
    assert_ne!(&packet[24..35], b"hello there");
}

#[test]
fn packet_errors() {
    let key = [5u8; 32];
    assert_eq!(check_packet_size(&[0u8; 39]).unwrap_err(), "Packet too small");
    assert_eq!(open_packet(&key, &[0u8; 10]).unwrap_err(), "Received packet too small");
    let mut p = seal_packet(&key, b"x").unwrap();
    p[30] ^= 1;
    assert_eq!(open_packet(&key, &p).unwrap_err(), "Decryption error: aead::Error");
    assert!(open_packet(&[6u8; 32], &seal_packet(&key, b"x").unwrap()).is_err());
}

#[test]
fn join_link_roundtrip() {
    let room = RoomId::from(0x0123_4567_89ab_cdef_0011_2233_4455_6677);
    let addr = SocketAddress { ip: IpAddress::V4(203, 0, 113, 9), port: 12345 };
    let link = join_link(&room, &addr);
    assert_eq!(link, "room:01234567-89ab-cdef-0011-223344556677@203.0.113.9:12345");
    let (r, a) = parse_join_link(&link).unwrap();
    assert_eq!(r, room);
    assert_eq!(a, "203.0.113.9:12345");
}

#[test]
fn join_link_errors() {
    assert_eq!(
        parse_join_link("x").unwrap_err(),
        "Invalid link format, must start with 'room:'"
    );
    assert_eq!(
        parse_join_link("room:abc").unwrap_err(),
        "Invalid link format, missing '@' separator"
    );
    assert_eq!(
        parse_join_link("room:a@b@c").unwrap_err(),
        "Invalid link format, missing '@' separator"
    );
    assert_eq!(parse_join_link("room:zz@1.2.3.4:5").unwrap_err(), "Invalid room ID: zz");
}

#[test]
fn fallback_is_localhost() {
    assert_eq!(
        fallback_address(),
        SocketAddress { ip: IpAddress::V4(127, 0, 0, 1), port: 12345 }
    );
}

#[test]
fn ipv6_join_link() {
    let room = RoomId::from(1);
    let addr = SocketAddress { ip: IpAddress::V6(0, 0, 0, 0, 0, 0, 0, 1), port: 80 };
    let link = join_link(&room, &addr);
    assert_eq!(link, "room:00000000-0000-0000-0000-000000000001@[::1]:80");
    let (r, a) = parse_join_link(&link).unwrap();
    assert_eq!(r, room);
    assert_eq!(a, "[::1]:80");
}

fn at(last: u8, port: u16) -> SocketAddress {
    SocketAddress { ip: IpAddress::V4(198, 51, 100, last), port }
}

#[test]
fn secure_channel_handshake_and_messages() {
    let mut a = SecureChannel::new(at(2, 2000));
    let mut b = SecureChannel::new(at(1, 1000));
    assert_eq!(a.state(), ConnectionState::Disconnected);
    assert_eq!(a.seal(b"x").unwrap_err(), "Secure channel not established");

    let hello = a.begin_key_exchange(Some(b.public_key()));
    assert_eq!(a.state(), ConnectionState::Connected);
    assert_eq!(hello.public_key, a.public_key());
    assert_eq!(&hello.session_id, a.session_id());

    let mut b_waiting = SecureChannel::new(at(1, 1000));
    let b_hello = b_waiting.begin_key_exchange(None);
    assert_eq!(b_waiting.state(), ConnectionState::Connecting);
    assert_eq!(b_hello.public_key, b_waiting.public_key());

    assert_eq!(
        b.finish_key_exchange(at(9, 9), Some(hello.clone())).unwrap_err(),
        "Received handshake from unexpected address"
    );
    assert_eq!(
        b.finish_key_exchange(at(1, 1000), None).unwrap_err(),
        "Unexpected message during handshake"
    );
    assert!(b.finish_key_exchange(at(1, 1000), Some(hello)).is_ok());
    assert_eq!(b.state(), ConnectionState::Connected);
    assert_eq!(b.session_id(), a.session_id());

    let packet = a.seal(b"ping").unwrap();
    assert!(b.check_incoming(at(1, 1000), &packet).is_ok());
    assert_eq!(b.open_incoming(&packet).unwrap(), b"ping");
    assert_eq!(
        b.check_incoming(at(3, 1000), &packet).unwrap_err(),
        "Received packet from unexpected address"
    );
    assert_eq!(b.check_incoming(at(1, 1000), &packet[..39]).unwrap_err(), "Packet too small");
}

#[test]
fn clear_messages_before_the_handshake() {
    let c = SecureChannel::new(at(1, 1));
    assert_eq!(c.open_incoming(b"raw bytes").unwrap(), b"raw bytes");
    let h = Handshake { public_key: [1u8; 32], session_id: "s".to_string() };
    assert_eq!(h.session_id, "s");
    assert_eq!(c.session_id().len(), 36);
}
