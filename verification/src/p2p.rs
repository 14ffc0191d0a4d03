//! Peer-to-peer helpers: STUN discovery of the public endpoint, connection links that carry
//! an endpoint, a session and a public key, and the addresses a peer refuses.
//! Sockets and timeouts belong to the caller.

use vstd::prelude::*;
use base64::Engine;
use rand::RngCore;
use crate::net::{ip_text, push_ip, IpAddress};
use crate::stun_client::{attribute_offset, be16, binding_request_bytes, is_xor_mapped_at, lemma_be16_bytes, lemma_next_attribute, magic_cookie, next_attribute, padding};
use crate::text::{chars_eq, chars_of, decimal, find, find_char, lemma_find_char, is_prefix, push_char, push_chars, push_decimal, push_str, slice_chars, starts_with, string_from, string_of};

verus! {

/// Networking errors.
#[derive(Debug, Clone, PartialEq, Eq)]
pub enum NetworkError {
    ConnectionFailed(String),
    InvalidParameters(String),
    SecurityError(String),
    ConnectionLost(String),
}

/// The text a networking error displays as.
pub open spec fn network_error_text(e: NetworkError) -> Seq<char> {
    match e {
        NetworkError::ConnectionFailed(m) => "Connection failed: "@ + m@,
        NetworkError::InvalidParameters(m) => "Invalid connection parameters: "@ + m@,
        NetworkError::SecurityError(m) => "Security error: "@ + m@,
        NetworkError::ConnectionLost(m) => "Connection lost: "@ + m@,
    }
}

impl NetworkError {
    /// The text this error displays as.
    pub fn to_display_string(&self) -> (s: String)
        ensures
            s@ == network_error_text(*self),
    {
        let (mut s, m) = match self {
            NetworkError::ConnectionFailed(m) => (string_from("Connection failed: "), m),
            NetworkError::InvalidParameters(m) => (string_from("Invalid connection parameters: "), m),
            NetworkError::SecurityError(m) => (string_from("Security error: "), m),
            NetworkError::ConnectionLost(m) => (string_from("Connection lost: "), m),
        };
        push_str(&mut s, m.as_str());
        s
    }
}

/// A public endpoint.
#[derive(Debug, Clone, Copy, PartialEq, Eq, Structural)]
pub struct Endpoint {
    pub ip: IpAddress,
    pub port: u16,
}

/// Connection state of a peer-to-peer link.
#[derive(Debug, Clone, Copy, PartialEq, Eq, Structural)]
pub enum ConnectionState {
    Disconnected,
    Connecting,
    Connected,
}

/// A peer of a peer-to-peer session.
#[derive(Debug, Clone)]
pub struct PeerInfo {
    pub id: String,
    pub name: String,
    pub endpoint: Endpoint,
    pub public_key: [u8; 32],
    /// When the peer was last seen, in milliseconds of the caller's monotonic clock.
    pub last_seen: u64,
}

/// The STUN servers asked, in order, for the public endpoint.
pub open spec fn discovery_servers() -> Seq<Seq<char>> {
    seq!["stun1.l.google.com:19302"@, "stun2.l.google.com:19302"@, "stun.stunprotocol.org:3478"@]
}

/// The STUN servers asked, in order, for the public endpoint.
pub fn discovery_server_list() -> (v: Vec<String>)
    ensures
        v@.map_values(|s: String| s@) == discovery_servers(),
{
    let mut v: Vec<String> = Vec::new();
    v.push(string_from("stun1.l.google.com:19302"));
    v.push(string_from("stun2.l.google.com:19302"));
    v.push(string_from("stun.stunprotocol.org:3478"));
    assert(v@.map_values(|s: String| s@) =~= discovery_servers());
    v
}

/// Twelve random bytes (`rand::thread_rng().fill_bytes`). They are random: nothing is
/// stated of them.
#[verifier::external_body]
fn random_bytes_12() -> (b: [u8; 12]) {
    let mut b = [0u8; 12];
    rand::thread_rng().fill_bytes(&mut b);
    b
}

/// A STUN binding request with a fresh random transaction identifier.
pub fn create_stun_binding_request() -> (v: Vec<u8>)
    ensures
        v@.len() == 20,
        v@.take(8) == binding_request_bytes(Seq::empty()),
        v@ == binding_request_bytes(v@.skip(8)),
{
    let id = random_bytes_12();
    let v = crate::stun_client::binding_request(&id);
    assert(v@.take(8) =~= binding_request_bytes(Seq::empty()));
    assert(v@.skip(8) =~= id@);
    v
}

/// The address of an XOR-MAPPED-ADDRESS value at offset `v` of `d`: IPv4 when the family
/// byte is 1; IPv6 when it is 2 and the value holds sixteen address bytes; the port and the
/// address are unmasked with the magic cookie and, past its four bytes, with the
/// transaction identifier.
pub open spec fn mapped_value(d: Seq<u8>, v: int) -> Option<(IpAddress, u16)> {
    let port = be16(d[v + 2], d[v + 3]) ^ 0x2112u16;
    if d[v + 1] == 0x01 {
        Some(
            (
                IpAddress::V4(
                    d[v + 4] ^ 0x21u8,
                    d[v + 5] ^ 0x12u8,
                    d[v + 6] ^ 0xA4u8,
                    d[v + 7] ^ 0x42u8,
                ),
                port,
            ),
        )
    } else if d[v + 1] == 0x02 && v + 20 <= d.len() {
        Some((IpAddress::V6(
            be16(d[v + 4] ^ 0x21u8, d[v + 5] ^ 0x12u8),
            be16(d[v + 6] ^ 0xA4u8, d[v + 7] ^ 0x42u8),
            be16(d[v + 8] ^ d[8], d[v + 9] ^ d[9]),
            be16(d[v + 10] ^ d[10], d[v + 11] ^ d[11]),
            be16(d[v + 12] ^ d[12], d[v + 13] ^ d[13]),
            be16(d[v + 14] ^ d[14], d[v + 15] ^ d[15]),
            be16(d[v + 16] ^ d[16], d[v + 17] ^ d[17]),
            be16(d[v + 18] ^ d[18], d[v + 19] ^ d[19]),
        ), port))
    } else {
        None
    }
}

/// The mapped address found scanning the attributes of `d` from offset `pos`: the first
/// XOR-MAPPED-ADDRESS attribute that fits in `d` and holds an address.
pub open spec fn stun_mapped_from(d: Seq<u8>, pos: int) -> Option<(IpAddress, u16)>
    decreases (if pos <= d.len() { d.len() - pos } else { 0 }),
{
    if pos < 0 || pos + 4 > d.len() {
        None
    } else {
        let t = be16(d[pos], d[pos + 1]);
        let l = be16(d[pos + 2], d[pos + 3]) as int;
        let v = pos + 4;
        proof {
            lemma_next_attribute(pos, l);
        }
        if t == 0x0020u16 && v + l <= d.len() && mapped_value(d, v) is Some {
            mapped_value(d, v)
        } else {
            stun_mapped_from(d, next_attribute(pos, l))
        }
    }
}

proof fn lemma_stun_mapped_is_xor_mapped(d: Seq<u8>, pos: int)
    requires
        stun_mapped_from(d, pos) is Some,
    ensures
        exists|n: nat|
            #![trigger attribute_offset(d, pos, n)]
            {
                let p = attribute_offset(d, pos, n);
                &&& is_xor_mapped_at(d, p)
                &&& p + 4 + (d[p + 2] as int * 256 + d[p + 3] as int) <= d.len()
                &&& stun_mapped_from(d, pos) == mapped_value(d, p + 4)
            },
    decreases d.len() - pos,
{
    let l = be16(d[pos + 2], d[pos + 3]) as int;
    lemma_be16_bytes(d[pos], d[pos + 1]);
    lemma_be16_bytes(d[pos + 2], d[pos + 3]);
    lemma_next_attribute(pos, l);
    if be16(d[pos], d[pos + 1]) == 0x0020u16 && pos + 4 + l <= d.len() && mapped_value(d, pos + 4) is Some {
        assert(attribute_offset(d, pos, 0) == pos);
    } else {
        let next = next_attribute(pos, l);
        lemma_stun_mapped_is_xor_mapped(d, next);
        let n = choose|n: nat|
            #![trigger attribute_offset(d, next, n)]
            {
                let p = attribute_offset(d, next, n);
                &&& is_xor_mapped_at(d, p)
                &&& p + 4 + (d[p + 2] as int * 256 + d[p + 3] as int) <= d.len()
                &&& stun_mapped_from(d, next) == mapped_value(d, p + 4)
            };
        assert(attribute_offset(d, pos, n + 1) == attribute_offset(d, next, n));
    }
}

/// The endpoint of a STUN response comes from an XOR-MAPPED-ADDRESS attribute: when a
/// response reports an endpoint, some attribute met walking its attributes from the first
/// has type 0x0020, lies within the response, and its value holds that endpoint. A response
/// with no attribute of type 0x0020 reports none, whatever its other attributes hold.
pub proof fn lemma_stun_endpoint_is_xor_mapped(d: Seq<u8>)
    ensures
        stun_response_endpoint(d) matches Some(x) ==> exists|n: nat|
            #![trigger attribute_offset(d, 20, n)]
            {
                let p = attribute_offset(d, 20, n);
                &&& is_xor_mapped_at(d, p)
                &&& p + 4 + (d[p + 2] as int * 256 + d[p + 3] as int) <= d.len()
                &&& mapped_value(d, p + 4) == Some(x)
            },
{
    if stun_response_endpoint(d) is Some {
        lemma_stun_mapped_is_xor_mapped(d, 20);
    }
}

/// Whether the attribute at offset `p` of `d` is an XOR-MAPPED-ADDRESS (type 0x0020) that
/// lies within `d` and whose value holds an address.
pub open spec fn xor_address_at(d: Seq<u8>, p: int) -> bool {
    &&& is_xor_mapped_at(d, p)
    &&& p + 4 + (d[p + 2] as int * 256 + d[p + 3] as int) <= d.len()
    &&& mapped_value(d, p + 4) is Some
}

proof fn lemma_stun_mapped_first(d: Seq<u8>, pos: int, n: nat)
    requires
        pos >= 0,
        xor_address_at(d, attribute_offset(d, pos, n)),
        forall|m: nat|
            m < n ==> attribute_offset(d, pos, m) + 4 <= d.len() && !xor_address_at(
                d,
                #[trigger] attribute_offset(d, pos, m),
            ),
    ensures
        stun_mapped_from(d, pos) == mapped_value(d, attribute_offset(d, pos, n) + 4),
    decreases n,
{
    lemma_be16_bytes(d[pos], d[pos + 1]);
    lemma_be16_bytes(d[pos + 2], d[pos + 3]);
    let l = be16(d[pos + 2], d[pos + 3]) as int;
    lemma_next_attribute(pos, l);
    if n > 0 {
        assert(attribute_offset(d, pos, 0) == pos);
        let next = next_attribute(pos, l);
        assert forall|m: nat|
            m < (n - 1) as nat implies attribute_offset(d, next, m) + 4 <= d.len() && !xor_address_at(
                d,
                #[trigger] attribute_offset(d, next, m),
            ) by {
            assert(attribute_offset(d, pos, m + 1) == attribute_offset(d, next, m));
        }
        assert(attribute_offset(d, pos, n) == attribute_offset(d, next, (n - 1) as nat));
        lemma_stun_mapped_first(d, next, (n - 1) as nat);
    }
}

/// A STUN success response reports the address of its first XOR-MAPPED-ADDRESS attribute
/// that lies within it and holds an address: when walking its attributes reaches such an
/// attribute, every attribute before it (of whatever type and content) being skipped, the
/// response's endpoint is that attribute's.
pub proof fn lemma_stun_endpoint_first_xor_mapped(d: Seq<u8>, n: nat)
    requires
        d.len() >= 20,
        d[0] == 0x01 && d[1] == 0x01,
        d.len() >= 20 + declared_length(d),
        xor_address_at(d, attribute_offset(d, 20, n)),
        forall|m: nat|
            m < n ==> attribute_offset(d, 20, m) + 4 <= d.len() && !xor_address_at(
                d,
                #[trigger] attribute_offset(d, 20, m),
            ),
    ensures
        stun_response_endpoint(d) == mapped_value(d, attribute_offset(d, 20, n) + 4),
        stun_response_endpoint(d) is Some,
{
    lemma_stun_mapped_first(d, 20, n);
}

/// Whether scanning the attributes of `d` from `pos` stays within `d`: an XOR-MAPPED-ADDRESS
/// attribute that fits must hold its family and port, and an IPv4 one its address.
pub open spec fn stun_readable_from(d: Seq<u8>, pos: int) -> bool
    decreases (if pos <= d.len() { d.len() - pos } else { 0 }),
{
    if pos < 0 || pos + 4 > d.len() {
        true
    } else {
        let t = be16(d[pos], d[pos + 1]);
        let l = be16(d[pos + 2], d[pos + 3]) as int;
        let v = pos + 4;
        proof {
            lemma_next_attribute(pos, l);
        }
        if t == 0x0020u16 && v + l <= d.len() {
            &&& v + 4 <= d.len()
            &&& (d[v + 1] == 0x01 ==> v + 8 <= d.len())
            &&& (mapped_value(d, v) is None ==> stun_readable_from(d, next_attribute(pos, l)))
        } else {
            stun_readable_from(d, next_attribute(pos, l))
        }
    }
}

/// The length a STUN header declares.
pub open spec fn declared_length(d: Seq<u8>) -> int {
    be16(d[2], d[3]) as int
}

/// The endpoint a STUN binding response reports: a success response whose declared length
/// fits, scanned from its first attribute.
pub open spec fn stun_response_endpoint(d: Seq<u8>) -> Option<(IpAddress, u16)> {
    if d.len() < 20 || d[0] != 0x01 || d[1] != 0x01 || d.len() < 20 + declared_length(d) {
        None
    } else {
        stun_mapped_from(d, 20)
    }
}

/// Whether a STUN response can be read without running past its end.
pub open spec fn stun_response_readable(d: Seq<u8>) -> bool {
    (d.len() >= 20 && d[0] == 0x01 && d[1] == 0x01 && d.len() >= 20 + declared_length(d))
        ==> stun_readable_from(d, 20)
}

fn be16_of(a: u8, b: u8) -> (r: u16)
    ensures
        r == be16(a, b),
        r as int == a as int * 256 + b as int,
{
    let r: u16 = ((a as u16) << 8u16) | (b as u16);
    assert(((a as u16) << 8u16) | (b as u16) == a as u16 * 256 + b as u16) by (bit_vector);
    r
}

fn step_of(l: u16) -> (step: usize)
    ensures
        step == next_attribute(0, l as int),
{
    let pad: usize = if l % 4 != 0 {
        4 - (l % 4) as usize
    } else {
        0
    };
    4 + l as usize + pad
}

fn read_mapped_value(d: &[u8], v: usize) -> (r: Option<(IpAddress, u16)>)
    requires
        20 <= v,
        v + 4 <= d.len(),
        d@[v + 1] == 0x01 ==> v + 8 <= d.len(),
    ensures
        r == mapped_value(d@, v as int),
{
    let port = be16_of(d[v + 2], d[v + 3]) ^ 0x2112;
    if d[v + 1] == 0x01 {
        Some((IpAddress::V4(d[v + 4] ^ 0x21, d[v + 5] ^ 0x12, d[v + 6] ^ 0xA4, d[v + 7] ^ 0x42), port))
    } else if d[v + 1] == 0x02 && d.len() >= 20 && d.len() - 20 >= v {
        Some((IpAddress::V6(
            be16_of(d[v + 4] ^ 0x21, d[v + 5] ^ 0x12),
            be16_of(d[v + 6] ^ 0xA4, d[v + 7] ^ 0x42),
            be16_of(d[v + 8] ^ d[8], d[v + 9] ^ d[9]),
            be16_of(d[v + 10] ^ d[10], d[v + 11] ^ d[11]),
            be16_of(d[v + 12] ^ d[12], d[v + 13] ^ d[13]),
            be16_of(d[v + 14] ^ d[14], d[v + 15] ^ d[15]),
            be16_of(d[v + 16] ^ d[16], d[v + 17] ^ d[17]),
            be16_of(d[v + 18] ^ d[18], d[v + 19] ^ d[19]),
        ), port))
    } else {
        None
    }
}

/// Whether `parse_stun_response` can read `data` without running past its end.
pub fn stun_response_is_readable(data: &[u8]) -> (b: bool)
    ensures
        b == stun_response_readable(data@),
{
    if data.len() < 20 || data[0] != 0x01 || data[1] != 0x01 {
        return true;
    }
    let length = be16_of(data[2], data[3]) as usize;
    if data.len() - 20 < length {
        return true;
    }
    let mut pos: usize = 20;
    loop
        invariant
            20 <= pos,
            data@.len() >= 20,
            stun_readable_from(data@, pos as int) == stun_readable_from(data@, 20),
            stun_response_readable(data@) == stun_readable_from(data@, 20),
        decreases data.len() - pos,
    {
        if pos > data.len() || data.len() - pos < 4 {
            return true;
        }
        let t = be16_of(data[pos], data[pos + 1]);
        let l = be16_of(data[pos + 2], data[pos + 3]);
        let v = pos + 4;
        let step = step_of(l);
        assert(next_attribute(pos as int, l as int) == pos + step);
        if t == 0x0020 && l as usize <= data.len() - v {
            if data.len() - v < 4 {
                return false;
            }
            if data[v + 1] == 0x01 && data.len() - v < 8 {
                return false;
            }
            if read_mapped_value(data, v).is_some() {
                return true;
            }
        }
        if step > data.len() - pos {
            assert(stun_readable_from(data@, pos + step));
            return true;
        }
        pos = pos + step;
    }
}

/// The public endpoint a STUN binding response reports, if any.
pub fn parse_stun_response(data: &[u8]) -> (r: Option<(IpAddress, u16)>)
    requires
        stun_response_readable(data@),
    ensures
        r == stun_response_endpoint(data@),
{
    if data.len() < 20 {
        return None;
    }
    if data[0] != 0x01 || data[1] != 0x01 {
        return None;
    }
    let length = be16_of(data[2], data[3]) as usize;
    if data.len() - 20 < length {
        return None;
    }
    let mut pos: usize = 20;
    loop
        invariant
            20 <= pos,
            data@.len() >= 20,
            stun_readable_from(data@, pos as int),
            stun_mapped_from(data@, pos as int) == stun_mapped_from(data@, 20),
            stun_response_endpoint(data@) == stun_mapped_from(data@, 20),
        decreases data.len() - pos,
    {
        if pos > data.len() || data.len() - pos < 4 {
            return None;
        }
        let t = be16_of(data[pos], data[pos + 1]);
        let l = be16_of(data[pos + 2], data[pos + 3]);
        let v = pos + 4;
        let step = step_of(l);
        assert(next_attribute(pos as int, l as int) == pos + step);
        if t == 0x0020 && l as usize <= data.len() - v {
            let found = read_mapped_value(data, v);
            if found.is_some() {
                return found;
            }
        }
        if step > data.len() - pos {
            assert(stun_mapped_from(data@, pos + step) is None);
            return None;
        }
        pos = pos + step;
    }
}

/// Whether an IPv4 address is private, loopback, link-local, broadcast, documentation or
/// unspecified.
pub open spec fn ipv4_blocked(a: u8, b: u8, c: u8, d: u8) -> bool {
    ||| a == 10
    ||| (a == 172 && 16 <= b < 32)
    ||| (a == 192 && b == 168)
    ||| a == 127
    ||| (a == 169 && b == 254)
    ||| (a == 255 && b == 255 && c == 255 && d == 255)
    ||| (a == 192 && b == 0 && c == 2)
    ||| (a == 198 && b == 51 && c == 100)
    ||| (a == 203 && b == 0 && c == 113)
    ||| (a == 0 && b == 0 && c == 0 && d == 0)
}

/// Whether an address is refused: the IPv4 ranges of [`ipv4_blocked`], or the IPv6 loopback
/// and unspecified addresses.
pub open spec fn blocked(ip: IpAddress) -> bool {
    match ip {
        IpAddress::V4(a, b, c, d) => ipv4_blocked(a, b, c, d),
        IpAddress::V6(a, b, c, d, e, f, g, h) => a == 0 && b == 0 && c == 0 && d == 0 && e == 0
            && f == 0 && g == 0 && (h == 0 || h == 1),
    }
}

/// The 32-bit number of an IPv4 address, most significant octet first.
pub open spec fn ipv4_number(a: u8, b: u8, c: u8, d: u8) -> int {
    a as int * 0x1000000 + b as int * 0x10000 + c as int * 0x100 + d as int
}

/// Whether the IPv4 address numbered `n` lies in the block of `prefix` leading bits that
/// starts at `base` (an aligned block: `base` to `base + 2^(32 - prefix) - 1`).
pub open spec fn in_block(n: int, base: int, prefix: nat) -> bool {
    base <= n < base + vstd::arithmetic::power2::pow2((32 - prefix) as nat)
}

/// The IPv4 addresses std calls private (`Ipv4Addr::is_private`): 10.0.0.0/8,
/// 172.16.0.0/12 and 192.168.0.0/16.
pub open spec fn std_private(n: int) -> bool {
    in_block(n, 0x0A000000, 8) || in_block(n, 0xAC100000, 12) || in_block(n, 0xC0A80000, 16)
}

/// The IPv4 addresses std refuses as loopback (127.0.0.0/8), link-local (169.254.0.0/16),
/// broadcast (255.255.255.255), documentation (192.0.2.0/24, 198.51.100.0/24,
/// 203.0.113.0/24) or unspecified (0.0.0.0), besides the private ones.
pub open spec fn std_reserved(n: int) -> bool {
    ||| in_block(n, 0x7F000000, 8)
    ||| in_block(n, 0xA9FE0000, 16)
    ||| n == 0xFFFFFFFF
    ||| in_block(n, 0xC0000200, 24)
    ||| in_block(n, 0xC6336400, 24)
    ||| in_block(n, 0xCB007100, 24)
    ||| n == 0
}

/// An IPv4 address is refused exactly when std calls it private, loopback, link-local,
/// broadcast, documentation or unspecified; an IPv6 address exactly when it is `::1` or `::`.
pub proof fn lemma_blocked_is_std_classes(ip: IpAddress)
    ensures
        match ip {
            IpAddress::V4(a, b, c, d) => blocked(ip) == (std_private(ipv4_number(a, b, c, d))
                || std_reserved(ipv4_number(a, b, c, d))),
            IpAddress::V6(a, b, c, d, e, f, g, h) => blocked(ip) == (a as int + b + c + d + e
                + f + g <= 0 && h <= 1),
        },
{
    vstd::arithmetic::power2::lemma2_to64();
    assert(vstd::arithmetic::power2::pow2(24) == 0x1000000);
    assert(vstd::arithmetic::power2::pow2(20) == 0x100000);
    assert(vstd::arithmetic::power2::pow2(16) == 0x10000);
    assert(vstd::arithmetic::power2::pow2(8) == 0x100);
}

/// Every address of 10.0.0.0/8 is refused.
pub proof fn lemma_ten_slash_eight_blocked(b: u8, c: u8, d: u8)
    ensures
        blocked(IpAddress::V4(10, b, c, d)),
{
    lemma_blocked_is_std_classes(IpAddress::V4(10, b, c, d));
    vstd::arithmetic::power2::lemma2_to64();
}

/// Whether an address should be refused.
pub fn is_blocked_ip(ip: &IpAddress) -> (b: bool)
    ensures
        b == blocked(*ip),
{
    match *ip {
        IpAddress::V4(a, b, c, d) => {
            a == 10 || (a == 172 && 16 <= b && b < 32) || (a == 192 && b == 168) || a == 127 || (
            a == 169 && b == 254) || (a == 255 && b == 255 && c == 255 && d == 255) || (a == 192
                && b == 0 && c == 2) || (a == 198 && b == 51 && c == 100) || (a == 203 && b == 0
                && c == 113) || (a == 0 && b == 0 && c == 0 && d == 0)
        },
        IpAddress::V6(a, b, c, d, e, f, g, h) => {
            a == 0 && b == 0 && c == 0 && d == 0 && e == 0 && f == 0 && g == 0 && (h == 0 || h
                == 1)
        },
    }
}

/// Standard base64 text (padded) of `bytes`.
pub uninterp spec fn base64_text(bytes: Seq<u8>) -> Seq<char>;

/// Standard base64 decoding (canonical padding required) of `text`: the bytes, or the text
/// of the decoding error.
pub uninterp spec fn base64_decoded(text: Seq<char>) -> Result<Seq<u8>, Seq<char>>;

/// A character of the standard base64 alphabet, or the padding `=`.
pub open spec fn is_base64_char(c: char) -> bool {
    ('A' <= c && c <= 'Z') || ('a' <= c && c <= 'z') || ('0' <= c && c <= '9') || c == '+' || c
        == '/' || c == '='
}

/// Whether `text` decodes to `bytes`.
pub open spec fn decodes_to(text: Seq<char>, bytes: Seq<u8>) -> bool {
    base64_decoded(text) == Ok::<Seq<u8>, Seq<char>>(bytes)
}

/// Whether every character of `s` is a base64 character.
pub open spec fn base64_chars(s: Seq<char>) -> bool {
    forall|i: int| 0 <= i < s.len() ==> is_base64_char(#[trigger] s[i])
}

/// `base64::engine::general_purpose::STANDARD.encode` (what `base64::encode` calls): the
/// padded standard base64 text of `bytes`. Its characters are those of the standard
/// alphabet and `=`, and decoding the text gives `bytes` back.
#[verifier::external_body]
fn base64_encode(bytes: &[u8]) -> (s: String)
    ensures
        s@ == base64_text(bytes@),
        base64_chars(s@),
        decodes_to(s@, bytes@),
{
    base64::engine::general_purpose::STANDARD.encode(bytes)
}

/// `base64::engine::general_purpose::STANDARD.decode` (what `base64::decode` calls): the
/// decoded bytes, or the text of the `DecodeError`.
#[verifier::external_body]
fn base64_decode(text: &str) -> (r: Result<Vec<u8>, String>)
    ensures
        r is Ok ==> decodes_to(text@, r->Ok_0@),
        r is Err ==> base64_decoded(text@) == Err::<Seq<u8>, Seq<char>>(r->Err_0@),
{
    match base64::engine::general_purpose::STANDARD.decode(text) {
        Ok(v) => Ok(v),
        Err(e) => Err(e.to_string()),
    }
}

/// The scheme and path a connection link starts with.
pub open spec fn link_prefix() -> Seq<char> {
    "resonance://join?"@
}

/// The connection link for an endpoint, a session and a public key.
pub open spec fn link_text(ip: IpAddress, port: u16, sid: Seq<char>, key: Seq<u8>) -> Seq<char> {
    link_prefix() + "ip="@ + ip_text(ip) + "&port="@ + decimal(port as nat) + "&sid="@ + sid
        + "&key="@ + base64_text(key)
}

/// Whether `s` holds no `c`.
pub open spec fn free_of(s: Seq<char>, c: char) -> bool {
    forall|i: int| 0 <= i < s.len() ==> s[i] != c
}

/// A link to join the session `session_id` at `endpoint`, carrying `public_key`.
/// A link whose session identifier holds no `&` reads back, with
/// [`parse_connection_link`], as the endpoint's address text, its port, the session
/// identifier and the key.
pub fn generate_connection_link(endpoint: &Endpoint, session_id: &str, public_key: &[u8; 32]) -> (s:
    String)
    ensures
        s@ == link_text(endpoint.ip, endpoint.port, session_id@, public_key@),
        free_of(session_id@, '&') ==> link_fields(s@) == Some(
            (ip_text(endpoint.ip), endpoint.port, session_id@, public_key@),
        ),
{
    let key = base64_encode(public_key);
    let mut s = string_from("resonance://join?ip=");
    push_ip(&mut s, &endpoint.ip);
    push_str(&mut s, "&port=");
    push_decimal(&mut s, endpoint.port as u64);
    push_str(&mut s, "&sid=");
    push_str(&mut s, session_id);
    push_str(&mut s, "&key=");
    push_str(&mut s, key.as_str());
    proof {
        reveal_strlit("resonance://join?ip=");
        reveal_strlit("resonance://join?");
        reveal_strlit("ip=");
        assert(s@ =~= link_text(endpoint.ip, endpoint.port, session_id@, public_key@));
        if free_of(session_id@, '&') {
            lemma_link_fields(endpoint.ip, endpoint.port, session_id@, public_key@, key@);
        }
    }
    s
}

/// Why parsing an integer failed (as `ParseIntError` reports it).
#[derive(Debug, Clone, Copy, PartialEq, Eq, Structural)]
pub enum IntErrorKind {
    Empty,
    InvalidDigit,
    PosOverflow,
}

/// The text a `ParseIntError` of this kind displays as.
pub open spec fn int_error_text(k: IntErrorKind) -> Seq<char> {
    match k {
        IntErrorKind::Empty => "cannot parse integer from empty string"@,
        IntErrorKind::InvalidDigit => "invalid digit found in string"@,
        IntErrorKind::PosOverflow => "number too large to fit in target type"@,
    }
}

/// Whether `c` is an ASCII decimal digit.
pub open spec fn is_digit(c: char) -> bool {
    '0' <= c && c <= '9'
}

/// The value of the digit `c`.
pub open spec fn digit_value(c: char) -> nat {
    (c as int - '0' as int) as nat
}

/// Reading the digits `s` after the value `acc`, left to right, as a 16-bit number: the
/// first character that is no digit is an invalid digit; a value past 65535 overflows.
pub open spec fn digits_value(s: Seq<char>, acc: nat) -> Result<nat, IntErrorKind>
    decreases s.len(),
{
    if s.len() == 0 {
        Ok(acc)
    } else if !is_digit(s[0]) {
        Err(IntErrorKind::InvalidDigit)
    } else if acc * 10 + digit_value(s[0]) > 65535 {
        Err(IntErrorKind::PosOverflow)
    } else {
        digits_value(s.drop_first(), (acc * 10 + digit_value(s[0])) as nat)
    }
}

/// `u16::from_str`: an optional `+`, then decimal digits.
pub open spec fn parse_u16(s: Seq<char>) -> Result<u16, IntErrorKind> {
    if s.len() == 0 {
        Err(IntErrorKind::Empty)
    } else if s.len() == 1 && (s[0] == '+' || s[0] == '-') {
        Err(IntErrorKind::InvalidDigit)
    } else {
        let digits = if s[0] == '+' {
            s.drop_first()
        } else {
            s
        };
        match digits_value(digits, 0) {
            Ok(n) => Ok(n as u16),
            Err(e) => Err(e),
        }
    }
}

/// Reads a 16-bit number as `u16::from_str` does.
pub fn read_u16(v: &Vec<char>) -> (r: Result<u16, IntErrorKind>)
    ensures
        r == parse_u16(v@),
{
    if v.len() == 0 {
        return Err(IntErrorKind::Empty);
    }
    if v.len() == 1 && (v[0] == '+' || v[0] == '-') {
        return Err(IntErrorKind::InvalidDigit);
    }
    let start: usize = if v[0] == '+' {
        1
    } else {
        0
    };
    let ghost digits = v@.skip(start as int);
    assert(digits =~= (if v@[0] == '+' { v@.drop_first() } else { v@ }));
    let mut acc: u32 = 0;
    let mut i: usize = start;
    while i < v.len()
        invariant
            start <= i <= v.len(),
            digits == v@.skip(start as int),
            parse_u16(v@) == match digits_value(digits, 0) {
                Ok(n) => Ok(n as u16),
                Err(e) => Err(e),
            },
            acc <= 65535,
            digits_value(digits, 0) == digits_value(v@.skip(i as int), acc as nat),
        decreases v.len() - i,
    {
        let c = v[i];
        assert(v@.skip(i as int)[0] == c);
        assert(v@.skip(i as int).drop_first() =~= v@.skip(i + 1));
        if !('0' <= c && c <= '9') {
            return Err(IntErrorKind::InvalidDigit);
        }
        let d: u32 = (c as u32) - ('0' as u32);
        if acc * 10 + d > 65535 {
            return Err(IntErrorKind::PosOverflow);
        }
        acc = acc * 10 + d;
        i = i + 1;
    }
    assert(v@.skip(v.len() as int).len() == 0);
    Ok(acc as u16)
}

/// The pieces of `s` between occurrences of `c` (as `str::split`).
pub open spec fn split_on(s: Seq<char>, c: char) -> Seq<Seq<char>>
    decreases s.len(),
{
    match find_char(s, c) {
        None => seq![s],
        Some(i) => {
            proof {
                lemma_find_char_in(s, c);
            }
            if i < s.len() {
                seq![s.take(i as int)] + split_on(s.skip(i as int + 1), c)
            } else {
                seq![s]
            }
        },
    }
}

/// Where `find_char` finds `c`, `c` is there and nowhere before.
pub proof fn lemma_find_char_in(s: Seq<char>, c: char)
    ensures
        find_char(s, c) matches Some(i) ==> i < s.len() && s[i as int] == c && forall|k: int|
            0 <= k < i ==> s[k] != c,
        find_char(s, c) is None ==> free_of(s, c),
    decreases s.len(),
{
    if s.len() > 0 && s[0] != c {
        lemma_find_char_in(s.drop_first(), c);
        if let Some(i) = find_char(s.drop_first(), c) {
            assert forall|k: int| 0 <= k < i + 1 implies s[k] != c by {
                if k > 0 {
                    assert(s[k] == s.drop_first()[k - 1]);
                }
            }
        } else {
            assert forall|k: int| 0 <= k < s.len() implies s[k] != c by {
                if k > 0 {
                    assert(s[k] == s.drop_first()[k - 1]);
                }
            }
        }
    }
}

/// The value of the last `name=value` piece named `name` (a piece is split at its first
/// `=`; pieces without one are skipped).
pub open spec fn param(pieces: Seq<Seq<char>>, name: Seq<char>) -> Option<Seq<char>>
    decreases pieces.len(),
{
    if pieces.len() == 0 {
        None
    } else {
        let p = pieces.last();
        match find_char(p, '=') {
            Some(j) => if p.take(j as int) == name {
                Some(p.skip(j as int + 1))
            } else {
                param(pieces.drop_last(), name)
            },
            None => param(pieces.drop_last(), name),
        }
    }
}

/// The parameters of a connection link: the pieces of what follows its prefix.
pub open spec fn link_params(link: Seq<char>) -> Seq<Seq<char>> {
    split_on(link.skip(link_prefix().len() as int), '&')
}

/// The fields a well-formed connection link carries: the address text, the port, the
/// session identifier and the 32-byte key; `None` when any is missing or invalid.
pub open spec fn link_fields(link: Seq<char>) -> Option<(Seq<char>, u16, Seq<char>, Seq<u8>)> {
    let ps = link_params(link);
    if !is_prefix(link_prefix(), link) {
        None
    } else {
        match (param(ps, "ip"@), param(ps, "port"@), param(ps, "sid"@), param(ps, "key"@)) {
            (Some(ip), Some(pt), Some(sid), Some(k)) => match (parse_u16(pt), base64_decoded(k)) {
                (Ok(port), Ok(key)) => if key.len() == 32 {
                    Some((ip, port, sid, key))
                } else {
                    None
                },
                _ => None,
            },
            _ => None,
        }
    }
}

/// Concatenating texts free of `c` gives a text free of `c`.
pub proof fn lemma_free_concat(a: Seq<char>, b: Seq<char>, c: char)
    requires
        free_of(a, c),
        free_of(b, c),
    ensures
        free_of(a + b, c),
{
    assert forall|i: int| 0 <= i < (a + b).len() implies (a + b)[i] != c by {
        if i >= a.len() {
            assert((a + b)[i] == b[i - a.len()]);
        }
    }
}

proof fn lemma_digit_char(d: nat)
    requires
        d < 10,
    ensures
        is_digit(crate::text::digit_char(d)),
        digit_value(crate::text::digit_char(d)) == d,
{
}

proof fn lemma_decimal_digits(n: nat)
    ensures
        forall|i: int| 0 <= i < decimal(n).len() ==> is_digit(#[trigger] decimal(n)[i]),
        decimal(n).len() > 0,
    decreases n,
{
    lemma_digit_char(n % 10);
    if n >= 10 {
        lemma_decimal_digits(n / 10);
        let d = decimal(n / 10);
        assert forall|i: int| 0 <= i < decimal(n).len() implies is_digit(#[trigger] decimal(n)[i]) by {
            if i < d.len() {
                assert(decimal(n)[i] == d[i]);
            }
        }
    }
}

proof fn lemma_digits_snoc(s: Seq<char>, c: char, acc: nat)
    ensures
        digits_value(s.push(c), acc) == match digits_value(s, acc) {
            Ok(v) => if !is_digit(c) {
                Err(IntErrorKind::InvalidDigit)
            } else if v * 10 + digit_value(c) > 65535 {
                Err(IntErrorKind::PosOverflow)
            } else {
                Ok((v * 10 + digit_value(c)) as nat)
            },
            Err(e) => Err(e),
        },
    decreases s.len(),
{
    let t = s.push(c);
    if s.len() == 0 {
        assert(t[0] == c);
        assert(t.drop_first() =~= Seq::<char>::empty());
        reveal_with_fuel(digits_value, 2);
        assert(digits_value(s, acc) == Ok::<nat, IntErrorKind>(acc));
    } else {
        assert(t[0] == s[0]);
        assert(t.drop_first() =~= s.drop_first().push(c));
        if is_digit(s[0]) && acc * 10 + digit_value(s[0]) <= 65535 {
            lemma_digits_snoc(s.drop_first(), c, (acc * 10 + digit_value(s[0])) as nat);
        }
    }
}

proof fn lemma_decimal_value(n: nat)
    requires
        n <= 65535,
    ensures
        digits_value(decimal(n), 0) == Ok::<nat, IntErrorKind>(n),
    decreases n,
{
    lemma_digit_char(n % 10);
    if n < 10 {
        assert(decimal(n) =~= seq![crate::text::digit_char(n)]);
        assert(decimal(n).drop_first() =~= Seq::<char>::empty());
        reveal_with_fuel(digits_value, 2);
    } else {
        lemma_decimal_value(n / 10);
        lemma_digits_snoc(decimal(n / 10), crate::text::digit_char(n % 10), 0);
        assert((n / 10) * 10 + n % 10 == n);
    }
}

proof fn lemma_parse_decimal(n: u16)
    ensures
        parse_u16(decimal(n as nat)) == Ok::<u16, IntErrorKind>(n),
        free_of(decimal(n as nat), '&'),
        free_of(decimal(n as nat), '='),
{
    lemma_decimal_value(n as nat);
    lemma_decimal_digits(n as nat);
    assert(is_digit(decimal(n as nat)[0]));
}

/// Whether `c` can appear in the text of an IP address.
pub open spec fn is_ip_char(c: char) -> bool {
    is_digit(c) || ('a' <= c && c <= 'f') || c == '.' || c == ':'
}

/// Decimal digits hold no character other than digits.
pub proof fn lemma_decimal_free(n: nat, x: char)
    requires
        !is_digit(x),
    ensures
        free_of(decimal(n), x),
{
    lemma_decimal_digits(n);
}

proof fn lemma_hex_free(n: nat, c: char)
    requires
        !is_ip_char(c),
    ensures
        free_of(crate::net::hex_text(n), c),
    decreases n,
{
    if n >= 16 {
        lemma_hex_free(n / 16, c);
        let h = crate::net::hex_text(n / 16);
        assert forall|i: int| 0 <= i < crate::net::hex_text(n).len() implies crate::net::hex_text(n)[i] != c by {
            if i < h.len() {
                assert(crate::net::hex_text(n)[i] == h[i]);
            }
        }
    }
}

proof fn lemma_groups_free(g: Seq<nat>, c: char)
    requires
        !is_ip_char(c),
    ensures
        free_of(crate::net::join_groups(g), c),
    decreases g.len(),
{
    if g.len() == 1 {
        lemma_hex_free(g[0], c);
    } else if g.len() > 1 {
        lemma_groups_free(g.drop_last(), c);
        lemma_hex_free(g.last(), c);
        lemma_free_concat(crate::net::join_groups(g.drop_last()), seq![':'], c);
        lemma_free_concat(
            crate::net::join_groups(g.drop_last()) + seq![':'],
            crate::net::hex_text(g.last()),
            c,
        );
    }
}

proof fn lemma_ipv4_free(a: u8, b: u8, c: u8, d: u8, x: char)
    requires
        !is_ip_char(x),
    ensures
        free_of(crate::net::ipv4_text(a, b, c, d), x),
{
    lemma_decimal_free(a as nat, x);
    lemma_decimal_free(b as nat, x);
    lemma_decimal_free(c as nat, x);
    lemma_decimal_free(d as nat, x);
    let dot = seq!['.'];
    lemma_free_concat(decimal(a as nat), dot, x);
    lemma_free_concat(decimal(a as nat) + dot, decimal(b as nat), x);
    lemma_free_concat(decimal(a as nat) + dot + decimal(b as nat), dot, x);
    lemma_free_concat(decimal(a as nat) + dot + decimal(b as nat) + dot, decimal(c as nat), x);
    lemma_free_concat(decimal(a as nat) + dot + decimal(b as nat) + dot + decimal(c as nat), dot, x);
    lemma_free_concat(
        decimal(a as nat) + dot + decimal(b as nat) + dot + decimal(c as nat) + dot,
        decimal(d as nat),
        x,
    );
}

/// The text of an address is made of digits, `a` to `f`, dots and colons only.
pub proof fn lemma_ip_free(ip: IpAddress, x: char)
    requires
        !is_ip_char(x),
    ensures
        free_of(ip_text(ip), x),
{
    match ip {
        IpAddress::V4(a, b, c, d) => {
            lemma_ipv4_free(a, b, c, d, x);
        },
        IpAddress::V6(a, b, c, d, e, f, g, h) => {
            let gs = crate::net::v6_groups(a, b, c, d, e, f, g, h);
            if crate::net::is_ipv4_mapped(gs) {
                lemma_ipv4_free(
                    (gs[6] / 256) as u8,
                    (gs[6] % 256) as u8,
                    (gs[7] / 256) as u8,
                    (gs[7] % 256) as u8,
                    x,
                );
                lemma_free_concat(
                    seq![':', ':', 'f', 'f', 'f', 'f', ':'],
                    crate::net::ipv4_text(
                        (gs[6] / 256) as u8,
                        (gs[6] % 256) as u8,
                        (gs[7] / 256) as u8,
                        (gs[7] % 256) as u8,
                    ),
                    x,
                );
            } else {
                let (start, len) = crate::net::zero_run(gs);
                lemma_groups_free(gs, x);
                lemma_groups_free(gs.take(start as int), x);
                lemma_groups_free(gs.skip((start + len) as int), x);
                lemma_free_concat(crate::net::join_groups(gs.take(start as int)), seq![':', ':'], x);
                lemma_free_concat(
                    crate::net::join_groups(gs.take(start as int)) + seq![':', ':'],
                    crate::net::join_groups(gs.skip((start + len) as int)),
                    x,
                );
            }
        },
    }
}

/// A text free of `c` is one piece.
pub proof fn lemma_split_free(a: Seq<char>, c: char)
    requires
        free_of(a, c),
    ensures
        split_on(a, c) == seq![a],
{
    lemma_find_char(a, c, a.len() as int);
}

/// A text free of `c`, then `c`, starts the pieces.
pub proof fn lemma_split_cons(a: Seq<char>, b: Seq<char>, c: char)
    requires
        free_of(a, c),
    ensures
        split_on(a + seq![c] + b, c) == seq![a] + split_on(b, c),
{
    let s = a + seq![c] + b;
    assert forall|k: int| 0 <= k < a.len() implies s[k] != c by {
        assert(s[k] == a[k]);
    }
    assert(s[a.len() as int] == c);
    lemma_find_char(s, c, a.len() as int);
    assert(s.take(a.len() as int) =~= a);
    assert(s.skip(a.len() as int + 1) =~= b);
}

proof fn lemma_piece(name: Seq<char>, value: Seq<char>)
    requires
        free_of(name, '='),
    ensures
        find_char(name + seq!['='] + value, '=') == Some(name.len()),
        (name + seq!['='] + value).take(name.len() as int) == name,
        (name + seq!['='] + value).skip(name.len() as int + 1) == value,
{
    let s = name + seq!['='] + value;
    assert forall|k: int| 0 <= k < name.len() implies s[k] != '=' by {
        assert(s[k] == name[k]);
    }
    lemma_find_char(s, '=', name.len() as int);
    assert(s.take(name.len() as int) =~= name);
    assert(s.skip(name.len() as int + 1) =~= value);
}

proof fn lemma_link_fields(ip: IpAddress, port: u16, sid: Seq<char>, key: Seq<u8>, key_text: Seq<char>)
    requires
        free_of(sid, '&'),
        key_text == base64_text(key),
        base64_chars(key_text),
        decodes_to(key_text, key),
        key.len() == 32,
    ensures
        link_fields(link_text(ip, port, sid, key)) == Some((ip_text(ip), port, sid, key)),
{
    reveal_strlit("resonance://join?");
    reveal_strlit("ip=");
    reveal_strlit("&port=");
    reveal_strlit("&sid=");
    reveal_strlit("&key=");
    reveal_strlit("ip");
    reveal_strlit("port");
    reveal_strlit("sid");
    reveal_strlit("key");
    let ipt = ip_text(ip);
    let pt = decimal(port as nat);
    let eq = seq!['='];
    let amp = seq!['&'];
    let p_ip = "ip"@ + eq + ipt;
    let p_port = "port"@ + eq + pt;
    let p_sid = "sid"@ + eq + sid;
    let p_key = "key"@ + eq + key_text;
    let link = link_text(ip, port, sid, key);
    assert(link =~= link_prefix() + (p_ip + amp + (p_port + amp + (p_sid + amp + p_key))));
    assert(link.skip(link_prefix().len() as int) =~= p_ip + amp + (p_port + amp + (p_sid + amp
        + p_key)));
    lemma_ip_free(ip, '&');
    lemma_parse_decimal(port);
    assert(free_of(key_text, '&')) by {
        assert forall|i: int| 0 <= i < key_text.len() implies key_text[i] != '&' by {
            assert(is_base64_char(key_text[i]));
        }
    }
    assert(free_of("ip"@, '&') && free_of("port"@, '&') && free_of("sid"@, '&') && free_of("key"@, '&'));
    assert(free_of(eq, '&'));
    lemma_free_concat("ip"@, eq, '&');
    lemma_free_concat("ip"@ + eq, ipt, '&');
    lemma_free_concat("port"@, eq, '&');
    lemma_free_concat("port"@ + eq, pt, '&');
    lemma_free_concat("sid"@, eq, '&');
    lemma_free_concat("sid"@ + eq, sid, '&');
    lemma_free_concat("key"@, eq, '&');
    lemma_free_concat("key"@ + eq, key_text, '&');
    lemma_split_free(p_key, '&');
    lemma_split_cons(p_sid, p_key, '&');
    lemma_split_cons(p_port, p_sid + amp + p_key, '&');
    lemma_split_cons(p_ip, p_port + amp + (p_sid + amp + p_key), '&');
    let ps = link_params(link);
    assert(ps =~= seq![p_ip, p_port, p_sid, p_key]);
    assert(free_of("ip"@, '=') && free_of("port"@, '=') && free_of("sid"@, '=') && free_of("key"@, '='));
    lemma_piece("ip"@, ipt);
    lemma_piece("port"@, pt);
    lemma_piece("sid"@, sid);
    lemma_piece("key"@, key_text);
    assert("key"@ != "ip"@ && "sid"@ != "ip"@ && "port"@ != "ip"@);
    assert("key"@ != "port"@ && "sid"@ != "port"@);
    assert("key"@ != "sid"@);
    assert(ps.drop_last() =~= seq![p_ip, p_port, p_sid]);
    assert(ps.drop_last().drop_last() =~= seq![p_ip, p_port]);
    assert(ps.drop_last().drop_last().drop_last() =~= seq![p_ip]);
    assert(param(ps, "key"@) == Some(key_text));
    assert(param(ps.drop_last(), "sid"@) == Some(sid));
    assert(param(ps, "sid"@) == Some(sid));
    assert(param(ps.drop_last().drop_last(), "port"@) == Some(pt));
    assert(param(ps.drop_last(), "port"@) == Some(pt));
    assert(param(ps, "port"@) == Some(pt));
    assert(param(ps.drop_last().drop_last().drop_last(), "ip"@) == Some(ipt));
    assert(param(ps.drop_last().drop_last(), "ip"@) == Some(ipt));
    assert(param(ps.drop_last(), "ip"@) == Some(ipt));
    assert(param(ps, "ip"@) == Some(ipt));
    assert(link.take(link_prefix().len() as int) =~= link_prefix());
    assert(is_prefix(link_prefix(), link));
    assert(parse_u16(pt) == Ok::<u16, IntErrorKind>(port));
    assert(base64_decoded(key_text) == Ok::<Seq<u8>, Seq<char>>(key));
}

/// The character sequences of vectors of characters.
pub open spec fn views(v: Seq<Vec<char>>) -> Seq<Seq<char>> {
    v.map_values(|x: Vec<char>| x@)
}

fn split_chars(v: &Vec<char>, c: char) -> (out: Vec<Vec<char>>)
    ensures
        views(out@) == split_on(v@, c),
{
    let mut out: Vec<Vec<char>> = Vec::new();
    let mut rest = slice_chars(v, 0, v.len());
    assert(rest@ =~= v@);
    loop
        invariant_except_break
            views(out@) + split_on(rest@, c) == split_on(v@, c),
        ensures
            views(out@) == split_on(v@, c),
        decreases rest@.len(),
    {
        proof {
            lemma_find_char_in(rest@, c);
        }
        match find(&rest, c) {
            None => {
                let ghost before = out@;
                let ghost r = rest@;
                out.push(rest);
                assert(split_on(r, c) == seq![r]);
                assert(views(out@) =~= views(before) + seq![r]);
                break;
            },
            Some(i) => {
                let head = slice_chars(&rest, 0, i);
                let tail = slice_chars(&rest, i + 1, rest.len());
                let ghost before = out@;
                assert(head@ =~= rest@.take(i as int));
                assert(tail@ =~= rest@.skip(i as int + 1));
                out.push(head);
                assert(views(out@) =~= views(before).push(head@));
                assert(views(out@) + split_on(tail@, c) =~= views(before) + split_on(rest@, c));
                rest = tail;
            },
        }
    }
    out
}

fn find_param(pieces: &Vec<Vec<char>>, name: &Vec<char>) -> (r: Option<Vec<char>>)
    ensures
        match param(views(pieces@), name@) {
            Some(v) => r matches Some(x) && x@ == v,
            None => r is None,
        },
{
    let ghost ps = views(pieces@);
    let mut i: usize = pieces.len();
    assert(ps.take(pieces.len() as int) =~= ps);
    while i > 0
        invariant
            i <= pieces.len(),
            ps == views(pieces@),
            param(ps, name@) == param(ps.take(i as int), name@),
        decreases i,
    {
        let p = &pieces[i - 1];
        assert(ps.take(i as int).last() == p@);
        assert(ps.take(i as int).drop_last() =~= ps.take(i - 1));
        match find(p, '=') {
            Some(j) => {
                let head = slice_chars(p, 0, j);
                assert(head@ =~= p@.take(j as int));
                if chars_eq(&head, name) {
                    let value = slice_chars(p, j + 1, p.len());
                    assert(value@ =~= p@.skip(j as int + 1));
                    return Some(value);
                }
            },
            None => {},
        }
        i = i - 1;
    }
    None
}

/// Why a connection link could not be read.
#[derive(Debug, Clone, PartialEq, Eq)]
pub enum LinkError {
    InvalidFormat,
    MissingIp,
    InvalidIp,
    MissingPort,
    InvalidPort(IntErrorKind),
    MissingSessionId,
    MissingKey,
    InvalidKey(String),
    InvalidKeyLength,
}

/// The text a link error displays as.
pub open spec fn link_error_text(e: LinkError) -> Seq<char> {
    match e {
        LinkError::InvalidFormat => "Invalid connection link format"@,
        LinkError::MissingIp => "Missing IP address"@,
        LinkError::InvalidIp => "invalid IP address syntax"@,
        LinkError::MissingPort => "Missing port"@,
        LinkError::InvalidPort(k) => int_error_text(k),
        LinkError::MissingSessionId => "Missing session ID"@,
        LinkError::MissingKey => "Missing public key"@,
        LinkError::InvalidKey(m) => m@,
        LinkError::InvalidKeyLength => "Invalid public key length"@,
    }
}

impl IntErrorKind {
    /// The text `ParseIntError` displays for this kind.
    pub fn to_display_string(&self) -> (s: String)
        ensures
            s@ == int_error_text(*self),
    {
        match self {
            IntErrorKind::Empty => string_from("cannot parse integer from empty string"),
            IntErrorKind::InvalidDigit => string_from("invalid digit found in string"),
            IntErrorKind::PosOverflow => string_from("number too large to fit in target type"),
        }
    }
}

impl LinkError {
    /// The text this error displays as.
    pub fn to_display_string(&self) -> (s: String)
        ensures
            s@ == link_error_text(*self),
    {
        match self {
            LinkError::InvalidFormat => string_from("Invalid connection link format"),
            LinkError::MissingIp => string_from("Missing IP address"),
            LinkError::InvalidIp => string_from("invalid IP address syntax"),
            LinkError::MissingPort => string_from("Missing port"),
            LinkError::InvalidPort(k) => k.to_display_string(),
            LinkError::MissingSessionId => string_from("Missing session ID"),
            LinkError::MissingKey => string_from("Missing public key"),
            LinkError::InvalidKey(m) => m.clone(),
            LinkError::InvalidKeyLength => string_from("Invalid public key length"),
        }
    }
}

/// The fields of a connection link; the address is its text.
#[derive(Debug, Clone)]
pub struct ConnectionLink {
    pub ip: String,
    pub port: u16,
    pub session_id: String,
    pub public_key: [u8; 32],
}

/// What reading the link `link` gives: the first field missing or invalid, checked in the
/// order address, port, session, key, is the error; otherwise the fields.
pub open spec fn link_parsed(link: Seq<char>, r: Result<ConnectionLink, LinkError>) -> bool {
    let ps = link_params(link);
    if !is_prefix(link_prefix(), link) {
        r matches Err(LinkError::InvalidFormat)
    } else {
        match param(ps, "ip"@) {
            None => r matches Err(LinkError::MissingIp),
            Some(ip) => match param(ps, "port"@) {
                None => r matches Err(LinkError::MissingPort),
                Some(pt) => match parse_u16(pt) {
                    Err(k) => r matches Err(LinkError::InvalidPort(k2)) && k2 == k,
                    Ok(port) => match param(ps, "sid"@) {
                        None => r matches Err(LinkError::MissingSessionId),
                        Some(sid) => match param(ps, "key"@) {
                            None => r matches Err(LinkError::MissingKey),
                            Some(kt) => match base64_decoded(kt) {
                                Err(m) => r matches Err(LinkError::InvalidKey(m2)) && m2@ == m,
                                Ok(key) => if key.len() != 32 {
                                    r matches Err(LinkError::InvalidKeyLength)
                                } else {
                                    r matches Ok(c) && c.ip@ == ip && c.port == port
                                        && c.session_id@ == sid && c.public_key@ == key
                                },
                            },
                        },
                    },
                },
            },
        }
    }
}

fn key_from(v: &Vec<u8>) -> (k: [u8; 32])
    requires
        v@.len() == 32,
    ensures
        k@ == v@,
{
    let mut k: [u8; 32] = [0u8; 32];
    let mut i: usize = 0;
    while i < 32
        invariant
            i <= 32,
            v@.len() == 32,
            k@.len() == 32,
            forall|j: int| 0 <= j < i ==> k@[j] == v@[j],
        decreases 32 - i,
    {
        k.set(i, v[i]);
        i = i + 1;
    }
    assert(k@ =~= v@);
    k
}

/// Reads a connection link made by [`generate_connection_link`].
pub fn parse_connection_link(link: &str) -> (r: Result<ConnectionLink, LinkError>)
    ensures
        link_parsed(link@, r),
        link_fields(link@) matches Some(f) ==> (r matches Ok(c) && c.ip@ == f.0 && c.port == f.1
            && c.session_id@ == f.2 && c.public_key@ == f.3),
{
    let v = chars_of(link);
    let prefix = chars_of("resonance://join?");
    proof {
        reveal_strlit("resonance://join?");
        reveal_strlit("ip");
        reveal_strlit("port");
        reveal_strlit("sid");
        reveal_strlit("key");
    }
    if !starts_with(&v, &prefix) {
        return Err(LinkError::InvalidFormat);
    }
    let rest = slice_chars(&v, prefix.len(), v.len());
    assert(rest@ =~= link@.skip(link_prefix().len() as int));
    let pieces = split_chars(&rest, '&');
    let ip = match find_param(&pieces, &chars_of("ip")) {
        Some(x) => x,
        None => {
            return Err(LinkError::MissingIp);
        },
    };
    let port_text = match find_param(&pieces, &chars_of("port")) {
        Some(x) => x,
        None => {
            return Err(LinkError::MissingPort);
        },
    };
    let port = match read_u16(&port_text) {
        Ok(p) => p,
        Err(k) => {
            return Err(LinkError::InvalidPort(k));
        },
    };
    let sid = match find_param(&pieces, &chars_of("sid")) {
        Some(x) => x,
        None => {
            return Err(LinkError::MissingSessionId);
        },
    };
    let key_text = match find_param(&pieces, &chars_of("key")) {
        Some(x) => x,
        None => {
            return Err(LinkError::MissingKey);
        },
    };
    let key_string = string_of(&key_text);
    let bytes = match base64_decode(key_string.as_str()) {
        Ok(b) => b,
        Err(m) => {
            return Err(LinkError::InvalidKey(m));
        },
    };
    if bytes.len() != 32 {
        return Err(LinkError::InvalidKeyLength);
    }
    let public_key = key_from(&bytes);
    Ok(ConnectionLink { ip: string_of(&ip), port, session_id: string_of(&sid), public_key })
}

/// The address text a connection link carries: its `ip` parameter, if the link has the
/// right prefix and the parameter.
pub open spec fn link_address_text(link: Seq<char>) -> Option<Seq<char>> {
    if is_prefix(link_prefix(), link) {
        param(link_params(link), "ip"@)
    } else {
        None
    }
}

/// The address text of a connection link, for the caller to read as an IP address.
pub fn link_address(link: &str) -> (r: Option<String>)
    ensures
        match link_address_text(link@) {
            Some(t) => r matches Some(s) && s@ == t,
            None => r is None,
        },
{
    let v = chars_of(link);
    let prefix = chars_of("resonance://join?");
    proof {
        reveal_strlit("resonance://join?");
        reveal_strlit("ip");
    }
    if !starts_with(&v, &prefix) {
        return None;
    }
    let rest = slice_chars(&v, prefix.len(), v.len());
    assert(rest@ =~= link@.skip(link_prefix().len() as int));
    let pieces = split_chars(&rest, '&');
    match find_param(&pieces, &chars_of("ip")) {
        Some(x) => Some(string_of(&x)),
        None => None,
    }
}

/// What reading the link `link` gives when `address` is what reading its address text as
/// an IP address gave (`None` when that failed): an unreadable address is refused right
/// after a missing one, before the port is looked at; otherwise as [`link_parsed`].
pub open spec fn link_checked(link: Seq<char>, address: Option<IpAddress>, r: Result<ConnectionLink, LinkError>) -> bool {
    if link_address_text(link) is Some && address is None {
        r matches Err(LinkError::InvalidIp)
    } else {
        link_parsed(link, r)
    }
}

/// Reads a connection link whose address text the caller has read as an IP address:
/// `address` is the address, or `None` when the text is not one.
pub fn parse_connection_link_checked(link: &str, address: Option<IpAddress>) -> (r: Result<
    ConnectionLink,
    LinkError,
>)
    ensures
        link_checked(link@, address, r),
        address is Some ==> (link_fields(link@) matches Some(f) ==> (r matches Ok(c) && c.ip@
            == f.0 && c.port == f.1 && c.session_id@ == f.2 && c.public_key@ == f.3)),
{
    if address.is_none() && link_address(link).is_some() {
        return Err(LinkError::InvalidIp);
    }
    parse_connection_link(link)
}

} // verus!
