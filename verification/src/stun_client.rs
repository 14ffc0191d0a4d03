//! STUN client: the servers asked for our public address, and the binding request and
//! response (RFC 5389) of the exchange. Resolving names, the socket and the timeout belong
//! to the caller.

use vstd::prelude::*;
use rand::Rng;
use crate::net::{IpAddress, SocketAddress};
use crate::room_core::Error;
use crate::text::{chars_of, is_prefix, push_str, starts_with, string_from, string_of};

verus! {

/// Timeout for STUN requests, in seconds.
pub const STUN_TIMEOUT: u64 = 5;

/// A STUN server, by host name and port (such as `stun.l.google.com:19302`).
#[derive(Debug, Clone)]
pub struct StunServer {
    /// Host name and port.
    pub url: String,
}

/// `s` with every leading repetition of a non-empty `p` removed.
pub open spec fn strip_all(s: Seq<char>, p: Seq<char>) -> Seq<char>
    decreases s.len(),
{
    if p.len() > 0 && is_prefix(p, s) {
        strip_all(s.skip(p.len() as int), p)
    } else {
        s
    }
}

/// The scheme a STUN server URL starts with.
pub open spec fn stun_scheme() -> Seq<char> {
    "stun:"@
}

/// The address of the server a STUN URL names, or `None` for a text that is not one.
pub open spec fn server_url(s: Seq<char>) -> Option<Seq<char>> {
    if is_prefix(stun_scheme(), s) {
        Some(strip_all(s, stun_scheme()))
    } else {
        None
    }
}

fn strip_all_chars(v: &Vec<char>, p: &Vec<char>) -> (out: Vec<char>)
    requires
        p@.len() > 0,
    ensures
        out@ == strip_all(v@, p@),
{
    let mut rest: Vec<char> = v.clone();
    assert(rest@ =~= v@);
    while starts_with(&rest, p)
        invariant
            p@.len() > 0,
            strip_all(rest@, p@) == strip_all(v@, p@),
        decreases rest@.len(),
    {
        let next = crate::text::slice_chars(&rest, p.len(), rest.len());
        assert(next@ =~= rest@.skip(p@.len() as int));
        rest = next;
    }
    rest
}

impl StunServer {
    /// The server a `stun:` URL names: the URL without its leading `stun:` schemes; an
    /// error for any other text.
    pub fn from_str(s: &str) -> (r: Result<StunServer, Error>)
        ensures
            server_url(s@) matches Some(u) ==> (r matches Ok(v) && v.url@ == u),
            server_url(s@) is None ==> (r matches Err(Error::Network(m)) && m@
                == "Invalid STUN server URL: "@ + s@),
    {
        let v = chars_of(s);
        let scheme = chars_of("stun:");
        proof {
            reveal_strlit("stun:");
        }
        if starts_with(&v, &scheme) {
            let rest = strip_all_chars(&v, &scheme);
            Ok(StunServer { url: string_of(&rest) })
        } else {
            let mut m = string_from("Invalid STUN server URL: ");
            push_str(&mut m, s);
            Err(Error::Network(m))
        }
    }
}

/// The server addresses of the valid URLs among `urls`, in order.
pub open spec fn valid_servers(urls: Seq<String>) -> Seq<Seq<char>>
    decreases urls.len(),
{
    if urls.len() == 0 {
        Seq::empty()
    } else {
        let rest = valid_servers(urls.drop_last());
        match server_url(urls.last()@) {
            Some(u) => rest.push(u),
            None => rest,
        }
    }
}

/// The servers used when no valid one is given.
pub open spec fn default_servers() -> Seq<Seq<char>> {
    seq!["stun.l.google.com:19302"@, "stun1.l.google.com:19302"@]
}

/// Asks STUN servers for our public address.
pub struct StunClient {
    servers: Vec<StunServer>,
}

impl View for StunClient {
    type V = Seq<Seq<char>>;

    /// The servers' addresses, in the order they are tried before shuffling.
    closed spec fn view(&self) -> Seq<Seq<char>> {
        self.servers@.map_values(|s: StunServer| s.url@)
    }
}

impl StunClient {
    /// A client for the valid URLs among `server_urls`, or for two default servers when
    /// none is valid.
    pub fn new(server_urls: Vec<String>) -> (c: Self)
        ensures
            c@ == (if valid_servers(server_urls@).len() == 0 {
                default_servers()
            } else {
                valid_servers(server_urls@)
            }),
    {
        let mut servers: Vec<StunServer> = Vec::new();
        let mut i: usize = 0;
        while i < server_urls.len()
            invariant
                i <= server_urls.len(),
                servers@.map_values(|s: StunServer| s.url@) == valid_servers(
                    server_urls@.take(i as int),
                ),
            decreases server_urls.len() - i,
        {
            assert(server_urls@.take(i + 1).drop_last() =~= server_urls@.take(i as int));
            match StunServer::from_str(server_urls[i].as_str()) {
                Ok(server) => {
                    servers.push(server);
                },
                Err(_) => {},
            }
            i = i + 1;
            assert(servers@.map_values(|s: StunServer| s.url@) =~= valid_servers(
                server_urls@.take(i as int),
            ));
        }
        assert(server_urls@.take(server_urls.len() as int) =~= server_urls@);
        if servers.len() == 0 {
            servers.push(StunServer { url: string_from("stun.l.google.com:19302") });
            servers.push(StunServer { url: string_from("stun1.l.google.com:19302") });
            assert(servers@.map_values(|s: StunServer| s.url@) =~= default_servers());
        }
        StunClient { servers }
    }

    /// The servers, in the order they were given.
    pub fn servers(&self) -> (r: &Vec<StunServer>)
        ensures
            r@.map_values(|s: StunServer| s.url@) == self@,
    {
        &self.servers
    }
}

/// The STUN magic cookie.
pub open spec fn magic_cookie() -> Seq<u8> {
    seq![0x21u8, 0x12u8, 0xA4u8, 0x42u8]
}

/// A binding request with transaction identifier `id`: the message type, a zero length,
/// the magic cookie, then the identifier.
pub open spec fn binding_request_bytes(id: Seq<u8>) -> Seq<u8> {
    seq![0x00u8, 0x01u8, 0x00u8, 0x00u8] + magic_cookie() + id
}

/// Twelve random bytes (`rand::thread_rng().fill`). They are random: nothing is stated of
/// them.
#[verifier::external_body]
fn random_transaction_id() -> (id: [u8; 12]) {
    let mut id = [0u8; 12];
    rand::thread_rng().fill(&mut id);
    id
}

/// A binding request with transaction identifier `id`.
pub fn binding_request(id: &[u8; 12]) -> (v: Vec<u8>)
    ensures
        v@ == binding_request_bytes(id@),
{
    let mut v: Vec<u8> = Vec::new();
    v.push(0x00);
    v.push(0x01);
    v.push(0x00);
    v.push(0x00);
    v.push(0x21);
    v.push(0x12);
    v.push(0xA4);
    v.push(0x42);
    let ghost head = v@;
    let mut i: usize = 0;
    while i < 12
        invariant
            i <= 12,
            id@.len() == 12,
            v@ == head + id@.take(i as int),
        decreases 12 - i,
    {
        v.push(id[i]);
        i = i + 1;
        assert(v@ =~= head + id@.take(i as int));
    }
    assert(id@.take(12) =~= id@);
    assert(v@ =~= binding_request_bytes(id@));
    v
}

/// A binding request with a fresh random transaction identifier.
pub fn new_binding_request() -> (v: Vec<u8>)
    ensures
        v@.len() == 20,
        v@.take(8) == binding_request_bytes(Seq::empty()),
{
    let id = random_transaction_id();
    let v = binding_request(&id);
    assert(v@.take(8) =~= binding_request_bytes(Seq::empty()));
    v
}

/// The 16-bit big-endian number of two bytes.
pub open spec fn be16(a: u8, b: u8) -> u16 {
    ((a as u16) << 8u16) | (b as u16)
}

fn read_be16(a: u8, b: u8) -> (r: u16)
    ensures
        r == be16(a, b),
        r as int == a as int * 256 + b as int,
{
    let r: u16 = ((a as u16) << 8u16) | (b as u16);
    assert(((a as u16) << 8u16) | (b as u16) == a as u16 * 256 + b as u16) by (bit_vector);
    r
}

/// Bytes that pad an attribute of `len` bytes to a multiple of four.
pub open spec fn padding(len: int) -> int {
    if len % 4 != 0 {
        4 - len % 4
    } else {
        0
    }
}

/// Whether the response `d` is a binding success response (at least a header, of type
/// 0x0101).
pub open spec fn is_binding_success(d: Seq<u8>) -> bool {
    d.len() >= 20 && d[0] == 0x01 && d[1] == 0x01
}

/// The offset of the attribute after one of `len` bytes at offset `i`.
pub open spec fn next_attribute(i: int, len: int) -> int {
    i + 4 + len + padding(len)
}

/// The next attribute starts after this one.
pub proof fn lemma_next_attribute(i: int, len: int)
    requires
        len >= 0,
    ensures
        next_attribute(i, len) >= i + 4 + len,
{
}

/// The XOR-MAPPED-ADDRESS the client finds scanning attributes of `d` from offset `i`: the
/// first attribute of type 0x0020, at least 8 bytes long, of the IPv4 family, with port and
/// address unmasked by the magic cookie.
pub open spec fn mapped_from(d: Seq<u8>, i: int) -> Option<SocketAddress>
    decreases (if i <= d.len() { d.len() - i } else { 0 }),
{
    if i < 0 || i + 8 > d.len() {
        None
    } else {
        let t = be16(d[i], d[i + 1]);
        let l = be16(d[i + 2], d[i + 3]) as int;
        if t == 0x0020u16 && l >= 8 && d[i + 5] == 0x01 {
            Some(
                SocketAddress {
                    ip: IpAddress::V4(
                        d[i + 8] ^ 0x21u8,
                        d[i + 9] ^ 0x12u8,
                        d[i + 10] ^ 0xA4u8,
                        d[i + 11] ^ 0x42u8,
                    ),
                    port: be16(d[i + 6], d[i + 7]) ^ 0x2112u16,
                },
            )
        } else {
            proof {
                lemma_next_attribute(i, l);
            }
            mapped_from(d, next_attribute(i, l))
        }
    }
}

/// Whether scanning the attributes of `d` from offset `i` stays within `d`: the client
/// reads the eight bytes of an IPv4 address without checking that they are there.
pub open spec fn mapped_readable(d: Seq<u8>, i: int) -> bool
    decreases (if i <= d.len() { d.len() - i } else { 0 }),
{
    if i < 0 || i + 8 > d.len() {
        true
    } else {
        let t = be16(d[i], d[i + 1]);
        let l = be16(d[i + 2], d[i + 3]) as int;
        if t == 0x0020u16 && l >= 8 && d[i + 5] == 0x01 {
            i + 12 <= d.len()
        } else {
            proof {
                lemma_next_attribute(i, l);
            }
            mapped_readable(d, next_attribute(i, l))
        }
    }
}

/// The offset of the attribute reached after `n` steps of walking the attributes of `d`
/// from offset `start`, each step skipping an attribute by the length its header declares.
pub open spec fn attribute_offset(d: Seq<u8>, start: int, n: nat) -> int
    decreases n,
{
    if n == 0 {
        start
    } else {
        attribute_offset(
            d,
            next_attribute(start, d[start + 2] as int * 256 + d[start + 3] as int),
            (n - 1) as nat,
        )
    }
}

/// Whether an attribute of type 0x0020 (XOR-MAPPED-ADDRESS) starts at offset `p` of `d`.
pub open spec fn is_xor_mapped_at(d: Seq<u8>, p: int) -> bool {
    0 <= p && p + 4 <= d.len() && d[p] == 0x00 && d[p + 1] == 0x20
}

/// The big-endian number of two bytes, and when it is 0x0020.
pub proof fn lemma_be16_bytes(a: u8, b: u8)
    ensures
        be16(a, b) as int == a as int * 256 + b as int,
        be16(a, b) == 0x0020u16 <==> (a == 0x00 && b == 0x20),
{
    assert(be16(a, b) as int == a as int * 256 + b as int) by (bit_vector);
    assert(be16(a, b) == 0x0020u16 <==> (a == 0x00 && b == 0x20)) by (bit_vector);
}

proof fn lemma_mapped_from_is_xor_mapped(d: Seq<u8>, i: int)
    requires
        mapped_from(d, i) is Some,
    ensures
        exists|n: nat|
            #![trigger attribute_offset(d, i, n)]
            {
                let p = attribute_offset(d, i, n);
                &&& is_xor_mapped_at(d, p)
                &&& p + 8 <= d.len()
                &&& mapped_from(d, i) == mapped_from(d, p)
                &&& be16(d[p + 2], d[p + 3]) >= 8
                &&& d[p + 5] == 0x01
            },
    decreases d.len() - i,
{
    let l = be16(d[i + 2], d[i + 3]) as int;
    lemma_be16_bytes(d[i], d[i + 1]);
    lemma_be16_bytes(d[i + 2], d[i + 3]);
    if be16(d[i], d[i + 1]) == 0x0020u16 && l >= 8 && d[i + 5] == 0x01 {
        assert(attribute_offset(d, i, 0) == i);
    } else {
        lemma_next_attribute(i, l);
        let next = next_attribute(i, l);
        lemma_mapped_from_is_xor_mapped(d, next);
        let n = choose|n: nat|
            #![trigger attribute_offset(d, next, n)]
            {
                let p = attribute_offset(d, next, n);
                &&& is_xor_mapped_at(d, p)
                &&& p + 8 <= d.len()
                &&& mapped_from(d, next) == mapped_from(d, p)
                &&& be16(d[p + 2], d[p + 3]) >= 8
                &&& d[p + 5] == 0x01
            };
        assert(attribute_offset(d, i, n + 1) == attribute_offset(d, next, n));
    }
}

/// The client's address comes from an XOR-MAPPED-ADDRESS attribute: when a binding response
/// reports an address, some attribute met walking its attributes has type 0x0020 and the
/// IPv4 family, and the address XORed with the magic cookie gives that attribute's port and
/// address bytes. A response with no such attribute reports none, whatever its other
/// attributes hold.
pub proof fn lemma_response_address_is_xor_mapped(d: Seq<u8>)
    ensures
        response_address(d) matches Some(a) ==> exists|n: nat|
            #![trigger attribute_offset(d, 20, n)]
            {
                let p = attribute_offset(d, 20, n);
                &&& is_xor_mapped_at(d, p)
                &&& p + 8 <= d.len()
                &&& d[p + 5] == 0x01
                &&& a.port ^ 0x2112u16 == be16(d[p + 6], d[p + 7])
                &&& a.ip matches IpAddress::V4(o0, o1, o2, o3)
                &&& o0 ^ 0x21u8 == d[p + 8]
                &&& o1 ^ 0x12u8 == d[p + 9]
                &&& o2 ^ 0xA4u8 == d[p + 10]
                &&& o3 ^ 0x42u8 == d[p + 11]
            },
{
    if response_address(d) is Some {
        lemma_mapped_from_is_xor_mapped(d, 20);
        let n = choose|n: nat|
            #![trigger attribute_offset(d, 20, n)]
            {
                let p = attribute_offset(d, 20, n);
                &&& is_xor_mapped_at(d, p)
                &&& p + 8 <= d.len()
                &&& mapped_from(d, 20) == mapped_from(d, p)
                &&& be16(d[p + 2], d[p + 3]) >= 8
                &&& d[p + 5] == 0x01
            };
        let p = attribute_offset(d, 20, n);
        lemma_be16_bytes(d[p], d[p + 1]);
        let x0 = d[p + 8];
        let x1 = d[p + 9];
        let x2 = d[p + 10];
        let x3 = d[p + 11];
        let pt = be16(d[p + 6], d[p + 7]);
        assert((pt ^ 0x2112u16) ^ 0x2112u16 == pt) by (bit_vector);
        assert((x0 ^ 0x21u8) ^ 0x21u8 == x0) by (bit_vector);
        assert((x1 ^ 0x12u8) ^ 0x12u8 == x1) by (bit_vector);
        assert((x2 ^ 0xA4u8) ^ 0xA4u8 == x2) by (bit_vector);
        assert((x3 ^ 0x42u8) ^ 0x42u8 == x3) by (bit_vector);
    }
}

/// Whether the attribute at offset `p` of `d` is one the client takes its address from:
/// type 0x0020 (XOR-MAPPED-ADDRESS), at least 8 bytes long, of the IPv4 family.
pub open spec fn client_xor_address_at(d: Seq<u8>, p: int) -> bool {
    &&& is_xor_mapped_at(d, p)
    &&& p + 8 <= d.len()
    &&& d[p + 2] as int * 256 + d[p + 3] as int >= 8
    &&& d[p + 5] == 0x01
}

proof fn lemma_mapped_from_first(d: Seq<u8>, i: int, n: nat)
    requires
        i >= 0,
        client_xor_address_at(d, attribute_offset(d, i, n)),
        forall|m: nat|
            m < n ==> attribute_offset(d, i, m) + 8 <= d.len() && !client_xor_address_at(
                d,
                #[trigger] attribute_offset(d, i, m),
            ),
    ensures
        mapped_from(d, i) == mapped_from(d, attribute_offset(d, i, n)),
        mapped_from(d, i) is Some,
    decreases n,
{
    lemma_be16_bytes(d[i], d[i + 1]);
    lemma_be16_bytes(d[i + 2], d[i + 3]);
    let l = be16(d[i + 2], d[i + 3]) as int;
    lemma_next_attribute(i, l);
    if n > 0 {
        assert(attribute_offset(d, i, 0) == i);
        let next = next_attribute(i, l);
        assert forall|m: nat|
            m < (n - 1) as nat implies attribute_offset(d, next, m) + 8 <= d.len()
                && !client_xor_address_at(d, #[trigger] attribute_offset(d, next, m)) by {
            assert(attribute_offset(d, i, m + 1) == attribute_offset(d, next, m));
        }
        assert(attribute_offset(d, i, n) == attribute_offset(d, next, (n - 1) as nat));
        lemma_mapped_from_first(d, next, (n - 1) as nat);
    } else {
        let p = attribute_offset(d, i, n);
        lemma_be16_bytes(d[p], d[p + 1]);
        lemma_be16_bytes(d[p + 2], d[p + 3]);
    }
}

/// A binding success response reports the address of its first attribute of type 0x0020,
/// at least 8 bytes long and of the IPv4 family: when walking its attributes reaches such an
/// attribute, every attribute before it (of whatever type and content) being skipped, the
/// client reads an address whose port and octets, XORed with the magic cookie, are that
/// attribute's bytes.
pub proof fn lemma_response_address_first_xor_mapped(d: Seq<u8>, n: nat)
    requires
        is_binding_success(d),
        client_xor_address_at(d, attribute_offset(d, 20, n)),
        forall|m: nat|
            m < n ==> attribute_offset(d, 20, m) + 8 <= d.len() && !client_xor_address_at(
                d,
                #[trigger] attribute_offset(d, 20, m),
            ),
    ensures
        response_address(d) matches Some(a) && {
            let p = attribute_offset(d, 20, n);
            &&& a.port ^ 0x2112u16 == be16(d[p + 6], d[p + 7])
            &&& a.ip matches IpAddress::V4(o0, o1, o2, o3)
            &&& o0 ^ 0x21u8 == d[p + 8]
            &&& o1 ^ 0x12u8 == d[p + 9]
            &&& o2 ^ 0xA4u8 == d[p + 10]
            &&& o3 ^ 0x42u8 == d[p + 11]
        },
{
    lemma_mapped_from_first(d, 20, n);
    let p = attribute_offset(d, 20, n);
    lemma_be16_bytes(d[p], d[p + 1]);
    lemma_be16_bytes(d[p + 2], d[p + 3]);
    let x0 = d[p + 8];
    let x1 = d[p + 9];
    let x2 = d[p + 10];
    let x3 = d[p + 11];
    let pt = be16(d[p + 6], d[p + 7]);
    assert((pt ^ 0x2112u16) ^ 0x2112u16 == pt) by (bit_vector);
    assert((x0 ^ 0x21u8) ^ 0x21u8 == x0) by (bit_vector);
    assert((x1 ^ 0x12u8) ^ 0x12u8 == x1) by (bit_vector);
    assert((x2 ^ 0xA4u8) ^ 0xA4u8 == x2) by (bit_vector);
    assert((x3 ^ 0x42u8) ^ 0x42u8 == x3) by (bit_vector);
}

/// The address a binding response reports, as the client reads it.
pub open spec fn response_address(d: Seq<u8>) -> Option<SocketAddress> {
    if is_binding_success(d) {
        mapped_from(d, 20)
    } else {
        None
    }
}

/// Whether the client can read the binding response `d` without running past its end.
pub open spec fn response_readable(d: Seq<u8>) -> bool {
    is_binding_success(d) ==> mapped_readable(d, 20)
}

fn attribute_step(l: u16) -> (step: usize)
    ensures
        step == next_attribute(0, l as int),
        step >= 4,
{
    let pad: usize = if l % 4 != 0 {
        4 - (l % 4) as usize
    } else {
        0
    };
    4 + l as usize + pad
}

/// Whether the client can read the binding response `response` without running past its
/// end (see [`parse_binding_response`]).
pub fn binding_response_readable(response: &[u8]) -> (b: bool)
    ensures
        b == response_readable(response@),
{
    if !(response.len() >= 20 && response[0] == 0x01 && response[1] == 0x01) {
        return true;
    }
    let mut i: usize = 20;
    loop
        invariant
            20 <= i,
            is_binding_success(response@),
            mapped_readable(response@, i as int) == mapped_readable(response@, 20),
        decreases response.len() - i,
    {
        if i > response.len() || response.len() - i < 8 {
            return true;
        }
        let t = read_be16(response[i], response[i + 1]);
        let l = read_be16(response[i + 2], response[i + 3]);
        if t == 0x0020 && l >= 8 && response[i + 5] == 0x01 {
            return response.len() - i >= 12;
        }
        let step = attribute_step(l);
        assert(mapped_readable(response@, i as int) == mapped_readable(
            response@,
            next_attribute(i as int, l as int),
        ));
        if step > response.len() - i {
            assert(next_attribute(i as int, l as int) > response@.len());
            assert(mapped_readable(response@, next_attribute(i as int, l as int)));
            return true;
        }
        i = i + step;
    }
}

/// The public address reported by a STUN binding response, as the client of the server
/// query reads it; an error when the response holds none.
pub fn parse_binding_response(response: &[u8]) -> (r: Result<SocketAddress, Error>)
    requires
        response_readable(response@),
    ensures
        response_address(response@) matches Some(a) ==> r == Ok::<SocketAddress, Error>(a),
        response_address(response@) is None ==> (r matches Err(Error::Network(m)) && m@
            == "Failed to parse STUN response"@),
{
    if response.len() >= 20 && response[0] == 0x01 && response[1] == 0x01 {
        let mut i: usize = 20;
        loop
            invariant
                20 <= i,
                is_binding_success(response@),
                mapped_readable(response@, i as int),
                mapped_from(response@, i as int) == mapped_from(response@, 20),
            ensures
                mapped_from(response@, 20) is None,
            decreases response.len() - i,
        {
            if i > response.len() || response.len() - i < 8 {
                break;
            }
            let t = read_be16(response[i], response[i + 1]);
            let l = read_be16(response[i + 2], response[i + 3]);
            if t == 0x0020 && l >= 8 && response[i + 5] == 0x01 {
                let port = read_be16(response[i + 6], response[i + 7]) ^ 0x2112;
                let ip = IpAddress::V4(
                    response[i + 8] ^ 0x21,
                    response[i + 9] ^ 0x12,
                    response[i + 10] ^ 0xA4,
                    response[i + 11] ^ 0x42,
                );
                return Ok(SocketAddress { ip, port });
            }
            let step = attribute_step(l);
            assert(mapped_from(response@, i as int) == mapped_from(
                response@,
                next_attribute(i as int, l as int),
            ));
            if step > response.len() - i {
                assert(next_attribute(i as int, l as int) > response@.len());
                assert(mapped_from(response@, next_attribute(i as int, l as int)) is None);
                break;
            }
            i = i + step;
        }
    }
    Err(Error::Network(string_from("Failed to parse STUN response")))
}

} // verus!
