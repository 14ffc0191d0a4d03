//! Room join links of the command-line client: `room:<room id>@<address>`.

use vstd::prelude::*;
use crate::net::{push_socket, socket_text, IpAddress, SocketAddress};
use crate::p2p::{free_of, is_ip_char, lemma_find_char_in, lemma_free_concat, lemma_ip_free, lemma_split_cons, lemma_split_free, split_on};
use crate::phase1::DEFAULT_PORT;
use crate::room_core::{uuid_text, RoomId};
use crate::text::{chars_of, find, find_char, is_prefix, lemma_find_char, push_char, push_chars, push_str, slice_chars, starts_with, string_from, string_of};

verus! {

/// The UUID `Uuid::parse_str` reads from `text`, if it reads one.
pub uninterp spec fn uuid_parsed(text: Seq<char>) -> Option<u128>;

/// `uuid::Uuid::parse_str(text)` as a 128-bit number (`as_u128`): the UUID it reads, or
/// `None` when it reads none. The hyphenated lower-case text of a UUID (what its `Display`
/// writes) reads back as that UUID.
#[verifier::external_body]
fn parse_uuid(text: &str) -> (r: Option<u128>)
    ensures
        r == uuid_parsed(text@),
        forall|x: u128| text@ == #[trigger] uuid_text(x) ==> r == Some(x),
{
    match uuid::Uuid::parse_str(text) {
        Ok(u) => Some(u.as_u128()),
        Err(_) => None,
    }
}

/// The prefix of a room link.
pub open spec fn room_prefix() -> Seq<char> {
    "room:"@
}

/// The link to join room `room_id` at `address`.
pub open spec fn join_link_text(room_id: u128, address: SocketAddress) -> Seq<char> {
    room_prefix() + uuid_text(room_id) + seq!['@'] + socket_text(address)
}

/// The link to join room `room_id` at `address`.
pub fn join_link(room_id: &RoomId, address: &SocketAddress) -> (s: String)
    ensures
        s@ == join_link_text(room_id@, *address),
{
    let mut s = string_from("room:");
    let id = room_id.to_display_string();
    push_str(&mut s, id.as_str());
    push_char(&mut s, '@');
    push_socket(&mut s, address);
    assert(s@ =~= join_link_text(room_id@, *address));
    s
}

/// The address a join link names when the public one cannot be found.
pub fn fallback_address() -> (a: SocketAddress)
    ensures
        a == (SocketAddress { ip: IpAddress::V4(127, 0, 0, 1), port: DEFAULT_PORT }),
{
    SocketAddress { ip: IpAddress::V4(127, 0, 0, 1), port: DEFAULT_PORT }
}

/// What reading a join link gives: its room and the text of its address; or the error.
pub open spec fn join_link_parsed(link: Seq<char>) -> Result<(u128, Seq<char>), Seq<char>> {
    if !is_prefix(room_prefix(), link) {
        Err("Invalid link format, must start with 'room:'"@)
    } else {
        let parts = split_on(link.skip(5), '@');
        if parts.len() != 2 {
            Err("Invalid link format, missing '@' separator"@)
        } else {
            match uuid_parsed(parts[0]) {
                Some(id) => Ok((id, parts[1])),
                None => Err("Invalid room ID: "@ + parts[0]),
            }
        }
    }
}

/// Reads a join link: the room and the text of the address (which the caller reads as a
/// socket address, `Invalid address: <text>` when it cannot).
pub fn parse_join_link(link: &str) -> (r: Result<(RoomId, String), String>)
    ensures
        match join_link_parsed(link@) {
            Ok((id, addr)) => r matches Ok((room, a)) && room@ == id && a@ == addr,
            Err(m) => r matches Err(e) && e@ == m,
        },
        forall|x: u128, a: SocketAddress|
            #[trigger] join_link_text(x, a) == link@ ==> (r matches Ok((room, t)) && room@ == x
                && t@ == socket_text(a)),
{
    proof {
        assert forall|x: u128, a: SocketAddress| #[trigger] join_link_text(x, a) == link@ implies
            is_prefix(room_prefix(), link@) && split_on(link@.skip(5), '@') == seq![
                uuid_text(x),
                socket_text(a),
            ] by {
            lemma_join_link_parts(x, a);
        }
    }
    let v = chars_of(link);
    let prefix = chars_of("room:");
    proof {
        reveal_strlit("room:");
    }
    if !starts_with(&v, &prefix) {
        return Err(string_from("Invalid link format, must start with 'room:'"));
    }
    let rest = slice_chars(&v, 5, v.len());
    let ghost r = rest@;
    assert(r =~= link@.skip(5));
    proof {
        lemma_find_char_in(r, '@');
    }
    let first = match find(&rest, '@') {
        Some(i) => i,
        None => {
            assert(split_on(r, '@') =~= seq![r]);
            return Err(string_from("Invalid link format, missing '@' separator"));
        },
    };
    let head = slice_chars(&rest, 0, first);
    let tail = slice_chars(&rest, first + 1, rest.len());
    assert(head@ =~= r.take(first as int));
    assert(tail@ =~= r.skip(first as int + 1));
    proof {
        lemma_find_char_in(tail@, '@');
    }
    if find(&tail, '@').is_some() {
        proof {
            let t = tail@;
            let j = find_char(t, '@').unwrap();
            assert(split_on(t, '@') == seq![t.take(j as int)] + split_on(t.skip(j as int + 1), '@'));
            assert(split_on(t.skip(j as int + 1), '@').len() >= 1) by {
                lemma_split_nonempty(t.skip(j as int + 1), '@');
            }
        }
        return Err(string_from("Invalid link format, missing '@' separator"));
    }
    assert(split_on(tail@, '@') =~= seq![tail@]);
    assert(split_on(r, '@') =~= seq![head@, tail@]);
    let room_text = string_of(&head);
    match parse_uuid(room_text.as_str()) {
        Some(id) => Ok((RoomId::from(id), string_of(&tail))),
        None => {
            let mut e = string_from("Invalid room ID: ");
            push_str(&mut e, room_text.as_str());
            Err(e)
        },
    }
}

proof fn lemma_split_nonempty(s: Seq<char>, c: char)
    ensures
        split_on(s, c).len() >= 1,
    decreases s.len(),
{
    lemma_find_char_in(s, c);
    if let Some(i) = find_char(s, c) {
        lemma_split_nonempty(s.skip(i as int + 1), c);
    }
}

proof fn lemma_hex_fixed_free(x: nat, n: nat, c: char)
    requires
        !is_ip_char(c),
    ensures
        free_of(crate::room_core::hex_fixed(x, n), c),
    decreases n,
{
    if n > 0 {
        lemma_hex_fixed_free(x / 16, (n - 1) as nat, c);
        let h = crate::room_core::hex_fixed(x / 16, (n - 1) as nat);
        assert forall|i: int| 0 <= i < crate::room_core::hex_fixed(x, n).len() implies crate::room_core::hex_fixed(x, n)[i] != c by {
            if i < h.len() {
                assert(crate::room_core::hex_fixed(x, n)[i] == h[i]);
            }
        }
    }
}

proof fn lemma_uuid_free(x: u128, c: char)
    requires
        !is_ip_char(c),
        c != '-',
    ensures
        free_of(uuid_text(x), c),
{
    let h = crate::room_core::hex_fixed(x as nat, 32);
    crate::room_core::lemma_hex_fixed_len(x as nat, 32);
    lemma_hex_fixed_free(x as nat, 32, c);
    let u = uuid_text(x);
    assert forall|i: int| 0 <= i < u.len() implies u[i] != c by {
        assert(u == h.take(8) + seq!['-'] + h.subrange(8, 12) + seq!['-'] + h.subrange(12, 16)
            + seq!['-'] + h.subrange(16, 20) + seq!['-'] + h.subrange(20, 32));
        if i < 8 {
            assert(u[i] == h[i]);
        } else if i == 8 || i == 13 || i == 18 || i == 23 {
        } else if i < 13 {
            assert(u[i] == h[i - 1]);
        } else if i < 18 {
            assert(u[i] == h[i - 2]);
        } else if i < 23 {
            assert(u[i] == h[i - 3]);
        } else {
            assert(u[i] == h[i - 4]);
        }
    }
}

proof fn lemma_socket_free(a: SocketAddress, c: char)
    requires
        !is_ip_char(c),
        c != '[',
        c != ']',
    ensures
        free_of(socket_text(a), c),
{
    lemma_ip_free(a.ip, c);
    crate::p2p::lemma_decimal_free(a.port as nat, c);
    match a.ip {
        IpAddress::V4(..) => {
            lemma_free_concat(crate::net::ip_text(a.ip), seq![':'], c);
            lemma_free_concat(crate::net::ip_text(a.ip) + seq![':'], crate::text::decimal(a.port as nat), c);
        },
        IpAddress::V6(..) => {
            lemma_free_concat(seq!['['], crate::net::ip_text(a.ip), c);
            lemma_free_concat(seq!['['] + crate::net::ip_text(a.ip), seq![']', ':'], c);
            lemma_free_concat(
                seq!['['] + crate::net::ip_text(a.ip) + seq![']', ':'],
                crate::text::decimal(a.port as nat),
                c,
            );
        },
    }
}

/// A join link starts with `room:`, and what follows splits at `@` into the room's text and
/// the address's text.
pub proof fn lemma_join_link_parts(x: u128, a: SocketAddress)
    ensures
        is_prefix(room_prefix(), join_link_text(x, a)),
        split_on(join_link_text(x, a).skip(5), '@') == seq![uuid_text(x), socket_text(a)],
{
    reveal_strlit("room:");
    let l = join_link_text(x, a);
    assert(l.take(5) =~= room_prefix());
    assert(l.skip(5) =~= uuid_text(x) + seq!['@'] + socket_text(a));
    lemma_uuid_free(x, '@');
    lemma_socket_free(a, '@');
    lemma_split_free(socket_text(a), '@');
    lemma_split_cons(uuid_text(x), socket_text(a), '@');
}

} // verus!
