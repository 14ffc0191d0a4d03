//! Network addresses held as plain values.

use vstd::prelude::*;
use crate::text::{decimal, push_char, push_chars, push_decimal, push_str};

verus! {

/// An IP address: four octets, or sixteen.
#[derive(Debug, Clone, Copy, PartialEq, Eq, Structural)]
pub enum IpAddress {
    V4(u8, u8, u8, u8),
    V6(u16, u16, u16, u16, u16, u16, u16, u16),
}

/// An IP address with a port.
#[derive(Debug, Clone, Copy, PartialEq, Eq, Structural)]
pub struct SocketAddress {
    pub ip: IpAddress,
    pub port: u16,
}

/// Dotted-decimal notation of an IPv4 address.
pub open spec fn ipv4_text(a: u8, b: u8, c: u8, d: u8) -> Seq<char> {
    decimal(a as nat) + seq!['.'] + decimal(b as nat) + seq!['.'] + decimal(c as nat) + seq!['.']
        + decimal(d as nat)
}

/// Lower-case hexadecimal digit of `d < 16`.
pub open spec fn hex_digit(d: nat) -> char {
    if d < 10 {
        crate::text::digit_char(d)
    } else if d == 10 {
        'a'
    } else if d == 11 {
        'b'
    } else if d == 12 {
        'c'
    } else if d == 13 {
        'd'
    } else if d == 14 {
        'e'
    } else {
        'f'
    }
}

/// Lower-case hexadecimal notation of `n`, without leading zeros (`{:x}`).
pub open spec fn hex_text(n: nat) -> Seq<char>
    decreases n,
{
    if n < 16 {
        seq![hex_digit(n)]
    } else {
        hex_text(n / 16).push(hex_digit(n % 16))
    }
}


/// Groups written in hexadecimal, separated by `:`.
pub open spec fn join_groups(g: Seq<nat>) -> Seq<char>
    decreases g.len(),
{
    if g.len() == 0 {
        Seq::empty()
    } else if g.len() == 1 {
        hex_text(g[0])
    } else {
        join_groups(g.drop_last()) + seq![':'] + hex_text(g.last())
    }
}

/// The first longest run of zero groups among `g[i..]`, given the run in progress
/// (`cur_start`, `cur_len`) and the longest found so far (`best_start`, `best_len`).
pub open spec fn zero_run_from(
    g: Seq<nat>,
    i: nat,
    cur_start: nat,
    cur_len: nat,
    best_start: nat,
    best_len: nat,
) -> (nat, nat)
    decreases g.len() - i,
{
    if i >= g.len() {
        (best_start, best_len)
    } else if g[i as int] == 0 {
        let s = if cur_len == 0 { i } else { cur_start };
        let l = cur_len + 1;
        if l > best_len {
            zero_run_from(g, i + 1, s, l, s, l)
        } else {
            zero_run_from(g, i + 1, s, l, best_start, best_len)
        }
    } else {
        zero_run_from(g, i + 1, 0, 0, best_start, best_len)
    }
}

/// The first longest run of zero groups: its start and length.
pub open spec fn zero_run(g: Seq<nat>) -> (nat, nat) {
    zero_run_from(g, 0, 0, 0, 0, 0)
}

/// Whether the groups of an IPv6 address make an IPv4-mapped address `::ffff:a.b.c.d`.
pub open spec fn is_ipv4_mapped(g: Seq<nat>) -> bool {
    g[0] == 0 && g[1] == 0 && g[2] == 0 && g[3] == 0 && g[4] == 0 && g[5] == 0xffff
}

/// The text `Ipv6Addr` displays (RFC 5952): IPv4-mapped addresses as `::ffff:a.b.c.d`;
/// otherwise the groups in hexadecimal, the first longest run of two or more zero groups
/// written as `::`.
pub open spec fn ipv6_text(g: Seq<nat>) -> Seq<char> {
    if is_ipv4_mapped(g) {
        seq![':', ':', 'f', 'f', 'f', 'f', ':'] + ipv4_text(
            (g[6] / 256) as u8,
            (g[6] % 256) as u8,
            (g[7] / 256) as u8,
            (g[7] % 256) as u8,
        )
    } else {
        let (start, len) = zero_run(g);
        if len > 1 {
            join_groups(g.take(start as int)) + seq![':', ':'] + join_groups(
                g.skip((start + len) as int),
            )
        } else {
            join_groups(g)
        }
    }
}

/// The groups of an IPv6 address, most significant first.
pub open spec fn v6_groups(a: u16, b: u16, c: u16, d: u16, e: u16, f: u16, g: u16, h: u16) -> Seq<
    nat,
> {
    seq![a as nat, b as nat, c as nat, d as nat, e as nat, f as nat, g as nat, h as nat]
}

/// Hexadecimal digits of `n`.
fn hex_chars(n: u16) -> (out: Vec<char>)
    ensures
        out@ == hex_text(n as nat),
    decreases n,
{
    let d = n % 16;
    let c = if d < 10 {
        crate::text::digit(d as u64)
    } else if d == 10 {
        'a'
    } else if d == 11 {
        'b'
    } else if d == 12 {
        'c'
    } else if d == 13 {
        'd'
    } else if d == 14 {
        'e'
    } else {
        'f'
    };
    if n < 16 {
        let mut v: Vec<char> = Vec::new();
        v.push(c);
        assert(v@ =~= seq![hex_digit(n as nat)]);
        v
    } else {
        let mut v = hex_chars(n / 16);
        v.push(c);
        v
    }
}

/// Appends `g[from..to]` joined by `:` to `s`.
fn push_groups(s: &mut String, g: &Vec<u16>, from: usize, to: usize)
    requires
        from <= to <= g.len(),
    ensures
        final(s)@ == old(s)@ + join_groups(
            g@.map_values(|x: u16| x as nat).subrange(from as int, to as int),
        ),
{
    let ghost gs = g@.map_values(|x: u16| x as nat);
    let ghost start = s@;
    let mut i = from;
    while i < to
        invariant
            from <= i <= to,
            to <= g.len(),
            gs == g@.map_values(|x: u16| x as nat),
            s@ == start + join_groups(gs.subrange(from as int, i as int)),
        decreases to - i,
    {
        let ghost before = s@;
        if i > from {
            push_char(s, ':');
        }
        let h = hex_chars(g[i]);
        push_chars(s, &h);
        proof {
            let sub = gs.subrange(from as int, i + 1);
            assert(sub.drop_last() =~= gs.subrange(from as int, i as int));
            assert(sub.last() == g@[i as int] as nat);
            if i == from {
                assert(sub.len() == 1);
                assert(gs.subrange(from as int, i as int).len() == 0);
            }
        }
        i = i + 1;
    }
}

/// Appends dotted-decimal notation of an IPv4 address.
fn push_ipv4(s: &mut String, a: u8, b: u8, c: u8, d: u8)
    ensures
        final(s)@ == old(s)@ + ipv4_text(a, b, c, d),
{
    push_decimal(s, a as u64);
    push_char(s, '.');
    push_decimal(s, b as u64);
    push_char(s, '.');
    push_decimal(s, c as u64);
    push_char(s, '.');
    push_decimal(s, d as u64);
    assert(final(s)@ =~= old(s)@ + ipv4_text(a, b, c, d));
}

/// Appends the `Display` text of an IPv6 address with groups `g`.
fn push_ipv6(s: &mut String, g: &Vec<u16>)
    requires
        g.len() == 8,
    ensures
        final(s)@ == old(s)@ + ipv6_text(g@.map_values(|x: u16| x as nat)),
{
    let ghost gs = g@.map_values(|x: u16| x as nat);
    if g[0] == 0 && g[1] == 0 && g[2] == 0 && g[3] == 0 && g[4] == 0 && g[5] == 0xffff {
        push_str(s, "::ffff:");
        proof {
            reveal_strlit("::ffff:");
        }
        let a = (g[6] / 256) as u8;
        let b = (g[6] % 256) as u8;
        let c = (g[7] / 256) as u8;
        let d = (g[7] % 256) as u8;
        push_ipv4(s, a, b, c, d);
        return;
    }
    let mut best_start: usize = 0;
    let mut best_len: usize = 0;
    let mut cur_start: usize = 0;
    let mut cur_len: usize = 0;
    let mut j: usize = 0;
    while j < 8
        invariant
            j <= 8,
            g@.len() == 8,
            gs == g@.map_values(|x: u16| x as nat),
            cur_len <= j,
            best_len <= j,
            best_start + best_len <= j,
            cur_start + cur_len <= j,
            zero_run(gs) == zero_run_from(
                gs,
                j as nat,
                cur_start as nat,
                cur_len as nat,
                best_start as nat,
                best_len as nat,
            ),
        decreases 8 - j,
    {
        if g[j] == 0 {
            if cur_len == 0 {
                cur_start = j;
            }
            cur_len = cur_len + 1;
            if cur_len > best_len {
                best_start = cur_start;
                best_len = cur_len;
            }
        } else {
            cur_start = 0;
            cur_len = 0;
        }
        j = j + 1;
    }
    assert(zero_run(gs) == (best_start as nat, best_len as nat));
    if best_len > 1 {
        push_groups(s, g, 0, best_start);
        push_str(s, "::");
        proof {
            reveal_strlit("::");
        }
        push_groups(s, g, best_start + best_len, 8);
        assert(gs.subrange(0, best_start as int) =~= gs.take(best_start as int));
        assert(gs.subrange((best_start + best_len) as int, 8) =~= gs.skip(
            (best_start + best_len) as int,
        ));
    } else {
        push_groups(s, g, 0, 8);
        assert(gs.subrange(0, 8) =~= gs);
    }
}

/// The text an IP address displays as.
pub open spec fn ip_text(ip: IpAddress) -> Seq<char> {
    match ip {
        IpAddress::V4(a, b, c, d) => ipv4_text(a, b, c, d),
        IpAddress::V6(a, b, c, d, e, f, g, h) => ipv6_text(v6_groups(a, b, c, d, e, f, g, h)),
    }
}

/// The text a socket address displays as: `ip:port`, or `[ip]:port` for IPv6.
pub open spec fn socket_text(s: SocketAddress) -> Seq<char> {
    match s.ip {
        IpAddress::V4(..) => ip_text(s.ip) + seq![':'] + decimal(s.port as nat),
        IpAddress::V6(..) => seq!['['] + ip_text(s.ip) + seq![']', ':'] + decimal(s.port as nat),
    }
}

/// Appends the text of `ip` to `s`.
pub fn push_ip(s: &mut String, ip: &IpAddress)
    ensures
        final(s)@ == old(s)@ + ip_text(*ip),
{
    match ip {
        IpAddress::V4(a, b, c, d) => {
            push_ipv4(s, *a, *b, *c, *d);
        },
        IpAddress::V6(a, b, c, d, e, f, g, h) => {
            let mut v: Vec<u16> = Vec::new();
            v.push(*a);
            v.push(*b);
            v.push(*c);
            v.push(*d);
            v.push(*e);
            v.push(*f);
            v.push(*g);
            v.push(*h);
            assert(v@.map_values(|x: u16| x as nat) =~= v6_groups(*a, *b, *c, *d, *e, *f, *g, *h));
            push_ipv6(s, &v);
        },
    }
}

/// The text of `ip`.
pub fn ip_to_string(ip: &IpAddress) -> (s: String)
    ensures
        s@ == ip_text(*ip),
{
    let mut s = String::new();
    push_ip(&mut s, ip);
    assert(s@ =~= ip_text(*ip));
    s
}

/// Appends the text of `addr` to `s`.
pub fn push_socket(s: &mut String, addr: &SocketAddress)
    ensures
        final(s)@ == old(s)@ + socket_text(*addr),
{
    match addr.ip {
        IpAddress::V4(..) => {
            push_ip(s, &addr.ip);
            push_char(s, ':');
        },
        IpAddress::V6(..) => {
            push_char(s, '[');
            push_ip(s, &addr.ip);
            push_str(s, "]:");
            proof {
                reveal_strlit("]:");
            }
        },
    }
    push_decimal(s, addr.port as u64);
    assert(final(s)@ =~= old(s)@ + socket_text(*addr));
}

/// The text of `addr`.
pub fn socket_to_string(addr: &SocketAddress) -> (s: String)
    ensures
        s@ == socket_text(*addr),
{
    let mut s = String::new();
    push_socket(&mut s, addr);
    assert(s@ =~= socket_text(*addr));
    s
}

} // verus!
