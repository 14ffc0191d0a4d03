//! Sessions of peers: the session error type, the table of peers a session keeps, how the
//! host's announcements change it, the host election, and whom the session manager sends
//! to.

use vstd::prelude::*;
use crate::net::IpAddress;
use crate::p2p::{ConnectionState, parse_connection_link_checked, link_checked, link_error_text, link_fields, ConnectionLink, LinkError};
use crate::participant_list::Participant;
use crate::text::{chars_eq, chars_of, push_str, string_from};

verus! {

/// Errors of session operations.
#[derive(Debug, Clone, PartialEq, Eq)]
pub enum SessionError {
    CreationError(String),
    JoinError(String),
    LeaveError(String),
    NoActiveSession,
    NetworkError(String),
    UiError(String),
}

/// The text a session error displays as.
pub open spec fn session_error_text(e: SessionError) -> Seq<char> {
    match e {
        SessionError::CreationError(m) => "Failed to create session: "@ + m@,
        SessionError::JoinError(m) => "Failed to join session: "@ + m@,
        SessionError::LeaveError(m) => "Failed to leave session: "@ + m@,
        SessionError::NoActiveSession => "No active session"@,
        SessionError::NetworkError(m) => "Network error: "@ + m@,
        SessionError::UiError(m) => "UI error: "@ + m@,
    }
}

impl SessionError {
    /// The text this error displays as.
    pub fn to_display_string(&self) -> (s: String)
        ensures
            s@ == session_error_text(*self),
    {
        let (prefix, m) = match self {
            SessionError::CreationError(m) => ("Failed to create session: ", m.as_str()),
            SessionError::JoinError(m) => ("Failed to join session: ", m.as_str()),
            SessionError::LeaveError(m) => ("Failed to leave session: ", m.as_str()),
            SessionError::NoActiveSession => {
                return string_from("No active session");
            },
            SessionError::NetworkError(m) => ("Network error: ", m.as_str()),
            SessionError::UiError(m) => ("UI error: ", m.as_str()),
        };
        let mut s = string_from(prefix);
        push_str(&mut s, m);
        s
    }
}

/// A communication session: its identifier, the link others join with, the participants,
/// whether we host it, the original host and when it was created (seconds since the Unix
/// epoch).
#[derive(Debug, Clone)]
pub struct Session {
    pub id: String,
    pub connection_link: String,
    pub participants: Vec<Participant>,
    pub is_host: bool,
    pub original_host_id: String,
    pub created_at: u64,
}

/// A peer of a session, as the session table keeps it.
#[derive(Debug, Clone)]
pub struct Peer {
    /// Unique identifier.
    pub id: String,
    /// Display name.
    pub name: String,
    /// Host of the peer's endpoint, as text.
    pub ip: String,
    /// Port of the peer's endpoint.
    pub port: u16,
    /// Public key for secure communication.
    pub public_key: [u8; 32],
    /// Whether the peer is the session's host.
    pub is_host: bool,
    /// When the peer joined, in seconds since the Unix epoch.
    pub joined_at: u64,
}

/// Announcements about the peers of a session.
#[derive(Debug, Clone)]
pub enum PeerUpdate {
    /// The host's list of the peers.
    PeerList { peers: Vec<Peer> },
    /// A peer joined.
    NewPeer { peer: Peer },
    /// A peer left.
    PeerLeft { peer_id: String },
}

/// The peers of a session, by identifier, as seen by peer `self_id`.
pub struct PeerTable {
    self_id: String,
    peers: Vec<Peer>,
}

/// The identifiers of peers, in order.
pub open spec fn ids(v: Seq<Peer>) -> Seq<Seq<char>> {
    v.map_values(|p: Peer| p.id@)
}

/// The peer with identifier `id` among `v`, if any.
pub open spec fn find_peer(v: Seq<Peer>, id: Seq<char>) -> Option<Peer>
    decreases v.len(),
{
    if v.len() == 0 {
        None
    } else if v.last().id@ == id {
        Some(v.last())
    } else {
        find_peer(v.drop_last(), id)
    }
}

/// The table as a map from identifiers to peers.
pub open spec fn table_map(v: Seq<Peer>) -> Map<Seq<char>, Peer> {
    Map::new(|id: Seq<char>| find_peer(v, id) is Some, |id: Seq<char>| find_peer(v, id).unwrap())
}

/// Whether no two peers share an identifier.
pub open spec fn unique_ids(v: Seq<Peer>) -> bool {
    forall|i: int, j: int| 0 <= i < j < v.len() ==> #[trigger] v[i].id@ != #[trigger] v[j].id@
}

proof fn lemma_find_peer(v: Seq<Peer>, id: Seq<char>)
    ensures
        find_peer(v, id) matches Some(p) ==> p.id@ == id && exists|i: int| 0 <= i < v.len() && v[i] == p,
        find_peer(v, id) is None ==> forall|i: int| 0 <= i < v.len() ==> v[i].id@ != id,
    decreases v.len(),
{
    if v.len() > 0 {
        lemma_find_peer(v.drop_last(), id);
        if v.last().id@ != id {
            if let Some(p) = find_peer(v.drop_last(), id) {
                let i = choose|i: int| 0 <= i < v.drop_last().len() && v.drop_last()[i] == p;
                assert(v[i] == p);
            } else {
                assert forall|i: int| 0 <= i < v.len() implies v[i].id@ != id by {
                    if i < v.len() - 1 {
                        assert(v[i] == v.drop_last()[i]);
                    }
                }
            }
        } else {
            assert(v[v.len() - 1] == v.last());
        }
    }
}

proof fn lemma_find_peer_at(v: Seq<Peer>, i: int)
    requires
        unique_ids(v),
        0 <= i < v.len(),
    ensures
        find_peer(v, v[i].id@) == Some(v[i]),
    decreases v.len(),
{
    if i < v.len() - 1 {
        assert(v.last().id@ != v[i].id@) by {
            assert(v[i].id@ != v[v.len() - 1].id@);
        }
        assert(unique_ids(v.drop_last())) by {
            assert forall|a: int, b: int| 0 <= a < b < v.drop_last().len() implies #[trigger] v.drop_last()[a].id@ != #[trigger] v.drop_last()[b].id@ by {
                assert(v[a].id@ != v[b].id@);
            }
        }
        lemma_find_peer_at(v.drop_last(), i);
        assert(v.drop_last()[i] == v[i]);
    }
}

impl PeerTable {
    /// Well-formed: no two peers share an identifier.
    pub closed spec fn wf(&self) -> bool {
        unique_ids(self.peers@)
    }

    /// Our own identifier.
    pub closed spec fn me(&self) -> Seq<char> {
        self.self_id@
    }

    /// The peers, in the order the table keeps them.
    pub closed spec fn order(&self) -> Seq<Peer> {
        self.peers@
    }

    /// The peers, by identifier.
    pub closed spec fn table(&self) -> Map<Seq<char>, Peer> {
        table_map(self.peers@)
    }

    /// An empty table for peer `self_id`.
    pub fn new(self_id: String) -> (t: Self)
        ensures
            t.wf(),
            t.me() == self_id@,
            t.table() == Map::<Seq<char>, Peer>::empty(),
    {
        let t = PeerTable { self_id, peers: Vec::new() };
        assert(t.table() =~= Map::<Seq<char>, Peer>::empty());
        t
    }

    /// Our own identifier.
    pub fn self_id(&self) -> (r: &String)
        ensures
            r@ == self.me(),
    {
        &self.self_id
    }

    fn position(&self, id: &str) -> (r: Option<usize>)
        requires
            self.wf(),
        ensures
            r matches Some(i) ==> i < self.peers@.len() && self.peers@[i as int].id@ == id@,
            r is None ==> forall|i: int| 0 <= i < self.peers@.len() ==> self.peers@[i].id@ != id@,
    {
        let key = chars_of(id);
        let mut i: usize = 0;
        while i < self.peers.len()
            invariant
                i <= self.peers.len(),
                key@ == id@,
                forall|k: int| 0 <= k < i ==> self.peers@[k].id@ != id@,
            decreases self.peers.len() - i,
        {
            let other = chars_of(self.peers[i].id.as_str());
            if chars_eq(&other, &key) {
                return Some(i);
            }
            i = i + 1;
        }
        None
    }

    /// The peer with identifier `id`, if any.
    pub fn get(&self, id: &str) -> (r: Option<Peer>)
        requires
            self.wf(),
        ensures
            r == (if self.table().contains_key(id@) {
                Some(self.table()[id@])
            } else {
                None::<Peer>
            }),
    {
        proof {
            lemma_find_peer(self.peers@, id@);
        }
        match self.position(id) {
            Some(i) => {
                proof {
                    lemma_find_peer_at(self.peers@, i as int);
                }
                Some(copy_peer(&self.peers[i]))
            },
            None => None,
        }
    }

    /// Puts `peer` in the table, in place of any peer with its identifier.
    pub fn insert(&mut self, peer: Peer)
        requires
            old(self).wf(),
        ensures
            final(self).wf(),
            final(self).me() == old(self).me(),
            final(self).table() == old(self).table().insert(peer.id@, peer),
    {
        let ghost old_peers = self.peers@;
        match self.position(peer.id.as_str()) {
            Some(i) => {
                let ghost id = peer.id@;
                self.peers.set(i, peer);
                proof {
                    let v = self.peers@;
                    assert(unique_ids(v)) by {
                        assert forall|a: int, b: int| 0 <= a < b < v.len() implies #[trigger] v[a].id@ != #[trigger] v[b].id@ by {
                            assert(old_peers[a].id@ != old_peers[b].id@);
                        }
                    }
                    assert forall|k: Seq<char>| #[trigger] find_peer(v, k) == (if k == id { Some(v[i as int]) } else { find_peer(old_peers, k) }) by {
                        lemma_find_peer(v, k);
                        lemma_find_peer(old_peers, k);
                        if let Some(p) = find_peer(v, k) {
                            let j = choose|j: int| 0 <= j < v.len() && v[j] == p;
                            lemma_find_peer_at(v, j);
                            if j != i {
                                lemma_find_peer_at(old_peers, j);
                            }
                        }
                        if let Some(p) = find_peer(old_peers, k) {
                            let j = choose|j: int| 0 <= j < old_peers.len() && old_peers[j] == p;
                            if j != i {
                                lemma_find_peer_at(v, j);
                            } else {
                                lemma_find_peer_at(v, j);
                            }
                        }
                    }
                    assert(table_map(v) =~= table_map(old_peers).insert(id, v[i as int]));
                }
            },
            None => {
                let ghost id = peer.id@;
                self.peers.push(peer);
                proof {
                    let v = self.peers@;
                    assert(unique_ids(v)) by {
                        assert forall|a: int, b: int| 0 <= a < b < v.len() implies #[trigger] v[a].id@ != #[trigger] v[b].id@ by {
                            if b < old_peers.len() {
                                assert(old_peers[a].id@ != old_peers[b].id@);
                            }
                        }
                    }
                    assert(v.drop_last() =~= old_peers);
                    assert forall|k: Seq<char>| #[trigger] find_peer(v, k) == (if k == id { Some(v.last()) } else { find_peer(old_peers, k) }) by {}
                    assert(table_map(v) =~= table_map(old_peers).insert(id, v.last()));
                }
            },
        }
    }

    /// Forgets the peer with identifier `id`, if any.
    pub fn remove(&mut self, id: &str)
        requires
            old(self).wf(),
        ensures
            final(self).wf(),
            final(self).me() == old(self).me(),
            final(self).table() == old(self).table().remove(id@),
    {
        let ghost old_peers = self.peers@;
        proof {
            lemma_find_peer(old_peers, id@);
        }
        match self.position(id) {
            Some(i) => {
                self.peers.remove(i);
                proof {
                    let v = self.peers@;
                    assert(v =~= old_peers.remove(i as int));
                    assert(unique_ids(v)) by {
                        assert forall|a: int, b: int| 0 <= a < b < v.len() implies #[trigger] v[a].id@ != #[trigger] v[b].id@ by {
                            let a0 = if a < i { a } else { a + 1 };
                            let b0 = if b < i { b } else { b + 1 };
                            assert(v[a] == old_peers[a0] && v[b] == old_peers[b0]);
                            assert(old_peers[a0].id@ != old_peers[b0].id@);
                        }
                    }
                    assert forall|k: Seq<char>| #[trigger] find_peer(v, k) == (if k == id@ { None } else { find_peer(old_peers, k) }) by {
                        lemma_find_peer(v, k);
                        lemma_find_peer(old_peers, k);
                        if let Some(p) = find_peer(v, k) {
                            let j = choose|j: int| 0 <= j < v.len() && v[j] == p;
                            lemma_find_peer_at(v, j);
                            let j0 = if j < i { j } else { j + 1 };
                            assert(v[j] == old_peers[j0]);
                            lemma_find_peer_at(old_peers, j0);
                            assert(old_peers[j0].id@ != old_peers[i as int].id@);
                        }
                        if let Some(p) = find_peer(old_peers, k) {
                            let j = choose|j: int| 0 <= j < old_peers.len() && old_peers[j] == p;
                            if j != i {
                                let j1 = if j < i { j } else { j - 1 };
                                assert(v[j1] == old_peers[j]);
                                lemma_find_peer_at(v, j1);
                            }
                        }
                    }
                    assert(table_map(v) =~= table_map(old_peers).remove(id@));
                }
            },
            None => {
                proof {
                    assert forall|k: Seq<char>| #[trigger] find_peer(old_peers, k) == (if k == id@ { None } else { find_peer(old_peers, k) }) by {}
                    assert(table_map(old_peers) =~= table_map(old_peers).remove(id@));
                }
            },
        }
    }
}

/// The table after putting in, in order, the peers of `list` that are not `me`.
pub open spec fn with_listed(m: Map<Seq<char>, Peer>, list: Seq<Peer>, me: Seq<char>) -> Map<
    Seq<char>,
    Peer,
>
    decreases list.len(),
{
    if list.len() == 0 {
        m
    } else {
        let rest = with_listed(m, list.drop_last(), me);
        if list.last().id@ != me {
            rest.insert(list.last().id@, list.last())
        } else {
            rest
        }
    }
}

/// The peer that joined first among `v` (the first of the earliest, strictly before the
/// largest time), if any.
pub open spec fn oldest(v: Seq<Peer>) -> Option<Peer>
    decreases v.len(),
{
    if v.len() == 0 {
        None
    } else {
        match oldest(v.drop_last()) {
            Some(p) => if v.last().joined_at < p.joined_at {
                Some(v.last())
            } else {
                Some(p)
            },
            None => if v.last().joined_at < u64::MAX {
                Some(v.last())
            } else {
                None
            },
        }
    }
}

fn copy_peer(p: &Peer) -> (q: Peer)
    ensures
        q == *p,
{
    Peer {
        id: p.id.clone(),
        name: p.name.clone(),
        ip: p.ip.clone(),
        port: p.port,
        public_key: p.public_key,
        is_host: p.is_host,
        joined_at: p.joined_at,
    }
}

/// Where to join a session: the host's identifier and the link's fields.
#[derive(Debug, Clone)]
pub struct JoinTarget {
    pub host_id: String,
    pub link: ConnectionLink,
}

/// Reads a connection link to join its session, `address` being what reading its address
/// text as an IP address gave: the host is named `host-` and the session identifier; an
/// unreadable link is a join error.
pub fn plan_join(link: &str, address: Option<IpAddress>) -> (r: Result<JoinTarget, SessionError>)
    ensures
        address is Some ==> (link_fields(link@) matches Some(f) ==> (r matches Ok(t)
            && t.host_id@ == "host-"@ + f.2 && t.link.ip@ == f.0 && t.link.port == f.1
            && t.link.session_id@ == f.2 && t.link.public_key@ == f.3)),
        r matches Ok(t) ==> link_checked(link@, address, Ok(t.link)) && t.host_id@ == "host-"@
            + t.link.session_id@,
        r matches Err(e) ==> exists|le: LinkError|
            link_checked(link@, address, Err(le)) && #[trigger] link_error_text(le)
                == e->JoinError_0@.skip("Invalid link: "@.len() as int) && e is JoinError
                && e->JoinError_0@ == "Invalid link: "@ + link_error_text(le),
{
    match parse_connection_link_checked(link, address) {
        Ok(l) => {
            let mut host_id = string_from("host-");
            push_str(&mut host_id, l.session_id.as_str());
            Ok(JoinTarget { host_id, link: l })
        },
        Err(le) => {
            let mut m = string_from("Invalid link: ");
            let t = le.to_display_string();
            push_str(&mut m, t.as_str());
            proof {
                reveal_strlit("Invalid link: ");
                assert(("Invalid link: "@ + link_error_text(le)).skip("Invalid link: "@.len() as int)
                    =~= link_error_text(le));
            }
            Err(SessionError::JoinError(m))
        },
    }
}

impl PeerTable {
    /// Applies an announcement: the peers of a list, or a new peer, are put in (never
    /// ourselves); a peer that left is removed. A peer that left is gone when the table is
    /// searched for it as host, so no election follows.
    pub fn apply_update(&mut self, update: PeerUpdate)
        requires
            old(self).wf(),
        ensures
            final(self).wf(),
            final(self).me() == old(self).me(),
            match update {
                PeerUpdate::PeerList { peers } => final(self).table() == with_listed(
                    old(self).table(),
                    peers@,
                    old(self).me(),
                ),
                PeerUpdate::NewPeer { peer } => final(self).table() == if peer.id@
                    != old(self).me() {
                    old(self).table().insert(peer.id@, peer)
                } else {
                    old(self).table()
                },
                PeerUpdate::PeerLeft { peer_id } => final(self).table() == old(self).table().remove(
                    peer_id@,
                ),
            },
    {
        let me = chars_of(self.self_id.as_str());
        match update {
            PeerUpdate::PeerList { peers } => {
                let ghost start = self.table();
                let mut i: usize = 0;
                while i < peers.len()
                    invariant
                        i <= peers.len(),
                        self.wf(),
                        self.me() == old(self).me(),
                        me@ == self.me(),
                        self.table() == with_listed(start, peers@.take(i as int), self.me()),
                    decreases peers.len() - i,
                {
                    assert(peers@.take(i + 1).drop_last() =~= peers@.take(i as int));
                    assert(peers@.take(i + 1).last() == peers@[i as int]);
                    let p = copy_peer(&peers[i]);
                    let pid = chars_of(p.id.as_str());
                    if !chars_eq(&pid, &me) {
                        self.insert(p);
                    }
                    i = i + 1;
                }
                assert(peers@.take(peers.len() as int) =~= peers@);
            },
            PeerUpdate::NewPeer { peer } => {
                let pid = chars_of(peer.id.as_str());
                if !chars_eq(&pid, &me) {
                    self.insert(peer);
                }
            },
            PeerUpdate::PeerLeft { peer_id } => {
                self.remove(peer_id.as_str());
                let gone = chars_of(peer_id.as_str());
                let mut new_host = false;
                let mut i: usize = 0;
                proof {
                    assert(!table_map(self.peers@).contains_key(peer_id@));
                    assert(find_peer(self.peers@, peer_id@) is None);
                    lemma_find_peer(self.peers@, peer_id@);
                }
                while i < self.peers.len()
                    invariant
                        i <= self.peers.len(),
                        gone@ == peer_id@,
                        !new_host,
                        forall|k: int| 0 <= k < self.peers@.len() ==> self.peers@[k].id@ != peer_id@,
                    decreases self.peers.len() - i,
                {
                    let other = chars_of(self.peers[i].id.as_str());
                    if self.peers[i].is_host && chars_eq(&other, &gone) {
                        new_host = true;
                        break;
                    }
                    i = i + 1;
                }
                if new_host {
                    self.elect_host();
                }
            },
        }
    }

    /// Host election: the peer that joined first becomes host if it is us.
    pub fn elect_host(&mut self)
        requires
            old(self).wf(),
        ensures
            final(self).wf(),
            final(self).me() == old(self).me(),
            match oldest(old(self).order()) {
                Some(o) => if o.id@ == old(self).me() && old(self).table().contains_key(old(self).me()) {
                    final(self).table() == old(self).table().insert(
                        old(self).me(),
                        Peer { is_host: true, ..old(self).table()[old(self).me()] },
                    )
                } else {
                    final(self).table() == old(self).table()
                },
                None => final(self).table() == old(self).table(),
            },
    {
        let mut oldest_time: u64 = u64::MAX;
        let mut oldest_at: Option<usize> = None;
        let mut i: usize = 0;
        while i < self.peers.len()
            invariant
                i <= self.peers.len(),
                oldest(self.peers@.take(i as int)) == match oldest_at {
                    Some(k) => Some(self.peers@[k as int]),
                    None => None::<Peer>,
                },
                oldest_at matches Some(k) ==> k < i && oldest_time == self.peers@[k as int].joined_at,
                oldest_at is None ==> oldest_time == u64::MAX,
            decreases self.peers.len() - i,
        {
            assert(self.peers@.take(i + 1).drop_last() =~= self.peers@.take(i as int));
            assert(self.peers@.take(i + 1).last() == self.peers@[i as int]);
            if self.peers[i].joined_at < oldest_time {
                oldest_time = self.peers[i].joined_at;
                oldest_at = Some(i);
            }
            i = i + 1;
        }
        assert(self.peers@.take(self.peers.len() as int) =~= self.peers@);
        match oldest_at {
            Some(k) => {
                let me = chars_of(self.self_id.as_str());
                let oid = chars_of(self.peers[k].id.as_str());
                if chars_eq(&oid, &me) {
                    proof {
                        lemma_find_peer_at(self.peers@, k as int);
                    }
                    let p = &self.peers[k];
                    let updated = Peer {
                        id: p.id.clone(),
                        name: p.name.clone(),
                        ip: p.ip.clone(),
                        port: p.port,
                        public_key: p.public_key,
                        is_host: true,
                        joined_at: p.joined_at,
                    };
                    self.insert(updated);
                }
            },
            None => {},
        }
    }
}

/// The peer we are in a session we created: named `Me`, at our public endpoint, host.
pub open spec fn creator_peer(p: Peer, me: Seq<char>, ip: Seq<char>, port: u16, key: Seq<u8>, t: u64) -> bool {
    p.id@ == me && p.name@ == "Me"@ && p.ip@ == ip && p.port == port && p.public_key@ == key
        && p.is_host && p.joined_at == t
}

impl PeerTable {
    /// Records the session we created at time `timestamp`: ourselves, as host.
    pub fn record_create(&mut self, ip: String, port: u16, public_key: [u8; 32], timestamp: u64)
        requires
            old(self).wf(),
        ensures
            final(self).wf(),
            final(self).me() == old(self).me(),
            final(self).table().dom() == old(self).table().dom().insert(old(self).me()),
            creator_peer(final(self).table()[old(self).me()], old(self).me(), ip@, port, public_key@, timestamp),
            forall|k: Seq<char>| k != old(self).me() && #[trigger] old(self).table().contains_key(k)
                ==> final(self).table()[k] == old(self).table()[k],
    {
        let me = Peer {
            id: self.self_id.clone(),
            name: string_from("Me"),
            ip,
            port,
            public_key,
            is_host: true,
            joined_at: timestamp,
        };
        self.insert(me);
    }

    /// Records the session of `target` joined at time `timestamp`: the host, who joined a
    /// second before us, then ourselves, at no endpoint and with no key yet (our own entry
    /// replaces the host's should the two ids be the same).
    pub fn record_join(&mut self, target: &JoinTarget, timestamp: u64)
        requires
            old(self).wf(),
            timestamp >= 1,
        ensures
            final(self).wf(),
            final(self).me() == old(self).me(),
            final(self).table().dom() == old(self).table().dom().insert(target.host_id@).insert(
                old(self).me(),
            ),
            target.host_id@ != old(self).me() ==> ({
                let h = final(self).table()[target.host_id@];
                &&& h.id@ == target.host_id@
                &&& h.name@ == "Host"@
                &&& h.ip@ == target.link.ip@
                &&& h.port == target.link.port
                &&& h.public_key == target.link.public_key
                &&& h.is_host
                &&& h.joined_at == timestamp - 1
            }),
            ({
                let m = final(self).table()[old(self).me()];
                &&& m.id@ == old(self).me()
                &&& m.name@ == "Me"@
                &&& m.ip@ == "0.0.0.0"@
                &&& m.port == 0
                &&& m.public_key@ == seq![0u8; 32]
                &&& !m.is_host
                &&& m.joined_at == timestamp
            }),
            forall|k: Seq<char>|
                k != old(self).me() && k != target.host_id@ && #[trigger] old(self).table().contains_key(k)
                    ==> final(self).table()[k] == old(self).table()[k],
    {
        let host = Peer {
            id: target.host_id.clone(),
            name: string_from("Host"),
            ip: target.link.ip.clone(),
            port: target.link.port,
            public_key: target.link.public_key,
            is_host: true,
            joined_at: timestamp - 1,
        };
        self.insert(host);
        let zeros: [u8; 32] = [0u8; 32];
        assert(zeros@ =~= seq![0u8; 32]);
        let me = Peer {
            id: self.self_id.clone(),
            name: string_from("Me"),
            ip: string_from("0.0.0.0"),
            port: 0,
            public_key: zeros,
            is_host: false,
            joined_at: timestamp,
        };
        self.insert(me);
    }

    /// Forgets every peer.
    pub fn clear(&mut self)
        ensures
            final(self).wf(),
            final(self).me() == old(self).me(),
            final(self).table() == Map::<Seq<char>, Peer>::empty(),
    {
        self.peers = Vec::new();
        assert(table_map(self.peers@) =~= Map::<Seq<char>, Peer>::empty());
    }

    /// Whom to connect to for peer `peer_id`: an error for an unknown peer, nothing for
    /// ourselves or a peer already connected, an error outside a session; otherwise the peer.
    pub fn plan_connect(&self, peer_id: &str, already_connected: bool, in_session: bool) -> (r:
        Result<Option<Peer>, SessionError>)
        requires
            self.wf(),
        ensures
            !self.table().contains_key(peer_id@) ==> (r matches Err(SessionError::NetworkError(m))
                && m@ == "Peer not found"@),
            self.table().contains_key(peer_id@) ==> if self.table()[peer_id@].id@ == self.me()
                || already_connected {
                r == Ok::<Option<Peer>, SessionError>(None)
            } else if !in_session {
                r == Err::<Option<Peer>, SessionError>(SessionError::NoActiveSession)
            } else {
                r == Ok::<Option<Peer>, SessionError>(Some(self.table()[peer_id@]))
            },
    {
        let peer = match self.get(peer_id) {
            Some(p) => p,
            None => {
                return Err(SessionError::NetworkError(string_from("Peer not found")));
            },
        };
        let pid = chars_of(peer.id.as_str());
        let me = chars_of(self.self_id.as_str());
        if chars_eq(&pid, &me) {
            return Ok(None);
        }
        if already_connected {
            return Ok(None);
        }
        if !in_session {
            return Err(SessionError::NoActiveSession);
        }
        Ok(Some(peer))
    }
}

/// A link of the session manager: the peer it goes to and whether it is up.
#[derive(Debug, Clone)]
pub struct LinkStatus {
    pub peer_id: String,
    pub connected: bool,
}

/// The peers of `links`, in order, whose link is up, other than `me` and `skip`.
pub open spec fn up_links(links: Seq<LinkStatus>, me: Seq<char>, skip: Option<Seq<char>>) -> Seq<
    Seq<char>,
>
    decreases links.len(),
{
    if links.len() == 0 {
        Seq::empty()
    } else {
        let rest = up_links(links.drop_last(), me, skip);
        let l = links.last();
        if l.connected && l.peer_id@ != me && skip != Some(l.peer_id@) {
            rest.push(l.peer_id@)
        } else {
            rest
        }
    }
}

fn up_link_ids(links: &Vec<LinkStatus>, me: &str, skip: Option<&str>) -> (v: Vec<String>)
    ensures
        v@.map_values(|s: String| s@) == up_links(
            links@,
            me@,
            match skip {
                Some(x) => Some(x@),
                None => None,
            },
        ),
{
    let ghost sk = match skip {
        Some(x) => Some(x@),
        None => None::<Seq<char>>,
    };
    let mine = chars_of(me);
    let other = match skip {
        Some(x) => Some(chars_of(x)),
        None => None,
    };
    let mut v: Vec<String> = Vec::new();
    let mut i: usize = 0;
    while i < links.len()
        invariant
            i <= links.len(),
            mine@ == me@,
            sk == match skip {
                Some(x) => Some(x@),
                None => None::<Seq<char>>,
            },
            other matches Some(o) ==> sk == Some(o@),
            other is None ==> sk is None,
            v@.map_values(|s: String| s@) == up_links(links@.take(i as int), me@, sk),
        decreases links.len() - i,
    {
        let l = &links[i];
        let id = chars_of(l.peer_id.as_str());
        let skipped = match &other {
            Some(o) => chars_eq(&id, o),
            None => false,
        };
        assert(links@.take(i + 1).drop_last() =~= links@.take(i as int));
        let ghost before = v@;
        if l.connected && !chars_eq(&id, &mine) && !skipped {
            v.push(l.peer_id.clone());
            assert(v@.map_values(|s: String| s@) =~= before.map_values(|s: String| s@).push(
                l.peer_id@,
            ));
        }
        i = i + 1;
    }
    assert(links@.take(links.len() as int) =~= links@);
    v
}

/// Whom the session's host sends the peer list to: every other peer whose link is up.
/// `host` is whether we host the session, `None` outside a session; only the host sends.
pub fn sync_targets(host: Option<bool>, me: &str, links: &Vec<LinkStatus>) -> (r: Result<
    Vec<String>,
    SessionError,
>)
    ensures
        host is None ==> r == Err::<Vec<String>, SessionError>(SessionError::NoActiveSession),
        host == Some(false) ==> (r matches Ok(v) && v@.len() == 0),
        host == Some(true) ==> (r matches Ok(v) && v@.map_values(|s: String| s@) == up_links(
            links@,
            me@,
            None,
        )),
{
    match host {
        None => Err(SessionError::NoActiveSession),
        Some(false) => Ok(Vec::new()),
        Some(true) => Ok(up_link_ids(links, me, None)),
    }
}

/// Whom the session's host tells that `new_peer` joined: every other peer whose link is up,
/// but the new one. Only the host sends.
pub fn new_peer_targets(host: Option<bool>, me: &str, new_peer: &str, links: &Vec<LinkStatus>) -> (r:
    Result<Vec<String>, SessionError>)
    ensures
        host is None ==> r == Err::<Vec<String>, SessionError>(SessionError::NoActiveSession),
        host == Some(false) ==> (r matches Ok(v) && v@.len() == 0),
        host == Some(true) ==> (r matches Ok(v) && v@.map_values(|s: String| s@) == up_links(
            links@,
            me@,
            Some(new_peer@),
        )),
{
    match host {
        None => Err(SessionError::NoActiveSession),
        Some(false) => Ok(Vec::new()),
        Some(true) => Ok(up_link_ids(links, me, Some(new_peer))),
    }
}

/// Whether some link is up.
pub open spec fn some_up(links: Seq<LinkStatus>) -> bool {
    exists|i: int| 0 <= i < links.len() && links[i].connected
}

fn any_up(links: &Vec<LinkStatus>) -> (b: bool)
    ensures
        b == some_up(links@),
{
    let mut i: usize = 0;
    while i < links.len()
        invariant
            i <= links.len(),
            forall|j: int| 0 <= j < i ==> !links@[j].connected,
        decreases links.len() - i,
    {
        if links[i].connected {
            return true;
        }
        i = i + 1;
    }
    false
}

/// Whether the session can carry audio: outside a session never; with no links, when we
/// host it; otherwise when some link is up. `host` is `None` outside a session.
pub fn has_active_connection(host: Option<bool>, links: &Vec<LinkStatus>) -> (b: bool)
    ensures
        b == match host {
            None => false,
            Some(h) => if links@.len() == 0 {
                h
            } else {
                some_up(links@)
            },
        },
{
    match host {
        None => false,
        Some(h) => if links.len() == 0 {
            h
        } else {
            any_up(links)
        },
    }
}

/// The state of the session's links: connected when some link is, else none.
pub fn connection_state(links: &Vec<LinkStatus>) -> (r: Option<ConnectionState>)
    ensures
        some_up(links@) ==> r == Some(ConnectionState::Connected),
        !some_up(links@) ==> r is None,
{
    if any_up(links) {
        Some(ConnectionState::Connected)
    } else {
        None
    }
}

/// The texts joined with `sep` between them.
pub open spec fn joined_with(v: Seq<Seq<char>>, sep: Seq<char>) -> Seq<char>
    decreases v.len(),
{
    if v.len() == 0 {
        Seq::empty()
    } else if v.len() == 1 {
        v[0]
    } else {
        joined_with(v.drop_last(), sep) + sep + v.last()
    }
}

/// The report of sending audio to every peer: the failures, joined, as a network error.
pub fn audio_send_result(failures: &Vec<String>) -> (r: Result<(), SessionError>)
    ensures
        failures@.len() == 0 ==> r is Ok,
        failures@.len() > 0 ==> (r matches Err(SessionError::NetworkError(m)) && m@ == joined_with(
            failures@.map_values(|s: String| s@),
            "; "@,
        )),
{
    if failures.len() == 0 {
        return Ok(());
    }
    let ghost all = failures@.map_values(|s: String| s@);
    let mut m = string_from(failures[0].as_str());
    let mut i: usize = 1;
    assert(all.take(1).len() == 1);
    while i < failures.len()
        invariant
            1 <= i <= failures.len(),
            all == failures@.map_values(|s: String| s@),
            m@ == joined_with(all.take(i as int), "; "@),
        decreases failures.len() - i,
    {
        push_str(&mut m, "; ");
        push_str(&mut m, failures[i].as_str());
        i = i + 1;
        assert(all.take(i as int).drop_last() =~= all.take(i - 1));
    }
    assert(all.take(failures.len() as int) =~= all);
    Err(SessionError::NetworkError(m))
}

/// The failure of sending audio to one peer.
pub fn audio_failure(peer_id: &str, error: &str) -> (s: String)
    ensures
        s@ == "Failed to send audio to "@ + peer_id@ + ": "@ + error@,
{
    let mut s = string_from("Failed to send audio to ");
    push_str(&mut s, peer_id);
    push_str(&mut s, ": ");
    push_str(&mut s, error);
    s
}

} // verus!
