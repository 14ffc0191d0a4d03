//! A local signaling service: sessions are named by random UUIDs and joined through
//! `resonance://join/<id>` links.

use vstd::prelude::*;
use crate::room_core::{new_uuid_string, uuid_text};
use crate::text::{chars_of, is_prefix, push_str, slice_chars, starts_with, string_from, string_of};

verus! {

/// What creating or joining a session gives.
#[derive(Debug, Clone)]
pub struct SessionInfo {
    pub session_id: String,
    pub connection_link: String,
}

/// A peer of a signaling session.
#[derive(Debug, Clone)]
pub struct Peer {
    pub id: String,
    pub name: String,
}

/// Errors of the signaling service.
#[derive(Debug, Clone, Copy, PartialEq, Eq, Structural)]
pub enum SignalingError {
    NotConnected,
    InvalidLinkFormat,
    InvalidSessionId,
}

/// The text a signaling error displays as.
pub open spec fn signaling_error_text(e: SignalingError) -> Seq<char> {
    match e {
        SignalingError::NotConnected => "Not connected to signaling service"@,
        SignalingError::InvalidLinkFormat => "Invalid connection link format"@,
        SignalingError::InvalidSessionId => "Invalid session ID"@,
    }
}

impl SignalingError {
    /// The text this error displays as.
    pub fn to_display_string(&self) -> (s: String)
        ensures
            s@ == signaling_error_text(*self),
    {
        match self {
            SignalingError::NotConnected => string_from("Not connected to signaling service"),
            SignalingError::InvalidLinkFormat => string_from("Invalid connection link format"),
            SignalingError::InvalidSessionId => string_from("Invalid session ID"),
        }
    }
}

/// What a signaling service offers.
pub trait SignalingInterface {
    /// Connects to the service.
    fn connect(&mut self) -> Result<(), SignalingError>;

    /// Disconnects from the service.
    fn disconnect(&mut self) -> Result<(), SignalingError>;

    /// Creates a session.
    fn create_session(&mut self) -> Result<SessionInfo, SignalingError>;

    /// Joins the session of a link.
    fn join_session(&mut self, link: &str) -> Result<SessionInfo, SignalingError>;
}

/// The prefix of a signaling link.
pub open spec fn signaling_prefix() -> Seq<char> {
    "resonance://join/"@
}

/// A signaling service kept in memory.
pub struct SignalingService {
    connected: bool,
    session_id: Option<String>,
    peers: Vec<Peer>,
}

/// The content of a signaling service.
pub struct SignalingModel {
    pub connected: bool,
    pub session_id: Option<Seq<char>>,
    /// Each peer as (identifier, name).
    pub peers: Seq<(Seq<char>, Seq<char>)>,
}

/// The identifiers and names of peers.
pub open spec fn peer_pairs(v: Seq<Peer>) -> Seq<(Seq<char>, Seq<char>)> {
    v.map_values(|p: Peer| (p.id@, p.name@))
}

impl View for SignalingService {
    type V = SignalingModel;

    closed spec fn view(&self) -> SignalingModel {
        SignalingModel {
            connected: self.connected,
            session_id: match self.session_id {
                Some(s) => Some(s@),
                None => None,
            },
            peers: peer_pairs(self.peers@),
        }
    }
}

/// Whether no two of the peers share an identifier.
pub open spec fn distinct_ids(p: Seq<(Seq<char>, Seq<char>)>) -> bool {
    forall|i: int, j: int| 0 <= i < j < p.len() ==> #[trigger] p[i].0 != #[trigger] p[j].0
}

/// The first position at or after `i` of a peer with identifier `id`.
pub open spec fn index_of_id_from(p: Seq<(Seq<char>, Seq<char>)>, id: Seq<char>, i: int) -> Option<
    int,
>
    decreases p.len() - i,
{
    if i < 0 || i >= p.len() {
        None
    } else if p[i].0 == id {
        Some(i)
    } else {
        index_of_id_from(p, id, i + 1)
    }
}

/// The first position of a peer with identifier `id`.
pub open spec fn index_of_id(p: Seq<(Seq<char>, Seq<char>)>, id: Seq<char>) -> Option<int> {
    index_of_id_from(p, id, 0)
}

/// The peers with `(id, name)` put in: in place of the peer with that identifier, or last.
pub open spec fn put_peer(p: Seq<(Seq<char>, Seq<char>)>, id: Seq<char>, name: Seq<char>) -> Seq<
    (Seq<char>, Seq<char>),
> {
    match index_of_id(p, id) {
        Some(i) => p.update(i, (id, name)),
        None => p.push((id, name)),
    }
}

proof fn lemma_index_none_from(p: Seq<(Seq<char>, Seq<char>)>, id: Seq<char>, i: int)
    requires
        0 <= i <= p.len(),
        index_of_id_from(p, id, i) is None,
    ensures
        forall|k: int| i <= k < p.len() ==> p[k].0 != id,
    decreases p.len() - i,
{
    if i < p.len() {
        lemma_index_none_from(p, id, i + 1);
    }
}

proof fn lemma_index_none(p: Seq<(Seq<char>, Seq<char>)>, id: Seq<char>)
    requires
        index_of_id(p, id) is None,
    ensures
        forall|k: int| 0 <= k < p.len() ==> p[k].0 != id,
{
    lemma_index_none_from(p, id, 0);
}

impl SignalingService {
    /// Well-formed: no two peers share an identifier.
    pub closed spec fn wf(&self) -> bool {
        distinct_ids(peer_pairs(self.peers@))
    }

    /// A service, not connected, with no session and no peers.
    pub fn new() -> (s: Self)
        ensures
            s.wf(),
            !s@.connected,
            s@.session_id is None,
            s@.peers.len() == 0,
    {
        let s = SignalingService { connected: false, session_id: None, peers: Vec::new() };
        assert(peer_pairs(s.peers@) =~= Seq::<(Seq<char>, Seq<char>)>::empty());
        s
    }

    /// Whether the service is connected.
    pub fn is_connected(&self) -> (b: bool)
        ensures
            b == self@.connected,
    {
        self.connected
    }

    /// The current session's identifier.
    pub fn current_session_id(&self) -> (r: Option<String>)
        ensures
            match self@.session_id {
                Some(s) => r matches Some(x) && x@ == s,
                None => r is None,
            },
    {
        match &self.session_id {
            Some(s) => Some(s.clone()),
            None => None,
        }
    }

    /// Adds a peer, replacing one with the same identifier; an error when not connected.
    pub fn add_peer(&mut self, id: &str, name: &str) -> (r: Result<(), SignalingError>)
        requires
            old(self).wf(),
        ensures
            final(self).wf(),
            final(self)@.connected == old(self)@.connected,
            final(self)@.session_id == old(self)@.session_id,
            !old(self)@.connected ==> r == Err::<(), SignalingError>(SignalingError::NotConnected)
                && final(self)@.peers == old(self)@.peers,
            old(self)@.connected ==> r is Ok && final(self)@.peers == put_peer(
                old(self)@.peers,
                id@,
                name@,
            ),
    {
        if !self.connected {
            return Err(SignalingError::NotConnected);
        }
        let key = chars_of(id);
        let new_id = string_from(id);
        let new_name = string_from(name);
        let ghost ps = peer_pairs(self.peers@);
        let mut i: usize = 0;
        while i < self.peers.len()
            invariant
                i <= self.peers.len(),
                self.peers@ == old(self).peers@,
                self.connected == old(self).connected,
                self.connected,
                self.session_id == old(self).session_id,
                ps == peer_pairs(self.peers@),
                new_id@ == id@,
                new_name@ == name@,
                distinct_ids(ps),
                key@ == id@,
                index_of_id(ps, id@) == index_of_id_from(ps, id@, i as int),
            decreases self.peers.len() - i,
        {
            let other = chars_of(self.peers[i].id.as_str());
            if crate::text::chars_eq(&other, &key) {
                let ghost before = self.peers@;
                self.peers.set(i, Peer { id: new_id, name: new_name });
                proof {
                    assert(peer_pairs(self.peers@) =~= ps.update(i as int, (id@, name@)));
                    assert forall|a: int, b: int|
                        0 <= a < b < peer_pairs(self.peers@).len() implies #[trigger] peer_pairs(
                        self.peers@,
                    )[a].0 != #[trigger] peer_pairs(self.peers@)[b].0 by {
                        assert(ps[a].0 != ps[b].0);
                    }
                }
                return Ok(());
            }
            i = i + 1;
        }
        let ghost before = self.peers@;
        self.peers.push(Peer { id: new_id, name: new_name });
        proof {
            assert(peer_pairs(self.peers@) =~= ps.push((id@, name@)));
            lemma_index_none(ps, id@);
            assert forall|a: int, b: int|
                0 <= a < b < peer_pairs(self.peers@).len() implies #[trigger] peer_pairs(
                self.peers@,
            )[a].0 != #[trigger] peer_pairs(self.peers@)[b].0 by {
                if b < ps.len() {
                    assert(ps[a].0 != ps[b].0);
                }
            }
        }
        Ok(())
    }

    /// The peers of the session.
    pub fn get_peers(&self) -> (r: Vec<Peer>)
        ensures
            peer_pairs(r@) == self@.peers,
    {
        let mut r: Vec<Peer> = Vec::new();
        let mut i: usize = 0;
        while i < self.peers.len()
            invariant
                i <= self.peers.len(),
                peer_pairs(r@) == peer_pairs(self.peers@).take(i as int),
            decreases self.peers.len() - i,
        {
            let p = Peer { id: self.peers[i].id.clone(), name: self.peers[i].name.clone() };
            let ghost before = r@;
            r.push(p);
            assert(peer_pairs(r@) =~= peer_pairs(before).push((p.id@, p.name@)));
            i = i + 1;
            assert(peer_pairs(r@) =~= peer_pairs(self.peers@).take(i as int));
        }
        assert(peer_pairs(self.peers@).take(self.peers.len() as int) =~= peer_pairs(self.peers@));
        r
    }
}

impl SignalingInterface for SignalingService {
    /// Connects: always succeeds.
    fn connect(&mut self) -> (r: Result<(), SignalingError>)
        ensures
            r is Ok,
            final(self)@.connected,
            final(self)@.session_id == old(self)@.session_id,
            final(self)@.peers == old(self)@.peers,
            final(self).wf() == old(self).wf(),
    {
        self.connected = true;
        Ok(())
    }

    /// Disconnects and leaves the session: always succeeds.
    fn disconnect(&mut self) -> (r: Result<(), SignalingError>)
        ensures
            r is Ok,
            !final(self)@.connected,
            final(self)@.session_id is None,
            final(self)@.peers == old(self)@.peers,
            final(self).wf() == old(self).wf(),
    {
        self.connected = false;
        self.session_id = None;
        Ok(())
    }

    /// Creates a session with a random identifier and its link; an error when not
    /// connected.
    fn create_session(&mut self) -> (r: Result<SessionInfo, SignalingError>)
        ensures
            final(self)@.connected == old(self)@.connected,
            final(self)@.peers == old(self)@.peers,
            final(self).wf() == old(self).wf(),
            !old(self)@.connected ==> r == Err::<SessionInfo, SignalingError>(
                SignalingError::NotConnected,
            ) && final(self)@.session_id == old(self)@.session_id,
            old(self)@.connected ==> (r matches Ok(info) && (exists|x: u128|
                info.session_id@ == uuid_text(x)) && info.connection_link@ == signaling_prefix()
                + info.session_id@ && final(self)@.session_id == Some(info.session_id@)),
    {
        if !self.connected {
            return Err(SignalingError::NotConnected);
        }
        let session_id = new_uuid_string();
        let mut connection_link = string_from("resonance://join/");
        push_str(&mut connection_link, session_id.as_str());
        self.session_id = Some(session_id.clone());
        Ok(SessionInfo { session_id, connection_link })
    }

    /// Joins the session a `resonance://join/<id>` link names: an error when not connected,
    /// for another link, or for an empty identifier.
    fn join_session(&mut self, link: &str) -> (r: Result<SessionInfo, SignalingError>)
        ensures
            final(self)@.connected == old(self)@.connected,
            final(self)@.peers == old(self)@.peers,
            final(self).wf() == old(self).wf(),
            !old(self)@.connected ==> r == Err::<SessionInfo, SignalingError>(
                SignalingError::NotConnected,
            ),
            old(self)@.connected && !is_prefix(signaling_prefix(), link@) ==> r == Err::<
                SessionInfo,
                SignalingError,
            >(SignalingError::InvalidLinkFormat),
            old(self)@.connected && is_prefix(signaling_prefix(), link@) && link@.len()
                == signaling_prefix().len() ==> r == Err::<SessionInfo, SignalingError>(
                SignalingError::InvalidSessionId,
            ),
            r is Err ==> final(self)@.session_id == old(self)@.session_id,
            old(self)@.connected && is_prefix(signaling_prefix(), link@) && link@.len()
                > signaling_prefix().len() ==> (r matches Ok(info) && info.session_id@ == link@.skip(
                signaling_prefix().len() as int,
            ) && info.connection_link@ == link@ && final(self)@.session_id == Some(
                info.session_id@,
            )),
    {
        if !self.connected {
            return Err(SignalingError::NotConnected);
        }
        let v = chars_of(link);
        let prefix = chars_of("resonance://join/");
        proof {
            reveal_strlit("resonance://join/");
        }
        if !starts_with(&v, &prefix) {
            return Err(SignalingError::InvalidLinkFormat);
        }
        let rest = slice_chars(&v, prefix.len(), v.len());
        if rest.len() == 0 {
            return Err(SignalingError::InvalidSessionId);
        }
        assert(rest@ =~= link@.skip(signaling_prefix().len() as int));
        let session_id = string_of(&rest);
        self.session_id = Some(session_id.clone());
        Ok(SessionInfo { session_id, connection_link: string_from(link) })
    }
}

} // verus!
