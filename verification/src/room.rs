//! Room state: the peers in a room and the pending join requests.

use vstd::prelude::*;
use std::collections::HashMap;
use crate::room_core::{peer_text, Error, JoinRequestStatus, PeerId, RoomEvent, RoomId, push_peer};
use crate::text::{push_str, string_from};

verus! {

broadcast use vstd::std_specs::hash::group_hash_axioms;

/// Maximum number of users allowed in a room.
pub const MAX_USERS: usize = 8;

/// The current system time (`SystemTime::now`).
#[verifier::external_body]
fn system_time_now() -> std::time::SystemTime {
    std::time::SystemTime::now()
}

/// Information about a peer in the room.
#[derive(Debug, Clone)]
pub struct PeerInfo {
    /// The peer's identifier.
    pub id: PeerId,
    /// The peer's display name.
    pub name: String,
    /// When the peer joined the room.
    pub joined_at: std::time::SystemTime,
}

/// Room state: the room's identifier, the peers in it and the pending join requests.
pub struct RoomState {
    room_id: RoomId,
    peers: HashMap<u128, PeerInfo>,
    pending_joins: HashMap<u128, JoinRequestStatus>,
}

/// The content of a room.
pub struct RoomModel {
    pub room_id: u128,
    pub peers: Map<u128, PeerInfo>,
    pub pending: Map<u128, JoinRequestStatus>,
}

impl View for RoomState {
    type V = RoomModel;

    closed spec fn view(&self) -> RoomModel {
        RoomModel { room_id: self.room_id@, peers: self.peers@, pending: self.pending_joins@ }
    }
}

/// Message of the error returned when the room is full.
pub open spec fn room_full_text() -> Seq<char> {
    "Room is full (max 8 users)"@
}

/// Message of the error returned when a request cannot be approved because the room is full.
pub open spec fn approve_full_text() -> Seq<char> {
    "Cannot approve request: room is full (max 8 users)"@
}

/// `prefix`, the display text of a peer, then `suffix`.
pub open spec fn peer_msg(prefix: Seq<char>, id: u128, suffix: Seq<char>) -> Seq<char> {
    prefix + peer_text(id) + suffix
}

fn peer_message(prefix: &str, id: &PeerId, suffix: &str) -> (s: String)
    ensures
        s@ == peer_msg(prefix@, id@, suffix@),
{
    let mut s = string_from(prefix);
    push_peer(&mut s, id);
    push_str(&mut s, suffix);
    s
}

impl RoomState {
    /// Well-formed: the room never holds more than [`MAX_USERS`] peers, and every peer is
    /// stored under its own identifier.
    pub closed spec fn wf(&self) -> bool {
        &&& self.peers@.len() <= MAX_USERS
        &&& forall|k: u128| #[trigger] self.peers@.contains_key(k) ==> self.peers@[k].id@ == k
    }

    /// A room with a random identifier, no peers and no requests.
    pub fn new() -> (r: Self)
        ensures
            r.wf(),
            r@.peers == Map::<u128, PeerInfo>::empty(),
            r@.pending == Map::<u128, JoinRequestStatus>::empty(),
    {
        RoomState { room_id: RoomId::new(), peers: HashMap::new(), pending_joins: HashMap::new() }
    }

    /// A room with the given identifier, no peers and no requests.
    pub fn with_id(room_id: RoomId) -> (r: Self)
        ensures
            r.wf(),
            r@.room_id == room_id@,
            r@.peers == Map::<u128, PeerInfo>::empty(),
            r@.pending == Map::<u128, JoinRequestStatus>::empty(),
    {
        RoomState { room_id, peers: HashMap::new(), pending_joins: HashMap::new() }
    }

    /// The room's identifier.
    pub fn id(&self) -> (r: RoomId)
        ensures
            r@ == self@.room_id,
    {
        self.room_id
    }

    /// The peers in the room, keyed by identifier.
    pub fn peers(&self) -> (r: &HashMap<u128, PeerInfo>)
        ensures
            r@ == self@.peers,
    {
        &self.peers
    }

    /// The join requests, keyed by identifier.
    pub fn pending_joins(&self) -> (r: &HashMap<u128, JoinRequestStatus>)
        ensures
            r@ == self@.pending,
    {
        &self.pending_joins
    }

    /// Adds a peer, unless the room is full.
    pub fn add_peer(&mut self, id: PeerId, name: String) -> (r: Result<RoomEvent, Error>)
        requires
            old(self).wf(),
        ensures
            final(self).wf(),
            final(self)@.room_id == old(self)@.room_id,
            final(self)@.pending == old(self)@.pending,
            old(self)@.peers.len() >= MAX_USERS ==> {
                &&& r matches Err(Error::Room(m)) && m@ == room_full_text()
                &&& final(self)@.peers == old(self)@.peers
            },
            old(self)@.peers.len() < MAX_USERS ==> {
                &&& r == Ok::<RoomEvent, Error>(RoomEvent::PeerAdded(id))
                &&& final(self)@.peers.dom() == old(self)@.peers.dom().insert(id@)
                &&& final(self)@.peers[id@].id == id
                &&& final(self)@.peers[id@].name@ == name@
                &&& forall|k: u128| k != id@ && #[trigger] old(self)@.peers.contains_key(k)
                    ==> final(self)@.peers[k] == old(self)@.peers[k]
            },
    {
        if self.peers.len() >= MAX_USERS {
            return Err(Error::Room(string_from("Room is full (max 8 users)")));
        }
        let info = PeerInfo { id, name, joined_at: system_time_now() };
        self.peers.insert(id.as_u128(), info);
        proof {
            assert(self.peers@.dom() =~= old(self).peers@.dom().insert(id@));
            if !old(self).peers@.contains_key(id@) {
                assert(self.peers@.len() == old(self).peers@.len() + 1);
            } else {
                assert(self.peers@.len() == old(self).peers@.len());
            }
        }
        Ok(RoomEvent::PeerAdded(id))
    }

    /// Removes a peer; an error if the peer is not in the room.
    pub fn remove_peer(&mut self, id: PeerId) -> (r: Result<RoomEvent, Error>)
        requires
            old(self).wf(),
        ensures
            final(self).wf(),
            final(self)@.room_id == old(self)@.room_id,
            final(self)@.pending == old(self)@.pending,
            final(self)@.peers == old(self)@.peers.remove(id@),
            old(self)@.peers.contains_key(id@) ==> r == Ok::<RoomEvent, Error>(
                RoomEvent::PeerRemoved(id),
            ),
            !old(self)@.peers.contains_key(id@) ==> (r matches Err(Error::NotFound(m)) && m@
                == peer_msg("Peer "@, id@, " not found in room"@)),
    {
        let key = id.as_u128();
        if self.peers.remove(&key).is_none() {
            assert(self.peers@ =~= old(self).peers@.remove(id@));
            return Err(Error::NotFound(peer_message("Peer ", &id, " not found in room")));
        }
        proof {
            assert(self.peers@.len() <= old(self).peers@.len());
        }
        Ok(RoomEvent::PeerRemoved(id))
    }

    /// Records a join request as pending; an error if the peer is already in the room or
    /// already has a request.
    pub fn handle_join_request(&mut self, id: PeerId) -> (r: Result<RoomEvent, Error>)
        requires
            old(self).wf(),
        ensures
            final(self).wf(),
            final(self)@.room_id == old(self)@.room_id,
            final(self)@.peers == old(self)@.peers,
            old(self)@.peers.contains_key(id@) ==> {
                &&& r matches Err(Error::InvalidState(m)) && m@ == peer_msg(
                    "Peer "@,
                    id@,
                    " is already in the room"@,
                )
                &&& final(self)@.pending == old(self)@.pending
            },
            !old(self)@.peers.contains_key(id@) && old(self)@.pending.contains_key(id@) ==> {
                &&& r matches Err(Error::InvalidState(m)) && m@ == peer_msg(
                    "Peer "@,
                    id@,
                    " already has a pending join request"@,
                )
                &&& final(self)@.pending == old(self)@.pending
            },
            !old(self)@.peers.contains_key(id@) && !old(self)@.pending.contains_key(id@) ==> {
                &&& r == Ok::<RoomEvent, Error>(RoomEvent::JoinRequestReceived(id))
                &&& final(self)@.pending == old(self)@.pending.insert(
                    id@,
                    JoinRequestStatus::Pending,
                )
            },
    {
        let key = id.as_u128();
        if self.peers.contains_key(&key) {
            return Err(
                Error::InvalidState(peer_message("Peer ", &id, " is already in the room")),
            );
        }
        if self.pending_joins.contains_key(&key) {
            return Err(
                Error::InvalidState(
                    peer_message("Peer ", &id, " already has a pending join request"),
                ),
            );
        }
        self.pending_joins.insert(key, JoinRequestStatus::Pending);
        Ok(RoomEvent::JoinRequestReceived(id))
    }

    /// Marks a pending request approved; an error if there is no request or the room is full.
    pub fn approve_join_request(&mut self, id: PeerId) -> (r: Result<RoomEvent, Error>)
        requires
            old(self).wf(),
        ensures
            final(self).wf(),
            final(self)@.room_id == old(self)@.room_id,
            final(self)@.peers == old(self)@.peers,
            !old(self)@.pending.contains_key(id@) ==> {
                &&& r matches Err(Error::NotFound(m)) && m@ == peer_msg(
                    "No pending join request for peer "@,
                    id@,
                    ""@,
                )
                &&& final(self)@.pending == old(self)@.pending
            },
            old(self)@.pending.contains_key(id@) && old(self)@.peers.len() >= MAX_USERS ==> {
                &&& r matches Err(Error::Room(m)) && m@ == approve_full_text()
                &&& final(self)@.pending == old(self)@.pending
            },
            old(self)@.pending.contains_key(id@) && old(self)@.peers.len() < MAX_USERS ==> {
                &&& r == Ok::<RoomEvent, Error>(
                    RoomEvent::JoinRequestStatusChanged(id, JoinRequestStatus::Approved),
                )
                &&& final(self)@.pending == old(self)@.pending.insert(
                    id@,
                    JoinRequestStatus::Approved,
                )
            },
    {
        let key = id.as_u128();
        if !self.pending_joins.contains_key(&key) {
            return Err(Error::NotFound(peer_message("No pending join request for peer ", &id, "")));
        }
        if self.peers.len() >= MAX_USERS {
            return Err(
                Error::Room(string_from("Cannot approve request: room is full (max 8 users)")),
            );
        }
        self.pending_joins.insert(key, JoinRequestStatus::Approved);
        Ok(RoomEvent::JoinRequestStatusChanged(id, JoinRequestStatus::Approved))
    }

    /// Marks a pending request denied; an error if there is no request.
    pub fn deny_join_request(&mut self, id: PeerId) -> (r: Result<RoomEvent, Error>)
        requires
            old(self).wf(),
        ensures
            final(self).wf(),
            final(self)@.room_id == old(self)@.room_id,
            final(self)@.peers == old(self)@.peers,
            !old(self)@.pending.contains_key(id@) ==> {
                &&& r matches Err(Error::NotFound(m)) && m@ == peer_msg(
                    "No pending join request for peer "@,
                    id@,
                    ""@,
                )
                &&& final(self)@.pending == old(self)@.pending
            },
            old(self)@.pending.contains_key(id@) ==> {
                &&& r == Ok::<RoomEvent, Error>(
                    RoomEvent::JoinRequestStatusChanged(id, JoinRequestStatus::Denied),
                )
                &&& final(self)@.pending == old(self)@.pending.insert(
                    id@,
                    JoinRequestStatus::Denied,
                )
            },
    {
        let key = id.as_u128();
        if !self.pending_joins.contains_key(&key) {
            return Err(Error::NotFound(peer_message("No pending join request for peer ", &id, "")));
        }
        self.pending_joins.insert(key, JoinRequestStatus::Denied);
        Ok(RoomEvent::JoinRequestStatusChanged(id, JoinRequestStatus::Denied))
    }

    /// Forgets a join request; an error if there is none.
    pub fn remove_join_request(&mut self, id: PeerId) -> (r: Result<(), Error>)
        requires
            old(self).wf(),
        ensures
            final(self).wf(),
            final(self)@.room_id == old(self)@.room_id,
            final(self)@.peers == old(self)@.peers,
            final(self)@.pending == old(self)@.pending.remove(id@),
            old(self)@.pending.contains_key(id@) ==> r is Ok,
            !old(self)@.pending.contains_key(id@) ==> (r matches Err(Error::NotFound(m)) && m@
                == peer_msg("No join request for peer "@, id@, ""@)),
    {
        let key = id.as_u128();
        if self.pending_joins.remove(&key).is_none() {
            assert(self.pending_joins@ =~= old(self).pending_joins@.remove(id@));
            return Err(Error::NotFound(peer_message("No join request for peer ", &id, "")));
        }
        Ok(())
    }

    /// Number of peers in the room.
    pub fn peer_count(&self) -> (n: usize)
        ensures
            n == self@.peers.len(),
    {
        self.peers.len()
    }

    /// Whether the room has space for another peer.
    pub fn has_space(&self) -> (b: bool)
        ensures
            b == (self@.peers.len() < MAX_USERS),
    {
        self.peers.len() < MAX_USERS
    }
}

/// A well-formed room never holds more than [`MAX_USERS`] peers; `add_peer` refuses the
/// peer that would exceed it, and no other operation adds peers.
pub proof fn lemma_room_capacity(r: RoomState)
    requires
        r.wf(),
    ensures
        r@.peers.len() <= MAX_USERS,
{
}

} // verus!
