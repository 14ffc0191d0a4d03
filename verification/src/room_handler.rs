//! The room handler: it turns commands from the user interface and events from the network
//! into changes of the room state, commands for the network and events for the interface.
//!
//! The channels belong to the caller, which sends each output in order and stops at the
//! first send that fails.

use vstd::prelude::*;
use crate::room::{approve_full_text, peer_msg, room_full_text, PeerInfo, RoomModel, RoomState, MAX_USERS};
use crate::room_core::{peer_text, push_peer, Error, JoinRequestStatus, NetworkCommand, NetworkEvent, PeerId, RoomCommand, RoomEvent, RoomId};
use crate::text::string_from;

verus! {

broadcast use vstd::std_specs::hash::group_hash_axioms;

/// Something the handler sends.
pub enum RoomOutput {
    /// A command for the network layer.
    Network(NetworkCommand),
    /// An event for the user interface.
    Event(RoomEvent),
}

/// The outcome of a step: outputs to send in order, and the result to report when they
/// have all been sent.
pub struct RoomStep {
    pub outputs: Vec<RoomOutput>,
    pub outcome: Result<(), Error>,
}

/// Coordinates the room state between the user interface and the network.
pub struct RoomHandler {
    state: RoomState,
    peer_id: PeerId,
}

/// The name a peer connected from the network is given: `Peer ` and its display text.
pub open spec fn connected_name(id: u128) -> Seq<char> {
    "Peer "@ + peer_text(id)
}

/// The peers of `order` other than `me`, in order.
pub open spec fn others(order: Seq<u128>, me: u128) -> Seq<u128>
    decreases order.len(),
{
    if order.len() == 0 {
        Seq::empty()
    } else {
        let rest = others(order.drop_last(), me);
        if order.last() != me {
            rest.push(order.last())
        } else {
            rest
        }
    }
}

/// Whether `o` is the command to disconnect the peer `k`.
pub open spec fn is_disconnect(o: RoomOutput, k: u128) -> bool {
    o matches RoomOutput::Network(NetworkCommand::DisconnectPeer { peer_id }) && peer_id@ == k
}

impl RoomHandler {
    /// Well-formed: the room state is.
    pub closed spec fn wf(&self) -> bool {
        self.state.wf()
    }

    /// Our peer identifier.
    pub closed spec fn me(&self) -> PeerId {
        self.peer_id
    }

    /// The room state.
    pub closed spec fn room(&self) -> RoomState {
        self.state
    }

    /// A handler for peer `peer_id`, with an empty room of a random identifier.
    pub fn new(peer_id: PeerId) -> (h: Self)
        ensures
            h.wf(),
            h.me() == peer_id,
            h.room()@.peers == Map::<u128, PeerInfo>::empty(),
            h.room()@.pending == Map::<u128, crate::room_core::JoinRequestStatus>::empty(),
    {
        RoomHandler { state: RoomState::new(), peer_id }
    }

    /// The room state.
    pub fn state(&self) -> (r: &RoomState)
        ensures
            *r == self.room(),
    {
        &self.state
    }
}

/// The room is the same.
pub open spec fn same_room(new: RoomModel, old: RoomModel) -> bool {
    new.room_id == old.room_id && new.peers == old.peers && new.pending == old.pending
}

/// The room holds only us, under the name `You`, and no join requests.
pub open spec fn only_us(room: RoomModel, me: PeerId) -> bool {
    &&& room.peers.dom() == set![me@]
    &&& room.peers[me@].id == me
    &&& room.peers[me@].name@ == "You"@
    &&& room.pending == Map::<u128, JoinRequestStatus>::empty()
}

/// Peer `id` named `name` was added to `old`, unless the room was full.
pub open spec fn peer_added(new: RoomModel, old: RoomModel, id: PeerId, name: Seq<char>) -> bool {
    &&& new.room_id == old.room_id
    &&& new.pending == old.pending
    &&& new.peers.dom() == old.peers.dom().insert(id@)
    &&& new.peers[id@].id == id
    &&& new.peers[id@].name@ == name
    &&& forall|k: u128| k != id@ && #[trigger] old.peers.contains_key(k) ==> new.peers[k] == old.peers[k]
}

/// A command from the user interface was handled by the handler of `me`.
pub open spec fn command_handled(
    old: RoomModel,
    new: RoomModel,
    me: PeerId,
    r: RoomStep,
    command: RoomCommand,
) -> bool {
    let out = r.outputs@;
    match command {
        RoomCommand::CreateRoom => {
            &&& only_us(new, me)
            &&& r.outcome is Ok
            &&& out.len() == 3
            &&& out[0] matches RoomOutput::Network(NetworkCommand::CreateRoom { room_id })
            &&& room_id@ == new.room_id
            &&& out[1] == RoomOutput::Event(RoomEvent::PeerAdded(me))
            &&& out[2] == RoomOutput::Event(RoomEvent::PeerListUpdated)
        },
        RoomCommand::JoinRoom { room_id, address } => {
            &&& only_us(new, me)
            &&& new.room_id == room_id@
            &&& r.outcome is Ok
            &&& out.len() == 3
            &&& out[0] == RoomOutput::Network(NetworkCommand::ConnectToRoom { room_id, address })
            &&& out[1] == RoomOutput::Event(RoomEvent::PeerAdded(me))
            &&& out[2] == RoomOutput::Event(RoomEvent::PeerListUpdated)
        },
        RoomCommand::ApproveJoinRequest { peer_id } => {
            &&& new.room_id == old.room_id
            &&& new.peers == old.peers
            &&& if !old.pending.contains_key(peer_id@) {
                &&& new.pending == old.pending
                &&& out.len() == 0
                &&& r.outcome matches Err(Error::NotFound(m))
                &&& m@ == peer_msg("No pending join request for peer "@, peer_id@, ""@)
            } else if old.peers.len() >= MAX_USERS {
                &&& new.pending == old.pending
                &&& out.len() == 0
                &&& r.outcome matches Err(Error::Room(m))
                &&& m@ == approve_full_text()
            } else {
                &&& new.pending == old.pending.insert(peer_id@, JoinRequestStatus::Approved)
                &&& r.outcome is Ok
                &&& out.len() == 3
                &&& out[0] == RoomOutput::Event(
                    RoomEvent::JoinRequestStatusChanged(peer_id, JoinRequestStatus::Approved),
                )
                &&& out[1] == RoomOutput::Network(
                    NetworkCommand::SendJoinResponse { peer_id, approved: true, reason: None },
                )
                &&& out[2] == RoomOutput::Network(
                    NetworkCommand::InitiateWebRtcConnection { peer_id },
                )
            }
        },
        RoomCommand::DenyJoinRequest { peer_id, reason } => {
            &&& new.room_id == old.room_id
            &&& new.peers == old.peers
            &&& if !old.pending.contains_key(peer_id@) {
                &&& new.pending == old.pending
                &&& out.len() == 0
                &&& r.outcome matches Err(Error::NotFound(m))
                &&& m@ == peer_msg("No pending join request for peer "@, peer_id@, ""@)
            } else {
                &&& new.pending == old.pending.insert(peer_id@, JoinRequestStatus::Denied)
                &&& r.outcome is Ok
                &&& out.len() == 2
                &&& out[0] == RoomOutput::Event(
                    RoomEvent::JoinRequestStatusChanged(peer_id, JoinRequestStatus::Denied),
                )
                &&& out[1] == RoomOutput::Network(
                    NetworkCommand::SendJoinResponse { peer_id, approved: false, reason },
                )
            }
        },
        RoomCommand::LeaveRoom => {
            &&& new.peers == Map::<u128, PeerInfo>::empty()
            &&& new.pending == Map::<u128, JoinRequestStatus>::empty()
            &&& r.outcome is Ok
            &&& exists|order: Seq<u128>|
                #[trigger] left_in_order(out, order, old.peers.dom(), me@)
        },
        RoomCommand::RequestState => {
            &&& same_room(new, old)
            &&& r.outcome is Ok
            &&& out == seq![RoomOutput::Event(RoomEvent::PeerListUpdated)]
        },
        RoomCommand::Shutdown => false,
    }
}

/// The outputs of leaving a room whose peers were visited in `order`: a disconnect for
/// each peer but `me`, in order, then the peer-list update.
pub open spec fn left_in_order(out: Seq<RoomOutput>, order: Seq<u128>, peers: Set<u128>, me: u128) -> bool {
    let gone = others(order, me);
    &&& order.no_duplicates()
    &&& order.to_set() == peers
    &&& out.len() == gone.len() + 1
    &&& forall|i: int| 0 <= i < gone.len() ==> is_disconnect(#[trigger] out[i], gone[i])
    &&& out[gone.len() as int] == RoomOutput::Event(RoomEvent::PeerListUpdated)
}

/// An event from the network was handled by the handler of `me`.
pub open spec fn event_handled(
    old: RoomModel,
    new: RoomModel,
    me: PeerId,
    r: RoomStep,
    event: NetworkEvent,
) -> bool {
    let out = r.outputs@;
    match event {
        NetworkEvent::PeerConnected { peer_id, address } => if old.peers.len() >= MAX_USERS {
            &&& same_room(new, old)
            &&& out.len() == 0
            &&& r.outcome matches Err(Error::Room(m))
            &&& m@ == room_full_text()
        } else {
            &&& peer_added(new, old, peer_id, connected_name(peer_id@))
            &&& r.outcome is Ok
            &&& out == seq![
                RoomOutput::Event(RoomEvent::PeerAdded(peer_id)),
                RoomOutput::Event(RoomEvent::PeerListUpdated),
            ]
        },
        NetworkEvent::PeerDisconnected { peer_id, reason } => {
            &&& new.room_id == old.room_id
            &&& new.pending == old.pending
            &&& new.peers == old.peers.remove(peer_id@)
            &&& r.outcome is Ok
            &&& if old.peers.contains_key(peer_id@) {
                out == seq![
                    RoomOutput::Event(RoomEvent::PeerRemoved(peer_id)),
                    RoomOutput::Event(RoomEvent::PeerListUpdated),
                ]
            } else {
                out.len() == 0
            }
        },
        NetworkEvent::JoinRequested { peer_id, name, address } => {
            &&& new.room_id == old.room_id
            &&& new.peers == old.peers
            &&& if old.peers.contains_key(peer_id@) {
                &&& new.pending == old.pending
                &&& out.len() == 0
                &&& r.outcome matches Err(Error::InvalidState(m))
                &&& m@ == peer_msg("Peer "@, peer_id@, " is already in the room"@)
            } else if old.pending.contains_key(peer_id@) {
                &&& new.pending == old.pending
                &&& out.len() == 0
                &&& r.outcome matches Err(Error::InvalidState(m))
                &&& m@ == peer_msg("Peer "@, peer_id@, " already has a pending join request"@)
            } else {
                &&& new.pending == old.pending.insert(peer_id@, JoinRequestStatus::Pending)
                &&& r.outcome is Ok
                &&& out == seq![RoomOutput::Event(RoomEvent::JoinRequestReceived(peer_id))]
            }
        },
        NetworkEvent::JoinResponseReceived { approved, reason } => {
            &&& r.outcome is Ok
            &&& if approved {
                same_room(new, old) && out.len() == 0
            } else {
                &&& new.peers == Map::<u128, PeerInfo>::empty()
                &&& new.pending == Map::<u128, JoinRequestStatus>::empty()
                &&& out == seq![RoomOutput::Event(RoomEvent::PeerListUpdated)]
            }
        },
        _ => same_room(new, old) && out.len() == 0 && r.outcome is Ok,
    }
}

proof fn lemma_others_step(order: Seq<u128>, i: int, me: u128)
    requires
        0 <= i < order.len(),
    ensures
        others(order.take(i + 1), me) == if order[i] != me {
            others(order.take(i), me).push(order[i])
        } else {
            others(order.take(i), me)
        },
{
    assert(order.take(i + 1).drop_last() =~= order.take(i));
}

impl RoomHandler {
    /// The identifiers of the peers in the room, each once, in the map's order.
    fn room_peer_ids(&self) -> (v: Vec<u128>)
        ensures
            v@.to_set() == self.room()@.peers.dom(),
            v@.no_duplicates(),
    {
        let peers = self.state.peers();
        let mut v: Vec<u128> = Vec::new();
        let ghost g = vstd::std_specs::hash::spec_keys_iter(peers);
        for k in it: peers.keys()
            invariant
                v@ == it.seq().take(it.index() as int).unref(),
                it.seq() == vstd::std_specs::iter::IteratorSpec::remaining(&g),
            ensures
                v@ == it.seq().unref(),
        {
            v.push(*k);
            proof {
                assert(v@ =~= it.seq().take(it.index() + 1).unref());
            }
        }
        v
    }

    fn enter_room(&mut self, room_id: RoomId, first: RoomOutput) -> (r: RoomStep)
        ensures
            final(self).wf(),
            final(self).me() == old(self).me(),
            only_us(final(self).room()@, old(self).me()),
            final(self).room()@.room_id == room_id@,
            r.outcome is Ok,
            r.outputs@ == seq![
                first,
                RoomOutput::Event(RoomEvent::PeerAdded(old(self).me())),
                RoomOutput::Event(RoomEvent::PeerListUpdated),
            ],
    {
        self.state = RoomState::with_id(room_id);
        let mut outputs: Vec<RoomOutput> = Vec::new();
        outputs.push(first);
        match self.state.add_peer(self.peer_id, string_from("You")) {
            Ok(e) => {
                outputs.push(RoomOutput::Event(e));
                outputs.push(RoomOutput::Event(RoomEvent::PeerListUpdated));
                assert(self.state@.peers.dom() =~= set![self.peer_id@]);
                assert(outputs@ =~= seq![
                    first,
                    RoomOutput::Event(RoomEvent::PeerAdded(self.peer_id)),
                    RoomOutput::Event(RoomEvent::PeerListUpdated),
                ]);
                RoomStep { outputs, outcome: Ok(()) }
            },
            Err(e) => RoomStep { outputs, outcome: Err(e) },
        }
    }

    /// Handles a command from the user interface (any but `Shutdown`, which stops the
    /// handler before it gets here).
    pub fn handle_command(&mut self, command: RoomCommand) -> (r: RoomStep)
        requires
            old(self).wf(),
            !(command is Shutdown),
        ensures
            final(self).wf(),
            final(self).me() == old(self).me(),
            command_handled(old(self).room()@, final(self).room()@, old(self).me(), r, command),
    {
        match command {
            RoomCommand::CreateRoom => {
                let room_id = RoomId::new();
                self.enter_room(room_id, RoomOutput::Network(NetworkCommand::CreateRoom { room_id }))
            },
            RoomCommand::JoinRoom { room_id, address } => {
                self.enter_room(
                    room_id,
                    RoomOutput::Network(NetworkCommand::ConnectToRoom { room_id, address }),
                )
            },
            RoomCommand::ApproveJoinRequest { peer_id } => {
                let mut outputs: Vec<RoomOutput> = Vec::new();
                match self.state.approve_join_request(peer_id) {
                    Ok(e) => {
                        outputs.push(RoomOutput::Event(e));
                        outputs.push(
                            RoomOutput::Network(
                                NetworkCommand::SendJoinResponse { peer_id, approved: true, reason: None },
                            ),
                        );
                        outputs.push(
                            RoomOutput::Network(NetworkCommand::InitiateWebRtcConnection { peer_id }),
                        );
                        RoomStep { outputs, outcome: Ok(()) }
                    },
                    Err(e) => RoomStep { outputs, outcome: Err(e) },
                }
            },
            RoomCommand::DenyJoinRequest { peer_id, reason } => {
                let mut outputs: Vec<RoomOutput> = Vec::new();
                match self.state.deny_join_request(peer_id) {
                    Ok(e) => {
                        outputs.push(RoomOutput::Event(e));
                        outputs.push(
                            RoomOutput::Network(
                                NetworkCommand::SendJoinResponse { peer_id, approved: false, reason },
                            ),
                        );
                        RoomStep { outputs, outcome: Ok(()) }
                    },
                    Err(e) => RoomStep { outputs, outcome: Err(e) },
                }
            },
            RoomCommand::LeaveRoom => {
                let ids = self.room_peer_ids();
                let ghost order = ids@;
                let ghost me = self.peer_id@;
                let mut outputs: Vec<RoomOutput> = Vec::new();
                let mut i: usize = 0;
                while i < ids.len()
                    invariant
                        i <= ids.len(),
                        order == ids@,
                        me == self.peer_id@,
                        outputs@.len() == others(order.take(i as int), me).len(),
                        forall|t: int|
                            0 <= t < outputs@.len() ==> is_disconnect(
                                #[trigger] outputs@[t],
                                others(order.take(i as int), me)[t],
                            ),
                    decreases ids.len() - i,
                {
                    let k = ids[i];
                    proof {
                        lemma_others_step(order, i as int, me);
                    }
                    if k != self.peer_id.as_u128() {
                        outputs.push(
                            RoomOutput::Network(
                                NetworkCommand::DisconnectPeer { peer_id: PeerId::from_u128(k) },
                            ),
                        );
                    }
                    i = i + 1;
                }
                assert(order.take(ids.len() as int) =~= order);
                self.state = RoomState::new();
                outputs.push(RoomOutput::Event(RoomEvent::PeerListUpdated));
                assert(left_in_order(outputs@, order, old(self).room()@.peers.dom(), me));
                RoomStep { outputs, outcome: Ok(()) }
            },
            RoomCommand::RequestState => {
                let mut outputs: Vec<RoomOutput> = Vec::new();
                outputs.push(RoomOutput::Event(RoomEvent::PeerListUpdated));
                assert(outputs@ =~= seq![RoomOutput::Event(RoomEvent::PeerListUpdated)]);
                RoomStep { outputs, outcome: Ok(()) }
            },
            RoomCommand::Shutdown => RoomStep { outputs: Vec::new(), outcome: Ok(()) },
        }
    }

    /// One turn of the handler on a command: `None` for `Shutdown`, which stops it;
    /// otherwise the step of [`RoomHandler::handle_command`].
    pub fn on_command(&mut self, command: RoomCommand) -> (r: Option<RoomStep>)
        requires
            old(self).wf(),
        ensures
            final(self).wf(),
            final(self).me() == old(self).me(),
            command is Shutdown ==> r is None && same_room(final(self).room()@, old(self).room()@),
            !(command is Shutdown) ==> (r matches Some(s) && command_handled(
                old(self).room()@,
                final(self).room()@,
                old(self).me(),
                s,
                command,
            )),
    {
        if let RoomCommand::Shutdown = command {
            return None;
        }
        Some(self.handle_command(command))
    }

    /// Handles an event from the network.
    pub fn handle_network_event(&mut self, event: NetworkEvent) -> (r: RoomStep)
        requires
            old(self).wf(),
        ensures
            final(self).wf(),
            final(self).me() == old(self).me(),
            event_handled(old(self).room()@, final(self).room()@, old(self).me(), r, event),
    {
        let mut outputs: Vec<RoomOutput> = Vec::new();
        match event {
            NetworkEvent::PeerConnected { peer_id, address } => {
                let mut name = string_from("Peer ");
                push_peer(&mut name, &peer_id);
                match self.state.add_peer(peer_id, name) {
                    Ok(e) => {
                        outputs.push(RoomOutput::Event(e));
                        outputs.push(RoomOutput::Event(RoomEvent::PeerListUpdated));
                        assert(outputs@ =~= seq![
                            RoomOutput::Event(RoomEvent::PeerAdded(peer_id)),
                            RoomOutput::Event(RoomEvent::PeerListUpdated),
                        ]);
                        RoomStep { outputs, outcome: Ok(()) }
                    },
                    Err(e) => RoomStep { outputs, outcome: Err(e) },
                }
            },
            NetworkEvent::PeerDisconnected { peer_id, reason } => {
                match self.state.remove_peer(peer_id) {
                    Ok(e) => {
                        outputs.push(RoomOutput::Event(e));
                        outputs.push(RoomOutput::Event(RoomEvent::PeerListUpdated));
                        assert(outputs@ =~= seq![
                            RoomOutput::Event(RoomEvent::PeerRemoved(peer_id)),
                            RoomOutput::Event(RoomEvent::PeerListUpdated),
                        ]);
                    },
                    Err(_) => {},
                }
                RoomStep { outputs, outcome: Ok(()) }
            },
            NetworkEvent::JoinRequested { peer_id, name, address } => {
                match self.state.handle_join_request(peer_id) {
                    Ok(e) => {
                        outputs.push(RoomOutput::Event(e));
                        assert(outputs@ =~= seq![RoomOutput::Event(RoomEvent::JoinRequestReceived(peer_id))]);
                        RoomStep { outputs, outcome: Ok(()) }
                    },
                    Err(e) => RoomStep { outputs, outcome: Err(e) },
                }
            },
            NetworkEvent::JoinResponseReceived { approved, reason } => {
                if !approved {
                    self.state = RoomState::new();
                    outputs.push(RoomOutput::Event(RoomEvent::PeerListUpdated));
                    assert(outputs@ =~= seq![RoomOutput::Event(RoomEvent::PeerListUpdated)]);
                }
                RoomStep { outputs, outcome: Ok(()) }
            },
            _ => RoomStep { outputs, outcome: Ok(()) },
        }
    }
}

} // verus!
