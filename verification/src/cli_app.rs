//! The state of the command-line client: which screen it shows, the peers of the room, the
//! pending join requests and the status line.
//!
//! A key press gives the next state and, at most, one request for the network adapter; the
//! caller performs the request and hands its result back.

use vstd::prelude::*;
use std::collections::HashMap;
use crate::room_core::{peer_text, push_peer, status_text, JoinRequestStatus, PeerId, RoomEvent, RoomId};
use crate::text::{chars_of, decimal, push_decimal, push_str, slice_chars, string_from, string_of};

verus! {

broadcast use vstd::std_specs::hash::group_hash_axioms;

/// The screen the client shows.
#[derive(Debug, Clone)]
pub enum CliState {
    /// Main menu.
    MainMenu,
    /// Waiting for a room to be created.
    CreatingRoom,
    /// Typing the link of a room to join.
    JoiningRoom { link: String },
    /// In a room.
    InRoom,
}

/// The screens, without the link being typed.
#[derive(Debug, Clone, Copy, PartialEq, Eq, Structural)]
pub enum Screen {
    MainMenu,
    CreatingRoom,
    JoiningRoom,
    InRoom,
}

/// A key the client reacts to.
#[derive(Debug, Clone, Copy, PartialEq, Eq, Structural)]
pub enum Key {
    Char(char),
    Esc,
    Enter,
    Backspace,
    Other,
}

/// What the client asks the network adapter to do.
#[derive(Debug, Clone)]
pub enum CliRequest {
    /// Create a room.
    CreateRoom,
    /// Join the room of a link.
    JoinRoom { link: String },
    /// Leave the room.
    LeaveRoom,
    /// Approve the join request of a peer.
    Approve { peer_id: PeerId },
    /// Deny the join request of a peer, with a reason.
    Deny { peer_id: PeerId, reason: String },
    /// Get the link others join the room with.
    GetJoinLink,
}

/// What became of copying the join link to the clipboard.
#[derive(Debug, Clone)]
pub enum CopyOutcome {
    /// The link was copied.
    Copied,
    /// The clipboard refused the text, with this error.
    CopyFailed(String),
    /// The clipboard could not be opened, with this error.
    NoClipboard(String),
}

/// The client: whether it should quit, its screen, the room, the peers with their names,
/// the pending join requests and the status message.
pub struct CliApp {
    should_quit: bool,
    state: CliState,
    room_id: Option<RoomId>,
    peers: HashMap<u128, String>,
    pending_requests: HashMap<u128, ()>,
    status_message: Option<String>,
}

/// The client as values.
pub struct CliModel {
    pub should_quit: bool,
    pub screen: Screen,
    /// The link typed so far (empty outside the join screen).
    pub link: Seq<char>,
    pub room_id: Option<RoomId>,
    pub peers: Map<u128, Seq<char>>,
    pub pending: Set<u128>,
    pub status: Option<Seq<char>>,
}

/// The screen of a state.
pub open spec fn screen_of(s: CliState) -> Screen {
    match s {
        CliState::MainMenu => Screen::MainMenu,
        CliState::CreatingRoom => Screen::CreatingRoom,
        CliState::JoiningRoom { .. } => Screen::JoiningRoom,
        CliState::InRoom => Screen::InRoom,
    }
}

/// The link typed in a state.
pub open spec fn link_of(s: CliState) -> Seq<char> {
    match s {
        CliState::JoiningRoom { link } => link@,
        _ => Seq::empty(),
    }
}

/// The texts of an optional string.
pub open spec fn opt_text(s: Option<String>) -> Option<Seq<char>> {
    match s {
        Some(t) => Some(t@),
        None => None,
    }
}

impl View for CliApp {
    type V = CliModel;

    closed spec fn view(&self) -> CliModel {
        CliModel {
            should_quit: self.should_quit,
            screen: screen_of(self.state),
            link: link_of(self.state),
            room_id: self.room_id,
            peers: self.peers@.map_values(|s: String| s@),
            pending: self.pending_requests@.dom(),
            status: opt_text(self.status_message),
        }
    }
}

/// Two models are the same but for the status message.
pub open spec fn same_but_status(a: CliModel, b: CliModel) -> bool {
    &&& a.should_quit == b.should_quit
    &&& a.screen == b.screen
    &&& a.link == b.link
    &&& a.room_id == b.room_id
    &&& a.peers == b.peers
    &&& a.pending == b.pending
}

/// Two models are the same.
pub open spec fn same_model(a: CliModel, b: CliModel) -> bool {
    same_but_status(a, b) && a.status == b.status
}

/// `prefix` followed by the display text of peer `id`.
pub open spec fn about_peer(prefix: Seq<char>, id: u128) -> Seq<char> {
    prefix + peer_text(id)
}

/// What a key does to the client `old`, giving `new` and the request `r`.
pub open spec fn key_handled(old: CliModel, new: CliModel, key: Key, r: Option<CliRequest>) -> bool {
    match old.screen {
        Screen::MainMenu => {
            if key == Key::Char('q') || key == Key::Esc {
                &&& r is None
                &&& new == CliModel { should_quit: true, ..old }
            } else if key == Key::Char('c') {
                &&& r matches Some(CliRequest::CreateRoom)
                &&& new == CliModel {
                    screen: Screen::CreatingRoom,
                    status: Some("Creating room..."@),
                    ..old
                }
            } else if key == Key::Char('j') {
                &&& r is None
                &&& new == CliModel { screen: Screen::JoiningRoom, link: Seq::empty(), ..old }
            } else {
                r is None && same_model(new, old)
            }
        },
        Screen::JoiningRoom => {
            match key {
                Key::Esc => {
                    &&& r is None
                    &&& new == CliModel {
                        screen: Screen::MainMenu,
                        link: Seq::empty(),
                        status: None,
                        ..old
                    }
                },
                Key::Enter => {
                    &&& r matches Some(CliRequest::JoinRoom { link }) && link@ == old.link
                    &&& same_model(new, old)
                },
                Key::Char(c) => r is None && new == CliModel { link: old.link.push(c), ..old },
                Key::Backspace => {
                    &&& r is None
                    &&& new == CliModel {
                        link: if old.link.len() > 0 {
                            old.link.drop_last()
                        } else {
                            old.link
                        },
                        ..old
                    }
                },
                _ => r is None && same_model(new, old),
            }
        },
        Screen::InRoom => {
            &&& same_model(new, old)
            &&& if key == Key::Esc {
                r matches Some(CliRequest::LeaveRoom)
            } else if key == Key::Char('a') {
                if old.pending.is_empty() {
                    r is None
                } else {
                    r matches Some(CliRequest::Approve { peer_id }) && old.pending.contains(
                        peer_id@,
                    )
                }
            } else if key == Key::Char('d') {
                if old.pending.is_empty() {
                    r is None
                } else {
                    r matches Some(CliRequest::Deny { peer_id, reason }) && old.pending.contains(
                        peer_id@,
                    ) && reason@ == "Denied by user"@
                }
            } else if key == Key::Char('g') {
                r matches Some(CliRequest::GetJoinLink)
            } else {
                r is None
            }
        },
        Screen::CreatingRoom => r is None && same_model(new, old),
    }
}

/// On the join screen, typing a character and deleting it with Backspace gives the client
/// back as it was, and asks for nothing.
pub proof fn lemma_type_then_erase(
    old: CliModel,
    mid: CliModel,
    new: CliModel,
    c: char,
    r1: Option<CliRequest>,
    r2: Option<CliRequest>,
)
    requires
        old.screen == Screen::JoiningRoom,
        key_handled(old, mid, Key::Char(c), r1),
        key_handled(mid, new, Key::Backspace, r2),
    ensures
        new == old,
        r1 is None,
        r2 is None,
{
    assert(old.link.push(c).drop_last() =~= old.link);
}

/// What a room event does to the client `old`, whose own peer is `me`.
pub open spec fn event_applied(old: CliModel, new: CliModel, me: PeerId, event: RoomEvent) -> bool {
    match event {
        RoomEvent::PeerAdded(p) => {
            &&& new == CliModel {
                peers: old.peers.insert(
                    p@,
                    if p == me {
                        "You"@
                    } else {
                        about_peer("Peer "@, p@)
                    },
                ),
                ..old
            }
        },
        RoomEvent::PeerRemoved(p) => new == CliModel { peers: old.peers.remove(p@), ..old },
        RoomEvent::JoinRequestReceived(p) => {
            new == CliModel {
                pending: old.pending.insert(p@),
                status: Some(about_peer("Join request from "@, p@)),
                ..old
            }
        },
        RoomEvent::JoinRequestStatusChanged(p, s) => {
            new == CliModel {
                status: Some(about_peer("Join request from "@, p@) + " is now "@ + status_text(s)),
                ..old
            }
        },
        RoomEvent::PeerListUpdated => same_model(new, old),
    }
}

/// The status line at the top of the screen.
pub open spec fn status_line_text(m: CliModel) -> Seq<char> {
    match m.screen {
        Screen::MainMenu => "Main Menu"@,
        Screen::CreatingRoom => "Creating Room..."@,
        Screen::JoiningRoom => "Joining Room | Link: "@ + m.link,
        Screen::InRoom => "In Room: "@ + match m.room_id {
            Some(id) => crate::room_core::uuid_text(id@),
            None => "Unknown"@,
        } + " | Peers: "@ + decimal(m.peers.len()),
    }
}

fn text_of(prefix: &str, id: &PeerId) -> (s: String)
    ensures
        s@ == about_peer(prefix@, id@),
{
    let mut s = string_from(prefix);
    push_peer(&mut s, id);
    s
}

impl CliApp {
    /// Well-formed: the maps are finite.
    pub closed spec fn wf(&self) -> bool {
        self.peers@.dom().finite() && self.pending_requests@.dom().finite()
    }

    /// A client on the main menu, with no room, no peers and no message.
    pub fn new() -> (a: Self)
        ensures
            a.wf(),
            !a@.should_quit,
            a@.screen == Screen::MainMenu,
            a@.link == Seq::<char>::empty(),
            a@.room_id is None,
            a@.peers == Map::<u128, Seq<char>>::empty(),
            a@.pending == Set::<u128>::empty(),
            a@.status is None,
    {
        let a = CliApp {
            should_quit: false,
            state: CliState::MainMenu,
            room_id: None,
            peers: HashMap::new(),
            pending_requests: HashMap::new(),
            status_message: None,
        };
        assert(a@.peers =~= Map::<u128, Seq<char>>::empty());
        assert(a@.pending =~= Set::<u128>::empty());
        a
    }

    /// Whether the client should quit.
    pub fn should_quit(&self) -> (b: bool)
        ensures
            b == self@.should_quit,
    {
        self.should_quit
    }

    /// The screen the client shows.
    pub fn state(&self) -> (r: &CliState)
        ensures
            screen_of(*r) == self@.screen,
            link_of(*r) == self@.link,
    {
        &self.state
    }

    /// The peers of the room with their names.
    pub fn peers(&self) -> (r: &HashMap<u128, String>)
        ensures
            r@.map_values(|s: String| s@) == self@.peers,
    {
        &self.peers
    }

    /// The status message, if any.
    pub fn status_message(&self) -> (r: Option<String>)
        ensures
            opt_text(r) == self@.status,
    {
        match &self.status_message {
            Some(s) => Some(s.clone()),
            None => None,
        }
    }

    /// Whether a join request is pending.
    pub fn has_pending_requests(&self) -> (b: bool)
        ensures
            b == !self@.pending.is_empty(),
    {
        let b = self.pending_requests.len() > 0;
        proof {
            if !b {
                assert(self.pending_requests@.dom().len() == 0);
            } else {
                assert(self.pending_requests@.dom().len() > 0);
                assert(self.pending_requests@.dom() != Set::<u128>::empty());
            }
        }
        b
    }

    /// A pending join request, if there is one.
    fn first_pending(&self) -> (r: Option<u128>)
        ensures
            r is None <==> self@.pending.is_empty(),
            r matches Some(k) ==> self@.pending.contains(k),
    {
        let mut v: Vec<u128> = Vec::new();
        let ghost g = vstd::std_specs::hash::spec_keys_iter(&self.pending_requests);
        for k in it: self.pending_requests.keys()
            invariant
                v@ == it.seq().take(it.index() as int).unref(),
                it.seq() == vstd::std_specs::iter::IteratorSpec::remaining(&g),
            ensures
                v@ == it.seq().unref(),
        {
            v.push(*k);
            proof {
                assert(v@ =~= it.seq().take(it.index() + 1).unref());
            }
        }
        assert(v@.to_set() == self.pending_requests@.dom());
        if v.len() == 0 {
            assert(self.pending_requests@.dom() =~= Set::<u128>::empty());
            None
        } else {
            assert(v@.to_set().contains(v@[0]));
            proof {
                if self@.pending.is_empty() {
                    assert(self@.pending.contains(v@[0]));
                }
            }
            Some(v[0])
        }
    }

    /// Handles a key: the next state and, at most, one request to perform.
    pub fn handle_key(&mut self, key: Key) -> (r: Option<CliRequest>)
        requires
            old(self).wf(),
        ensures
            final(self).wf(),
            key_handled(old(self)@, final(self)@, key, r),
    {
        match &self.state {
            CliState::MainMenu => {
                if key == Key::Char('q') || key == Key::Esc {
                    self.should_quit = true;
                    None
                } else if key == Key::Char('c') {
                    self.state = CliState::CreatingRoom;
                    self.status_message = Some(string_from("Creating room..."));
                    Some(CliRequest::CreateRoom)
                } else if key == Key::Char('j') {
                    self.state = CliState::JoiningRoom { link: String::new() };
                    None
                } else {
                    None
                }
            },
            CliState::JoiningRoom { link } => {
                match key {
                    Key::Esc => {
                        self.state = CliState::MainMenu;
                        self.status_message = None;
                        None
                    },
                    Key::Enter => Some(CliRequest::JoinRoom { link: link.clone() }),
                    Key::Char(c) => {
                        let mut t = link.clone();
                        crate::text::push_char(&mut t, c);
                        self.state = CliState::JoiningRoom { link: t };
                        None
                    },
                    Key::Backspace => {
                        let v = chars_of(link.as_str());
                        if v.len() > 0 {
                            let w = slice_chars(&v, 0, v.len() - 1);
                            assert(w@ =~= link@.drop_last());
                            self.state = CliState::JoiningRoom { link: string_of(&w) };
                        }
                        None
                    },
                    _ => None,
                }
            },
            CliState::InRoom => {
                if key == Key::Esc {
                    Some(CliRequest::LeaveRoom)
                } else if key == Key::Char('a') {
                    match self.first_pending() {
                        Some(k) => Some(CliRequest::Approve { peer_id: PeerId::from_u128(k) }),
                        None => None,
                    }
                } else if key == Key::Char('d') {
                    match self.first_pending() {
                        Some(k) => Some(
                            CliRequest::Deny {
                                peer_id: PeerId::from_u128(k),
                                reason: string_from("Denied by user"),
                            },
                        ),
                        None => None,
                    }
                } else if key == Key::Char('g') {
                    Some(CliRequest::GetJoinLink)
                } else {
                    None
                }
            },
            CliState::CreatingRoom => None,
        }
    }

    /// The network adapter answered a `CreateRoom` request.
    pub fn on_create_result(&mut self, result: Result<(), String>)
        requires
            old(self).wf(),
        ensures
            final(self).wf(),
            result is Ok ==> final(self)@ == (CliModel {
                screen: Screen::InRoom,
                link: Seq::empty(),
                status: Some("Room created, waiting for peers"@),
                ..old(self)@
            }),
            result matches Err(e) ==> final(self)@ == (CliModel {
                screen: Screen::MainMenu,
                link: Seq::empty(),
                status: Some("Error creating room: "@ + e@),
                ..old(self)@
            }),
    {
        match result {
            Ok(()) => {
                self.status_message = Some(string_from("Room created, waiting for peers"));
                self.state = CliState::InRoom;
            },
            Err(e) => {
                let mut m = string_from("Error creating room: ");
                push_str(&mut m, e.as_str());
                self.status_message = Some(m);
                self.state = CliState::MainMenu;
            },
        }
    }

    /// The network adapter answered a `JoinRoom` request for `link`.
    pub fn on_join_result(&mut self, link: &str, result: Result<(), String>)
        requires
            old(self).wf(),
        ensures
            final(self).wf(),
            result is Ok ==> final(self)@ == (CliModel {
                screen: Screen::InRoom,
                link: Seq::empty(),
                status: Some("Joining room via "@ + link@),
                ..old(self)@
            }),
            result matches Err(e) ==> final(self)@ == (CliModel {
                status: Some("Error: "@ + e@),
                ..old(self)@
            }),
    {
        match result {
            Ok(()) => {
                self.state = CliState::InRoom;
                let mut m = string_from("Joining room via ");
                push_str(&mut m, link);
                self.status_message = Some(m);
            },
            Err(e) => {
                let mut m = string_from("Error: ");
                push_str(&mut m, e.as_str());
                self.status_message = Some(m);
            },
        }
    }

    /// The room was left: back to the main menu, with no room, peers, requests or message.
    pub fn on_left_room(&mut self)
        requires
            old(self).wf(),
        ensures
            final(self).wf(),
            final(self)@ == (CliModel {
                screen: Screen::MainMenu,
                link: Seq::empty(),
                room_id: None,
                peers: Map::empty(),
                pending: Set::empty(),
                status: None,
                ..old(self)@
            }),
    {
        self.state = CliState::MainMenu;
        self.room_id = None;
        self.peers.clear();
        self.pending_requests.clear();
        self.status_message = None;
        assert(self@.peers =~= Map::<u128, Seq<char>>::empty());
        assert(self@.pending =~= Set::<u128>::empty());
    }

    /// The join request of `peer_id` was answered: it is no longer pending, and the status
    /// says how it was answered.
    pub fn on_request_answered(&mut self, peer_id: PeerId, approved: bool)
        requires
            old(self).wf(),
        ensures
            final(self).wf(),
            final(self)@ == (CliModel {
                pending: old(self)@.pending.remove(peer_id@),
                status: Some(
                    about_peer(
                        if approved {
                            "Approved join request from "@
                        } else {
                            "Denied join request from "@
                        },
                        peer_id@,
                    ),
                ),
                ..old(self)@
            }),
    {
        self.pending_requests.remove(&peer_id.as_u128());
        let m = if approved {
            text_of("Approved join request from ", &peer_id)
        } else {
            text_of("Denied join request from ", &peer_id)
        };
        self.status_message = Some(m);
        assert(self@.pending =~= old(self)@.pending.remove(peer_id@));
    }

    /// The join link arrived, or could not be had: the link to copy, if any.
    pub fn on_join_link(&mut self, result: Result<String, String>) -> (r: Option<String>)
        requires
            old(self).wf(),
        ensures
            final(self).wf(),
            result matches Ok(l) ==> (r matches Some(x) && x@ == l@) && same_model(
                final(self)@,
                old(self)@,
            ),
            result matches Err(e) ==> r is None && final(self)@ == (CliModel {
                status: Some("Error getting join link: "@ + e@),
                ..old(self)@
            }),
    {
        match result {
            Ok(l) => Some(l),
            Err(e) => {
                let mut m = string_from("Error getting join link: ");
                push_str(&mut m, e.as_str());
                self.status_message = Some(m);
                None
            },
        }
    }

    /// Copying the join link ended: the status says how.
    pub fn on_copied(&mut self, outcome: CopyOutcome)
        requires
            old(self).wf(),
        ensures
            final(self).wf(),
            final(self)@ == (CliModel {
                status: Some(
                    match outcome {
                        CopyOutcome::Copied => "Join link copied to clipboard!"@,
                        CopyOutcome::CopyFailed(e) => "Error copying link: "@ + e@,
                        CopyOutcome::NoClipboard(e) => "Error accessing clipboard: "@ + e@,
                    },
                ),
                ..old(self)@
            }),
    {
        let m = match outcome {
            CopyOutcome::Copied => string_from("Join link copied to clipboard!"),
            CopyOutcome::CopyFailed(e) => {
                let mut m = string_from("Error copying link: ");
                push_str(&mut m, e.as_str());
                m
            },
            CopyOutcome::NoClipboard(e) => {
                let mut m = string_from("Error accessing clipboard: ");
                push_str(&mut m, e.as_str());
                m
            },
        };
        self.status_message = Some(m);
    }

    /// Applies an event of the room; `me` is our own peer.
    pub fn process_event(&mut self, event: RoomEvent, me: PeerId)
        requires
            old(self).wf(),
        ensures
            final(self).wf(),
            event_applied(old(self)@, final(self)@, me, event),
    {
        match event {
            RoomEvent::PeerAdded(p) => {
                let name = if p == me {
                    string_from("You")
                } else {
                    text_of("Peer ", &p)
                };
                let ghost n = name@;
                self.peers.insert(p.as_u128(), name);
                assert(self@.peers =~= old(self)@.peers.insert(p@, n));
            },
            RoomEvent::PeerRemoved(p) => {
                self.peers.remove(&p.as_u128());
                assert(self@.peers =~= old(self)@.peers.remove(p@));
            },
            RoomEvent::JoinRequestReceived(p) => {
                self.pending_requests.insert(p.as_u128(), ());
                self.status_message = Some(text_of("Join request from ", &p));
                assert(self@.pending =~= old(self)@.pending.insert(p@));
            },
            RoomEvent::JoinRequestStatusChanged(p, s) => {
                let mut m = text_of("Join request from ", &p);
                push_str(&mut m, " is now ");
                let t = s.to_display_string();
                push_str(&mut m, t.as_str());
                self.status_message = Some(m);
            },
            RoomEvent::PeerListUpdated => {},
        }
    }

    /// The status line at the top of the screen.
    pub fn status_line(&self) -> (s: String)
        requires
            self.wf(),
        ensures
            s@ == status_line_text(self@),
    {
        match &self.state {
            CliState::MainMenu => string_from("Main Menu"),
            CliState::CreatingRoom => string_from("Creating Room..."),
            CliState::JoiningRoom { link } => {
                let mut s = string_from("Joining Room | Link: ");
                push_str(&mut s, link.as_str());
                s
            },
            CliState::InRoom => {
                let mut s = string_from("In Room: ");
                match &self.room_id {
                    Some(id) => {
                        let t = id.to_display_string();
                        push_str(&mut s, t.as_str());
                    },
                    None => push_str(&mut s, "Unknown"),
                }
                push_str(&mut s, " | Peers: ");
                let n = self.peers.len();
                proof {
                    assert(self.peers@.map_values(|s: String| s@).dom() =~= self.peers@.dom());
                }
                push_decimal(&mut s, n as u64);
                s
            },
        }
    }
}

} // verus!
