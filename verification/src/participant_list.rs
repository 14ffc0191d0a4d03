//! The participant list of the terminal interface and the selection in it.

use vstd::prelude::*;
use crate::room_core::{new_uuid_string, uuid_text};
use crate::text::string_from;

verus! {

/// A participant of the audio session, as the list shows it.
#[derive(Debug, Clone)]
pub struct Participant {
    pub id: String,
    pub name: String,
    pub is_speaking: bool,
}

/// A participant as values: identifier, name, and whether they speak.
pub open spec fn participant_view(p: Participant) -> (Seq<char>, Seq<char>, bool) {
    (p.id@, p.name@, p.is_speaking)
}

/// Participants as values.
pub open spec fn participants_view(v: Seq<Participant>) -> Seq<(Seq<char>, Seq<char>, bool)> {
    v.map_values(|p: Participant| participant_view(p))
}

fn copy_participant(p: &Participant) -> (c: Participant)
    ensures
        participant_view(c) == participant_view(*p),
{
    Participant { id: p.id.clone(), name: p.name.clone(), is_speaking: p.is_speaking }
}

impl Participant {
    /// A participant named `name`, with a random UUID, not speaking.
    pub fn new(name: &str) -> (p: Self)
        ensures
            exists|x: u128| p.id@ == uuid_text(x),
            p.name@ == name@,
            !p.is_speaking,
    {
        Participant { id: new_uuid_string(), name: string_from(name), is_speaking: false }
    }
}

/// The participants and the selected one.
pub struct ParticipantListWidget {
    participants: Vec<Participant>,
    selected: Option<usize>,
}

/// The index `select_next` moves to from `selected` in a list of `len`: the next one,
/// wrapping to the first after the last.
pub open spec fn next_index(selected: Option<usize>, len: nat) -> usize {
    match selected {
        Some(i) => if i >= len - 1 {
            0
        } else {
            (i + 1) as usize
        },
        None => 0,
    }
}

/// The index `select_previous` moves to from `selected` in a list of `len`: the previous
/// one, wrapping to the last before the first.
pub open spec fn previous_index(selected: Option<usize>, len: nat) -> usize {
    match selected {
        Some(i) => if i == 0 {
            if len == 0 {
                0
            } else {
                (len - 1) as usize
            }
        } else {
            (i - 1) as usize
        },
        None => 0,
    }
}

/// In a list of `len`, moving to the next participant and back to the previous one returns
/// to the participant selected first.
pub proof fn lemma_next_then_previous(i: usize, len: nat)
    requires
        i < len <= usize::MAX,
    ensures
        previous_index(Some(next_index(Some(i), len)), len) == i,
{
}

impl ParticipantListWidget {
    /// The participants, as values.
    pub closed spec fn shown(&self) -> Seq<(Seq<char>, Seq<char>, bool)> {
        participants_view(self.participants@)
    }

    /// The selected index.
    pub closed spec fn selection(&self) -> Option<usize> {
        self.selected
    }

    /// An empty list with nothing selected.
    pub fn new() -> (w: Self)
        ensures
            w.shown().len() == 0,
            w.selection() is None,
    {
        ParticipantListWidget { participants: Vec::new(), selected: None }
    }

    /// Replaces the participants; the selection stays.
    pub fn set_participants(&mut self, participants: Vec<Participant>)
        ensures
            final(self).shown() == participants_view(participants@),
            final(self).selection() == old(self).selection(),
    {
        self.participants = participants;
    }

    /// The participants.
    pub fn get_participants(&self) -> (r: Vec<Participant>)
        ensures
            participants_view(r@) == self.shown(),
    {
        let mut r: Vec<Participant> = Vec::new();
        let mut i: usize = 0;
        while i < self.participants.len()
            invariant
                i <= self.participants.len(),
                participants_view(r@) == participants_view(self.participants@).take(i as int),
            decreases self.participants.len() - i,
        {
            let ghost before = r@;
            let p = copy_participant(&self.participants[i]);
            r.push(p);
            assert(participants_view(r@) =~= participants_view(before).push(participant_view(p)));
            i = i + 1;
            assert(participants_view(r@) =~= participants_view(self.participants@).take(i as int));
        }
        assert(participants_view(self.participants@).take(self.participants.len() as int)
            =~= participants_view(self.participants@));
        r
    }

    /// Selects the next participant, wrapping to the first after the last; the first when
    /// none is selected.
    pub fn select_next(&mut self)
        requires
            old(self).selection() is Some ==> old(self).shown().len() > 0,
        ensures
            final(self).shown() == old(self).shown(),
            final(self).selection() == Some(next_index(old(self).selection(), old(self).shown().len())),
    {
        let len = self.participants.len();
        let i: usize = match self.selected {
            Some(i) => if i >= len - 1 {
                0
            } else {
                i + 1
            },
            None => 0,
        };
        self.selected = Some(i);
    }

    /// Selects the previous participant, wrapping to the last before the first; the first
    /// when none is selected.
    pub fn select_previous(&mut self)
        ensures
            final(self).shown() == old(self).shown(),
            final(self).selection() == Some(
                previous_index(old(self).selection(), old(self).shown().len()),
            ),
    {
        let len = self.participants.len();
        let i: usize = match self.selected {
            Some(i) => if i == 0 {
                if len == 0 {
                    0
                } else {
                    len - 1
                }
            } else {
                i - 1
            },
            None => 0,
        };
        self.selected = Some(i);
    }

    /// The selected participant: none in an empty list or when nothing is selected.
    pub fn selected(&self) -> (r: Option<Participant>)
        requires
            self.shown().len() > 0 && self.selection() is Some ==> self.selection().unwrap()
                < self.shown().len(),
        ensures
            self.shown().len() == 0 ==> r is None,
            self.shown().len() > 0 ==> match self.selection() {
                Some(i) => r matches Some(p) && participant_view(p) == self.shown()[i as int],
                None => r is None,
            },
    {
        if self.participants.len() == 0 {
            return None;
        }
        match self.selected {
            Some(i) => Some(copy_participant(&self.participants[i])),
            None => None,
        }
    }
}

} // verus!
