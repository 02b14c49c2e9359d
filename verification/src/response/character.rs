//! An account's profile: its display name and its roster.

use crate::enums::CharacterClass;
use crate::response::pgcr::UserInfoCard;
use crate::syncmodel::RosterEntryView;
use vstd::prelude::*;

verus! {

/// A roster entry as the remote service lists it. The time of last play is
/// in seconds since the epoch.
#[derive(Debug)]
pub struct CharacterData {
    pub id: String,
    pub class_type: CharacterClass,
    pub date_last_played: i64,
}

#[derive(Debug)]
pub struct CharactersData {
    pub characters: Vec<CharacterData>,
}

#[derive(Debug)]
pub struct PlayerInfo {
    pub user_info: UserInfoCard,
    pub characters: CharactersData,
}

impl View for CharacterData {
    type V = RosterEntryView;

    open spec fn view(&self) -> RosterEntryView {
        RosterEntryView { id: self.id@, class: self.class_type.spec_to_id() }
    }
}

/// The roster entries of a list, in order.
pub open spec fn roster_views(roster: Seq<CharacterData>) -> Seq<RosterEntryView> {
    Seq::new(roster.len(), |i: int| roster[i]@)
}

/// The position of the first entry of a class, if the roster has one.
pub open spec fn first_of_class(roster: Seq<CharacterData>, class: CharacterClass) -> Option<int> {
    if exists|i: int| 0 <= i < roster.len() && (#[trigger] roster[i]).class_type == class {
        Some(
            choose|i: int|
                0 <= i < roster.len() && (#[trigger] roster[i]).class_type == class && forall|
                    j: int,
                |
                    0 <= j < i ==> (#[trigger] roster[j]).class_type != class,
        )
    } else {
        None
    }
}

/// Whether the entry at `at` was played last: no entry was played later,
/// and none before it was played as late.
pub open spec fn is_last_active(roster: Seq<CharacterData>, at: int) -> bool {
    &&& 0 <= at < roster.len()
    &&& forall|j: int|
        0 <= j < roster.len() ==> (#[trigger] roster[j]).date_last_played
            <= roster[at].date_last_played
    &&& forall|j: int|
        0 <= j < at ==> (#[trigger] roster[j]).date_last_played < roster[at].date_last_played
}

impl CharactersData {
    /// The first roster entry of a class.
    pub fn get_by_class_ref(&self, class_type: CharacterClass) -> (found: Option<&CharacterData>)
        ensures
            match found {
                Some(entry) => {
                    &&& first_of_class(self.characters@, class_type) is Some
                    &&& entry == self.characters@[first_of_class(
                        self.characters@,
                        class_type,
                    )->Some_0]
                    &&& entry.class_type == class_type
                },
                None => forall|i: int|
                    0 <= i < self.characters@.len() ==> (#[trigger] self.characters@[i]).class_type
                        != class_type,
            },
    {
        let mut i: usize = 0;
        while i < self.characters.len()
            invariant
                i <= self.characters.len(),
                forall|j: int| 0 <= j < i ==> (#[trigger] self.characters@[j]).class_type != class_type,
            decreases self.characters.len() - i,
        {
            if self.characters[i].class_type == class_type {
                proof {
                    let roster = self.characters@;
                    let at = first_of_class(roster, class_type)->Some_0;
                    assert(0 <= at < roster.len() && roster[at].class_type == class_type
                        && forall|j: int|
                        0 <= j < at ==> (#[trigger] roster[j]).class_type != class_type);
                    if at < i {
                        assert(roster[at].class_type != class_type);
                    } else if i < at {
                        assert(roster[i as int].class_type != class_type);
                    }
                }
                return Some(&self.characters[i]);
            }
            i = i + 1;
        }
        None
    }

    /// The roster entry that was played last; among entries played at the
    /// same time, the first.
    pub fn get_last_active_ref(&self) -> (found: Option<&CharacterData>)
        ensures
            match found {
                Some(entry) => exists|at: int|
                    is_last_active(self.characters@, at) && entry == self.characters@[at],
                None => self.characters@.len() == 0,
            },
    {
        if self.characters.len() == 0 {
            return None;
        }
        let mut best: usize = 0;
        let mut i: usize = 1;
        while i < self.characters.len()
            invariant
                1 <= i <= self.characters.len(),
                best < i,
                forall|j: int|
                    0 <= j < i ==> (#[trigger] self.characters@[j]).date_last_played
                        <= self.characters@[best as int].date_last_played,
                forall|j: int|
                    0 <= j < best ==> (#[trigger] self.characters@[j]).date_last_played
                        < self.characters@[best as int].date_last_played,
            decreases self.characters.len() - i,
        {
            if self.characters[i].date_last_played > self.characters[best].date_last_played {
                best = i;
            }
            i = i + 1;
        }
        assert(is_last_active(self.characters@, best as int));
        Some(&self.characters[best])
    }
}

} // verus!
