//! The tables of a store as they are read from where the store is kept,
//! and the test that decides whether they obey the rules of the store.
//!
//! Checking the accounts and the characters takes time quadratic in their
//! number; everything else is checked in one pass.

use crate::storemodel::{
    character_views, id_in, medal_result_views, member_views, ActivityRow,
    CharacterActivityStatsRow, CharacterRow, MedalResultRow, MemberRow, ModeRow, QueueRow,
    StoreState, TeamResultRow, WeaponResultRow, TABLE_CAPACITY,
};
use std::collections::HashSet;
use vstd::prelude::*;

verus! {

broadcast use vstd::std_specs::hash::group_hash_axioms;

/// What is read from where a store is kept: the structural version it was
/// written with, and its rows.
#[derive(Debug)]
pub struct StoredTables {
    pub version: i32,
    pub members: Vec<MemberRow>,
    pub characters: Vec<CharacterRow>,
    pub activities: Vec<ActivityRow>,
    pub modes: Vec<ModeRow>,
    pub team_results: Vec<TeamResultRow>,
    pub character_activity_stats: Vec<CharacterActivityStatsRow>,
    pub medal_results: Vec<MedalResultRow>,
    pub weapon_results: Vec<WeaponResultRow>,
    pub activity_queue: Vec<QueueRow>,
}

impl View for StoredTables {
    type V = StoreState;

    open spec fn view(&self) -> StoreState {
        StoreState {
            members: member_views(self.members@),
            characters: character_views(self.characters@),
            activities: self.activities@,
            modes: self.modes@,
            team_results: self.team_results@,
            stats: self.character_activity_stats@,
            medals: medal_result_views(self.medal_results@),
            weapons: self.weapon_results@,
            queue: self.activity_queue@,
        }
    }
}

/// Whether no key occurs twice.
pub open spec fn all_distinct(keys: Seq<u128>) -> bool {
    forall|i: int, j: int| 0 <= i < j < keys.len() ==> keys[i] != keys[j]
}

/// Whether no key occurs twice in a list.
pub fn distinct(keys: &Vec<u128>) -> (ok: bool)
    ensures
        ok == all_distinct(keys@),
{
    let mut seen: HashSet<u128> = HashSet::new();
    let mut i: usize = 0;
    while i < keys.len()
        invariant
            i <= keys.len(),
            forall|a: int, b: int| 0 <= a < b < i ==> keys@[a] != keys@[b],
            forall|k: u128| seen@.contains(k) <==> exists|a: int| 0 <= a < i && keys@[a] == k,
        decreases keys.len() - i,
    {
        let key = keys[i];
        let ghost before = seen@;
        if !seen.insert(key) {
            proof {
                let a = choose|a: int| 0 <= a < i && keys@[a] == key;
                assert(keys@[a] == keys@[i as int]);
            }
            return false;
        }
        assert forall|k: u128| seen@.contains(k) <==> exists|a: int|
            0 <= a < i + 1 && keys@[a] == k by {
            if k == key {
                assert(keys@[i as int] == k);
            } else if before.contains(k) {
                let a = choose|a: int| 0 <= a < i && keys@[a] == k;
                assert(0 <= a < i + 1 && keys@[a] == k);
            }
        }
        i = i + 1;
    }
    true
}

/// The key that stands for a match in a test for twins.
pub open spec fn activity_key(row: ActivityRow) -> u128 {
    (row.activity_id + 0x8000_0000_0000_0000) as u128
}

/// The key that stands for an outcome with valid references in a test for
/// twins.
pub open spec fn stats_key(row: CharacterActivityStatsRow) -> u128 {
    (row.character * 0x1_0000_0000 + row.activity) as u128
}

/// The key that stands for a queue entry with a valid reference in a test
/// for twins.
pub open spec fn queue_key(row: QueueRow) -> u128 {
    ((row.activity_id + 0x8000_0000_0000_0000) * 0x1_0000_0000 + row.character) as u128
}

/// Whether no two accounts share a remote identifier.
fn members_distinct(rows: &Vec<MemberRow>) -> (ok: bool)
    ensures
        ok == forall|i: int, j: int|
            0 <= i < j < rows@.len() ==> rows@[i].member_id@ != rows@[j].member_id@,
{
    let mut j: usize = 0;
    while j < rows.len()
        invariant
            j <= rows.len(),
            forall|a: int, b: int| 0 <= a < b < j ==> rows@[a].member_id@ != rows@[b].member_id@,
        decreases rows.len() - j,
    {
        let mut i: usize = 0;
        while i < j
            invariant
                i <= j < rows.len(),
                forall|a: int| 0 <= a < i ==> rows@[a].member_id@ != rows@[j as int].member_id@,
            decreases j - i,
        {
            if rows[i].member_id == rows[j].member_id {
                return false;
            }
            i = i + 1;
        }
        j = j + 1;
    }
    true
}

/// Whether no two characters share a remote identifier.
fn characters_distinct(rows: &Vec<CharacterRow>) -> (ok: bool)
    ensures
        ok == forall|i: int, j: int|
            0 <= i < j < rows@.len() ==> rows@[i].character_id@ != rows@[j].character_id@,
{
    let mut j: usize = 0;
    while j < rows.len()
        invariant
            j <= rows.len(),
            forall|a: int, b: int|
                0 <= a < b < j ==> rows@[a].character_id@ != rows@[b].character_id@,
        decreases rows.len() - j,
    {
        let mut i: usize = 0;
        while i < j
            invariant
                i <= j < rows.len(),
                forall|a: int| 0 <= a < i ==> rows@[a].character_id@ != rows@[j as int].character_id@,
            decreases j - i,
        {
            if rows[i].character_id == rows[j].character_id {
                return false;
            }
            i = i + 1;
        }
        j = j + 1;
    }
    true
}

/// Whether a row identifier names one of the first `rows` rows.
fn names_row(id: i32, rows: usize) -> (ok: bool)
    ensures
        ok == id_in(id, rows as nat),
{
    id >= 1 && id as usize <= rows
}

impl StoredTables {
    /// Whether the accounts obey the rules of the store.
    fn members_obey(&self) -> (ok: bool)
        ensures
            ok == self@.members_wf(),
    {
        if self.members.len() > TABLE_CAPACITY {
            return false;
        }
        let ok = members_distinct(&self.members);
        proof {
            if ok {
                assert forall|i: int, j: int| 0 <= i < j < self@.members.len() implies self@.members[i].member_id
                    != self@.members[j].member_id by {
                    assert(self.members@[i].member_id@ != self.members@[j].member_id@);
                }
            } else {
                let (i, j) = choose|i: int, j: int|
                    0 <= i < j < self.members@.len() && self.members@[i].member_id@
                        == self.members@[j].member_id@;
                assert(self@.members[i].member_id == self@.members[j].member_id);
            }
        }
        ok
    }

    /// Whether the characters obey the rules of the store.
    fn characters_obey(&self) -> (ok: bool)
        ensures
            ok == self@.characters_wf(),
    {
        if self.characters.len() > TABLE_CAPACITY {
            return false;
        }
        let mut i: usize = 0;
        while i < self.characters.len()
            invariant
                i <= self.characters.len(),
                forall|k: int|
                    0 <= k < i ==> id_in(
                        (#[trigger] self@.characters[k]).member,
                        self@.members.len(),
                    ),
            decreases self.characters.len() - i,
        {
            if !names_row(self.characters[i].member, self.members.len()) {
                assert(!id_in(self@.characters[i as int].member, self@.members.len()));
                return false;
            }
            i = i + 1;
        }
        let ok = characters_distinct(&self.characters);
        proof {
            if ok {
                assert forall|i: int, j: int|
                    0 <= i < j < self@.characters.len() implies self@.characters[i].character_id
                    != self@.characters[j].character_id by {
                    assert(self.characters@[i].character_id@ != self.characters@[j].character_id@);
                }
            } else {
                let (i, j) = choose|i: int, j: int|
                    0 <= i < j < self.characters@.len() && self.characters@[i].character_id@
                        == self.characters@[j].character_id@;
                assert(self@.characters[i].character_id == self@.characters[j].character_id);
            }
        }
        ok
    }

    /// Whether the matches obey the rules of the store.
    fn activities_obey(&self) -> (ok: bool)
        ensures
            ok == self@.activities_wf(),
    {
        if self.activities.len() > TABLE_CAPACITY {
            return false;
        }
        let mut keys: Vec<u128> = Vec::new();
        let mut i: usize = 0;
        while i < self.activities.len()
            invariant
                i <= self.activities.len(),
                keys@.len() == i,
                forall|k: int| 0 <= k < i ==> keys@[k] == activity_key(self.activities@[k]),
            decreases self.activities.len() - i,
        {
            let id = self.activities[i].activity_id;
            keys.push((id as i128 + 0x8000_0000_0000_0000i128) as u128);
            i = i + 1;
        }
        let ok = distinct(&keys);
        proof {
            if ok {
                assert forall|i: int, j: int|
                    0 <= i < j < self@.activities.len() implies self@.activities[i].activity_id
                    != self@.activities[j].activity_id by {
                    assert(keys@[i] != keys@[j]);
                }
            } else {
                let (i, j) = choose|i: int, j: int|
                    0 <= i < j < keys@.len() && keys@[i] == keys@[j];
                assert(self@.activities[i].activity_id == self@.activities[j].activity_id);
            }
        }
        ok
    }

    /// Whether the outcomes obey the rules of the store.
    fn stats_obey(&self) -> (ok: bool)
        ensures
            ok == self@.stats_wf(),
    {
        if self.character_activity_stats.len() > TABLE_CAPACITY {
            return false;
        }
        let mut keys: Vec<u128> = Vec::new();
        let mut i: usize = 0;
        while i < self.character_activity_stats.len()
            invariant
                i <= self.character_activity_stats.len(),
                keys@.len() == i,
                forall|k: int|
                    0 <= k < i ==> id_in(
                        (#[trigger] self@.stats[k]).character,
                        self@.characters.len(),
                    ) && id_in(self@.stats[k].activity, self@.activities.len()),
                forall|k: int| 0 <= k < i ==> keys@[k] == stats_key(self@.stats[k]),
            decreases self.character_activity_stats.len() - i,
        {
            let row = &self.character_activity_stats[i];
            if !names_row(row.character, self.characters.len()) || !names_row(
                row.activity,
                self.activities.len(),
            ) {
                assert(!(id_in(self@.stats[i as int].character, self@.characters.len()) && id_in(
                    self@.stats[i as int].activity,
                    self@.activities.len(),
                )));
                return false;
            }
            keys.push(row.character as u128 * 0x1_0000_0000u128 + row.activity as u128);
            i = i + 1;
        }
        let ok = distinct(&keys);
        proof {
            if ok {
                assert forall|i: int, j: int| 0 <= i < j < self@.stats.len() implies !(
                self@.stats[i].character == self@.stats[j].character && self@.stats[i].activity
                    == self@.stats[j].activity) by {
                    assert(keys@[i] != keys@[j]);
                }
            } else {
                let (i, j) = choose|i: int, j: int|
                    0 <= i < j < keys@.len() && keys@[i] == keys@[j];
                assert(id_in(self@.stats[i].character, self@.characters.len()));
                assert(id_in(self@.stats[j].character, self@.characters.len()));
                assert(self@.stats[i].character == self@.stats[j].character
                    && self@.stats[i].activity == self@.stats[j].activity);
            }
        }
        ok
    }

    /// Whether the mode tags, team results, medals and weapons obey the
    /// rules of the store.
    fn details_obey(&self) -> (ok: bool)
        ensures
            ok == self@.details_wf(),
    {
        let mut i: usize = 0;
        while i < self.modes.len()
            invariant
                i <= self.modes.len(),
                forall|k: int|
                    0 <= k < i ==> id_in((#[trigger] self@.modes[k]).activity, self@.activities.len()),
            decreases self.modes.len() - i,
        {
            if !names_row(self.modes[i].activity, self.activities.len()) {
                assert(!id_in(self@.modes[i as int].activity, self@.activities.len()));
                return false;
            }
            i = i + 1;
        }
        let mut i: usize = 0;
        while i < self.team_results.len()
            invariant
                i <= self.team_results.len(),
                forall|k: int|
                    0 <= k < i ==> id_in(
                        (#[trigger] self@.team_results[k]).activity,
                        self@.activities.len(),
                    ),
            decreases self.team_results.len() - i,
        {
            if !names_row(self.team_results[i].activity, self.activities.len()) {
                assert(!id_in(self@.team_results[i as int].activity, self@.activities.len()));
                return false;
            }
            i = i + 1;
        }
        let mut i: usize = 0;
        while i < self.medal_results.len()
            invariant
                i <= self.medal_results.len(),
                forall|k: int|
                    0 <= k < i ==> id_in(
                        (#[trigger] self@.medals[k]).character_activity_stats,
                        self@.stats.len(),
                    ),
            decreases self.medal_results.len() - i,
        {
            if !names_row(
                self.medal_results[i].character_activity_stats,
                self.character_activity_stats.len(),
            ) {
                assert(!id_in(self@.medals[i as int].character_activity_stats, self@.stats.len()));
                return false;
            }
            i = i + 1;
        }
        let mut i: usize = 0;
        while i < self.weapon_results.len()
            invariant
                i <= self.weapon_results.len(),
                forall|k: int|
                    0 <= k < i ==> id_in(
                        (#[trigger] self@.weapons[k]).character_activity_stats,
                        self@.stats.len(),
                    ),
            decreases self.weapon_results.len() - i,
        {
            if !names_row(
                self.weapon_results[i].character_activity_stats,
                self.character_activity_stats.len(),
            ) {
                assert(!id_in(self@.weapons[i as int].character_activity_stats, self@.stats.len()));
                return false;
            }
            i = i + 1;
        }
        true
    }

    /// Whether the queue obeys the rules of the store.
    fn queue_obeys(&self) -> (ok: bool)
        ensures
            ok == self@.queue_wf(),
    {
        if self.activity_queue.len() > TABLE_CAPACITY {
            return false;
        }
        let mut keys: Vec<u128> = Vec::new();
        let mut i: usize = 0;
        while i < self.activity_queue.len()
            invariant
                i <= self.activity_queue.len(),
                keys@.len() == i,
                forall|k: int|
                    0 <= k < i ==> id_in(
                        (#[trigger] self@.queue[k]).character,
                        self@.characters.len(),
                    ),
                forall|k: int| 0 <= k < i ==> keys@[k] == queue_key(self@.queue[k]),
            decreases self.activity_queue.len() - i,
        {
            let row = &self.activity_queue[i];
            if !names_row(row.character, self.characters.len()) {
                assert(!id_in(self@.queue[i as int].character, self@.characters.len()));
                return false;
            }
            let shifted: u128 = (row.activity_id as i128 + 0x8000_0000_0000_0000i128) as u128;
            keys.push(shifted * 0x1_0000_0000u128 + row.character as u128);
            i = i + 1;
        }
        let ok = distinct(&keys);
        proof {
            if ok {
                assert forall|i: int, j: int| 0 <= i < j < self@.queue.len() implies self@.queue[i]
                    != self@.queue[j] by {
                    assert(keys@[i] != keys@[j]);
                }
            } else {
                let (i, j) = choose|i: int, j: int|
                    0 <= i < j < keys@.len() && keys@[i] == keys@[j];
                assert(id_in(self@.queue[i].character, self@.characters.len()));
                assert(id_in(self@.queue[j].character, self@.characters.len()));
                assert(self@.queue[i].character == self@.queue[j].character
                    && self@.queue[i].activity_id == self@.queue[j].activity_id);
                assert(self@.queue[i] == self@.queue[j]);
            }
        }
        ok
    }

    /// Whether the tables obey the rules of the store: no account, no
    /// character, no match, no outcome and no queue entry has a twin,
    /// every reference names a stored row, and no table with row
    /// identifiers holds more rows than there are identifiers.
    pub fn obey_rules(&self) -> (ok: bool)
        ensures
            ok == self@.wf(),
    {
        self.members_obey() && self.characters_obey() && self.activities_obey()
            && self.stats_obey() && self.details_obey() && self.queue_obeys()
    }
}

} // verus!
