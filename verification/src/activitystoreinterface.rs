//! The record store and the operations of the sync engine on it.

use crate::enums::{is_private_mode, CharacterClass, Mode, Platform, MODE_PRIVATE_MATCHES_ALL};
use crate::error::Error;
use crate::response::activities::{mode_ids, page_items, Activity, PageItem};
use crate::response::pgcr::{
    detail_views, get_medal_hash_value, BatchResult, DestinyPostGameCarnageReportData,
    DestinyPostGameCarnageReportEntry, DestinyPostGameCarnageReportTeamEntry, DetailFetch,
    EntryView, FailedRecord,
};
use crate::storelaws::{
    lemma_dequeue, lemma_enqueue, lemma_enqueue_items, lemma_insert_character,
    lemma_insert_stats, lemma_record_detail, lemma_upsert_member, lemma_with_activity,
};
use crate::storemodel::{
    character_views, id_in, lemma_activity_index, lemma_character_index, lemma_member_index,
    lemma_queue_index, medal_result_views, medal_row, member_views, stats_row, team_row,
    weapon_row, ActivityRow, CharacterActivityStatsRow, CharacterRow, MedalResultRow, MemberRow,
    MemberView, ModeRow, QueueRow, StoreState, TeamResultRow, WeaponResultRow,
    PRIVATE_GAMBIT_HASH, PRIVATE_GAMBIT_HASH_ALT, TABLE_CAPACITY,
};
use crate::storedtables::StoredTables;
use vstd::prelude::*;

verus! {

/// Name of the file that a store is kept in.
pub const STORE_FILE_NAME: &'static str = "dcli.sqlite3";

/// The structural version of the store that this library reads and writes.
pub const DB_SCHEMA_VERSION: i32 = 6;

/// How many detailed records are asked for at a time.
pub const PGCR_REQUEST_CHUNK_AMOUNT: usize = 24;

pub struct ActivityStoreInterface {
    verbose: bool,
    path: String,
    tables: StoredTables,
}

impl View for ActivityStoreInterface {
    type V = StoreState;

    closed spec fn view(&self) -> StoreState {
        self.tables@
    }
}

/// What a store holds when it is opened from what was read: the tables
/// that were read, if they were written with the structural version of this
/// library, and nothing otherwise.
pub open spec fn opened(stored: Option<StoredTables>) -> StoreState {
    match stored {
        Some(tables) => if tables.version == DB_SCHEMA_VERSION {
            tables@
        } else {
            StoreState::empty()
        },
        None => StoreState::empty(),
    }
}

/// The account names as they stood before the renames of a log, the latest
/// rename undone first.
spec fn undo_renames(members: Seq<MemberView>, log: Seq<(usize, String)>) -> Seq<MemberView>
    decreases log.len(),
{
    if log.len() == 0 {
        members
    } else {
        let at = log.last().0 as int;
        undo_renames(
            members.update(at, MemberView { display_name: log.last().1@, ..members[at] }),
            log.drop_last(),
        )
    }
}

/// What a transaction keeps to take its writes back: how long each table
/// was when it began, and the account names it has overwritten since.
struct Savepoint {
    members: usize,
    characters: usize,
    activities: usize,
    modes: usize,
    team_results: usize,
    stats: usize,
    medals: usize,
    weapons: usize,
    queue: usize,
    renamed: Vec<(usize, String)>,
    saved: Ghost<StoreState>,
}

impl Savepoint {
    /// From `current` the savepoint leads back to the store it was taken of.
    spec fn restores(&self, current: StoreState) -> bool {
        let saved = self.saved@;
        &&& self.members == saved.members.len()
        &&& self.members <= current.members.len()
        &&& forall|k: int|
            0 <= k < self.renamed@.len() ==> (#[trigger] self.renamed@[k]).0 < self.members
        &&& undo_renames(current.members.subrange(0, self.members as int), self.renamed@)
            =~= saved.members
        &&& self.characters == saved.characters.len()
        &&& saved.characters.is_prefix_of(current.characters)
        &&& self.activities == saved.activities.len()
        &&& saved.activities.is_prefix_of(current.activities)
        &&& self.modes == saved.modes.len()
        &&& saved.modes.is_prefix_of(current.modes)
        &&& self.team_results == saved.team_results.len()
        &&& saved.team_results.is_prefix_of(current.team_results)
        &&& self.stats == saved.stats.len()
        &&& saved.stats.is_prefix_of(current.stats)
        &&& self.medals == saved.medals.len()
        &&& saved.medals.is_prefix_of(current.medals)
        &&& self.weapons == saved.weapons.len()
        &&& saved.weapons.is_prefix_of(current.weapons)
        &&& self.queue == saved.queue.len()
        &&& saved.queue.is_prefix_of(current.queue)
    }
}

/// A savepoint that leads back from a store leads back from every store
/// that only adds rows to it.
proof fn lemma_restores_extension(sp: Savepoint, current: StoreState, later: StoreState)
    requires
        sp.restores(current),
        current.extends_to(later),
    ensures
        sp.restores(later),
{
    assert(later.members.subrange(0, sp.members as int) =~= current.members.subrange(
        0,
        sp.members as int,
    ));
}

impl ActivityStoreInterface {
    /// The store obeys the rules of the record store.
    pub open spec fn wf(&self) -> bool {
        self@.wf()
    }

    /// Where the store is kept.
    pub closed spec fn storage_path(&self) -> Seq<char> {
        self.path@
    }

    /// Whether the store was asked to report what it does.
    pub closed spec fn is_verbose(&self) -> bool {
        self.verbose
    }

    /// A store that holds nothing yet.
    pub fn new(path: String, verbose: bool) -> (store: ActivityStoreInterface)
        ensures
            store.wf(),
            store@ == StoreState::empty(),
            store.storage_path() == path@,
            store.is_verbose() == verbose,
    {
        let store = ActivityStoreInterface {
            verbose,
            path,
            tables: StoredTables {
                version: DB_SCHEMA_VERSION,
                members: Vec::new(),
                characters: Vec::new(),
                activities: Vec::new(),
                modes: Vec::new(),
                team_results: Vec::new(),
                character_activity_stats: Vec::new(),
                medal_results: Vec::new(),
                weapon_results: Vec::new(),
                activity_queue: Vec::new(),
            },
        };
        assert(store@ =~= StoreState::empty());
        store
    }

    /// Whether the store obeys the rules of the record store. Every store
    /// that this library hands out does, and stays so under every function
    /// of the library; the test is for callers that cannot take this on
    /// trust. It takes time quadratic in the number of accounts and of
    /// characters.
    pub fn obeys_rules(&self) -> (ok: bool)
        ensures
            ok == self.wf(),
    {
        self.tables.obey_rules()
    }

    /// Whether the store was asked to report what it does.
    pub fn verbose(&self) -> (verbose: bool)
        ensures
            verbose == self.is_verbose(),
    {
        self.verbose
    }

    /// Opens a store from what was read from where it is kept.
    ///
    /// Tables written with the structural version of this library are
    /// taken as they are, provided that they obey the rules of the store.
    /// Tables of any other version are dropped, and so is all that was
    /// synced into them: the store starts empty, as it does where nothing
    /// was read.
    pub fn init_with_path(path: String, verbose: bool, stored: Option<StoredTables>) -> (done:
        Result<ActivityStoreInterface, Error>)
        ensures
            match done {
                Ok(store) => {
                    &&& store.wf()
                    &&& store@ == opened(stored)
                    &&& store.storage_path() == path@
                    &&& store.is_verbose() == verbose
                },
                Err(e) => e == Error::Constraint && !opened(stored).wf(),
            },
    {
        match stored {
            Some(tables) => {
                if tables.version != DB_SCHEMA_VERSION {
                    return Ok(ActivityStoreInterface::new(path, verbose));
                }
                if !tables.obey_rules() {
                    return Err(Error::Constraint);
                }
                Ok(ActivityStoreInterface { verbose, path, tables })
            },
            None => Ok(ActivityStoreInterface::new(path, verbose)),
        }
    }

    /// Hands out the tables of the store, to be written to where the store
    /// is kept.
    pub fn into_tables(self) -> (tables: StoredTables)
        ensures
            tables.version == DB_SCHEMA_VERSION,
            tables@ == self@,
    {
        let mut tables = self.tables;
        tables.version = DB_SCHEMA_VERSION;
        tables
    }

    pub fn get_storage_path(&self) -> (path: String)
        ensures
            path@ == self.storage_path(),
    {
        self.path.clone()
    }

    /// Opens a transaction.
    fn begin(&self) -> (sp: Savepoint)
        ensures
            sp.restores(self@),
            sp.saved@ == self@,
    {
        let sp = Savepoint {
            members: self.tables.members.len(),
            characters: self.tables.characters.len(),
            activities: self.tables.activities.len(),
            modes: self.tables.modes.len(),
            team_results: self.tables.team_results.len(),
            stats: self.tables.character_activity_stats.len(),
            medals: self.tables.medal_results.len(),
            weapons: self.tables.weapon_results.len(),
            queue: self.tables.activity_queue.len(),
            renamed: Vec::new(),
            saved: Ghost(self@),
        };
        assert(self@.members.subrange(0, sp.members as int) =~= self@.members);
        sp
    }

    /// Takes back every write since the savepoint was taken.
    fn rollback(&mut self, sp: Savepoint)
        requires
            sp.restores(old(self)@),
        ensures
            final(self)@ == sp.saved@,
            final(self).storage_path() == old(self).storage_path(),
            final(self).is_verbose() == old(self).is_verbose(),
    {
        let Savepoint {
            members,
            characters,
            activities,
            modes,
            team_results,
            stats,
            medals,
            weapons,
            queue,
            renamed,
            saved,
        } = sp;
        let mut log = renamed;
        self.tables.members.truncate(members);
        assert(member_views(self.tables.members@) =~= old(self)@.members.subrange(0, members as int));
        while log.len() > 0
            invariant
                self.tables.members.len() == members,
                forall|k: int| 0 <= k < log@.len() ==> (#[trigger] log@[k]).0 < members,
                undo_renames(member_views(self.tables.members@), log@) =~= saved@.members,
                self.verbose == old(self).verbose,
                self.path == old(self).path,
                self.tables.characters == old(self).tables.characters,
                self.tables.activities == old(self).tables.activities,
                self.tables.modes == old(self).tables.modes,
                self.tables.team_results == old(self).tables.team_results,
                self.tables.character_activity_stats == old(self).tables.character_activity_stats,
                self.tables.medal_results == old(self).tables.medal_results,
                self.tables.weapon_results == old(self).tables.weapon_results,
                self.tables.activity_queue == old(self).tables.activity_queue,
            decreases log.len(),
        {
            let ghost before = member_views(self.tables.members@);
            let ghost whole = log@;
            let entry = log.pop().unwrap();
            let at = entry.0;
            assert(entry == whole.last());
            assert(log@ =~= whole.drop_last());
            assert(at < members);
            self.tables.members[at].display_name = entry.1;
            assert(member_views(self.tables.members@) =~= before.update(
                at as int,
                MemberView { display_name: entry.1@, ..before[at as int] },
            ));
        }
        self.tables.characters.truncate(characters);
        self.tables.activities.truncate(activities);
        self.tables.modes.truncate(modes);
        self.tables.team_results.truncate(team_results);
        self.tables.character_activity_stats.truncate(stats);
        self.tables.medal_results.truncate(medals);
        self.tables.weapon_results.truncate(weapons);
        self.tables.activity_queue.truncate(queue);
        assert(character_views(self.tables.characters@) =~= saved@.characters);
        assert(medal_result_views(self.tables.medal_results@) =~= saved@.medals);
        assert(self@ =~= saved@);
    }

    /// The position of the account with this remote identifier.
    fn find_member(&self, key: &String) -> (found: Option<usize>)
        requires
            self.wf(),
        ensures
            match found {
                Some(i) => self@.has_member(key@) && i as int == self@.member_index(key@),
                None => !self@.has_member(key@),
            },
    {
        let mut i: usize = 0;
        while i < self.tables.members.len()
            invariant
                self.wf(),
                i <= self.tables.members.len(),
                forall|k: int| 0 <= k < i ==> (#[trigger] self@.members[k]).member_id != key@,
            decreases self.tables.members.len() - i,
        {
            if self.tables.members[i].member_id == *key {
                proof {
                    lemma_member_index(self@, key@, i as int);
                }
                return Some(i);
            }
            i = i + 1;
        }
        None
    }

    /// The position of the character with this remote identifier.
    fn find_character(&self, key: &String) -> (found: Option<usize>)
        requires
            self.wf(),
        ensures
            match found {
                Some(i) => self@.has_character(key@) && i as int == self@.character_index(key@),
                None => !self@.has_character(key@),
            },
    {
        let mut i: usize = 0;
        while i < self.tables.characters.len()
            invariant
                self.wf(),
                i <= self.tables.characters.len(),
                forall|k: int|
                    0 <= k < i ==> (#[trigger] self@.characters[k]).character_id != key@,
            decreases self.tables.characters.len() - i,
        {
            if self.tables.characters[i].character_id == *key {
                proof {
                    lemma_character_index(self@, key@, i as int);
                }
                return Some(i);
            }
            i = i + 1;
        }
        None
    }

    /// The position of the match with this remote identifier.
    fn find_activity(&self, instance_id: i64) -> (found: Option<usize>)
        requires
            self.wf(),
        ensures
            match found {
                Some(i) => self@.has_activity(instance_id) && i as int == self@.activity_index(
                    instance_id,
                ),
                None => !self@.has_activity(instance_id),
            },
    {
        let mut i: usize = 0;
        while i < self.tables.activities.len()
            invariant
                self.wf(),
                i <= self.tables.activities.len(),
                forall|k: int|
                    0 <= k < i ==> (#[trigger] self@.activities[k]).activity_id != instance_id,
            decreases self.tables.activities.len() - i,
        {
            if self.tables.activities[i].activity_id == instance_id {
                proof {
                    lemma_activity_index(self@, instance_id, i as int);
                }
                return Some(i);
            }
            i = i + 1;
        }
        None
    }

    /// Whether the character has an outcome stored for the match.
    fn has_stats(&self, character: i32, activity: i32) -> (found: bool)
        ensures
            found == self@.has_stats(character, activity),
    {
        self.has_stats_from(character, activity, 0)
    }

    /// Whether the character has an outcome stored for the match, given a
    /// position before which no outcome of the match stands.
    fn has_stats_from(&self, character: i32, activity: i32, from: usize) -> (found: bool)
        requires
            from <= self@.stats.len(),
            forall|k: int| 0 <= k < from ==> (#[trigger] self@.stats[k]).activity != activity,
        ensures
            found == self@.has_stats(character, activity),
    {
        let mut i: usize = from;
        while i < self.tables.character_activity_stats.len()
            invariant
                from <= i <= self.tables.character_activity_stats.len(),
                forall|k: int|
                    0 <= k < i ==> !((#[trigger] self@.stats[k]).character == character
                        && self@.stats[k].activity == activity),
            decreases self.tables.character_activity_stats.len() - i,
        {
            if self.tables.character_activity_stats[i].character == character
                && self.tables.character_activity_stats[i].activity == activity {
                assert(self@.stats[i as int].character == character);
                return true;
            }
            i = i + 1;
        }
        false
    }

    /// The row identifier of the match with this remote identifier.
    pub fn get_activity_row_id(&self, instance_id: i64) -> (found: Result<i32, Error>)
        requires
            self.wf(),
        ensures
            match found {
                Ok(id) => self@.has_activity(instance_id) && id == self@.activity_index(
                    instance_id,
                ) + 1,
                Err(e) => e == Error::ActivityNotFound && !self@.has_activity(instance_id),
            },
    {
        match self.find_activity(instance_id) {
            Some(i) => Ok((i + 1) as i32),
            None => Err(Error::ActivityNotFound),
        }
    }

    /// The row identifier of the account with this remote identifier.
    pub fn get_member_row_id(&self, member_id: &str) -> (found: Result<i32, Error>)
        requires
            self.wf(),
        ensures
            match found {
                Ok(id) => self@.has_member(member_id@) && id == self@.member_index(member_id@) + 1,
                Err(e) => e == Error::RowNotFound && !self@.has_member(member_id@),
            },
    {
        let key: String = member_id.to_owned();
        match self.find_member(&key) {
            Some(i) => Ok((i + 1) as i32),
            None => Err(Error::RowNotFound),
        }
    }

    /// The row identifier of the character with this remote identifier,
    /// provided that it belongs to the account with that remote
    /// identifier.
    pub fn get_character_row_id(&self, member_id: &str, character_id: &str) -> (found: Result<
        i32,
        Error,
    >)
        requires
            self.wf(),
        ensures
            match found {
                Ok(id) => self@.owns_character(member_id@, character_id@) && id
                    == self@.character_index(character_id@) + 1,
                Err(e) => e == Error::RowNotFound && !self@.owns_character(
                    member_id@,
                    character_id@,
                ),
            },
    {
        let key: String = character_id.to_owned();
        let owner: String = member_id.to_owned();
        match self.find_character(&key) {
            Some(i) => {
                assert(id_in(self@.characters[i as int].member, self@.members.len()));
                let member = &self.tables.members[(self.tables.characters[i].member - 1) as usize];
                assert(self@.members[self@.characters[i as int].member - 1] == member@);
                if member.member_id == owner {
                    Ok((i + 1) as i32)
                } else {
                    Err(Error::RowNotFound)
                }
            },
            None => Err(Error::RowNotFound),
        }
    }

    /// Records an account inside a transaction.
    fn upsert_member(
        &mut self,
        member_id: &str,
        platform_id: u32,
        display_name: &str,
        sp: &mut Savepoint,
    ) -> (done: Result<i32, Error>)
        requires
            old(self).wf(),
            old(sp).restores(old(self)@),
        ensures
            final(sp).saved == old(sp).saved,
            final(sp).restores(final(self)@),
            final(self).storage_path() == old(self).storage_path(),
            final(self).is_verbose() == old(self).is_verbose(),
            match old(self)@.upsert_member(member_id@, platform_id, display_name@) {
                Ok((after, id)) => {
                    &&& done == Ok::<i32, Error>(id)
                    &&& final(self)@ == after
                    &&& final(self).wf()
                },
                Err(e) => done == Err::<i32, Error>(e) && final(self)@ == old(self)@,
            },
    {
        proof {
            lemma_upsert_member(self@, member_id@, platform_id, display_name@);
        }
        let key: String = member_id.to_owned();
        match self.find_member(&key) {
            Some(i) => {
                let ghost before = self@.members;
                let ghost log = sp.renamed@;
                if i < sp.members {
                    let previous = self.tables.members[i].display_name.clone();
                    sp.renamed.push((i, previous));
                    assert(sp.renamed@.drop_last() =~= log);
                }
                self.tables.members[i].display_name = display_name.to_owned();
                proof {
                    let after = old(self)@.upsert_member(
                        member_id@,
                        platform_id,
                        display_name@,
                    )->Ok_0.0;
                    assert(self@.members =~= after.members);
                    assert(self@ =~= after);
                    let cut = sp.members as int;
                    if i < sp.members {
                        assert(self@.members.subrange(0, cut).update(
                            i as int,
                            MemberView {
                                display_name: before[i as int].display_name,
                                ..self@.members.subrange(0, cut)[i as int]
                            },
                        ) =~= before.subrange(0, cut));
                    } else {
                        assert(self@.members.subrange(0, cut) =~= before.subrange(0, cut));
                    }
                }
                Ok((i + 1) as i32)
            },
            None => {
                if self.tables.members.len() >= TABLE_CAPACITY {
                    return Err(Error::StoreFull);
                }
                let ghost before = self@;
                self.tables.members.push(
                    MemberRow { member_id: key, platform_id, display_name: display_name.to_owned() },
                );
                proof {
                    let after = old(self)@.upsert_member(
                        member_id@,
                        platform_id,
                        display_name@,
                    )->Ok_0.0;
                    assert(self@.members =~= after.members);
                    assert(self@ =~= after);
                    assert(before.extends_to(self@));
                    lemma_restores_extension(*sp, before, self@);
                }
                Ok(self.tables.members.len() as i32)
            },
        }
    }

    /// Records an account: a new one is added, a known one takes the new
    /// display name. Gives the account's row identifier.
    pub fn insert_member_id(&mut self, member_id: &str, platform: &Platform, display_name: &str)
        -> (done: Result<i32, Error>)
        requires
            old(self).wf(),
        ensures
            final(self).wf(),
            final(self).storage_path() == old(self).storage_path(),
            final(self).is_verbose() == old(self).is_verbose(),
            match old(self)@.upsert_member(member_id@, platform.id, display_name@) {
                Ok((after, id)) => done == Ok::<i32, Error>(id) && final(self)@ == after,
                Err(e) => done == Err::<i32, Error>(e) && final(self)@ == old(self)@,
            },
    {
        let mut sp = self.begin();
        self.upsert_member(member_id, platform.id, display_name, &mut sp)
    }

    /// Records a character of an account: a new one is added, a known one
    /// is left as it is. Gives the character's row identifier.
    pub fn insert_character_id(
        &mut self,
        character_id: &str,
        class_type: &CharacterClass,
        member_rowid: i32,
    ) -> (done: Result<i32, Error>)
        requires
            old(self).wf(),
        ensures
            final(self).wf(),
            final(self).storage_path() == old(self).storage_path(),
            final(self).is_verbose() == old(self).is_verbose(),
            old(self)@.extends_to(final(self)@),
            match old(self)@.insert_character(
                character_id@,
                class_type.spec_to_id(),
                member_rowid,
            ) {
                Ok((after, id)) => done == Ok::<i32, Error>(id) && final(self)@ == after,
                Err(e) => done == Err::<i32, Error>(e) && final(self)@ == old(self)@,
            },
    {
        proof {
            lemma_insert_character(self@, character_id@, class_type.spec_to_id(), member_rowid);
        }
        let key: String = character_id.to_owned();
        match self.find_character(&key) {
            Some(i) => {
                if self.tables.characters[i].member == member_rowid {
                    Ok((i + 1) as i32)
                } else {
                    Err(Error::RowNotFound)
                }
            },
            None => {
                if member_rowid < 1 || member_rowid as usize > self.tables.members.len() {
                    return Err(Error::Constraint);
                }
                if self.tables.characters.len() >= TABLE_CAPACITY {
                    return Err(Error::StoreFull);
                }
                self.tables.characters.push(
                    CharacterRow {
                        character_id: key,
                        member: member_rowid,
                        class: class_type.to_id(),
                    },
                );
                proof {
                    let after = old(self)@.insert_character(
                        character_id@,
                        class_type.spec_to_id(),
                        member_rowid,
                    )->Ok_0.0;
                    assert(self@.characters =~= after.characters);
                    assert(self@ =~= after);
                }
                Ok(self.tables.characters.len() as i32)
            },
        }
    }

    /// Records how a character fared in a match, with its medals and
    /// weapons.
    pub fn _insert_character_activity_stats(
        &mut self,
        entry: &DestinyPostGameCarnageReportEntry,
        character_row_id: i32,
        activity_row_id: i32,
    ) -> (done: Result<(), Error>)
        requires
            old(self).wf(),
        ensures
            final(self).wf(),
            final(self).storage_path() == old(self).storage_path(),
            final(self).is_verbose() == old(self).is_verbose(),
            old(self)@.extends_to(final(self)@),
            match old(self)@.insert_stats(entry@, character_row_id, activity_row_id) {
                Ok(after) => done == Ok::<(), Error>(()) && final(self)@ == after,
                Err(e) => done == Err::<(), Error>(e) && final(self)@ == old(self)@,
            },
    {
        self.insert_stats_from(entry, character_row_id, activity_row_id, 0)
    }

    /// Records how a character fared in a match, given a position before
    /// which no outcome of the match stands.
    fn insert_stats_from(
        &mut self,
        entry: &DestinyPostGameCarnageReportEntry,
        character_row_id: i32,
        activity_row_id: i32,
        from: usize,
    ) -> (done: Result<(), Error>)
        requires
            old(self).wf(),
            from <= old(self)@.stats.len(),
            forall|k: int| 0 <= k < from ==> (#[trigger] old(self)@.stats[k]).activity != activity_row_id,
        ensures
            final(self).wf(),
            final(self).storage_path() == old(self).storage_path(),
            final(self).is_verbose() == old(self).is_verbose(),
            old(self)@.extends_to(final(self)@),
            match old(self)@.insert_stats(entry@, character_row_id, activity_row_id) {
                Ok(after) => done == Ok::<(), Error>(()) && final(self)@ == after,
                Err(e) => done == Err::<(), Error>(e) && final(self)@ == old(self)@,
            },
    {
        proof {
            lemma_insert_stats(self@, entry@, character_row_id, activity_row_id);
        }
        if character_row_id < 1 || character_row_id as usize > self.tables.characters.len() {
            return Err(Error::Constraint);
        }
        if activity_row_id < 1 || activity_row_id as usize > self.tables.activities.len() {
            return Err(Error::Constraint);
        }
        if self.has_stats_from(character_row_id, activity_row_id, from) {
            return Err(Error::Constraint);
        }
        if self.tables.character_activity_stats.len() >= TABLE_CAPACITY {
            return Err(Error::StoreFull);
        }
        let medal_hash = &entry.extended.values;
        let row = CharacterActivityStatsRow {
            character: character_row_id,
            activity: activity_row_id,
            values: entry.values,
            precision_kills: get_medal_hash_value("precisionKills", medal_hash),
            weapon_kills_ability: get_medal_hash_value("weaponKillsAbility", medal_hash),
            weapon_kills_grenade: get_medal_hash_value("weaponKillsGrenade", medal_hash),
            weapon_kills_melee: get_medal_hash_value("weaponKillsMelee", medal_hash),
            weapon_kills_super: get_medal_hash_value("weaponKillsSuper", medal_hash),
            all_medals_earned: get_medal_hash_value("allMedalsEarned", medal_hash),
            light_level: entry.player.light_level,
        };
        assert(row == stats_row(entry@, character_row_id, activity_row_id));
        self.tables.character_activity_stats.push(row);
        let stats_id: i32 = self.tables.character_activity_stats.len() as i32;
        let ghost after = old(self)@.insert_stats(
            entry@,
            character_row_id,
            activity_row_id,
        )->Ok_0;

        let mut i: usize = 0;
        while i < medal_hash.len()
            invariant
                i <= medal_hash.len(),
                medal_hash == &entry.extended.values,
                self.verbose == old(self).verbose,
                self.path == old(self).path,
                self.tables.members == old(self).tables.members,
                self.tables.characters == old(self).tables.characters,
                self.tables.activities == old(self).tables.activities,
                self.tables.modes == old(self).tables.modes,
                self.tables.team_results == old(self).tables.team_results,
                self.tables.character_activity_stats@ == after.stats,
                self.tables.weapon_results == old(self).tables.weapon_results,
                self.tables.activity_queue == old(self).tables.activity_queue,
                medal_result_views(self.tables.medal_results@) =~= old(self)@.medals + Seq::new(
                    i as nat,
                    |k: int| medal_row(entry@.medals[k], stats_id),
                ),
            decreases medal_hash.len() - i,
        {
            let ghost stored = medal_result_views(self.tables.medal_results@);
            self.tables.medal_results.push(
                MedalResultRow {
                    reference_id: medal_hash[i].key.clone(),
                    count: medal_hash[i].value,
                    character_activity_stats: stats_id,
                },
            );
            assert(entry@.medals[i as int] == medal_hash@[i as int]@);
            assert(medal_result_views(self.tables.medal_results@) =~= stored.push(
                medal_row(entry@.medals[i as int], stats_id),
            ));
            i = i + 1;
        }
        assert(medal_result_views(self.tables.medal_results@) =~= after.medals);

        match &entry.extended.weapons {
            Some(weapons) => {
                let mut j: usize = 0;
                while j < weapons.len()
                    invariant
                        j <= weapons.len(),
                        entry.extended.weapons == Some(*weapons),
                        self.verbose == old(self).verbose,
                        self.path == old(self).path,
                        self.tables.members == old(self).tables.members,
                        self.tables.characters == old(self).tables.characters,
                        self.tables.activities == old(self).tables.activities,
                        self.tables.modes == old(self).tables.modes,
                        self.tables.team_results == old(self).tables.team_results,
                        self.tables.character_activity_stats@ == after.stats,
                        medal_result_views(self.tables.medal_results@) =~= after.medals,
                        self.tables.activity_queue == old(self).tables.activity_queue,
                        self.tables.weapon_results@ =~= old(self)@.weapons + Seq::new(
                            j as nat,
                            |k: int| weapon_row(entry@.weapons[k], stats_id),
                        ),
                    decreases weapons.len() - j,
                {
                    let w = &weapons[j];
                    self.tables.weapon_results.push(
                        WeaponResultRow {
                            reference_id: w.reference_id,
                            kills: w.unique_weapon_kills,
                            precision_kills: w.unique_weapon_precision_kills,
                            kills_precision_kills_ratio: w.unique_weapon_kills_precision_kills,
                            character_activity_stats: stats_id,
                        },
                    );
                    j = j + 1;
                }
                assert(self.tables.weapon_results@ =~= after.weapons);
            },
            None => {
                assert(self.tables.weapon_results@ =~= after.weapons);
            },
        }
        assert(self@ =~= after);
        Ok(())
    }

    /// Records a detailed record inside a transaction. Where it fails, the
    /// rows written so far still stand: the caller rolls back.
    fn _insert_activity(&mut self, data: &DestinyPostGameCarnageReportData, sp: &mut Savepoint)
        -> (done: Result<(), Error>)
        requires
            old(self).wf(),
            old(sp).restores(old(self)@),
        ensures
            final(sp).saved == old(sp).saved,
            final(sp).restores(final(self)@),
            final(self).storage_path() == old(self).storage_path(),
            final(self).is_verbose() == old(self).is_verbose(),
            match old(self)@.insert_activity(data@) {
                Ok(after) => {
                    &&& done == Ok::<(), Error>(())
                    &&& final(self)@ == after
                    &&& final(self).wf()
                },
                Err(e) => done == Err::<(), Error>(e),
            },
    {
        let details = &data.activity_details;
        if self.find_activity(details.instance_id).is_some() {
            return Ok(());
        }
        if self.tables.activities.len() >= TABLE_CAPACITY {
            return Err(Error::StoreFull);
        }
        self.tables.activities.push(
            ActivityRow {
                activity_id: details.instance_id,
                period: data.period,
                mode: details.mode.to_id(),
                platform: details.membership_type.to_id(),
                director_activity_hash: details.director_activity_hash,
                reference_id: details.reference_id,
            },
        );
        let activity_row_id: i32 = self.tables.activities.len() as i32;
        push_team_rows(&mut self.tables.team_results, &data.teams, activity_row_id);
        push_mode_rows(&mut self.tables.modes, &details.modes, activity_row_id);
        let ghost with = old(self)@.with_activity(data@);
        proof {
            lemma_with_activity(old(self)@, data@);
            assert(self@ =~= with);
            lemma_restores_extension(*sp, old(self)@, self@);
        }
        // The match is new: whatever outcome stands in the store is of
        // another match, so twins are looked for among the new rows only.
        let first_new: usize = self.tables.character_activity_stats.len();
        assert forall|k: int| 0 <= k < first_new implies (#[trigger] self@.stats[k]).activity
            != activity_row_id by {
            assert(id_in(old(self)@.stats[k].activity, old(self)@.activities.len()));
        }

        let mut n: usize = 0;
        while n < data.entries.len()
            invariant
                n <= data.entries.len(),
                self.wf(),
                with.wf(),
                first_new <= self@.stats.len(),
                forall|k: int|
                    0 <= k < first_new ==> (#[trigger] self@.stats[k]).activity != activity_row_id,
                sp.saved == old(sp).saved,
                sp.restores(self@),
                self.storage_path() == old(self).storage_path(),
                self.is_verbose() == old(self).is_verbose(),
                with.insert_entries(data@.entries, activity_row_id, n as nat) == Ok::<
                    StoreState,
                    Error,
                >(self@),
                old(self)@.insert_activity(data@) == with.insert_entries(
                    data@.entries,
                    activity_row_id,
                    data@.entries.len(),
                ),
                data@.entries.len() == data.entries.len(),
            decreases data.entries.len() - n,
        {
            let entry = &data.entries[n];
            let user = &entry.player.user_info;
            let ghost before = self@;
            assert(data@.entries[n as int] == entry@);
            proof {
                lemma_insert_entries_error_stays(
                    with,
                    data@.entries,
                    activity_row_id,
                    (n + 1) as nat,
                    data@.entries.len(),
                );
            }
            let member_row_id = match self.upsert_member(
                user.membership_id.as_str(),
                user.membership_type.to_id(),
                user.display_name.as_str(),
                sp,
            ) {
                Ok(id) => id,
                Err(e) => {
                    return Err(e);
                },
            };
            let ghost with_member = self@;
            let character_row_id = match self.insert_character_id(
                entry.character_id.as_str(),
                &entry.player.class_type,
                member_row_id,
            ) {
                Ok(id) => id,
                Err(e) => {
                    return Err(e);
                },
            };
            proof {
                lemma_restores_extension(*sp, with_member, self@);
            }
            let ghost with_character = self@;
            assert forall|k: int| 0 <= k < first_new implies (#[trigger] self@.stats[k]).activity
                != activity_row_id by {
                assert(self@.stats[k] == before.stats[k]);
            }
            match self.insert_stats_from(entry, character_row_id, activity_row_id, first_new) {
                Ok(()) => {},
                Err(e) => {
                    return Err(e);
                },
            }
            proof {
                lemma_restores_extension(*sp, with_character, self@);
            }
            assert forall|k: int| 0 <= k < first_new implies (#[trigger] self@.stats[k]).activity
                != activity_row_id by {
                assert(self@.stats[k] == with_character.stats[k]);
            }
            n = n + 1;
        }
        Ok(())
    }

    /// Records a detailed record as one transaction. A record whose match
    /// is already stored changes nothing and succeeds; otherwise all of its
    /// rows are stored, or, where any write fails, none.
    pub fn insert_activity(&mut self, data: &DestinyPostGameCarnageReportData) -> (done: Result<
        (),
        Error,
    >)
        requires
            old(self).wf(),
        ensures
            final(self).wf(),
            final(self).storage_path() == old(self).storage_path(),
            final(self).is_verbose() == old(self).is_verbose(),
            match old(self)@.insert_activity(data@) {
                Ok(after) => done == Ok::<(), Error>(()) && final(self)@ == after,
                Err(e) => done == Err::<(), Error>(e) && final(self)@ == old(self)@,
            },
    {
        let mut sp = self.begin();
        match self._insert_activity(data, &mut sp) {
            Ok(()) => Ok(()),
            Err(e) => {
                self.rollback(sp);
                Err(e)
            },
        }
    }
}

impl ActivityStoreInterface {
    /// The position of a queue entry.
    fn find_queued(&self, activity_id: i64, character: i32) -> (found: Option<usize>)
        requires
            self.wf(),
        ensures
            match found {
                Some(i) => self@.is_queued(activity_id, character) && i as int
                    == self@.queue_index(activity_id, character),
                None => !self@.is_queued(activity_id, character),
            },
    {
        let mut i: usize = 0;
        while i < self.tables.activity_queue.len()
            invariant
                self.wf(),
                i <= self.tables.activity_queue.len(),
                forall|k: int|
                    0 <= k < i ==> #[trigger] self@.queue[k] != (QueueRow {
                        activity_id,
                        character,
                    }),
            decreases self.tables.activity_queue.len() - i,
        {
            if self.tables.activity_queue[i].activity_id == activity_id
                && self.tables.activity_queue[i].character == character {
                proof {
                    lemma_queue_index(self@, activity_id, character, i as int);
                }
                return Some(i);
            }
            i = i + 1;
        }
        None
    }

    /// Takes a match off a character's queue, if it is on it.
    pub fn remove_from_activity_queue(&mut self, character_row_id: i32, instance_id: i64)
        requires
            old(self).wf(),
        ensures
            final(self).wf(),
            final(self).storage_path() == old(self).storage_path(),
            final(self).is_verbose() == old(self).is_verbose(),
            final(self)@ == old(self)@.dequeue(character_row_id, instance_id),
    {
        proof {
            lemma_dequeue(self@, character_row_id, instance_id);
        }
        match self.find_queued(instance_id, character_row_id) {
            Some(i) => {
                self.tables.activity_queue.remove(i);
                assert(self@ =~= old(self)@.dequeue(character_row_id, instance_id));
            },
            None => {},
        }
    }

    /// Queues a match for a character.
    fn enqueue(&mut self, activity_id: i64, character: i32) -> (done: Result<(), Error>)
        requires
            old(self).wf(),
        ensures
            final(self).wf(),
            final(self).storage_path() == old(self).storage_path(),
            final(self).is_verbose() == old(self).is_verbose(),
            old(self)@.extends_to(final(self)@),
            match old(self)@.enqueue(activity_id, character) {
                Ok(after) => done == Ok::<(), Error>(()) && final(self)@ == after,
                Err(e) => done == Err::<(), Error>(e) && final(self)@ == old(self)@,
            },
    {
        proof {
            lemma_enqueue(self@, activity_id, character);
        }
        if character < 1 || character as usize > self.tables.characters.len() {
            return Err(Error::Constraint);
        }
        if self.find_queued(activity_id, character).is_some() {
            return Err(Error::Constraint);
        }
        if self.tables.activity_queue.len() >= TABLE_CAPACITY {
            return Err(Error::StoreFull);
        }
        self.tables.activity_queue.push(QueueRow { activity_id, character });
        assert(self@ =~= old(self)@.enqueue(activity_id, character)->Ok_0);
        Ok(())
    }

    /// Whether the match is stored with an outcome for the character.
    fn has_event(&self, character: i32, instance_id: i64) -> (found: bool)
        requires
            self.wf(),
        ensures
            found == self@.has_event(character, instance_id),
    {
        match self.find_activity(instance_id) {
            Some(i) => self.has_stats(character, (i + 1) as i32),
            None => false,
        }
    }

    /// Queues one page of history for a character as one transaction, the
    /// oldest entry first. The two private-mode artifacts, and matches
    /// whose outcome for the character is stored already, are passed over.
    /// Where a write fails, no entry of the page stays queued. Counts the
    /// entries that were queued.
    pub fn _update_activity_queue(&mut self, character_row_id: i32, result: &Option<Vec<Activity>>)
        -> (done: Result<SyncResult, Error>)
        requires
            old(self).wf(),
        ensures
            final(self).wf(),
            final(self).storage_path() == old(self).storage_path(),
            final(self).is_verbose() == old(self).is_verbose(),
            match result {
                None => done == Ok::<SyncResult, Error>(
                    SyncResult { total_available: 0, total_synced: 0 },
                ) && final(self)@ == old(self)@,
                Some(page) => match old(self)@.enqueue_page(character_row_id, page_items(page@)) {
                    Ok((after, queued)) => {
                        &&& done == Ok::<SyncResult, Error>(
                            SyncResult {
                                total_available: queued as u32,
                                total_synced: queued as u32,
                            },
                        )
                        &&& queued <= u32::MAX
                        &&& final(self)@ == after
                    },
                    Err(e) => done == Err::<SyncResult, Error>(e) && final(self)@ == old(self)@,
                },
            },
    {
        let page = match result {
            Some(page) => page,
            None => {
                return Ok(SyncResult { total_available: 0, total_synced: 0 });
            },
        };
        let sp = self.begin();
        let ghost items = page_items(page@).reverse();
        let count = page.len();
        let mut total: u32 = 0;
        let mut k: usize = 0;
        while k < count
            invariant
                k <= count,
                count == page.len(),
                *result == Some(*page),
                items == page_items(page@).reverse(),
                self.wf(),
                old(self).wf(),
                sp.saved@ == old(self)@,
                sp.restores(self@),
                self.storage_path() == old(self).storage_path(),
                self.is_verbose() == old(self).is_verbose(),
                old(self)@.enqueue_items(character_row_id, items, k as nat) == Ok::<
                    (StoreState, nat),
                    Error,
                >((self@, total as nat)),
            decreases count - k,
        {
            let activity = &page[count - 1 - k];
            let ghost before = self@;
            assert(items[k as int] == activity@);
            proof {
                lemma_enqueue_items(old(self)@, character_row_id, items, k as nat);
                lemma_enqueue_items(old(self)@, character_row_id, items, (k + 1) as nat);
                lemma_enqueue_items_error_stays(
                    old(self)@,
                    character_row_id,
                    items,
                    (k + 1) as nat,
                    count as nat,
                );
            }
            let hash = activity.details.director_activity_hash;
            let skip = hash == PRIVATE_GAMBIT_HASH || hash == PRIVATE_GAMBIT_HASH_ALT
                || self.has_event(character_row_id, activity.details.instance_id);
            if !skip {
                match self.enqueue(activity.details.instance_id, character_row_id) {
                    Ok(()) => {
                        total = total + 1;
                    },
                    Err(e) => {
                        self.rollback(sp);
                        return Err(e);
                    },
                }
                proof {
                    lemma_restores_extension(sp, before, self@);
                }
            }
            k = k + 1;
        }
        proof {
            lemma_enqueue_items(old(self)@, character_row_id, items, count as nat);
        }
        Ok(SyncResult { total_available: total, total_synced: total })
    }

    /// The matches queued for a character, in queue order.
    pub fn queued_activity_ids(&self, character_row_id: i32) -> (ids: Vec<i64>)
        ensures
            ids@ == self@.queued(character_row_id),
    {
        let mut ids: Vec<i64> = Vec::new();
        let mut i: usize = 0;
        while i < self.tables.activity_queue.len()
            invariant
                i <= self.tables.activity_queue.len(),
                ids@ == self@.queued_among(character_row_id, i as nat),
            decreases self.tables.activity_queue.len() - i,
        {
            if self.tables.activity_queue[i].character == character_row_id {
                ids.push(self.tables.activity_queue[i].activity_id);
            }
            i = i + 1;
        }
        ids
    }

    /// Stores what came back for one batch of requests for detailed
    /// records, response by response. A record that is stored, or was
    /// stored before, counts as synced and its match leaves the
    /// character's queue. A record that cannot be stored, an empty answer
    /// and a failed request leave the queue as it was, and the responses
    /// after them are still taken. Counts the synced records, and notes
    /// each record that could not be stored with its error.
    pub fn sync_activities(&mut self, character_row_id: i32, batch: &Vec<DetailFetch>) -> (done:
        BatchResult)
        requires
            old(self).wf(),
        ensures
            final(self).wf(),
            final(self).storage_path() == old(self).storage_path(),
            final(self).is_verbose() == old(self).is_verbose(),
            (final(self)@, done.synced as nat) == old(self)@.record_details(
                character_row_id,
                detail_views(batch@),
                batch@.len(),
            ),
            done.failed@ == old(self)@.record_failures(
                character_row_id,
                detail_views(batch@),
                batch@.len(),
            ),
            done.synced <= batch@.len(),
    {
        let mut synced: usize = 0;
        let mut failed: Vec<FailedRecord> = Vec::new();
        let mut i: usize = 0;
        while i < batch.len()
            invariant
                i <= batch.len(),
                synced <= i,
                self.wf(),
                self.storage_path() == old(self).storage_path(),
                self.is_verbose() == old(self).is_verbose(),
                (self@, synced as nat) == old(self)@.record_details(
                    character_row_id,
                    detail_views(batch@),
                    i as nat,
                ),
                failed@ == old(self)@.record_failures(
                    character_row_id,
                    detail_views(batch@),
                    i as nat,
                ),
            decreases batch.len() - i,
        {
            assert(detail_views(batch@)[i as int] == batch@[i as int]@);
            proof {
                lemma_record_detail(self@, character_row_id, batch@[i as int]@);
            }
            let ghost noted = failed@;
            match &batch[i] {
                DetailFetch::Fetched(data) => {
                    match self.insert_activity(data) {
                        Ok(()) => {
                            self.remove_from_activity_queue(
                                character_row_id,
                                data.activity_details.instance_id,
                            );
                            synced = synced + 1;
                        },
                        Err(e) => {
                            failed.push(
                                FailedRecord {
                                    instance_id: data.activity_details.instance_id,
                                    error: e,
                                },
                            );
                        },
                    }
                },
                DetailFetch::Empty => {},
                DetailFetch::Failed => {},
            }
            assert(failed@ =~= noted + old(self)@.record_details(
                character_row_id,
                detail_views(batch@),
                i as nat,
            ).0.record_failure(batch@[i as int]@));
            i = i + 1;
        }
        BatchResult { synced, failed }
    }

    /// The accounts, in row order.
    pub fn members(&self) -> (rows: &Vec<MemberRow>)
        ensures
            member_views(rows@) == self@.members,
    {
        &self.tables.members
    }

    /// The characters, in row order.
    pub fn characters(&self) -> (rows: &Vec<CharacterRow>)
        ensures
            character_views(rows@) == self@.characters,
    {
        &self.tables.characters
    }

    /// The matches, in row order.
    pub fn activities(&self) -> (rows: &Vec<ActivityRow>)
        ensures
            rows@ == self@.activities,
    {
        &self.tables.activities
    }

    /// The mode tags, in the order they were stored.
    pub fn modes(&self) -> (rows: &Vec<ModeRow>)
        ensures
            rows@ == self@.modes,
    {
        &self.tables.modes
    }

    /// The team results, in the order they were stored.
    pub fn team_results(&self) -> (rows: &Vec<TeamResultRow>)
        ensures
            rows@ == self@.team_results,
    {
        &self.tables.team_results
    }

    /// The outcomes, in row order.
    pub fn character_activity_stats(&self) -> (rows: &Vec<CharacterActivityStatsRow>)
        ensures
            rows@ == self@.stats,
    {
        &self.tables.character_activity_stats
    }

    /// The medals, in the order they were stored.
    pub fn medal_results(&self) -> (rows: &Vec<MedalResultRow>)
        ensures
            medal_result_views(rows@) == self@.medals,
    {
        &self.tables.medal_results
    }

    /// The weapons, in the order they were stored.
    pub fn weapon_results(&self) -> (rows: &Vec<WeaponResultRow>)
        ensures
            rows@ == self@.weapons,
    {
        &self.tables.weapon_results
    }

    /// The queue, in queue order.
    pub fn activity_queue(&self) -> (rows: &Vec<QueueRow>)
        ensures
            rows@ == self@.queue,
    {
        &self.tables.activity_queue
    }

    /// Marks, for every stored match, whether it carries the mode tag.
    pub fn mode_flags(&self, mode: u32) -> (flags: Vec<bool>)
        requires
            self.wf(),
        ensures
            flags@.len() == self@.activities.len(),
            forall|k: int|
                0 <= k < flags@.len() ==> #[trigger] flags@[k] == self@.has_mode_tag(
                    (k + 1) as i32,
                    mode,
                ),
    {
        let mut flags: Vec<bool> = Vec::new();
        let mut n: usize = 0;
        while n < self.tables.activities.len()
            invariant
                n <= self.tables.activities.len(),
                flags@.len() == n,
                forall|k: int| 0 <= k < n ==> !(#[trigger] flags@[k]),
            decreases self.tables.activities.len() - n,
        {
            flags.push(false);
            n = n + 1;
        }
        let mut j: usize = 0;
        while j < self.tables.modes.len()
            invariant
                self.wf(),
                j <= self.tables.modes.len(),
                flags@.len() == self@.activities.len(),
                forall|k: int|
                    0 <= k < flags@.len() ==> (#[trigger] flags@[k] <==> exists|m: int|
                        0 <= m < j && #[trigger] self@.modes[m] == (ModeRow {
                            mode,
                            activity: (k + 1) as i32,
                        })),
            decreases self.tables.modes.len() - j,
        {
            let row = self.tables.modes[j];
            assert(id_in(self@.modes[j as int].activity, self@.activities.len()));
            if row.mode == mode {
                let at: usize = (row.activity - 1) as usize;
                let ghost before = flags@;
                flags.set(at, true);
                assert forall|k: int| 0 <= k < flags@.len() implies (#[trigger] flags@[k]
                    <==> exists|m: int|
                    0 <= m < j + 1 && #[trigger] self@.modes[m] == (ModeRow {
                        mode,
                        activity: (k + 1) as i32,
                    })) by {
                    if k == at {
                        assert(self@.modes[j as int] == (ModeRow {
                            mode,
                            activity: (k + 1) as i32,
                        }));
                    } else {
                        assert(flags@[k] == before[k]);
                    }
                }
            } else {
                assert forall|k: int| 0 <= k < flags@.len() implies (#[trigger] flags@[k]
                    <==> exists|m: int|
                    0 <= m < j + 1 && #[trigger] self@.modes[m] == (ModeRow {
                        mode,
                        activity: (k + 1) as i32,
                    })) by {}
            }
            j = j + 1;
        }
        flags
    }

    /// The remote identifier from which discovery continues for a character
    /// and a mode: the largest one among the matches stored for the
    /// character that pass the mode filter, and zero where there is none.
    pub fn get_max_activity_id(&self, character_row_id: i32, mode: &Mode) -> (id: i64)
        requires
            self.wf(),
        ensures
            id == self@.max_activity_id(character_row_id, mode.id),
    {
        let tagged = self.mode_flags(mode.to_id());
        let private = self.mode_flags(MODE_PRIVATE_MATCHES_ALL);
        let open_to_private = mode.is_private();
        let mut best: Option<i64> = None;
        let mut i: usize = 0;
        while i < self.tables.character_activity_stats.len()
            invariant
                self.wf(),
                i <= self.tables.character_activity_stats.len(),
                open_to_private == is_private_mode(mode.id),
                tagged@.len() == self@.activities.len(),
                private@.len() == self@.activities.len(),
                forall|k: int|
                    0 <= k < tagged@.len() ==> #[trigger] tagged@[k] == self@.has_mode_tag(
                        (k + 1) as i32,
                        mode.id,
                    ),
                forall|k: int|
                    0 <= k < private@.len() ==> #[trigger] private@[k] == self@.has_mode_tag(
                        (k + 1) as i32,
                        MODE_PRIVATE_MATCHES_ALL,
                    ),
                best == self@.max_activity_among(character_row_id, mode.id, i as nat),
            decreases self.tables.character_activity_stats.len() - i,
        {
            let row = &self.tables.character_activity_stats[i];
            assert(id_in(self@.stats[i as int].activity, self@.activities.len()));
            let at: usize = (row.activity - 1) as usize;
            assert(tagged@[at as int] == self@.has_mode_tag(row.activity, mode.id));
            assert(private@[at as int] == self@.has_mode_tag(
                row.activity,
                MODE_PRIVATE_MATCHES_ALL,
            ));
            if row.character == character_row_id && tagged[at] && (open_to_private || !private[at]) {
                let id = self.tables.activities[at].activity_id;
                best =
                match best {
                    Some(b) => if b >= id {
                        Some(b)
                    } else {
                        Some(id)
                    },
                    None => Some(id),
                };
            }
            i = i + 1;
        }
        match best {
            Some(id) => id,
            None => 0,
        }
    }
}

/// Once queueing entries has failed, it has failed for every longer list of
/// them.
proof fn lemma_enqueue_items_error_stays(
    store: StoreState,
    character: i32,
    items: Seq<PageItem>,
    failed: nat,
    count: nat,
)
    requires
        failed <= count,
    ensures
        store.enqueue_items(character, items, failed) is Err ==> store.enqueue_items(
            character,
            items,
            count,
        ) == store.enqueue_items(character, items, failed),
    decreases count,
{
    if failed < count {
        lemma_enqueue_items_error_stays(store, character, items, failed, (count - 1) as nat);
    }
}

/// What one pass over a character's queue, or one sync run, has done: how
/// many detailed records were stored, and how many matches were on the
/// queue (for a whole run: how many were left on it).
#[derive(Clone, Copy, Debug, PartialEq, Eq, Structural)]
pub struct SyncResult {
    pub total_available: u32,
    pub total_synced: u32,
}

impl core::ops::Add<SyncResult> for SyncResult {
    type Output = SyncResult;

    fn add(self, sr: SyncResult) -> (sum: SyncResult) {
        SyncResult {
            total_available: self.total_available + sr.total_available,
            total_synced: self.total_synced + sr.total_synced,
        }
    }
}

impl vstd::std_specs::ops::AddSpecImpl<SyncResult> for SyncResult {
    open spec fn obeys_add_spec() -> bool {
        true
    }

    open spec fn add_req(self, sr: SyncResult) -> bool {
        self.total_available + sr.total_available <= u32::MAX && self.total_synced
            + sr.total_synced <= u32::MAX
    }

    open spec fn add_spec(self, sr: SyncResult) -> SyncResult {
        SyncResult {
            total_available: (self.total_available + sr.total_available) as u32,
            total_synced: (self.total_synced + sr.total_synced) as u32,
        }
    }
}

/// Adds the team results of a match to the team table.
fn push_team_rows(
    rows: &mut Vec<TeamResultRow>,
    teams: &Vec<DestinyPostGameCarnageReportTeamEntry>,
    activity: i32,
)
    ensures
        final(rows)@ =~= old(rows)@ + Seq::new(
            teams@.len(),
            |k: int| team_row(teams@[k], activity),
        ),
{
    let mut i: usize = 0;
    while i < teams.len()
        invariant
            i <= teams.len(),
            rows@ =~= old(rows)@ + Seq::new(i as nat, |k: int| team_row(teams@[k], activity)),
        decreases teams.len() - i,
    {
        let team = &teams[i];
        rows.push(
            TeamResultRow {
                team_id: team.team,
                score: team.score,
                standing: team.standing,
                activity,
            },
        );
        i = i + 1;
    }
}

/// Adds the mode tags of a match to the mode table.
fn push_mode_rows(rows: &mut Vec<ModeRow>, modes: &Vec<Mode>, activity: i32)
    ensures
        final(rows)@ =~= old(rows)@ + Seq::new(
            modes@.len(),
            |k: int| ModeRow { mode: mode_ids(modes@)[k], activity },
        ),
{
    let mut i: usize = 0;
    while i < modes.len()
        invariant
            i <= modes.len(),
            rows@ =~= old(rows)@ + Seq::new(
                i as nat,
                |k: int| ModeRow { mode: mode_ids(modes@)[k], activity },
            ),
        decreases modes.len() - i,
    {
        rows.push(ModeRow { mode: modes[i].to_id(), activity });
        i = i + 1;
    }
}

/// Once recording participants has failed, it has failed for every longer
/// list of them.
proof fn lemma_insert_entries_error_stays(
    store: StoreState,
    entries: Seq<EntryView>,
    activity: i32,
    failed: nat,
    count: nat,
)
    requires
        failed <= count,
    ensures
        store.insert_entries(entries, activity, failed) is Err ==> store.insert_entries(
            entries,
            activity,
            count,
        ) == store.insert_entries(entries, activity, failed),
    decreases count,
{
    if failed < count {
        lemma_insert_entries_error_stays(store, entries, activity, failed, (count - 1) as nat);
    }
}

} // verus!
