//! The record store as a mathematical value: nine tables of rows, the rules
//! that every reachable store obeys, and what each write makes of a store.
//!
//! A row of the member, character, activity and outcome tables is known by
//! its row identifier, which is its position in the table counted from one.
//! Those tables only ever grow, so an identifier, once handed out, names the
//! same row for good.

use crate::enums::{is_private_mode, MODE_PRIVATE_MATCHES_ALL};
use crate::error::Error;
use crate::response::activities::PageItem;
use crate::response::pgcr::{
    medal_value, DestinyHistoricalWeaponStats, DestinyPostGameCarnageReportTeamEntry, DetailView,
    EntryView, FailedRecord, MedalValueView, PerformanceValues, ReportView,
};
use vstd::prelude::*;

verus! {

/// A player account.
#[derive(Debug)]
pub struct MemberRow {
    pub member_id: String,
    pub platform_id: u32,
    pub display_name: String,
}

/// A playable character of an account.
#[derive(Debug)]
pub struct CharacterRow {
    pub character_id: String,
    pub member: i32,
    pub class: u32,
}

/// A completed match.
#[derive(Clone, Copy, Debug, PartialEq, Eq, Structural)]
pub struct ActivityRow {
    pub activity_id: i64,
    pub period: i64,
    pub mode: u32,
    pub platform: u32,
    pub director_activity_hash: u32,
    pub reference_id: u32,
}

/// One mode category that a match counts under.
#[derive(Clone, Copy, Debug, PartialEq, Eq, Structural)]
pub struct ModeRow {
    pub mode: u32,
    pub activity: i32,
}

/// How one team fared in a match.
#[derive(Clone, Copy, Debug, PartialEq, Eq, Structural)]
pub struct TeamResultRow {
    pub team_id: i32,
    pub score: u32,
    pub standing: u32,
    pub activity: i32,
}

/// How one character fared in a match.
#[derive(Clone, Copy, Debug, PartialEq, Eq, Structural)]
pub struct CharacterActivityStatsRow {
    pub character: i32,
    pub activity: i32,
    pub values: PerformanceValues,
    pub precision_kills: u32,
    pub weapon_kills_ability: u32,
    pub weapon_kills_grenade: u32,
    pub weapon_kills_melee: u32,
    pub weapon_kills_super: u32,
    pub all_medals_earned: u32,
    pub light_level: i32,
}

/// A named counter earned by one character in one match.
#[derive(Debug)]
pub struct MedalResultRow {
    pub reference_id: String,
    pub count: u32,
    pub character_activity_stats: i32,
}

/// What one weapon did for one character in one match.
#[derive(Clone, Copy, Debug, PartialEq, Eq, Structural)]
pub struct WeaponResultRow {
    pub reference_id: u32,
    pub kills: u32,
    pub precision_kills: u32,
    pub kills_precision_kills_ratio: u32,
    pub character_activity_stats: i32,
}

/// A match whose detailed record is still to be fetched for a character.
#[derive(Clone, Copy, Debug, PartialEq, Eq, Structural)]
pub struct QueueRow {
    pub activity_id: i64,
    pub character: i32,
}

pub struct MemberView {
    pub member_id: Seq<char>,
    pub platform_id: u32,
    pub display_name: Seq<char>,
}

pub struct CharacterView {
    pub character_id: Seq<char>,
    pub member: i32,
    pub class: u32,
}

pub struct MedalResultView {
    pub reference_id: Seq<char>,
    pub count: u32,
    pub character_activity_stats: i32,
}

impl View for MemberRow {
    type V = MemberView;

    open spec fn view(&self) -> MemberView {
        MemberView {
            member_id: self.member_id@,
            platform_id: self.platform_id,
            display_name: self.display_name@,
        }
    }
}

impl View for CharacterRow {
    type V = CharacterView;

    open spec fn view(&self) -> CharacterView {
        CharacterView { character_id: self.character_id@, member: self.member, class: self.class }
    }
}

impl View for MedalResultRow {
    type V = MedalResultView;

    open spec fn view(&self) -> MedalResultView {
        MedalResultView {
            reference_id: self.reference_id@,
            count: self.count,
            character_activity_stats: self.character_activity_stats,
        }
    }
}

pub open spec fn member_views(rows: Seq<MemberRow>) -> Seq<MemberView> {
    Seq::new(rows.len(), |i: int| rows[i]@)
}

pub open spec fn character_views(rows: Seq<CharacterRow>) -> Seq<CharacterView> {
    Seq::new(rows.len(), |i: int| rows[i]@)
}

pub open spec fn medal_result_views(rows: Seq<MedalResultRow>) -> Seq<MedalResultView> {
    Seq::new(rows.len(), |i: int| rows[i]@)
}

/// Whether `id` is the row identifier of one of the first `rows` rows.
pub open spec fn id_in(id: i32, rows: nat) -> bool {
    1 <= id && id as int <= rows as int
}

/// The most rows that a table with row identifiers can hold: as many as
/// there are positive 32-bit identifiers.
pub const TABLE_CAPACITY: usize = 0x7fff_ffff;

/// The most rows that a table with row identifiers can hold.
pub open spec fn table_capacity() -> nat {
    TABLE_CAPACITY as nat
}

/// The row that a team entry of a detailed record becomes.
pub open spec fn team_row(team: DestinyPostGameCarnageReportTeamEntry, activity: i32)
    -> TeamResultRow {
    TeamResultRow { team_id: team.team, score: team.score, standing: team.standing, activity }
}

/// The outcome row that a participant entry becomes.
pub open spec fn stats_row(entry: EntryView, character: i32, activity: i32)
    -> CharacterActivityStatsRow {
    CharacterActivityStatsRow {
        character,
        activity,
        values: entry.values,
        precision_kills: medal_value(entry.medals, "precisionKills"@),
        weapon_kills_ability: medal_value(entry.medals, "weaponKillsAbility"@),
        weapon_kills_grenade: medal_value(entry.medals, "weaponKillsGrenade"@),
        weapon_kills_melee: medal_value(entry.medals, "weaponKillsMelee"@),
        weapon_kills_super: medal_value(entry.medals, "weaponKillsSuper"@),
        all_medals_earned: medal_value(entry.medals, "allMedalsEarned"@),
        light_level: entry.light_level,
    }
}

pub open spec fn medal_row(medal: MedalValueView, stats: i32) -> MedalResultView {
    MedalResultView {
        reference_id: medal.key,
        count: medal.value,
        character_activity_stats: stats,
    }
}

pub open spec fn weapon_row(weapon: DestinyHistoricalWeaponStats, stats: i32) -> WeaponResultRow {
    WeaponResultRow {
        reference_id: weapon.reference_id,
        kills: weapon.unique_weapon_kills,
        precision_kills: weapon.unique_weapon_precision_kills,
        kills_precision_kills_ratio: weapon.unique_weapon_kills_precision_kills,
        character_activity_stats: stats,
    }
}

pub const PRIVATE_GAMBIT_HASH: u32 = 2526740498;

pub const PRIVATE_GAMBIT_HASH_ALT: u32 = 248695599;

/// Whether a director hash names one of the two private-mode artifacts that
/// are kept out of the queue.
pub open spec fn is_excluded_hash(hash: u32) -> bool {
    hash == PRIVATE_GAMBIT_HASH || hash == PRIVATE_GAMBIT_HASH_ALT
}

/// The larger of an earlier maximum, if there is one, and a further value.
pub open spec fn max_with(best: Option<i64>, value: i64) -> Option<i64> {
    match best {
        Some(b) => if b >= value {
            Some(b)
        } else {
            Some(value)
        },
        None => Some(value),
    }
}

/// The whole content of a record store.
#[verifier::ext_equal]
pub struct StoreState {
    pub members: Seq<MemberView>,
    pub characters: Seq<CharacterView>,
    pub activities: Seq<ActivityRow>,
    pub modes: Seq<ModeRow>,
    pub team_results: Seq<TeamResultRow>,
    pub stats: Seq<CharacterActivityStatsRow>,
    pub medals: Seq<MedalResultView>,
    pub weapons: Seq<WeaponResultRow>,
    pub queue: Seq<QueueRow>,
}

impl StoreState {
    /// The store that holds nothing.
    pub open spec fn empty() -> StoreState {
        StoreState {
            members: Seq::empty(),
            characters: Seq::empty(),
            activities: Seq::empty(),
            modes: Seq::empty(),
            team_results: Seq::empty(),
            stats: Seq::empty(),
            medals: Seq::empty(),
            weapons: Seq::empty(),
            queue: Seq::empty(),
        }
    }

    /// No two accounts share a remote identifier.
    pub open spec fn members_wf(self) -> bool {
        &&& self.members.len() <= table_capacity()
        &&& forall|i: int, j: int|
            0 <= i < j < self.members.len() ==> self.members[i].member_id
                != self.members[j].member_id
    }

    /// No two characters share a remote identifier, and each belongs to a
    /// stored account.
    pub open spec fn characters_wf(self) -> bool {
        &&& self.characters.len() <= table_capacity()
        &&& forall|i: int, j: int|
            0 <= i < j < self.characters.len() ==> self.characters[i].character_id
                != self.characters[j].character_id
        &&& forall|i: int|
            0 <= i < self.characters.len() ==> id_in(
                (#[trigger] self.characters[i]).member,
                self.members.len(),
            )
    }

    /// No two matches share a remote identifier.
    pub open spec fn activities_wf(self) -> bool {
        &&& self.activities.len() <= table_capacity()
        &&& forall|i: int, j: int|
            0 <= i < j < self.activities.len() ==> self.activities[i].activity_id
                != self.activities[j].activity_id
    }

    /// A character has at most one outcome per match, and every outcome
    /// names a stored character and a stored match.
    pub open spec fn stats_wf(self) -> bool {
        &&& self.stats.len() <= table_capacity()
        &&& forall|i: int, j: int|
            0 <= i < j < self.stats.len() ==> !(self.stats[i].character == self.stats[j].character
                && self.stats[i].activity == self.stats[j].activity)
        &&& forall|i: int|
            0 <= i < self.stats.len() ==> id_in(
                (#[trigger] self.stats[i]).character,
                self.characters.len(),
            ) && id_in(self.stats[i].activity, self.activities.len())
    }

    /// Mode tags, team results, medals and weapons name stored rows.
    pub open spec fn details_wf(self) -> bool {
        &&& forall|i: int|
            0 <= i < self.modes.len() ==> id_in(
                (#[trigger] self.modes[i]).activity,
                self.activities.len(),
            )
        &&& forall|i: int|
            0 <= i < self.team_results.len() ==> id_in(
                (#[trigger] self.team_results[i]).activity,
                self.activities.len(),
            )
        &&& forall|i: int|
            0 <= i < self.medals.len() ==> id_in(
                (#[trigger] self.medals[i]).character_activity_stats,
                self.stats.len(),
            )
        &&& forall|i: int|
            0 <= i < self.weapons.len() ==> id_in(
                (#[trigger] self.weapons[i]).character_activity_stats,
                self.stats.len(),
            )
    }

    /// A match is queued at most once for a character, and only for a
    /// stored character.
    pub open spec fn queue_wf(self) -> bool {
        &&& self.queue.len() <= table_capacity()
        &&& forall|i: int, j: int|
            0 <= i < j < self.queue.len() ==> self.queue[i] != self.queue[j]
        &&& forall|i: int|
            0 <= i < self.queue.len() ==> id_in(
                (#[trigger] self.queue[i]).character,
                self.characters.len(),
            )
    }

    /// The rules that every store obeys.
    pub open spec fn wf(self) -> bool {
        &&& self.members_wf()
        &&& self.characters_wf()
        &&& self.activities_wf()
        &&& self.stats_wf()
        &&& self.details_wf()
        &&& self.queue_wf()
    }

    pub open spec fn has_member(self, member_id: Seq<char>) -> bool {
        exists|i: int|
            0 <= i < self.members.len() && (#[trigger] self.members[i]).member_id == member_id
    }

    /// The position of the account with this remote identifier.
    pub open spec fn member_index(self, member_id: Seq<char>) -> int {
        choose|i: int|
            0 <= i < self.members.len() && (#[trigger] self.members[i]).member_id == member_id
    }

    pub open spec fn has_character(self, character_id: Seq<char>) -> bool {
        exists|i: int|
            0 <= i < self.characters.len() && (#[trigger] self.characters[i]).character_id
                == character_id
    }

    /// The position of the character with this remote identifier.
    pub open spec fn character_index(self, character_id: Seq<char>) -> int {
        choose|i: int|
            0 <= i < self.characters.len() && (#[trigger] self.characters[i]).character_id
                == character_id
    }

    /// Whether the character with a remote identifier is stored and
    /// belongs to the account with a remote identifier.
    pub open spec fn owns_character(self, member_id: Seq<char>, character_id: Seq<char>) -> bool {
        self.has_character(character_id) && self.members[self.characters[self.character_index(
            character_id,
        )].member - 1].member_id == member_id
    }

    pub open spec fn has_activity(self, instance_id: i64) -> bool {
        exists|i: int|
            0 <= i < self.activities.len() && (#[trigger] self.activities[i]).activity_id
                == instance_id
    }

    /// The position of the match with this remote identifier.
    pub open spec fn activity_index(self, instance_id: i64) -> int {
        choose|i: int|
            0 <= i < self.activities.len() && (#[trigger] self.activities[i]).activity_id
                == instance_id
    }

    /// Whether the character has an outcome stored for the match.
    pub open spec fn has_stats(self, character: i32, activity: i32) -> bool {
        exists|i: int|
            0 <= i < self.stats.len() && (#[trigger] self.stats[i]).character == character
                && self.stats[i].activity == activity
    }

    pub open spec fn is_queued(self, activity_id: i64, character: i32) -> bool {
        exists|i: int|
            0 <= i < self.queue.len() && #[trigger] self.queue[i] == (QueueRow {
                activity_id,
                character,
            })
    }

    /// The position of a queue entry.
    pub open spec fn queue_index(self, activity_id: i64, character: i32) -> int {
        choose|i: int|
            0 <= i < self.queue.len() && #[trigger] self.queue[i] == (QueueRow {
                activity_id,
                character,
            })
    }

    /// Whether the match carries the mode tag.
    pub open spec fn has_mode_tag(self, activity: i32, mode: u32) -> bool {
        exists|i: int|
            0 <= i < self.modes.len() && #[trigger] self.modes[i] == (ModeRow { mode, activity })
    }

    /// The mode filter: the match carries the tag, and where a public mode
    /// is asked for, the match is not a private one.
    pub open spec fn matches_mode(self, activity: i32, mode: u32) -> bool {
        self.has_mode_tag(activity, mode) && (is_private_mode(mode) || !self.has_mode_tag(
            activity,
            MODE_PRIVATE_MATCHES_ALL,
        ))
    }

    /// Records an account: a new one is added, a known one takes the new
    /// display name and keeps its platform. Gives the store that results
    /// and the account's row identifier.
    pub open spec fn upsert_member(
        self,
        member_id: Seq<char>,
        platform_id: u32,
        display_name: Seq<char>,
    ) -> Result<(StoreState, i32), Error> {
        if self.has_member(member_id) {
            let i = self.member_index(member_id);
            Ok(
                (
                    StoreState {
                        members: self.members.update(
                            i,
                            MemberView { display_name, ..self.members[i] },
                        ),
                        ..self
                    },
                    (i + 1) as i32,
                ),
            )
        } else if self.members.len() >= table_capacity() {
            Err(Error::StoreFull)
        } else {
            Ok(
                (
                    StoreState {
                        members: self.members.push(
                            MemberView { member_id, platform_id, display_name },
                        ),
                        ..self
                    },
                    (self.members.len() + 1) as i32,
                ),
            )
        }
    }

    /// Records a character of an account: a new one is added, a known one
    /// is left as it is. Gives the store that results and the character's
    /// row identifier. A character known under another account is not
    /// found under this one.
    pub open spec fn insert_character(self, character_id: Seq<char>, class: u32, member: i32)
        -> Result<(StoreState, i32), Error> {
        if self.has_character(character_id) {
            let i = self.character_index(character_id);
            if self.characters[i].member == member {
                Ok((self, (i + 1) as i32))
            } else {
                Err(Error::RowNotFound)
            }
        } else if !id_in(member, self.members.len()) {
            Err(Error::Constraint)
        } else if self.characters.len() >= table_capacity() {
            Err(Error::StoreFull)
        } else {
            Ok(
                (
                    StoreState {
                        characters: self.characters.push(
                            CharacterView { character_id, member, class },
                        ),
                        ..self
                    },
                    (self.characters.len() + 1) as i32,
                ),
            )
        }
    }

    /// Records how a character fared in a match, with its medals and
    /// weapons.
    pub open spec fn insert_stats(self, entry: EntryView, character: i32, activity: i32)
        -> Result<StoreState, Error> {
        if !id_in(character, self.characters.len()) || !id_in(activity, self.activities.len())
            || self.has_stats(character, activity) {
            Err(Error::Constraint)
        } else if self.stats.len() >= table_capacity() {
            Err(Error::StoreFull)
        } else {
            let id = (self.stats.len() + 1) as i32;
            Ok(
                StoreState {
                    stats: self.stats.push(stats_row(entry, character, activity)),
                    medals: self.medals + Seq::new(
                        entry.medals.len(),
                        |k: int| medal_row(entry.medals[k], id),
                    ),
                    weapons: self.weapons + Seq::new(
                        entry.weapons.len(),
                        |k: int| weapon_row(entry.weapons[k], id),
                    ),
                    ..self
                },
            )
        }
    }

    /// Records one participant of a match: the account, the character and
    /// the outcome, in this order, stopping at the first failure.
    pub open spec fn insert_entry(self, entry: EntryView, activity: i32) -> Result<
        StoreState,
        Error,
    > {
        match self.upsert_member(entry.membership_id, entry.membership_type, entry.display_name) {
            Err(e) => Err(e),
            Ok((with_member, member)) => match with_member.insert_character(
                entry.character_id,
                entry.class,
                member,
            ) {
                Err(e) => Err(e),
                Ok((with_character, character)) => with_character.insert_stats(
                    entry,
                    character,
                    activity,
                ),
            },
        }
    }

    /// Records the first `count` participants of a list.
    pub open spec fn insert_entries(self, entries: Seq<EntryView>, activity: i32, count: nat)
        -> Result<StoreState, Error>
        decreases count,
    {
        if count == 0 {
            Ok(self)
        } else {
            match self.insert_entries(entries, activity, (count - 1) as nat) {
                Err(e) => Err(e),
                Ok(before) => before.insert_entry(entries[count - 1], activity),
            }
        }
    }

    /// The store with the match itself recorded: its row, its team results
    /// and its mode tags.
    pub open spec fn with_activity(self, report: ReportView) -> StoreState {
        let id = (self.activities.len() + 1) as i32;
        StoreState {
            activities: self.activities.push(
                ActivityRow {
                    activity_id: report.instance_id,
                    period: report.period,
                    mode: report.mode,
                    platform: report.platform,
                    director_activity_hash: report.director_activity_hash,
                    reference_id: report.reference_id,
                },
            ),
            team_results: self.team_results + Seq::new(
                report.teams.len(),
                |k: int| team_row(report.teams[k], id),
            ),
            modes: self.modes + Seq::new(
                report.modes.len(),
                |k: int| ModeRow { mode: report.modes[k], activity: id },
            ),
            ..self
        }
    }

    /// Records a detailed record as one transaction. A record whose match
    /// is already stored changes nothing and succeeds. Otherwise every row
    /// of the record is stored, or, where any write fails, none is: the
    /// error stands for a store left as it was.
    pub open spec fn insert_activity(self, report: ReportView) -> Result<StoreState, Error> {
        if self.has_activity(report.instance_id) {
            Ok(self)
        } else if self.activities.len() >= table_capacity() {
            Err(Error::StoreFull)
        } else {
            self.with_activity(report).insert_entries(
                report.entries,
                (self.activities.len() + 1) as i32,
                report.entries.len(),
            )
        }
    }

    /// Queues a match for a character.
    pub open spec fn enqueue(self, activity_id: i64, character: i32) -> Result<StoreState, Error> {
        if !id_in(character, self.characters.len()) || self.is_queued(activity_id, character) {
            Err(Error::Constraint)
        } else if self.queue.len() >= table_capacity() {
            Err(Error::StoreFull)
        } else {
            Ok(StoreState { queue: self.queue.push(QueueRow { activity_id, character }), ..self })
        }
    }

    /// Takes a match off a character's queue, if it is on it.
    pub open spec fn dequeue(self, character: i32, activity_id: i64) -> StoreState {
        if self.is_queued(activity_id, character) {
            StoreState {
                queue: self.queue.remove(self.queue_index(activity_id, character)),
                ..self
            }
        } else {
            self
        }
    }

    /// The matches queued for a character among the first `count` queue
    /// entries, in queue order.
    pub open spec fn queued_among(self, character: i32, count: nat) -> Seq<i64>
        decreases count,
    {
        if count == 0 {
            Seq::empty()
        } else {
            let before = self.queued_among(character, (count - 1) as nat);
            if self.queue[count - 1].character == character {
                before.push(self.queue[count - 1].activity_id)
            } else {
                before
            }
        }
    }

    /// The matches queued for a character, in queue order.
    pub open spec fn queued(self, character: i32) -> Seq<i64> {
        self.queued_among(character, self.queue.len())
    }

    /// Whether an outcome row stands for a match that the character played
    /// and that passes the mode filter.
    pub open spec fn is_known_event(self, row: int, character: i32, mode: u32) -> bool {
        self.stats[row].character == character && self.matches_mode(self.stats[row].activity, mode)
    }

    /// The largest remote identifier among the known events of the first
    /// `count` outcome rows, if there is any.
    pub open spec fn max_activity_among(self, character: i32, mode: u32, count: nat) -> Option<
        i64,
    >
        decreases count,
    {
        if count == 0 {
            None
        } else {
            let before = self.max_activity_among(character, mode, (count - 1) as nat);
            if self.is_known_event(count - 1, character, mode) {
                max_with(before, self.activities[self.stats[count - 1].activity - 1].activity_id)
            } else {
                before
            }
        }
    }

    /// The remote identifier from which discovery continues: the largest
    /// one among the matches stored for the character that pass the mode
    /// filter, and zero where there is none.
    pub open spec fn max_activity_id(self, character: i32, mode: u32) -> i64 {
        match self.max_activity_among(character, mode, self.stats.len()) {
            Some(id) => id,
            None => 0,
        }
    }

    /// Whether the match is stored with an outcome for the character.
    pub open spec fn has_event(self, character: i32, instance_id: i64) -> bool {
        self.has_activity(instance_id) && self.has_stats(
            character,
            (self.activity_index(instance_id) + 1) as i32,
        )
    }

    /// Whether discovery passes over a history entry: it is one of the two
    /// private-mode artifacts, or the character's outcome of the match is
    /// stored already.
    pub open spec fn skips(self, character: i32, item: PageItem) -> bool {
        is_excluded_hash(item.director_activity_hash) || self.has_event(
            character,
            item.instance_id,
        )
    }

    /// Queues the first `count` entries of a list for a character, passing
    /// over those that discovery skips and stopping at the first failure.
    /// Gives the store that results and how many entries were queued.
    pub open spec fn enqueue_items(self, character: i32, items: Seq<PageItem>, count: nat)
        -> Result<(StoreState, nat), Error>
        decreases count,
    {
        if count == 0 {
            Ok((self, 0))
        } else {
            match self.enqueue_items(character, items, (count - 1) as nat) {
                Err(e) => Err(e),
                Ok((before, queued)) => {
                    let item = items[count - 1];
                    if before.skips(character, item) {
                        Ok((before, queued))
                    } else {
                        match before.enqueue(item.instance_id, character) {
                            Err(e) => Err(e),
                            Ok(after) => Ok((after, queued + 1)),
                        }
                    }
                },
            }
        }
    }

    /// Queues one page of history for a character as one transaction. The
    /// page comes newest first and is queued oldest first. Where a write
    /// fails, no entry of the page is queued: the error stands for a store
    /// left as it was.
    pub open spec fn enqueue_page(self, character: i32, page: Seq<PageItem>) -> Result<
        (StoreState, nat),
        Error,
    > {
        self.enqueue_items(character, page.reverse(), page.len())
    }

    /// What one response to a request for a detailed record makes of the
    /// store, and whether it counts as synced. A record that is stored, or
    /// was stored before, counts, and its match leaves the character's
    /// queue. Anything else leaves the store, and so the queue, as it was.
    pub open spec fn record_detail(self, character: i32, fetch: DetailView) -> (StoreState, bool) {
        match fetch {
            DetailView::Fetched(report) => match self.insert_activity(report) {
                Ok(after) => (after.dequeue(character, report.instance_id), true),
                Err(_) => (self, false),
            },
            DetailView::Empty => (self, false),
            DetailView::Failed => (self, false),
        }
    }

    /// What is noted of one response: nothing, unless it brings a record
    /// that cannot be stored, of which the match and the error are noted.
    pub open spec fn record_failure(self, fetch: DetailView) -> Seq<FailedRecord> {
        match fetch {
            DetailView::Fetched(report) => match self.insert_activity(report) {
                Ok(_) => Seq::empty(),
                Err(e) => seq![FailedRecord { instance_id: report.instance_id, error: e }],
            },
            DetailView::Empty => Seq::empty(),
            DetailView::Failed => Seq::empty(),
        }
    }

    /// What is noted of the first `count` responses of a batch, taken in
    /// order: the records among them that cannot be stored.
    pub open spec fn record_failures(self, character: i32, batch: Seq<DetailView>, count: nat)
        -> Seq<FailedRecord>
        decreases count,
    {
        if count == 0 {
            Seq::empty()
        } else {
            self.record_failures(character, batch, (count - 1) as nat) + self.record_details(
                character,
                batch,
                (count - 1) as nat,
            ).0.record_failure(batch[count - 1])
        }
    }

    /// What the first `count` responses of a batch make of the store, taken
    /// in order, and how many of them count as synced.
    pub open spec fn record_details(self, character: i32, batch: Seq<DetailView>, count: nat) -> (
        StoreState,
        nat,
    )
        decreases count,
    {
        if count == 0 {
            (self, 0)
        } else {
            let (before, synced) = self.record_details(character, batch, (count - 1) as nat);
            let (after, counts) = before.record_detail(character, batch[count - 1]);
            (
                after,
                if counts {
                    synced + 1
                } else {
                    synced
                },
            )
        }
    }

    /// Every row of this store stands unchanged, at its place, in `later`.
    pub open spec fn extends_to(self, later: StoreState) -> bool {
        &&& self.members.is_prefix_of(later.members)
        &&& self.characters.is_prefix_of(later.characters)
        &&& self.activities.is_prefix_of(later.activities)
        &&& self.modes.is_prefix_of(later.modes)
        &&& self.team_results.is_prefix_of(later.team_results)
        &&& self.stats.is_prefix_of(later.stats)
        &&& self.medals.is_prefix_of(later.medals)
        &&& self.weapons.is_prefix_of(later.weapons)
        &&& self.queue.is_prefix_of(later.queue)
    }

    /// Every account of this store stands at its place in `later`, under
    /// its remote identifier and on its platform; its display name may have
    /// changed.
    pub open spec fn accounts_kept_by(self, later: StoreState) -> bool {
        &&& self.members.len() <= later.members.len()
        &&& forall|i: int|
            0 <= i < self.members.len() ==> (#[trigger] later.members[i]).member_id
                == self.members[i].member_id && later.members[i].platform_id
                == self.members[i].platform_id
    }

    /// Every character, match, mode tag and outcome of this store stands
    /// unchanged, at its place, in `later`, every account stands at its
    /// place, and the mode tags that `later` has more are tags of matches
    /// that it has more: what was synced stays synced.
    pub open spec fn history_kept_by(self, later: StoreState) -> bool {
        &&& self.accounts_kept_by(later)
        &&& self.characters.is_prefix_of(later.characters)
        &&& self.activities.is_prefix_of(later.activities)
        &&& self.modes.is_prefix_of(later.modes)
        &&& self.stats.is_prefix_of(later.stats)
        &&& forall|i: int|
            self.modes.len() <= i < later.modes.len() ==> (#[trigger] later.modes[i]).activity
                > self.activities.len()
    }

    /// Whether the store holds a match that the character played and that
    /// passes the mode filter.
    pub open spec fn knows_event(self, character: i32, mode: u32) -> bool {
        exists|row: int| 0 <= row < self.stats.len() && self.is_known_event(row, character, mode)
    }
}

/// Under the rules of the store a remote identifier finds one account.
pub proof fn lemma_member_index(store: StoreState, member_id: Seq<char>, i: int)
    requires
        store.members_wf(),
        0 <= i < store.members.len(),
        store.members[i].member_id == member_id,
    ensures
        store.has_member(member_id),
        store.member_index(member_id) == i,
{
    let j = store.member_index(member_id);
    assert(0 <= j < store.members.len() && store.members[j].member_id == member_id);
    if j < i {
        assert(store.members[j].member_id != store.members[i].member_id);
    } else if i < j {
        assert(store.members[i].member_id != store.members[j].member_id);
    }
}

/// Under the rules of the store a remote identifier finds one character.
pub proof fn lemma_character_index(store: StoreState, character_id: Seq<char>, i: int)
    requires
        store.characters_wf(),
        0 <= i < store.characters.len(),
        store.characters[i].character_id == character_id,
    ensures
        store.has_character(character_id),
        store.character_index(character_id) == i,
{
    let j = store.character_index(character_id);
    assert(0 <= j < store.characters.len() && store.characters[j].character_id == character_id);
    if j < i {
        assert(store.characters[j].character_id != store.characters[i].character_id);
    } else if i < j {
        assert(store.characters[i].character_id != store.characters[j].character_id);
    }
}

/// Under the rules of the store a remote identifier finds one match.
pub proof fn lemma_activity_index(store: StoreState, instance_id: i64, i: int)
    requires
        store.activities_wf(),
        0 <= i < store.activities.len(),
        store.activities[i].activity_id == instance_id,
    ensures
        store.has_activity(instance_id),
        store.activity_index(instance_id) == i,
{
    let j = store.activity_index(instance_id);
    assert(0 <= j < store.activities.len() && store.activities[j].activity_id == instance_id);
    if j < i {
        assert(store.activities[j].activity_id != store.activities[i].activity_id);
    } else if i < j {
        assert(store.activities[i].activity_id != store.activities[j].activity_id);
    }
}

/// Under the rules of the store a queue entry stands at one position.
pub proof fn lemma_queue_index(store: StoreState, activity_id: i64, character: i32, i: int)
    requires
        store.queue_wf(),
        0 <= i < store.queue.len(),
        store.queue[i] == (QueueRow { activity_id, character }),
    ensures
        store.is_queued(activity_id, character),
        store.queue_index(activity_id, character) == i,
{
    let j = store.queue_index(activity_id, character);
    assert(0 <= j < store.queue.len() && store.queue[j] == (QueueRow { activity_id, character }));
    if j < i {
        assert(store.queue[j] != store.queue[i]);
    } else if i < j {
        assert(store.queue[i] != store.queue[j]);
    }
}

} // verus!
