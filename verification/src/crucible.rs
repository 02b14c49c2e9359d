//! The report objects that the projection builds from stored rows, and what
//! it means for a report object to describe a row.
//!
//! The statistics that are ratios of counters (efficiency and the like) are
//! not part of a report: whoever presents a report computes them from the
//! counters it carries.

use crate::enums::{
    CharacterClass, CompletionReason, ItemSubType, ItemType, MedalTier, Mode, Platform, Standing,
    ITEM_TYPE_UNKNOWN,
};
use crate::manifestinterface::CacheState;
use crate::storemodel::{
    ActivityRow, CharacterActivityStatsRow, CharacterView, MedalResultView, MemberView,
    StoreState, TeamResultRow, WeaponResultRow,
};
use std::collections::HashMap;
use vstd::prelude::*;

verus! {

/// Identifier of the one team that a match without teams is given.
pub const NO_TEAMS_INDEX: i32 = 253;

#[derive(Debug)]
pub struct Item {
    pub id: u32,
    pub name: String,
    pub description: String,
    pub item_type: ItemType,
    pub item_sub_type: ItemSubType,
}

/// What a weapon did. The share of precision kills is the bit pattern of a
/// single-precision number.
#[derive(Debug)]
pub struct WeaponStat {
    pub weapon: Item,
    pub kills: u32,
    pub precision_kills: u32,
    pub precision_kills_percent: u32,
    pub activity_count: u32,
}

#[derive(Debug)]
pub struct Medal {
    pub id: String,
    pub icon_image_path: Option<String>,
    pub tier: MedalTier,
    pub name: String,
    pub description: String,
}

#[derive(Debug)]
pub struct MedalStat {
    pub medal: Medal,
    pub count: u32,
}

#[derive(Debug)]
pub struct ExtendedCrucibleStats {
    pub precision_kills: u32,
    pub weapon_kills_ability: u32,
    pub weapon_kills_grenade: u32,
    pub weapon_kills_melee: u32,
    pub weapon_kills_super: u32,
    pub all_medals_earned: u32,
    pub weapons: Vec<WeaponStat>,
    pub medals: Vec<MedalStat>,
}

/// How a character fared in a match. The two averages are the bit patterns
/// of single-precision numbers.
#[derive(Debug)]
pub struct CrucibleStats {
    pub assists: u32,
    pub score: u32,
    pub kills: u32,
    pub deaths: u32,
    pub average_score_per_kill: u32,
    pub average_score_per_life: u32,
    pub completed: bool,
    pub opponents_defeated: u32,
    pub activity_duration_seconds: u32,
    pub standing: Standing,
    pub team: i32,
    pub completion_reason: CompletionReason,
    pub start_seconds: u32,
    pub time_played_seconds: u32,
    pub player_count: u32,
    pub team_score: u32,
    pub extended: Option<ExtendedCrucibleStats>,
}

#[derive(Debug)]
pub struct Player {
    pub member_id: String,
    pub character_id: String,
    pub platform: Platform,
    pub display_name: String,
    pub light_level: i32,
    pub class_type: CharacterClass,
}

#[derive(Debug)]
pub struct CruciblePlayerPerformance {
    pub player: Player,
    pub stats: CrucibleStats,
}

/// The descriptive fields of a match. The period is in seconds since the
/// epoch.
#[derive(Debug)]
pub struct ActivityDetail {
    pub index_id: u32,
    pub id: i64,
    pub period: i64,
    pub map_name: String,
    pub mode: Mode,
    pub platform: Platform,
    pub director_activity_hash: u32,
    pub reference_id: u32,
}

#[derive(Debug)]
pub struct CruciblePlayerActivityPerformance {
    pub performance: CruciblePlayerPerformance,
    pub activity_detail: ActivityDetail,
}

#[derive(Debug)]
pub struct Team {
    pub id: i32,
    pub standing: Standing,
    pub score: u32,
    pub player_performances: Vec<CruciblePlayerPerformance>,
    pub display_name: String,
}

#[derive(Debug)]
pub struct CrucibleActivity {
    pub details: ActivityDetail,
    pub teams: HashMap<i32, Team>,
}

/// The display name of the team that is found at a position, counted from
/// zero: the names of a pool of six in their order, and no name after them.
pub open spec fn team_name(position: int) -> Seq<char> {
    if position == 0 {
        "Alpha"@
    } else if position == 1 {
        "Bravo"@
    } else if position == 2 {
        "Charlie"@
    } else if position == 3 {
        "Delta"@
    } else if position == 4 {
        "Echo"@
    } else if position == 5 {
        "Foxtrot"@
    } else {
        Seq::empty()
    }
}

/// The text of an optional text, empty where there is none.
pub open spec fn text_or_empty(text: Option<String>) -> Seq<char> {
    match text {
        Some(t) => t@,
        None => Seq::empty(),
    }
}

impl WeaponStat {
    /// The report describes a weapon row: it carries the row's counters,
    /// and the weapon's definition where the cache holds one, else the name
    /// "Unknown", no description and unknown kinds.
    pub open spec fn describes(&self, row: WeaponResultRow, cache: CacheState) -> bool {
        &&& self.kills == row.kills
        &&& self.precision_kills == row.precision_kills
        &&& self.precision_kills_percent == row.kills_precision_kills_ratio
        &&& self.activity_count == 1
        &&& self.weapon.id == row.reference_id
        &&& match cache.item(row.reference_id) {
            Some(definition) => {
                &&& self.weapon.name@ == definition.display_properties.name@
                &&& self.weapon.description@ == text_or_empty(
                    definition.display_properties.description,
                )
                &&& self.weapon.item_type == definition.item_type
                &&& self.weapon.item_sub_type == definition.item_sub_type
            },
            None => {
                &&& self.weapon.name@ == "Unknown"@
                &&& self.weapon.description@ == Seq::<char>::empty()
                &&& self.weapon.item_type.id == ITEM_TYPE_UNKNOWN
                &&& self.weapon.item_sub_type.id == ITEM_TYPE_UNKNOWN
            },
        }
    }
}

impl MedalStat {
    /// The report describes a medal row: it carries the row's count, and
    /// the medal's definition where the cache holds one, else the row's
    /// key, the name "Unknown", no description, no icon and an unknown
    /// tier.
    pub open spec fn describes(&self, row: MedalResultView, cache: CacheState) -> bool {
        &&& self.count == row.count
        &&& match cache.stat(row.reference_id) {
            Some(definition) => {
                &&& self.medal.id@ == definition.id@
                &&& self.medal.icon_image_path == definition.icon_image_path
                &&& self.medal.tier == match definition.medal_tier {
                    Some(tier) => tier,
                    None => MedalTier { id: ITEM_TYPE_UNKNOWN },
                }
                &&& self.medal.name@ == definition.name@
                &&& self.medal.description@ == definition.description@
            },
            None => {
                &&& self.medal.id@ == row.reference_id
                &&& self.medal.icon_image_path is None
                &&& self.medal.tier.id == ITEM_TYPE_UNKNOWN
                &&& self.medal.name@ == "Unknown"@
                &&& self.medal.description@ == Seq::<char>::empty()
            },
        }
    }
}

/// The report lists the weapon rows, one report for each row, in order.
pub open spec fn lists_weapons(
    reports: Seq<WeaponStat>,
    rows: Seq<WeaponResultRow>,
    cache: CacheState,
) -> bool {
    &&& reports.len() == rows.len()
    &&& forall|i: int| 0 <= i < reports.len() ==> (#[trigger] reports[i]).describes(rows[i], cache)
}

/// The report lists the medal rows, one report for each row, in order.
pub open spec fn lists_medals(reports: Seq<MedalStat>, rows: Seq<MedalResultView>, cache: CacheState)
    -> bool {
    &&& reports.len() == rows.len()
    &&& forall|i: int| 0 <= i < reports.len() ==> (#[trigger] reports[i]).describes(rows[i], cache)
}

impl CrucibleStats {
    /// The report describes an outcome row with its weapons and medals.
    pub open spec fn describes(
        &self,
        row: CharacterActivityStatsRow,
        weapons: Seq<WeaponResultRow>,
        medals: Seq<MedalResultView>,
        cache: CacheState,
    ) -> bool {
        &&& self.assists == row.values.assists
        &&& self.score == row.values.score
        &&& self.kills == row.values.kills
        &&& self.deaths == row.values.deaths
        &&& self.average_score_per_kill == row.values.average_score_per_kill
        &&& self.average_score_per_life == row.values.average_score_per_life
        &&& self.completed == (row.values.completed == 1)
        &&& self.opponents_defeated == row.values.opponents_defeated
        &&& self.activity_duration_seconds == row.values.activity_duration_seconds
        &&& self.standing == Standing::spec_from_value(row.values.standing)
        &&& self.team == row.values.team
        &&& self.completion_reason == CompletionReason::spec_from_id(row.values.completion_reason)
        &&& self.start_seconds == row.values.start_seconds
        &&& self.time_played_seconds == row.values.time_played_seconds
        &&& self.player_count == row.values.player_count
        &&& self.team_score == row.values.team_score
        &&& self.extended matches Some(extended)
        &&& extended.precision_kills == row.precision_kills
        &&& extended.weapon_kills_ability == row.weapon_kills_ability
        &&& extended.weapon_kills_grenade == row.weapon_kills_grenade
        &&& extended.weapon_kills_melee == row.weapon_kills_melee
        &&& extended.weapon_kills_super == row.weapon_kills_super
        &&& extended.all_medals_earned == row.all_medals_earned
        &&& lists_weapons(extended.weapons@, weapons, cache)
        &&& lists_medals(extended.medals@, medals, cache)
    }
}

impl Player {
    /// The report describes who played: the account, the character and the
    /// light level of the outcome.
    pub open spec fn describes(&self, member: MemberView, character: CharacterView, light_level: i32)
        -> bool {
        &&& self.member_id@ == member.member_id
        &&& self.character_id@ == character.character_id
        &&& self.platform.id == member.platform_id
        &&& self.display_name@ == member.display_name
        &&& self.light_level == light_level
        &&& self.class_type == CharacterClass::spec_from_id(character.class)
    }
}

impl ActivityDetail {
    /// The report describes a match row: it carries the row's fields, and
    /// as map name the name of the activity's definition where the cache
    /// holds one, else "Unknown".
    pub open spec fn describes(&self, row: ActivityRow, row_id: i32, cache: CacheState) -> bool {
        &&& self.index_id == row_id
        &&& self.id == row.activity_id
        &&& self.period == row.period
        &&& self.mode.id == row.mode
        &&& self.platform.id == row.platform
        &&& self.director_activity_hash == row.director_activity_hash
        &&& self.reference_id == row.reference_id
        &&& self.map_name@ == match cache.activity(row.reference_id) {
            Some(definition) => definition.display_properties.name@,
            None => "Unknown"@,
        }
    }
}

impl StoreState {
    /// The weapon rows of an outcome among the first `count` weapon rows.
    pub open spec fn weapons_among(self, stats: i32, count: nat) -> Seq<WeaponResultRow>
        decreases count,
    {
        if count == 0 {
            Seq::empty()
        } else {
            let before = self.weapons_among(stats, (count - 1) as nat);
            if self.weapons[count - 1].character_activity_stats == stats {
                before.push(self.weapons[count - 1])
            } else {
                before
            }
        }
    }

    /// The medal rows of an outcome among the first `count` medal rows.
    pub open spec fn medals_among(self, stats: i32, count: nat) -> Seq<MedalResultView>
        decreases count,
    {
        if count == 0 {
            Seq::empty()
        } else {
            let before = self.medals_among(stats, (count - 1) as nat);
            if self.medals[count - 1].character_activity_stats == stats {
                before.push(self.medals[count - 1])
            } else {
                before
            }
        }
    }

    /// The team rows of a match among the first `count` team rows.
    pub open spec fn teams_among(self, activity: i32, count: nat) -> Seq<TeamResultRow>
        decreases count,
    {
        if count == 0 {
            Seq::empty()
        } else {
            let before = self.teams_among(activity, (count - 1) as nat);
            if self.team_results[count - 1].activity == activity {
                before.push(self.team_results[count - 1])
            } else {
                before
            }
        }
    }

    /// The team rows of a match, in the order they were stored.
    pub open spec fn teams_of(self, activity: i32) -> Seq<TeamResultRow> {
        self.teams_among(activity, self.team_results.len())
    }

    /// Whether an outcome row belongs to a team of a match. In a match
    /// without teams every outcome of the match belongs to the one team.
    pub open spec fn plays_for(self, row: int, activity: i32, team: i32) -> bool {
        self.stats[row].activity == activity && (self.teams_of(activity).len() == 0
            || self.stats[row].values.team == team)
    }

    /// The positions of the outcome rows of a team of a match among the
    /// first `count` outcome rows.
    pub open spec fn roster_among(self, activity: i32, team: i32, count: nat) -> Seq<int>
        decreases count,
    {
        if count == 0 {
            Seq::empty()
        } else {
            let before = self.roster_among(activity, team, (count - 1) as nat);
            if self.plays_for(count - 1, activity, team) {
                before.push(count - 1)
            } else {
                before
            }
        }
    }

    /// The positions of the outcome rows of a team of a match, in the order
    /// the outcomes were stored.
    pub open spec fn roster_of(self, activity: i32, team: i32) -> Seq<int> {
        self.roster_among(activity, team, self.stats.len())
    }
}

impl CruciblePlayerPerformance {
    /// The report describes the outcome row at a position: who played, and
    /// how, with the weapons and medals of the outcome.
    pub open spec fn describes(&self, store: StoreState, row: int, cache: CacheState) -> bool {
        let stats = store.stats[row];
        let character = store.characters[stats.character - 1];
        let member = store.members[character.member - 1];
        &&& self.player.describes(member, character, stats.light_level)
        &&& self.stats.describes(
            stats,
            store.weapons_among((row + 1) as i32, store.weapons.len()),
            store.medals_among((row + 1) as i32, store.medals.len()),
            cache,
        )
    }
}

/// The reports list the outcome rows at the given positions, one report for
/// each row, in order.
pub open spec fn lists_performances(
    reports: Seq<CruciblePlayerPerformance>,
    store: StoreState,
    rows: Seq<int>,
    cache: CacheState,
) -> bool {
    &&& reports.len() == rows.len()
    &&& forall|i: int|
        0 <= i < reports.len() ==> (#[trigger] reports[i]).describes(store, rows[i], cache)
}

/// For every team identifier among the first `count` team rows of a match,
/// the position of the last of those rows that carries it.
pub open spec fn team_slots(rows: Seq<TeamResultRow>, count: nat) -> Map<i32, int>
    decreases count,
{
    if count == 0 {
        Map::empty()
    } else {
        team_slots(rows, (count - 1) as nat).insert(rows[count - 1].team_id, count - 1)
    }
}

impl Team {
    /// The team carries the fields of a team row and the name of the
    /// position at which the row was found.
    pub open spec fn heads(&self, row: TeamResultRow, position: int) -> bool {
        &&& self.id == row.team_id
        &&& self.score == row.score
        &&& self.standing == Standing::spec_from_value(row.standing)
        &&& self.display_name@ == team_name(position)
    }

    /// The team is the one that a match without teams is given: it has the
    /// reserved identifier, no score, an unknown standing and the first
    /// name of the pool.
    pub open spec fn stands_in(&self) -> bool {
        &&& self.id == NO_TEAMS_INDEX
        &&& self.score == 0
        &&& self.standing == Standing::Unknown
        &&& self.display_name@ == team_name(0)
    }
}

impl CrucibleActivity {
    /// The report describes the match with a row identifier: its
    /// descriptive fields, its teams and, team by team, the outcomes of
    /// those who played.
    ///
    /// A team row gives its team the name of the position at which it was
    /// found; of two rows with one team identifier the later one stands. A
    /// match without team rows has one team, the stand-in, with every
    /// outcome of the match. An outcome whose team is not among the teams
    /// of the match is in no team.
    pub open spec fn describes(&self, store: StoreState, activity: i32, cache: CacheState) -> bool {
        let rows = store.teams_of(activity);
        let slots = team_slots(rows, rows.len());
        &&& self.details.describes(store.activities[activity - 1], activity, cache)
        &&& if rows.len() == 0 {
            &&& self.teams@.dom() =~= set![NO_TEAMS_INDEX]
            &&& self.teams@[NO_TEAMS_INDEX].stands_in()
        } else {
            &&& self.teams@.dom() =~= slots.dom()
            &&& forall|team: i32| #[trigger]
                self.teams@.contains_key(team) ==> self.teams@[team].heads(
                    rows[slots[team]],
                    slots[team],
                )
        }
        &&& forall|team: i32| #[trigger]
            self.teams@.contains_key(team) ==> lists_performances(
                self.teams@[team].player_performances@,
                store,
                store.roster_of(activity, team),
                cache,
            )
    }
}

} // verus!
