//! The projection: reports built from the rows of the store and the
//! definitions of the cache.
//!
//! A report names what the cache can name. Whoever needs the names reads
//! the missing definitions into the cache before asking for the report.

use crate::activitystoreinterface::ActivityStoreInterface;
use crate::crucible::{
    lists_medals, lists_performances, lists_weapons, team_name, team_slots, ActivityDetail,
    CrucibleActivity, CruciblePlayerActivityPerformance, CruciblePlayerPerformance, CrucibleStats,
    ExtendedCrucibleStats, Item, Medal, MedalStat, Player, Team, WeaponStat, NO_TEAMS_INDEX,
};
use crate::enums::{
    CharacterClass, CharacterClassSelection, CompletionReason, ItemSubType, ItemType, MedalTier,
    Mode, Platform, Standing, MODE_PRIVATE_MATCHES_ALL,
};
use crate::error::Error;
use crate::manifest::definitions::clone_text;
use crate::manifestinterface::ManifestInterface;
use crate::response::character::{first_of_class, is_last_active, CharactersData};
use crate::storemodel::{id_in, medal_result_views, StoreState};
use std::collections::HashMap;
use vstd::prelude::*;

verus! {

broadcast use vstd::std_specs::hash::group_hash_axioms;

/// Whose matches a selection is about: those of an account, or those of one
/// of its characters.
pub enum Who {
    Member(Seq<char>),
    Character(Seq<char>),
}

impl StoreState {
    /// Whether the match has an outcome stored.
    pub open spec fn has_outcome(self, activity: i32) -> bool {
        exists|row: int| 0 <= row < self.stats.len() && (#[trigger] self.stats[row]).activity
            == activity
    }

    /// Whether the outcome row at a position is one of the selection: it is
    /// an outcome of the account or the character asked for, of a match
    /// that passes the mode filter.
    pub open spec fn selects(self, row: int, who: Who, mode: u32) -> bool {
        let stats = self.stats[row];
        let character = self.characters[stats.character - 1];
        let member = self.members[character.member - 1];
        &&& self.matches_mode(stats.activity, mode)
        &&& match who {
            Who::Member(member_id) => member.member_id == member_id,
            Who::Character(character_id) => character.character_id == character_id,
        }
    }

    /// Whether the outcome row at a position is the most recent one of the
    /// selection: none of the selection is of a later match, and none
    /// before it is of a match as late.
    pub open spec fn is_latest(self, row: int, who: Who, mode: u32) -> bool {
        &&& 0 <= row < self.stats.len()
        &&& self.selects(row, who, mode)
        &&& forall|other: int|
            0 <= other < self.stats.len() && #[trigger] self.selects(other, who, mode)
                ==> self.activities[self.stats[other].activity - 1].period
                <= self.activities[self.stats[row].activity - 1].period
        &&& forall|other: int|
            0 <= other < row && #[trigger] self.selects(other, who, mode)
                ==> self.activities[self.stats[other].activity - 1].period
                < self.activities[self.stats[row].activity - 1].period
    }
}

/// The team rows of a match among fewer rows begin those among more rows.
pub proof fn lemma_teams_among_grows(store: StoreState, activity: i32, fewer: nat, more: nat)
    requires
        fewer <= more,
    ensures
        store.teams_among(activity, fewer).is_prefix_of(store.teams_among(activity, more)),
    decreases more,
{
    if fewer < more {
        lemma_teams_among_grows(store, activity, fewer, (more - 1) as nat);
    }
}

/// The display name of the team that is found at a position.
pub fn team_display_name(position: usize) -> (name: String)
    ensures
        name@ == team_name(position as int),
{
    if position == 0 {
        "Alpha".to_owned()
    } else if position == 1 {
        "Bravo".to_owned()
    } else if position == 2 {
        "Charlie".to_owned()
    } else if position == 3 {
        "Delta".to_owned()
    } else if position == 4 {
        "Echo".to_owned()
    } else if position == 5 {
        "Foxtrot".to_owned()
    } else {
        String::new()
    }
}

/// The key by which an outcome is matched against a selection.
pub enum Selector {
    Member(String),
    Character(String),
}

impl View for Selector {
    type V = Who;

    open spec fn view(&self) -> Who {
        match self {
            Selector::Member(member_id) => Who::Member(member_id@),
            Selector::Character(character_id) => Who::Character(character_id@),
        }
    }
}

/// The roster entry that a selection by class stands for, by its remote
/// identifier. A selection of all entries stands for the account itself.
pub fn retrieve_character_selection_id(
    member_id: &str,
    character_selection: &CharacterClassSelection,
    characters: &Option<CharactersData>,
) -> (found: Result<String, Error>)
    ensures
        match characters {
            None => found == Err::<String, Error>(Error::NoCharacters),
            Some(roster) => match character_selection {
                CharacterClassSelection::All => found matches Ok(id) && id@ == member_id@,
                CharacterClassSelection::LastActive => match found {
                    Ok(id) => exists|at: int|
                        is_last_active(roster.characters@, at) && id@
                            == roster.characters@[at].id@,
                    Err(e) => e == Error::CharacterDoesNotExist && roster.characters@.len() == 0,
                },
                _ => match found {
                    Ok(id) => {
                        let at = first_of_class(
                            roster.characters@,
                            selected_class(*character_selection),
                        );
                        at is Some && id@ == roster.characters@[at->Some_0].id@
                    },
                    Err(e) => e == Error::CharacterDoesNotExist
                        && first_of_class(
                        roster.characters@,
                        selected_class(*character_selection),
                    ) is None,
                },
            },
        },
{
    let roster = match characters {
        Some(roster) => roster,
        None => {
            return Err(Error::NoCharacters);
        },
    };
    let entry = match character_selection {
        CharacterClassSelection::All => {
            return Ok(member_id.to_owned());
        },
        CharacterClassSelection::Hunter => roster.get_by_class_ref(CharacterClass::Hunter),
        CharacterClassSelection::Titan => roster.get_by_class_ref(CharacterClass::Titan),
        CharacterClassSelection::Warlock => roster.get_by_class_ref(CharacterClass::Warlock),
        CharacterClassSelection::LastActive => roster.get_last_active_ref(),
    };
    match entry {
        Some(e) => Ok(e.id.clone()),
        None => {
            proof {
                let class = selected_class(*character_selection);
                if first_of_class(roster.characters@, class) is Some {
                    let at = first_of_class(
                        roster.characters@,
                        class,
                    )->Some_0;
                    assert(0 <= at < roster.characters@.len()
                        && roster.characters@[at].class_type == class);
                }
            }
            Err(Error::CharacterDoesNotExist)
        },
    }
}

/// The class that a selection by class asks for.
pub open spec fn selected_class(selection: CharacterClassSelection) -> CharacterClass {
    match selection {
        CharacterClassSelection::Titan => CharacterClass::Titan,
        CharacterClassSelection::Hunter => CharacterClass::Hunter,
        CharacterClassSelection::Warlock => CharacterClass::Warlock,
        _ => CharacterClass::Unknown,
    }
}

impl ActivityStoreInterface {
    /// The report of the outcome row at a position, with its weapons and
    /// medals named as far as the cache can name them.
    fn parse_crucible_stats(&self, manifest: &ManifestInterface, row: usize) -> (stats:
        CrucibleStats)
        requires
            self.wf(),
            row < self@.stats.len(),
        ensures
            stats.describes(
                self@.stats[row as int],
                self@.weapons_among((row + 1) as i32, self@.weapons.len()),
                self@.medals_among((row + 1) as i32, self@.medals.len()),
                manifest@,
            ),
    {
        let source = &self.character_activity_stats()[row];
        let id: i32 = (row + 1) as i32;

        let weapon_rows = self.weapon_results();
        let mut weapon_stats: Vec<WeaponStat> = Vec::new();
        let mut w: usize = 0;
        while w < weapon_rows.len()
            invariant
                w <= weapon_rows.len(),
                weapon_rows@ == self@.weapons,
                lists_weapons(weapon_stats@, self@.weapons_among(id, w as nat), manifest@),
            decreases weapon_rows.len() - w,
        {
            let weapon_row = &weapon_rows[w];
            if weapon_row.character_activity_stats == id {
                let reference_id = weapon_row.reference_id;
                let weapon = match manifest.get_iventory_item_definition(reference_id) {
                    Some(e) => Item {
                        id: reference_id,
                        name: e.display_properties.name.clone(),
                        description: match &e.display_properties.description {
                            Some(text) => text.clone(),
                            None => String::new(),
                        },
                        item_type: e.item_type,
                        item_sub_type: e.item_sub_type,
                    },
                    None => Item {
                        id: reference_id,
                        name: "Unknown".to_owned(),
                        description: String::new(),
                        item_type: ItemType::unknown(),
                        item_sub_type: ItemSubType::unknown(),
                    },
                };
                let ghost listed = weapon_stats@;
                let stat = WeaponStat {
                    weapon,
                    kills: weapon_row.kills,
                    precision_kills: weapon_row.precision_kills,
                    precision_kills_percent: weapon_row.kills_precision_kills_ratio,
                    activity_count: 1,
                };
                assert(stat.describes(*weapon_row, manifest@));
                weapon_stats.push(stat);
                assert forall|i: int| 0 <= i < weapon_stats@.len() implies (
                #[trigger] weapon_stats@[i]).describes(
                    self@.weapons_among(id, (w + 1) as nat)[i],
                    manifest@,
                ) by {
                    if i < listed.len() {
                        assert(weapon_stats@[i] == listed[i]);
                    }
                }
            }
            w = w + 1;
        }

        let medal_rows = self.medal_results();
        let mut medal_stats: Vec<MedalStat> = Vec::new();
        let mut m: usize = 0;
        while m < medal_rows.len()
            invariant
                m <= medal_rows.len(),
                medal_result_views(medal_rows@) == self@.medals,
                lists_medals(medal_stats@, self@.medals_among(id, m as nat), manifest@),
            decreases medal_rows.len() - m,
        {
            let medal_row = &medal_rows[m];
            assert(self@.medals[m as int] == medal_row@);
            if medal_row.character_activity_stats == id {
                let medal = match manifest.get_historical_stats_definition(
                    medal_row.reference_id.as_str(),
                ) {
                    Some(e) => Medal {
                        id: e.id.clone(),
                        icon_image_path: clone_text(&e.icon_image_path),
                        tier: match e.medal_tier {
                            Some(tier) => tier,
                            None => MedalTier::unknown(),
                        },
                        name: e.name.clone(),
                        description: e.description.clone(),
                    },
                    None => Medal {
                        id: medal_row.reference_id.clone(),
                        icon_image_path: None,
                        tier: MedalTier::unknown(),
                        name: "Unknown".to_owned(),
                        description: String::new(),
                    },
                };
                let ghost listed = medal_stats@;
                let stat = MedalStat { medal, count: medal_row.count };
                assert(stat.describes(medal_row@, manifest@));
                medal_stats.push(stat);
                assert forall|i: int| 0 <= i < medal_stats@.len() implies (
                #[trigger] medal_stats@[i]).describes(
                    self@.medals_among(id, (m + 1) as nat)[i],
                    manifest@,
                ) by {
                    if i < listed.len() {
                        assert(medal_stats@[i] == listed[i]);
                    }
                }
            }
            m = m + 1;
        }

        let extended = ExtendedCrucibleStats {
            precision_kills: source.precision_kills,
            weapon_kills_ability: source.weapon_kills_ability,
            weapon_kills_grenade: source.weapon_kills_grenade,
            weapon_kills_melee: source.weapon_kills_melee,
            weapon_kills_super: source.weapon_kills_super,
            all_medals_earned: source.all_medals_earned,
            weapons: weapon_stats,
            medals: medal_stats,
        };
        CrucibleStats {
            assists: source.values.assists,
            score: source.values.score,
            kills: source.values.kills,
            deaths: source.values.deaths,
            average_score_per_kill: source.values.average_score_per_kill,
            average_score_per_life: source.values.average_score_per_life,
            completed: source.values.completed == 1,
            opponents_defeated: source.values.opponents_defeated,
            activity_duration_seconds: source.values.activity_duration_seconds,
            standing: Standing::from_value(source.values.standing),
            team: source.values.team,
            completion_reason: CompletionReason::from_id(source.values.completion_reason),
            start_seconds: source.values.start_seconds,
            time_played_seconds: source.values.time_played_seconds,
            player_count: source.values.player_count,
            team_score: source.values.team_score,
            extended: Some(extended),
        }
    }

    /// Who played the outcome row at a position.
    fn parse_player(&self, row: usize) -> (player: Player)
        requires
            self.wf(),
            row < self@.stats.len(),
        ensures
            player.describes(
                self@.members[self@.characters[self@.stats[row as int].character - 1].member - 1],
                self@.characters[self@.stats[row as int].character - 1],
                self@.stats[row as int].light_level,
            ),
    {
        let stats = &self.character_activity_stats()[row];
        assert(id_in(self@.stats[row as int].character, self@.characters.len()));
        let characters = self.characters();
        let character = &characters[(stats.character - 1) as usize];
        assert(self@.characters[stats.character - 1] == character@);
        assert(id_in(self@.characters[stats.character - 1].member, self@.members.len()));
        let members = self.members();
        let member = &members[(character.member - 1) as usize];
        assert(self@.members[character.member - 1] == member@);
        Player {
            member_id: member.member_id.clone(),
            character_id: character.character_id.clone(),
            platform: Platform::from_id(member.platform_id),
            display_name: member.display_name.clone(),
            light_level: stats.light_level,
            class_type: CharacterClass::from_id(character.class),
        }
    }

    /// The descriptive fields of the match with a row identifier, its map
    /// named as far as the cache can name it.
    fn parse_activity(&self, manifest: &ManifestInterface, activity_row_id: i32) -> (detail:
        ActivityDetail)
        requires
            self.wf(),
            id_in(activity_row_id, self@.activities.len()),
        ensures
            detail.describes(self@.activities[activity_row_id - 1], activity_row_id, manifest@),
    {
        let row = &self.activities()[(activity_row_id - 1) as usize];
        let map_name = match manifest.get_activity_definition(row.reference_id) {
            Some(e) => e.display_properties.name.clone(),
            None => "Unknown".to_owned(),
        };
        ActivityDetail {
            index_id: activity_row_id as u32,
            id: row.activity_id,
            period: row.period,
            map_name,
            mode: Mode::from_id(row.mode),
            platform: Platform::from_id(row.platform),
            director_activity_hash: row.director_activity_hash,
            reference_id: row.reference_id,
        }
    }

    /// The report of the outcome row at a position, with its match.
    pub fn parse_individual_performance_row(&self, manifest: &ManifestInterface, row: usize) -> (
    report: Option<CruciblePlayerActivityPerformance>)
        requires
            self.wf(),
        ensures
            match report {
                Some(r) => {
                    &&& row < self@.stats.len()
                    &&& r.performance.describes(self@, row as int, manifest@)
                    &&& r.activity_detail.describes(
                        self@.activities[self@.stats[row as int].activity - 1],
                        self@.stats[row as int].activity,
                        manifest@,
                    )
                },
                None => row >= self@.stats.len(),
            },
    {
        if row >= self.character_activity_stats().len() {
            return None;
        }
        let activity = self.character_activity_stats()[row].activity;
        assert(id_in(self@.stats[row as int].activity, self@.activities.len()));
        let activity_detail = self.parse_activity(manifest, activity);
        let stats = self.parse_crucible_stats(manifest, row);
        let player = self.parse_player(row);
        Some(
            CruciblePlayerActivityPerformance {
                performance: CruciblePlayerPerformance { player, stats },
                activity_detail,
            },
        )
    }

    /// The teams of a match, each under its identifier and with no
    /// outcomes yet.
    fn collect_teams(&self, activity_row_id: i32) -> (teams: HashMap<i32, Team>)
        requires
            self.wf(),
        ensures
            ({
                let rows = self@.teams_of(activity_row_id);
                let slots = team_slots(rows, rows.len());
                &&& if rows.len() == 0 {
                    &&& teams@.dom() =~= set![NO_TEAMS_INDEX]
                    &&& teams@[NO_TEAMS_INDEX].stands_in()
                } else {
                    &&& teams@.dom() =~= slots.dom()
                    &&& forall|team: i32| #[trigger]
                        teams@.contains_key(team) ==> teams@[team].heads(
                            rows[slots[team]],
                            slots[team],
                        )
                }
                &&& forall|team: i32| #[trigger]
                    teams@.contains_key(team) ==> teams@[team].player_performances@.len() == 0
            }),
    {
        let team_rows = self.team_results();
        let ghost rows = self@.teams_of(activity_row_id);
        let mut teams: HashMap<i32, Team> = HashMap::new();
        let mut position: usize = 0;
        let mut t: usize = 0;
        while t < team_rows.len()
            invariant
                t <= team_rows.len(),
                team_rows@ == self@.team_results,
                rows == self@.teams_of(activity_row_id),
                position <= t,
                position == self@.teams_among(activity_row_id, t as nat).len(),
                teams@.dom() =~= team_slots(rows, position as nat).dom(),
                forall|team: i32| #[trigger]
                    teams@.contains_key(team) ==> teams@[team].heads(
                        rows[team_slots(rows, position as nat)[team]],
                        team_slots(rows, position as nat)[team],
                    ) && teams@[team].player_performances@.len() == 0,
            decreases team_rows.len() - t,
        {
            let row = &team_rows[t];
            if row.activity == activity_row_id {
                proof {
                    lemma_teams_among_grows(
                        self@,
                        activity_row_id,
                        (t + 1) as nat,
                        self@.team_results.len(),
                    );
                    let upto = self@.teams_among(activity_row_id, (t + 1) as nat);
                    assert(upto == self@.teams_among(activity_row_id, t as nat).push(*row));
                    assert(upto.is_prefix_of(rows));
                    assert(rows.subrange(0, upto.len() as int)[position as int]
                        == upto[position as int]);
                    assert(rows[position as int] == *row);
                }
                let ghost before = teams@;
                let team = Team {
                    standing: Standing::from_value(row.standing),
                    id: row.team_id,
                    score: row.score,
                    player_performances: Vec::new(),
                    display_name: team_display_name(position),
                };
                teams.insert(row.team_id, team);
                assert forall|key: i32| #[trigger] teams@.contains_key(key) implies teams@[key].heads(
                    rows[team_slots(rows, (position + 1) as nat)[key]],
                    team_slots(rows, (position + 1) as nat)[key],
                ) && teams@[key].player_performances@.len() == 0 by {
                    if key != row.team_id {
                        assert(before.contains_key(key));
                        assert(teams@[key] == before[key]);
                    }
                }
                position = position + 1;
            }
            t = t + 1;
        }
        if position == 0 {
            let team = Team {
                standing: Standing::Unknown,
                id: NO_TEAMS_INDEX,
                score: 0,
                player_performances: Vec::new(),
                display_name: team_display_name(0),
            };
            teams.insert(NO_TEAMS_INDEX, team);
        }
        teams
    }

    /// The report of the match with a row identifier.
    fn populate_activity_data(&self, activity_row_id: i32, manifest: &ManifestInterface) -> (report:
        CrucibleActivity)
        requires
            self.wf(),
            id_in(activity_row_id, self@.activities.len()),
        ensures
            report.describes(self@, activity_row_id, manifest@),
    {
        let mut teams = self.collect_teams(activity_row_id);
        let ghost heads = teams@;
        let no_teams = self.has_no_teams(activity_row_id);
        let stats = self.character_activity_stats();
        let mut row: usize = 0;
        while row < stats.len()
            invariant
                self.wf(),
                row <= stats.len(),
                stats@ == self@.stats,
                no_teams == (self@.teams_of(activity_row_id).len() == 0),
                no_teams ==> heads.dom() =~= set![NO_TEAMS_INDEX],
                teams@.dom() =~= heads.dom(),
                forall|team: i32| #[trigger]
                    teams@.contains_key(team) ==> {
                        &&& teams@[team].id == heads[team].id
                        &&& teams@[team].score == heads[team].score
                        &&& teams@[team].standing == heads[team].standing
                        &&& teams@[team].display_name == heads[team].display_name
                        &&& lists_performances(
                            teams@[team].player_performances@,
                            self@,
                            self@.roster_among(activity_row_id, team, row as nat),
                            manifest@,
                        )
                    },
            decreases stats.len() - row,
        {
            let source = &stats[row];
            if source.activity == activity_row_id {
                let index = if no_teams {
                    NO_TEAMS_INDEX
                } else {
                    source.values.team
                };
                let ghost before = teams@;
                match teams.remove(&index) {
                    Some(mut team) => {
                        let performance = CruciblePlayerPerformance {
                            stats: self.parse_crucible_stats(manifest, row),
                            player: self.parse_player(row),
                        };
                        assert(performance.describes(self@, row as int, manifest@));
                        let ghost listed = team.player_performances@;
                        team.player_performances.push(performance);
                        assert forall|i: int|
                            0 <= i < team.player_performances@.len() implies (
                        #[trigger] team.player_performances@[i]).describes(
                            self@,
                            self@.roster_among(activity_row_id, index, (row + 1) as nat)[i],
                            manifest@,
                        ) by {
                            if i < listed.len() {
                                assert(team.player_performances@[i] == listed[i]);
                            }
                        }
                        teams.insert(index, team);
                        assert(teams@.dom() =~= before.dom());
                        assert forall|key: i32| #[trigger] teams@.contains_key(key) implies {
                            &&& teams@[key].id == heads[key].id
                            &&& teams@[key].score == heads[key].score
                            &&& teams@[key].standing == heads[key].standing
                            &&& teams@[key].display_name == heads[key].display_name
                            &&& lists_performances(
                                teams@[key].player_performances@,
                                self@,
                                self@.roster_among(activity_row_id, key, (row + 1) as nat),
                                manifest@,
                            )
                        } by {
                            assert(before.contains_key(key));
                            if key != index {
                                assert(teams@[key] == before[key]);
                            }
                        }
                    },
                    None => {
                        assert(teams@ =~= before);
                    },
                }
            }
            row = row + 1;
        }
        let details = self.parse_activity(manifest, activity_row_id);
        let report = CrucibleActivity { details, teams };
        proof {
            let rows = self@.teams_of(activity_row_id);
            let slots = team_slots(rows, rows.len());
            if rows.len() == 0 {
                assert(report.teams@.contains_key(NO_TEAMS_INDEX));
                assert(report.teams@[NO_TEAMS_INDEX].stands_in());
            } else {
                assert forall|team: i32| #[trigger]
                    report.teams@.contains_key(team) implies report.teams@[team].heads(
                    rows[slots[team]],
                    slots[team],
                ) by {
                    assert(heads.contains_key(team));
                }
            }
            assert forall|team: i32| #[trigger]
                report.teams@.contains_key(team) implies lists_performances(
                report.teams@[team].player_performances@,
                self@,
                self@.roster_of(activity_row_id, team),
                manifest@,
            ) by {}
        }
        report
    }

    /// Whether a match has no team rows.
    fn has_no_teams(&self, activity_row_id: i32) -> (none: bool)
        ensures
            none == (self@.teams_of(activity_row_id).len() == 0),
    {
        let team_rows = self.team_results();
        let mut t: usize = 0;
        while t < team_rows.len()
            invariant
                t <= team_rows.len(),
                team_rows@ == self@.team_results,
                self@.teams_among(activity_row_id, t as nat).len() == 0,
            decreases team_rows.len() - t,
        {
            if team_rows[t].activity == activity_row_id {
                proof {
                    lemma_teams_among_grows(
                        self@,
                        activity_row_id,
                        (t + 1) as nat,
                        self@.team_results.len(),
                    );
                }
                return false;
            }
            t = t + 1;
        }
        true
    }

    /// Whether a match has an outcome stored.
    fn has_outcome(&self, activity_row_id: i32) -> (found: bool)
        ensures
            found == self@.has_outcome(activity_row_id),
    {
        let stats = self.character_activity_stats();
        let mut row: usize = 0;
        while row < stats.len()
            invariant
                row <= stats.len(),
                stats@ == self@.stats,
                forall|r: int| 0 <= r < row ==> (#[trigger] self@.stats[r]).activity != activity_row_id,
            decreases stats.len() - row,
        {
            if stats[row].activity == activity_row_id {
                return true;
            }
            row = row + 1;
        }
        false
    }

    /// The report of the match with a row identifier. A match that is not
    /// stored, or is stored without any outcome, is not found.
    pub fn retrieve_activity_by_index(&self, activity_index: u32, manifest: &ManifestInterface) -> (
    found: Result<CrucibleActivity, Error>)
        requires
            self.wf(),
        ensures
            match found {
                Ok(report) => {
                    &&& id_in(activity_index as i32, self@.activities.len())
                    &&& activity_index <= i32::MAX
                    &&& self@.has_outcome(activity_index as i32)
                    &&& report.describes(self@, activity_index as i32, manifest@)
                },
                Err(e) => e == Error::ActivityNotFound && !(activity_index <= i32::MAX && id_in(
                    activity_index as i32,
                    self@.activities.len(),
                ) && self@.has_outcome(activity_index as i32)),
            },
    {
        if activity_index < 1 || activity_index as usize > self.activities().len() {
            return Err(Error::ActivityNotFound);
        }
        let activity_row_id: i32 = activity_index as i32;
        if !self.has_outcome(activity_row_id) {
            return Err(Error::ActivityNotFound);
        }
        Ok(self.populate_activity_data(activity_row_id, manifest))
    }

    /// Whether the outcome row at a position is one of a selection, given
    /// the marks of the matches that carry the mode's tag and of those that
    /// are private.
    pub(crate) fn selects(
        &self,
        row: usize,
        selector: &Selector,
        tagged: &Vec<bool>,
        private: &Vec<bool>,
        mode: &Mode,
    ) -> (selected: bool)
        requires
            self.wf(),
            row < self@.stats.len(),
            tagged@.len() == self@.activities.len(),
            private@.len() == self@.activities.len(),
            forall|k: int|
                0 <= k < tagged@.len() ==> #[trigger] tagged@[k] == self@.has_mode_tag(
                    (k + 1) as i32,
                    mode.id,
                ),
            forall|k: int|
                0 <= k < private@.len() ==> #[trigger] private@[k] == self@.has_mode_tag(
                    (k + 1) as i32,
                    MODE_PRIVATE_MATCHES_ALL,
                ),
        ensures
            selected == self@.selects(row as int, selector@, mode.id),
    {
        let stats = &self.character_activity_stats()[row];
        assert(id_in(self@.stats[row as int].activity, self@.activities.len()));
        assert(id_in(self@.stats[row as int].character, self@.characters.len()));
        let at: usize = (stats.activity - 1) as usize;
        assert(tagged@[at as int] == self@.has_mode_tag(stats.activity, mode.id));
        assert(private@[at as int] == self@.has_mode_tag(stats.activity, MODE_PRIVATE_MATCHES_ALL));
        if !(tagged[at] && (mode.is_private() || !private[at])) {
            return false;
        }
        let characters = self.characters();
        let character = &characters[(stats.character - 1) as usize];
        assert(self@.characters[stats.character - 1] == character@);
        match selector {
            Selector::Character(character_id) => character.character_id == *character_id,
            Selector::Member(member_id) => {
                assert(id_in(self@.characters[stats.character - 1].member, self@.members.len()));
                let members = self.members();
                let member = &members[(character.member - 1) as usize];
                assert(self@.members[character.member - 1] == member@);
                member.member_id == *member_id
            },
        }
    }

    /// The position of the most recent outcome of a selection.
    fn find_latest(&self, selector: &Selector, mode: &Mode) -> (found: Option<usize>)
        requires
            self.wf(),
        ensures
            match found {
                Some(row) => self@.is_latest(row as int, selector@, mode.id),
                None => forall|row: int|
                    0 <= row < self@.stats.len() ==> !#[trigger] self@.selects(
                        row,
                        selector@,
                        mode.id,
                    ),
            },
    {
        let tagged = self.mode_flags(mode.to_id());
        let private = self.mode_flags(MODE_PRIVATE_MATCHES_ALL);
        let stats = self.character_activity_stats();
        let activities = self.activities();
        let mut best: Option<usize> = None;
        let mut row: usize = 0;
        while row < stats.len()
            invariant
                self.wf(),
                row <= stats.len(),
                stats@ == self@.stats,
                activities@ == self@.activities,
                tagged@.len() == self@.activities.len(),
                private@.len() == self@.activities.len(),
                forall|k: int|
                    0 <= k < tagged@.len() ==> #[trigger] tagged@[k] == self@.has_mode_tag(
                        (k + 1) as i32,
                        mode.id,
                    ),
                forall|k: int|
                    0 <= k < private@.len() ==> #[trigger] private@[k] == self@.has_mode_tag(
                        (k + 1) as i32,
                        MODE_PRIVATE_MATCHES_ALL,
                    ),
                match best {
                    Some(b) => {
                        &&& b < row
                        &&& self@.selects(b as int, selector@, mode.id)
                        &&& forall|other: int|
                            0 <= other < row && #[trigger] self@.selects(other, selector@, mode.id)
                                ==> self@.activities[self@.stats[other].activity - 1].period
                                <= self@.activities[self@.stats[b as int].activity - 1].period
                        &&& forall|other: int|
                            0 <= other < b && #[trigger] self@.selects(other, selector@, mode.id)
                                ==> self@.activities[self@.stats[other].activity - 1].period
                                < self@.activities[self@.stats[b as int].activity - 1].period
                    },
                    None => forall|other: int|
                        0 <= other < row ==> !#[trigger] self@.selects(other, selector@, mode.id),
                },
            decreases stats.len() - row,
        {
            if self.selects(row, selector, &tagged, &private, mode) {
                assert(id_in(self@.stats[row as int].activity, self@.activities.len()));
                let period = activities[(stats[row].activity - 1) as usize].period;
                match best {
                    Some(b) => {
                        assert(id_in(self@.stats[b as int].activity, self@.activities.len()));
                        if period > activities[(stats[b].activity - 1) as usize].period {
                            best = Some(row);
                        }
                    },
                    None => {
                        best = Some(row);
                    },
                }
            }
            row = row + 1;
        }
        best
    }

    /// The report of the most recent match of an account, or of one of its
    /// characters, that passes the mode filter.
    ///
    /// Asked for all characters, the selection is by account. Asked for a
    /// class or for the character played last, the roster decides which
    /// character is meant, and the selection is by that character. The
    /// mode filter asks for the mode's tag and, for a public mode, passes
    /// over private matches. Of matches played at the same time the one
    /// stored first is taken.
    pub fn retrieve_last_activity(
        &self,
        member_id: &str,
        character_selection: &CharacterClassSelection,
        mode: &Mode,
        manifest: &ManifestInterface,
        characters: &Option<CharactersData>,
    ) -> (found: Result<CrucibleActivity, Error>)
        requires
            self.wf(),
        ensures
            match character_selection {
                CharacterClassSelection::All => self.found_latest(
                    Who::Member(member_id@),
                    mode.id,
                    manifest,
                    found,
                ),
                _ => match retrieve_character_selection_id_spec(
                    *character_selection,
                    *characters,
                ) {
                    Err(e) => found matches Err(f) && f == e,
                    Ok(at) => self.found_latest(
                        Who::Character(characters->Some_0.characters@[at].id@),
                        mode.id,
                        manifest,
                        found,
                    ),
                },
            },
    {
        let selector = match character_selection {
            CharacterClassSelection::All => Selector::Member(member_id.to_owned()),
            _ => {
                match retrieve_character_selection_id(member_id, character_selection, characters) {
                    Ok(character_id) => {
                        proof {
                            lemma_selection_is_unique(*character_selection, *characters);
                            let at = retrieve_character_selection_id_spec(
                                *character_selection,
                                *characters,
                            )->Ok_0;
                            assert(character_id@ == characters->Some_0.characters@[at].id@);
                        }
                        Selector::Character(character_id)
                    },
                    Err(e) => {
                        return Err(e);
                    },
                }
            },
        };
        self.retrieve_latest(&selector, mode, manifest)
    }

    /// The row identifier of the match that `retrieve_last_activity`
    /// reports for the same account, selection and mode. It fails where
    /// that fails.
    pub fn find_last_activity(
        &self,
        member_id: &str,
        character_selection: &CharacterClassSelection,
        mode: &Mode,
        characters: &Option<CharactersData>,
    ) -> (found: Result<u32, Error>)
        requires
            self.wf(),
        ensures
            match character_selection {
                CharacterClassSelection::All => self.found_latest_row(
                    Who::Member(member_id@),
                    mode.id,
                    found,
                ),
                _ => match retrieve_character_selection_id_spec(
                    *character_selection,
                    *characters,
                ) {
                    Err(e) => found matches Err(f) && f == e,
                    Ok(at) => self.found_latest_row(
                        Who::Character(characters->Some_0.characters@[at].id@),
                        mode.id,
                        found,
                    ),
                },
            },
    {
        let selector = match character_selection {
            CharacterClassSelection::All => Selector::Member(member_id.to_owned()),
            _ => {
                match retrieve_character_selection_id(member_id, character_selection, characters) {
                    Ok(character_id) => {
                        proof {
                            lemma_selection_is_unique(*character_selection, *characters);
                            let at = retrieve_character_selection_id_spec(
                                *character_selection,
                                *characters,
                            )->Ok_0;
                            assert(character_id@ == characters->Some_0.characters@[at].id@);
                        }
                        Selector::Character(character_id)
                    },
                    Err(e) => {
                        return Err(e);
                    },
                }
            },
        };
        self.find_latest_row(&selector, mode)
    }

    /// The row identifier of the most recent match of a selection.
    fn find_latest_row(&self, selector: &Selector, mode: &Mode) -> (found: Result<u32, Error>)
        requires
            self.wf(),
        ensures
            self.found_latest_row(selector@, mode.id, found),
    {
        match self.find_latest(selector, mode) {
            Some(row) => {
                let activity = self.character_activity_stats()[row].activity;
                assert(id_in(self@.stats[row as int].activity, self@.activities.len()));
                assert(self@.is_latest(row as int, selector@, mode.id) && self@.stats[row as int].activity
                    == activity as u32);
                Ok(activity as u32)
            },
            None => Err(Error::ActivityNotFound),
        }
    }

    /// What it means to have looked for the most recent match of a
    /// selection by its row identifier: the identifier is that of the match
    /// of the most recent outcome of the selection, and nothing is found
    /// exactly where the selection is empty.
    pub open spec fn found_latest_row(&self, who: Who, mode: u32, found: Result<u32, Error>) -> bool {
        match found {
            Ok(activity) => exists|row: int|
                self@.is_latest(row, who, mode) && self@.stats[row].activity == activity,
            Err(e) => e == Error::ActivityNotFound && forall|row: int|
                0 <= row < self@.stats.len() ==> !#[trigger] self@.selects(row, who, mode),
        }
    }

    /// The report of the most recent match of a selection.
    fn retrieve_latest(&self, selector: &Selector, mode: &Mode, manifest: &ManifestInterface) -> (found:
        Result<CrucibleActivity, Error>)
        requires
            self.wf(),
        ensures
            self.found_latest(selector@, mode.id, manifest, found),
    {
        match self.find_latest(selector, mode) {
            Some(row) => {
                let activity = self.character_activity_stats()[row].activity;
                assert(id_in(self@.stats[row as int].activity, self@.activities.len()));
                let report = self.populate_activity_data(activity, manifest);
                assert(self@.is_latest(row as int, selector@, mode.id) && report.describes(
                    self@,
                    self@.stats[row as int].activity,
                    manifest@,
                ));
                Ok(report)
            },
            None => Err(Error::ActivityNotFound),
        }
    }

    /// What it means to have looked for the most recent match of a
    /// selection: a report is of the match of the most recent outcome of
    /// the selection, and nothing is found exactly where the selection is
    /// empty.
    pub open spec fn found_latest(
        &self,
        who: Who,
        mode: u32,
        manifest: &ManifestInterface,
        found: Result<CrucibleActivity, Error>,
    ) -> bool {
        match found {
            Ok(report) => exists|row: int|
                self@.is_latest(row, who, mode) && report.describes(
                    self@,
                    self@.stats[row].activity,
                    manifest@,
                ),
            Err(e) => e == Error::ActivityNotFound && forall|row: int|
                0 <= row < self@.stats.len() ==> !#[trigger] self@.selects(row, who, mode),
        }
    }
}

/// The position in the roster of the entry that a selection by class or by
/// last play stands for, or why there is none.
pub open spec fn retrieve_character_selection_id_spec(
    selection: CharacterClassSelection,
    characters: Option<CharactersData>,
) -> Result<int, Error> {
    match characters {
        None => Err(Error::NoCharacters),
        Some(roster) => match selection {
            CharacterClassSelection::LastActive => if roster.characters@.len() == 0 {
                Err(Error::CharacterDoesNotExist)
            } else {
                Ok(
                    choose|at: int|
                        is_last_active(roster.characters@, at),
                )
            },
            _ => match first_of_class(
                roster.characters@,
                selected_class(selection),
            ) {
                Some(at) => Ok(at),
                None => Err(Error::CharacterDoesNotExist),
            },
        },
    }
}

/// Only one roster entry was played last.
pub proof fn lemma_selection_is_unique(
    selection: CharacterClassSelection,
    characters: Option<CharactersData>,
)
    ensures
        characters matches Some(roster) ==> forall|a: int, b: int|
            is_last_active(roster.characters@, a)
                && is_last_active(roster.characters@, b) ==> a == b,
{
    match characters {
        Some(roster) => {
            assert forall|a: int, b: int|
                is_last_active(roster.characters@, a)
                    && is_last_active(
                    roster.characters@,
                    b,
                ) implies a == b by {
                if a < b {
                    assert(roster.characters@[a].date_last_played
                        < roster.characters@[b].date_last_played);
                    assert(roster.characters@[b].date_last_played
                        <= roster.characters@[a].date_last_played);
                } else if b < a {
                    assert(roster.characters@[b].date_last_played
                        < roster.characters@[a].date_last_played);
                    assert(roster.characters@[a].date_last_played
                        <= roster.characters@[b].date_last_played);
                }
            }
        },
        None => {},
    }
}

} // verus!
