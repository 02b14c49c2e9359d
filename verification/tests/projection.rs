use dcli::activitystoreinterface::ActivityStoreInterface;
use dcli::crucible::{CrucibleActivity, NO_TEAMS_INDEX};
use dcli::enums::{
    CharacterClass, CharacterClassSelection, CompletionReason, ItemSubType, ItemType, MedalTier,
    Mode, Platform, Standing,
};
use dcli::error::Error;
use dcli::manifest::definitions::{
    ActivityDefinitionData, DisplayPropertiesData, HistoricalStatsDefinition,
    InventoryItemDefinitionData,
};
use dcli::manifestinterface::ManifestInterface;
use dcli::response::activities::DestinyHistoricalStatsActivity;
use dcli::response::character::{CharacterData, CharactersData};
use dcli::response::pgcr::{
    DestinyHistoricalWeaponStats, DestinyPlayer, DestinyPostGameCarnageReportData,
    DestinyPostGameCarnageReportEntry, DestinyPostGameCarnageReportExtendedData,
    DestinyPostGameCarnageReportTeamEntry, MedalValue, PerformanceValues, UserInfoCard,
};
use dcli::retrieval::{retrieve_character_selection_id, team_display_name};

fn entry(member: &str, character: &str, class: CharacterClass, team: i32, kills: u32) -> DestinyPostGameCarnageReportEntry {
    DestinyPostGameCarnageReportEntry {
        player: DestinyPlayer {
            user_info: UserInfoCard {
                membership_id: member.to_string(),
                membership_type: Platform::from_id(2),
                display_name: format!("player {}", member),
            },
            class_type: class,
            light_level: 1260,
        },
        character_id: character.to_string(),
        values: PerformanceValues {
            assists: 2,
            score: 30,
            kills,
            deaths: 5,
            average_score_per_kill: 11,
            average_score_per_life: 12,
            completed: 1,
            opponents_defeated: kills + 2,
            activity_duration_seconds: 700,
            standing: 1,
            team,
            completion_reason: 4,
            start_seconds: 3,
            time_played_seconds: 690,
            player_count: 8,
            team_score: 55,
        },
        extended: DestinyPostGameCarnageReportExtendedData {
            weapons: Some(vec![
                DestinyHistoricalWeaponStats {
                    reference_id: 3_000_000_000,
                    unique_weapon_kills: 4,
                    unique_weapon_precision_kills: 1,
                    unique_weapon_kills_precision_kills: 0x3e80_0000,
                },
                DestinyHistoricalWeaponStats {
                    reference_id: 42,
                    unique_weapon_kills: 2,
                    unique_weapon_precision_kills: 0,
                    unique_weapon_kills_precision_kills: 0,
                },
            ]),
            values: vec![
                MedalValue { key: "weaponKillsGrenade".to_string(), value: 3 },
                MedalValue { key: "medalMulti2x".to_string(), value: 2 },
            ],
        },
    }
}

fn report(
    instance_id: i64,
    period: i64,
    modes: Vec<u32>,
    teams: Vec<i32>,
    entries: Vec<DestinyPostGameCarnageReportEntry>,
) -> DestinyPostGameCarnageReportData {
    DestinyPostGameCarnageReportData {
        period,
        activity_details: DestinyHistoricalStatsActivity {
            reference_id: 0x8000_0007,
            director_activity_hash: 99,
            instance_id,
            mode: Mode::from_id(modes[0]),
            modes: modes.into_iter().map(Mode::from_id).collect(),
            is_private: false,
            membership_type: Platform::from_id(2),
        },
        entries,
        teams: teams
            .into_iter()
            .enumerate()
            .map(|(i, team)| DestinyPostGameCarnageReportTeamEntry { team, standing: i as u32, score: 10 * (i as u32 + 1) })
            .collect(),
    }
}

fn store() -> ActivityStoreInterface {
    ActivityStoreInterface::new("store".to_string(), false)
}

fn display(name: &str, description: Option<&str>) -> DisplayPropertiesData {
    DisplayPropertiesData {
        description: description.map(|d| d.to_string()),
        name: name.to_string(),
        icon_path: None,
        has_icon: false,
    }
}

fn names(report: &CrucibleActivity) -> Vec<(i32, String)> {
    let mut out: Vec<(i32, String)> = report.teams.iter().map(|(id, t)| (*id, t.display_name.clone())).collect();
    out.sort();
    out
}

#[test]
fn three_teams_are_named_in_the_order_they_were_stored() {
    let mut s = store();
    let data = report(1, 100, vec![5], vec![1, 2, 3], vec![entry("m1", "c1", CharacterClass::Titan, 1, 5)]);
    assert_eq!(s.insert_activity(&data), Ok(()));
    let found = s.retrieve_activity_by_index(1, &ManifestInterface::new()).unwrap();
    assert_eq!(
        names(&found),
        vec![(1, "Alpha".to_string()), (2, "Bravo".to_string()), (3, "Charlie".to_string())]
    );
    assert_eq!(found.teams[&1].score, 10);
    assert_eq!(found.teams[&1].standing, Standing::Victory);
    assert_eq!(found.teams[&2].score, 20);
    assert_eq!(found.teams[&2].standing, Standing::Defeat);
    assert_eq!(found.teams[&3].standing, Standing::Unknown);
    assert_eq!(found.teams[&1].id, 1);
}

#[test]
fn the_pool_has_six_names_and_then_none() {
    let expected = ["Alpha", "Bravo", "Charlie", "Delta", "Echo", "Foxtrot", "", ""];
    for (position, name) in expected.iter().enumerate() {
        assert_eq!(team_display_name(position), *name);
    }
    let mut s = store();
    let data = report(1, 100, vec![5], vec![10, 20, 30, 40, 50, 60, 70], vec![entry("m1", "c1", CharacterClass::Titan, 70, 5)]);
    assert_eq!(s.insert_activity(&data), Ok(()));
    let found = s.retrieve_activity_by_index(1, &ManifestInterface::new()).unwrap();
    assert_eq!(found.teams.len(), 7);
    assert_eq!(found.teams[&40].display_name, "Delta");
    assert_eq!(found.teams[&60].display_name, "Foxtrot");
    assert_eq!(found.teams[&70].display_name, "");
    assert_eq!(found.teams[&70].player_performances.len(), 1);
}

#[test]
fn of_two_rows_with_one_team_identifier_the_later_stands() {
    let mut s = store();
    let data = report(1, 100, vec![5], vec![8, 9, 8], vec![entry("m1", "c1", CharacterClass::Titan, 8, 5)]);
    assert_eq!(s.insert_activity(&data), Ok(()));
    let found = s.retrieve_activity_by_index(1, &ManifestInterface::new()).unwrap();
    assert_eq!(names(&found), vec![(8, "Charlie".to_string()), (9, "Bravo".to_string())]);
    assert_eq!(found.teams[&8].score, 30);
    assert_eq!(found.teams[&8].player_performances.len(), 1);
}

#[test]
fn teams_of_other_matches_do_not_count() {
    let mut s = store();
    assert_eq!(s.insert_activity(&report(1, 100, vec![5], vec![1, 2], vec![entry("m1", "c1", CharacterClass::Titan, 1, 5)])), Ok(()));
    assert_eq!(s.insert_activity(&report(2, 200, vec![5], vec![7, 1], vec![entry("m1", "c1", CharacterClass::Titan, 7, 6)])), Ok(()));
    let found = s.retrieve_activity_by_index(2, &ManifestInterface::new()).unwrap();
    assert_eq!(names(&found), vec![(1, "Bravo".to_string()), (7, "Alpha".to_string())]);
    assert_eq!(found.teams[&7].player_performances.len(), 1);
    assert_eq!(found.teams[&7].player_performances[0].stats.kills, 6);
    assert_eq!(found.teams[&1].player_performances.len(), 0);
    assert_eq!(found.details.id, 2);
    assert_eq!(found.details.index_id, 2);
}

#[test]
fn match_without_teams_has_one_team_with_every_performance() {
    let mut s = store();
    let data = report(
        1,
        100,
        vec![48],
        vec![],
        vec![entry("m1", "c1", CharacterClass::Titan, 16, 5), entry("m2", "c2", CharacterClass::Hunter, 17, 9)],
    );
    assert_eq!(s.insert_activity(&data), Ok(()));
    let found = s.retrieve_activity_by_index(1, &ManifestInterface::new()).unwrap();
    assert_eq!(found.teams.len(), 1);
    assert_eq!(NO_TEAMS_INDEX, 253);
    let team = &found.teams[&253];
    assert_eq!(team.id, 253);
    assert_eq!(team.score, 0);
    assert_eq!(team.standing, Standing::Unknown);
    assert_eq!(team.display_name, "Alpha");
    assert_eq!(team.player_performances.len(), 2);
    assert_eq!(team.player_performances[0].player.member_id, "m1");
    assert_eq!(team.player_performances[0].stats.team, 16);
    assert_eq!(team.player_performances[1].player.member_id, "m2");
    assert_eq!(team.player_performances[1].stats.kills, 9);
}

#[test]
fn performance_of_an_unlisted_team_is_in_no_team() {
    let mut s = store();
    let data = report(
        1,
        100,
        vec![5],
        vec![1, 2],
        vec![
            entry("m1", "c1", CharacterClass::Titan, 1, 5),
            entry("m2", "c2", CharacterClass::Hunter, 3, 9),
            entry("m3", "c3", CharacterClass::Warlock, 2, 7),
            entry("m4", "c4", CharacterClass::Warlock, 1, 8),
        ],
    );
    assert_eq!(s.insert_activity(&data), Ok(()));
    let found = s.retrieve_activity_by_index(1, &ManifestInterface::new()).unwrap();
    assert_eq!(found.teams.len(), 2);
    let first: Vec<&str> = found.teams[&1].player_performances.iter().map(|p| p.player.member_id.as_str()).collect();
    let second: Vec<&str> = found.teams[&2].player_performances.iter().map(|p| p.player.member_id.as_str()).collect();
    assert_eq!(first, vec!["m1", "m4"]);
    assert_eq!(second, vec!["m3"]);
}

#[test]
fn performance_carries_the_counters_of_its_row() {
    let mut s = store();
    let data = report(1, 100, vec![5], vec![4], vec![entry("m1", "c1", CharacterClass::Warlock, 4, 5)]);
    assert_eq!(s.insert_activity(&data), Ok(()));
    let found = s.retrieve_activity_by_index(1, &ManifestInterface::new()).unwrap();
    let p = &found.teams[&4].player_performances[0];
    assert_eq!(p.player.member_id, "m1");
    assert_eq!(p.player.character_id, "c1");
    assert_eq!(p.player.platform, Platform::from_id(2));
    assert_eq!(p.player.display_name, "player m1");
    assert_eq!(p.player.light_level, 1260);
    assert_eq!(p.player.class_type, CharacterClass::Warlock);
    assert_eq!(p.stats.assists, 2);
    assert_eq!(p.stats.score, 30);
    assert_eq!(p.stats.kills, 5);
    assert_eq!(p.stats.deaths, 5);
    assert_eq!(p.stats.average_score_per_kill, 11);
    assert_eq!(p.stats.average_score_per_life, 12);
    assert!(p.stats.completed);
    assert_eq!(p.stats.opponents_defeated, 7);
    assert_eq!(p.stats.activity_duration_seconds, 700);
    assert_eq!(p.stats.standing, Standing::Defeat);
    assert_eq!(p.stats.team, 4);
    assert_eq!(p.stats.completion_reason, CompletionReason::Mercy);
    assert_eq!(p.stats.start_seconds, 3);
    assert_eq!(p.stats.time_played_seconds, 690);
    assert_eq!(p.stats.player_count, 8);
    assert_eq!(p.stats.team_score, 55);
    let extended = p.stats.extended.as_ref().unwrap();
    assert_eq!(extended.weapon_kills_grenade, 3);
    assert_eq!(extended.precision_kills, 0);
    assert_eq!(extended.weapons.len(), 2);
    assert_eq!(extended.weapons[0].kills, 4);
    assert_eq!(extended.weapons[0].precision_kills, 1);
    assert_eq!(extended.weapons[0].precision_kills_percent, 0x3e80_0000);
    assert_eq!(extended.weapons[0].activity_count, 1);
    assert_eq!(extended.weapons[1].weapon.id, 42);
    assert_eq!(extended.medals.len(), 2);
    assert_eq!(extended.medals[1].count, 2);
}

#[test]
fn what_the_cache_cannot_name_is_unknown() {
    let mut s = store();
    let data = report(1, 100, vec![5], vec![4], vec![entry("m1", "c1", CharacterClass::Titan, 4, 5)]);
    assert_eq!(s.insert_activity(&data), Ok(()));
    let found = s.retrieve_activity_by_index(1, &ManifestInterface::new()).unwrap();
    assert_eq!(found.details.map_name, "Unknown");
    let extended = found.teams[&4].player_performances[0].stats.extended.as_ref().unwrap();
    let weapon = &extended.weapons[0].weapon;
    assert_eq!(weapon.id, 3_000_000_000);
    assert_eq!(weapon.name, "Unknown");
    assert_eq!(weapon.description, "");
    assert_eq!(weapon.item_type, ItemType::unknown());
    assert_eq!(weapon.item_sub_type, ItemSubType::unknown());
    let medal = &extended.medals[1].medal;
    assert_eq!(medal.id, "medalMulti2x");
    assert_eq!(medal.name, "Unknown");
    assert_eq!(medal.description, "");
    assert_eq!(medal.icon_image_path, None);
    assert_eq!(medal.tier, MedalTier::unknown());
}

#[test]
fn what_the_cache_holds_is_named() {
    let mut s = store();
    let data = report(1, 100, vec![5], vec![4], vec![entry("m1", "c1", CharacterClass::Titan, 4, 5)]);
    assert_eq!(s.insert_activity(&data), Ok(()));
    let mut manifest = ManifestInterface::new();
    manifest.cache_activity_definition(
        0x8000_0007,
        Some(ActivityDefinitionData {
            id: 0x8000_0007,
            display_properties: display("Javelin-4", Some("Warsat Launch Facility, Io")),
            pgcr_image: None,
            destination_hash: 1,
            place_hash: 2,
            activity_type_hash: 3,
        }),
    );
    manifest.cache_iventory_item_definition(
        3_000_000_000,
        Some(InventoryItemDefinitionData {
            id: 3_000_000_000,
            display_properties: display("The Last Word", Some("Yours, until the last flame dies.")),
            item_type_display_name: Some("Hand Cannon".to_string()),
            item_type_and_tier_display_name: None,
            item_type: ItemType { id: 3 },
            item_sub_type: ItemSubType { id: 9 },
        }),
    );
    manifest.cache_iventory_item_definition(
        42,
        Some(InventoryItemDefinitionData {
            id: 42,
            display_properties: display("Nameless", None),
            item_type_display_name: None,
            item_type_and_tier_display_name: None,
            item_type: ItemType { id: 3 },
            item_sub_type: ItemSubType { id: 6 },
        }),
    );
    manifest.cache_historical_stats_definition(
        "medalMulti2x",
        Some(HistoricalStatsDefinition {
            id: "medalMulti2x".to_string(),
            name: "Double Play".to_string(),
            description: "Rapidly defeat two opponents.".to_string(),
            icon_image_path: Some("/img/double.png".to_string()),
            weight: 10,
            medal_tier: Some(MedalTier { id: 802673300 }),
        }),
    );
    manifest.cache_historical_stats_definition(
        "weaponKillsGrenade",
        Some(HistoricalStatsDefinition {
            id: "weaponKillsGrenade".to_string(),
            name: "Grenade Final Blows".to_string(),
            description: String::new(),
            icon_image_path: None,
            weight: 1,
            medal_tier: None,
        }),
    );

    let found = s.retrieve_activity_by_index(1, &manifest).unwrap();
    assert_eq!(found.details.map_name, "Javelin-4");
    assert_eq!(found.details.reference_id, 0x8000_0007);
    assert_eq!(found.details.director_activity_hash, 99);
    assert_eq!(found.details.mode, Mode::from_id(5));
    assert_eq!(found.details.platform, Platform::from_id(2));
    assert_eq!(found.details.period, 100);
    let extended = found.teams[&4].player_performances[0].stats.extended.as_ref().unwrap();
    assert_eq!(extended.weapons[0].weapon.name, "The Last Word");
    assert_eq!(extended.weapons[0].weapon.description, "Yours, until the last flame dies.");
    assert_eq!(extended.weapons[0].weapon.item_type, ItemType { id: 3 });
    assert_eq!(extended.weapons[0].weapon.item_sub_type, ItemSubType { id: 9 });
    assert_eq!(extended.weapons[1].weapon.name, "Nameless");
    assert_eq!(extended.weapons[1].weapon.description, "");
    assert_eq!(extended.medals[1].medal.name, "Double Play");
    assert_eq!(extended.medals[1].medal.description, "Rapidly defeat two opponents.");
    assert_eq!(extended.medals[1].medal.icon_image_path, Some("/img/double.png".to_string()));
    assert_eq!(extended.medals[1].medal.tier, MedalTier { id: 802673300 });
    assert_eq!(extended.medals[0].medal.name, "Grenade Final Blows");
    assert_eq!(extended.medals[0].medal.tier, MedalTier::unknown());
}

#[test]
fn match_that_is_not_stored_is_not_found() {
    let mut s = store();
    let manifest = ManifestInterface::new();
    assert!(matches!(s.retrieve_activity_by_index(1, &manifest), Err(Error::ActivityNotFound)));
    assert!(matches!(s.retrieve_activity_by_index(0, &manifest), Err(Error::ActivityNotFound)));
    let data = report(1, 100, vec![5], vec![4], vec![entry("m1", "c1", CharacterClass::Titan, 4, 5)]);
    assert_eq!(s.insert_activity(&data), Ok(()));
    assert!(s.retrieve_activity_by_index(1, &manifest).is_ok());
    assert!(matches!(s.retrieve_activity_by_index(2, &manifest), Err(Error::ActivityNotFound)));
    assert!(matches!(s.retrieve_activity_by_index(u32::MAX, &manifest), Err(Error::ActivityNotFound)));
}

#[test]
fn match_without_any_outcome_is_not_found() {
    let mut s = store();
    let manifest = ManifestInterface::new();
    assert_eq!(s.insert_activity(&report(1, 100, vec![5], vec![4], vec![])), Ok(()));
    assert_eq!(s.activities().len(), 1);
    assert!(matches!(s.retrieve_activity_by_index(1, &manifest), Err(Error::ActivityNotFound)));
}

fn history() -> ActivityStoreInterface {
    let mut s = store();
    let played: Vec<(i64, i64, Vec<u32>, &str, &str, CharacterClass)> = vec![
        (1, 100, vec![5, 10], "m1", "titan", CharacterClass::Titan),
        (2, 300, vec![5, 12], "m1", "hunter", CharacterClass::Hunter),
        (3, 200, vec![5, 10], "m1", "titan", CharacterClass::Titan),
        (4, 400, vec![32, 5], "m1", "titan", CharacterClass::Titan),
        (5, 500, vec![5], "m2", "other", CharacterClass::Warlock),
        (6, 300, vec![5, 12], "m1", "titan", CharacterClass::Titan),
    ];
    for (id, period, modes, member, character, class) in played {
        let data = report(id, period, modes, vec![1], vec![entry(member, character, class, 1, id as u32)]);
        assert_eq!(s.insert_activity(&data), Ok(()));
    }
    s
}

fn roster() -> Option<CharactersData> {
    Some(CharactersData {
        characters: vec![
            CharacterData { id: "titan".to_string(), class_type: CharacterClass::Titan, date_last_played: 10 },
            CharacterData { id: "hunter".to_string(), class_type: CharacterClass::Hunter, date_last_played: 30 },
            CharacterData { id: "hunter2".to_string(), class_type: CharacterClass::Hunter, date_last_played: 30 },
        ],
    })
}

#[test]
fn last_activity_of_an_account_is_the_most_recent_in_the_mode() {
    let s = history();
    let manifest = ManifestInterface::new();
    let all = CharacterClassSelection::All;
    let found = s.retrieve_last_activity("m1", &all, &Mode::all_pvp(), &manifest, &None).unwrap();
    // Match 4 is later but private; of the two matches at 300 the one stored first is taken.
    assert_eq!(found.details.id, 2);
    let found = s.retrieve_last_activity("m1", &all, &Mode::from_id(10), &manifest, &None).unwrap();
    assert_eq!(found.details.id, 3);
    let found = s.retrieve_last_activity("m2", &all, &Mode::all_pvp(), &manifest, &None).unwrap();
    assert_eq!(found.details.id, 5);
}

#[test]
fn last_private_activity_does_not_apply_the_exclusion() {
    let s = history();
    let manifest = ManifestInterface::new();
    let all = CharacterClassSelection::All;
    let found = s.retrieve_last_activity("m1", &all, &Mode::private_matches_all(), &manifest, &None).unwrap();
    assert_eq!(found.details.id, 4);
}

#[test]
fn last_activity_of_a_class_is_that_of_its_roster_entry() {
    let s = history();
    let manifest = ManifestInterface::new();
    let found = s
        .retrieve_last_activity("m1", &CharacterClassSelection::Titan, &Mode::all_pvp(), &manifest, &roster())
        .unwrap();
    assert_eq!(found.details.id, 6);
    let found = s
        .retrieve_last_activity("m1", &CharacterClassSelection::Hunter, &Mode::all_pvp(), &manifest, &roster())
        .unwrap();
    assert_eq!(found.details.id, 2);
    let found = s
        .retrieve_last_activity("m1", &CharacterClassSelection::LastActive, &Mode::all_pvp(), &manifest, &roster())
        .unwrap();
    assert_eq!(found.details.id, 2);
}

#[test]
fn last_activity_reports_why_nothing_is_found() {
    let s = history();
    let manifest = ManifestInterface::new();
    let all = CharacterClassSelection::All;
    assert!(matches!(
        s.retrieve_last_activity("m1", &all, &Mode::from_id(48), &manifest, &None),
        Err(Error::ActivityNotFound)
    ));
    assert!(matches!(
        s.retrieve_last_activity("m3", &all, &Mode::all_pvp(), &manifest, &None),
        Err(Error::ActivityNotFound)
    ));
    assert!(matches!(
        s.retrieve_last_activity("m1", &CharacterClassSelection::Titan, &Mode::all_pvp(), &manifest, &None),
        Err(Error::NoCharacters)
    ));
    assert!(matches!(
        s.retrieve_last_activity("m1", &CharacterClassSelection::Warlock, &Mode::all_pvp(), &manifest, &roster()),
        Err(Error::CharacterDoesNotExist)
    ));
    let nobody = Some(CharactersData { characters: Vec::new() });
    assert!(matches!(
        s.retrieve_last_activity("m1", &CharacterClassSelection::LastActive, &Mode::all_pvp(), &manifest, &nobody),
        Err(Error::CharacterDoesNotExist)
    ));
}

#[test]
fn selection_stands_for_a_roster_entry() {
    let r = roster();
    assert_eq!(retrieve_character_selection_id("m1", &CharacterClassSelection::All, &r), Ok("m1".to_string()));
    assert_eq!(retrieve_character_selection_id("m1", &CharacterClassSelection::Titan, &r), Ok("titan".to_string()));
    assert_eq!(retrieve_character_selection_id("m1", &CharacterClassSelection::Hunter, &r), Ok("hunter".to_string()));
    assert_eq!(
        retrieve_character_selection_id("m1", &CharacterClassSelection::Warlock, &r),
        Err(Error::CharacterDoesNotExist)
    );
    assert_eq!(
        retrieve_character_selection_id("m1", &CharacterClassSelection::LastActive, &r),
        Ok("hunter".to_string())
    );
    assert_eq!(retrieve_character_selection_id("m1", &CharacterClassSelection::All, &None), Err(Error::NoCharacters));
    assert_eq!(retrieve_character_selection_id("m1", &CharacterClassSelection::Titan, &None), Err(Error::NoCharacters));
}

#[test]
fn roster_lookups_take_the_first_of_equals() {
    let r = roster().unwrap();
    assert_eq!(r.get_by_class_ref(CharacterClass::Hunter).unwrap().id, "hunter");
    assert_eq!(r.get_by_class_ref(CharacterClass::Titan).unwrap().id, "titan");
    assert!(r.get_by_class_ref(CharacterClass::Warlock).is_none());
    assert_eq!(r.get_last_active_ref().unwrap().id, "hunter");
    let empty = CharactersData { characters: Vec::new() };
    assert!(empty.get_last_active_ref().is_none());
    assert!(empty.get_by_class_ref(CharacterClass::Titan).is_none());
}

#[test]
fn performance_row_is_reported_with_its_match() {
    let s = history();
    let manifest = ManifestInterface::new();
    let found = s.parse_individual_performance_row(&manifest, 1).unwrap();
    assert_eq!(found.activity_detail.id, 2);
    assert_eq!(found.activity_detail.period, 300);
    assert_eq!(found.performance.player.character_id, "hunter");
    assert_eq!(found.performance.stats.kills, 2);
    assert!(s.parse_individual_performance_row(&manifest, 6).is_none());
}

#[test]
fn discriminators_map_unknown_values_to_unknown() {
    assert_eq!(CharacterClass::from_id(0), CharacterClass::Titan);
    assert_eq!(CharacterClass::from_id(1), CharacterClass::Hunter);
    assert_eq!(CharacterClass::from_id(2), CharacterClass::Warlock);
    assert_eq!(CharacterClass::from_id(3), CharacterClass::Unknown);
    assert_eq!(CharacterClass::Unknown.to_id(), 255);
    assert_eq!(CharacterClass::from_id(CharacterClass::Warlock.to_id()), CharacterClass::Warlock);
    assert_eq!(Standing::from_value(0), Standing::Victory);
    assert_eq!(Standing::from_value(1), Standing::Defeat);
    assert_eq!(Standing::from_value(2), Standing::Unknown);
    assert_eq!(CompletionReason::from_id(0), CompletionReason::ObjectiveCompleted);
    assert_eq!(CompletionReason::from_id(1), CompletionReason::TimerFinished);
    assert_eq!(CompletionReason::from_id(2), CompletionReason::Failed);
    assert_eq!(CompletionReason::from_id(3), CompletionReason::NoOpponents);
    assert_eq!(CompletionReason::from_id(4), CompletionReason::Mercy);
    assert_eq!(CompletionReason::from_id(5), CompletionReason::Unknown);
    assert_eq!(Platform::from_id(4).to_id(), 4);
}
