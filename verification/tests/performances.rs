use dcli::activitystoreinterface::ActivityStoreInterface;
use dcli::enums::{CharacterClass, CharacterClassSelection, Mode, Platform};
use dcli::error::Error;
use dcli::manifestinterface::ManifestInterface;
use dcli::performances::DateTimePeriod;
use dcli::response::activities::DestinyHistoricalStatsActivity;
use dcli::response::character::{CharacterData, CharactersData};
use dcli::response::pgcr::{
    DestinyPlayer, DestinyPostGameCarnageReportData, DestinyPostGameCarnageReportEntry,
    DestinyPostGameCarnageReportExtendedData, PerformanceValues, UserInfoCard,
};

fn entry(member: &str, character: &str, class: CharacterClass, kills: u32) -> DestinyPostGameCarnageReportEntry {
    DestinyPostGameCarnageReportEntry {
        player: DestinyPlayer {
            user_info: UserInfoCard {
                membership_id: member.to_string(),
                membership_type: Platform::from_id(2),
                display_name: member.to_string(),
            },
            class_type: class,
            light_level: 1000,
        },
        character_id: character.to_string(),
        values: PerformanceValues {
            assists: 0,
            score: 0,
            kills,
            deaths: 0,
            average_score_per_kill: 0,
            average_score_per_life: 0,
            completed: 0,
            opponents_defeated: 0,
            activity_duration_seconds: 0,
            standing: 0,
            team: 0,
            completion_reason: 0,
            start_seconds: 0,
            time_played_seconds: 0,
            player_count: 0,
            team_score: 0,
        },
        extended: DestinyPostGameCarnageReportExtendedData { weapons: None, values: Vec::new() },
    }
}

fn report(instance_id: i64, period: i64, modes: Vec<u32>, entries: Vec<DestinyPostGameCarnageReportEntry>) -> DestinyPostGameCarnageReportData {
    DestinyPostGameCarnageReportData {
        period,
        activity_details: DestinyHistoricalStatsActivity {
            reference_id: 1,
            director_activity_hash: 2,
            instance_id,
            mode: Mode::from_id(modes[0]),
            modes: modes.into_iter().map(Mode::from_id).collect(),
            is_private: false,
            membership_type: Platform::from_id(2),
        },
        entries,
        teams: Vec::new(),
    }
}

fn history() -> ActivityStoreInterface {
    let mut s = ActivityStoreInterface::new("store".to_string(), false);
    let titan = || entry("m1", "titan", CharacterClass::Titan, 1);
    let hunter = || entry("m1", "hunter", CharacterClass::Hunter, 2);
    let other = || entry("m2", "other", CharacterClass::Warlock, 3);
    assert_eq!(s.insert_activity(&report(11, 300, vec![5, 10], vec![titan(), other()])), Ok(()));
    assert_eq!(s.insert_activity(&report(12, 100, vec![5], vec![hunter()])), Ok(()));
    assert_eq!(s.insert_activity(&report(13, 500, vec![5, 32], vec![titan()])), Ok(()));
    assert_eq!(s.insert_activity(&report(14, 300, vec![5], vec![hunter()])), Ok(()));
    assert_eq!(s.insert_activity(&report(15, 400, vec![5, 10], vec![titan()])), Ok(()));
    assert_eq!(s.insert_activity(&report(16, 200, vec![12], vec![titan()])), Ok(()));
    s
}

fn roster() -> Option<CharactersData> {
    Some(CharactersData {
        characters: vec![
            CharacterData { id: "hunter".to_string(), class_type: CharacterClass::Hunter, date_last_played: 5 },
            CharacterData { id: "titan".to_string(), class_type: CharacterClass::Titan, date_last_played: 9 },
            CharacterData { id: "gone".to_string(), class_type: CharacterClass::Warlock, date_last_played: 1 },
        ],
    })
}

fn always() -> DateTimePeriod {
    DateTimePeriod { start: i64::MIN, end: i64::MAX }
}

fn ids(found: Option<Vec<dcli::crucible::CruciblePlayerActivityPerformance>>) -> Vec<i64> {
    found.unwrap().iter().map(|p| p.activity_detail.id).collect()
}

#[test]
fn outcomes_of_an_account_come_most_recent_first() {
    let s = history();
    let m = ManifestInterface::new();
    let found = s.retrieve_activities_for_member_since("m1", &Mode::all_pvp(), &always(), &m);
    // Match 13 is private; 11 and 14 were played at the same time, 11 was stored first.
    assert_eq!(ids(found), vec![15, 11, 14, 12]);
    let found = s.retrieve_activities_for_member_since("m1", &Mode::from_id(10), &always(), &m);
    assert_eq!(ids(found), vec![15, 11]);
    let found = s.retrieve_activities_for_member_since("m2", &Mode::all_pvp(), &always(), &m);
    assert_eq!(ids(found), vec![11]);
}

#[test]
fn private_outcomes_are_listed_for_a_private_mode() {
    let s = history();
    let m = ManifestInterface::new();
    let found = s.retrieve_activities_for_member_since("m1", &Mode::private_matches_all(), &always(), &m);
    assert_eq!(ids(found), vec![13]);
}

#[test]
fn neither_end_belongs_to_the_period() {
    let s = history();
    let m = ManifestInterface::new();
    let mode = Mode::all_pvp();
    let within = |start: i64, end: i64| {
        let period = DateTimePeriod { start, end };
        assert_eq!(period.get_start(), start);
        assert_eq!(period.get_end(), end);
        s.retrieve_activities_for_member_since("m1", &mode, &period, &m)
    };
    assert_eq!(ids(within(100, 400)), vec![11, 14]);
    assert_eq!(ids(within(99, 401)), vec![15, 11, 14, 12]);
    assert_eq!(ids(within(299, 301)), vec![11, 14]);
    assert!(within(300, 300).is_none());
    assert!(within(400, 100).is_none());
    assert!(within(500, i64::MAX).is_none());
}

#[test]
fn no_outcome_gives_no_list() {
    let s = history();
    let m = ManifestInterface::new();
    assert!(s.retrieve_activities_for_member_since("m3", &Mode::all_pvp(), &always(), &m).is_none());
    assert!(s.retrieve_activities_for_member_since("m1", &Mode::from_id(48), &always(), &m).is_none());
    let empty = ActivityStoreInterface::new("store".to_string(), false);
    assert!(empty.retrieve_activities_for_member_since("m1", &Mode::all_pvp(), &always(), &m).is_none());
}

#[test]
fn outcomes_of_a_character_are_those_of_its_rows() {
    let s = history();
    let m = ManifestInterface::new();
    let found = s.retrieve_activities_for_character("m1", "titan", &Mode::all_pvp(), &always(), &m);
    assert_eq!(ids(found.unwrap()), vec![15, 11]);
    let found = s.retrieve_activities_for_character("m1", "hunter", &Mode::all_pvp(), &always(), &m);
    assert_eq!(ids(found.unwrap()), vec![14, 12]);
    let found = s.retrieve_activities_for_character("m1", "titan", &Mode::from_id(12), &always(), &m);
    assert_eq!(ids(found.unwrap()), vec![16]);
    let found = s.retrieve_activities_for_character("m1", "hunter", &Mode::from_id(12), &always(), &m);
    assert!(found.unwrap().is_none());
}

#[test]
fn a_character_must_be_stored_for_the_account() {
    let s = history();
    let m = ManifestInterface::new();
    assert!(matches!(
        s.retrieve_activities_for_character("m1", "gone", &Mode::all_pvp(), &always(), &m),
        Err(Error::RowNotFound)
    ));
    assert!(matches!(
        s.retrieve_activities_for_character("m2", "titan", &Mode::all_pvp(), &always(), &m),
        Err(Error::RowNotFound)
    ));
}

#[test]
fn selection_decides_between_account_and_roster_entry() {
    let s = history();
    let m = ManifestInterface::new();
    let mode = Mode::all_pvp();
    let since = |selection: CharacterClassSelection, characters: &Option<CharactersData>| {
        s.retrieve_activities_since("m1", &selection, &mode, &always(), &m, characters)
    };
    assert_eq!(ids(since(CharacterClassSelection::All, &None).unwrap()), vec![15, 11, 14, 12]);
    assert_eq!(ids(since(CharacterClassSelection::Titan, &roster()).unwrap()), vec![15, 11]);
    assert_eq!(ids(since(CharacterClassSelection::Hunter, &roster()).unwrap()), vec![14, 12]);
    assert_eq!(ids(since(CharacterClassSelection::LastActive, &roster()).unwrap()), vec![15, 11]);
    assert!(matches!(since(CharacterClassSelection::Warlock, &roster()), Err(Error::RowNotFound)));
    assert!(matches!(since(CharacterClassSelection::Titan, &None), Err(Error::NoCharacters)));
    let few = Some(CharactersData {
        characters: vec![CharacterData { id: "titan".to_string(), class_type: CharacterClass::Titan, date_last_played: 9 }],
    });
    assert!(matches!(since(CharacterClassSelection::Hunter, &few), Err(Error::CharacterDoesNotExist)));
}

#[test]
fn each_report_describes_its_row() {
    let s = history();
    let m = ManifestInterface::new();
    let found = s.retrieve_activities_for_member_since("m1", &Mode::all_pvp(), &always(), &m).unwrap();
    let seen: Vec<(i64, i64, &str, u32)> = found
        .iter()
        .map(|p| {
            (
                p.activity_detail.id,
                p.activity_detail.period,
                p.performance.player.character_id.as_str(),
                p.performance.stats.kills,
            )
        })
        .collect();
    assert_eq!(seen, vec![(15, 400, "titan", 1), (11, 300, "titan", 1), (14, 300, "hunter", 2), (12, 100, "hunter", 2)]);
    assert_eq!(found[0].activity_detail.index_id, 5);
    assert_eq!(found[0].activity_detail.map_name, "Unknown");
}
