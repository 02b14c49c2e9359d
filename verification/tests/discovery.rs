use dcli::activitystoreinterface::{ActivityStoreInterface, SyncResult};
use dcli::enums::{CharacterClass, Mode, Platform};
use dcli::error::Error;
use dcli::response::activities::{Activity, DestinyHistoricalStatsActivity};
use dcli::response::pgcr::{
    DestinyPlayer, DestinyPostGameCarnageReportData, DestinyPostGameCarnageReportEntry,
    DestinyPostGameCarnageReportExtendedData, PerformanceValues, UserInfoCard,
};

fn details(instance_id: i64, director_activity_hash: u32, modes: Vec<u32>) -> DestinyHistoricalStatsActivity {
    DestinyHistoricalStatsActivity {
        reference_id: 10,
        director_activity_hash,
        instance_id,
        mode: Mode::from_id(modes[0]),
        modes: modes.into_iter().map(Mode::from_id).collect(),
        is_private: false,
        membership_type: Platform::from_id(3),
    }
}

fn summary(instance_id: i64, director_activity_hash: u32) -> Activity {
    Activity { period: 1_600_000_000 + instance_id, details: details(instance_id, director_activity_hash, vec![5]) }
}

fn page(ids: &[i64]) -> Option<Vec<Activity>> {
    Some(ids.iter().map(|id| summary(*id, 77)).collect())
}

fn record(instance_id: i64, modes: Vec<u32>, member: &str, character: &str) -> DestinyPostGameCarnageReportData {
    DestinyPostGameCarnageReportData {
        period: 1_600_000_000 + instance_id,
        activity_details: details(instance_id, 77, modes),
        entries: vec![DestinyPostGameCarnageReportEntry {
            player: DestinyPlayer {
                user_info: UserInfoCard {
                    membership_id: member.to_string(),
                    membership_type: Platform::from_id(3),
                    display_name: "Ana".to_string(),
                },
                class_type: CharacterClass::Titan,
                light_level: 1300,
            },
            character_id: character.to_string(),
            values: PerformanceValues {
                assists: 0,
                score: 0,
                kills: 0,
                deaths: 0,
                average_score_per_kill: 0,
                average_score_per_life: 0,
                completed: 1,
                opponents_defeated: 0,
                activity_duration_seconds: 0,
                standing: 0,
                team: 0,
                completion_reason: 0,
                start_seconds: 0,
                time_played_seconds: 0,
                player_count: 0,
                team_score: 0,
            },
            extended: DestinyPostGameCarnageReportExtendedData { weapons: None, values: Vec::new() },
        }],
        teams: Vec::new(),
    }
}

fn store_with_character() -> ActivityStoreInterface {
    let mut s = ActivityStoreInterface::new("store".to_string(), false);
    assert_eq!(s.insert_member_id("m1", &Platform::from_id(3), "Ana"), Ok(1));
    assert_eq!(s.insert_character_id("c1", &CharacterClass::Titan, 1), Ok(1));
    assert_eq!(s.insert_character_id("c2", &CharacterClass::Hunter, 1), Ok(2));
    s
}

#[test]
fn page_is_queued_oldest_first() {
    let mut s = store_with_character();
    let done = s._update_activity_queue(1, &page(&[905, 904, 903]));
    assert_eq!(done, Ok(SyncResult { total_available: 3, total_synced: 3 }));
    assert_eq!(s.queued_activity_ids(1), vec![903, 904, 905]);
    assert!(s.queued_activity_ids(2).is_empty());
}

#[test]
fn no_page_queues_nothing() {
    let mut s = store_with_character();
    assert_eq!(s._update_activity_queue(1, &None), Ok(SyncResult { total_available: 0, total_synced: 0 }));
    assert_eq!(s._update_activity_queue(1, &Some(Vec::new())), Ok(SyncResult { total_available: 0, total_synced: 0 }));
    assert!(s.activity_queue().is_empty());
}

#[test]
fn private_mode_artifacts_are_kept_out_of_the_queue() {
    let mut s = store_with_character();
    let entries = vec![summary(905, 2526740498), summary(904, 77), summary(903, 248695599), summary(902, 248695598)];
    let done = s._update_activity_queue(1, &Some(entries));
    assert_eq!(done, Ok(SyncResult { total_available: 2, total_synced: 2 }));
    assert_eq!(s.queued_activity_ids(1), vec![902, 904]);
}

#[test]
fn matches_stored_for_the_character_are_not_queued_again() {
    let mut s = store_with_character();
    assert_eq!(s.insert_activity(&record(904, vec![5], "m1", "c1")), Ok(()));
    let done = s._update_activity_queue(1, &page(&[905, 904, 903]));
    assert_eq!(done, Ok(SyncResult { total_available: 2, total_synced: 2 }));
    assert_eq!(s.queued_activity_ids(1), vec![903, 905]);
    // The other character has no outcome of that match: for it the match is new.
    let done = s._update_activity_queue(2, &page(&[904]));
    assert_eq!(done, Ok(SyncResult { total_available: 1, total_synced: 1 }));
    assert_eq!(s.queued_activity_ids(2), vec![904]);
}

#[test]
fn a_page_with_a_queued_match_is_rolled_back_whole() {
    let mut s = store_with_character();
    assert_eq!(s._update_activity_queue(1, &page(&[903])), Ok(SyncResult { total_available: 1, total_synced: 1 }));
    let done = s._update_activity_queue(1, &page(&[905, 903, 902]));
    assert_eq!(done, Err(Error::Constraint));
    assert_eq!(s.queued_activity_ids(1), vec![903]);
    assert_eq!(s.activity_queue().len(), 1);
}

#[test]
fn a_page_that_repeats_a_match_is_rolled_back_whole() {
    let mut s = store_with_character();
    let done = s._update_activity_queue(1, &page(&[905, 904, 905]));
    assert_eq!(done, Err(Error::Constraint));
    assert!(s.activity_queue().is_empty());
}

#[test]
fn a_page_for_an_unknown_character_is_refused() {
    let mut s = store_with_character();
    assert_eq!(s._update_activity_queue(3, &page(&[905])), Err(Error::Constraint));
    assert_eq!(s._update_activity_queue(0, &page(&[905])), Err(Error::Constraint));
    assert!(s.activity_queue().is_empty());
}

#[test]
fn same_match_can_wait_for_two_characters() {
    let mut s = store_with_character();
    assert!(s._update_activity_queue(1, &page(&[905])).is_ok());
    assert!(s._update_activity_queue(2, &page(&[905, 904])).is_ok());
    assert_eq!(s.queued_activity_ids(1), vec![905]);
    assert_eq!(s.queued_activity_ids(2), vec![904, 905]);
    s.remove_from_activity_queue(2, 905);
    assert_eq!(s.queued_activity_ids(1), vec![905]);
    assert_eq!(s.queued_activity_ids(2), vec![904]);
}

#[test]
fn removing_from_the_queue_keeps_the_order_of_the_rest() {
    let mut s = store_with_character();
    assert!(s._update_activity_queue(1, &page(&[905, 904, 903, 902])).is_ok());
    s.remove_from_activity_queue(1, 903);
    assert_eq!(s.queued_activity_ids(1), vec![902, 904, 905]);
    s.remove_from_activity_queue(1, 903);
    s.remove_from_activity_queue(1, 999);
    s.remove_from_activity_queue(2, 902);
    assert_eq!(s.queued_activity_ids(1), vec![902, 904, 905]);
}

#[test]
fn discovery_starts_from_zero_in_an_empty_scope() {
    let s = store_with_character();
    assert_eq!(s.get_max_activity_id(1, &Mode::all_pvp()), 0);
    assert_eq!(s.get_max_activity_id(1, &Mode::private_matches_all()), 0);
    assert_eq!(s.get_max_activity_id(9, &Mode::all_pvp()), 0);
}

#[test]
fn discovery_continues_from_the_largest_stored_identifier() {
    let mut s = store_with_character();
    assert_eq!(s.insert_activity(&record(904, vec![5, 10], "m1", "c1")), Ok(()));
    assert_eq!(s.insert_activity(&record(910, vec![5], "m1", "c1")), Ok(()));
    assert_eq!(s.insert_activity(&record(907, vec![5], "m1", "c1")), Ok(()));
    assert_eq!(s.insert_activity(&record(950, vec![5], "m1", "c2")), Ok(()));
    assert_eq!(s.get_max_activity_id(1, &Mode::all_pvp()), 910);
    assert_eq!(s.get_max_activity_id(2, &Mode::all_pvp()), 950);
    assert_eq!(s.get_max_activity_id(1, &Mode::from_id(10)), 904);
    assert_eq!(s.get_max_activity_id(1, &Mode::from_id(12)), 0);
}

#[test]
fn public_discovery_passes_over_private_matches() {
    let mut s = store_with_character();
    assert_eq!(s.insert_activity(&record(904, vec![5], "m1", "c1")), Ok(()));
    // Tagged as a private match and, independently, as a public one.
    assert_eq!(s.insert_activity(&record(920, vec![32, 5], "m1", "c1")), Ok(()));
    assert_eq!(s.get_max_activity_id(1, &Mode::all_pvp()), 904);
    assert_eq!(s.get_max_activity_id(1, &Mode::private_matches_all()), 920);
}

#[test]
fn private_discovery_does_not_apply_the_exclusion() {
    let mut s = store_with_character();
    assert_eq!(s.insert_activity(&record(930, vec![32, 51], "m1", "c1")), Ok(()));
    assert_eq!(s.insert_activity(&record(931, vec![51], "m1", "c1")), Ok(()));
    assert_eq!(s.get_max_activity_id(1, &Mode::private_matches_all()), 930);
    assert_eq!(s.get_max_activity_id(1, &Mode::from_id(51)), 931);
    assert_eq!(s.get_max_activity_id(1, &Mode::all_pvp()), 0);
}

#[test]
fn since_id_never_decreases_across_syncs() {
    let mut s = store_with_character();
    let mut last_public = s.get_max_activity_id(1, &Mode::all_pvp());
    let mut last_private = s.get_max_activity_id(1, &Mode::private_matches_all());
    let arrivals: Vec<(i64, Vec<u32>)> = vec![
        (905, vec![5]),
        (903, vec![5]),
        (940, vec![32]),
        (904, vec![5, 10]),
        (990, vec![5]),
        (939, vec![32, 5]),
    ];
    for (id, modes) in arrivals {
        assert!(s._update_activity_queue(1, &page(&[id])).is_ok());
        assert_eq!(s.insert_activity(&record(id, modes, "m1", "c1")), Ok(()));
        s.remove_from_activity_queue(1, id);
        let public = s.get_max_activity_id(1, &Mode::all_pvp());
        let private = s.get_max_activity_id(1, &Mode::private_matches_all());
        assert!(public >= last_public);
        assert!(private >= last_private);
        last_public = public;
        last_private = private;
    }
    assert_eq!(last_public, 990);
    assert_eq!(last_private, 940);
}

#[test]
fn mode_is_private_for_the_umbrella_and_its_sub_modes() {
    assert!(Mode::private_matches_all().is_private());
    assert!(Mode::from_id(51).is_private());
    assert!(Mode::from_id(57).is_private());
    assert!(!Mode::from_id(50).is_private());
    assert!(!Mode::from_id(58).is_private());
    assert!(!Mode::all_pvp().is_private());
    assert_eq!(Mode::all_pvp().to_id(), 5);
    assert_eq!(Mode::private_matches_all().to_id(), 32);
}

#[test]
fn sync_result_adds_field_by_field() {
    let a = SyncResult { total_available: 5, total_synced: 3 };
    let b = SyncResult { total_available: 2, total_synced: 2 };
    assert_eq!(a + b, SyncResult { total_available: 7, total_synced: 5 });
    let zero = SyncResult { total_available: 0, total_synced: 0 };
    assert_eq!(a + zero, a);
}
