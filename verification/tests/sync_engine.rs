use dcli::activitystoreinterface::{ActivityStoreInterface, SyncResult, PGCR_REQUEST_CHUNK_AMOUNT};
use dcli::enums::{CharacterClass, Mode, Platform};
use dcli::error::Error;
use dcli::response::activities::{Activity, DestinyHistoricalStatsActivity};
use dcli::response::character::{CharacterData, CharactersData, PlayerInfo};
use dcli::response::pgcr::{
    DestinyPlayer, DestinyPostGameCarnageReportData, DestinyPostGameCarnageReportEntry,
    DestinyPostGameCarnageReportExtendedData, DetailFetch, FailedRecord, PerformanceValues,
    UserInfoCard,
};
use dcli::sync::{SyncAction, SyncEvent, SyncSession};
use dcli::syncmodel::{DroppedPage, Scope, SyncStage};

/// A remote match: its identifier, its modes and who played it.
#[derive(Clone)]
struct RemoteEvent {
    id: i64,
    modes: Vec<u32>,
    character: String,
    director_activity_hash: u32,
}

/// What a request for a detailed record comes to.
#[derive(Clone, Copy, PartialEq)]
enum Answer {
    Record,
    Nothing,
    Failure,
    Unstorable,
}

/// A stand-in for the remote service.
struct Remote {
    member: String,
    roster: Vec<(String, CharacterClass)>,
    events: Vec<RemoteEvent>,
    answers: Vec<(i64, Answer)>,
    page_size: usize,
    honours_since: bool,
    requests: Vec<String>,
}

impl Remote {
    fn new(roster: &[(&str, CharacterClass)]) -> Remote {
        Remote {
            member: "m1".to_string(),
            roster: roster.iter().map(|(id, class)| (id.to_string(), *class)).collect(),
            events: Vec::new(),
            answers: Vec::new(),
            page_size: 250,
            honours_since: true,
            requests: Vec::new(),
        }
    }

    fn played(&mut self, character: &str, id: i64, modes: &[u32]) {
        self.events.push(RemoteEvent {
            id,
            modes: modes.to_vec(),
            character: character.to_string(),
            director_activity_hash: 77,
        });
    }

    fn answer(&self, id: i64) -> Answer {
        for (known, answer) in &self.answers {
            if *known == id {
                return *answer;
            }
        }
        Answer::Record
    }

    fn details(&self, event: &RemoteEvent) -> DestinyHistoricalStatsActivity {
        DestinyHistoricalStatsActivity {
            reference_id: 10,
            director_activity_hash: event.director_activity_hash,
            instance_id: event.id,
            mode: Mode::from_id(event.modes[0]),
            modes: event.modes.iter().map(|m| Mode::from_id(*m)).collect(),
            is_private: false,
            membership_type: Platform::from_id(3),
        }
    }

    fn profile(&self) -> PlayerInfo {
        PlayerInfo {
            user_info: UserInfoCard {
                membership_id: self.member.clone(),
                membership_type: Platform::from_id(3),
                display_name: "Ana".to_string(),
            },
            characters: CharactersData {
                characters: self
                    .roster
                    .iter()
                    .map(|(id, class)| CharacterData { id: id.clone(), class_type: *class, date_last_played: 0 })
                    .collect(),
            },
        }
    }

    fn history(&self, character: &str, mode: u32, since_id: i64) -> Option<Vec<Activity>> {
        let mut found: Vec<&RemoteEvent> = self
            .events
            .iter()
            .filter(|e| e.character == character && e.modes.contains(&mode))
            .filter(|e| !self.honours_since || e.id > since_id)
            .collect();
        found.sort_by_key(|e| -e.id);
        found.truncate(self.page_size);
        if found.is_empty() {
            return None;
        }
        Some(found.iter().map(|e| Activity { period: 1_600_000_000 + e.id, details: self.details(e) }).collect())
    }

    fn entry(&self, character: &str) -> DestinyPostGameCarnageReportEntry {
        DestinyPostGameCarnageReportEntry {
            player: DestinyPlayer {
                user_info: UserInfoCard {
                    membership_id: self.member.clone(),
                    membership_type: Platform::from_id(3),
                    display_name: "Ana".to_string(),
                },
                class_type: CharacterClass::Titan,
                light_level: 1300,
            },
            character_id: character.to_string(),
            values: PerformanceValues {
                assists: 1,
                score: 2,
                kills: 3,
                deaths: 4,
                average_score_per_kill: 0,
                average_score_per_life: 0,
                completed: 1,
                opponents_defeated: 4,
                activity_duration_seconds: 500,
                standing: 0,
                team: 0,
                completion_reason: 0,
                start_seconds: 0,
                time_played_seconds: 500,
                player_count: 6,
                team_score: 0,
            },
            extended: DestinyPostGameCarnageReportExtendedData { weapons: None, values: Vec::new() },
        }
    }

    fn record(&self, id: i64) -> DetailFetch {
        match self.answer(id) {
            Answer::Nothing => return DetailFetch::Empty,
            Answer::Failure => return DetailFetch::Failed,
            _ => {}
        }
        for event in &self.events {
            if event.id == id {
                let mut entries = vec![self.entry(&event.character)];
                if self.answer(id) == Answer::Unstorable {
                    entries.push(self.entry(&event.character));
                }
                return DetailFetch::Fetched(DestinyPostGameCarnageReportData {
                    period: 1_600_000_000 + id,
                    activity_details: self.details(event),
                    entries,
                    teams: Vec::new(),
                });
            }
        }
        DetailFetch::Empty
    }

    /// Runs one sync to its end, answering whatever it asks for.
    fn run(&mut self, store: &mut ActivityStoreInterface) -> Result<SyncResult, Error> {
        let mut session = SyncSession::new(&self.member, &Platform::from_id(3));
        let mut event = SyncEvent::Start;
        loop {
            match store.sync(&mut session, event) {
                SyncAction::FetchProfile => {
                    self.requests.push("profile".to_string());
                    event = SyncEvent::Profile(self.profile());
                }
                SyncAction::FetchActivities { character_id, mode, since_id } => {
                    self.requests.push(format!("history {} {} {}", character_id, mode.to_id(), since_id));
                    event = SyncEvent::Activities(self.history(&character_id, mode.to_id(), since_id));
                }
                SyncAction::FetchDetails { ids } => {
                    self.requests.push(format!("details {}", ids.len()));
                    event = SyncEvent::Details(ids.iter().map(|id| self.record(*id)).collect());
                }
                SyncAction::Finished(result) => {
                    assert!(matches!(session.stage(), SyncStage::Done));
                    return Ok(result);
                }
                SyncAction::Failed(e) => return Err(e),
            }
        }
    }
}

fn store() -> ActivityStoreInterface {
    ActivityStoreInterface::new("store".to_string(), false)
}

#[test]
fn one_new_event_is_synced_once() {
    let mut remote = Remote::new(&[("c1", CharacterClass::Titan)]);
    remote.played("c1", 9001, &[5, 10]);
    let mut s = store();
    assert_eq!(remote.run(&mut s), Ok(SyncResult { total_available: 0, total_synced: 1 }));
    assert_eq!(remote.run(&mut s), Ok(SyncResult { total_available: 0, total_synced: 0 }));
    assert_eq!(s.activities().len(), 1);
    assert!(s.activity_queue().is_empty());
}

#[test]
fn one_new_event_is_synced_once_even_if_the_service_repeats_it() {
    let mut remote = Remote::new(&[("c1", CharacterClass::Titan)]);
    remote.honours_since = false;
    remote.played("c1", 9001, &[5, 32]);
    let mut s = store();
    assert_eq!(remote.run(&mut s), Ok(SyncResult { total_available: 0, total_synced: 1 }));
    assert_eq!(remote.run(&mut s), Ok(SyncResult { total_available: 0, total_synced: 0 }));
    assert_eq!(s.activities().len(), 1);
    assert!(s.activity_queue().is_empty());
}

#[test]
fn run_asks_private_scope_first_then_public_for_each_character() {
    let mut remote = Remote::new(&[("c1", CharacterClass::Titan), ("c2", CharacterClass::Hunter)]);
    let mut s = store();
    assert_eq!(remote.run(&mut s), Ok(SyncResult { total_available: 0, total_synced: 0 }));
    assert_eq!(
        remote.requests,
        vec!["profile", "history c1 32 0", "history c1 5 0", "history c2 32 0", "history c2 5 0"]
    );
    assert_eq!(s.members().len(), 1);
    assert_eq!(s.members()[0].display_name, "Ana");
    assert_eq!(s.characters().len(), 2);
    assert_eq!(s.characters()[1].class, 1);
}

#[test]
fn account_without_characters_finishes_at_once() {
    let mut remote = Remote::new(&[]);
    let mut s = store();
    assert_eq!(remote.run(&mut s), Ok(SyncResult { total_available: 0, total_synced: 0 }));
    assert_eq!(remote.requests, vec!["profile"]);
    assert_eq!(s.members().len(), 1);
}

#[test]
fn discovery_continues_from_what_is_stored() {
    let mut remote = Remote::new(&[("c1", CharacterClass::Titan)]);
    remote.played("c1", 9001, &[5]);
    remote.played("c1", 9005, &[5]);
    remote.played("c1", 9003, &[32]);
    let mut s = store();
    assert_eq!(remote.run(&mut s), Ok(SyncResult { total_available: 0, total_synced: 3 }));
    remote.requests.clear();
    remote.played("c1", 9010, &[5]);
    assert_eq!(remote.run(&mut s), Ok(SyncResult { total_available: 0, total_synced: 1 }));
    assert_eq!(remote.requests, vec!["profile", "history c1 32 9003", "history c1 5 9005", "details 1"]);
    assert_eq!(s.get_max_activity_id(1, &Mode::all_pvp()), 9010);
}

#[test]
fn queue_is_drained_in_batches_of_twenty_four() {
    assert_eq!(PGCR_REQUEST_CHUNK_AMOUNT, 24);
    let mut remote = Remote::new(&[("c1", CharacterClass::Titan)]);
    for id in 0..53 {
        remote.played("c1", 9000 + id, &[5]);
    }
    let mut s = store();
    assert_eq!(remote.run(&mut s), Ok(SyncResult { total_available: 0, total_synced: 53 }));
    assert_eq!(
        remote.requests,
        vec!["profile", "history c1 32 0", "history c1 5 0", "details 24", "details 24", "details 5"]
    );
    assert_eq!(s.activities().len(), 53);
    // Oldest first within the page.
    assert_eq!(s.activities()[0].activity_id, 9000);
    assert_eq!(s.activities()[52].activity_id, 9052);
}

#[test]
fn exactly_one_batch_makes_one_request() {
    let mut remote = Remote::new(&[("c1", CharacterClass::Titan)]);
    for id in 0..24 {
        remote.played("c1", 9000 + id, &[5]);
    }
    let mut s = store();
    assert_eq!(remote.run(&mut s), Ok(SyncResult { total_available: 0, total_synced: 24 }));
    assert_eq!(remote.requests, vec!["profile", "history c1 32 0", "history c1 5 0", "details 24"]);
}

#[test]
fn what_cannot_be_fetched_stays_queued_and_is_retried() {
    let mut remote = Remote::new(&[("c1", CharacterClass::Titan)]);
    remote.played("c1", 9001, &[32]);
    remote.played("c1", 9002, &[32]);
    remote.played("c1", 9003, &[32]);
    remote.answers = vec![(9002, Answer::Failure), (9003, Answer::Nothing)];
    let mut s = store();
    // The private pass stores one and leaves two; the public pass finds the
    // same two still queued and leaves them again.
    assert_eq!(remote.run(&mut s), Ok(SyncResult { total_available: 4, total_synced: 1 }));
    assert_eq!(s.queued_activity_ids(1), vec![9002, 9003]);
    assert_eq!(s.activities().len(), 1);

    remote.answers = vec![(9003, Answer::Nothing)];
    remote.honours_since = true;
    // Discovery finds 9002 and 9003 again, which are queued already: the
    // page is dropped, and the passes go on with the queue as it is.
    assert_eq!(remote.run(&mut s), Ok(SyncResult { total_available: 2, total_synced: 1 }));
    assert_eq!(s.queued_activity_ids(1), vec![9003]);
    assert_eq!(s.activities().len(), 2);
}

#[test]
fn a_dropped_page_is_noted_with_its_error_and_the_run_goes_on() {
    let mut remote = Remote::new(&[("c1", CharacterClass::Titan)]);
    remote.played("c1", 9001, &[32]);
    remote.played("c1", 9002, &[5]);
    remote.answers = vec![(9001, Answer::Failure)];
    let mut s = store();
    assert_eq!(remote.run(&mut s), Ok(SyncResult { total_available: 2, total_synced: 1 }));
    assert_eq!(s.queued_activity_ids(1), vec![9001]);

    // The private page brings 9001 again, which is queued already.
    let mut session = SyncSession::new("m1", &Platform::from_id(3));
    assert!(session.dropped_pages().is_empty());
    assert!(matches!(s.sync(&mut session, SyncEvent::Start), SyncAction::FetchProfile));
    assert!(matches!(
        s.sync(&mut session, SyncEvent::Profile(remote.profile())),
        SyncAction::FetchActivities { .. }
    ));
    let next = s.sync(&mut session, SyncEvent::Activities(remote.history("c1", 32, 0)));
    assert!(matches!(next, SyncAction::FetchDetails { .. }));
    assert_eq!(
        session.dropped_pages(),
        &vec![DroppedPage { character_row_id: 1, scope: Scope::PrivateOnly, error: Error::Constraint }]
    );
    assert_eq!(s.queued_activity_ids(1), vec![9001]);
    let next = s.sync(&mut session, SyncEvent::Details(vec![DetailFetch::Failed]));
    assert!(matches!(next, SyncAction::FetchActivities { .. }));
    let next = s.sync(&mut session, SyncEvent::Activities(None));
    assert!(matches!(next, SyncAction::FetchDetails { .. }));
    assert_eq!(session.dropped_pages().len(), 1);
    let next = s.sync(&mut session, SyncEvent::Details(vec![DetailFetch::Empty]));
    assert!(matches!(next, SyncAction::Finished(SyncResult { total_available: 2, total_synced: 0 })));
    assert!(session.failed_records().is_empty());
}

#[test]
fn a_run_keeps_the_records_it_could_not_store() {
    let mut remote = Remote::new(&[("c1", CharacterClass::Titan)]);
    remote.played("c1", 9001, &[32]);
    remote.answers = vec![(9001, Answer::Unstorable)];
    let mut s = store();
    let mut session = SyncSession::new("m1", &Platform::from_id(3));
    assert!(matches!(s.sync(&mut session, SyncEvent::Start), SyncAction::FetchProfile));
    assert!(matches!(
        s.sync(&mut session, SyncEvent::Profile(remote.profile())),
        SyncAction::FetchActivities { .. }
    ));
    let next = s.sync(&mut session, SyncEvent::Activities(remote.history("c1", 32, 0)));
    assert!(matches!(next, SyncAction::FetchDetails { .. }));
    let next = s.sync(&mut session, SyncEvent::Details(vec![remote.record(9001)]));
    assert!(matches!(next, SyncAction::FetchActivities { .. }));
    assert_eq!(session.failed_records(), &vec![FailedRecord { instance_id: 9001, error: Error::Constraint }]);
    let next = s.sync(&mut session, SyncEvent::Activities(None));
    assert!(matches!(next, SyncAction::FetchDetails { .. }));
    let next = s.sync(&mut session, SyncEvent::Details(vec![remote.record(9001)]));
    assert!(matches!(next, SyncAction::Finished(SyncResult { total_available: 2, total_synced: 0 })));
    assert_eq!(session.failed_records().len(), 2);
    assert!(s.activities().is_empty());
    assert!(s.members().len() == 1);
}

#[test]
fn a_record_that_cannot_be_stored_stays_queued_and_siblings_are_stored() {
    let mut remote = Remote::new(&[("c1", CharacterClass::Titan)]);
    remote.played("c1", 9001, &[5]);
    remote.played("c1", 9002, &[5]);
    remote.played("c1", 9003, &[5]);
    remote.answers = vec![(9002, Answer::Unstorable)];
    let mut s = store();
    assert_eq!(remote.run(&mut s), Ok(SyncResult { total_available: 1, total_synced: 2 }));
    assert_eq!(s.queued_activity_ids(1), vec![9002]);
    assert_eq!(s.activities().len(), 2);
    assert_eq!(s.activities()[0].activity_id, 9001);
    assert_eq!(s.activities()[1].activity_id, 9003);
    assert_eq!(s.character_activity_stats().len(), 2);
}

#[test]
fn events_of_two_characters_are_synced_for_each() {
    let mut remote = Remote::new(&[("c1", CharacterClass::Titan), ("c2", CharacterClass::Warlock)]);
    remote.played("c1", 9001, &[5]);
    remote.played("c2", 9002, &[5]);
    remote.played("c2", 9003, &[32]);
    let mut s = store();
    assert_eq!(remote.run(&mut s), Ok(SyncResult { total_available: 0, total_synced: 3 }));
    assert_eq!(s.get_max_activity_id(1, &Mode::all_pvp()), 9001);
    assert_eq!(s.get_max_activity_id(2, &Mode::all_pvp()), 9002);
    assert_eq!(s.get_max_activity_id(2, &Mode::private_matches_all()), 9003);
}

#[test]
fn one_page_is_taken_per_scope_and_the_next_run_continues() {
    let mut remote = Remote::new(&[("c1", CharacterClass::Titan)]);
    remote.page_size = 2;
    for id in 1..=5 {
        remote.played("c1", 9000 + id, &[5]);
    }
    let mut s = store();
    // The newest two are taken; the since-id then stands at the newest, so
    // the older three are never asked for again.
    assert_eq!(remote.run(&mut s), Ok(SyncResult { total_available: 0, total_synced: 2 }));
    assert_eq!(s.activities()[0].activity_id, 9004);
    assert_eq!(s.activities()[1].activity_id, 9005);
    assert_eq!(remote.run(&mut s), Ok(SyncResult { total_available: 0, total_synced: 0 }));
}

#[test]
fn private_mode_artifacts_are_never_fetched() {
    let mut remote = Remote::new(&[("c1", CharacterClass::Titan)]);
    remote.played("c1", 9001, &[32]);
    remote.events[0].director_activity_hash = 2526740498;
    remote.played("c1", 9002, &[32]);
    remote.events[1].director_activity_hash = 248695599;
    let mut s = store();
    assert_eq!(remote.run(&mut s), Ok(SyncResult { total_available: 0, total_synced: 0 }));
    assert!(s.activities().is_empty());
    assert!(s.activity_queue().is_empty());
}

#[test]
fn an_answer_that_was_not_asked_for_changes_nothing() {
    let mut s = store();
    let mut session = SyncSession::new("m1", &Platform::from_id(3));
    assert!(matches!(session.stage(), SyncStage::Idle));
    assert!(matches!(
        s.sync(&mut session, SyncEvent::Activities(None)),
        SyncAction::Failed(Error::UnexpectedEvent)
    ));
    assert!(matches!(
        s.sync(&mut session, SyncEvent::Details(Vec::new())),
        SyncAction::Failed(Error::UnexpectedEvent)
    ));
    assert!(matches!(session.stage(), SyncStage::Idle));
    assert!(matches!(s.sync(&mut session, SyncEvent::Start), SyncAction::FetchProfile));
    assert!(matches!(session.stage(), SyncStage::AwaitingProfile));
    assert!(matches!(s.sync(&mut session, SyncEvent::Start), SyncAction::Failed(Error::UnexpectedEvent)));
    assert!(matches!(session.stage(), SyncStage::AwaitingProfile));
    assert!(s.members().is_empty());
}

#[test]
fn a_batch_must_be_answered_in_full() {
    let mut remote = Remote::new(&[("c1", CharacterClass::Titan)]);
    remote.played("c1", 9001, &[32]);
    remote.played("c1", 9002, &[32]);
    let mut s = store();
    let mut session = SyncSession::new("m1", &Platform::from_id(3));
    assert!(matches!(s.sync(&mut session, SyncEvent::Start), SyncAction::FetchProfile));
    assert!(matches!(
        s.sync(&mut session, SyncEvent::Profile(remote.profile())),
        SyncAction::FetchActivities { .. }
    ));
    let ids = match s.sync(&mut session, SyncEvent::Activities(remote.history("c1", 32, 0))) {
        SyncAction::FetchDetails { ids } => ids,
        _ => panic!("the run should ask for detailed records"),
    };
    assert_eq!(ids, vec![9001, 9002]);
    assert!(matches!(
        s.sync(&mut session, SyncEvent::Details(vec![remote.record(9001)])),
        SyncAction::Failed(Error::UnexpectedEvent)
    ));
    assert!(matches!(session.stage(), SyncStage::AwaitingDetails));
    assert!(s.activities().is_empty());
    let both = vec![remote.record(9001), remote.record(9002)];
    assert!(matches!(
        s.sync(&mut session, SyncEvent::Details(both)),
        SyncAction::FetchActivities { .. }
    ));
    assert_eq!(s.activities().len(), 2);
}

#[test]
fn responses_are_counted_one_by_one() {
    let remote = {
        let mut r = Remote::new(&[("c1", CharacterClass::Titan)]);
        r.played("c1", 9001, &[5]);
        r.played("c1", 9002, &[5]);
        r
    };
    let mut s = store();
    assert_eq!(s.insert_member_id("m1", &Platform::from_id(3), "Ana"), Ok(1));
    assert_eq!(s.insert_character_id("c1", &CharacterClass::Titan, 1), Ok(1));
    assert!(s._update_activity_queue(1, &remote.history("c1", 5, 0)).is_ok());
    let batch = vec![remote.record(9001), DetailFetch::Failed, DetailFetch::Empty, remote.record(9002)];
    let done = s.sync_activities(1, &batch);
    assert_eq!(done.synced, 2);
    assert!(done.failed.is_empty());
    assert!(s.activity_queue().is_empty());
    // A record that is stored already counts as synced again and changes nothing.
    assert_eq!(s.sync_activities(1, &vec![remote.record(9001)]).synced, 1);
    assert_eq!(s.activities().len(), 2);
    assert_eq!(s.sync_activities(1, &Vec::new()).synced, 0);
}

#[test]
fn records_that_cannot_be_stored_are_noted_with_their_errors() {
    let mut remote = Remote::new(&[("c1", CharacterClass::Titan)]);
    remote.played("c1", 9001, &[5]);
    remote.played("c1", 9002, &[5]);
    remote.played("c1", 9003, &[5]);
    remote.answers = vec![(9001, Answer::Unstorable), (9003, Answer::Unstorable)];
    let mut s = store();
    assert_eq!(s.insert_member_id("m1", &Platform::from_id(3), "Ana"), Ok(1));
    assert_eq!(s.insert_character_id("c1", &CharacterClass::Titan, 1), Ok(1));
    let batch = vec![remote.record(9001), remote.record(9002), DetailFetch::Failed, remote.record(9003)];
    let done = s.sync_activities(1, &batch);
    assert_eq!(done.synced, 1);
    assert_eq!(
        done.failed,
        vec![
            FailedRecord { instance_id: 9001, error: Error::Constraint },
            FailedRecord { instance_id: 9003, error: Error::Constraint },
        ]
    );
    assert_eq!(s.activities().len(), 1);

    let mut again = store();
    assert_eq!(remote.run(&mut again), Ok(SyncResult { total_available: 2, total_synced: 1 }));
    assert_eq!(again.queued_activity_ids(1), vec![9001, 9003]);
}
