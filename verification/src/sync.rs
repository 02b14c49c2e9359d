//! The sync engine: a run that is driven by the answers of the remote
//! service. The caller performs what the run asks for and hands back what
//! came of it; every decision is taken here.

use crate::activitystoreinterface::{ActivityStoreInterface, SyncResult, PGCR_REQUEST_CHUNK_AMOUNT};
use crate::enums::{Mode, Platform};
use crate::error::Error;
use crate::response::activities::{page_items, Activity};
use crate::response::character::{roster_views, CharacterData, PlayerInfo};
use crate::response::pgcr::{detail_views, DetailFetch, FailedRecord};
use crate::storelaws::lemma_record_details;
use crate::syncmodel::{
    dropped_page, ActionView, DroppedPage, EventView, Scope, SessionState, SyncStage,
};
use vstd::prelude::*;

verus! {

/// What the remote service answered.
#[derive(Debug)]
pub enum SyncEvent {
    /// Nothing yet: the run is to begin.
    Start,
    /// The account's profile.
    Profile(PlayerInfo),
    /// One page of history, newest first; none where the service had no
    /// data or the request failed.
    Activities(Option<Vec<Activity>>),
    /// What came back for the matches of a batch, one response for each
    /// match asked for.
    Details(Vec<DetailFetch>),
}

/// What a run asks the remote service for, or how it ended.
#[derive(Debug)]
pub enum SyncAction {
    /// Fetch the account's profile.
    FetchProfile,
    /// Fetch one page of a character's history in a mode, newer than a
    /// match.
    FetchActivities { character_id: String, mode: Mode, since_id: i64 },
    /// Fetch the detailed records of these matches, all at once.
    FetchDetails { ids: Vec<i64> },
    /// The run is over: how many records it stored, and how many matches
    /// its passes left queued.
    Finished(SyncResult),
    /// The run cannot go on, or the answer was not one it was waiting for.
    Failed(Error),
}

impl View for SyncEvent {
    type V = EventView;

    open spec fn view(&self) -> EventView {
        match self {
            SyncEvent::Start => EventView::Start,
            SyncEvent::Profile(info) => EventView::Profile {
                display_name: info.user_info.display_name@,
                roster: roster_views(info.characters.characters@),
            },
            SyncEvent::Activities(page) => EventView::Activities(
                match page {
                    Some(entries) => Some(page_items(entries@)),
                    None => None,
                },
            ),
            SyncEvent::Details(batch) => EventView::Details(detail_views(batch@)),
        }
    }
}

impl View for SyncAction {
    type V = ActionView;

    open spec fn view(&self) -> ActionView {
        match self {
            SyncAction::FetchProfile => ActionView::FetchProfile,
            SyncAction::FetchActivities { character_id, mode, since_id } => {
                ActionView::FetchActivities {
                    character_id: character_id@,
                    mode: mode.id,
                    since_id: *since_id,
                }
            },
            SyncAction::FetchDetails { ids } => ActionView::FetchDetails { ids: ids@ },
            SyncAction::Finished(result) => ActionView::Finished(*result),
            SyncAction::Failed(e) => ActionView::Failed(*e),
        }
    }
}

impl Scope {
    pub fn mode(&self) -> (mode: Mode)
        ensures
            mode.id == self.spec_mode(),
    {
        match self {
            Scope::PrivateOnly => Mode::private_matches_all(),
            Scope::PublicAll => Mode::all_pvp(),
        }
    }
}

/// A sync run for one account.
pub struct SyncSession {
    member_id: String,
    platform: Platform,
    stage: SyncStage,
    roster: Vec<CharacterData>,
    member_row_id: i32,
    character: usize,
    character_row_id: i32,
    scope: Scope,
    pending: Vec<i64>,
    cursor: usize,
    batch: usize,
    pass_synced: usize,
    total_synced: u32,
    total_queued: u32,
    dropped: Vec<DroppedPage>,
    failed: Vec<FailedRecord>,
}

impl View for SyncSession {
    type V = SessionState;

    closed spec fn view(&self) -> SessionState {
        SessionState {
            member_id: self.member_id@,
            platform: self.platform.id,
            stage: self.stage,
            roster: roster_views(self.roster@),
            member_row_id: self.member_row_id,
            character: self.character as nat,
            character_row_id: self.character_row_id,
            scope: self.scope,
            pending: self.pending@,
            cursor: self.cursor as nat,
            batch: self.batch as nat,
            pass_synced: self.pass_synced as nat,
            total_synced: self.total_synced as nat,
            total_queued: self.total_queued as nat,
            dropped: self.dropped@,
            failed: self.failed@,
        }
    }
}

impl SyncSession {
    /// The counters of the run keep to their bounds.
    pub open spec fn wf(&self) -> bool {
        self@.wf()
    }

    /// A run for an account, not started yet.
    pub fn new(member_id: &str, platform: &Platform) -> (session: SyncSession)
        ensures
            session.wf(),
            session@ == SessionState::initial(member_id@, platform.id),
    {
        let session = SyncSession {
            member_id: member_id.to_owned(),
            platform: *platform,
            stage: SyncStage::Idle,
            roster: Vec::new(),
            member_row_id: 0,
            character: 0,
            character_row_id: 0,
            scope: Scope::PrivateOnly,
            pending: Vec::new(),
            cursor: 0,
            batch: 0,
            pass_synced: 0,
            total_synced: 0,
            total_queued: 0,
            dropped: Vec::new(),
            failed: Vec::new(),
        };
        assert(session@ =~= SessionState::initial(member_id@, platform.id));
        session
    }

    /// Whether the counters of the run keep to their bounds. Every run that
    /// this library hands out does, and stays so under every step; the
    /// test is for callers that cannot take this on trust.
    pub fn obeys_bounds(&self) -> (ok: bool)
        ensures
            ok == self.wf(),
    {
        let waiting = match self.stage {
            SyncStage::AwaitingActivities => true,
            SyncStage::AwaitingDetails => true,
            _ => false,
        };
        self.cursor <= self.pending.len() && self.pass_synced <= self.cursor && self.batch
            <= self.cursor - self.pass_synced && self.batch <= PGCR_REQUEST_CHUNK_AMOUNT && (
        !waiting || self.character < self.roster.len())
    }

    /// What the run is waiting for.
    pub fn stage(&self) -> (stage: SyncStage)
        ensures
            stage == self@.stage,
    {
        self.stage
    }

    /// The pages of history that the run could not queue and has dropped,
    /// each with the error that it failed with, in the order they came.
    pub fn dropped_pages(&self) -> (dropped: &Vec<DroppedPage>)
        ensures
            dropped@ == self@.dropped,
    {
        &self.dropped
    }

    /// The detailed records that the run could not store, each with the
    /// error that it failed with, in the order they came.
    pub fn failed_records(&self) -> (failed: &Vec<FailedRecord>)
        ensures
            failed@ == self@.failed,
    {
        &self.failed
    }

    /// The run ends.
    fn finish(&mut self, action: SyncAction) -> (done: SyncAction)
        requires
            old(self)@.bounded(),
        ensures
            final(self).wf(),
            final(self)@ == (SessionState { stage: SyncStage::Done, ..old(self)@ }),
            done == action,
    {
        self.stage = SyncStage::Done;
        assert(self@ =~= (SessionState { stage: SyncStage::Done, ..old(self)@ }));
        action
    }

    /// The matches of the batch that starts at the cursor.
    fn take_batch(&mut self) -> (ids: Vec<i64>)
        requires
            old(self).wf(),
            old(self)@.cursor < old(self)@.pending.len(),
            old(self)@.character < old(self)@.roster.len(),
        ensures
            final(self).wf(),
            final(self)@ == (SessionState {
                stage: SyncStage::AwaitingDetails,
                cursor: old(self)@.batch_end(),
                batch: (old(self)@.batch_end() - old(self)@.cursor) as nat,
                ..old(self)@
            }),
            ids@ == old(self)@.pending.subrange(
                old(self)@.cursor as int,
                old(self)@.batch_end() as int,
            ),
    {
        let start = self.cursor;
        let end = if self.pending.len() - start >= PGCR_REQUEST_CHUNK_AMOUNT {
            start + PGCR_REQUEST_CHUNK_AMOUNT
        } else {
            self.pending.len()
        };
        let mut ids: Vec<i64> = Vec::new();
        let mut i: usize = start;
        while i < end
            invariant
                start <= i <= end <= self.pending.len(),
                ids@ =~= self.pending@.subrange(start as int, i as int),
            decreases end - i,
        {
            ids.push(self.pending[i]);
            i = i + 1;
        }
        self.stage = SyncStage::AwaitingDetails;
        self.cursor = end;
        self.batch = end - start;
        assert(self@ =~= (SessionState {
            stage: SyncStage::AwaitingDetails,
            cursor: old(self)@.batch_end(),
            batch: (old(self)@.batch_end() - old(self)@.cursor) as nat,
            ..old(self)@
        }));
        ids
    }
}

impl ActivityStoreInterface {
    /// Discovery in the scope at hand.
    fn discover(&self, session: &mut SyncSession) -> (action: SyncAction)
        requires
            self.wf(),
            old(session)@.bounded(),
            old(session)@.character < old(session)@.roster.len(),
        ensures
            final(session).wf(),
            final(session)@ == old(session)@.discover(self@).session,
            action@ == old(session)@.discover(self@).action,
    {
        let mode = session.scope.mode();
        let since_id = self.get_max_activity_id(session.character_row_id, &mode);
        let character_id = session.roster[session.character].id.clone();
        session.stage = SyncStage::AwaitingActivities;
        assert(session@ =~= old(session)@.discover(self@).session);
        SyncAction::FetchActivities { character_id, mode, since_id }
    }

    /// The run turns to the roster entry at the session's position.
    fn enter_character(&mut self, session: &mut SyncSession) -> (action: SyncAction)
        requires
            old(self).wf(),
            old(session)@.bounded(),
        ensures
            final(self).wf(),
            final(session).wf(),
            final(self).storage_path() == old(self).storage_path(),
            final(self).is_verbose() == old(self).is_verbose(),
            final(self)@ == old(session)@.enter_character(old(self)@).store,
            final(session)@ == old(session)@.enter_character(old(self)@).session,
            action@ == old(session)@.enter_character(old(self)@).action,
    {
        if session.character >= session.roster.len() {
            let totals = SyncResult {
                total_available: session.total_queued,
                total_synced: session.total_synced,
            };
            return session.finish(SyncAction::Finished(totals));
        }
        let entry = &session.roster[session.character];
        assert(roster_views(session.roster@)[session.character as int] == entry@);
        match self.insert_character_id(entry.id.as_str(), &entry.class_type, session.member_row_id) {
            Err(e) => session.finish(SyncAction::Failed(e)),
            Ok(row) => {
                session.character_row_id = row;
                session.scope = Scope::PrivateOnly;
                assert(session@ =~= (SessionState {
                    character_row_id: row,
                    scope: Scope::PrivateOnly,
                    ..old(session)@
                }));
                self.discover(session)
            },
        }
    }

    /// The pass goes on, or is over.
    fn next_batch(&mut self, session: &mut SyncSession) -> (action: SyncAction)
        requires
            old(self).wf(),
            old(session).wf(),
            old(session)@.character < old(session)@.roster.len(),
        ensures
            final(self).wf(),
            final(session).wf(),
            final(self).storage_path() == old(self).storage_path(),
            final(self).is_verbose() == old(self).is_verbose(),
            final(self)@ == old(session)@.next_batch(old(self)@).store,
            final(session)@ == old(session)@.next_batch(old(self)@).session,
            action@ == old(session)@.next_batch(old(self)@).action,
    {
        if session.cursor < session.pending.len() {
            let ids = session.take_batch();
            return SyncAction::FetchDetails { ids };
        }
        let left: usize = session.pending.len() - session.pass_synced;
        if session.pass_synced > (u32::MAX - session.total_synced) as usize || left > (u32::MAX
            - session.total_queued) as usize {
            return session.finish(SyncAction::Failed(Error::CounterOverflow));
        }
        session.total_synced = session.total_synced + session.pass_synced as u32;
        session.total_queued = session.total_queued + left as u32;
        let ghost counted = SessionState {
            total_synced: old(session)@.total_synced + old(session)@.pass_synced,
            total_queued: (old(session)@.total_queued + (old(session)@.pending.len() - old(
                session,
            )@.pass_synced)) as nat,
            ..old(session)@
        };
        assert(session@ =~= counted);
        match session.scope {
            Scope::PrivateOnly => {
                session.scope = Scope::PublicAll;
                assert(session@ =~= (SessionState { scope: Scope::PublicAll, ..counted }));
                self.discover(session)
            },
            Scope::PublicAll => {
                assert(session.character < session.roster.len());
                session.character = session.character + 1;
                assert(session@ =~= (SessionState {
                    character: old(session)@.character + 1,
                    ..counted
                }));
                self.enter_character(session)
            },
        }
    }

    /// A pass begins.
    fn begin_drain(&mut self, session: &mut SyncSession) -> (action: SyncAction)
        requires
            old(self).wf(),
            old(session).wf(),
            old(session)@.character < old(session)@.roster.len(),
        ensures
            final(self).wf(),
            final(session).wf(),
            final(self).storage_path() == old(self).storage_path(),
            final(self).is_verbose() == old(self).is_verbose(),
            final(self)@ == old(session)@.begin_drain(old(self)@).store,
            final(session)@ == old(session)@.begin_drain(old(self)@).session,
            action@ == old(session)@.begin_drain(old(self)@).action,
    {
        session.pending = self.queued_activity_ids(session.character_row_id);
        session.cursor = 0;
        session.batch = 0;
        session.pass_synced = 0;
        assert(session@ =~= (SessionState {
            pending: self@.queued(old(session)@.character_row_id),
            cursor: 0,
            batch: 0,
            pass_synced: 0,
            ..old(session)@
        }));
        self.next_batch(session)
    }

    /// Takes a sync run one step on: stores what the remote service
    /// answered and says what the run asks for next, or how it ended.
    ///
    /// A run begins with `Start` and goes on until it has `Finished` or
    /// `Failed`. It records the account, then takes the roster entries in
    /// order. For each entry and each of the two scopes, private matches
    /// first, it discovers (asks for the history newer than the newest
    /// match that the store holds for the entry in the scope, and queues
    /// the page it gets) and then drains the entry's queue in batches. A
    /// page that cannot be queued is dropped and the run goes on. The
    /// totals are the records stored and the matches left queued, summed
    /// over all passes.
    pub fn sync(&mut self, session: &mut SyncSession, event: SyncEvent) -> (action: SyncAction)
        requires
            old(self).wf(),
            old(session).wf(),
        ensures
            final(self).wf(),
            final(session).wf(),
            final(self).storage_path() == old(self).storage_path(),
            final(self).is_verbose() == old(self).is_verbose(),
            final(self)@ == old(session)@.step(old(self)@, event@).store,
            final(session)@ == old(session)@.step(old(self)@, event@).session,
            action@ == old(session)@.step(old(self)@, event@).action,
    {
        match event {
            SyncEvent::Start => {
                match session.stage {
                    SyncStage::Idle => {
                        session.stage = SyncStage::AwaitingProfile;
                        assert(session@ =~= (SessionState {
                            stage: SyncStage::AwaitingProfile,
                            ..old(session)@
                        }));
                        SyncAction::FetchProfile
                    },
                    _ => SyncAction::Failed(Error::UnexpectedEvent),
                }
            },
            SyncEvent::Profile(info) => {
                match session.stage {
                    SyncStage::AwaitingProfile => {
                        match self.insert_member_id(
                            session.member_id.as_str(),
                            &session.platform,
                            info.user_info.display_name.as_str(),
                        ) {
                            Err(e) => session.finish(SyncAction::Failed(e)),
                            Ok(member) => {
                                session.roster = info.characters.characters;
                                session.member_row_id = member;
                                session.character = 0;
                                session.total_synced = 0;
                                session.total_queued = 0;
                                assert(session@ =~= (SessionState {
                                    roster: roster_views(info.characters.characters@),
                                    member_row_id: member,
                                    character: 0,
                                    total_synced: 0,
                                    total_queued: 0,
                                    ..old(session)@
                                }));
                                self.enter_character(session)
                            },
                        }
                    },
                    _ => SyncAction::Failed(Error::UnexpectedEvent),
                }
            },
            SyncEvent::Activities(page) => {
                match session.stage {
                    SyncStage::AwaitingActivities => {
                        match self._update_activity_queue(session.character_row_id, &page) {
                            Ok(_) => {},
                            Err(e) => {
                                session.dropped.push(
                                    DroppedPage {
                                        character_row_id: session.character_row_id,
                                        scope: session.scope,
                                        error: e,
                                    },
                                );
                            },
                        }
                        assert(session@ =~= (SessionState {
                            dropped: old(session)@.dropped + dropped_page(
                                old(self)@,
                                old(session)@.character_row_id,
                                old(session)@.scope,
                                event@->Activities_0,
                            ),
                            ..old(session)@
                        }));
                        self.begin_drain(session)
                    },
                    _ => SyncAction::Failed(Error::UnexpectedEvent),
                }
            },
            SyncEvent::Details(batch) => {
                match session.stage {
                    SyncStage::AwaitingDetails => {
                        if batch.len() != session.batch {
                            return SyncAction::Failed(Error::UnexpectedEvent);
                        }
                        proof {
                            lemma_record_details(
                                self@,
                                session@.character_row_id,
                                detail_views(batch@),
                                batch@.len(),
                            );
                        }
                        let mut done = self.sync_activities(session.character_row_id, &batch);
                        session.pass_synced = session.pass_synced + done.synced;
                        session.batch = 0;
                        let ghost noted = done.failed@;
                        session.failed.append(&mut done.failed);
                        assert(session@ =~= (SessionState {
                            pass_synced: old(session)@.pass_synced + done.synced as nat,
                            batch: 0,
                            failed: old(session)@.failed + noted,
                            ..old(session)@
                        }));
                        self.next_batch(session)
                    },
                    _ => SyncAction::Failed(Error::UnexpectedEvent),
                }
            },
        }
    }
}

} // verus!
