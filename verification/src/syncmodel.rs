//! A sync run as a mathematical value, and what each answer of the remote
//! service makes of the run and of the store.
//!
//! A run takes the roster entries of an account one after another. For each
//! entry it works through the two visibility scopes, private matches first:
//! it asks for the history that is newer than what the store holds in the
//! scope and queues it, then drains the entry's queue batch by batch.

use crate::activitystoreinterface::SyncResult;
use crate::enums::{MODE_ALL_PVP, MODE_PRIVATE_MATCHES_ALL};
use crate::error::Error;
use crate::response::activities::PageItem;
use crate::response::pgcr::{DetailView, FailedRecord};
use crate::storemodel::StoreState;
use vstd::prelude::*;

verus! {

/// One of the two partitions of the modes that a run discovers in.
#[derive(Clone, Copy, Debug, PartialEq, Eq, Structural)]
pub enum Scope {
    PrivateOnly,
    PublicAll,
}

impl Scope {
    /// The mode that stands for the scope.
    pub open spec fn spec_mode(self) -> u32 {
        match self {
            Scope::PrivateOnly => MODE_PRIVATE_MATCHES_ALL,
            Scope::PublicAll => MODE_ALL_PVP,
        }
    }
}

/// What a run is waiting for.
#[derive(Clone, Copy, Debug, PartialEq, Eq, Structural)]
pub enum SyncStage {
    Idle,
    AwaitingProfile,
    AwaitingActivities,
    AwaitingDetails,
    Done,
}

/// How many detailed records a run asks for at a time.
pub open spec fn batch_size() -> nat {
    24
}

/// A roster entry as the profile lists it.
pub struct RosterEntryView {
    pub id: Seq<char>,
    pub class: u32,
}

/// What a run asks the remote service for, or how it ended.
pub enum ActionView {
    FetchProfile,
    FetchActivities { character_id: Seq<char>, mode: u32, since_id: i64 },
    FetchDetails { ids: Seq<i64> },
    Finished(SyncResult),
    Failed(Error),
}

/// What the remote service answered.
pub enum EventView {
    Start,
    Profile { display_name: Seq<char>, roster: Seq<RosterEntryView> },
    Activities(Option<Seq<PageItem>>),
    Details(Seq<DetailView>),
}

/// A page of history that a run could not queue: whose it was, in which
/// scope, and why it was dropped.
#[derive(Clone, Copy, Debug, PartialEq, Eq, Structural)]
pub struct DroppedPage {
    pub character_row_id: i32,
    pub scope: Scope,
    pub error: Error,
}

/// The state of a run.
#[verifier::ext_equal]
pub struct SessionState {
    pub member_id: Seq<char>,
    pub platform: u32,
    pub stage: SyncStage,
    pub roster: Seq<RosterEntryView>,
    pub member_row_id: i32,
    /// Position in the roster of the entry in work.
    pub character: nat,
    pub character_row_id: i32,
    pub scope: Scope,
    /// The queue of the entry in work as the pass in progress found it.
    pub pending: Seq<i64>,
    /// How many of the pending matches have been asked for.
    pub cursor: nat,
    /// How many matches the batch in flight asks for.
    pub batch: nat,
    /// How many records the pass in progress has stored.
    pub pass_synced: nat,
    pub total_synced: nat,
    pub total_queued: nat,
    /// The pages that the run has dropped, in the order it dropped them.
    pub dropped: Seq<DroppedPage>,
    /// The detailed records that the run could not store, in the order it
    /// took them.
    pub failed: Seq<FailedRecord>,
}

/// A store, a run and an action: what a step leads to.
pub struct Step {
    pub store: StoreState,
    pub session: SessionState,
    pub action: ActionView,
}

impl SessionState {
    /// The run that has not started yet.
    pub open spec fn initial(member_id: Seq<char>, platform: u32) -> SessionState {
        SessionState {
            member_id,
            platform,
            stage: SyncStage::Idle,
            roster: Seq::empty(),
            member_row_id: 0,
            character: 0,
            character_row_id: 0,
            scope: Scope::PrivateOnly,
            pending: Seq::empty(),
            cursor: 0,
            batch: 0,
            pass_synced: 0,
            total_synced: 0,
            total_queued: 0,
            dropped: Seq::empty(),
            failed: Seq::empty(),
        }
    }

    /// The bounds that the counters of a run keep to.
    pub open spec fn bounded(self) -> bool {
        &&& self.cursor <= self.pending.len()
        &&& self.pass_synced + self.batch <= self.cursor
        &&& self.batch <= batch_size()
        &&& self.total_synced <= u32::MAX
        &&& self.total_queued <= u32::MAX
    }

    /// The counters of the run keep to their bounds, and a run that waits
    /// for history or for detailed records has a roster entry in work.
    pub open spec fn wf(self) -> bool {
        &&& self.bounded()
        &&& (self.stage == SyncStage::AwaitingActivities || self.stage
            == SyncStage::AwaitingDetails) ==> self.character < self.roster.len()
    }

    /// Where the batch that starts at the cursor ends.
    pub open spec fn batch_end(self) -> nat {
        if self.cursor + batch_size() <= self.pending.len() {
            self.cursor + batch_size()
        } else {
            self.pending.len()
        }
    }

    /// The run ends.
    pub open spec fn finish(self, store: StoreState, action: ActionView) -> Step {
        Step { store, session: SessionState { stage: SyncStage::Done, ..self }, action }
    }

    /// Discovery in the scope at hand: the run asks for the history of the
    /// entry in work that is newer than what the store holds of it.
    pub open spec fn discover(self, store: StoreState) -> Step {
        Step {
            store,
            session: SessionState { stage: SyncStage::AwaitingActivities, ..self },
            action: ActionView::FetchActivities {
                character_id: self.roster[self.character as int].id,
                mode: self.scope.spec_mode(),
                since_id: store.max_activity_id(self.character_row_id, self.scope.spec_mode()),
            },
        }
    }

    /// The run turns to the roster entry at `self.character`: it records
    /// the entry and discovers in the first scope. After the last entry the
    /// run ends with its totals. An entry that cannot be recorded ends the
    /// run.
    pub open spec fn enter_character(self, store: StoreState) -> Step {
        if self.character >= self.roster.len() {
            self.finish(
                store,
                ActionView::Finished(
                    SyncResult {
                        total_available: self.total_queued as u32,
                        total_synced: self.total_synced as u32,
                    },
                ),
            )
        } else {
            let entry = self.roster[self.character as int];
            match store.insert_character(entry.id, entry.class, self.member_row_id) {
                Err(e) => self.finish(store, ActionView::Failed(e)),
                Ok((after, row)) => SessionState {
                    character_row_id: row,
                    scope: Scope::PrivateOnly,
                    ..self
                }.discover(after),
            }
        }
    }

    /// The pass goes on: the run asks for the next batch of pending
    /// matches. A pass with nothing left adds what it stored and what it
    /// left on the queue to the totals of the run, which then turns to the
    /// second scope or to the next roster entry.
    pub open spec fn next_batch(self, store: StoreState) -> Step {
        if self.cursor < self.pending.len() {
            let end = self.batch_end();
            Step {
                store,
                session: SessionState {
                    stage: SyncStage::AwaitingDetails,
                    cursor: end,
                    batch: (end - self.cursor) as nat,
                    ..self
                },
                action: ActionView::FetchDetails {
                    ids: self.pending.subrange(self.cursor as int, end as int),
                },
            }
        } else {
            let synced = self.total_synced + self.pass_synced;
            let queued = self.total_queued + (self.pending.len() - self.pass_synced);
            if synced > u32::MAX || queued > u32::MAX {
                self.finish(store, ActionView::Failed(Error::CounterOverflow))
            } else {
                let counted = SessionState {
                    total_synced: synced,
                    total_queued: queued as nat,
                    ..self
                };
                match self.scope {
                    Scope::PrivateOnly => SessionState {
                        scope: Scope::PublicAll,
                        ..counted
                    }.discover(store),
                    Scope::PublicAll => SessionState {
                        character: self.character + 1,
                        ..counted
                    }.enter_character(store),
                }
            }
        }
    }

    /// A pass begins: it takes the queue of the entry in work as it stands.
    pub open spec fn begin_drain(self, store: StoreState) -> Step {
        SessionState {
            pending: store.queued(self.character_row_id),
            cursor: 0,
            batch: 0,
            pass_synced: 0,
            ..self
        }.next_batch(store)
    }

    /// What an answer of the remote service makes of the run and the
    /// store, and what the run does next.
    ///
    /// A page of history is queued as one transaction; a page that cannot
    /// be queued is dropped and noted with its error, which ends discovery
    /// in that scope and not the run. The responses to a batch must be as
    /// many as the batch asked for; a record among them that cannot be
    /// stored is noted with its error, and the others are still taken. An
    /// answer that the run is not waiting for changes nothing.
    pub open spec fn step(self, store: StoreState, event: EventView) -> Step {
        match event {
            EventView::Start => if self.stage == SyncStage::Idle {
                Step {
                    store,
                    session: SessionState { stage: SyncStage::AwaitingProfile, ..self },
                    action: ActionView::FetchProfile,
                }
            } else {
                self.unexpected(store)
            },
            EventView::Profile { display_name, roster } => if self.stage
                == SyncStage::AwaitingProfile {
                match store.upsert_member(self.member_id, self.platform, display_name) {
                    Err(e) => self.finish(store, ActionView::Failed(e)),
                    Ok((after, member)) => SessionState {
                        roster,
                        member_row_id: member,
                        character: 0,
                        total_synced: 0,
                        total_queued: 0,
                        ..self
                    }.enter_character(after),
                }
            } else {
                self.unexpected(store)
            },
            EventView::Activities(page) => if self.stage == SyncStage::AwaitingActivities {
                SessionState {
                    dropped: self.dropped + dropped_page(
                        store,
                        self.character_row_id,
                        self.scope,
                        page,
                    ),
                    ..self
                }.begin_drain(queue_page(store, self.character_row_id, page))
            } else {
                self.unexpected(store)
            },
            EventView::Details(batch) => if self.stage == SyncStage::AwaitingDetails && batch.len()
                == self.batch {
                let recorded = store.record_details(self.character_row_id, batch, batch.len());
                SessionState {
                    pass_synced: self.pass_synced + recorded.1,
                    batch: 0,
                    failed: self.failed + store.record_failures(
                        self.character_row_id,
                        batch,
                        batch.len(),
                    ),
                    ..self
                }.next_batch(recorded.0)
            } else {
                self.unexpected(store)
            },
        }
    }

    /// The answer is not one that the run is waiting for.
    pub open spec fn unexpected(self, store: StoreState) -> Step {
        Step { store, session: self, action: ActionView::Failed(Error::UnexpectedEvent) }
    }
}

/// The store after discovery has taken a page of history: with the page
/// queued, or as it was where there is no page or the page cannot be
/// queued.
pub open spec fn queue_page(store: StoreState, character: i32, page: Option<Seq<PageItem>>)
    -> StoreState {
    match page {
        None => store,
        Some(items) => match store.enqueue_page(character, items) {
            Ok((after, _)) => after,
            Err(_) => store,
        },
    }
}

/// What a run notes of a page of history: nothing of a page that was
/// queued or that never came, and of a page that cannot be queued the
/// error that it failed with.
pub open spec fn dropped_page(
    store: StoreState,
    character: i32,
    scope: Scope,
    page: Option<Seq<PageItem>>,
) -> Seq<DroppedPage> {
    match page {
        None => Seq::empty(),
        Some(items) => match store.enqueue_page(character, items) {
            Ok(_) => Seq::empty(),
            Err(e) => seq![DroppedPage { character_row_id: character, scope, error: e }],
        },
    }
}

} // verus!
