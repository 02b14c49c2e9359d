//! What holds of syncing whatever the remote service answers: a record is
//! stored once, discovery never steps back, and the mode filter keeps
//! private matches out of public discovery.

use crate::enums::{is_private_mode, MODE_ALL_PVP, MODE_PRIVATE_MATCHES_ALL};
use crate::error::Error;
use crate::response::pgcr::{DetailView, EntryView, ReportView};
use crate::storelaws::{
    lemma_enqueue_items, lemma_history_kept_transitive, lemma_insert_activity,
    lemma_insert_character, lemma_insert_entries, lemma_insert_entry, lemma_insert_stats,
    lemma_record_details, lemma_upsert_member, lemma_with_activity,
};
use crate::storemodel::{
    id_in, lemma_activity_index, lemma_character_index, ModeRow, QueueRow, StoreState,
};
use crate::syncmodel::{dropped_page, queue_page, EventView, Scope, SessionState, SyncStage};
use vstd::prelude::*;

verus! {

/// Storing the same detailed record twice stores its match once: after the
/// first attempt has succeeded, exactly one row carries the match's remote
/// identifier, and the second attempt succeeds and leaves the store as the
/// first one left it.
pub proof fn lemma_insert_activity_idempotent(store: StoreState, report: ReportView)
    requires
        store.wf(),
    ensures
        match store.insert_activity(report) {
            Ok(once) => {
                &&& once.insert_activity(report) == Ok::<StoreState, Error>(once)
                &&& once.has_activity(report.instance_id)
                &&& forall|i: int|
                    0 <= i < once.activities.len() && (#[trigger] once.activities[i]).activity_id
                        == report.instance_id ==> i == once.activity_index(report.instance_id)
            },
            Err(_) => true,
        },
{
    lemma_insert_activity(store, report);
    match store.insert_activity(report) {
        Ok(once) => {
            assert forall|i: int|
                0 <= i < once.activities.len() && (#[trigger] once.activities[i]).activity_id
                    == report.instance_id implies i == once.activity_index(
                report.instance_id,
            ) by {
                lemma_activity_index(once, report.instance_id, i);
            }
        },
        Err(_) => {},
    }
}

/// A match that a store holds carries the same mode tags in every store
/// that keeps its history.
pub proof fn lemma_mode_tags_kept(before: StoreState, after: StoreState, activity: i32, mode: u32)
    requires
        before.history_kept_by(after),
        id_in(activity, before.activities.len()),
    ensures
        before.has_mode_tag(activity, mode) == after.has_mode_tag(activity, mode),
        before.matches_mode(activity, mode) == after.matches_mode(activity, mode),
{
    lemma_mode_tag_kept(before, after, activity, mode);
    lemma_mode_tag_kept(before, after, activity, MODE_PRIVATE_MATCHES_ALL);
}

proof fn lemma_mode_tag_kept(before: StoreState, after: StoreState, activity: i32, mode: u32)
    requires
        before.history_kept_by(after),
        id_in(activity, before.activities.len()),
    ensures
        before.has_mode_tag(activity, mode) == after.has_mode_tag(activity, mode),
{
    let tag = ModeRow { mode, activity };
    if before.has_mode_tag(activity, mode) {
        let i = choose|i: int| 0 <= i < before.modes.len() && #[trigger] before.modes[i] == tag;
        assert(after.modes[i] == tag);
    }
    if after.has_mode_tag(activity, mode) {
        let j = choose|j: int| 0 <= j < after.modes.len() && #[trigger] after.modes[j] == tag;
        if j < before.modes.len() {
            assert(before.modes[j] == tag);
        } else {
            assert(after.modes[j].activity > before.activities.len());
        }
    }
}

/// Whether one optional maximum is at most another, none being least.
pub open spec fn at_most(lower: Option<i64>, upper: Option<i64>) -> bool {
    match lower {
        None => true,
        Some(l) => match upper {
            None => false,
            Some(u) => l <= u,
        },
    }
}

/// The largest known identifier among more outcome rows of a later store
/// is no smaller than that among fewer rows of an earlier one.
proof fn lemma_max_activity_among_monotonic(
    before: StoreState,
    after: StoreState,
    character: i32,
    mode: u32,
    fewer: nat,
    more: nat,
)
    requires
        before.wf(),
        before.history_kept_by(after),
        fewer <= before.stats.len(),
        fewer <= more <= after.stats.len(),
    ensures
        at_most(
            before.max_activity_among(character, mode, fewer),
            after.max_activity_among(character, mode, more),
        ),
    decreases more,
{
    if more == 0 {
    } else if fewer == more {
        lemma_max_activity_among_monotonic(
            before,
            after,
            character,
            mode,
            (fewer - 1) as nat,
            (more - 1) as nat,
        );
        let row = fewer - 1;
        assert(before.stats[row] == after.stats[row]);
        assert(id_in(before.stats[row].activity, before.activities.len()));
        lemma_mode_tags_kept(before, after, before.stats[row].activity, mode);
        assert(before.activities[before.stats[row].activity - 1]
            == after.activities[before.stats[row].activity - 1]);
    } else {
        lemma_max_activity_among_monotonic(
            before,
            after,
            character,
            mode,
            fewer,
            (more - 1) as nat,
        );
    }
}

/// Discovery never steps back: for a character and a mode, the remote
/// identifier from which discovery continues is no smaller in a later
/// store than in an earlier one whose history the later one keeps, as
/// every store does that syncing makes of another. The one case left out
/// is that of a store that knew no match for the character and the mode
/// and then learns of none but matches with negative identifiers.
pub proof fn lemma_max_activity_id_monotonic(
    before: StoreState,
    after: StoreState,
    character: i32,
    mode: u32,
)
    requires
        before.wf(),
        before.history_kept_by(after),
        !before.knows_event(character, mode) ==> after.max_activity_id(character, mode) >= 0,
    ensures
        before.max_activity_id(character, mode) <= after.max_activity_id(character, mode),
{
    lemma_max_activity_among_monotonic(
        before,
        after,
        character,
        mode,
        before.stats.len(),
        after.stats.len(),
    );
    lemma_max_activity_id_is_max(before, character, mode);
}

/// The largest known identifier among the first outcome rows is that of one
/// of the known events among them, and no known event among them has a
/// larger one; there is none exactly where none of those rows is a known
/// event.
proof fn lemma_max_activity_among_is_max(
    store: StoreState,
    character: i32,
    mode: u32,
    count: nat,
)
    requires
        count <= store.stats.len(),
    ensures
        match store.max_activity_among(character, mode, count) {
            Some(id) => {
                &&& exists|row: int|
                    0 <= row < count && store.is_known_event(row, character, mode)
                        && store.activities[store.stats[row].activity - 1].activity_id == id
                &&& forall|row: int|
                    0 <= row < count && store.is_known_event(row, character, mode)
                        ==> store.activities[store.stats[row].activity - 1].activity_id <= id
            },
            None => forall|row: int|
                0 <= row < count ==> !store.is_known_event(row, character, mode),
        },
    decreases count,
{
    if count > 0 {
        lemma_max_activity_among_is_max(store, character, mode, (count - 1) as nat);
        let last = count - 1;
        let before = store.max_activity_among(character, mode, (count - 1) as nat);
        if store.is_known_event(last, character, mode) {
            let id = store.max_activity_among(character, mode, count)->Some_0;
            let value = store.activities[store.stats[last].activity - 1].activity_id;
            if id == value {
                assert(0 <= last < count && store.is_known_event(last, character, mode)
                    && store.activities[store.stats[last].activity - 1].activity_id == id);
            } else {
                let row = choose|row: int|
                    0 <= row < count - 1 && store.is_known_event(row, character, mode)
                        && store.activities[store.stats[row].activity - 1].activity_id == id;
                assert(0 <= row < count && store.is_known_event(row, character, mode)
                    && store.activities[store.stats[row].activity - 1].activity_id == id);
            }
        } else {
            match before {
                Some(id) => {
                    let row = choose|row: int|
                        0 <= row < count - 1 && store.is_known_event(row, character, mode)
                            && store.activities[store.stats[row].activity - 1].activity_id == id;
                    assert(0 <= row < count && store.is_known_event(row, character, mode)
                        && store.activities[store.stats[row].activity - 1].activity_id == id);
                },
                None => {},
            }
        }
    }
}

/// The remote identifier from which discovery continues is the largest one
/// among the matches that the character played and that pass the mode
/// filter, and zero where the store knows no such match.
pub proof fn lemma_max_activity_id_is_max(store: StoreState, character: i32, mode: u32)
    ensures
        store.knows_event(character, mode) ==> {
            &&& exists|row: int|
                0 <= row < store.stats.len() && store.is_known_event(row, character, mode)
                    && store.activities[store.stats[row].activity - 1].activity_id
                    == store.max_activity_id(character, mode)
            &&& forall|row: int|
                0 <= row < store.stats.len() && store.is_known_event(row, character, mode)
                    ==> store.activities[store.stats[row].activity - 1].activity_id
                    <= store.max_activity_id(character, mode)
        },
        !store.knows_event(character, mode) ==> store.max_activity_id(character, mode) == 0,
        store.knows_event(character, mode) <==> store.max_activity_among(
            character,
            mode,
            store.stats.len(),
        ) is Some,
{
    lemma_max_activity_among_is_max(store, character, mode, store.stats.len());
}

/// The mode filter keeps the two visibility scopes apart: a match tagged
/// as a private match never passes for a public mode, the mode of all
/// public matches among them, and for a private mode the tag alone
/// decides.
pub proof fn lemma_mode_filter_scopes(store: StoreState, activity: i32, mode: u32)
    ensures
        !is_private_mode(MODE_ALL_PVP),
        is_private_mode(MODE_PRIVATE_MATCHES_ALL),
        !is_private_mode(mode) && store.has_mode_tag(activity, MODE_PRIVATE_MATCHES_ALL)
            ==> !store.matches_mode(activity, mode),
        is_private_mode(mode) ==> store.matches_mode(activity, mode) == store.has_mode_tag(
            activity,
            mode,
        ),
{
}

/// A character keeps its row identifier: a character that a store holds is
/// found at the same place in every store that keeps the history of that
/// one. So the identifier under which a run discovers for a roster entry is
/// the same from one run to the next.
pub proof fn lemma_character_keeps_row_id(
    before: StoreState,
    after: StoreState,
    character_id: Seq<char>,
)
    requires
        before.history_kept_by(after),
        after.characters_wf(),
        before.has_character(character_id),
    ensures
        after.has_character(character_id),
        after.character_index(character_id) == before.character_index(character_id),
{
    let i = before.character_index(character_id);
    assert(0 <= i < before.characters.len() && before.characters[i].character_id == character_id);
    assert(after.characters[i] == before.characters[i]);
    lemma_character_index(after, character_id, i);
}

/// Participants that were recorded one after another each have their
/// outcome of the match.
proof fn lemma_entries_have_outcomes(
    store: StoreState,
    entries: Seq<EntryView>,
    activity: i32,
    count: nat,
    k: int,
)
    requires
        store.wf(),
        0 <= k < count,
        store.insert_entries(entries, activity, count) is Ok,
    ensures
        ({
            let after = store.insert_entries(entries, activity, count)->Ok_0;
            &&& after.has_character(entries[k].character_id)
            &&& after.has_stats(
                (after.character_index(entries[k].character_id) + 1) as i32,
                activity,
            )
        }),
    decreases count,
{
    lemma_insert_entries(store, entries, activity, (count - 1) as nat);
    let before = store.insert_entries(entries, activity, (count - 1) as nat)->Ok_0;
    let last = entries[count - 1];
    let after = before.insert_entry(last, activity)->Ok_0;
    lemma_insert_entry(before, last, activity);
    if k == count - 1 {
        lemma_upsert_member(before, last.membership_id, last.membership_type, last.display_name);
        let (with_member, member) = before.upsert_member(
            last.membership_id,
            last.membership_type,
            last.display_name,
        )->Ok_0;
        lemma_insert_character(with_member, last.character_id, last.class, member);
        let (with_character, character) = with_member.insert_character(
            last.character_id,
            last.class,
            member,
        )->Ok_0;
        lemma_insert_stats(with_character, last, character, activity);
        assert(after.characters == with_character.characters);
        lemma_character_index(after, last.character_id, character - 1);
    } else {
        lemma_entries_have_outcomes(store, entries, activity, (count - 1) as nat, k);
        lemma_character_keeps_row_id(before, after, entries[k].character_id);
        let character = (before.character_index(entries[k].character_id) + 1) as i32;
        let row = choose|row: int|
            0 <= row < before.stats.len() && (#[trigger] before.stats[row]).character == character
                && before.stats[row].activity == activity;
        assert(after.stats[row] == before.stats[row]);
    }
}

/// A stored record has an outcome for every participant: once a detailed
/// record of a match that was not stored has been stored, each of its
/// participants has a character in the store, and that character has an
/// outcome of the match.
pub proof fn lemma_stored_record_has_every_outcome(store: StoreState, report: ReportView, k: int)
    requires
        store.wf(),
        !store.has_activity(report.instance_id),
        0 <= k < report.entries.len(),
        store.insert_activity(report) is Ok,
    ensures
        ({
            let after = store.insert_activity(report)->Ok_0;
            let participant = report.entries[k].character_id;
            &&& after.has_activity(report.instance_id)
            &&& after.has_character(participant)
            &&& after.has_stats(
                (after.character_index(participant) + 1) as i32,
                (after.activity_index(report.instance_id) + 1) as i32,
            )
        }),
{
    lemma_with_activity(store, report);
    let with = store.with_activity(report);
    let id = (store.activities.len() + 1) as i32;
    lemma_insert_entries(with, report.entries, id, report.entries.len());
    lemma_entries_have_outcomes(with, report.entries, id, report.entries.len(), k);
    let after = store.insert_activity(report)->Ok_0;
    lemma_activity_index(after, report.instance_id, store.activities.len() as int);
}

/// A queue entry leaves the queue only once its record is stored: whatever
/// came back for a request, an entry that was queued before the response
/// was taken and is not queued after it is the entry of the character for
/// the match of the response, and that match is stored.
pub proof fn lemma_queue_entry_leaves_after_insert(
    store: StoreState,
    character: i32,
    fetch: DetailView,
    entry: QueueRow,
)
    requires
        store.wf(),
        store.is_queued(entry.activity_id, entry.character),
        !store.record_detail(character, fetch).0.is_queued(entry.activity_id, entry.character),
    ensures
        fetch matches DetailView::Fetched(report) && entry == (QueueRow {
            activity_id: report.instance_id,
            character,
        }) && store.record_detail(character, fetch).0.has_activity(report.instance_id),
{
    match fetch {
        DetailView::Fetched(report) => {
            lemma_insert_activity(store, report);
            match store.insert_activity(report) {
                Ok(stored) => {
                    let after = stored.dequeue(character, report.instance_id);
                    let wanted = QueueRow {
                        activity_id: entry.activity_id,
                        character: entry.character,
                    };
                    // The match is stored, and storing it left the queue alone.
                    let k = stored.activity_index(report.instance_id);
                    assert(after.activities[k].activity_id == report.instance_id);
                    let i = store.queue_index(entry.activity_id, entry.character);
                    assert(stored.queue[i] == wanted);
                    // An entry that stands elsewhere than the one taken off
                    // still stands in the queue.
                    if stored.is_queued(report.instance_id, character) {
                        let at = stored.queue_index(report.instance_id, character);
                        assert(stored.queue[at] == (QueueRow {
                            activity_id: report.instance_id,
                            character,
                        }));
                        if i < at {
                            assert(after.queue[i] == wanted);
                        } else if i > at {
                            assert(after.queue[i - 1] == wanted);
                        }
                    } else {
                        assert(after.queue[i] == wanted);
                    }
                },
                Err(_) => {},
            }
        },
        _ => {},
    }
}

/// Whatever the remote service answers, a step of a run keeps the rules of
/// the store and its history: the matches, mode tags and outcomes that the
/// store held stand unchanged. With that, discovery never steps back
/// within a run nor from one run to the next.
pub proof fn lemma_step_keeps_history(session: SessionState, store: StoreState, event: EventView)
    requires
        store.wf(),
    ensures
        session.step(store, event).store.wf(),
        store.history_kept_by(session.step(store, event).store),
{
    match event {
        EventView::Start => {},
        EventView::Profile { display_name, roster } => {
            if session.stage == SyncStage::AwaitingProfile {
                lemma_upsert_member(store, session.member_id, session.platform, display_name);
                match store.upsert_member(session.member_id, session.platform, display_name) {
                    Ok((after, member)) => {
                        let entered = SessionState {
                            roster,
                            member_row_id: member,
                            character: 0,
                            total_synced: 0,
                            total_queued: 0,
                            ..session
                        };
                        lemma_enter_character_keeps_history(entered, after);
                        lemma_history_kept_transitive(
                            store,
                            after,
                            entered.enter_character(after).store,
                        );
                    },
                    Err(_) => {},
                }
            }
        },
        EventView::Activities(page) => {
            if session.stage == SyncStage::AwaitingActivities {
                let queued = queue_page(store, session.character_row_id, page);
                match page {
                    Some(items) => {
                        lemma_enqueue_items(
                            store,
                            session.character_row_id,
                            items.reverse(),
                            items.len(),
                        );
                    },
                    None => {},
                }
                let draining = SessionState {
                    pending: queued.queued(session.character_row_id),
                    cursor: 0,
                    batch: 0,
                    pass_synced: 0,
                    dropped: session.dropped + dropped_page(
                        store,
                        session.character_row_id,
                        session.scope,
                        page,
                    ),
                    ..session
                };
                lemma_next_batch_keeps_history(draining, queued);
                lemma_history_kept_transitive(store, queued, draining.next_batch(queued).store);
            }
        },
        EventView::Details(batch) => {
            if session.stage == SyncStage::AwaitingDetails && batch.len() == session.batch {
                lemma_record_details(store, session.character_row_id, batch, batch.len());
                let recorded = store.record_details(session.character_row_id, batch, batch.len());
                let counted = SessionState {
                    pass_synced: session.pass_synced + recorded.1,
                    batch: 0,
                    failed: session.failed + store.record_failures(
                        session.character_row_id,
                        batch,
                        batch.len(),
                    ),
                    ..session
                };
                lemma_next_batch_keeps_history(counted, recorded.0);
                lemma_history_kept_transitive(
                    store,
                    recorded.0,
                    counted.next_batch(recorded.0).store,
                );
            }
        },
    }
}

/// The store after the first `count` of a series of steps, each taken in
/// whatever state a run may be in and with whatever the remote service may
/// answer. Steps of one run and of runs that follow one another are such
/// series.
pub open spec fn after_steps(
    store: StoreState,
    sessions: Seq<SessionState>,
    events: Seq<EventView>,
    count: nat,
) -> StoreState
    decreases count,
{
    if count == 0 {
        store
    } else {
        sessions[count - 1].step(
            after_steps(store, sessions, events, (count - 1) as nat),
            events[count - 1],
        ).store
    }
}

/// Syncing keeps the rules of the store and its history, however many
/// steps are taken and whatever the remote service answers.
pub proof fn lemma_syncing_keeps_history(
    store: StoreState,
    sessions: Seq<SessionState>,
    events: Seq<EventView>,
    count: nat,
)
    requires
        store.wf(),
    ensures
        after_steps(store, sessions, events, count).wf(),
        store.history_kept_by(after_steps(store, sessions, events, count)),
    decreases count,
{
    if count > 0 {
        lemma_syncing_keeps_history(store, sessions, events, (count - 1) as nat);
        let before = after_steps(store, sessions, events, (count - 1) as nat);
        lemma_step_keeps_history(sessions[count - 1], before, events[count - 1]);
        lemma_history_kept_transitive(
            store,
            before,
            after_steps(store, sessions, events, count),
        );
    }
}

/// Discovery never steps back across syncs: for a character and a mode,
/// the remote identifier from which discovery continues is no smaller
/// after any series of steps than it was before. The one case left out is
/// that of a store that knew no match for the character and the mode and
/// learns of none but matches with negative identifiers.
pub proof fn lemma_discovery_never_steps_back(
    store: StoreState,
    sessions: Seq<SessionState>,
    events: Seq<EventView>,
    count: nat,
    character: i32,
    mode: u32,
)
    requires
        store.wf(),
        !store.knows_event(character, mode) ==> after_steps(
            store,
            sessions,
            events,
            count,
        ).max_activity_id(character, mode) >= 0,
    ensures
        store.max_activity_id(character, mode) <= after_steps(
            store,
            sessions,
            events,
            count,
        ).max_activity_id(character, mode),
{
    lemma_syncing_keeps_history(store, sessions, events, count);
    lemma_max_activity_id_monotonic(
        store,
        after_steps(store, sessions, events, count),
        character,
        mode,
    );
}

/// Turning to a roster entry keeps the rules of the store and its history.
proof fn lemma_enter_character_keeps_history(session: SessionState, store: StoreState)
    requires
        store.wf(),
    ensures
        session.enter_character(store).store.wf(),
        store.history_kept_by(session.enter_character(store).store),
{
    if session.character < session.roster.len() {
        let entry = session.roster[session.character as int];
        lemma_insert_character(store, entry.id, entry.class, session.member_row_id);
    }
}

/// Going on with a pass, or ending it, keeps the rules of the store and
/// its history.
proof fn lemma_next_batch_keeps_history(session: SessionState, store: StoreState)
    requires
        store.wf(),
    ensures
        session.next_batch(store).store.wf(),
        store.history_kept_by(session.next_batch(store).store),
{
    if session.cursor >= session.pending.len() {
        let synced = session.total_synced + session.pass_synced;
        let queued = session.total_queued + (session.pending.len() - session.pass_synced);
        if !(synced > u32::MAX || queued > u32::MAX) {
            let counted = SessionState {
                total_synced: synced,
                total_queued: queued as nat,
                ..session
            };
            match session.scope {
                Scope::PrivateOnly => {},
                Scope::PublicAll => {
                    lemma_enter_character_keeps_history(
                        SessionState { character: session.character + 1, ..counted },
                        store,
                    );
                },
            }
        }
    }
}

/// Public discovery passes over private matches: where the mode asked for
/// is a public one, no match tagged as a private match is among the known
/// events from which the next identifier is taken.
pub proof fn lemma_discovery_excludes_private(
    store: StoreState,
    character: i32,
    mode: u32,
    row: int,
)
    requires
        !is_private_mode(mode),
        0 <= row < store.stats.len(),
        store.has_mode_tag(store.stats[row].activity, MODE_PRIVATE_MATCHES_ALL),
    ensures
        !store.is_known_event(row, character, mode),
{
}

} // verus!
