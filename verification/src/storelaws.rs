//! What holds of every record store: each write keeps the rules of the
//! store, and a failed write stands for a store left as it was.

use crate::error::Error;
use crate::response::activities::PageItem;
use crate::response::pgcr::{DetailView, EntryView, ReportView};
use crate::storemodel::{id_in, lemma_queue_index, QueueRow, StoreState};
use vstd::prelude::*;

verus! {

/// What a store keeps of its history it keeps through every later store
/// that keeps the history of that one.
pub proof fn lemma_history_kept_transitive(first: StoreState, second: StoreState, third: StoreState)
    requires
        first.history_kept_by(second),
        second.history_kept_by(third),
    ensures
        first.history_kept_by(third),
{
    assert forall|i: int| first.modes.len() <= i < third.modes.len() implies (
    #[trigger] third.modes[i]).activity > first.activities.len() by {
        if i < second.modes.len() {
            assert(third.modes[i] == second.modes[i]);
        }
    }
}

/// Recording an account keeps the rules of the store, hands out a valid row
/// identifier, and touches no table but the accounts, where it adds a row
/// or renames one.
pub proof fn lemma_upsert_member(
    store: StoreState,
    member_id: Seq<char>,
    platform_id: u32,
    display_name: Seq<char>,
)
    requires
        store.wf(),
    ensures
        match store.upsert_member(member_id, platform_id, display_name) {
            Ok((after, id)) => {
                &&& after.wf()
                &&& id_in(id, after.members.len())
                &&& after.members[id - 1].member_id == member_id
                &&& after.members[id - 1].display_name == display_name
                &&& after.members.len() >= store.members.len()
                &&& after == StoreState { members: after.members, ..store }
                &&& store.history_kept_by(after)
            },
            Err(e) => e == Error::StoreFull,
        },
{
    if store.has_member(member_id) {
        let i = store.member_index(member_id);
        assert(0 <= i < store.members.len() && store.members[i].member_id == member_id);
    }
}

/// Recording a character keeps the rules of the store, hands out a valid
/// row identifier, and touches no table but the characters, where it may
/// add a row.
pub proof fn lemma_insert_character(
    store: StoreState,
    character_id: Seq<char>,
    class: u32,
    member: i32,
)
    requires
        store.wf(),
    ensures
        match store.insert_character(character_id, class, member) {
            Ok((after, id)) => {
                &&& after.wf()
                &&& id_in(id, after.characters.len())
                &&& after.characters[id - 1].character_id == character_id
                &&& after.characters[id - 1].member == member
                &&& store.extends_to(after)
                &&& after == StoreState { characters: after.characters, ..store }
            },
            Err(e) => e == Error::RowNotFound || e == Error::Constraint || e == Error::StoreFull,
        },
{
    if store.has_character(character_id) {
        let i = store.character_index(character_id);
        assert(0 <= i < store.characters.len() && store.characters[i].character_id
            == character_id);
    }
}

/// Recording an outcome keeps the rules of the store and only adds rows.
pub proof fn lemma_insert_stats(store: StoreState, entry: EntryView, character: i32, activity: i32)
    requires
        store.wf(),
    ensures
        match store.insert_stats(entry, character, activity) {
            Ok(after) => {
                &&& after.wf()
                &&& store.extends_to(after)
                &&& after.has_stats(character, activity)
            },
            Err(e) => e == Error::Constraint || e == Error::StoreFull,
        },
{
    match store.insert_stats(entry, character, activity) {
        Ok(after) => {
            let n = store.stats.len() as int;
            assert(after.stats[n].character == character && after.stats[n].activity == activity);
            assert forall|i: int, j: int| 0 <= i < j < after.stats.len() implies !(
            after.stats[i].character == after.stats[j].character && after.stats[i].activity
                == after.stats[j].activity) by {
                if j == n {
                    assert(store.stats[i] == after.stats[i]);
                }
            }
        },
        Err(_) => {},
    }
}

/// Recording a participant keeps the rules of the store, the matches and
/// the outcomes that it held.
pub proof fn lemma_insert_entry(store: StoreState, entry: EntryView, activity: i32)
    requires
        store.wf(),
    ensures
        match store.insert_entry(entry, activity) {
            Ok(after) => {
                &&& after.wf()
                &&& store.history_kept_by(after)
                &&& after.activities == store.activities
                &&& after.queue == store.queue
            },
            Err(_) => true,
        },
{
    lemma_upsert_member(store, entry.membership_id, entry.membership_type, entry.display_name);
    match store.upsert_member(entry.membership_id, entry.membership_type, entry.display_name) {
        Ok((with_member, member)) => {
            lemma_insert_character(with_member, entry.character_id, entry.class, member);
            match with_member.insert_character(entry.character_id, entry.class, member) {
                Ok((with_character, character)) => {
                    lemma_insert_stats(with_character, entry, character, activity);
                },
                Err(_) => {},
            }
        },
        Err(_) => {},
    }
}

/// Recording participants one after another keeps the rules of the store,
/// the matches and the outcomes that it held.
pub proof fn lemma_insert_entries(
    store: StoreState,
    entries: Seq<EntryView>,
    activity: i32,
    count: nat,
)
    requires
        store.wf(),
    ensures
        match store.insert_entries(entries, activity, count) {
            Ok(after) => {
                &&& after.wf()
                &&& store.history_kept_by(after)
                &&& after.activities == store.activities
                &&& after.queue == store.queue
            },
            Err(_) => true,
        },
    decreases count,
{
    if count > 0 {
        lemma_insert_entries(store, entries, activity, (count - 1) as nat);
        match store.insert_entries(entries, activity, (count - 1) as nat) {
            Ok(before) => {
                lemma_insert_entry(before, entries[count - 1], activity);
            },
            Err(_) => {},
        }
    }
}

/// The store with a new match recorded obeys the rules of the store.
pub proof fn lemma_with_activity(store: StoreState, report: ReportView)
    requires
        store.wf(),
        !store.has_activity(report.instance_id),
        store.activities.len() < i32::MAX,
    ensures
        store.with_activity(report).wf(),
        store.extends_to(store.with_activity(report)),
        store.history_kept_by(store.with_activity(report)),
        store.with_activity(report).has_activity(report.instance_id),
        store.with_activity(report).activities.len() == store.activities.len() + 1,
{
    let after = store.with_activity(report);
    let n = store.activities.len() as int;
    assert(after.activities[n].activity_id == report.instance_id);
    assert forall|i: int, j: int| 0 <= i < j < after.activities.len() implies after.activities[i].activity_id
        != after.activities[j].activity_id by {
        if j == n {
            assert(store.activities[i] == after.activities[i]);
        }
    }
}

/// A transaction that records a detailed record keeps the rules of the
/// store and what the store held of matches and outcomes; where it
/// succeeds, the match is stored.
pub proof fn lemma_insert_activity(store: StoreState, report: ReportView)
    requires
        store.wf(),
    ensures
        match store.insert_activity(report) {
            Ok(after) => {
                &&& after.wf()
                &&& store.history_kept_by(after)
                &&& after.has_activity(report.instance_id)
                &&& after.queue == store.queue
            },
            Err(_) => true,
        },
{
    if !store.has_activity(report.instance_id) && store.activities.len() < i32::MAX {
        lemma_with_activity(store, report);
        let with = store.with_activity(report);
        let id = (store.activities.len() + 1) as i32;
        lemma_insert_entries(with, report.entries, id, report.entries.len());
        match with.insert_entries(report.entries, id, report.entries.len()) {
            Ok(after) => {
                let n = store.activities.len() as int;
                assert(after.activities[n].activity_id == report.instance_id);
                lemma_history_kept_transitive(store, with, after);
            },
            Err(_) => {},
        }
    }
}

/// Queueing a match keeps the rules of the store and adds one queue entry.
pub proof fn lemma_enqueue(store: StoreState, activity_id: i64, character: i32)
    requires
        store.wf(),
    ensures
        match store.enqueue(activity_id, character) {
            Ok(after) => {
                &&& after.wf()
                &&& store.extends_to(after)
                &&& after.is_queued(activity_id, character)
            },
            Err(e) => e == Error::Constraint || e == Error::StoreFull,
        },
{
    match store.enqueue(activity_id, character) {
        Ok(after) => {
            let n = store.queue.len() as int;
            assert(after.queue[n] == (QueueRow { activity_id, character }));
            assert forall|i: int, j: int| 0 <= i < j < after.queue.len() implies after.queue[i]
                != after.queue[j] by {
                if j == n {
                    assert(store.queue[i] == after.queue[i]);
                }
            }
        },
        Err(_) => {},
    }
}

/// Queueing entries one after another keeps the rules of the store, touches
/// no table but the queue, and lengthens the queue by what it counts.
pub proof fn lemma_enqueue_items(
    store: StoreState,
    character: i32,
    items: Seq<PageItem>,
    count: nat,
)
    requires
        store.wf(),
    ensures
        match store.enqueue_items(character, items, count) {
            Ok((after, queued)) => {
                &&& after.wf()
                &&& store.extends_to(after)
                &&& after == StoreState { queue: after.queue, ..store }
                &&& after.queue.len() == store.queue.len() + queued
                &&& queued <= count
            },
            Err(e) => e == Error::Constraint || e == Error::StoreFull,
        },
    decreases count,
{
    if count > 0 {
        lemma_enqueue_items(store, character, items, (count - 1) as nat);
        match store.enqueue_items(character, items, (count - 1) as nat) {
            Ok((before, queued)) => {
                lemma_enqueue(before, items[count - 1].instance_id, character);
            },
            Err(_) => {},
        }
    }
}

/// A response to a request for a detailed record keeps the rules of the
/// store and what the store held of matches and outcomes.
pub proof fn lemma_record_detail(store: StoreState, character: i32, fetch: DetailView)
    requires
        store.wf(),
    ensures
        store.record_detail(character, fetch).0.wf(),
        store.history_kept_by(store.record_detail(character, fetch).0),
        store.record_detail(character, fetch).0.queue.len() <= store.queue.len(),
{
    match fetch {
        DetailView::Fetched(report) => {
            lemma_insert_activity(store, report);
            match store.insert_activity(report) {
                Ok(after) => {
                    lemma_dequeue(after, character, report.instance_id);
                    lemma_history_kept_transitive(
                        store,
                        after,
                        after.dequeue(character, report.instance_id),
                    );
                },
                Err(_) => {},
            }
        },
        _ => {},
    }
}

/// The responses of a batch keep the rules of the store and what the store
/// held of matches and outcomes, and no more of them count as synced than
/// there are.
pub proof fn lemma_record_details(
    store: StoreState,
    character: i32,
    batch: Seq<DetailView>,
    count: nat,
)
    requires
        store.wf(),
    ensures
        store.record_details(character, batch, count).0.wf(),
        store.history_kept_by(store.record_details(character, batch, count).0),
        store.record_details(character, batch, count).1 <= count,
        store.record_details(character, batch, count).0.queue.len() <= store.queue.len(),
    decreases count,
{
    if count > 0 {
        lemma_record_details(store, character, batch, (count - 1) as nat);
        let before = store.record_details(character, batch, (count - 1) as nat).0;
        lemma_record_detail(before, character, batch[count - 1]);
        lemma_history_kept_transitive(
            store,
            before,
            store.record_details(character, batch, count).0,
        );
    }
}

/// Taking a match off a queue keeps the rules of the store, leaves every
/// other table alone, and leaves the match off that queue.
pub proof fn lemma_dequeue(store: StoreState, character: i32, activity_id: i64)
    requires
        store.wf(),
    ensures
        store.dequeue(character, activity_id).wf(),
        !store.dequeue(character, activity_id).is_queued(activity_id, character),
        store.dequeue(character, activity_id) == (StoreState {
            queue: store.dequeue(character, activity_id).queue,
            ..store
        }),
        store.history_kept_by(store.dequeue(character, activity_id)),
{
    let after = store.dequeue(character, activity_id);
    if store.is_queued(activity_id, character) {
        let at = store.queue_index(activity_id, character);
        assert(0 <= at < store.queue.len());
        assert forall|i: int| 0 <= i < after.queue.len() implies after.queue[i] == store.queue[if i
            < at {
            i
        } else {
            i + 1
        }] by {}
        assert forall|i: int, j: int| 0 <= i < j < after.queue.len() implies after.queue[i]
            != after.queue[j] by {
            let a = if i < at {
                i
            } else {
                i + 1
            };
            let b = if j < at {
                j
            } else {
                j + 1
            };
            assert(store.queue[a] != store.queue[b]);
        }
        assert forall|i: int| 0 <= i < after.queue.len() implies id_in(
            (#[trigger] after.queue[i]).character,
            after.characters.len(),
        ) by {
            let a = if i < at {
                i
            } else {
                i + 1
            };
            assert(after.queue[i] == store.queue[a]);
        }
        if after.is_queued(activity_id, character) {
            let k = after.queue_index(activity_id, character);
            let a = if k < at {
                k
            } else {
                k + 1
            };
            assert(after.queue[k] == store.queue[a]);
            lemma_queue_index(store, activity_id, character, a);
        }
    }
}

} // verus!
