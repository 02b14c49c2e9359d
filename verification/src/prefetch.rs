//! What the cache lacks for a report. A report names what the cache can
//! name; whoever wants every name reads the definitions listed here from
//! the reference dataset into the cache before asking for the report.

use crate::activitystoreinterface::ActivityStoreInterface;
use crate::enums::{CharacterClassSelection, Mode};
use crate::error::Error;
use crate::manifestinterface::{CacheState, ManifestInterface};
use crate::performances::DateTimePeriod;
use crate::response::character::CharactersData;
use crate::retrieval::{retrieve_character_selection_id, Selector, Who};
use crate::storemodel::{id_in, medal_result_views, StoreState};
use vstd::prelude::*;

verus! {

/// The definitions that a report asks for and the cache does not hold:
/// activities and items by their hashes, statistics by their keys. A
/// definition that is looked up more than once may be listed more than
/// once.
#[derive(Debug)]
pub struct MissingDefinitions {
    pub activities: Vec<u32>,
    pub items: Vec<u32>,
    pub stats: Vec<String>,
}

impl MissingDefinitions {
    /// Whether a statistics key is listed.
    pub open spec fn lists_stat(&self, key: Seq<char>) -> bool {
        exists|j: int| 0 <= j < self.stats@.len() && (#[trigger] self.stats@[j])@ == key
    }

    /// Whatever is listed, the cache does not hold.
    pub open spec fn lacking(&self, cache: CacheState) -> bool {
        &&& forall|i: int|
            0 <= i < self.activities@.len() ==> cache.activity(#[trigger] self.activities@[i])
                is None
        &&& forall|i: int|
            0 <= i < self.items@.len() ==> cache.item(#[trigger] self.items@[i]) is None
        &&& forall|i: int|
            0 <= i < self.stats@.len() ==> cache.stat((#[trigger] self.stats@[i])@) is None
    }

    /// Whatever this list holds, `more` holds too.
    pub open spec fn within(&self, more: MissingDefinitions) -> bool {
        &&& forall|hash: u32| self.activities@.contains(hash) ==> more.activities@.contains(hash)
        &&& forall|hash: u32| self.items@.contains(hash) ==> more.items@.contains(hash)
        &&& forall|key: Seq<char>| self.lists_stat(key) ==> more.lists_stat(key)
    }

    /// The list leaves nothing out that the report of the outcome row at a
    /// position looks up: the definition of the match's activity, of each
    /// weapon and of each medal of the outcome is in the cache or listed.
    pub open spec fn covers_outcome(&self, store: StoreState, cache: CacheState, row: int) -> bool {
        let id = (row + 1) as i32;
        let activity = store.activities[store.stats[row].activity - 1];
        &&& cache.activity(activity.reference_id) is Some || self.activities@.contains(
            activity.reference_id,
        )
        &&& forall|k: int|
            0 <= k < store.weapons.len() && (#[trigger] store.weapons[k]).character_activity_stats
                == id ==> cache.item(store.weapons[k].reference_id) is Some
                || self.items@.contains(store.weapons[k].reference_id)
        &&& forall|k: int|
            0 <= k < store.medals.len() && (#[trigger] store.medals[k]).character_activity_stats
                == id ==> cache.stat(store.medals[k].reference_id) is Some || self.lists_stat(
                store.medals[k].reference_id,
            )
    }

    /// The list asks for nothing but what the reports of the wanted outcome
    /// rows look up: whatever is listed is the definition of the activity
    /// of the match of a wanted outcome, of one of its weapons or of one of
    /// its medals.
    pub open spec fn asks_only_for(&self, store: StoreState, wanted: spec_fn(int) -> bool) -> bool {
        &&& activities_wanted(self.activities@, store, wanted)
        &&& items_wanted(self.items@, store, wanted)
        &&& stats_wanted(self.stats@, store, wanted)
    }

    /// A list with nothing on it.
    pub fn new() -> (missing: MissingDefinitions)
        ensures
            missing.activities@.len() == 0,
            missing.items@.len() == 0,
            missing.stats@.len() == 0,
    {
        MissingDefinitions { activities: Vec::new(), items: Vec::new(), stats: Vec::new() }
    }
}

/// Every hash of the list is that of the activity of the match of a wanted
/// outcome row.
#[verifier::opaque]
pub open spec fn activities_wanted(
    hashes: Seq<u32>,
    store: StoreState,
    wanted: spec_fn(int) -> bool,
) -> bool {
    forall|i: int|
        0 <= i < hashes.len() ==> exists|row: int|
            0 <= row < store.stats.len() && wanted(row) && store.activities[(
            #[trigger] store.stats[row]).activity - 1].reference_id == #[trigger] hashes[i]
}

/// Every hash of the list is that of a weapon of a wanted outcome row.
#[verifier::opaque]
pub open spec fn items_wanted(hashes: Seq<u32>, store: StoreState, wanted: spec_fn(int) -> bool)
    -> bool {
    forall|i: int|
        0 <= i < hashes.len() ==> exists|k: int|
            0 <= k < store.weapons.len() && wanted(
                (#[trigger] store.weapons[k]).character_activity_stats - 1,
            ) && store.weapons[k].reference_id == #[trigger] hashes[i]
}

/// Every key of the list is that of a medal of a wanted outcome row.
#[verifier::opaque]
pub open spec fn stats_wanted(keys: Seq<String>, store: StoreState, wanted: spec_fn(int) -> bool)
    -> bool {
    forall|i: int|
        0 <= i < keys.len() ==> exists|k: int|
            0 <= k < store.medals.len() && wanted(
                (#[trigger] store.medals[k]).character_activity_stats - 1,
            ) && store.medals[k].reference_id == (#[trigger] keys[i])@
}

/// The wish for the one outcome row at a position.
pub open spec fn only_row(row: int) -> spec_fn(int) -> bool {
    |r: int| r == row
}

/// The wish for the outcome rows of the match with a row identifier.
pub open spec fn rows_of_activity(store: StoreState, activity_index: u32) -> spec_fn(int) -> bool {
    |row: int| store.stats[row].activity == activity_index
}

/// The wish for the outcome rows of a selection within a period.
pub open spec fn rows_within(store: StoreState, who: Who, mode: u32, period: DateTimePeriod)
    -> spec_fn(int) -> bool {
    |row: int| store.selects_within(row, who, mode, period)
}

/// An empty list asks for nothing.
proof fn lemma_nothing_wanted(store: StoreState, wanted: spec_fn(int) -> bool)
    ensures
        activities_wanted(Seq::empty(), store, wanted),
        items_wanted(Seq::empty(), store, wanted),
        stats_wanted(Seq::empty(), store, wanted),
{
    reveal(activities_wanted);
    reveal(items_wanted);
    reveal(stats_wanted);
}

/// The activity of the match of a wanted outcome row may be listed.
proof fn lemma_activity_wanted(
    hashes: Seq<u32>,
    store: StoreState,
    wanted: spec_fn(int) -> bool,
    row: int,
)
    requires
        activities_wanted(hashes, store, wanted),
        0 <= row < store.stats.len(),
        wanted(row),
    ensures
        activities_wanted(
            hashes.push(store.activities[store.stats[row].activity - 1].reference_id),
            store,
            wanted,
        ),
{
    reveal(activities_wanted);
    let hash = store.activities[store.stats[row].activity - 1].reference_id;
    let more = hashes.push(hash);
    assert forall|i: int| 0 <= i < more.len() implies exists|r: int|
        0 <= r < store.stats.len() && wanted(r) && store.activities[(
        #[trigger] store.stats[r]).activity - 1].reference_id == #[trigger] more[i] by {
        if i < hashes.len() {
            assert(more[i] == hashes[i]);
        } else {
            assert(store.activities[store.stats[row].activity - 1].reference_id == more[i]);
        }
    }
}

/// A weapon of a wanted outcome row may be listed.
proof fn lemma_item_wanted(
    hashes: Seq<u32>,
    store: StoreState,
    wanted: spec_fn(int) -> bool,
    at: int,
)
    requires
        items_wanted(hashes, store, wanted),
        0 <= at < store.weapons.len(),
        wanted(store.weapons[at].character_activity_stats - 1),
    ensures
        items_wanted(hashes.push(store.weapons[at].reference_id), store, wanted),
{
    reveal(items_wanted);
    let more = hashes.push(store.weapons[at].reference_id);
    assert forall|i: int| 0 <= i < more.len() implies exists|k: int|
        0 <= k < store.weapons.len() && wanted(
            (#[trigger] store.weapons[k]).character_activity_stats - 1,
        ) && store.weapons[k].reference_id == #[trigger] more[i] by {
        if i < hashes.len() {
            assert(more[i] == hashes[i]);
        } else {
            assert(store.weapons[at].reference_id == more[i]);
        }
    }
}

/// A medal of a wanted outcome row may be listed.
proof fn lemma_stat_wanted(
    keys: Seq<String>,
    key: String,
    store: StoreState,
    wanted: spec_fn(int) -> bool,
    at: int,
)
    requires
        stats_wanted(keys, store, wanted),
        0 <= at < store.medals.len(),
        wanted(store.medals[at].character_activity_stats - 1),
        key@ == store.medals[at].reference_id,
    ensures
        stats_wanted(keys.push(key), store, wanted),
{
    reveal(stats_wanted);
    let more = keys.push(key);
    assert forall|i: int| 0 <= i < more.len() implies exists|k: int|
        0 <= k < store.medals.len() && wanted(
            (#[trigger] store.medals[k]).character_activity_stats - 1,
        ) && store.medals[k].reference_id == (#[trigger] more[i])@ by {
        if i < keys.len() {
            assert(more[i] == keys[i]);
        } else {
            assert(store.medals[at].reference_id == more[i]@);
        }
    }
}

/// A list that covers an outcome still covers it when more is listed.
pub proof fn lemma_covers_more(
    fewer: MissingDefinitions,
    more: MissingDefinitions,
    store: StoreState,
    cache: CacheState,
    row: int,
)
    requires
        fewer.within(more),
        fewer.covers_outcome(store, cache, row),
    ensures
        more.covers_outcome(store, cache, row),
{
}

impl ActivityStoreInterface {
    /// Adds to a list what the report of the outcome row at a position
    /// looks up and the cache does not hold.
    fn note_outcome(
        &self,
        manifest: &ManifestInterface,
        row: usize,
        missing: &mut MissingDefinitions,
        Ghost(wanted): Ghost<spec_fn(int) -> bool>,
    )
        requires
            self.wf(),
            row < self@.stats.len(),
            wanted(row as int),
            old(missing).lacking(manifest@),
            old(missing).asks_only_for(self@, wanted),
        ensures
            final(missing).lacking(manifest@),
            final(missing).asks_only_for(self@, wanted),
            old(missing).within(*final(missing)),
            final(missing).covers_outcome(self@, manifest@, row as int),
    {
        let id: i32 = (row + 1) as i32;
        let stats = self.character_activity_stats();
        assert(id_in(self@.stats[row as int].activity, self@.activities.len()));
        let reference_id = self.activities()[(stats[row].activity - 1) as usize].reference_id;
        if manifest.get_activity_definition(reference_id).is_none() {
            let ghost listed = missing.activities@;
            proof {
                lemma_activity_wanted(listed, self@, wanted, row as int);
            }
            missing.activities.push(reference_id);
            assert(missing.activities@[listed.len() as int] == reference_id);
            assert forall|hash: u32| listed.contains(hash) implies missing.activities@.contains(
                hash,
            ) by {
                let i = choose|i: int| 0 <= i < listed.len() && listed[i] == hash;
                assert(missing.activities@[i] == hash);
            }
        }
        let ghost noted = *missing;

        let weapons = self.weapon_results();
        let mut w: usize = 0;
        while w < weapons.len()
            invariant
                w <= weapons.len(),
                weapons@ == self@.weapons,
                wanted(id - 1),
                missing.lacking(manifest@),
                missing.asks_only_for(self@, wanted),
                noted.within(*missing),
                missing.activities == noted.activities,
                missing.stats == noted.stats,
                forall|k: int|
                    0 <= k < w && (#[trigger] self@.weapons[k]).character_activity_stats == id
                        ==> manifest@.item(self@.weapons[k].reference_id) is Some
                        || missing.items@.contains(self@.weapons[k].reference_id),
            decreases weapons.len() - w,
        {
            let weapon = &weapons[w];
            if weapon.character_activity_stats == id && manifest.get_iventory_item_definition(
                weapon.reference_id,
            ).is_none() {
                let ghost listed = missing.items@;
                proof {
                    lemma_item_wanted(listed, self@, wanted, w as int);
                }
                missing.items.push(weapon.reference_id);
                assert(missing.items@[listed.len() as int] == weapon.reference_id);
                assert forall|hash: u32| listed.contains(hash) implies missing.items@.contains(
                    hash,
                ) by {
                    let i = choose|i: int| 0 <= i < listed.len() && listed[i] == hash;
                    assert(missing.items@[i] == hash);
                }
            }
            w = w + 1;
        }
        let ghost armed = *missing;

        let medals = self.medal_results();
        let mut m: usize = 0;
        while m < medals.len()
            invariant
                m <= medals.len(),
                medal_result_views(medals@) == self@.medals,
                wanted(id - 1),
                missing.lacking(manifest@),
                missing.asks_only_for(self@, wanted),
                armed.within(*missing),
                missing.activities == armed.activities,
                missing.items == armed.items,
                forall|k: int|
                    0 <= k < m && (#[trigger] self@.medals[k]).character_activity_stats == id
                        ==> manifest@.stat(self@.medals[k].reference_id) is Some
                        || missing.lists_stat(self@.medals[k].reference_id),
            decreases medals.len() - m,
        {
            let medal = &medals[m];
            assert(self@.medals[m as int] == medal@);
            if medal.character_activity_stats == id && manifest.get_historical_stats_definition(
                medal.reference_id.as_str(),
            ).is_none() {
                let ghost listed = *missing;
                let key = medal.reference_id.clone();
                proof {
                    lemma_stat_wanted(listed.stats@, key, self@, wanted, m as int);
                }
                missing.stats.push(key);
                assert(missing.stats@[listed.stats@.len() as int]@ == medal.reference_id@);
                assert forall|key: Seq<char>| listed.lists_stat(key) implies missing.lists_stat(
                    key,
                ) by {
                    let j = choose|j: int|
                        0 <= j < listed.stats@.len() && (#[trigger] listed.stats@[j])@ == key;
                    assert(missing.stats@[j]@ == key);
                }
            }
            m = m + 1;
        }
    }

    /// What the cache lacks for the report of the outcome row at a
    /// position. A position outside the table asks for nothing.
    pub fn missing_definitions_of_outcome(&self, manifest: &ManifestInterface, row: usize) -> (missing:
        MissingDefinitions)
        requires
            self.wf(),
        ensures
            missing.lacking(manifest@),
            missing.asks_only_for(self@, only_row(row as int)),
            row < self@.stats.len() ==> missing.covers_outcome(self@, manifest@, row as int),
    {
        let mut missing = MissingDefinitions::new();
        proof {
            lemma_nothing_wanted(self@, only_row(row as int));
            assert(missing.activities@ =~= Seq::empty());
            assert(missing.items@ =~= Seq::empty());
            assert(missing.stats@ =~= Seq::empty());
        }
        if row < self.character_activity_stats().len() {
            self.note_outcome(manifest, row, &mut missing, Ghost(only_row(row as int)));
        }
        missing
    }

    /// What the cache lacks for the reports of the outcome rows at the
    /// given positions.
    fn note_outcomes(
        &self,
        manifest: &ManifestInterface,
        rows: &Vec<usize>,
        Ghost(wanted): Ghost<spec_fn(int) -> bool>,
    ) -> (missing: MissingDefinitions)
        requires
            self.wf(),
            forall|i: int|
                0 <= i < rows@.len() ==> (#[trigger] rows@[i]) < self@.stats.len() && wanted(
                    rows@[i] as int,
                ),
        ensures
            missing.lacking(manifest@),
            missing.asks_only_for(self@, wanted),
            forall|i: int|
                0 <= i < rows@.len() ==> missing.covers_outcome(
                    self@,
                    manifest@,
                    (#[trigger] rows@[i]) as int,
                ),
    {
        let mut missing = MissingDefinitions::new();
        proof {
            lemma_nothing_wanted(self@, wanted);
            assert(missing.activities@ =~= Seq::empty());
            assert(missing.items@ =~= Seq::empty());
            assert(missing.stats@ =~= Seq::empty());
        }
        let mut i: usize = 0;
        while i < rows.len()
            invariant
                self.wf(),
                i <= rows.len(),
                forall|k: int|
                    0 <= k < rows@.len() ==> (#[trigger] rows@[k]) < self@.stats.len() && wanted(
                        rows@[k] as int,
                    ),
                missing.lacking(manifest@),
                missing.asks_only_for(self@, wanted),
                forall|k: int|
                    0 <= k < i ==> missing.covers_outcome(
                        self@,
                        manifest@,
                        (#[trigger] rows@[k]) as int,
                    ),
            decreases rows.len() - i,
        {
            let ghost before = missing;
            self.note_outcome(manifest, rows[i], &mut missing, Ghost(wanted));
            assert forall|k: int| 0 <= k < i + 1 implies missing.covers_outcome(
                self@,
                manifest@,
                (#[trigger] rows@[k]) as int,
            ) by {
                if k < i {
                    lemma_covers_more(before, missing, self@, manifest@, rows@[k] as int);
                }
            }
            i = i + 1;
        }
        missing
    }

    /// What the cache lacks for the report of the match with a row
    /// identifier: for its map name and for the weapons and medals of its
    /// outcomes.
    pub fn missing_definitions_of_activity(&self, manifest: &ManifestInterface, activity_index: u32)
        -> (missing: MissingDefinitions)
        requires
            self.wf(),
        ensures
            missing.lacking(manifest@),
            missing.asks_only_for(self@, rows_of_activity(self@, activity_index)),
            forall|row: int|
                0 <= row < self@.stats.len() && (#[trigger] self@.stats[row]).activity
                    == activity_index ==> missing.covers_outcome(self@, manifest@, row),
    {
        let stats = self.character_activity_stats();
        let mut rows: Vec<usize> = Vec::new();
        let mut row: usize = 0;
        while row < stats.len()
            invariant
                row <= stats.len(),
                stats@ == self@.stats,
                forall|i: int|
                    0 <= i < rows@.len() ==> (#[trigger] rows@[i]) < self@.stats.len()
                        && self@.stats[rows@[i] as int].activity == activity_index,
                forall|r: int|
                    0 <= r < row && (#[trigger] self@.stats[r]).activity == activity_index
                        ==> rows@.contains(r as usize),
            decreases stats.len() - row,
        {
            if stats[row].activity >= 0 && stats[row].activity as u32 == activity_index {
                let ghost listed = rows@;
                rows.push(row);
                assert(rows@[listed.len() as int] == row);
                assert forall|r: int|
                    0 <= r < row + 1 && (#[trigger] self@.stats[r]).activity
                        == activity_index implies rows@.contains(r as usize) by {
                    if r < row {
                        let i = choose|i: int| 0 <= i < listed.len() && listed[i] == r as usize;
                        assert(rows@[i] == r as usize);
                    }
                }
            }
            row = row + 1;
        }
        let missing = self.note_outcomes(
            manifest,
            &rows,
            Ghost(rows_of_activity(self@, activity_index)),
        );
        assert forall|r: int|
            0 <= r < self@.stats.len() && (#[trigger] self@.stats[r]).activity
                == activity_index implies missing.covers_outcome(self@, manifest@, r) by {
            let i = choose|i: int| 0 <= i < rows@.len() && rows@[i] == r as usize;
            assert(missing.covers_outcome(self@, manifest@, rows@[i] as int));
        }
        missing
    }

    /// What the cache lacks for the reports of the outcomes of a selection
    /// within a period.
    fn missing_within(
        &self,
        selector: &Selector,
        mode: &Mode,
        time_period: &DateTimePeriod,
        manifest: &ManifestInterface,
    ) -> (missing: MissingDefinitions)
        requires
            self.wf(),
        ensures
            self.covers_within(selector@, mode.id, *time_period, manifest, missing),
    {
        let rows = self.order_within(selector, mode, time_period);
        assert forall|i: int| 0 <= i < rows@.len() implies (#[trigger] rows@[i])
            < self@.stats.len() by {
            assert(crate::performances::positions(rows@)[i] == rows@[i]);
        }
        let ghost wanted = rows_within(self@, selector@, mode.id, *time_period);
        assert forall|i: int| 0 <= i < rows@.len() implies wanted((#[trigger] rows@[i]) as int) by {
            assert(crate::performances::positions(rows@)[i] == rows@[i]);
        }
        let missing = self.note_outcomes(manifest, &rows, Ghost(wanted));
        assert forall|row: int| #[trigger]
            self@.selects_within(row, selector@, mode.id, *time_period) implies missing.covers_outcome(
            self@,
            manifest@,
            row,
        ) by {
            let listed = crate::performances::positions(rows@);
            assert(listed.contains(row));
            let i = choose|i: int| 0 <= i < listed.len() && listed[i] == row;
            assert(missing.covers_outcome(self@, manifest@, rows@[i] as int));
        }
        missing
    }

    /// What it means to have listed what the cache lacks for the outcomes
    /// of a selection within a period: nothing listed is in the cache,
    /// nothing is listed but what an outcome of the selection looks up, and
    /// every outcome of the selection is covered.
    pub open spec fn covers_within(
        &self,
        who: Who,
        mode: u32,
        period: DateTimePeriod,
        manifest: &ManifestInterface,
        missing: MissingDefinitions,
    ) -> bool {
        &&& missing.lacking(manifest@)
        &&& missing.asks_only_for(self@, rows_within(self@, who, mode, period))
        &&& forall|row: int| #[trigger]
            self@.selects_within(row, who, mode, period) ==> missing.covers_outcome(
                self@,
                manifest@,
                row,
            )
    }

    /// What the cache lacks for the reports that
    /// `retrieve_activities_since` gives for the same selection, mode and
    /// period. It fails where that fails.
    pub fn missing_definitions_since(
        &self,
        member_id: &str,
        character_selection: &CharacterClassSelection,
        mode: &Mode,
        time_period: &DateTimePeriod,
        manifest: &ManifestInterface,
        characters: &Option<CharactersData>,
    ) -> (found: Result<MissingDefinitions, Error>)
        requires
            self.wf(),
        ensures
            match character_selection {
                CharacterClassSelection::All => found matches Ok(missing) && self.covers_within(
                    Who::Member(member_id@),
                    mode.id,
                    *time_period,
                    manifest,
                    missing,
                ),
                _ => match crate::retrieval::retrieve_character_selection_id_spec(
                    *character_selection,
                    *characters,
                ) {
                    Err(e) => found matches Err(f) && f == e,
                    Ok(at) => {
                        let character_id = characters->Some_0.characters@[at].id@;
                        match found {
                            Ok(missing) => self@.owns_character(member_id@, character_id)
                                && self.covers_within(
                                Who::Character(character_id),
                                mode.id,
                                *time_period,
                                manifest,
                                missing,
                            ),
                            Err(e) => e == Error::RowNotFound && !self@.owns_character(
                                member_id@,
                                character_id,
                            ),
                        }
                    },
                },
            },
    {
        let selector = match character_selection {
            CharacterClassSelection::All => Selector::Member(member_id.to_owned()),
            _ => {
                match retrieve_character_selection_id(member_id, character_selection, characters) {
                    Ok(character_id) => {
                        proof {
                            crate::retrieval::lemma_selection_is_unique(
                                *character_selection,
                                *characters,
                            );
                            let at = crate::retrieval::retrieve_character_selection_id_spec(
                                *character_selection,
                                *characters,
                            )->Ok_0;
                            assert(character_id@ == characters->Some_0.characters@[at].id@);
                        }
                        match self.get_character_row_id(member_id, character_id.as_str()) {
                            Ok(_) => {},
                            Err(e) => {
                                return Err(e);
                            },
                        }
                        Selector::Character(character_id)
                    },
                    Err(e) => {
                        return Err(e);
                    },
                }
            },
        };
        Ok(self.missing_within(&selector, mode, time_period, manifest))
    }
}

} // verus!
