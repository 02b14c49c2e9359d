//! The outcomes of an account, or of one of its characters, in a mode and
//! within a period, the most recent first.

use crate::activitystoreinterface::ActivityStoreInterface;
use crate::crucible::CruciblePlayerActivityPerformance;
use crate::enums::{CharacterClassSelection, Mode, MODE_PRIVATE_MATCHES_ALL};
use crate::error::Error;
use crate::manifestinterface::{CacheState, ManifestInterface};
use crate::response::character::CharactersData;
use crate::retrieval::{retrieve_character_selection_id, Selector, Who};
use crate::storemodel::{id_in, StoreState};
use vstd::prelude::*;

verus! {

/// A span of time, in seconds since the epoch. Neither end belongs to it.
#[derive(Clone, Copy, Debug, PartialEq, Eq, Structural)]
pub struct DateTimePeriod {
    pub start: i64,
    pub end: i64,
}

impl DateTimePeriod {
    pub fn get_start(&self) -> (start: i64)
        ensures
            start == self.start,
    {
        self.start
    }

    pub fn get_end(&self) -> (end: i64)
        ensures
            end == self.end,
    {
        self.end
    }
}

impl StoreState {
    /// When the match of the outcome row at a position was played.
    pub open spec fn played_at(self, row: int) -> i64 {
        self.activities[self.stats[row].activity - 1].period
    }

    /// Whether the outcome row at a position is one of the selection and
    /// its match was played within the period.
    pub open spec fn selects_within(self, row: int, who: Who, mode: u32, period: DateTimePeriod)
        -> bool {
        &&& 0 <= row < self.stats.len()
        &&& self.selects(row, who, mode)
        &&& period.start < self.played_at(row) < period.end
    }

    /// Whether one outcome row comes before another in a report: its match
    /// was played later, or at the same time and it was stored first.
    pub open spec fn precedes(self, first: int, second: int) -> bool {
        self.played_at(first) > self.played_at(second) || (self.played_at(first) == self.played_at(
            second,
        ) && first < second)
    }

    /// Whether the positions are those of the outcome rows, among the
    /// first `count`, that are of the selection and within the period,
    /// each once, the most recent first.
    pub open spec fn orders(
        self,
        rows: Seq<int>,
        who: Who,
        mode: u32,
        period: DateTimePeriod,
        count: int,
    ) -> bool {
        &&& forall|i: int|
            0 <= i < rows.len() ==> (#[trigger] rows[i]) < count && self.selects_within(
                rows[i],
                who,
                mode,
                period,
            )
        &&& forall|row: int|
            0 <= row < count && #[trigger] self.selects_within(row, who, mode, period)
                ==> rows.contains(row)
        &&& forall|i: int, j: int|
            0 <= i < j < rows.len() ==> self.precedes(#[trigger] rows[i], #[trigger] rows[j])
    }
}

/// The reports list the outcome rows at the given positions, each with its
/// match, one report for each row, in order.
pub open spec fn lists_activity_performances(
    reports: Seq<CruciblePlayerActivityPerformance>,
    store: StoreState,
    rows: Seq<int>,
    cache: CacheState,
) -> bool {
    &&& reports.len() == rows.len()
    &&& forall|i: int|
        0 <= i < reports.len() ==> {
            &&& (#[trigger] reports[i]).performance.describes(store, rows[i], cache)
            &&& reports[i].activity_detail.describes(
                store.activities[store.stats[rows[i]].activity - 1],
                store.stats[rows[i]].activity,
                cache,
            )
        }
}

/// The positions as mathematical integers.
pub open spec fn positions(order: Seq<usize>) -> Seq<int> {
    Seq::new(order.len(), |i: int| order[i] as int)
}

impl ActivityStoreInterface {
    /// What it means to have looked for the outcomes of a selection within
    /// a period: the reports are of all of them, each once, the most
    /// recent first, and there is no list exactly where there is no such
    /// outcome.
    pub open spec fn found_within(
        &self,
        who: Who,
        mode: u32,
        period: DateTimePeriod,
        manifest: &ManifestInterface,
        found: Option<Vec<CruciblePlayerActivityPerformance>>,
    ) -> bool {
        match found {
            Some(reports) => exists|rows: Seq<int>|
                {
                    &&& rows.len() > 0
                    &&& #[trigger] self@.orders(rows, who, mode, period, self@.stats.len() as int)
                    &&& lists_activity_performances(reports@, self@, rows, manifest@)
                },
            None => forall|row: int| !#[trigger] self@.selects_within(row, who, mode, period),
        }
    }

    /// The positions of the outcome rows of a selection within a period,
    /// the most recent first.
    pub fn order_within(&self, selector: &Selector, mode: &Mode, period: &DateTimePeriod) -> (order:
        Vec<usize>)
        requires
            self.wf(),
        ensures
            self@.orders(positions(order@), selector@, mode.id, *period, self@.stats.len() as int),
    {
        let tagged = self.mode_flags(mode.to_id());
        let private = self.mode_flags(MODE_PRIVATE_MATCHES_ALL);
        let stats = self.character_activity_stats();
        let activities = self.activities();
        let mut order: Vec<usize> = Vec::new();
        let mut row: usize = 0;
        while row < stats.len()
            invariant
                self.wf(),
                row <= stats.len(),
                stats@ == self@.stats,
                activities@ == self@.activities,
                tagged@.len() == self@.activities.len(),
                private@.len() == self@.activities.len(),
                forall|k: int|
                    0 <= k < tagged@.len() ==> #[trigger] tagged@[k] == self@.has_mode_tag(
                        (k + 1) as i32,
                        mode.id,
                    ),
                forall|k: int|
                    0 <= k < private@.len() ==> #[trigger] private@[k] == self@.has_mode_tag(
                        (k + 1) as i32,
                        MODE_PRIVATE_MATCHES_ALL,
                    ),
                self@.orders(positions(order@), selector@, mode.id, *period, row as int),
                forall|k: int| 0 <= k < order@.len() ==> (#[trigger] order@[k]) < row,
            decreases stats.len() - row,
        {
            assert(id_in(self@.stats[row as int].activity, self@.activities.len()));
            let played = activities[(stats[row].activity - 1) as usize].period;
            let ghost listed = positions(order@);
            if period.start < played && played < period.end && self.selects(
                row,
                selector,
                &tagged,
                &private,
                mode,
            ) {
                let mut at: usize = 0;
                while at < order.len() && self.played_at(order[at]) >= played
                    invariant
                        self.wf(),
                        at <= order.len(),
                        listed == positions(order@),
                        played == self@.played_at(row as int),
                        row < self@.stats.len(),
                        self@.orders(listed, selector@, mode.id, *period, row as int),
                        forall|k: int| 0 <= k < order@.len() ==> (#[trigger] order@[k]) < row,
                        forall|k: int| 0 <= k < at ==> self@.played_at(#[trigger] listed[k]) >= played,
                    decreases order.len() - at,
                {
                    at = at + 1;
                }
                let ghost earlier = order@;
                order.insert(at, row);
                proof {
                    let after = positions(order@);
                    assert(after =~= listed.insert(at as int, row as int));
                    assert forall|k: int| 0 <= k < order@.len() implies (#[trigger] order@[k]) < row
                        + 1 by {
                        if k < at {
                            assert(order@[k] == earlier[k]);
                        } else if k > at {
                            assert(order@[k] == earlier[k - 1]);
                        }
                    }
                    assert forall|i: int| 0 <= i < after.len() implies (#[trigger] after[i]) < row
                        + 1 && self@.selects_within(after[i], selector@, mode.id, *period) by {
                        if i < at {
                            assert(after[i] == listed[i]);
                        } else if i > at {
                            assert(after[i] == listed[i - 1]);
                        }
                    }
                    assert forall|other: int|
                        0 <= other < row + 1 && #[trigger] self@.selects_within(
                            other,
                            selector@,
                            mode.id,
                            *period,
                        ) implies after.contains(other) by {
                        if other == row {
                            assert(after[at as int] == other);
                        } else {
                            assert(listed.contains(other));
                            let k = choose|k: int| 0 <= k < listed.len() && listed[k] == other;
                            if k < at {
                                assert(after[k] == other);
                            } else {
                                assert(after[k + 1] == other);
                            }
                        }
                    }
                    assert forall|i: int, j: int| 0 <= i < j < after.len() implies self@.precedes(
                        #[trigger] after[i],
                        #[trigger] after[j],
                    ) by {
                        let a = if i < at {
                            i
                        } else {
                            i - 1
                        };
                        let b = if j < at {
                            j
                        } else {
                            j - 1
                        };
                        if i == at {
                            assert(after[j] == listed[b]);
                            if at < listed.len() {
                                assert(self@.played_at(listed[at as int]) < played);
                                if b > at {
                                    assert(self@.precedes(listed[at as int], listed[b]));
                                }
                            }
                        } else if j == at {
                            assert(after[i] == listed[a]);
                            assert(listed[a] < row);
                        } else {
                            assert(after[i] == listed[a]);
                            assert(after[j] == listed[b]);
                            assert(self@.precedes(listed[a], listed[b]));
                        }
                    }
                }
            } else {
                assert(!self@.selects_within(row as int, selector@, mode.id, *period));
            }
            row = row + 1;
        }
        order
    }

    /// When the match of the outcome row at a position was played.
    fn played_at(&self, row: usize) -> (played: i64)
        requires
            self.wf(),
            row < self@.stats.len(),
        ensures
            played == self@.played_at(row as int),
    {
        let stats = self.character_activity_stats();
        assert(id_in(self@.stats[row as int].activity, self@.activities.len()));
        self.activities()[(stats[row].activity - 1) as usize].period
    }

    /// The reports of the outcome rows at the given positions, each with
    /// its match.
    fn parse_individual_performance_rows(&self, manifest: &ManifestInterface, order: &Vec<usize>)
        -> (reports: Vec<CruciblePlayerActivityPerformance>)
        requires
            self.wf(),
            forall|i: int| 0 <= i < order@.len() ==> (#[trigger] order@[i]) < self@.stats.len(),
        ensures
            lists_activity_performances(reports@, self@, positions(order@), manifest@),
    {
        let mut reports: Vec<CruciblePlayerActivityPerformance> = Vec::new();
        let mut i: usize = 0;
        while i < order.len()
            invariant
                self.wf(),
                i <= order.len(),
                forall|k: int| 0 <= k < order@.len() ==> (#[trigger] order@[k]) < self@.stats.len(),
                lists_activity_performances(
                    reports@,
                    self@,
                    positions(order@).subrange(0, i as int),
                    manifest@,
                ),
            decreases order.len() - i,
        {
            let row = order[i];
            let ghost listed = reports@;
            match self.parse_individual_performance_row(manifest, row) {
                Some(report) => {
                    reports.push(report);
                },
                None => {},
            }
            assert forall|k: int| 0 <= k < reports@.len() implies {
                &&& (#[trigger] reports@[k]).performance.describes(
                    self@,
                    positions(order@).subrange(0, i + 1)[k],
                    manifest@,
                )
                &&& reports@[k].activity_detail.describes(
                    self@.activities[self@.stats[positions(order@).subrange(
                        0,
                        i + 1,
                    )[k]].activity - 1],
                    self@.stats[positions(order@).subrange(0, i + 1)[k]].activity,
                    manifest@,
                )
            } by {
                if k < listed.len() {
                    assert(reports@[k] == listed[k]);
                    assert(positions(order@).subrange(0, i + 1)[k] == positions(order@).subrange(
                        0,
                        i as int,
                    )[k]);
                }
            }
            i = i + 1;
        }
        assert(positions(order@).subrange(0, order@.len() as int) =~= positions(order@));
        reports
    }

    /// The reports of the outcomes of a selection within a period.
    fn retrieve_within(
        &self,
        selector: &Selector,
        mode: &Mode,
        time_period: &DateTimePeriod,
        manifest: &ManifestInterface,
    ) -> (found: Option<Vec<CruciblePlayerActivityPerformance>>)
        requires
            self.wf(),
        ensures
            self.found_within(selector@, mode.id, *time_period, manifest, found),
    {
        let order = self.order_within(selector, mode, time_period);
        if order.len() == 0 {
            assert forall|row: int| !#[trigger] self@.selects_within(
                row,
                selector@,
                mode.id,
                *time_period,
            ) by {
                if self@.selects_within(row, selector@, mode.id, *time_period) {
                    assert(positions(order@).contains(row));
                }
            }
            return None;
        }
        assert forall|i: int| 0 <= i < order@.len() implies (#[trigger] order@[i])
            < self@.stats.len() by {
            assert(positions(order@)[i] == order@[i]);
        }
        let reports = self.parse_individual_performance_rows(manifest, &order);
        assert(self@.orders(
            positions(order@),
            selector@,
            mode.id,
            *time_period,
            self@.stats.len() as int,
        ));
        Some(reports)
    }

    /// The outcomes of an account in a mode and within a period, the most
    /// recent first; of matches played at the same time the one stored
    /// first comes first. The mode filter asks for the mode's tag and, for
    /// a public mode, passes over private matches.
    pub fn retrieve_activities_for_member_since(
        &self,
        member_id: &str,
        mode: &Mode,
        time_period: &DateTimePeriod,
        manifest: &ManifestInterface,
    ) -> (found: Option<Vec<CruciblePlayerActivityPerformance>>)
        requires
            self.wf(),
        ensures
            self.found_within(Who::Member(member_id@), mode.id, *time_period, manifest, found),
    {
        let selector = Selector::Member(member_id.to_owned());
        self.retrieve_within(&selector, mode, time_period, manifest)
    }

    /// The outcomes of a character of an account in a mode and within a
    /// period, the most recent first. A character that is not stored, or
    /// not for that account, is not found.
    pub fn retrieve_activities_for_character(
        &self,
        member_id: &str,
        character_id: &str,
        mode: &Mode,
        time_period: &DateTimePeriod,
        manifest: &ManifestInterface,
    ) -> (found: Result<Option<Vec<CruciblePlayerActivityPerformance>>, Error>)
        requires
            self.wf(),
        ensures
            match found {
                Ok(reports) => self@.owns_character(member_id@, character_id@) && self.found_within(
                    Who::Character(character_id@),
                    mode.id,
                    *time_period,
                    manifest,
                    reports,
                ),
                Err(e) => e == Error::RowNotFound && !self@.owns_character(
                    member_id@,
                    character_id@,
                ),
            },
    {
        match self.get_character_row_id(member_id, character_id) {
            Ok(_) => {},
            Err(e) => {
                return Err(e);
            },
        }
        let selector = Selector::Character(character_id.to_owned());
        Ok(self.retrieve_within(&selector, mode, time_period, manifest))
    }

    /// The outcomes of an account, or of the roster entry that a selection
    /// stands for, in a mode and within a period, the most recent first.
    pub fn retrieve_activities_since(
        &self,
        member_id: &str,
        character_selection: &CharacterClassSelection,
        mode: &Mode,
        time_period: &DateTimePeriod,
        manifest: &ManifestInterface,
        characters: &Option<CharactersData>,
    ) -> (found: Result<Option<Vec<CruciblePlayerActivityPerformance>>, Error>)
        requires
            self.wf(),
        ensures
            match character_selection {
                CharacterClassSelection::All => found matches Ok(reports) && self.found_within(
                    Who::Member(member_id@),
                    mode.id,
                    *time_period,
                    manifest,
                    reports,
                ),
                _ => match crate::retrieval::retrieve_character_selection_id_spec(
                    *character_selection,
                    *characters,
                ) {
                    Err(e) => found matches Err(f) && f == e,
                    Ok(at) => {
                        let character_id = characters->Some_0.characters@[at].id@;
                        match found {
                            Ok(reports) => self@.owns_character(member_id@, character_id)
                                && self.found_within(
                                Who::Character(character_id),
                                mode.id,
                                *time_period,
                                manifest,
                                reports,
                            ),
                            Err(e) => e == Error::RowNotFound && !self@.owns_character(
                                member_id@,
                                character_id,
                            ),
                        }
                    },
                },
            },
    {
        match character_selection {
            CharacterClassSelection::All => Ok(
                self.retrieve_activities_for_member_since(member_id, mode, time_period, manifest),
            ),
            _ => {
                match retrieve_character_selection_id(member_id, character_selection, characters) {
                    Ok(character_id) => {
                        proof {
                            crate::retrieval::lemma_selection_is_unique(
                                *character_selection,
                                *characters,
                            );
                            let at = crate::retrieval::retrieve_character_selection_id_spec(
                                *character_selection,
                                *characters,
                            )->Ok_0;
                            assert(character_id@ == characters->Some_0.characters@[at].id@);
                        }
                        self.retrieve_activities_for_character(
                            member_id,
                            character_id.as_str(),
                            mode,
                            time_period,
                            manifest,
                        )
                    },
                    Err(e) => Err(e),
                }
            },
        }
    }
}

} // verus!
