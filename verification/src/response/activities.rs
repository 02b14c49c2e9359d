//! One page of an account's activity history.

use crate::enums::{Mode, Platform};
use vstd::prelude::*;

verus! {

/// The largest number of history entries that one page can carry.
pub const MAX_ACTIVITIES_REQUEST_COUNT: i32 = 250;

#[derive(Debug)]
pub struct DestinyHistoricalStatsActivity {
    /// Hash of the definition of the activity that was played.
    pub reference_id: u32,
    /// Hash of the definition under which the director listed the activity.
    pub director_activity_hash: u32,
    /// Identifier of this one match.
    pub instance_id: i64,
    pub mode: Mode,
    /// Every mode category that the match counts under.
    pub modes: Vec<Mode>,
    pub is_private: bool,
    pub membership_type: Platform,
}

/// The mode identifiers of a list of modes, in order.
pub open spec fn mode_ids(modes: Seq<Mode>) -> Seq<u32> {
    Seq::new(modes.len(), |i: int| modes[i].id)
}

/// One entry of the history: when the match was played, in seconds since the
/// epoch, and what it was.
#[derive(Debug)]
pub struct Activity {
    pub period: i64,
    pub details: DestinyHistoricalStatsActivity,
}

#[derive(Debug)]
pub struct ActivitiesResponseData {
    pub activities: Option<Vec<Activity>>,
}

/// What discovery reads of one entry of a page of history.
pub struct PageItem {
    pub instance_id: i64,
    pub director_activity_hash: u32,
}

impl View for Activity {
    type V = PageItem;

    open spec fn view(&self) -> PageItem {
        PageItem {
            instance_id: self.details.instance_id,
            director_activity_hash: self.details.director_activity_hash,
        }
    }
}

/// What discovery reads of a page of history, entry by entry.
pub open spec fn page_items(page: Seq<Activity>) -> Seq<PageItem> {
    Seq::new(page.len(), |i: int| page[i]@)
}

} // verus!
