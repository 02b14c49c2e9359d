//! The detailed record of one match: its teams and, for every participant,
//! who played and how.

use crate::enums::{CharacterClass, Platform};
use crate::error::Error;
use crate::response::activities::{mode_ids, DestinyHistoricalStatsActivity};
use vstd::prelude::*;

verus! {

/// The counters of one participant in one match. The two averages are kept
/// as the bit patterns of single-precision numbers: the store carries them
/// and never computes with them.
#[derive(Clone, Copy, Debug, PartialEq, Eq, Structural)]
pub struct PerformanceValues {
    pub assists: u32,
    pub score: u32,
    pub kills: u32,
    pub deaths: u32,
    pub average_score_per_kill: u32,
    pub average_score_per_life: u32,
    pub completed: u32,
    pub opponents_defeated: u32,
    pub activity_duration_seconds: u32,
    pub standing: u32,
    pub team: i32,
    pub completion_reason: u32,
    pub start_seconds: u32,
    pub time_played_seconds: u32,
    pub player_count: u32,
    pub team_score: u32,
}

/// What one weapon did in one participant's hands. The ratio is the bit
/// pattern of a single-precision number.
#[derive(Clone, Copy, Debug, PartialEq, Eq, Structural)]
pub struct DestinyHistoricalWeaponStats {
    pub reference_id: u32,
    pub unique_weapon_kills: u32,
    pub unique_weapon_precision_kills: u32,
    pub unique_weapon_kills_precision_kills: u32,
}

/// A named counter of the extended statistics: a medal, or one of the
/// breakdowns of kills.
#[derive(Debug)]
pub struct MedalValue {
    pub key: String,
    pub value: u32,
}

#[derive(Debug)]
pub struct DestinyPostGameCarnageReportExtendedData {
    pub weapons: Option<Vec<DestinyHistoricalWeaponStats>>,
    pub values: Vec<MedalValue>,
}

#[derive(Debug)]
pub struct UserInfoCard {
    pub membership_id: String,
    pub membership_type: Platform,
    pub display_name: String,
}

#[derive(Debug)]
pub struct DestinyPlayer {
    pub user_info: UserInfoCard,
    pub class_type: CharacterClass,
    pub light_level: i32,
}

#[derive(Debug)]
pub struct DestinyPostGameCarnageReportEntry {
    pub player: DestinyPlayer,
    pub character_id: String,
    pub values: PerformanceValues,
    pub extended: DestinyPostGameCarnageReportExtendedData,
}

#[derive(Clone, Copy, Debug, PartialEq, Eq, Structural)]
pub struct DestinyPostGameCarnageReportTeamEntry {
    pub team: i32,
    pub standing: u32,
    pub score: u32,
}

#[derive(Debug)]
pub struct DestinyPostGameCarnageReportData {
    /// When the match was played, in seconds since the epoch.
    pub period: i64,
    pub activity_details: DestinyHistoricalStatsActivity,
    pub entries: Vec<DestinyPostGameCarnageReportEntry>,
    pub teams: Vec<DestinyPostGameCarnageReportTeamEntry>,
}

/// A named counter as a mathematical value.
pub struct MedalValueView {
    pub key: Seq<char>,
    pub value: u32,
}

/// A participant entry as a mathematical value.
pub struct EntryView {
    pub membership_id: Seq<char>,
    pub membership_type: u32,
    pub display_name: Seq<char>,
    pub class: u32,
    pub light_level: i32,
    pub character_id: Seq<char>,
    pub values: PerformanceValues,
    pub medals: Seq<MedalValueView>,
    pub weapons: Seq<DestinyHistoricalWeaponStats>,
}

/// A detailed record as a mathematical value.
pub struct ReportView {
    pub period: i64,
    pub instance_id: i64,
    pub mode: u32,
    pub modes: Seq<u32>,
    pub platform: u32,
    pub director_activity_hash: u32,
    pub reference_id: u32,
    pub teams: Seq<DestinyPostGameCarnageReportTeamEntry>,
    pub entries: Seq<EntryView>,
}

impl View for MedalValue {
    type V = MedalValueView;

    open spec fn view(&self) -> MedalValueView {
        MedalValueView { key: self.key@, value: self.value }
    }
}

/// The named counters of a list, in order.
pub open spec fn medal_views(values: Seq<MedalValue>) -> Seq<MedalValueView> {
    Seq::new(values.len(), |i: int| values[i]@)
}

/// The value filed under `key`: that of the first counter of that name, and
/// zero where there is none.
pub open spec fn medal_value(values: Seq<MedalValueView>, key: Seq<char>) -> u32
    decreases values.len(),
{
    if values.len() == 0 {
        0
    } else if values[0].key == key {
        values[0].value
    } else {
        medal_value(values.drop_first(), key)
    }
}

impl View for DestinyPostGameCarnageReportEntry {
    type V = EntryView;

    open spec fn view(&self) -> EntryView {
        EntryView {
            membership_id: self.player.user_info.membership_id@,
            membership_type: self.player.user_info.membership_type.id,
            display_name: self.player.user_info.display_name@,
            class: self.player.class_type.spec_to_id(),
            light_level: self.player.light_level,
            character_id: self.character_id@,
            values: self.values,
            medals: medal_views(self.extended.values@),
            weapons: match self.extended.weapons {
                Some(weapons) => weapons@,
                None => Seq::empty(),
            },
        }
    }
}

/// The participant entries of a list, in order.
pub open spec fn entry_views(entries: Seq<DestinyPostGameCarnageReportEntry>) -> Seq<EntryView> {
    Seq::new(entries.len(), |i: int| entries[i]@)
}

impl View for DestinyPostGameCarnageReportData {
    type V = ReportView;

    open spec fn view(&self) -> ReportView {
        ReportView {
            period: self.period,
            instance_id: self.activity_details.instance_id,
            mode: self.activity_details.mode.id,
            modes: mode_ids(self.activity_details.modes@),
            platform: self.activity_details.membership_type.id,
            director_activity_hash: self.activity_details.director_activity_hash,
            reference_id: self.activity_details.reference_id,
            teams: self.teams@,
            entries: entry_views(self.entries@),
        }
    }
}

/// What came back for one request for a detailed record.
#[derive(Debug)]
pub enum DetailFetch {
    /// The record.
    Fetched(DestinyPostGameCarnageReportData),
    /// An answer without a record.
    Empty,
    /// No answer: the request failed.
    Failed,
}

/// What came back for one request for a detailed record, as a mathematical
/// value.
pub enum DetailView {
    Fetched(ReportView),
    Empty,
    Failed,
}

impl View for DetailFetch {
    type V = DetailView;

    open spec fn view(&self) -> DetailView {
        match self {
            DetailFetch::Fetched(data) => DetailView::Fetched(data@),
            DetailFetch::Empty => DetailView::Empty,
            DetailFetch::Failed => DetailView::Failed,
        }
    }
}

/// A detailed record that could not be stored: of which match, and why.
#[derive(Clone, Copy, Debug, PartialEq, Eq, Structural)]
pub struct FailedRecord {
    pub instance_id: i64,
    pub error: Error,
}

/// What a batch of responses came to: how many records count as synced,
/// and which records could not be stored.
#[derive(Debug)]
pub struct BatchResult {
    pub synced: usize,
    pub failed: Vec<FailedRecord>,
}

/// The responses of a batch, in order.
pub open spec fn detail_views(batch: Seq<DetailFetch>) -> Seq<DetailView> {
    Seq::new(batch.len(), |i: int| batch[i]@)
}

/// Reads the value filed under `property` among the named counters.
pub fn get_medal_hash_value(property: &str, medal_hash: &Vec<MedalValue>) -> (value: u32)
    ensures
        value == medal_value(medal_views(medal_hash@), property@),
{
    let key: String = property.to_owned();
    let mut i: usize = 0;
    assert(medal_views(medal_hash@).subrange(0, medal_hash.len() as int) == medal_views(
        medal_hash@,
    ));
    while i < medal_hash.len()
        invariant
            i <= medal_hash.len(),
            key@ == property@,
            medal_value(medal_views(medal_hash@), property@) == medal_value(
                medal_views(medal_hash@).subrange(i as int, medal_hash.len() as int),
                property@,
            ),
        decreases medal_hash.len() - i,
    {
        let ghost rest = medal_views(medal_hash@).subrange(i as int, medal_hash.len() as int);
        assert(rest[0] == medal_hash@[i as int]@);
        assert(rest.drop_first() == medal_views(medal_hash@).subrange(
            i as int + 1,
            medal_hash.len() as int,
        ));
        if medal_hash[i].key == key {
            return medal_hash[i].value;
        }
        i = i + 1;
    }
    assert(medal_views(medal_hash@).subrange(i as int, medal_hash.len() as int).len() == 0);
    0
}

} // verus!
