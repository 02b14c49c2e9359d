//! Read-through cache of reference definitions, keyed by the signed form of
//! the unsigned hashes that stored records carry.
//!
//! The reference dataset itself is read by the caller. A lookup first asks
//! the cache; on a miss the caller reads the dataset under the converted
//! identifier and hands what it found to the cache, which keeps what was
//! found and never what was not.

use crate::manifest::definitions::{
    ActivityDefinitionData, DisplayPropertiesData, HistoricalStatsDefinition,
    InventoryItemDefinitionData,
};
use std::collections::HashMap;
use vstd::prelude::*;

verus! {

broadcast use vstd::std_specs::hash::group_hash_axioms;

/// Name of the file that the reference dataset is kept in.
pub const MANIFEST_FILE_NAME: &'static str = "manifest.sqlite3";

/// The signed identifier under which the reference dataset files a hash:
/// the hash read as a 32-bit two's-complement number.
pub open spec fn spec_convert_hash_to_id(hash: u32) -> int {
    if hash >= 0x8000_0000u32 {
        hash as int - 0x1_0000_0000int
    } else {
        hash as int
    }
}

/// Converts an unsigned hash to the identifier used by the reference dataset.
pub fn convert_hash_to_id(hash: u32) -> (id: i64)
    ensures
        id as int == spec_convert_hash_to_id(hash),
        i32::MIN <= id <= i32::MAX,
{
    let wide: i64 = hash as i64;
    if hash >= 0x8000_0000u32 {
        wide - 0x1_0000_0000i64
    } else {
        wide
    }
}

/// One row found by a search of the whole reference dataset: the text of
/// the row as stored, and the display properties read from it.
#[derive(Debug)]
pub struct FindResult {
    pub raw_json: String,
    pub display_properties: DisplayPropertiesData,
}

/// A statistics definition under the key it was looked up by.
pub struct CachedStatsDefinition {
    pub key: String,
    pub definition: HistoricalStatsDefinition,
}

/// What the cache holds.
pub struct CacheState {
    pub activities: Map<i64, ActivityDefinitionData>,
    pub items: Map<i64, InventoryItemDefinitionData>,
    pub stats: Seq<CachedStatsDefinition>,
}

impl CacheState {
    /// Whether a statistics definition is cached under the key.
    pub open spec fn has_stats(self, key: Seq<char>) -> bool {
        exists|i: int| 0 <= i < self.stats.len() && (#[trigger] self.stats[i]).key@ == key
    }

    /// The position of the first statistics definition cached under the
    /// key.
    pub open spec fn stats_index(self, key: Seq<char>) -> int {
        choose|i: int|
            0 <= i < self.stats.len() && (#[trigger] self.stats[i]).key@ == key && forall|j: int|
                0 <= j < i ==> (#[trigger] self.stats[j]).key@ != key
    }

    /// The activity definition cached for a hash, if there is one.
    pub open spec fn activity(self, hash: u32) -> Option<ActivityDefinitionData> {
        let id = spec_convert_hash_to_id(hash) as i64;
        if self.activities.contains_key(id) {
            Some(self.activities[id])
        } else {
            None
        }
    }

    /// The item definition cached for a hash, if there is one.
    pub open spec fn item(self, hash: u32) -> Option<InventoryItemDefinitionData> {
        let id = spec_convert_hash_to_id(hash) as i64;
        if self.items.contains_key(id) {
            Some(self.items[id])
        } else {
            None
        }
    }

    /// The statistics definition cached under a key, if there is one.
    pub open spec fn stat(self, key: Seq<char>) -> Option<HistoricalStatsDefinition> {
        if self.has_stats(key) {
            Some(self.stats[self.stats_index(key)].definition)
        } else {
            None
        }
    }
}

pub struct ManifestInterface {
    activity_definition_cache: HashMap<i64, ActivityDefinitionData>,
    inventory_item_definition_cache: HashMap<i64, InventoryItemDefinitionData>,
    historical_stats_definition_cache: Vec<CachedStatsDefinition>,
}

impl View for ManifestInterface {
    type V = CacheState;

    closed spec fn view(&self) -> CacheState {
        CacheState {
            activities: self.activity_definition_cache@,
            items: self.inventory_item_definition_cache@,
            stats: self.historical_stats_definition_cache@,
        }
    }
}

impl ManifestInterface {
    /// A cache that holds nothing yet.
    pub fn new() -> (manifest: ManifestInterface)
        ensures
            manifest@.activities == Map::<i64, ActivityDefinitionData>::empty(),
            manifest@.items == Map::<i64, InventoryItemDefinitionData>::empty(),
            manifest@.stats == Seq::<CachedStatsDefinition>::empty(),
    {
        ManifestInterface {
            activity_definition_cache: HashMap::new(),
            inventory_item_definition_cache: HashMap::new(),
            historical_stats_definition_cache: Vec::new(),
        }
    }

    /// The activity definition that the cache holds for a hash.
    pub fn get_activity_definition(&self, id: u32) -> (found: Option<&ActivityDefinitionData>)
        ensures
            match found {
                Some(data) => self@.activity(id) == Some(*data),
                None => self@.activity(id) is None,
            },
    {
        let key = convert_hash_to_id(id);
        self.activity_definition_cache.get(&key)
    }

    /// Takes what the reference dataset holds for a hash that the cache
    /// missed: a definition is cached and given back, the lack of one is
    /// given back and not cached.
    pub fn cache_activity_definition(&mut self, id: u32, data: Option<ActivityDefinitionData>) -> (found:
        Option<ActivityDefinitionData>)
        ensures
            found == data,
            final(self)@.items == old(self)@.items,
            final(self)@.stats == old(self)@.stats,
            match data {
                Some(definition) => final(self)@.activities == old(self)@.activities.insert(
                    spec_convert_hash_to_id(id) as i64,
                    definition,
                ) && final(self)@.activity(id) == Some(definition),
                None => final(self)@.activities == old(self)@.activities,
            },
    {
        match data {
            Some(definition) => {
                let key = convert_hash_to_id(id);
                let copy = definition.clone();
                self.activity_definition_cache.insert(key, definition);
                Some(copy)
            },
            None => None,
        }
    }

    /// The item definition that the cache holds for a hash.
    pub fn get_iventory_item_definition(&self, id: u32) -> (found: Option<
        &InventoryItemDefinitionData,
    >)
        ensures
            match found {
                Some(data) => self@.item(id) == Some(*data),
                None => self@.item(id) is None,
            },
    {
        let key = convert_hash_to_id(id);
        self.inventory_item_definition_cache.get(&key)
    }

    /// Takes what the reference dataset holds for an item hash that the
    /// cache missed: a definition is cached and given back, the lack of one
    /// is given back and not cached.
    pub fn cache_iventory_item_definition(
        &mut self,
        id: u32,
        data: Option<InventoryItemDefinitionData>,
    ) -> (found: Option<InventoryItemDefinitionData>)
        ensures
            found == data,
            final(self)@.activities == old(self)@.activities,
            final(self)@.stats == old(self)@.stats,
            match data {
                Some(definition) => final(self)@.items == old(self)@.items.insert(
                    spec_convert_hash_to_id(id) as i64,
                    definition,
                ) && final(self)@.item(id) == Some(definition),
                None => final(self)@.items == old(self)@.items,
            },
    {
        match data {
            Some(definition) => {
                let key = convert_hash_to_id(id);
                let copy = definition.clone();
                self.inventory_item_definition_cache.insert(key, definition);
                Some(copy)
            },
            None => None,
        }
    }

    /// The position of the first statistics definition cached under a key.
    fn find_stats(&self, key: &String) -> (found: Option<usize>)
        ensures
            match found {
                Some(i) => {
                    &&& i < self@.stats.len()
                    &&& self@.has_stats(key@)
                    &&& i as int == self@.stats_index(key@)
                },
                None => !self@.has_stats(key@),
            },
    {
        let mut i: usize = 0;
        while i < self.historical_stats_definition_cache.len()
            invariant
                i <= self.historical_stats_definition_cache.len(),
                forall|j: int| 0 <= j < i ==> (#[trigger] self@.stats[j]).key@ != key@,
            decreases self.historical_stats_definition_cache.len() - i,
        {
            if self.historical_stats_definition_cache[i].key == *key {
                proof {
                    let at = self@.stats_index(key@);
                    assert(0 <= at < self@.stats.len() && self@.stats[at].key@ == key@ && forall|
                        j: int,
                    |
                        0 <= j < at ==> (#[trigger] self@.stats[j]).key@ != key@);
                    if at < i {
                        assert(self@.stats[at].key@ != key@);
                    } else if i < at {
                        assert(self@.stats[i as int].key@ != key@);
                    }
                }
                return Some(i);
            }
            i = i + 1;
        }
        None
    }

    /// The statistics definition that the cache holds under a key.
    pub fn get_historical_stats_definition(&self, id: &str) -> (found: Option<
        &HistoricalStatsDefinition,
    >)
        ensures
            match found {
                Some(data) => self@.stat(id@) == Some(*data),
                None => self@.stat(id@) is None,
            },
    {
        let key: String = id.to_owned();
        match self.find_stats(&key) {
            Some(i) => Some(&self.historical_stats_definition_cache[i].definition),
            None => None,
        }
    }

    /// Takes what the reference dataset holds under a statistics key that
    /// the cache missed: a definition is cached and given back, the lack of
    /// one is given back and not cached. A key that is cached already
    /// keeps its definition.
    pub fn cache_historical_stats_definition(
        &mut self,
        id: &str,
        data: Option<HistoricalStatsDefinition>,
    ) -> (found: Option<HistoricalStatsDefinition>)
        ensures
            found == data,
            final(self)@.activities == old(self)@.activities,
            final(self)@.items == old(self)@.items,
            match data {
                Some(definition) => if old(self)@.has_stats(id@) {
                    final(self)@.stats == old(self)@.stats
                } else {
                    &&& final(self)@.stats.len() == old(self)@.stats.len() + 1
                    &&& final(self)@.stats.drop_last() == old(self)@.stats
                    &&& final(self)@.stats.last().key@ == id@
                    &&& final(self)@.stats.last().definition == definition
                    &&& final(self)@.stat(id@) == Some(definition)
                },
                None => final(self)@.stats == old(self)@.stats,
            },
    {
        match data {
            Some(definition) => {
                let key: String = id.to_owned();
                let copy = definition.clone();
                if self.find_stats(&key).is_none() {
                    self.historical_stats_definition_cache.push(
                        CachedStatsDefinition { key, definition },
                    );
                    proof {
                        let at = old(self)@.stats.len() as int;
                        assert(self@.stats.drop_last() =~= old(self)@.stats);
                        assert(self@.stats[at].key@ == id@);
                        assert forall|j: int| 0 <= j < at implies (#[trigger] self@.stats[j]).key@
                            != id@ by {
                            assert(self@.stats[j] == old(self)@.stats[j]);
                        }
                        let chosen = self@.stats_index(id@);
                        if chosen < at {
                            assert(self@.stats[chosen].key@ != id@);
                        }
                    }
                }
                Some(copy)
            },
            None => None,
        }
    }
}

} // verus!
