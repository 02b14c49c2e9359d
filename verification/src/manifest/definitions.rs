//! The definition records of the reference dataset.

use crate::enums::{ItemSubType, ItemType, MedalTier};
use vstd::prelude::*;

verus! {

/// A copy of an optional text.
pub fn clone_text(text: &Option<String>) -> (copy: Option<String>)
    ensures
        copy == *text,
{
    match text {
        Some(t) => Some(t.clone()),
        None => None,
    }
}

#[derive(Debug)]
pub struct DisplayPropertiesData {
    pub description: Option<String>,
    pub name: String,
    pub icon_path: Option<String>,
    pub has_icon: bool,
}

impl Clone for DisplayPropertiesData {
    fn clone(&self) -> (copy: Self)
        ensures
            copy == *self,
    {
        DisplayPropertiesData {
            description: clone_text(&self.description),
            name: self.name.clone(),
            icon_path: clone_text(&self.icon_path),
            has_icon: self.has_icon,
        }
    }
}

#[derive(Debug)]
pub struct InventoryItemDefinitionData {
    pub id: u32,
    pub display_properties: DisplayPropertiesData,
    pub item_type_display_name: Option<String>,
    pub item_type_and_tier_display_name: Option<String>,
    pub item_type: ItemType,
    pub item_sub_type: ItemSubType,
}

impl Clone for InventoryItemDefinitionData {
    fn clone(&self) -> (copy: Self)
        ensures
            copy == *self,
    {
        InventoryItemDefinitionData {
            id: self.id,
            display_properties: self.display_properties.clone(),
            item_type_display_name: clone_text(&self.item_type_display_name),
            item_type_and_tier_display_name: clone_text(&self.item_type_and_tier_display_name),
            item_type: self.item_type,
            item_sub_type: self.item_sub_type,
        }
    }
}

#[derive(Debug)]
pub struct ActivityDefinitionData {
    pub id: u32,
    pub display_properties: DisplayPropertiesData,
    pub pgcr_image: Option<String>,
    pub destination_hash: u32,
    pub place_hash: u32,
    pub activity_type_hash: u32,
}

impl Clone for ActivityDefinitionData {
    fn clone(&self) -> (copy: Self)
        ensures
            copy == *self,
    {
        ActivityDefinitionData {
            id: self.id,
            display_properties: self.display_properties.clone(),
            pgcr_image: clone_text(&self.pgcr_image),
            destination_hash: self.destination_hash,
            place_hash: self.place_hash,
            activity_type_hash: self.activity_type_hash,
        }
    }
}

#[derive(Debug)]
pub struct DestinationDefinitionData {
    pub id: u32,
    pub display_properties: DisplayPropertiesData,
    pub place_hash: u32,
}

#[derive(Debug)]
pub struct HistoricalStatsDefinition {
    pub id: String,
    pub name: String,
    pub description: String,
    pub icon_image_path: Option<String>,
    pub weight: i32,
    pub medal_tier: Option<MedalTier>,
}

impl Clone for HistoricalStatsDefinition {
    fn clone(&self) -> (copy: Self)
        ensures
            copy == *self,
    {
        HistoricalStatsDefinition {
            id: self.id.clone(),
            name: self.name.clone(),
            description: self.description.clone(),
            icon_image_path: clone_text(&self.icon_image_path),
            weight: self.weight,
            medal_tier: self.medal_tier,
        }
    }
}

#[derive(Debug)]
pub struct PlaceDefinitionData {
    pub id: u32,
    pub display_properties: DisplayPropertiesData,
}

#[derive(Debug)]
pub struct ActivityTypeDefinitionData {
    pub id: u32,
    pub display_properties: DisplayPropertiesData,
}

} // verus!
