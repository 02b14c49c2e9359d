use dcli::manifest::definitions::{
    clone_text, ActivityDefinitionData, DisplayPropertiesData, HistoricalStatsDefinition,
    InventoryItemDefinitionData,
};
use dcli::enums::{ItemSubType, ItemType, MedalTier};
use dcli::manifestinterface::{convert_hash_to_id, ManifestInterface, MANIFEST_FILE_NAME};

fn display(name: &str) -> DisplayPropertiesData {
    DisplayPropertiesData {
        description: Some(format!("about {}", name)),
        name: name.to_string(),
        icon_path: Some("/icon.png".to_string()),
        has_icon: true,
    }
}

fn activity(id: u32, name: &str) -> ActivityDefinitionData {
    ActivityDefinitionData {
        id,
        display_properties: display(name),
        pgcr_image: Some("/pgcr.jpg".to_string()),
        destination_hash: 11,
        place_hash: 12,
        activity_type_hash: 13,
    }
}

fn item(id: u32, name: &str) -> InventoryItemDefinitionData {
    InventoryItemDefinitionData {
        id,
        display_properties: display(name),
        item_type_display_name: None,
        item_type_and_tier_display_name: Some("Legendary".to_string()),
        item_type: ItemType { id: 3 },
        item_sub_type: ItemSubType { id: 11 },
    }
}

fn stat(key: &str, name: &str) -> HistoricalStatsDefinition {
    HistoricalStatsDefinition {
        id: key.to_string(),
        name: name.to_string(),
        description: "text".to_string(),
        icon_image_path: None,
        weight: 4,
        medal_tier: Some(MedalTier { id: 7 }),
    }
}

#[test]
fn empty_cache_misses_everything() {
    let m = ManifestInterface::new();
    assert!(m.get_activity_definition(1).is_none());
    assert!(m.get_iventory_item_definition(1).is_none());
    assert!(m.get_historical_stats_definition("medal").is_none());
    assert_eq!(MANIFEST_FILE_NAME, "manifest.sqlite3");
}

#[test]
fn found_definition_is_cached_and_given_back() {
    let mut m = ManifestInterface::new();
    let given = m.cache_activity_definition(5, Some(activity(5, "Midtown")));
    assert_eq!(given.unwrap().display_properties.name, "Midtown");
    let cached = m.get_activity_definition(5).unwrap();
    assert_eq!(cached.id, 5);
    assert_eq!(cached.display_properties.name, "Midtown");
    assert_eq!(cached.display_properties.description, Some("about Midtown".to_string()));
    assert_eq!(cached.pgcr_image, Some("/pgcr.jpg".to_string()));
    assert_eq!(cached.place_hash, 12);
    assert!(m.get_activity_definition(6).is_none());
    assert!(m.get_iventory_item_definition(5).is_none());
}

#[test]
fn misses_are_not_cached() {
    let mut m = ManifestInterface::new();
    assert!(m.cache_activity_definition(5, None).is_none());
    assert!(m.get_activity_definition(5).is_none());
    assert!(m.cache_iventory_item_definition(5, None).is_none());
    assert!(m.get_iventory_item_definition(5).is_none());
    assert!(m.cache_historical_stats_definition("k", None).is_none());
    assert!(m.get_historical_stats_definition("k").is_none());
    // A later find is cached as if the miss had never been.
    assert!(m.cache_activity_definition(5, Some(activity(5, "Midtown"))).is_some());
    assert!(m.get_activity_definition(5).is_some());
}

#[test]
fn cache_is_keyed_by_the_converted_identifier() {
    let mut m = ManifestInterface::new();
    assert_eq!(convert_hash_to_id(4_294_967_295), -1);
    assert_eq!(convert_hash_to_id(2_147_483_648), -2_147_483_648);
    m.cache_iventory_item_definition(4_294_967_295, Some(item(4_294_967_295, "Ace of Spades")));
    m.cache_iventory_item_definition(2_147_483_648, Some(item(2_147_483_648, "Thorn")));
    m.cache_iventory_item_definition(1, Some(item(1, "Lumina")));
    assert_eq!(m.get_iventory_item_definition(4_294_967_295).unwrap().display_properties.name, "Ace of Spades");
    assert_eq!(m.get_iventory_item_definition(2_147_483_648).unwrap().display_properties.name, "Thorn");
    assert_eq!(m.get_iventory_item_definition(1).unwrap().display_properties.name, "Lumina");
    assert!(m.get_iventory_item_definition(2_147_483_647).is_none());
    assert!(m.get_iventory_item_definition(0).is_none());
}

#[test]
fn a_later_definition_for_a_hash_replaces_the_earlier() {
    let mut m = ManifestInterface::new();
    m.cache_iventory_item_definition(9, Some(item(9, "Old")));
    m.cache_iventory_item_definition(9, Some(item(9, "New")));
    assert_eq!(m.get_iventory_item_definition(9).unwrap().display_properties.name, "New");
}

#[test]
fn statistics_definitions_are_cached_by_key() {
    let mut m = ManifestInterface::new();
    let given = m.cache_historical_stats_definition("medalA", Some(stat("medalA", "First")));
    assert_eq!(given.unwrap().name, "First");
    m.cache_historical_stats_definition("medalB", Some(stat("medalB", "Second")));
    assert_eq!(m.get_historical_stats_definition("medalA").unwrap().name, "First");
    assert_eq!(m.get_historical_stats_definition("medalB").unwrap().name, "Second");
    assert_eq!(m.get_historical_stats_definition("medalB").unwrap().medal_tier, Some(MedalTier { id: 7 }));
    assert!(m.get_historical_stats_definition("medalC").is_none());
    assert!(m.get_historical_stats_definition("medala").is_none());
    assert!(m.get_historical_stats_definition("").is_none());
}

#[test]
fn a_cached_statistics_key_keeps_its_definition() {
    let mut m = ManifestInterface::new();
    m.cache_historical_stats_definition("medalA", Some(stat("medalA", "First")));
    let given = m.cache_historical_stats_definition("medalA", Some(stat("medalA", "Again")));
    assert_eq!(given.unwrap().name, "Again");
    assert_eq!(m.get_historical_stats_definition("medalA").unwrap().name, "First");
}

#[test]
fn definitions_are_copied_field_by_field() {
    let a = activity(5, "Midtown");
    let b = a.clone();
    assert_eq!(b.id, 5);
    assert_eq!(b.display_properties.name, "Midtown");
    assert_eq!(b.display_properties.icon_path, Some("/icon.png".to_string()));
    assert!(b.display_properties.has_icon);
    assert_eq!(b.destination_hash, 11);
    assert_eq!(b.activity_type_hash, 13);
    let i = item(3, "Thorn").clone();
    assert_eq!(i.item_type_and_tier_display_name, Some("Legendary".to_string()));
    assert_eq!(i.item_type_display_name, None);
    assert_eq!(i.item_sub_type, ItemSubType { id: 11 });
    let s = stat("k", "Name").clone();
    assert_eq!(s.id, "k");
    assert_eq!(s.description, "text");
    assert_eq!(s.weight, 4);
    assert_eq!(clone_text(&None), None);
    assert_eq!(clone_text(&Some("x".to_string())), Some("x".to_string()));
}
