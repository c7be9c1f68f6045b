use ableton_palette::protocol::{
    CatalogItem, InsertionPosition, ItemKind, ItemSource, WorkflowAction, WorkflowDefinition,
};
use ableton_palette::store::{Store, StoreError};
use ableton_palette::workflow::WorkflowValidationError;

fn item(id: &str, name: &str) -> CatalogItem {
    CatalogItem {
        id: id.into(),
        kind: ItemKind::NativeDevice,
        source: ItemSource::LiveBrowser,
        name: name.into(),
        aliases: vec![],
        categories: vec![],
        tags: vec![],
        browser_path: vec![],
        compatible_tracks: vec![],
        favorite: false,
        pinned: false,
        usage_count: 0,
        last_used_at: None,
        metadata: serde_json::Value::Null,
    }
}

fn store_with(items: Vec<CatalogItem>) -> Store {
    let mut store = Store::in_memory().unwrap();
    store.upsert_catalog(&items).unwrap();
    store
}

#[test]
fn favorite_and_pin_read_back_for_that_item_only() {
    let mut store = store_with(vec![item("a", "Alpha"), item("b", "Beta")]);
    store.set_favorite("a", true).unwrap();
    store.set_pinned("a", true).unwrap();
    let a = store.get_item("a").unwrap().unwrap();
    let b = store.get_item("b").unwrap().unwrap();
    assert!(a.favorite && a.pinned);
    assert!(!b.favorite && !b.pinned);
    store.set_favorite("a", false).unwrap();
    assert!(!store.get_item("a").unwrap().unwrap().favorite);
    assert!(store.get_item("missing").unwrap().is_none());
}

#[test]
fn each_recorded_use_counts_once_with_its_time() {
    let mut store = store_with(vec![item("a", "Alpha"), item("b", "Beta")]);
    store.record_usage_at("a", 1_700_000_000).unwrap();
    store.record_usage_at("a", 1_700_000_100).unwrap();
    let a = store.get_item("a").unwrap().unwrap();
    assert_eq!(a.usage_count, 2);
    assert_eq!(a.last_used_at, Some(1_700_000_100));
    assert_eq!(store.get_item("b").unwrap().unwrap().usage_count, 0);
    store.record_usage("b").unwrap();
    let b = store.get_item("b").unwrap().unwrap();
    assert_eq!(b.usage_count, 1);
    assert!(b.last_used_at.unwrap() > 1_600_000_000);
}

#[test]
fn aliases_are_trimmed_merged_without_case_duplicates_and_removable() {
    let mut store = store_with(vec![item("a", "Alpha")]);
    store.add_alias("a", "  Verb ").unwrap();
    store.add_alias("a", "verb").unwrap();
    store.add_alias("a", "air").unwrap();
    assert_eq!(store.get_item("a").unwrap().unwrap().aliases, vec!["air", "Verb"]);
    store.remove_alias("a", "VERB").unwrap();
    assert_eq!(store.get_item("a").unwrap().unwrap().aliases, vec!["air"]);
    assert_eq!(store.add_alias("a", "   "), Err(StoreError::EmptyAlias));
}

#[test]
fn tags_round_trip_and_refuse_blanks() {
    let mut store = store_with(vec![item("a", "Alpha")]);
    store.add_tag("a", "warm").unwrap();
    assert_eq!(store.get_item("a").unwrap().unwrap().tags, vec!["warm"]);
    store.remove_tag("a", "Warm").unwrap();
    assert!(store.get_item("a").unwrap().unwrap().tags.is_empty());
    assert_eq!(store.add_tag("a", ""), Err(StoreError::EmptyTag));
}

#[test]
fn upserting_an_item_replaces_it_in_place() {
    let mut store = store_with(vec![item("a", "Alpha"), item("b", "Beta")]);
    store.upsert_catalog(&vec![item("a", "Alpha Two")]).unwrap();
    let listed = store.list_catalog().unwrap();
    assert_eq!(listed.len(), 2);
    assert_eq!(listed[0].name, "Alpha Two");
    assert_eq!(store.catalog_count().unwrap(), 2);
}

#[test]
fn hotkeys_rebind_by_accelerator_ignoring_case_and_clear() {
    let mut store = store_with(vec![]);
    store.set_hotkey(" cmd+shift+f ", "a").unwrap();
    store.set_hotkey("CMD+SHIFT+F", "b").unwrap();
    store.set_hotkey("cmd+a", "c").unwrap();
    let hotkeys = store.list_hotkeys().unwrap();
    assert_eq!(hotkeys.len(), 2);
    assert_eq!(hotkeys[0].accelerator, "cmd+a");
    assert_eq!(hotkeys[1].accelerator, "cmd+shift+f");
    assert_eq!(hotkeys[1].target_id, "b");
    store.clear_hotkey("Cmd+Shift+F").unwrap();
    assert_eq!(store.list_hotkeys().unwrap().len(), 1);
    assert_eq!(store.set_hotkey(" ", "a"), Err(StoreError::EmptyAccelerator));
    assert_eq!(store.set_hotkey("cmd+b", ""), Err(StoreError::EmptyTargetId));
}

fn workflow(id: &str, name: &str, actions: Vec<WorkflowAction>) -> WorkflowDefinition {
    WorkflowDefinition { id: id.into(), name: name.into(), description: String::new(), actions }
}

#[test]
fn invalid_workflows_are_refused_and_deleted_ones_leave_search() {
    let mut store = store_with(vec![]);
    let insert = WorkflowAction::InsertNative { name: "Utility".into(), position: InsertionPosition::End };
    assert_eq!(
        store.save_workflow(&workflow(" ", "Gain", vec![])),
        Err(StoreError::InvalidWorkflow(WorkflowValidationError::EmptyId))
    );
    assert_eq!(
        store.save_workflow(&workflow("g", "Gain", vec![])),
        Err(StoreError::InvalidWorkflow(WorkflowValidationError::NoActions))
    );
    let blank = WorkflowAction::InsertNative { name: "".into(), position: InsertionPosition::End };
    assert_eq!(
        store.save_workflow(&workflow("g", "Gain", vec![insert, blank])),
        Err(StoreError::InvalidWorkflow(WorkflowValidationError::EmptyActionValue { index: 1 }))
    );
    let insert = WorkflowAction::InsertNative { name: "Utility".into(), position: InsertionPosition::End };
    store.save_workflow(&workflow("g", "Gain", vec![insert])).unwrap();
    assert_eq!(store.get_item("workflow:g").unwrap().unwrap().kind, ItemKind::Workflow);
    store.delete_workflow("g").unwrap();
    assert!(store.get_workflow("g").unwrap().is_none());
    assert!(store.get_item("workflow:g").unwrap().is_none());
}

#[test]
fn deleting_a_workflow_leaves_the_others() {
    let mut store = store_with(vec![item("reverb", "Reverb")]);
    let insert = |name: &str| WorkflowAction::InsertNative { name: name.into(), position: InsertionPosition::End };
    let gain = workflow("g", "Gain", vec![insert("Utility")]);
    let mix = workflow("m", "Mix", vec![insert("EQ Eight"), insert("Compressor")]);
    store.save_workflow(&gain).unwrap();
    store.save_workflow(&mix).unwrap();
    store.delete_workflow("g").unwrap();
    assert!(store.get_workflow("g").unwrap().is_none());
    assert_eq!(store.get_workflow("m").unwrap(), Some(mix));
    assert_eq!(store.get_item("workflow:m").unwrap().unwrap().name, "Mix");
    assert_eq!(store.get_item("reverb").unwrap().unwrap().name, "Reverb");
    assert_eq!(store.list_workflows().unwrap().len(), 1);
}

#[test]
fn collections_add_remove_and_delete() {
    let mut store = store_with(vec![]);
    store.add_to_collection("Mixing", "a").unwrap();
    store.add_to_collection("mixing", "b").unwrap();
    store.create_collection("Drums").unwrap();
    let listed = store.list_collections().unwrap();
    assert_eq!(listed.len(), 2);
    assert_eq!(listed[0].name, "Drums");
    assert!(listed[0].item_ids.is_empty());
    assert_eq!(listed[1].item_ids, vec!["a", "b"]);
    store.remove_from_collection("MIXING", "a").unwrap();
    assert_eq!(store.list_collections().unwrap()[1].item_ids, vec!["b"]);
    store.delete_collection("mixing").unwrap();
    assert_eq!(store.list_collections().unwrap().len(), 1);
    assert_eq!(store.create_collection(" "), Err(StoreError::EmptyCollectionName));
    assert_eq!(store.add_to_collection("Drums", " "), Err(StoreError::EmptyItemId));
}

#[test]
fn search_limit_is_clamped_to_at_least_one() {
    let store = store_with(vec![item("a", "Alpha"), item("b", "Beta")]);
    assert_eq!(store.search("", 0).unwrap().len(), 1);
    assert_eq!(store.search("", 500).unwrap().len(), 2);
}

#[test]
fn store_errors_read_as_messages() {
    assert_eq!(StoreError::EmptyAlias.message(), "alias cannot be empty");
}

#[test]
fn metadata_is_carried_through_unchanged() {
    let metadata: serde_json::Value = serde_json::from_str("{\"vendor\":\"Vendor\",\"size\":3}").unwrap();
    let mut tagged = item("a", "Alpha");
    tagged.metadata = metadata.clone();
    let store = store_with(vec![tagged]);
    assert_eq!(store.get_item("a").unwrap().unwrap().metadata, metadata);
    assert_eq!(store.list_catalog().unwrap()[0].metadata["size"], 3);
}
