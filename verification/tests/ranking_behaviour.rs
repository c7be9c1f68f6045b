use ableton_palette::live_database::{import_chosen, import_plugin_records, records_to_import, PluginRecord};
use ableton_palette::protocol::{CatalogItem, ItemKind, ItemSource, TrackKind};
use ableton_palette::ranking::{rank_items, rank_items_checked, rank_with_scores};
use ableton_palette::workflow::{validate_workflow, WorkflowValidationError};
use ableton_palette::protocol::{WorkflowAction, WorkflowDefinition};

fn item(id: &str, name: &str) -> CatalogItem {
    CatalogItem {
        id: id.into(),
        kind: ItemKind::NativeDevice,
        source: ItemSource::LiveBrowser,
        name: name.into(),
        aliases: vec![],
        categories: vec![],
        tags: vec![],
        browser_path: vec![],
        compatible_tracks: vec![],
        favorite: false,
        pinned: false,
        usage_count: 0,
        last_used_at: None,
        metadata: serde_json::Value::Null,
    }
}

#[test]
fn an_exact_name_outranks_a_longer_match() {
    let results = rank_items("  REVERB ", vec![item("h", "Hybrid Reverb"), item("r", "Reverb")], 10);
    let ids: Vec<&str> = results.iter().map(|i| i.id.as_str()).collect();
    assert_eq!(ids, vec!["r", "h"]);
}

#[test]
fn non_matching_items_are_left_out_and_the_limit_holds() {
    let items = vec![item("a", "Echo"), item("b", "Reverb"), item("c", "Delay"), item("d", "Reverse")];
    let results = rank_items("rev", items, 1);
    assert_eq!(results.len(), 1);
    assert_eq!(results[0].id, "b");
    let none = rank_items("zzzz", vec![item("a", "Echo")], 5);
    assert!(none.is_empty());
}

#[test]
fn empty_query_orders_pins_then_favorites_then_use() {
    let mut used = item("used", "Used");
    used.usage_count = 9;
    let mut favorite = item("fav", "Fav");
    favorite.favorite = true;
    let mut pinned = item("pin", "Pin");
    pinned.pinned = true;
    let results = rank_items(" ", vec![item("plain", "Plain"), used, favorite, pinned], 10);
    let ids: Vec<&str> = results.iter().map(|i| i.id.as_str()).collect();
    assert_eq!(ids, vec!["pin", "fav", "used", "plain"]);
}

#[test]
fn checked_ranking_agrees_when_texts_fit() {
    let results = rank_items_checked("echo", vec![item("a", "Echo"), item("b", "Delay")], 10).unwrap();
    assert_eq!(results.len(), 1);
    assert_eq!(results[0].id, "a");
}

#[test]
fn ranking_returns_each_item_at_most_as_often_as_given() {
    let items = || vec![item("a", "Reverb"), item("b", "Reverb Long"), item("c", "Delay"), item("d", "Hall Reverb")];
    for query in ["", "rev", "reverb", "zzz"] {
        let results = rank_items(query, items(), 10);
        let mut ids: Vec<&str> = results.iter().map(|r| r.id.as_str()).collect();
        assert!(ids.iter().all(|id| ["a", "b", "c", "d"].contains(id)));
        ids.sort();
        ids.dedup();
        assert_eq!(ids.len(), results.len());
    }
    assert_eq!(rank_items("  ", items(), 2).len(), 2);
    assert_eq!(rank_items("zzz", items(), 10).len(), 0);
}

#[test]
fn plugin_imports_carry_format_kind_and_vendor() {
    let record = PluginRecord {
        device_identifier: "device:vst3:audiofx:xyz".into(),
        name: "Trackspacer 2.5".into(),
        vendor: "Wavesfactory".into(),
        version: "2.5".into(),
        sdk_version: "VST 3.7".into(),
        subcategories: "Fx| Dynamics |".into(),
        module_file: "/p/Trackspacer.vst3".into(),
        enabled: 1,
        scanstate: 1,
    };
    let (items, summary) = import_plugin_records("/db".into(), 7, -3, &vec![record]);
    let plugin = &items[0];
    assert_eq!(plugin.id, "live-plugin:device:vst3:audiofx:xyz");
    assert_eq!(plugin.kind, ItemKind::Plugin);
    assert_eq!(plugin.tags, vec!["VST3", "Fx", "Dynamics", "Wavesfactory"]);
    assert_eq!(plugin.categories, vec!["Plug-Ins", "Audio Effects", "Wavesfactory"]);
    assert_eq!(plugin.compatible_tracks, vec![TrackKind::Audio, TrackKind::Midi, TrackKind::Return]);
    assert_eq!(plugin.metadata["browser_resolved"], false);
    assert_eq!(plugin.metadata["ableton_index_schema"], 7);
    assert_eq!(plugin.metadata["device_identifier"], "device:vst3:audiofx:xyz");
    assert_eq!(plugin.metadata["vendor"], "Wavesfactory");
    assert_eq!(plugin.metadata["version"], "2.5");
    assert_eq!(plugin.metadata["sdk_version"], "VST 3.7");
    assert_eq!(plugin.metadata["subcategories"], "Fx| Dynamics |");
    assert_eq!(plugin.metadata["module_path"], "/p/Trackspacer.vst3");
    assert_eq!(plugin.metadata["plugin_format"], "VST3");
    assert_eq!(plugin.metadata.as_object().map(|m| m.len()), Some(9));
    assert_eq!(summary.discovered, 0);
    assert_eq!((summary.audio_effects, summary.instruments, summary.vendors), (1, 0, 1));
    assert_eq!(summary.schema_version, 7);
}

#[test]
fn workflow_checks_come_in_order() {
    let action = |name: &str| WorkflowAction::RenameTrack { name: name.into() };
    let w = |id: &str, name: &str, actions: Vec<WorkflowAction>| WorkflowDefinition {
        id: id.into(),
        name: name.into(),
        description: String::new(),
        actions,
    };
    assert_eq!(validate_workflow(&w("a", " ", vec![])), Err(WorkflowValidationError::EmptyName));
    let many: Vec<WorkflowAction> = (0..65).map(|_| action("x")).collect();
    assert_eq!(validate_workflow(&w("a", "A", many)), Err(WorkflowValidationError::TooManyActions));
    let nan = WorkflowAction::SetParameter {
        device_name: "EQ".into(),
        parameter_name: "Gain".into(),
        value_bits: f64::NAN.to_bits(),
    };
    assert_eq!(
        validate_workflow(&w("a", "A", vec![action("x"), nan])),
        Err(WorkflowValidationError::NonFiniteParameter { index: 1 })
    );
    let fine = WorkflowAction::SetParameter {
        device_name: "EQ".into(),
        parameter_name: "Gain".into(),
        value_bits: 0.5f64.to_bits(),
    };
    assert_eq!(validate_workflow(&w("a", "A", vec![fine])), Ok(()));
}

#[test]
fn ranking_by_given_scores_adds_the_bonuses() {
    let mut pinned = item("p", "Plate");
    pinned.pinned = true;
    let items = vec![item("e", "Echo"), pinned, item("x", "Exact")];
    let fuzzy = vec![Some(900), Some(10), None];
    let names = vec!["echo".to_string(), "plate".to_string(), "ex".to_string()];
    // Echo: 900; Plate: 10 + 1000 (pinned); Exact has no score and is left out.
    let results = rank_with_scores("ex", items, &fuzzy, &names, 10);
    let ids: Vec<&str> = results.iter().map(|i| i.id.as_str()).collect();
    assert_eq!(ids, vec!["p", "e"]);
    let items = vec![item("a", "A"), item("b", "B")];
    let names = vec!["ab".to_string(), "b".to_string()];
    // "ab" starts with "a" (1500 more) and ties break on the lowercase name.
    let results = rank_with_scores("a", items, &vec![Some(5), Some(1505)], &names, 10);
    let ids: Vec<&str> = results.iter().map(|i| i.id.as_str()).collect();
    assert_eq!(ids, vec!["a", "b"]);
}

fn plugin(identifier: &str, name: &str, vendor: &str) -> PluginRecord {
    PluginRecord {
        device_identifier: identifier.into(),
        name: name.into(),
        vendor: vendor.into(),
        version: "1".into(),
        sdk_version: "VST".into(),
        subcategories: String::new(),
        module_file: String::new(),
        enabled: 1,
        scanstate: 1,
    }
}

#[test]
fn vendors_are_counted_without_case() {
    let records = vec![
        plugin("device:vst:audiofx:b", "Beta", "Vendor"),
        plugin("device:au:audiofx:a", "alpha", "VENDOR"),
        plugin("device:vst3:instr:c", "Gamma", ""),
    ];
    let (items, summary) = import_plugin_records("/db".into(), 1, 3, &records);
    let names: Vec<&str> = items.iter().map(|i| i.name.as_str()).collect();
    assert_eq!(names, vec!["alpha", "Beta", "Gamma"]);
    assert_eq!(summary.vendors, 1);
    assert_eq!(items[0].tags[0], "AU");
    assert_eq!(items[2].tags, vec!["VST3"]);
}

#[test]
fn importing_chosen_records_uses_the_given_formats_and_keys() {
    let chosen = records_to_import(&vec![plugin("device:vst:audiofx:b", "Beta", "Vendor")]);
    let (items, summary) = import_chosen(
        "/db".into(),
        1,
        1,
        &chosen,
        &vec!["FORMAT".to_string()],
        &vec!["key".to_string()],
    );
    assert_eq!(items[0].tags, vec!["FORMAT", "Vendor"]);
    assert_eq!(summary.vendors, 1);
}
