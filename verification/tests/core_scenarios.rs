use ableton_palette::command_bar::{kind_label, placement_label};
use ableton_palette::daemon::constant_time_eq;
use ableton_palette::live_database::{import_plugin_records, PluginRecord};
use ableton_palette::platform::is_ableton_identity;
use ableton_palette::protocol::{
    CatalogItem, InsertionPosition, ItemKind, ItemSource, PeerTarget, RequestKind, TrackKind,
    WorkflowAction, WorkflowDefinition,
};
use ableton_palette::ranking::rank_items;
use ableton_palette::settings::{ContentGroup, ContentVisibility, PaletteSettings};
use ableton_palette::store::Store;

fn ranked_item(id: &str, name: &str) -> CatalogItem {
    CatalogItem {
        id: id.into(),
        kind: ItemKind::NativeDevice,
        source: ItemSource::LiveBrowser,
        name: name.into(),
        aliases: vec![],
        categories: vec![],
        tags: vec![],
        browser_path: vec![],
        compatible_tracks: vec![],
        favorite: false,
        pinned: false,
        usage_count: 0,
        last_used_at: None,
        metadata: serde_json::Value::Null,
    }
}

fn stored_item() -> CatalogItem {
    CatalogItem {
        id: "browser:auto-filter".into(),
        kind: ItemKind::NativeDevice,
        source: ItemSource::LiveBrowser,
        name: "Auto Filter".into(),
        aliases: vec![],
        categories: vec!["Audio Effects".into()],
        tags: vec!["filter".into()],
        browser_path: vec!["Audio Effects".into(), "Auto Filter".into()],
        compatible_tracks: vec![],
        favorite: false,
        pinned: false,
        usage_count: 0,
        last_used_at: None,
        metadata: serde_json::Value::Null,
    }
}

#[test]
fn placement_labels_are_human_readable() {
    assert_eq!(placement_label(&InsertionPosition::AfterSelected), "After selected");
}

#[test]
fn every_catalog_kind_has_a_compact_label() {
    assert_eq!(kind_label(&ItemKind::Sample), "SAMPLE");
    assert_eq!(kind_label(&ItemKind::Plugin), "PLUG-IN");
}

#[test]
fn accepts_suite_and_beta_identity_but_not_other_apps() {
    assert!(is_ableton_identity(Some("com.ableton.live"), Some("Live")));
    assert!(is_ableton_identity(None, Some("Ableton Live 12 Beta")));
    assert!(!is_ableton_identity(Some("com.apple.finder"), Some("Finder")));
}

#[test]
fn groups_map_to_settings_and_default_visible() {
    let settings = PaletteSettings::default();
    assert_eq!(ContentGroup::for_kind(&ItemKind::Loop), ContentGroup::Loops);
    assert!(settings.visibility.is_visible(ContentGroup::Plugins));
}

#[test]
fn visibility_toggle_is_reversible() {
    let mut visibility = ContentVisibility::default();
    visibility.toggle(ContentGroup::Samples);
    assert!(!visibility.is_visible(ContentGroup::Samples));
    visibility.toggle(ContentGroup::Samples);
    assert!(visibility.is_visible(ContentGroup::Samples));
}

fn record(
    device_identifier: &str,
    name: &str,
    vendor: &str,
    version: &str,
    sdk_version: &str,
    scanstate: i64,
    subcategories: &str,
    enabled: i64,
) -> PluginRecord {
    PluginRecord {
        device_identifier: device_identifier.into(),
        name: name.into(),
        vendor: vendor.into(),
        version: version.into(),
        sdk_version: sdk_version.into(),
        subcategories: subcategories.into(),
        module_file: "/plugins/Synth.vst3".into(),
        enabled,
        scanstate,
    }
}

#[test]
fn imports_only_enabled_successfully_scanned_plugins() {
    // The index holds two plug-ins of one module: an enabled, scanned
    // instrument and a disabled effect.
    let records = vec![
        record("device:vst3:instr:abc", "Synth", "Vendor", "1.2", "VST 3.7", 1, "Instrument|Synth", 1),
        record("device:vst3:audiofx:disabled", "Disabled", "Vendor", "1", "VST", 1, "Fx", 0),
    ];
    let (items, summary) = import_plugin_records("palette-live-index.db".into(), 1, 2, &records);
    assert_eq!(items.len(), 1);
    assert_eq!(summary.instruments, 1);
    assert_eq!(summary.discovered, 2);
    assert_eq!(items[0].source, ItemSource::LiveDatabase);
    assert_eq!(items[0].compatible_tracks, vec![TrackKind::Midi]);
    assert_eq!(items[0].metadata["vendor"], "Vendor");
}

#[test]
fn aliases_and_preferences_influence_results() {
    let reverb = ranked_item("reverb", "Reverb");
    let mut filter = ranked_item("filter", "Auto Filter");
    filter.aliases.push("verb".into());
    filter.favorite = true;
    assert_eq!(rank_items("verb", vec![reverb, filter], 1)[0].id, "filter");
}

#[test]
fn empty_query_prioritizes_pins() {
    let first = ranked_item("first", "Alpha");
    let mut second = ranked_item("second", "Zulu");
    second.pinned = true;
    assert_eq!(rank_items("", vec![first, second], 10)[0].id, "second");
}

#[test]
fn catalog_and_personalization_round_trip() {
    let mut store = Store::in_memory().unwrap();
    store.upsert_catalog(&vec![stored_item()]).unwrap();
    store.add_alias("browser:auto-filter", "af").unwrap();
    store.set_favorite("browser:auto-filter", true).unwrap();
    store.record_usage("browser:auto-filter").unwrap();
    let result = store.search("af", 10).unwrap().remove(0);
    assert!(result.favorite);
    assert_eq!(result.usage_count, 1);
    assert!(result.aliases.contains(&"af".into()));
}

fn vocal_chain() -> WorkflowDefinition {
    WorkflowDefinition {
        id: "vocal".into(),
        name: "Vocal Chain".into(),
        description: String::new(),
        actions: vec![WorkflowAction::InsertNative {
            name: "EQ Eight".into(),
            position: InsertionPosition::End,
        }],
    }
}

#[test]
fn workflows_are_validated_and_persisted() {
    let mut store = Store::in_memory().unwrap();
    let workflow = vocal_chain();
    store.save_workflow(&workflow).unwrap();
    assert_eq!(store.get_workflow("vocal").unwrap(), Some(vocal_chain()));
    assert_eq!(store.list_workflows().unwrap().len(), 1);
    assert_eq!(store.search("Vocal Chain", 10).unwrap()[0].kind, ItemKind::Workflow);
}

#[test]
fn tags_collections_and_hotkeys_round_trip() {
    let mut store = Store::in_memory().unwrap();
    store.upsert_catalog(&vec![stored_item()]).unwrap();
    store.add_tag("browser:auto-filter", "go-to").unwrap();
    assert!(store.search("go-to", 10).unwrap()[0].tags.contains(&"go-to".into()));

    store.create_collection("Mixing").unwrap();
    store.add_to_collection("Mixing", "browser:auto-filter").unwrap();
    assert_eq!(store.list_collections().unwrap()[0].item_ids, vec!["browser:auto-filter"]);

    store.set_hotkey("cmd+shift+f", "browser:auto-filter").unwrap();
    assert_eq!(store.list_hotkeys().unwrap()[0].target_id, "browser:auto-filter");
}

#[test]
fn token_comparison_rejects_length_and_content_changes() {
    assert!(constant_time_eq("abc", "abc"));
    assert!(!constant_time_eq("abc", "abd"));
    assert!(!constant_time_eq("abc", "ab"));
}

#[test]
fn routing_targets_are_explicit() {
    assert_eq!(RequestKind::GetContext.target(), PeerTarget::Bridge);
    assert_eq!(RequestKind::Status.target(), PeerTarget::Daemon);
    assert_eq!(
        RequestKind::SdkInsertNative { name: "Reverb".into(), position: InsertionPosition::End }.target(),
        PeerTarget::Extension
    );
}
