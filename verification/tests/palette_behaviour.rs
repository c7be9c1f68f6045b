use ableton_palette::command_bar::{group_heading, group_results, result_child_index, result_detail, result_path};
use ableton_palette::palette::{
    help_line, hotkey_action, Activity, CommandPalette, HotkeyAction, KeyEffect, Keystroke, Pending,
    ViewMode,
};
use ableton_palette::platform::ableton_is_frontmost;
use ableton_palette::protocol::{
    CatalogItem, CatalogScanSummary, InsertionPosition, ItemKind, ItemSource, LiveContext,
    RequestKind, ResponseData, TrackKind,
};
use ableton_palette::settings::{ContentGroup, PaletteSettings};

fn item(id: &str, kind: ItemKind, name: &str) -> CatalogItem {
    CatalogItem {
        id: id.into(),
        kind,
        source: ItemSource::LiveBrowser,
        name: name.into(),
        aliases: vec![],
        categories: vec![],
        tags: vec![],
        browser_path: vec![],
        compatible_tracks: vec![],
        favorite: false,
        pinned: false,
        usage_count: 0,
        last_used_at: None,
        metadata: serde_json::Value::Null,
    }
}

fn key(name: &str) -> Keystroke {
    Keystroke { key: name.into(), key_char: None, platform: false, control: false, shift: false }
}

fn command(name: &str) -> Keystroke {
    Keystroke { key: name.into(), key_char: None, platform: true, control: false, shift: false }
}

fn typed(text: &str) -> Keystroke {
    Keystroke { key: text.into(), key_char: Some(text.into()), platform: false, control: false, shift: false }
}

fn search_generation(effect: &KeyEffect) -> u64 {
    match effect {
        KeyEffect::Send(Pending::Search { generation }, RequestKind::Search { limit, .. }) => {
            assert_eq!(*limit, 200);
            *generation
        }
        other => panic!("expected a search, got {other:?}"),
    }
}

/// A palette showing three results: two plug-ins and a device.
fn palette_with_results() -> CommandPalette {
    let mut palette = CommandPalette::new(PaletteSettings::default(), true);
    let generation = search_generation(&palette.handle_key(&typed("r")));
    let items = vec![
        item("p1", ItemKind::Plugin, "Raum"),
        item("d1", ItemKind::NativeDevice, "Reverb"),
        item("p2", ItemKind::Plugin, "Replika"),
    ];
    palette.search_answered(generation, Ok(ResponseData::SearchResults(items)));
    palette
}

#[test]
fn palette_opens_in_search_with_a_prompt() {
    let palette = CommandPalette::new(PaletteSettings::default(), true);
    assert_eq!(palette.notice, "Type to search Live's Browser");
    assert_eq!(palette.placement, InsertionPosition::AfterSelected);
    assert_eq!(palette.mode, ViewMode::Search);
    assert_eq!(palette.activity, Activity::Idle);
    assert_eq!(palette.title(), "Search devices, plug-ins, presets, racks, samples, commands\u{2026}");
}

#[test]
fn typing_searches_for_the_query() {
    let mut palette = CommandPalette::new(PaletteSettings::default(), true);
    let effect = palette.handle_key(&typed("v"));
    match effect {
        KeyEffect::Send(Pending::Search { generation: 1 }, RequestKind::Search { query, limit: 200 }) => {
            assert_eq!(query, "v")
        }
        other => panic!("unexpected {other:?}"),
    }
    assert_eq!(palette.activity, Activity::Searching);
    assert_eq!(palette.title(), "v\u{258e}");
}

#[test]
fn searching_without_a_service_only_sets_a_notice() {
    let mut palette = CommandPalette::new(PaletteSettings::default(), false);
    assert_eq!(palette.handle_key(&typed("v")), KeyEffect::Nothing);
    assert_eq!(palette.notice, "Palette service is not installed or configured");
    assert_eq!(palette.query, "v");
    assert_eq!(palette.generation, 0);
}

#[test]
fn results_are_grouped_in_ranked_order_and_counted() {
    let palette = palette_with_results();
    let ids: Vec<&str> = palette.results.iter().map(|i| i.id.as_str()).collect();
    assert_eq!(ids, vec!["d1", "p1", "p2"]);
    assert_eq!(palette.notice, "3 matches");
    assert_eq!(palette.selected, 0);
    assert_eq!(palette.activity, Activity::Idle);
}

#[test]
fn hidden_groups_are_left_out_of_results() {
    let mut settings = PaletteSettings::default();
    settings.visibility.toggle(ContentGroup::Plugins);
    let shown = group_results(
        vec![
            item("p1", ItemKind::Plugin, "Raum"),
            item("x", ItemKind::Unknown, "Thing"),
            item("d1", ItemKind::NativeDevice, "Reverb"),
        ],
        &settings,
    );
    let ids: Vec<&str> = shown.iter().map(|i| i.id.as_str()).collect();
    assert_eq!(ids, vec!["d1", "x"]);
}

#[test]
fn empty_results_suggest_a_refresh() {
    let mut palette = CommandPalette::new(PaletteSettings::default(), true);
    let generation = search_generation(&palette.handle_key(&typed("zz")));
    palette.search_answered(generation, Ok(ResponseData::SearchResults(vec![])));
    assert_eq!(palette.notice, "No matches \u{2014} press \u{2318}R to refresh the Browser index");
}

#[test]
fn a_stale_search_reply_is_ignored() {
    let mut palette = palette_with_results();
    let older = palette.generation;
    let newer = search_generation(&palette.handle_key(&typed("e")));
    assert_eq!(newer, older + 1);
    palette.search_answered(older, Ok(ResponseData::SearchResults(vec![])));
    assert_eq!(palette.results.len(), 3);
    assert_eq!(palette.activity, Activity::Searching);
}

#[test]
fn failed_and_unexpected_search_replies_show_a_notice() {
    let mut palette = CommandPalette::new(PaletteSettings::default(), true);
    let g = search_generation(&palette.handle_key(&typed("a")));
    palette.search_answered(g, Err(String::new()));
    assert_eq!(palette.notice, "Command failed");
    let g = search_generation(&palette.handle_key(&typed("b")));
    palette.search_answered(g, Ok(ResponseData::Pong));
    assert_eq!(palette.notice, "Unexpected search response");
}

#[test]
fn selection_wraps_and_scrolls_past_headings() {
    let mut palette = palette_with_results();
    // Up from the first result wraps to the last, below two headings.
    assert_eq!(palette.handle_key(&key("up")), KeyEffect::ScrollTo(4));
    assert_eq!(palette.selected, 2);
    assert_eq!(palette.handle_key(&key("down")), KeyEffect::ScrollTo(1));
    assert_eq!(palette.selected, 0);
    assert_eq!(palette.move_selection(1), Some(3));
    assert_eq!(palette.move_selection(-1), Some(1));
    assert_eq!(palette.selected, 0);
    assert_eq!(result_child_index(&palette.results, 1), 3);
}

#[test]
fn moving_without_results_does_nothing() {
    let mut palette = CommandPalette::new(PaletteSettings::default(), true);
    assert_eq!(palette.move_selection(1), None);
    assert_eq!(palette.handle_key(&key("down")), KeyEffect::Nothing);
    assert_eq!(palette.selected, 0);
}

#[test]
fn tab_cycles_four_placements_and_back() {
    let mut palette = CommandPalette::new(PaletteSettings::default(), true);
    palette.handle_key(&key("tab"));
    assert_eq!(palette.placement, InsertionPosition::End);
    palette.handle_key(&key("tab"));
    assert_eq!(palette.placement, InsertionPosition::Beginning);
    palette.handle_key(&key("tab"));
    palette.handle_key(&key("tab"));
    assert_eq!(palette.placement, InsertionPosition::AfterSelected);
    let mut shift_tab = key("tab");
    shift_tab.shift = true;
    palette.handle_key(&shift_tab);
    assert_eq!(palette.placement, InsertionPosition::BeforeSelected);
}

#[test]
fn escape_closes_from_search_and_returns_from_other_views() {
    let mut palette = palette_with_results();
    palette.handle_key(&command(","));
    assert_eq!(palette.mode, ViewMode::Settings);
    assert_eq!(palette.handle_key(&key("escape")), KeyEffect::Nothing);
    assert_eq!(palette.mode, ViewMode::Search);
    palette.handle_key(&command("k"));
    assert_eq!(palette.mode, ViewMode::ItemActions);
    assert_eq!(palette.handle_key(&key("escape")), KeyEffect::Nothing);
    assert_eq!(palette.mode, ViewMode::Search);
    assert_eq!(palette.handle_key(&key("escape")), KeyEffect::Close);
}

#[test]
fn settings_cursor_wraps_and_toggles_groups() {
    let mut palette = palette_with_results();
    assert_eq!(palette.handle_key(&command(",")), KeyEffect::Nothing);
    assert_eq!(palette.notice, "Choose which content groups appear in search");
    assert_eq!(palette.title(), "Search content settings");
    palette.handle_key(&key("up"));
    assert_eq!(palette.settings_selected, 8);
    palette.handle_key(&key("down"));
    palette.handle_key(&key("down"));
    assert_eq!(palette.settings_selected, 1);
    assert_eq!(palette.handle_key(&key("space")), KeyEffect::SaveSettings(ContentGroup::Plugins));
    assert!(!palette.settings.visibility.is_visible(ContentGroup::Plugins));
    let out = palette.settings_saved(ContentGroup::Plugins, Ok(()));
    assert!(matches!(out, Some((Pending::Search { .. }, RequestKind::Search { .. }))));
    assert_eq!(palette.notice, "Plug-ins preference saved");
    assert_eq!(palette.handle_key(&key("enter")), KeyEffect::SaveSettings(ContentGroup::Plugins));
    assert!(palette.settings.visibility.is_visible(ContentGroup::Plugins));
    palette.settings_saved(ContentGroup::Plugins, Err("disk full".into()));
    assert_eq!(palette.notice, "Could not save settings: disk full");
    assert_eq!(palette.toggle_setting(9), None);
}

#[test]
fn leaving_settings_with_command_comma_searches_again() {
    let mut palette = palette_with_results();
    palette.handle_key(&command(","));
    let g = search_generation(&palette.handle_key(&command(",")));
    assert_eq!(g, palette.generation);
    assert_eq!(palette.mode, ViewMode::Search);
}

#[test]
fn favorite_action_flips_the_mark_and_searches_again() {
    let mut palette = palette_with_results();
    palette.handle_key(&command("k"));
    assert_eq!(palette.title(), "Actions for Reverb");
    assert_eq!(palette.favorite_action(), ("Add to favorites", "Reverb".to_string()));
    let effect = palette.handle_key(&key("enter"));
    match effect {
        KeyEffect::Send(
            Pending::Favorite { label, favorite: true },
            RequestKind::SetFavorite { item_id, favorite: true },
        ) => {
            assert_eq!(label, "Reverb");
            assert_eq!(item_id, "d1");
        }
        other => panic!("unexpected {other:?}"),
    }
    assert_eq!(palette.notice, "Adding Reverb to favorites\u{2026}");
    assert_eq!(palette.activity, Activity::Running);
    let out = palette.favorite_answered("Reverb".into(), true, Ok(ResponseData::Ack));
    assert!(matches!(out, Some((Pending::Search { .. }, _))));
    assert_eq!(palette.notice, "Reverb added to favorites");
    assert_eq!(palette.mode, ViewMode::Search);
    let out = palette.favorite_answered("Reverb".into(), false, Ok(ResponseData::Pong));
    assert!(out.is_none());
    assert_eq!(palette.notice, "Unexpected favorite response");
}

#[test]
fn choosing_a_workflow_runs_it_by_its_own_id() {
    let mut palette = CommandPalette::new(PaletteSettings::default(), true);
    let g = search_generation(&palette.handle_key(&typed("v")));
    palette.search_answered(
        g,
        Ok(ResponseData::SearchResults(vec![item("workflow:vocal", ItemKind::Workflow, "Vocal Chain")])),
    );
    match palette.handle_key(&key("enter")) {
        KeyEffect::Send(Pending::Execute { label }, RequestKind::RunWorkflow { workflow_id }) => {
            assert_eq!(label, "Vocal Chain");
            assert_eq!(workflow_id, "vocal");
        }
        other => panic!("unexpected {other:?}"),
    }
    assert_eq!(palette.notice, "Adding Vocal Chain\u{2026}");
}

#[test]
fn choosing_an_item_loads_it_at_the_placement() {
    let mut palette = palette_with_results();
    palette.handle_key(&key("tab"));
    let mut device = item("d1", ItemKind::NativeDevice, "Reverb");
    device.browser_path = vec!["Audio Effects".into(), "Reverb".into()];
    palette.results[0] = device;
    match palette.execute_selected() {
        Some((Pending::Execute { label }, RequestKind::LoadItem { item_id, browser_path, position })) => {
            assert_eq!(label, "Reverb");
            assert_eq!(item_id, "d1");
            assert_eq!(browser_path, vec!["Audio Effects".to_string(), "Reverb".to_string()]);
            assert_eq!(position, InsertionPosition::End);
        }
        other => panic!("unexpected {other:?}"),
    }
}

#[test]
fn execution_replies_close_or_explain() {
    let mut palette = palette_with_results();
    assert!(palette.execute_answered("Reverb".into(), Ok(ResponseData::Ack)));
    assert!(palette.execute_answered("Reverb".into(), Ok(ResponseData::ActionResults(vec![]))));
    assert!(!palette.execute_answered("Reverb".into(), Ok(ResponseData::Pong)));
    assert_eq!(palette.notice, "Reverb completed");
    assert!(!palette.execute_answered("Reverb".into(), Err("Live is busy".into())));
    assert_eq!(palette.notice, "Live is busy");
    assert_eq!(palette.activity, Activity::Idle);
}

#[test]
fn choosing_without_a_service_explains_why() {
    let mut palette = palette_with_results();
    palette.connected = false;
    assert_eq!(palette.handle_key(&key("enter")), KeyEffect::Nothing);
    assert_eq!(palette.notice, "Palette service is not available");
}

#[test]
fn one_browser_rescan_at_a_time() {
    let mut palette = CommandPalette::new(PaletteSettings::default(), true);
    match palette.handle_key(&command("r")) {
        KeyEffect::Send(Pending::Scan, RequestKind::ScanCatalog { max_items: 250000, max_depth: 64 }) => {}
        other => panic!("unexpected {other:?}"),
    }
    assert_eq!(palette.notice, "Refreshing the complete Live Browser index\u{2026}");
    assert_eq!(palette.handle_key(&command("r")), KeyEffect::Nothing);
    let out = palette.scan_answered(Ok(ResponseData::CatalogScan(CatalogScanSummary { scanned: 42 })));
    assert!(matches!(out, Some((Pending::Search { .. }, _))));
    assert_eq!(palette.notice, "Browser refreshed: 42 searchable items");
    palette.scan_answered(Ok(ResponseData::Catalog(vec![item("a", ItemKind::Rack, "A")])));
    assert_eq!(palette.notice, "Browser refreshed: 1 searchable items");
    assert!(palette.scan_answered(Ok(ResponseData::Pong)).is_none());
    assert_eq!(palette.notice, "Unexpected Browser refresh response");
}

#[test]
fn pasting_joins_lines_and_backspace_deletes() {
    let mut palette = CommandPalette::new(PaletteSettings::default(), true);
    assert_eq!(palette.handle_key(&command("v")), KeyEffect::Paste);
    palette.paste("a\r\nb");
    assert_eq!(palette.query, "a  b");
    palette.handle_key(&key("backspace"));
    assert_eq!(palette.query, "a  ");
    let mut cmd_backspace = command("backspace");
    cmd_backspace.key_char = None;
    assert_eq!(palette.handle_key(&cmd_backspace), KeyEffect::Nothing);
    assert_eq!(palette.query, "a  ");
}

#[test]
fn control_characters_are_not_typed() {
    let mut palette = CommandPalette::new(PaletteSettings::default(), true);
    assert_eq!(palette.type_text("\u{7}"), None);
    assert_eq!(palette.query, "");
    let mut with_control = typed("x");
    with_control.control = true;
    assert_eq!(palette.handle_key(&with_control), KeyEffect::Nothing);
    assert_eq!(palette.query, "");
}

#[test]
fn footer_shows_track_and_device() {
    let mut palette = CommandPalette::new(PaletteSettings::default(), true);
    assert_eq!(palette.track_line(), "Waiting for Ableton Live\u{2026}");
    let context = LiveContext {
        live_version: None,
        set_name: None,
        track_name: "Vox".into(),
        track_kind: TrackKind::Audio,
        track_index: Some(0),
        selected_device_index: None,
        selected_device_name: None,
        frozen: false,
        devices: vec![],
    };
    palette.context = Some(context);
    assert_eq!(palette.track_line(), "Vox  \u{b7}  no device selected");
    palette.context.as_mut().unwrap().selected_device_name = Some("EQ Eight".into());
    assert_eq!(palette.track_line(), "Vox  \u{b7}  selected: EQ Eight");
    assert_eq!(help_line(ViewMode::ItemActions), "\u{21b5} Apply   Esc Back");
}

#[test]
fn context_replies_fill_the_footer_or_explain() {
    let mut palette = CommandPalette::new(PaletteSettings::default(), true);
    assert!(palette.refresh_context());
    palette.context_answered(Ok((ResponseData::Pong, ResponseData::Ack)));
    assert_eq!(palette.notice, "Unexpected response from palette service");
    let mut offline = CommandPalette::new(PaletteSettings::default(), false);
    assert!(!offline.refresh_context());
    assert_eq!(offline.notice, "Palette service is not installed or configured");
}

#[test]
fn result_rows_show_path_and_marks() {
    let mut device = item("d1", ItemKind::NativeDevice, "Reverb");
    device.browser_path = vec!["Audio Effects".into(), "Reverb".into()];
    assert_eq!(result_path(&device), "Audio Effects");
    assert_eq!(result_detail(&device), "DEVICE \u{b7} BROWSER");
    device.browser_path = vec![];
    device.categories = vec!["Plug-Ins".into(), "Audio Effects".into()];
    assert_eq!(result_path(&device), "Plug-Ins  \u{203a}  Audio Effects");
    device.pinned = true;
    device.favorite = true;
    assert_eq!(result_detail(&device), "PINNED \u{b7} FAVORITE \u{b7} DEVICE");
}

#[test]
fn the_shortcut_opens_only_over_live() {
    assert_eq!(hotkey_action(true, true, false, true), HotkeyAction::Open);
    assert_eq!(hotkey_action(true, true, false, false), HotkeyAction::Ignore);
    assert_eq!(hotkey_action(true, true, true, false), HotkeyAction::Close);
    assert_eq!(hotkey_action(true, false, false, true), HotkeyAction::Ignore);
    assert_eq!(hotkey_action(false, true, false, true), HotkeyAction::Ignore);
    assert!(ableton_is_frontmost(Some((None, Some("Ableton Live 12 Suite")))));
    assert!(!ableton_is_frontmost(Some((Some("com.apple.finder"), Some("Finder")))));
    assert!(!ableton_is_frontmost(None));
}

#[test]
fn group_headings_are_the_labels_in_uppercase() {
    assert_eq!(group_heading(ContentGroup::Plugins), "PLUG-INS");
    assert_eq!(group_heading(ContentGroup::MaxForLive), "MAX FOR LIVE");
    assert_eq!(group_heading(ContentGroup::Loops), "LOOPS AND CLIPS");
}
