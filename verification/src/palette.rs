//! The command palette's state and what each event does to it.  Every
//! operation takes the state and an event (a key, a reply from the service)
//! and yields the next state together with the outside work to do: a request
//! to send, the window to close, a position to scroll to.  The window, the
//! clipboard, the settings file and the connection are the program's; it
//! performs that work and hands the outcome back.

use vstd::prelude::*;
use vstd::arithmetic::div_mod::{lemma_fundamental_div_mod_converse_mod, lemma_mod_multiples_vanish};
use crate::command_bar::{
    cycle_placement, cycled, group_results, headings, result_child_index, shown_results,
    RESULT_LIMIT,
};
use crate::protocol::{
    views_of, CatalogItem, CatalogItemView, InsertionPosition, LiveContext, RequestKind,
    ResponseData, ServiceStatus,
};
use crate::settings::{ContentGroup, PaletteSettings};
use crate::protocol::{strings_view, ItemKind};
use crate::text::{str_equal, concat_str, decimal, decimal_string, has_prefix, skip_chars, starts_with};

verus! {

/// What the palette is waiting for, if anything.
#[derive(Debug, PartialEq, Eq, Structural, Clone, Copy)]
pub enum Activity {
    Idle,
    Searching,
    Running,
    Scanning,
}

/// Which view the palette shows.
#[derive(Debug, PartialEq, Eq, Structural, Clone, Copy)]
pub enum ViewMode {
    Search,
    Settings,
    ItemActions,
}

/// The palette's state.  The service connection itself is the program's;
/// `connected` says whether there is one to send requests on.
pub struct CommandPalette {
    pub connected: bool,
    pub query: String,
    pub results: Vec<CatalogItem>,
    pub selected: usize,
    pub placement: InsertionPosition,
    pub context: Option<LiveContext>,
    pub status: Option<ServiceStatus>,
    pub notice: String,
    pub activity: Activity,
    pub generation: u64,
    pub mode: ViewMode,
    pub settings: PaletteSettings,
    pub settings_selected: usize,
}

/// The palette's state with strings as character sequences.
pub struct PaletteView {
    pub connected: bool,
    pub query: Seq<char>,
    pub results: Seq<CatalogItemView>,
    pub selected: usize,
    pub placement: InsertionPosition,
    pub context: Option<LiveContext>,
    pub status: Option<ServiceStatus>,
    pub notice: Seq<char>,
    pub activity: Activity,
    pub generation: u64,
    pub mode: ViewMode,
    pub settings: PaletteSettings,
    pub settings_selected: usize,
}

impl View for CommandPalette {
    type V = PaletteView;

    open spec fn view(&self) -> PaletteView {
        PaletteView {
            connected: self.connected,
            query: self.query@,
            results: views_of(self.results@),
            selected: self.selected,
            placement: self.placement,
            context: self.context,
            status: self.status,
            notice: self.notice@,
            activity: self.activity,
            generation: self.generation,
            mode: self.mode,
            settings: self.settings,
            settings_selected: self.settings_selected,
        }
    }
}

/// The notice shown when no service is configured.
pub open spec fn not_configured() -> Seq<char> {
    "Palette service is not installed or configured"@
}

/// The notice shown when an action needs the service and there is none.
pub open spec fn not_available() -> Seq<char> {
    "Palette service is not available"@
}

/// The palette's invariant: the selection points at a result (or is 0 when
/// there are none), the settings cursor at a listed group, and the result
/// list is short enough for its child positions to be counted.
pub open spec fn well_formed(v: PaletteView) -> bool {
    &&& v.results.len() <= usize::MAX / 2
    &&& (v.selected < v.results.len() || (v.results.len() == 0 && v.selected == 0))
    &&& v.settings_selected < crate::settings::SETTINGS_COUNT
}

/// The state of a freshly opened palette.
pub open spec fn opened(settings: PaletteSettings, connected: bool) -> PaletteView {
    PaletteView {
        connected,
        query: Seq::empty(),
        results: Seq::empty(),
        selected: 0,
        placement: InsertionPosition::AfterSelected,
        context: None,
        status: None,
        notice: "Type to search Live's Browser"@,
        activity: Activity::Idle,
        generation: 0,
        mode: ViewMode::Search,
        settings,
        settings_selected: 0,
    }
}

/// A reply is awaited for one of these.
#[derive(Debug, PartialEq, Eq)]
pub enum Pending {
    /// The search of this generation.
    Search { generation: u64 },
    /// Loading the result called `label` or running its workflow.
    Execute { label: String },
    /// Marking `label` a favorite (or not).
    Favorite { label: String, favorite: bool },
    /// Rescanning the Browser.
    Scan,
}

/// The generation after `g`, wrapping at the end of the range.
pub open spec fn next_generation(g: u64) -> u64 {
    if g == u64::MAX { 0 } else { (g + 1) as u64 }
}

/// `v` after a search was started: with no service only the notice changes;
/// otherwise the generation moves on and the palette waits for results.
pub open spec fn searched(v: PaletteView) -> PaletteView {
    if !v.connected {
        PaletteView { notice: not_configured(), ..v }
    } else {
        PaletteView {
            generation: next_generation(v.generation),
            activity: Activity::Searching,
            ..v
        }
    }
}

/// Whether `out` is the search request that `searched(v)` sends: the query
/// as typed, [`RESULT_LIMIT`] results, tagged with the new generation.
pub open spec fn is_search_request(v: PaletteView, out: Option<(Pending, RequestKind)>) -> bool {
    if !v.connected {
        out is None
    } else {
        match out {
            Some((Pending::Search { generation }, RequestKind::Search { query, limit })) => {
                &&& generation == searched(v).generation
                &&& query@ == v.query
                &&& limit == RESULT_LIMIT
            },
            _ => false,
        }
    }
}

/// The notice after results came in: how many, or how to refresh the index.
pub open spec fn matches_notice(count: nat) -> Seq<char> {
    if count == 0 {
        "No matches \u{2014} press \u{2318}R to refresh the Browser index"@
    } else {
        decimal(count) + " matches"@
    }
}

/// The notice for a failed request: its message, or `Command failed`.
pub open spec fn error_notice(message: Seq<char>) -> Seq<char> {
    if message.len() == 0 {
        "Command failed"@
    } else {
        message
    }
}

/// `v` after the reply to the search of `generation` came in.  A reply to an
/// older search is ignored; otherwise the palette is idle again and shows the
/// results grouped and filtered by the settings, with the first selected.
pub open spec fn search_answered(
    v: PaletteView,
    generation: u64,
    response: Result<ResponseData, String>,
) -> PaletteView {
    if generation != v.generation {
        v
    } else {
        match response {
            Ok(ResponseData::SearchResults(items)) => {
                let shown = shown_results(views_of(items@), v.settings);
                PaletteView {
                    activity: Activity::Idle,
                    results: shown,
                    selected: 0,
                    notice: matches_notice(shown.len()),
                    ..v
                }
            },
            Ok(_) => PaletteView {
                activity: Activity::Idle,
                notice: "Unexpected search response"@,
                ..v
            },
            Err(message) => PaletteView { activity: Activity::Idle, notice: error_notice(message@), ..v },
        }
    }
}

/// Whether a reply holds no more results than a list can be counted in.
pub open spec fn reply_fits(response: Result<ResponseData, String>) -> bool {
    match response {
        Ok(ResponseData::SearchResults(items)) => items@.len() <= usize::MAX / 2,
        _ => true,
    }
}

/// The notice after `count` results came in.
fn matches_text(count: usize) -> (text: String)
    ensures
        text@ == matches_notice(count as nat),
{
    if count == 0 {
        proof { reveal_strlit("No matches \u{2014} press \u{2318}R to refresh the Browser index"); }
        String::from_str("No matches \u{2014} press \u{2318}R to refresh the Browser index")
    } else {
        let number = decimal_string(count as u64);
        proof { reveal_strlit(" matches"); }
        concat_str(number.as_str(), " matches")
    }
}

/// The notice for a failed request.
fn error_text(message: String) -> (text: String)
    ensures
        text@ == error_notice(message@),
{
    crate::command_bar::short_error(message)
}

/// `v` with the selection moved by `delta`, wrapping around the results.
pub open spec fn moved(v: PaletteView, delta: int) -> PaletteView {
    if v.results.len() == 0 {
        v
    } else {
        PaletteView { selected: ((v.selected + delta) % (v.results.len() as int)) as usize, ..v }
    }
}

/// Where the list must scroll to show result `index`: its position among
/// the list's children, headings included.
pub open spec fn scroll_target(v: PaletteView, index: int) -> int {
    index + headings(v.results, index + 1)
}

/// `v` with the settings view open, its cursor on the first group.
pub open spec fn settings_opened(v: PaletteView) -> PaletteView {
    PaletteView {
        mode: ViewMode::Settings,
        settings_selected: 0,
        notice: "Choose which content groups appear in search"@,
        ..v
    }
}

/// `v` with the actions of the selected result open, if there is one.
pub open spec fn actions_opened(v: PaletteView) -> PaletteView {
    if v.selected < v.results.len() {
        PaletteView { mode: ViewMode::ItemActions, ..v }
    } else {
        v
    }
}

/// `v` with the settings cursor moved down (or up) one group, wrapping.
pub open spec fn settings_moved(v: PaletteView, up: bool) -> PaletteView {
    let n = crate::settings::SETTINGS_COUNT as int;
    PaletteView {
        settings_selected: (if up { (v.settings_selected + n - 1) % n } else { (v.settings_selected + 1) % n }) as usize,
        ..v
    }
}

/// `v` with the group at `index` of the settings list shown or hidden.
pub open spec fn setting_toggled(v: PaletteView, index: int) -> PaletteView {
    if 0 <= index < crate::settings::SETTINGS_COUNT {
        PaletteView {
            settings: PaletteSettings {
                visibility: crate::settings::toggled(
                    v.settings.visibility,
                    crate::settings::settings_groups()[index],
                ),
            },
            ..v
        }
    } else {
        v
    }
}

/// The notice after the settings were saved, or failed to be.
pub open spec fn saved_notice(group: ContentGroup, saved: Result<(), String>) -> Seq<char> {
    match saved {
        Ok(()) => crate::settings::group_label(group) + " preference saved"@,
        Err(message) => "Could not save settings: "@ + message@,
    }
}

/// `v` with the placement moved to the next (or, in reverse, the previous) one.
pub open spec fn placement_cycled(v: PaletteView, reverse: bool) -> PaletteView {
    PaletteView { placement: cycled(v.placement, reverse), ..v }
}

/// `v` with the query's last character deleted, if it has one.
pub open spec fn char_deleted(v: PaletteView) -> PaletteView {
    if v.query.len() == 0 {
        v
    } else {
        PaletteView { query: v.query.drop_last(), ..v }
    }
}

/// Unicode general category `Cc`, which `char::is_control` tests.
pub open spec fn is_control(c: char) -> bool {
    (c as u32) < 0x20 || (0x7f <= (c as u32) && (c as u32) < 0xa0)
}

/// Whether some character of `s` is a control character.
pub open spec fn has_control(s: Seq<char>) -> bool {
    exists|i: int| 0 <= i < s.len() && is_control(#[trigger] s[i])
}

/// `s` with carriage returns and line feeds turned into spaces.
pub open spec fn single_line(s: Seq<char>) -> Seq<char> {
    s.map_values(|c: char| if c == '\r' || c == '\n' { ' ' } else { c })
}

/// `v` with `text` appended to the query.
pub open spec fn typed(v: PaletteView, text: Seq<char>) -> PaletteView {
    PaletteView { query: v.query + text, ..v }
}

/// The id of the workflow that a workflow result runs: its id without the
/// `workflow:` prefix.
pub open spec fn workflow_id_of(id: Seq<char>) -> Seq<char> {
    if has_prefix(id, "workflow:"@) {
        id.skip(9)
    } else {
        id
    }
}

/// Whether `out` is what choosing `item` sends: a workflow runs, anything
/// else is loaded from its Browser path at `placement`.
pub open spec fn is_execute_request(
    item: CatalogItemView,
    placement: InsertionPosition,
    out: Option<(Pending, RequestKind)>,
) -> bool {
    match out {
        Some((Pending::Execute { label }, request)) => {
            &&& label@ == item.name
            &&& match request {
                RequestKind::RunWorkflow { workflow_id } => {
                    item.kind == ItemKind::Workflow && workflow_id@ == workflow_id_of(item.id)
                },
                RequestKind::LoadItem { item_id, browser_path, position } => {
                    &&& item.kind != ItemKind::Workflow
                    &&& item_id@ == item.id
                    &&& strings_view(browser_path@) == item.browser_path
                    &&& position == placement
                },
                _ => false,
            }
        },
        _ => false,
    }
}

/// Whether the palette can act on its selection: there is a selected
/// result and a service to send to.
pub open spec fn can_act(v: PaletteView) -> bool {
    v.selected < v.results.len() && v.connected
}

/// `v` after the selected result was chosen.
pub open spec fn execute_started(v: PaletteView) -> PaletteView {
    if !(v.selected < v.results.len()) {
        v
    } else if !v.connected {
        PaletteView { notice: not_available(), ..v }
    } else {
        PaletteView {
            activity: Activity::Running,
            notice: "Adding "@ + v.results[v.selected as int].name + "\u{2026}"@,
            ..v
        }
    }
}

/// Whether a reply to a chosen result means it was done.
pub open spec fn executed_ok(response: Result<ResponseData, String>) -> bool {
    match response {
        Ok(ResponseData::Ack) => true,
        Ok(ResponseData::ActionResults(_)) => true,
        _ => false,
    }
}

/// `v` after the reply for the result called `label` came in; when it was
/// done the palette closes and its state no longer matters.
pub open spec fn execute_answered(
    v: PaletteView,
    label: Seq<char>,
    response: Result<ResponseData, String>,
) -> PaletteView {
    if executed_ok(response) {
        v
    } else {
        match response {
            Ok(_) => PaletteView { activity: Activity::Idle, notice: label + " completed"@, ..v },
            Err(message) => PaletteView { activity: Activity::Idle, notice: error_notice(message@), ..v },
        }
    }
}

/// `v` after marking the selected result a favorite (or not) was started.
pub open spec fn favorite_started(v: PaletteView) -> PaletteView {
    if !(v.selected < v.results.len()) {
        v
    } else if !v.connected {
        PaletteView { notice: not_available(), ..v }
    } else {
        let item = v.results[v.selected as int];
        PaletteView {
            activity: Activity::Running,
            notice: if !item.favorite {
                "Adding "@ + item.name + " to favorites\u{2026}"@
            } else {
                "Removing "@ + item.name + " from favorites\u{2026}"@
            },
            ..v
        }
    }
}

/// Whether `out` flips the favorite mark of `item`.
pub open spec fn is_favorite_request(item: CatalogItemView, out: Option<(Pending, RequestKind)>) -> bool {
    match out {
        Some((Pending::Favorite { label, favorite }, RequestKind::SetFavorite { item_id, favorite: wanted })) => {
            &&& label@ == item.name
            &&& favorite == !item.favorite
            &&& wanted == favorite
            &&& item_id@ == item.id
        },
        _ => false,
    }
}

/// The notice once `label` was marked a favorite (or unmarked).
pub open spec fn favorite_notice(label: Seq<char>, favorite: bool) -> Seq<char> {
    if favorite {
        label + " added to favorites"@
    } else {
        label + " removed from favorites"@
    }
}

/// `v` after the reply to a favorite change came in, before the search that
/// follows a success.
pub open spec fn favorite_answered(
    v: PaletteView,
    label: Seq<char>,
    favorite: bool,
    response: Result<ResponseData, String>,
) -> PaletteView {
    match response {
        Ok(ResponseData::Ack) => PaletteView {
            activity: Activity::Idle,
            mode: ViewMode::Search,
            notice: favorite_notice(label, favorite),
            ..v
        },
        Ok(_) => PaletteView { activity: Activity::Idle, notice: "Unexpected favorite response"@, ..v },
        Err(message) => PaletteView { activity: Activity::Idle, notice: error_notice(message@), ..v },
    }
}

/// How many items a full Browser scan may visit.
pub const SCAN_MAX_ITEMS: usize = 250000;

/// How deep a full Browser scan may descend.
pub const SCAN_MAX_DEPTH: usize = 64;

/// `v` after a Browser rescan was asked for; one at a time.
pub open spec fn scan_started(v: PaletteView) -> PaletteView {
    if v.activity == Activity::Scanning {
        v
    } else if !v.connected {
        PaletteView { notice: not_available(), ..v }
    } else {
        PaletteView {
            activity: Activity::Scanning,
            notice: "Refreshing the complete Live Browser index\u{2026}"@,
            ..v
        }
    }
}

/// The notice after a rescan found `count` items.
pub open spec fn refreshed_notice(count: nat) -> Seq<char> {
    "Browser refreshed: "@ + decimal(count) + " searchable items"@
}

/// `v` after the reply to a rescan came in, before the search that follows
/// a success.
pub open spec fn scan_answered(v: PaletteView, response: Result<ResponseData, String>) -> PaletteView {
    match response {
        Ok(ResponseData::CatalogScan(summary)) => PaletteView {
            activity: Activity::Idle,
            notice: refreshed_notice(summary.scanned as nat),
            ..v
        },
        Ok(ResponseData::Catalog(items)) => PaletteView {
            activity: Activity::Idle,
            notice: refreshed_notice(items@.len()),
            ..v
        },
        Ok(_) => PaletteView { activity: Activity::Idle, notice: "Unexpected Browser refresh response"@, ..v },
        Err(message) => PaletteView { activity: Activity::Idle, notice: error_notice(message@), ..v },
    }
}

/// Whether a rescan reply is followed by a new search.
pub open spec fn scan_succeeded(response: Result<ResponseData, String>) -> bool {
    match response {
        Ok(ResponseData::CatalogScan(_)) => true,
        Ok(ResponseData::Catalog(_)) => true,
        _ => false,
    }
}

/// `v` after the status and context replies came in.
pub open spec fn context_answered(
    v: PaletteView,
    replies: Result<(ResponseData, ResponseData), String>,
) -> PaletteView {
    match replies {
        Ok((ResponseData::Status(status), ResponseData::Context(context))) => PaletteView {
            status: Some(status),
            context: Some(context),
            ..v
        },
        Ok(_) => PaletteView { notice: "Unexpected response from palette service"@, ..v },
        Err(message) => PaletteView { notice: error_notice(message@), ..v },
    }
}

/// A key press as the window reports it: the key's name, the text it
/// types (if any) and the modifiers held.
pub struct Keystroke {
    pub key: String,
    pub key_char: Option<String>,
    pub platform: bool,
    pub control: bool,
    pub shift: bool,
}

/// A key press with strings as character sequences.
pub struct KeystrokeView {
    pub key: Seq<char>,
    pub key_char: Option<Seq<char>>,
    pub platform: bool,
    pub control: bool,
    pub shift: bool,
}

impl View for Keystroke {
    type V = KeystrokeView;

    open spec fn view(&self) -> KeystrokeView {
        KeystrokeView {
            key: self.key@,
            key_char: match self.key_char {
                Some(text) => Some(text@),
                None => None,
            },
            platform: self.platform,
            control: self.control,
            shift: self.shift,
        }
    }
}

/// What a key press asks for.
#[derive(Debug, PartialEq, Eq, Structural, Clone, Copy)]
pub enum KeyCommand {
    ToggleSettings,
    OpenActions,
    Back,
    SettingsDown,
    SettingsUp,
    ToggleSetting,
    ToggleFavorite,
    Close,
    Down,
    Up,
    Execute,
    CyclePlacement,
    DeleteChar,
    Scan,
    Paste,
    Type,
    Ignore,
}

/// What a key press asks for in `mode`: Command-comma switches to and from
/// the settings, Command-K opens the result's actions; the settings and
/// actions views take Escape, the arrows (settings only) and Enter or Space;
/// the search view takes Escape, the arrows, Enter, Tab, Backspace,
/// Command-R, Command-V and typed text.
pub open spec fn command_for(mode: ViewMode, k: KeystrokeView) -> KeyCommand {
    if k.platform && k.key == ","@ {
        KeyCommand::ToggleSettings
    } else if k.platform && k.key == "k"@ && mode == ViewMode::Search {
        KeyCommand::OpenActions
    } else if mode == ViewMode::Settings {
        if k.key == "escape"@ {
            KeyCommand::Back
        } else if k.key == "down"@ {
            KeyCommand::SettingsDown
        } else if k.key == "up"@ {
            KeyCommand::SettingsUp
        } else if k.key == "enter"@ || k.key == "space"@ {
            KeyCommand::ToggleSetting
        } else {
            KeyCommand::Ignore
        }
    } else if mode == ViewMode::ItemActions {
        if k.key == "escape"@ {
            KeyCommand::Back
        } else if k.key == "enter"@ || k.key == "space"@ {
            KeyCommand::ToggleFavorite
        } else {
            KeyCommand::Ignore
        }
    } else if k.key == "escape"@ {
        KeyCommand::Close
    } else if k.key == "down"@ {
        KeyCommand::Down
    } else if k.key == "up"@ {
        KeyCommand::Up
    } else if k.key == "enter"@ {
        KeyCommand::Execute
    } else if k.key == "tab"@ {
        KeyCommand::CyclePlacement
    } else if k.key == "backspace"@ && !k.platform && !k.control {
        KeyCommand::DeleteChar
    } else if k.key == "r"@ && k.platform {
        KeyCommand::Scan
    } else if k.key == "v"@ && k.platform {
        KeyCommand::Paste
    } else if !k.platform && !k.control && k.key_char is Some {
        KeyCommand::Type
    } else {
        KeyCommand::Ignore
    }
}

/// The outside work a key press leaves to the program.
#[derive(Debug, PartialEq)]
pub enum KeyEffect {
    /// Nothing but redrawing.
    Nothing,
    /// Close the palette.
    Close,
    /// Scroll the result list to this child.
    ScrollTo(usize),
    /// Send this request; its reply is for `Pending`.
    Send(Pending, RequestKind),
    /// Save the settings, then report back through `settings_saved`.
    SaveSettings(ContentGroup),
    /// Read the clipboard and hand its text to `paste`.
    Paste,
}

/// The request an effect sends, if it sends one.
pub open spec fn sent(effect: KeyEffect) -> Option<(Pending, RequestKind)> {
    match effect {
        KeyEffect::Send(pending, request) => Some((pending, request)),
        _ => None,
    }
}

/// Whether `effect` sends a request or does nothing.
pub open spec fn sends_or_nothing(effect: KeyEffect) -> bool {
    effect is Send || effect is Nothing
}

/// The state after key `k` in state `v`.
pub open spec fn key_state(v: PaletteView, k: KeystrokeView) -> PaletteView {
    match command_for(v.mode, k) {
        KeyCommand::ToggleSettings => if v.mode == ViewMode::Settings {
            searched(PaletteView { mode: ViewMode::Search, ..v })
        } else {
            settings_opened(v)
        },
        KeyCommand::OpenActions => actions_opened(v),
        KeyCommand::Back => PaletteView { mode: ViewMode::Search, ..v },
        KeyCommand::SettingsDown => settings_moved(v, false),
        KeyCommand::SettingsUp => settings_moved(v, true),
        KeyCommand::ToggleSetting => setting_toggled(v, v.settings_selected as int),
        KeyCommand::ToggleFavorite => favorite_started(v),
        KeyCommand::Down => moved(v, 1),
        KeyCommand::Up => moved(v, -1),
        KeyCommand::Execute => execute_started(v),
        KeyCommand::CyclePlacement => placement_cycled(v, k.shift),
        KeyCommand::DeleteChar => searched(char_deleted(v)),
        KeyCommand::Scan => scan_started(v),
        KeyCommand::Type => {
            let text = k.key_char.unwrap();
            if has_control(text) {
                v
            } else {
                searched(typed(v, text))
            }
        },
        _ => v,
    }
}

/// Whether `effect` is the outside work that key `k` in state `v` leaves.
pub open spec fn key_effect(v: PaletteView, k: KeystrokeView, effect: KeyEffect) -> bool {
    match command_for(v.mode, k) {
        KeyCommand::ToggleSettings => if v.mode == ViewMode::Settings {
            sends_or_nothing(effect) && is_search_request(PaletteView { mode: ViewMode::Search, ..v }, sent(effect))
        } else {
            effect is Nothing
        },
        KeyCommand::ToggleSetting => effect == KeyEffect::SaveSettings(
            crate::settings::settings_groups()[v.settings_selected as int],
        ),
        KeyCommand::ToggleFavorite => sends_or_nothing(effect) && if can_act(v) {
            is_favorite_request(v.results[v.selected as int], sent(effect))
        } else {
            effect is Nothing
        },
        KeyCommand::Close => effect is Close,
        KeyCommand::Down | KeyCommand::Up => if v.results.len() == 0 {
            effect is Nothing
        } else {
            effect == KeyEffect::ScrollTo(
                scroll_target(key_state(v, k), key_state(v, k).selected as int) as usize,
            )
        },
        KeyCommand::Execute => sends_or_nothing(effect) && if can_act(v) {
            is_execute_request(v.results[v.selected as int], v.placement, sent(effect))
        } else {
            effect is Nothing
        },
        KeyCommand::DeleteChar => sends_or_nothing(effect) && is_search_request(char_deleted(v), sent(effect)),
        KeyCommand::Scan => sends_or_nothing(effect) && if v.activity != Activity::Scanning && v.connected {
            sent(effect) matches Some((Pending::Scan, RequestKind::ScanCatalog { max_items, max_depth }))
                && max_items == SCAN_MAX_ITEMS && max_depth == SCAN_MAX_DEPTH
        } else {
            effect is Nothing
        },
        KeyCommand::Paste => effect is Paste,
        KeyCommand::Type => {
            let text = k.key_char.unwrap();
            sends_or_nothing(effect) && if has_control(text) {
                effect is Nothing
            } else {
                is_search_request(typed(v, text), sent(effect))
            }
        },
        _ => effect is Nothing,
    }
}

/// The footer line about Live: the selected track and device.
pub open spec fn track_text(context: Option<LiveContext>) -> Seq<char> {
    match context {
        None => "Waiting for Ableton Live\u{2026}"@,
        Some(c) => match c.selected_device_name {
            Some(device) => c.track_name@ + "  \u{b7}  selected: "@ + device@,
            None => c.track_name@ + "  \u{b7}  no device selected"@,
        },
    }
}

/// The text in the palette's search field.
pub open spec fn title_text(v: PaletteView) -> Seq<char> {
    match v.mode {
        ViewMode::Search => if v.query.len() == 0 {
            "Search devices, plug-ins, presets, racks, samples, commands\u{2026}"@
        } else {
            v.query + "\u{258e}"@
        },
        ViewMode::Settings => "Search content settings"@,
        ViewMode::ItemActions => if v.selected < v.results.len() {
            "Actions for "@ + v.results[v.selected as int].name
        } else {
            "Item actions"@
        },
    }
}

/// The key help shown in each view.
pub open spec fn help_text(mode: ViewMode) -> Seq<char> {
    match mode {
        ViewMode::Search => "\u{2191}\u{2193} Navigate   \u{21b5} Add   \u{2318}K Actions   \u{2318}, Settings   Tab Position"@,
        ViewMode::Settings => "\u{2191}\u{2193} Navigate   Space Toggle   Esc Back"@,
        ViewMode::ItemActions => "\u{21b5} Apply   Esc Back"@,
    }
}

/// The favorite action offered for the selected result, and its name.
pub open spec fn favorite_action_text(v: PaletteView) -> (Seq<char>, Seq<char>) {
    if v.selected < v.results.len() {
        let item = v.results[v.selected as int];
        if item.favorite {
            ("Remove from favorites"@, item.name)
        } else {
            ("Add to favorites"@, item.name)
        }
    } else {
        ("Add to favorites"@, Seq::empty())
    }
}

impl CommandPalette {
    /// A freshly opened palette.  The program then refreshes the context and
    /// starts the first search.
    pub fn new(settings: PaletteSettings, connected: bool) -> (palette: CommandPalette)
        ensures
            palette@ == opened(settings, connected),
            well_formed(palette@),
    {
        let results: Vec<CatalogItem> = Vec::new();
        proof {
            reveal_strlit("Type to search Live's Browser");
            assert(views_of(results@) =~= Seq::<CatalogItemView>::empty());
        }
        CommandPalette {
            connected,
            query: String::new(),
            results,
            selected: 0,
            placement: InsertionPosition::AfterSelected,
            context: None,
            status: None,
            notice: String::from_str("Type to search Live's Browser"),
            activity: Activity::Idle,
            generation: 0,
            mode: ViewMode::Search,
            settings,
            settings_selected: 0,
        }
    }

    /// Starts a search for the current query and returns the request to
    /// send, or sets a notice when there is no service.
    pub fn search(&mut self) -> (out: Option<(Pending, RequestKind)>)
        ensures
            final(self)@ == searched(old(self)@),
            is_search_request(old(self)@, out),
    {
        if !self.connected {
            self.notice = String::from_str("Palette service is not installed or configured");
            proof { reveal_strlit("Palette service is not installed or configured"); }
            return None;
        }
        self.generation = self.generation.wrapping_add(1);
        self.activity = Activity::Searching;
        let query = self.query.clone();
        Some((Pending::Search { generation: self.generation }, RequestKind::Search { query, limit: RESULT_LIMIT }))
    }

    /// Takes in the reply to the search of `generation`.
    pub fn search_answered(&mut self, generation: u64, response: Result<ResponseData, String>)
        requires
            well_formed(old(self)@),
            reply_fits(response),
        ensures
            final(self)@ == search_answered(old(self)@, generation, response),
            well_formed(final(self)@),
    {
        if generation != self.generation {
            return;
        }
        self.activity = Activity::Idle;
        match response {
            Ok(ResponseData::SearchResults(items)) => {
                let ghost all = views_of(items@);
                let shown = group_results(items, &self.settings);
                proof {
                    crate::sorting::lemma_sort_stable_permutes(
                        crate::tables::keep(all, crate::command_bar::shown_under(self.settings)),
                        crate::command_bar::by_group(),
                    );
                    crate::tables::lemma_keep_contents(all, crate::command_bar::shown_under(self.settings));
                    assert(views_of(shown@).len() == shown@.len());
                }
                self.notice = matches_text(shown.len());
                self.results = shown;
                self.selected = 0;
            },
            Ok(_) => {
                self.notice = String::from_str("Unexpected search response");
                proof { reveal_strlit("Unexpected search response"); }
            },
            Err(message) => {
                self.notice = error_text(message);
            },
        }
    }

    /// Moves the selection by `delta` results, wrapping around, and returns
    /// the list position to scroll to; does nothing without results.
    pub fn move_selection(&mut self, delta: isize) -> (scroll: Option<usize>)
        requires
            well_formed(old(self)@),
        ensures
            final(self)@ == moved(old(self)@, delta as int),
            well_formed(final(self)@),
            old(self)@.results.len() == 0 ==> scroll is None,
            old(self)@.results.len() > 0 ==> scroll == Some(
                scroll_target(final(self)@, final(self)@.selected as int) as usize,
            ),
    {
        let len = self.results.len();
        if len == 0 {
            return None;
        }
        let n = len as u128;
        let current = self.selected as u128;
        let next: u128 = if delta >= 0 {
            (current + delta as u128) % n
        } else {
            let distance = (-(delta as i128)) as u128;
            let back = distance % n;
            proof {
                let q = distance as int / n as int;
                assert(distance as int == q * n + back) by (nonlinear_arith)
                    requires
                        n > 0,
                        q == distance as int / n as int,
                        back == distance as int % n as int,
                ;
                lemma_mod_multiples_vanish(q + 1, current as int + delta as int, n as int);
                assert(n * (q + 1) + (current as int + delta as int) == current + n - back) by (nonlinear_arith)
                    requires
                        distance as int == q * n + back,
                        delta as int == -(distance as int),
                ;
            }
            (current + n - back) % n
        };
        self.selected = next as usize;
        proof {
            assert(views_of(self.results@).len() == len);
        }
        Some(result_child_index(&self.results, self.selected))
    }

    /// Selects result `index` (as a click does).
    pub fn select(&mut self, index: usize)
        requires
            well_formed(old(self)@),
            index < old(self)@.results.len(),
        ensures
            final(self)@ == (PaletteView { selected: index, ..old(self)@ }),
            well_formed(final(self)@),
    {
        self.selected = index;
    }

    /// Opens the settings view.
    pub fn open_settings(&mut self)
        requires
            well_formed(old(self)@),
        ensures
            final(self)@ == settings_opened(old(self)@),
            well_formed(final(self)@),
    {
        self.mode = ViewMode::Settings;
        self.settings_selected = 0;
        self.notice = String::from_str("Choose which content groups appear in search");
        proof { reveal_strlit("Choose which content groups appear in search"); }
    }

    /// Opens the actions of the selected result, if there is one.
    pub fn open_item_actions(&mut self)
        requires
            well_formed(old(self)@),
        ensures
            final(self)@ == actions_opened(old(self)@),
            well_formed(final(self)@),
    {
        if self.selected < self.results.len() {
            self.mode = ViewMode::ItemActions;
        }
        proof { assert(views_of(self.results@).len() == self.results@.len()); }
    }

    /// Goes back to the search view.
    pub fn back_to_search(&mut self)
        requires
            well_formed(old(self)@),
        ensures
            final(self)@ == (PaletteView { mode: ViewMode::Search, ..old(self)@ }),
            well_formed(final(self)@),
    {
        self.mode = ViewMode::Search;
    }

    /// Moves the settings cursor one group down (or up), wrapping.
    pub fn move_settings_cursor(&mut self, up: bool)
        requires
            well_formed(old(self)@),
        ensures
            final(self)@ == settings_moved(old(self)@, up),
            well_formed(final(self)@),
    {
        let n = crate::settings::SETTINGS_COUNT;
        if up {
            self.settings_selected = (self.settings_selected + n - 1) % n;
        } else {
            self.settings_selected = (self.settings_selected + 1) % n;
        }
    }

    /// Shows or hides the group at `index` of the settings list and returns
    /// it, so that the settings can be saved; `None` past the list's end.
    pub fn toggle_setting(&mut self, index: usize) -> (group: Option<ContentGroup>)
        requires
            well_formed(old(self)@),
        ensures
            final(self)@ == setting_toggled(old(self)@, index as int),
            well_formed(final(self)@),
            index < crate::settings::SETTINGS_COUNT ==> group == Some(
                crate::settings::settings_groups()[index as int],
            ),
            index >= crate::settings::SETTINGS_COUNT ==> group is None,
    {
        let group = ContentGroup::setting_at(index);
        match group {
            Some(g) => {
                self.settings.visibility.toggle(g);
            },
            None => {},
        }
        group
    }

    /// Reports how saving the settings after toggling `group` went, then
    /// searches again with the new settings.
    pub fn settings_saved(&mut self, group: ContentGroup, saved: Result<(), String>) -> (out: Option<
        (Pending, RequestKind),
    >)
        requires
            well_formed(old(self)@),
        ensures
            final(self)@ == searched(PaletteView { notice: saved_notice(group, saved), ..old(self)@ }),
            is_search_request(PaletteView { notice: saved_notice(group, saved), ..old(self)@ }, out),
            well_formed(final(self)@),
    {
        match saved {
            Ok(()) => {
                proof { reveal_strlit(" preference saved"); }
                self.notice = concat_str(group.label(), " preference saved");
            },
            Err(message) => {
                proof { reveal_strlit("Could not save settings: "); }
                self.notice = concat_str("Could not save settings: ", message.as_str());
            },
        }
        self.search()
    }

    /// Moves the placement to the next one (the previous one in reverse).
    pub fn cycle_placement(&mut self, reverse: bool)
        requires
            well_formed(old(self)@),
        ensures
            final(self)@ == placement_cycled(old(self)@, reverse),
            well_formed(final(self)@),
    {
        self.placement = cycle_placement(self.placement, reverse);
    }

    /// Deletes the query's last character and searches again.
    pub fn delete_char(&mut self) -> (out: Option<(Pending, RequestKind)>)
        requires
            well_formed(old(self)@),
        ensures
            final(self)@ == searched(char_deleted(old(self)@)),
            is_search_request(char_deleted(old(self)@), out),
            well_formed(final(self)@),
    {
        let chars = crate::text::chars_of(self.query.as_str());
        if chars.len() > 0 {
            self.query = crate::text::string_from_chars(&chars, 0, chars.len() - 1);
            proof { assert(self.query@ =~= old(self)@.query.drop_last()); }
        }
        self.search()
    }

    /// Appends typed text to the query and searches again; text with a
    /// control character is ignored.
    pub fn type_text(&mut self, text: &str) -> (out: Option<(Pending, RequestKind)>)
        requires
            well_formed(old(self)@),
        ensures
            has_control(text@) ==> final(self)@ == old(self)@ && out is None,
            !has_control(text@) ==> final(self)@ == searched(typed(old(self)@, text@))
                && is_search_request(typed(old(self)@, text@), out),
            well_formed(final(self)@),
    {
        let chars = crate::text::chars_of(text);
        let mut i: usize = 0;
        while i < chars.len()
            invariant
                i <= chars@.len(),
                chars@ == text@,
                self@ == old(self)@,
                well_formed(old(self)@),
                forall|k: int| 0 <= k < i ==> !is_control(#[trigger] text@[k]),
            decreases chars@.len() - i,
        {
            let code = chars[i] as u32;
            if code < 0x20 || (0x7f <= code && code < 0xa0) {
                proof { assert(is_control(text@[i as int])); }
                return None;
            }
            i += 1;
        }
        self.query = concat_str(self.query.as_str(), text);
        self.search()
    }

    /// Appends pasted text to the query, line breaks turned into spaces,
    /// and searches again.
    pub fn paste(&mut self, text: &str) -> (out: Option<(Pending, RequestKind)>)
        requires
            well_formed(old(self)@),
        ensures
            final(self)@ == searched(typed(old(self)@, single_line(text@))),
            is_search_request(typed(old(self)@, single_line(text@)), out),
            well_formed(final(self)@),
    {
        let chars = crate::text::chars_of(text);
        let mut query = self.query.clone();
        let mut i: usize = 0;
        while i < chars.len()
            invariant
                i <= chars@.len(),
                chars@ == text@,
                query@ == old(self)@.query + single_line(text@).take(i as int),
            decreases chars@.len() - i,
        {
            let c = chars[i];
            let d = if c == '\r' || c == '\n' { ' ' } else { c };
            crate::text::push_char(&mut query, d);
            proof {
                assert(single_line(text@).take(i + 1) =~= single_line(text@).take(i as int).push(d));
            }
            i += 1;
        }
        proof { assert(single_line(text@).take(chars@.len() as int) =~= single_line(text@)); }
        self.query = query;
        self.search()
    }

    /// Chooses the selected result: returns the request that runs its
    /// workflow or loads it at the placement, or sets a notice when there is
    /// no service.
    pub fn execute_selected(&mut self) -> (out: Option<(Pending, RequestKind)>)
        requires
            well_formed(old(self)@),
        ensures
            final(self)@ == execute_started(old(self)@),
            well_formed(final(self)@),
            !can_act(old(self)@) ==> out is None,
            can_act(old(self)@) ==> is_execute_request(
                old(self)@.results[old(self)@.selected as int],
                old(self)@.placement,
                out,
            ),
    {
        proof { assert(views_of(self.results@).len() == self.results@.len()); }
        if self.selected >= self.results.len() {
            return None;
        }
        if !self.connected {
            self.notice = String::from_str("Palette service is not available");
            proof { reveal_strlit("Palette service is not available"); }
            return None;
        }
        let item = self.results[self.selected].duplicate();
        proof { assert(item@ == old(self)@.results[old(self)@.selected as int]); }
        let label = item.name.clone();
        let request = match item.kind {
            ItemKind::Workflow => {
                proof { reveal_strlit("workflow:"); }
                let workflow_id = if starts_with(item.id.as_str(), "workflow:") {
                    skip_chars(item.id.as_str(), 9)
                } else {
                    item.id.clone()
                };
                RequestKind::RunWorkflow { workflow_id }
            },
            _ => RequestKind::LoadItem {
                item_id: item.id,
                browser_path: item.browser_path,
                position: self.placement,
            },
        };
        self.activity = Activity::Running;
        proof {
            reveal_strlit("Adding ");
            reveal_strlit("\u{2026}");
        }
        let adding = concat_str("Adding ", label.as_str());
        self.notice = concat_str(adding.as_str(), "\u{2026}");
        Some((Pending::Execute { label }, request))
    }

    /// Takes in the reply for the chosen result called `label`; returns
    /// whether it was done, in which case the palette closes.
    pub fn execute_answered(&mut self, label: String, response: Result<ResponseData, String>) -> (close: bool)
        requires
            well_formed(old(self)@),
        ensures
            final(self)@ == execute_answered(old(self)@, label@, response),
            close == executed_ok(response),
            well_formed(final(self)@),
    {
        match response {
            Ok(ResponseData::Ack) => true,
            Ok(ResponseData::ActionResults(_)) => true,
            Ok(_) => {
                self.activity = Activity::Idle;
                proof { reveal_strlit(" completed"); }
                self.notice = concat_str(label.as_str(), " completed");
                false
            },
            Err(message) => {
                self.activity = Activity::Idle;
                self.notice = error_text(message);
                false
            },
        }
    }

    /// Marks the selected result a favorite, or unmarks it: returns the
    /// request to send, or sets a notice when there is no service.
    pub fn toggle_selected_favorite(&mut self) -> (out: Option<(Pending, RequestKind)>)
        requires
            well_formed(old(self)@),
        ensures
            final(self)@ == favorite_started(old(self)@),
            well_formed(final(self)@),
            !can_act(old(self)@) ==> out is None,
            can_act(old(self)@) ==> is_favorite_request(old(self)@.results[old(self)@.selected as int], out),
    {
        proof { assert(views_of(self.results@).len() == self.results@.len()); }
        if self.selected >= self.results.len() {
            return None;
        }
        if !self.connected {
            self.notice = String::from_str("Palette service is not available");
            proof { reveal_strlit("Palette service is not available"); }
            return None;
        }
        let item = self.results[self.selected].duplicate();
        proof { assert(item@ == old(self)@.results[old(self)@.selected as int]); }
        let favorite = !item.favorite;
        let label = item.name.clone();
        self.activity = Activity::Running;
        proof {
            reveal_strlit("Adding ");
            reveal_strlit("Removing ");
            reveal_strlit(" to favorites\u{2026}");
            reveal_strlit(" from favorites\u{2026}");
        }
        if favorite {
            let adding = concat_str("Adding ", label.as_str());
            self.notice = concat_str(adding.as_str(), " to favorites\u{2026}");
        } else {
            let removing = concat_str("Removing ", label.as_str());
            self.notice = concat_str(removing.as_str(), " from favorites\u{2026}");
        }
        Some((Pending::Favorite { label, favorite }, RequestKind::SetFavorite { item_id: item.id, favorite }))
    }

    /// Takes in the reply to a favorite change of `label`; on success goes
    /// back to the search view and searches again.
    pub fn favorite_answered(
        &mut self,
        label: String,
        favorite: bool,
        response: Result<ResponseData, String>,
    ) -> (out: Option<(Pending, RequestKind)>)
        requires
            well_formed(old(self)@),
        ensures
            response matches Ok(ResponseData::Ack) ==> final(self)@ == searched(
                favorite_answered(old(self)@, label@, favorite, response),
            ) && is_search_request(favorite_answered(old(self)@, label@, favorite, response), out),
            !(response matches Ok(ResponseData::Ack)) ==> final(self)@ == favorite_answered(
                old(self)@,
                label@,
                favorite,
                response,
            ) && out is None,
            well_formed(final(self)@),
    {
        self.activity = Activity::Idle;
        match response {
            Ok(ResponseData::Ack) => {
                self.mode = ViewMode::Search;
                proof {
                    reveal_strlit(" added to favorites");
                    reveal_strlit(" removed from favorites");
                }
                if favorite {
                    self.notice = concat_str(label.as_str(), " added to favorites");
                } else {
                    self.notice = concat_str(label.as_str(), " removed from favorites");
                }
                self.search()
            },
            Ok(_) => {
                self.notice = String::from_str("Unexpected favorite response");
                proof { reveal_strlit("Unexpected favorite response"); }
                None
            },
            Err(message) => {
                self.notice = error_text(message);
                None
            },
        }
    }

    /// Asks for a rescan of the whole Browser, unless one is running.
    pub fn scan_browser(&mut self) -> (out: Option<(Pending, RequestKind)>)
        requires
            well_formed(old(self)@),
        ensures
            final(self)@ == scan_started(old(self)@),
            well_formed(final(self)@),
            old(self)@.activity == Activity::Scanning || !old(self)@.connected ==> out is None,
            old(self)@.activity != Activity::Scanning && old(self)@.connected ==> (out matches Some(
                (Pending::Scan, RequestKind::ScanCatalog { max_items, max_depth }),
            ) && max_items == SCAN_MAX_ITEMS && max_depth == SCAN_MAX_DEPTH),
    {
        if self.activity == Activity::Scanning {
            return None;
        }
        if !self.connected {
            self.notice = String::from_str("Palette service is not available");
            proof { reveal_strlit("Palette service is not available"); }
            return None;
        }
        self.activity = Activity::Scanning;
        self.notice = String::from_str("Refreshing the complete Live Browser index\u{2026}");
        proof { reveal_strlit("Refreshing the complete Live Browser index\u{2026}"); }
        Some((Pending::Scan, RequestKind::ScanCatalog { max_items: SCAN_MAX_ITEMS, max_depth: SCAN_MAX_DEPTH }))
    }

    /// Takes in the reply to a rescan; on success searches again.
    pub fn scan_answered(&mut self, response: Result<ResponseData, String>) -> (out: Option<(Pending, RequestKind)>)
        requires
            well_formed(old(self)@),
        ensures
            scan_succeeded(response) ==> final(self)@ == searched(scan_answered(old(self)@, response))
                && is_search_request(scan_answered(old(self)@, response), out),
            !scan_succeeded(response) ==> final(self)@ == scan_answered(old(self)@, response) && out is None,
            well_formed(final(self)@),
    {
        self.activity = Activity::Idle;
        match response {
            Ok(ResponseData::CatalogScan(summary)) => {
                self.notice = refreshed_text(summary.scanned);
                self.search()
            },
            Ok(ResponseData::Catalog(items)) => {
                self.notice = refreshed_text(items.len());
                self.search()
            },
            Ok(_) => {
                self.notice = String::from_str("Unexpected Browser refresh response");
                proof { reveal_strlit("Unexpected Browser refresh response"); }
                None
            },
            Err(message) => {
                self.notice = error_text(message);
                None
            },
        }
    }

    /// Whether the status and context can be asked for (the program then
    /// sends `Status` and `GetContext`); sets a notice when there is no
    /// service.
    pub fn refresh_context(&mut self) -> (ask: bool)
        requires
            well_formed(old(self)@),
        ensures
            ask == old(self)@.connected,
            ask ==> final(self)@ == old(self)@,
            !ask ==> final(self)@ == (PaletteView { notice: not_configured(), ..old(self)@ }),
            well_formed(final(self)@),
    {
        if !self.connected {
            self.notice = String::from_str("Palette service is not installed or configured");
            proof { reveal_strlit("Palette service is not installed or configured"); }
            return false;
        }
        true
    }

    /// Takes in the replies to `Status` and `GetContext`.
    pub fn context_answered(&mut self, replies: Result<(ResponseData, ResponseData), String>)
        requires
            well_formed(old(self)@),
        ensures
            final(self)@ == context_answered(old(self)@, replies),
            well_formed(final(self)@),
    {
        match replies {
            Ok((ResponseData::Status(status), ResponseData::Context(context))) => {
                self.status = Some(status);
                self.context = Some(context);
            },
            Ok(_) => {
                self.notice = String::from_str("Unexpected response from palette service");
                proof { reveal_strlit("Unexpected response from palette service"); }
            },
            Err(message) => {
                self.notice = error_text(message);
            },
        }
    }
}

/// The notice after a rescan found `count` items.
fn refreshed_text(count: usize) -> (text: String)
    ensures
        text@ == refreshed_notice(count as nat),
{
    proof {
        reveal_strlit("Browser refreshed: ");
        reveal_strlit(" searchable items");
    }
    let number = decimal_string(count as u64);
    let head = concat_str("Browser refreshed: ", number.as_str());
    concat_str(head.as_str(), " searchable items")
}

/// What key `k` asks for in `mode`.
pub fn classify_key(mode: ViewMode, k: &Keystroke) -> (command: KeyCommand)
    ensures
        command == command_for(mode, k@),
{
    proof {
        reveal_strlit(",");
        reveal_strlit("k");
        reveal_strlit("escape");
        reveal_strlit("down");
        reveal_strlit("up");
        reveal_strlit("enter");
        reveal_strlit("space");
        reveal_strlit("tab");
        reveal_strlit("backspace");
        reveal_strlit("r");
        reveal_strlit("v");
    }
    let key = k.key.as_str();
    if k.platform && str_equal(key, ",") {
        KeyCommand::ToggleSettings
    } else if k.platform && str_equal(key, "k") && mode == ViewMode::Search {
        KeyCommand::OpenActions
    } else if mode == ViewMode::Settings {
        if str_equal(key, "escape") {
            KeyCommand::Back
        } else if str_equal(key, "down") {
            KeyCommand::SettingsDown
        } else if str_equal(key, "up") {
            KeyCommand::SettingsUp
        } else if str_equal(key, "enter") || str_equal(key, "space") {
            KeyCommand::ToggleSetting
        } else {
            KeyCommand::Ignore
        }
    } else if mode == ViewMode::ItemActions {
        if str_equal(key, "escape") {
            KeyCommand::Back
        } else if str_equal(key, "enter") || str_equal(key, "space") {
            KeyCommand::ToggleFavorite
        } else {
            KeyCommand::Ignore
        }
    } else if str_equal(key, "escape") {
        KeyCommand::Close
    } else if str_equal(key, "down") {
        KeyCommand::Down
    } else if str_equal(key, "up") {
        KeyCommand::Up
    } else if str_equal(key, "enter") {
        KeyCommand::Execute
    } else if str_equal(key, "tab") {
        KeyCommand::CyclePlacement
    } else if str_equal(key, "backspace") && !k.platform && !k.control {
        KeyCommand::DeleteChar
    } else if str_equal(key, "r") && k.platform {
        KeyCommand::Scan
    } else if str_equal(key, "v") && k.platform {
        KeyCommand::Paste
    } else if !k.platform && !k.control && k.key_char.is_some() {
        KeyCommand::Type
    } else {
        KeyCommand::Ignore
    }
}

/// A request to send as a key's effect, or nothing.
fn send_or_nothing(out: Option<(Pending, RequestKind)>) -> (effect: KeyEffect)
    ensures
        sends_or_nothing(effect),
        sent(effect) == out,
{
    match out {
        Some((pending, request)) => KeyEffect::Send(pending, request),
        None => KeyEffect::Nothing,
    }
}

impl CommandPalette {
    /// Handles a key press: updates the state and returns the outside work
    /// left to do.
    pub fn handle_key(&mut self, k: &Keystroke) -> (effect: KeyEffect)
        requires
            well_formed(old(self)@),
        ensures
            final(self)@ == key_state(old(self)@, k@),
            key_effect(old(self)@, k@, effect),
            well_formed(final(self)@),
    {
        let command = classify_key(self.mode, k);
        match command {
            KeyCommand::ToggleSettings => {
                if self.mode == ViewMode::Settings {
                    self.mode = ViewMode::Search;
                    send_or_nothing(self.search())
                } else {
                    self.open_settings();
                    KeyEffect::Nothing
                }
            },
            KeyCommand::OpenActions => {
                self.open_item_actions();
                KeyEffect::Nothing
            },
            KeyCommand::Back => {
                self.back_to_search();
                KeyEffect::Nothing
            },
            KeyCommand::SettingsDown => {
                self.move_settings_cursor(false);
                KeyEffect::Nothing
            },
            KeyCommand::SettingsUp => {
                self.move_settings_cursor(true);
                KeyEffect::Nothing
            },
            KeyCommand::ToggleSetting => {
                let index = self.settings_selected;
                match self.toggle_setting(index) {
                    Some(group) => KeyEffect::SaveSettings(group),
                    None => KeyEffect::Nothing,
                }
            },
            KeyCommand::ToggleFavorite => send_or_nothing(self.toggle_selected_favorite()),
            KeyCommand::Close => KeyEffect::Close,
            KeyCommand::Down => match self.move_selection(1) {
                Some(child) => KeyEffect::ScrollTo(child),
                None => KeyEffect::Nothing,
            },
            KeyCommand::Up => match self.move_selection(-1) {
                Some(child) => KeyEffect::ScrollTo(child),
                None => KeyEffect::Nothing,
            },
            KeyCommand::Execute => send_or_nothing(self.execute_selected()),
            KeyCommand::CyclePlacement => {
                self.cycle_placement(k.shift);
                KeyEffect::Nothing
            },
            KeyCommand::DeleteChar => send_or_nothing(self.delete_char()),
            KeyCommand::Scan => send_or_nothing(self.scan_browser()),
            KeyCommand::Paste => KeyEffect::Paste,
            KeyCommand::Type => match &k.key_char {
                Some(text) => send_or_nothing(self.type_text(text.as_str())),
                None => KeyEffect::Nothing,
            },
            KeyCommand::Ignore => KeyEffect::Nothing,
        }
    }
}

/// The key help shown in each view.
pub fn help_line(mode: ViewMode) -> (help: &'static str)
    ensures
        help@ == help_text(mode),
{
    match mode {
        ViewMode::Search => {
            proof { reveal_strlit("\u{2191}\u{2193} Navigate   \u{21b5} Add   \u{2318}K Actions   \u{2318}, Settings   Tab Position"); }
            "\u{2191}\u{2193} Navigate   \u{21b5} Add   \u{2318}K Actions   \u{2318}, Settings   Tab Position"
        },
        ViewMode::Settings => {
            proof { reveal_strlit("\u{2191}\u{2193} Navigate   Space Toggle   Esc Back"); }
            "\u{2191}\u{2193} Navigate   Space Toggle   Esc Back"
        },
        ViewMode::ItemActions => {
            proof { reveal_strlit("\u{21b5} Apply   Esc Back"); }
            "\u{21b5} Apply   Esc Back"
        },
    }
}

impl CommandPalette {
    /// The footer line about Live: the selected track and device.
    pub fn track_line(&self) -> (line: String)
        ensures
            line@ == track_text(self@.context),
    {
        match &self.context {
            None => {
                proof { reveal_strlit("Waiting for Ableton Live\u{2026}"); }
                String::from_str("Waiting for Ableton Live\u{2026}")
            },
            Some(context) => match &context.selected_device_name {
                Some(device) => {
                    proof { reveal_strlit("  \u{b7}  selected: "); }
                    let head = concat_str(context.track_name.as_str(), "  \u{b7}  selected: ");
                    concat_str(head.as_str(), device.as_str())
                },
                None => {
                    proof { reveal_strlit("  \u{b7}  no device selected"); }
                    concat_str(context.track_name.as_str(), "  \u{b7}  no device selected")
                },
            },
        }
    }

    /// The text in the search field: the query with a cursor, a prompt, or
    /// the name of the view.
    pub fn title(&self) -> (title: String)
        requires
            well_formed(self@),
        ensures
            title@ == title_text(self@),
    {
        proof { assert(views_of(self.results@).len() == self.results@.len()); }
        match self.mode {
            ViewMode::Search => {
                if self.query.as_str().is_empty() {
                    proof { reveal_strlit("Search devices, plug-ins, presets, racks, samples, commands\u{2026}"); }
                    String::from_str("Search devices, plug-ins, presets, racks, samples, commands\u{2026}")
                } else {
                    proof { reveal_strlit("\u{258e}"); }
                    concat_str(self.query.as_str(), "\u{258e}")
                }
            },
            ViewMode::Settings => {
                proof { reveal_strlit("Search content settings"); }
                String::from_str("Search content settings")
            },
            ViewMode::ItemActions => {
                if self.selected < self.results.len() {
                    proof {
                        reveal_strlit("Actions for ");
                        assert(self.results@[self.selected as int]@ == self@.results[self.selected as int]);
                    }
                    concat_str("Actions for ", self.results[self.selected].name.as_str())
                } else {
                    proof { reveal_strlit("Item actions"); }
                    String::from_str("Item actions")
                }
            },
        }
    }

    /// The favorite action offered for the selected result, and its name.
    pub fn favorite_action(&self) -> (action: (&'static str, String))
        requires
            well_formed(self@),
        ensures
            (action.0@, action.1@) == favorite_action_text(self@),
    {
        proof {
            assert(views_of(self.results@).len() == self.results@.len());
            reveal_strlit("Remove from favorites");
            reveal_strlit("Add to favorites");
        }
        if self.selected < self.results.len() {
            let item = &self.results[self.selected];
            proof { assert(item@ == self@.results[self.selected as int]); }
            if item.favorite {
                ("Remove from favorites", item.name.clone())
            } else {
                ("Add to favorites", item.name.clone())
            }
        } else {
            ("Add to favorites", String::new())
        }
    }
}

// ------------------------------------------------------- laws of the palette

/// A reply to an earlier search never lands: once a newer search has
/// started, the reply tagged with the older generation leaves the state as
/// it is.
pub proof fn lemma_stale_search_ignored(v: PaletteView, response: Result<ResponseData, String>)
    requires
        v.connected,
    ensures
        search_answered(searched(v), v.generation, response) == searched(v),
{
}

/// Moving the selection down and then up (or up and then down) returns to
/// the result that was selected.
pub proof fn lemma_move_round_trip(v: PaletteView, delta: int)
    requires
        well_formed(v),
        delta == 1 || delta == -1,
    ensures
        moved(moved(v, delta), -delta) == v,
{
    if v.results.len() > 0 {
        let n = v.results.len() as int;
        let s = v.selected as int;
        if delta == 1 {
            if s + 1 == n {
                lemma_fundamental_div_mod_converse_mod(s + 1, n, 1, 0);
                lemma_fundamental_div_mod_converse_mod(0 - 1, n, -1, n - 1);
            } else {
                lemma_fundamental_div_mod_converse_mod(s + 1, n, 0, s + 1);
                lemma_fundamental_div_mod_converse_mod(s, n, 0, s);
            }
        } else {
            if s == 0 {
                lemma_fundamental_div_mod_converse_mod(0 - 1, n, -1, n - 1);
                lemma_fundamental_div_mod_converse_mod(n - 1 + 1, n, 1, 0);
            } else {
                lemma_fundamental_div_mod_converse_mod(s - 1, n, 0, s - 1);
                lemma_fundamental_div_mod_converse_mod(s, n, 0, s);
            }
        }
    }
}

/// The selection always stays on a result, whatever keys are pressed: every
/// key keeps the palette well formed.
pub proof fn lemma_key_keeps_selection(v: PaletteView, k: KeystrokeView)
    requires
        well_formed(v),
    ensures
        well_formed(key_state(v, k)),
{
    match command_for(v.mode, k) {
        KeyCommand::Down | KeyCommand::Up => {
            if v.results.len() > 0 {
                let d: int = if command_for(v.mode, k) == KeyCommand::Down { 1 } else { -1 };
                assert(0 <= (v.selected + d) % (v.results.len() as int) < v.results.len());
            }
        },
        _ => {},
    }
}

/// Toggling the same group in the settings twice restores the settings.
pub proof fn lemma_setting_toggle_twice(v: PaletteView, index: int)
    ensures
        setting_toggled(setting_toggled(v, index), index) == v,
{
    if 0 <= index < crate::settings::SETTINGS_COUNT {
        crate::settings::lemma_toggle_twice_restores(
            v.settings.visibility,
            crate::settings::settings_groups()[index],
        );
    }
}

// ------------------------------------------------------- the global shortcut

/// What a press of the global shortcut does.
#[derive(Debug, PartialEq, Eq, Structural, Clone, Copy)]
pub enum HotkeyAction {
    Ignore,
    Close,
    Open,
}

/// What the shortcut does: only the palette's own shortcut, on release,
/// acts; it closes an open palette, and opens one only while Ableton Live is
/// the frontmost application.
pub open spec fn hotkey_response(ours: bool, released: bool, window_open: bool, live_frontmost: bool) -> HotkeyAction {
    if !(ours && released) {
        HotkeyAction::Ignore
    } else if window_open {
        HotkeyAction::Close
    } else if live_frontmost {
        HotkeyAction::Open
    } else {
        HotkeyAction::Ignore
    }
}

/// What a global shortcut event does.
pub fn hotkey_action(ours: bool, released: bool, window_open: bool, live_frontmost: bool) -> (action: HotkeyAction)
    ensures
        action == hotkey_response(ours, released, window_open, live_frontmost),
{
    if !(ours && released) {
        HotkeyAction::Ignore
    } else if window_open {
        HotkeyAction::Close
    } else if live_frontmost {
        HotkeyAction::Open
    } else {
        HotkeyAction::Ignore
    }
}

/// The shortcut opens the palette only over Ableton Live, and closes it
/// from anywhere once it is open.
pub proof fn lemma_shortcut_opens_only_over_live(ours: bool, released: bool, window_open: bool, live_frontmost: bool)
    ensures
        hotkey_response(ours, released, window_open, live_frontmost)
            == HotkeyAction::Open ==> live_frontmost && !window_open,
        ours && released && window_open ==> hotkey_response(ours, released, window_open, live_frontmost)
            == HotkeyAction::Close,
        !ours || !released ==> hotkey_response(ours, released, window_open, live_frontmost)
            == HotkeyAction::Ignore,
{
}

} // verus!
