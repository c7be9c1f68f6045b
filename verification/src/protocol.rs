//! The shared contract between the daemon, its clients and the Live integrations:
//! context, catalog items, requests, responses, errors, workflows, collections
//! and hotkeys.  Wire encoding (newline-delimited JSON) is done by the programs
//! around the library; this module holds the values and the routing rules.

use vstd::prelude::*;
use crate::json::{clone_json, json_null};
use crate::text::{clone_strings, str_to_string};

verus! {

/// Protocol version that every peer must present in its `hello` frame.
pub const PROTOCOL_VERSION: u32 = 1;

/// Loopback port the daemon listens on unless configured otherwise.
pub const DEFAULT_DAEMON_PORT: u16 = 49_371;

/// Largest frame accepted or sent (32 MiB).
pub const MAX_FRAME_BYTES: usize = 33554432;

#[derive(Debug, PartialEq, Eq, Structural, Clone, Copy, Hash)]
pub enum PeerRole {
    Client,
    Bridge,
    Extension,
}

#[derive(Debug, PartialEq, Eq, Structural, Clone, Copy)]
pub enum PeerTarget {
    Daemon,
    Bridge,
    Extension,
}

#[derive(Debug, PartialEq, Eq, Structural, Clone, Copy)]
pub enum InsertionPosition {
    Beginning,
    BeforeSelected,
    AfterSelected,
    End,
}

/// The wire name of an insertion position.
pub open spec fn position_wire_name(position: InsertionPosition) -> Seq<char> {
    match position {
        InsertionPosition::Beginning => "beginning"@,
        InsertionPosition::BeforeSelected => "before_selected"@,
        InsertionPosition::AfterSelected => "after_selected"@,
        InsertionPosition::End => "end"@,
    }
}

impl InsertionPosition {
    /// The snake-case name used on the wire and in messages.
    pub fn as_str(&self) -> (name: &'static str)
        ensures
            name@ == position_wire_name(*self),
    {
        match self {
            InsertionPosition::Beginning => {
                proof { reveal_strlit("beginning"); }
                "beginning"
            },
            InsertionPosition::BeforeSelected => {
                proof { reveal_strlit("before_selected"); }
                "before_selected"
            },
            InsertionPosition::AfterSelected => {
                proof { reveal_strlit("after_selected"); }
                "after_selected"
            },
            InsertionPosition::End => {
                proof { reveal_strlit("end"); }
                "end"
            },
        }
    }
}

#[derive(Debug, PartialEq, Eq, Structural, Clone, Copy)]
pub enum TrackKind {
    Audio,
    Midi,
    Return,
    Main,
    Group,
    Unknown,
}

#[derive(Debug, PartialEq, Eq, Structural, Clone, Copy)]
pub enum ItemKind {
    NativeDevice,
    Plugin,
    Preset,
    Rack,
    MaxDevice,
    Sample,
    Loop,
    Command,
    Workflow,
    Unknown,
}

#[derive(Debug, PartialEq, Eq, Structural, Clone, Copy)]
pub enum ItemSource {
    LiveBrowser,
    LiveDatabase,
    OfficialExtension,
    User,
    BuiltIn,
}

#[derive(Debug, PartialEq)]
pub struct DeviceSummary {
    pub index: usize,
    pub name: String,
    pub class_name: Option<String>,
    pub selected: bool,
}

#[derive(Debug, PartialEq)]
pub struct LiveContext {
    pub live_version: Option<String>,
    pub set_name: Option<String>,
    pub track_name: String,
    pub track_kind: TrackKind,
    pub track_index: Option<usize>,
    pub selected_device_index: Option<usize>,
    pub selected_device_name: Option<String>,
    pub frozen: bool,
    pub devices: Vec<DeviceSummary>,
}

#[derive(Debug, PartialEq, Eq)]
pub struct DeviceInstance {
    pub track_name: String,
    pub track_kind: TrackKind,
    pub track_index: Option<usize>,
    pub device_name: String,
    pub class_name: Option<String>,
    pub class_display_name: Option<String>,
    pub active: Option<bool>,
    pub device_indices: Vec<usize>,
    pub chain_names: Vec<String>,
    pub device_path: Vec<String>,
}

#[derive(Debug, PartialEq, Eq)]
pub struct DeviceInventory {
    pub live_version: Option<String>,
    pub set_name: Option<String>,
    pub query: String,
    pub instances: Vec<DeviceInstance>,
}

/// One searchable, loadable thing: a device, plug-in, preset, rack, sample,
/// command or workflow.
#[derive(Debug, PartialEq)]
pub struct CatalogItem {
    pub id: String,
    pub kind: ItemKind,
    pub source: ItemSource,
    pub name: String,
    pub aliases: Vec<String>,
    pub categories: Vec<String>,
    pub tags: Vec<String>,
    pub browser_path: Vec<String>,
    pub compatible_tracks: Vec<TrackKind>,
    pub favorite: bool,
    pub pinned: bool,
    pub usage_count: u64,
    pub last_used_at: Option<i64>,
    /// Free-form JSON carried through unchanged.
    pub metadata: serde_json::Value,
}

/// The mathematical content of a catalog item: strings as character sequences.
pub struct CatalogItemView {
    pub id: Seq<char>,
    pub kind: ItemKind,
    pub source: ItemSource,
    pub name: Seq<char>,
    pub aliases: Seq<Seq<char>>,
    pub categories: Seq<Seq<char>>,
    pub tags: Seq<Seq<char>>,
    pub browser_path: Seq<Seq<char>>,
    pub compatible_tracks: Seq<TrackKind>,
    pub favorite: bool,
    pub pinned: bool,
    pub usage_count: u64,
    pub last_used_at: Option<i64>,
    pub metadata: serde_json::Value,
}

impl View for CatalogItem {
    type V = CatalogItemView;

    open spec fn view(&self) -> CatalogItemView {
        CatalogItemView {
            id: self.id@,
            kind: self.kind,
            source: self.source,
            name: self.name@,
            aliases: strings_view(self.aliases@),
            categories: strings_view(self.categories@),
            tags: strings_view(self.tags@),
            browser_path: strings_view(self.browser_path@),
            compatible_tracks: self.compatible_tracks@,
            favorite: self.favorite,
            pinned: self.pinned,
            usage_count: self.usage_count,
            last_used_at: self.last_used_at,
            metadata: self.metadata,
        }
    }
}

impl CatalogItem {
    /// A copy of the item with the same content.
    pub fn duplicate(&self) -> (copy: CatalogItem)
        ensures
            copy@ == self@,
    {
        let compatible_tracks = clone_tracks(&self.compatible_tracks);
        CatalogItem {
            id: self.id.clone(),
            kind: self.kind,
            source: self.source,
            name: self.name.clone(),
            aliases: clone_strings(&self.aliases),
            categories: clone_strings(&self.categories),
            tags: clone_strings(&self.tags),
            browser_path: clone_strings(&self.browser_path),
            compatible_tracks,
            favorite: self.favorite,
            pinned: self.pinned,
            usage_count: self.usage_count,
            last_used_at: self.last_used_at,
            metadata: clone_json(&self.metadata),
        }
    }
}

fn clone_tracks(tracks: &Vec<TrackKind>) -> (copy: Vec<TrackKind>)
    ensures
        copy@ == tracks@,
{
    let mut copy: Vec<TrackKind> = Vec::new();
    for i in 0..tracks.len()
        invariant
            copy@ == tracks@.take(i as int),
    {
        copy.push(tracks[i]);
        proof { assert(tracks@.take(i + 1) == tracks@.take(i as int).push(tracks@[i as int])); }
    }
    proof { assert(tracks@.take(tracks@.len() as int) == tracks@); }
    copy
}

/// The characters of each string, in order.
pub open spec fn strings_view(strings: Seq<String>) -> Seq<Seq<char>> {
    strings.map_values(|s: String| s@)
}

/// The views of a sequence of values, in order.
pub open spec fn views_of<T: View>(values: Seq<T>) -> Seq<T::V> {
    values.map_values(|v: T| v@)
}

/// Viewing a sequence commutes with pushing onto it.
pub proof fn lemma_views_of_push<T: View>(values: Seq<T>, value: T)
    ensures
        views_of(values.push(value)) == views_of(values).push(value@),
{
    assert(views_of(values.push(value)) =~= views_of(values).push(value@));
}

/// One step of a workflow.  A parameter value is a 64-bit IEEE-754 float,
/// carried here as its bit pattern.
#[derive(Debug, PartialEq, Eq)]
pub enum WorkflowAction {
    LoadItem { item_id: String, browser_path: Vec<String>, position: InsertionPosition },
    InsertNative { name: String, position: InsertionPosition },
    SetParameter { device_name: String, parameter_name: String, value_bits: u64 },
    RenameTrack { name: String },
    SetTrackArm { armed: bool },
    SetTrackMute { muted: bool },
    SetTrackSolo { soloed: bool },
    CreateAudioTrack,
    CreateMidiTrack,
}

/// The content of a workflow action, strings as character sequences.
pub enum WorkflowActionView {
    LoadItem { item_id: Seq<char>, browser_path: Seq<Seq<char>>, position: InsertionPosition },
    InsertNative { name: Seq<char>, position: InsertionPosition },
    SetParameter { device_name: Seq<char>, parameter_name: Seq<char>, value_bits: u64 },
    RenameTrack { name: Seq<char> },
    SetTrackArm { armed: bool },
    SetTrackMute { muted: bool },
    SetTrackSolo { soloed: bool },
    CreateAudioTrack,
    CreateMidiTrack,
}

impl View for WorkflowAction {
    type V = WorkflowActionView;

    open spec fn view(&self) -> WorkflowActionView {
        match self {
            WorkflowAction::LoadItem { item_id, browser_path, position } =>
                WorkflowActionView::LoadItem {
                    item_id: item_id@,
                    browser_path: strings_view(browser_path@),
                    position: *position,
                },
            WorkflowAction::InsertNative { name, position } =>
                WorkflowActionView::InsertNative { name: name@, position: *position },
            WorkflowAction::SetParameter { device_name, parameter_name, value_bits } =>
                WorkflowActionView::SetParameter {
                    device_name: device_name@,
                    parameter_name: parameter_name@,
                    value_bits: *value_bits,
                },
            WorkflowAction::RenameTrack { name } => WorkflowActionView::RenameTrack { name: name@ },
            WorkflowAction::SetTrackArm { armed } => WorkflowActionView::SetTrackArm { armed: *armed },
            WorkflowAction::SetTrackMute { muted } => WorkflowActionView::SetTrackMute { muted: *muted },
            WorkflowAction::SetTrackSolo { soloed } => WorkflowActionView::SetTrackSolo { soloed: *soloed },
            WorkflowAction::CreateAudioTrack => WorkflowActionView::CreateAudioTrack,
            WorkflowAction::CreateMidiTrack => WorkflowActionView::CreateMidiTrack,
        }
    }
}

impl WorkflowAction {
    /// A copy of the action with the same content.
    pub fn duplicate(&self) -> (copy: WorkflowAction)
        ensures
            copy@ == self@,
    {
        match self {
            WorkflowAction::LoadItem { item_id, browser_path, position } => WorkflowAction::LoadItem {
                item_id: item_id.clone(),
                browser_path: clone_strings(browser_path),
                position: *position,
            },
            WorkflowAction::InsertNative { name, position } => WorkflowAction::InsertNative {
                name: name.clone(),
                position: *position,
            },
            WorkflowAction::SetParameter { device_name, parameter_name, value_bits } =>
                WorkflowAction::SetParameter {
                    device_name: device_name.clone(),
                    parameter_name: parameter_name.clone(),
                    value_bits: *value_bits,
                },
            WorkflowAction::RenameTrack { name } => WorkflowAction::RenameTrack { name: name.clone() },
            WorkflowAction::SetTrackArm { armed } => WorkflowAction::SetTrackArm { armed: *armed },
            WorkflowAction::SetTrackMute { muted } => WorkflowAction::SetTrackMute { muted: *muted },
            WorkflowAction::SetTrackSolo { soloed } => WorkflowAction::SetTrackSolo { soloed: *soloed },
            WorkflowAction::CreateAudioTrack => WorkflowAction::CreateAudioTrack,
            WorkflowAction::CreateMidiTrack => WorkflowAction::CreateMidiTrack,
        }
    }
}

#[derive(Debug, PartialEq, Eq)]
pub struct WorkflowDefinition {
    pub id: String,
    pub name: String,
    pub description: String,
    pub actions: Vec<WorkflowAction>,
}

/// The content of a workflow definition.
pub struct WorkflowView {
    pub id: Seq<char>,
    pub name: Seq<char>,
    pub description: Seq<char>,
    pub actions: Seq<WorkflowActionView>,
}

impl View for WorkflowDefinition {
    type V = WorkflowView;

    open spec fn view(&self) -> WorkflowView {
        WorkflowView {
            id: self.id@,
            name: self.name@,
            description: self.description@,
            actions: views_of(self.actions@),
        }
    }
}

impl WorkflowDefinition {
    /// A copy of the workflow with the same content.
    pub fn duplicate(&self) -> (copy: WorkflowDefinition)
        ensures
            copy@ == self@,
    {
        let mut actions: Vec<WorkflowAction> = Vec::new();
        for i in 0..self.actions.len()
            invariant
                views_of(actions@) == views_of(self.actions@.take(i as int)),
        {
            let ghost before = actions@;
            let action = self.actions[i].duplicate();
            actions.push(action);
            proof {
                assert(self.actions@.take(i + 1) == self.actions@.take(i as int).push(
                    self.actions@[i as int],
                ));
                lemma_views_of_push(before, action);
                lemma_views_of_push(self.actions@.take(i as int), self.actions@[i as int]);
            }
        }
        proof { assert(self.actions@.take(self.actions@.len() as int) == self.actions@); }
        WorkflowDefinition {
            id: self.id.clone(),
            name: self.name.clone(),
            description: self.description.clone(),
            actions,
        }
    }
}

#[derive(Debug, PartialEq, Eq)]
pub struct ActionResult {
    pub index: usize,
    pub action_type: String,
    pub success: bool,
    pub message: String,
}

#[derive(Debug, PartialEq)]
pub struct Diagnostics {
    pub component: String,
    pub version: String,
    pub live_version: Option<String>,
    pub capabilities: Vec<String>,
    pub warnings: Vec<String>,
    pub details: serde_json::Value,
}

#[derive(Debug, PartialEq, Eq)]
pub struct ServiceStatus {
    pub protocol_version: u32,
    pub bridge_connected: bool,
    pub extension_connected: bool,
    pub catalog_count: usize,
    pub data_directory: String,
}

#[derive(Debug, PartialEq, Eq)]
pub struct CollectionSummary {
    pub name: String,
    pub item_ids: Vec<String>,
}

#[derive(Debug, PartialEq, Eq)]
pub struct HotkeyBinding {
    pub accelerator: String,
    pub target_id: String,
}

#[derive(Debug, PartialEq, Eq)]
pub struct LiveDatabaseImportSummary {
    pub plugin_database: String,
    pub schema_version: i64,
    pub discovered: usize,
    pub imported: usize,
    pub instruments: usize,
    pub audio_effects: usize,
    pub vendors: usize,
}

#[derive(Debug, PartialEq, Eq, Clone, Copy)]
pub struct CatalogScanSummary {
    pub scanned: usize,
}

#[derive(Debug, PartialEq)]
pub enum RequestKind {
    Ping,
    Status,
    GetContext,
    InspectDevices { query: String },
    ScanCatalog { max_items: usize, max_depth: usize },
    Search { query: String, limit: usize },
    ImportLiveDatabase { plugin_database: Option<String> },
    LoadItem { item_id: String, browser_path: Vec<String>, position: InsertionPosition },
    ResolveAndLoadItem { item_id: String, name: String, kind: ItemKind, position: InsertionPosition },
    InsertNative { name: String, position: InsertionPosition },
    SdkInsertNative { name: String, position: InsertionPosition },
    SetFavorite { item_id: String, favorite: bool },
    SetPinned { item_id: String, pinned: bool },
    AddAlias { item_id: String, alias: String },
    RemoveAlias { item_id: String, alias: String },
    AddTag { item_id: String, tag: String },
    RemoveTag { item_id: String, tag: String },
    CreateCollection { name: String },
    AddToCollection { name: String, item_id: String },
    RemoveFromCollection { name: String, item_id: String },
    DeleteCollection { name: String },
    ListCollections,
    SaveWorkflow { workflow: WorkflowDefinition },
    DeleteWorkflow { workflow_id: String },
    ListWorkflows,
    RunWorkflow { workflow_id: String },
    ExecuteWorkflow { workflow: WorkflowDefinition },
    SetHotkey { accelerator: String, target_id: String },
    ClearHotkey { accelerator: String },
    ListHotkeys,
    Diagnostics,
}

/// Which peer answers a request: everything that needs Live goes to the
/// Python bridge, SDK insertion goes to the official extension, and the rest
/// is the daemon's own business.
pub open spec fn request_target(request: RequestKind) -> PeerTarget {
    match request {
        RequestKind::GetContext
        | RequestKind::InspectDevices { .. }
        | RequestKind::ScanCatalog { .. }
        | RequestKind::LoadItem { .. }
        | RequestKind::ResolveAndLoadItem { .. }
        | RequestKind::InsertNative { .. }
        | RequestKind::ExecuteWorkflow { .. }
        | RequestKind::Diagnostics => PeerTarget::Bridge,
        RequestKind::SdkInsertNative { .. } => PeerTarget::Extension,
        _ => PeerTarget::Daemon,
    }
}

impl RequestKind {
    /// The peer that must answer this request.
    pub fn target(&self) -> (target: PeerTarget)
        ensures
            target == request_target(*self),
    {
        match self {
            RequestKind::GetContext
            | RequestKind::InspectDevices { .. }
            | RequestKind::ScanCatalog { .. }
            | RequestKind::LoadItem { .. }
            | RequestKind::ResolveAndLoadItem { .. }
            | RequestKind::InsertNative { .. }
            | RequestKind::ExecuteWorkflow { .. }
            | RequestKind::Diagnostics => PeerTarget::Bridge,
            RequestKind::SdkInsertNative { .. } => PeerTarget::Extension,
            _ => PeerTarget::Daemon,
        }
    }
}

#[derive(Debug, PartialEq)]
pub enum ResponseData {
    Ack,
    Pong,
    Status(ServiceStatus),
    Context(LiveContext),
    DeviceInventory(DeviceInventory),
    Catalog(Vec<CatalogItem>),
    CatalogScan(CatalogScanSummary),
    SearchResults(Vec<CatalogItem>),
    LiveDatabaseImport(LiveDatabaseImportSummary),
    Workflow(WorkflowDefinition),
    Workflows(Vec<WorkflowDefinition>),
    Collections(Vec<CollectionSummary>),
    Hotkeys(Vec<HotkeyBinding>),
    ActionResults(Vec<ActionResult>),
    Diagnostics(Diagnostics),
}

/// A failure reported to a peer: a stable code, a readable message and
/// whether retrying may help.
#[derive(Debug, PartialEq, Eq)]
pub struct ProtocolError {
    pub code: String,
    pub message: String,
    pub retryable: bool,
}

impl ProtocolError {
    /// A non-retryable error with the given code and message.
    pub fn new(code: &str, message: &str) -> (error: ProtocolError)
        ensures
            error.code@ == code@,
            error.message@ == message@,
            !error.retryable,
    {
        ProtocolError { code: str_to_string(code), message: str_to_string(message), retryable: false }
    }
}

#[derive(Debug, PartialEq)]
pub enum WireMessage {
    Hello {
        protocol_version: u32,
        role: PeerRole,
        token: String,
        peer_name: String,
        peer_version: String,
        capabilities: Vec<String>,
    },
    HelloAck { protocol_version: u32, daemon_version: String },
    Request { request_id: String, request: RequestKind },
    Response { request_id: String, result: Option<ResponseData>, error: Option<ProtocolError> },
    Event { event: String, data: serde_json::Value },
}

impl WireMessage {
    /// The response that carries a result for `request_id`.
    pub fn success(request_id: String, result: ResponseData) -> (message: WireMessage)
        ensures
            message == (WireMessage::Response { request_id, result: Some(result), error: None }),
    {
        WireMessage::Response { request_id, result: Some(result), error: None }
    }

    /// The response that carries an error for `request_id`.
    pub fn failure(request_id: String, error: ProtocolError) -> (message: WireMessage)
        ensures
            message == (WireMessage::Response { request_id, result: None, error: Some(error) }),
    {
        WireMessage::Response { request_id, result: None, error: Some(error) }
    }
}

/// A catalog item with no metadata and no personalization.
pub fn plain_item(
    id: String,
    kind: ItemKind,
    source: ItemSource,
    name: String,
) -> (item: CatalogItem)
    ensures
        item.id == id,
        item.kind == kind,
        item.source == source,
        item.name == name,
        item.aliases@.len() == 0,
        item.categories@.len() == 0,
        item.tags@.len() == 0,
        item.browser_path@.len() == 0,
        item.compatible_tracks@.len() == 0,
        !item.favorite,
        !item.pinned,
        item.usage_count == 0,
        item.last_used_at is None,
{
    CatalogItem {
        id,
        kind,
        source,
        name,
        aliases: Vec::new(),
        categories: Vec::new(),
        tags: Vec::new(),
        browser_path: Vec::new(),
        compatible_tracks: Vec::new(),
        favorite: false,
        pinned: false,
        usage_count: 0,
        last_used_at: None,
        metadata: json_null(),
    }
}

} // verus!
