//! The headless test client: each command line subcommand becomes one
//! request, and the reply is checked against the request it answers.
//! Parsing the command line, reading workflow files and the socket are the
//! program's work.

use vstd::prelude::*;
use crate::protocol::{InsertionPosition, RequestKind, WireMessage, WorkflowDefinition};
use crate::text::str_equal;

verus! {

/// Where a loaded device goes, as the command line names it.
#[derive(Debug, PartialEq, Eq, Structural, Clone, Copy)]
pub enum PositionArg {
    Beginning,
    Before,
    After,
    End,
}

/// The placement a command line position names.
pub open spec fn position_for(arg: PositionArg) -> InsertionPosition {
    match arg {
        PositionArg::Beginning => InsertionPosition::Beginning,
        PositionArg::Before => InsertionPosition::BeforeSelected,
        PositionArg::After => InsertionPosition::AfterSelected,
        PositionArg::End => InsertionPosition::End,
    }
}

impl PositionArg {
    /// The placement this position names.
    pub fn insertion_position(self) -> (position: InsertionPosition)
        ensures
            position == position_for(self),
    {
        match self {
            PositionArg::Beginning => InsertionPosition::Beginning,
            PositionArg::Before => InsertionPosition::BeforeSelected,
            PositionArg::After => InsertionPosition::AfterSelected,
            PositionArg::End => InsertionPosition::End,
        }
    }
}

/// A subcommand of the test client, with its arguments.  A workflow to
/// save arrives already read from its file.
pub enum CliCommand {
    Ping,
    Status,
    Context,
    Scan { max_items: usize, max_depth: usize },
    Search { query: String, limit: usize },
    ImportLiveIndex { plugin_database: Option<String> },
    Load { item_id: String, position: PositionArg },
    InsertNative { name: String, position: PositionArg },
    SdkInsertNative { name: String, position: PositionArg },
    Favorite { item_id: String, enabled: bool },
    Pin { item_id: String, enabled: bool },
    Alias { item_id: String, alias: String },
    RemoveAlias { item_id: String, alias: String },
    Tag { item_id: String, tag: String },
    RemoveTag { item_id: String, tag: String },
    CreateCollection { name: String },
    AddToCollection { name: String, item_id: String },
    RemoveFromCollection { name: String, item_id: String },
    DeleteCollection { name: String },
    ListCollections,
    SaveWorkflow { workflow: WorkflowDefinition },
    RunWorkflow { workflow_id: String },
    DeleteWorkflow { workflow_id: String },
    ListWorkflows,
    SetHotkey { accelerator: String, target_id: String },
    ClearHotkey { accelerator: String },
    ListHotkeys,
    Diagnostics,
}

/// The largest scan the client asks for.
pub const SCAN_ITEMS_LIMIT: usize = 250000;

/// The deepest scan the client asks for.
pub const SCAN_DEPTH_LIMIT: usize = 64;

/// `value` clamped into `lo..=hi`.
pub open spec fn clamped(value: usize, lo: usize, hi: usize) -> usize {
    if value < lo {
        lo
    } else if value > hi {
        hi
    } else {
        value
    }
}

fn clamp(value: usize, lo: usize, hi: usize) -> (c: usize)
    requires
        lo <= hi,
    ensures
        c == clamped(value, lo, hi),
{
    if value < lo {
        lo
    } else if value > hi {
        hi
    } else {
        value
    }
}

/// Whether `request` is the one `command` asks for: arguments carried over
/// unchanged, scan limits clamped to `1..=250000` items and `1..=64` levels,
/// positions mapped to placements, and loading by id with no Browser path.
pub open spec fn is_request_for(command: CliCommand, request: RequestKind) -> bool {
    match command {
        CliCommand::Ping => request is Ping,
        CliCommand::Status => request is Status,
        CliCommand::Context => request is GetContext,
        CliCommand::Scan { max_items, max_depth } => request == RequestKind::ScanCatalog {
            max_items: clamped(max_items, 1, SCAN_ITEMS_LIMIT),
            max_depth: clamped(max_depth, 1, SCAN_DEPTH_LIMIT),
        },
        CliCommand::Search { query, limit } => request == RequestKind::Search { query, limit },
        CliCommand::ImportLiveIndex { plugin_database } => request == RequestKind::ImportLiveDatabase {
            plugin_database,
        },
        CliCommand::Load { item_id, position } => request matches RequestKind::LoadItem {
            item_id: id,
            browser_path,
            position: p,
        } && id == item_id && browser_path@.len() == 0 && p == position_for(position),
        CliCommand::InsertNative { name, position } => request == RequestKind::InsertNative {
            name,
            position: position_for(position),
        },
        CliCommand::SdkInsertNative { name, position } => request == RequestKind::SdkInsertNative {
            name,
            position: position_for(position),
        },
        CliCommand::Favorite { item_id, enabled } => request == RequestKind::SetFavorite {
            item_id,
            favorite: enabled,
        },
        CliCommand::Pin { item_id, enabled } => request == RequestKind::SetPinned { item_id, pinned: enabled },
        CliCommand::Alias { item_id, alias } => request == RequestKind::AddAlias { item_id, alias },
        CliCommand::RemoveAlias { item_id, alias } => request == RequestKind::RemoveAlias { item_id, alias },
        CliCommand::Tag { item_id, tag } => request == RequestKind::AddTag { item_id, tag },
        CliCommand::RemoveTag { item_id, tag } => request == RequestKind::RemoveTag { item_id, tag },
        CliCommand::CreateCollection { name } => request == RequestKind::CreateCollection { name },
        CliCommand::AddToCollection { name, item_id } => request == RequestKind::AddToCollection {
            name,
            item_id,
        },
        CliCommand::RemoveFromCollection { name, item_id } => request
            == RequestKind::RemoveFromCollection { name, item_id },
        CliCommand::DeleteCollection { name } => request == RequestKind::DeleteCollection { name },
        CliCommand::ListCollections => request is ListCollections,
        CliCommand::SaveWorkflow { workflow } => request == RequestKind::SaveWorkflow { workflow },
        CliCommand::RunWorkflow { workflow_id } => request == RequestKind::RunWorkflow { workflow_id },
        CliCommand::DeleteWorkflow { workflow_id } => request == RequestKind::DeleteWorkflow {
            workflow_id,
        },
        CliCommand::ListWorkflows => request is ListWorkflows,
        CliCommand::SetHotkey { accelerator, target_id } => request == RequestKind::SetHotkey {
            accelerator,
            target_id,
        },
        CliCommand::ClearHotkey { accelerator } => request == RequestKind::ClearHotkey { accelerator },
        CliCommand::ListHotkeys => request is ListHotkeys,
        CliCommand::Diagnostics => request is Diagnostics,
    }
}

/// The request a subcommand sends.
pub fn command_to_request(command: CliCommand) -> (request: RequestKind)
    ensures
        is_request_for(command, request),
{
    match command {
        CliCommand::Ping => RequestKind::Ping,
        CliCommand::Status => RequestKind::Status,
        CliCommand::Context => RequestKind::GetContext,
        CliCommand::Scan { max_items, max_depth } => RequestKind::ScanCatalog {
            max_items: clamp(max_items, 1, SCAN_ITEMS_LIMIT),
            max_depth: clamp(max_depth, 1, SCAN_DEPTH_LIMIT),
        },
        CliCommand::Search { query, limit } => RequestKind::Search { query, limit },
        CliCommand::ImportLiveIndex { plugin_database } => RequestKind::ImportLiveDatabase { plugin_database },
        CliCommand::Load { item_id, position } => RequestKind::LoadItem {
            item_id,
            browser_path: Vec::new(),
            position: position.insertion_position(),
        },
        CliCommand::InsertNative { name, position } => RequestKind::InsertNative {
            name,
            position: position.insertion_position(),
        },
        CliCommand::SdkInsertNative { name, position } => RequestKind::SdkInsertNative {
            name,
            position: position.insertion_position(),
        },
        CliCommand::Favorite { item_id, enabled } => RequestKind::SetFavorite { item_id, favorite: enabled },
        CliCommand::Pin { item_id, enabled } => RequestKind::SetPinned { item_id, pinned: enabled },
        CliCommand::Alias { item_id, alias } => RequestKind::AddAlias { item_id, alias },
        CliCommand::RemoveAlias { item_id, alias } => RequestKind::RemoveAlias { item_id, alias },
        CliCommand::Tag { item_id, tag } => RequestKind::AddTag { item_id, tag },
        CliCommand::RemoveTag { item_id, tag } => RequestKind::RemoveTag { item_id, tag },
        CliCommand::CreateCollection { name } => RequestKind::CreateCollection { name },
        CliCommand::AddToCollection { name, item_id } => RequestKind::AddToCollection { name, item_id },
        CliCommand::RemoveFromCollection { name, item_id } => RequestKind::RemoveFromCollection {
            name,
            item_id,
        },
        CliCommand::DeleteCollection { name } => RequestKind::DeleteCollection { name },
        CliCommand::ListCollections => RequestKind::ListCollections,
        CliCommand::SaveWorkflow { workflow } => RequestKind::SaveWorkflow { workflow },
        CliCommand::RunWorkflow { workflow_id } => RequestKind::RunWorkflow { workflow_id },
        CliCommand::DeleteWorkflow { workflow_id } => RequestKind::DeleteWorkflow { workflow_id },
        CliCommand::ListWorkflows => RequestKind::ListWorkflows,
        CliCommand::SetHotkey { accelerator, target_id } => RequestKind::SetHotkey { accelerator, target_id },
        CliCommand::ClearHotkey { accelerator } => RequestKind::ClearHotkey { accelerator },
        CliCommand::ListHotkeys => RequestKind::ListHotkeys,
        CliCommand::Diagnostics => RequestKind::Diagnostics,
    }
}

/// Whether the daemon's first frame accepts the client's hello.
pub fn hello_accepted(message: &WireMessage) -> (accepted: bool)
    ensures
        accepted == (message is HelloAck),
{
    match message {
        WireMessage::HelloAck { .. } => true,
        _ => false,
    }
}

/// What the client makes of the frame read after sending `request_id`: the
/// response to it (a failed one gives its error's message), or the complaint
/// that the daemon answered something else.
pub fn checked_response(request_id: &str, response: WireMessage) -> (outcome: Result<WireMessage, String>)
    ensures
        match response {
            WireMessage::Response { request_id: id, error: Some(e), .. } => if id@ == request_id@ {
                outcome matches Err(m) && m@ == e.message@
            } else {
                outcome matches Err(m) && m@ == "unexpected daemon response"@
            },
            WireMessage::Response { request_id: id, error: None, .. } => if id@ == request_id@ {
                outcome == Ok::<WireMessage, String>(response)
            } else {
                outcome matches Err(m) && m@ == "unexpected daemon response"@
            },
            _ => outcome matches Err(m) && m@ == "unexpected daemon response"@,
        },
{
    proof { reveal_strlit("unexpected daemon response"); }
    let matching = match &response {
        WireMessage::Response { request_id: id, .. } => str_equal(id.as_str(), request_id),
        _ => false,
    };
    if !matching {
        return Err(String::from_str("unexpected daemon response"));
    }
    match &response {
        WireMessage::Response { error: Some(e), .. } => {
            return Err(e.message.clone());
        },
        _ => {},
    }
    Ok(response)
}

} // verus!
