//! The daemon's decisions: frame limits, peer authentication, and how each
//! request is routed and answered.  Sockets, tasks and timers belong to the
//! program around the library, which performs what these functions decide.

use vstd::prelude::*;
use vstd::utf8::*;
use vstd::string::StringSliceAdditionalSpecFns;
use crate::protocol::{
    lemma_views_of_push, request_target, strings_view, views_of, CatalogItem,
    LiveDatabaseImportSummary, ServiceStatus, WorkflowAction, WorkflowActionView,
    WorkflowDefinition, WorkflowView, ItemSource, PeerRole, PeerTarget, ProtocolError, RequestKind,
    ResponseData, WireMessage, MAX_FRAME_BYTES, PROTOCOL_VERSION,
};
use crate::ranking::{candidates_fit, normalized_query, ranked};
use crate::sorting::sort_stable;
use crate::store::{
    add_alias_outcome, add_tag_outcome, add_to_collection_outcome, by_accelerator, by_workflow_id,
    clear_hotkey_outcome, create_collection_outcome, delete_collection_outcome,
    delete_workflow_outcome, favorite_outcome, item_has_id, listed_catalog, listed_collections,
    pinned_outcome, remove_alias_outcome, remove_from_collection_outcome, remove_tag_outcome,
    save_workflow_outcome, search_limit, set_hotkey_outcome, store_error_message, upsert_items,
    usage_outcome, workflow_has_id, Store, StoreError, StoreView,
};
use crate::tables::first_index;
use crate::forwarding::{timeout_message, Forwarded, PendingRequest, REQUEST_TIMEOUT_SECS};
use crate::text::{concat_str, decimal, decimal_string};

verus! {

/// A frame that is larger than the protocol allows.
#[derive(Debug, PartialEq, Eq, Structural, Clone, Copy)]
pub enum FrameError {
    IncomingTooLarge,
    OutgoingTooLarge,
}

/// The text that describes a frame error.
pub open spec fn frame_error_message(e: FrameError) -> Seq<char> {
    match e {
        FrameError::IncomingTooLarge => "incoming frame exceeds size limit"@,
        FrameError::OutgoingTooLarge => "outgoing frame exceeds size limit"@,
    }
}

impl FrameError {
    /// The text that describes the error.
    pub fn message(&self) -> (text: String)
        ensures
            text@ == frame_error_message(*self),
    {
        match self {
            FrameError::IncomingTooLarge => String::from_str("incoming frame exceeds size limit"),
            FrameError::OutgoingTooLarge => String::from_str("outgoing frame exceeds size limit"),
        }
    }
}

/// Accepts an incoming frame whose UTF-8 encoding fits the frame limit.
pub fn ensure_frame_size(frame: &str) -> (checked: Result<(), FrameError>)
    ensures
        checked is Ok <==> frame.len() <= MAX_FRAME_BYTES,
        checked is Err ==> checked == Err::<(), FrameError>(FrameError::IncomingTooLarge),
{
    if frame.len() <= MAX_FRAME_BYTES {
        Ok(())
    } else {
        Err(FrameError::IncomingTooLarge)
    }
}

/// Terminates an encoded outgoing message with a newline, refusing one whose
/// encoding exceeds the frame limit.
pub fn frame_outgoing(encoded: Vec<u8>) -> (framed: Result<Vec<u8>, FrameError>)
    ensures
        framed is Ok <==> encoded@.len() <= MAX_FRAME_BYTES,
        framed matches Ok(bytes) ==> bytes@ == encoded@.push(10u8),
        framed is Err ==> framed == Err::<Vec<u8>, FrameError>(FrameError::OutgoingTooLarge),
{
    if encoded.len() > MAX_FRAME_BYTES {
        return Err(FrameError::OutgoingTooLarge);
    }
    let mut bytes = encoded;
    bytes.push(10u8);
    Ok(bytes)
}

/// Compares two tokens without stopping at the first difference: every byte
/// pair is folded into one difference mask, so the time taken depends on the
/// length only.
pub fn constant_time_eq(left: &str, right: &str) -> (same: bool)
    ensures
        same == (left@ == right@),
{
    let a = left.as_bytes();
    let b = right.as_bytes();
    if a.len() != b.len() {
        proof {
            if left@ == right@ {
                assert(left.spec_bytes() == right.spec_bytes());
            }
        }
        return false;
    }
    let mut difference: u8 = 0;
    let mut i: usize = 0;
    while i < a.len()
        invariant
            a@ == left.spec_bytes(),
            b@ == right.spec_bytes(),
            a@.len() == b@.len(),
            i <= a@.len(),
            difference == 0 <==> forall|j: int| 0 <= j < i ==> a@[j] == b@[j],
        decreases a@.len() - i,
    {
        let x = a[i];
        let y = b[i];
        let d = difference;
        assert((d | (x ^ y)) == 0 <==> (d == 0 && x == y)) by (bit_vector);
        difference = d | (x ^ y);
        i += 1;
    }
    proof {
        if difference == 0 {
            assert(a@ =~= b@);
            encode_utf8_decode_utf8(left@);
            encode_utf8_decode_utf8(right@);
        } else if left@ == right@ {
            assert(a@ == b@);
        }
    }
    difference == 0
}

} // verus!

verus! {

// ------------------------------------------------------------------ hello

/// Why a connection's first frame was refused.
#[derive(Debug, PartialEq, Eq, Structural, Clone, Copy)]
pub enum HelloError {
    UnsupportedVersion(u32),
    AuthenticationFailed,
    NotHello,
}

/// The text that describes a refused hello.
pub open spec fn hello_error_message(e: HelloError) -> Seq<char> {
    match e {
        HelloError::UnsupportedVersion(v) => "unsupported protocol version "@ + decimal(v as nat),
        HelloError::AuthenticationFailed => "authentication failed"@,
        HelloError::NotHello => "first frame must be hello"@,
    }
}

impl HelloError {
    /// The text that describes the error.
    pub fn message(&self) -> (text: String)
        ensures
            text@ == hello_error_message(*self),
    {
        match self {
            HelloError::UnsupportedVersion(v) => {
                let mut text = String::from_str("unsupported protocol version ");
                let number = decimal_string(*v as u64);
                text.append(number.as_str());
                text
            },
            HelloError::AuthenticationFailed => String::from_str("authentication failed"),
            HelloError::NotHello => String::from_str("first frame must be hello"),
        }
    }
}

/// Accepts a connection's first frame when it is a `hello` with the exact
/// protocol version and the daemon's token, giving the peer's role and name.
pub fn check_hello(message: &WireMessage, token: &str) -> (outcome: Result<(PeerRole, String), HelloError>)
    ensures
        match *message {
            WireMessage::Hello { protocol_version, role, token: presented, peer_name, .. } =>
                if protocol_version != PROTOCOL_VERSION {
                    outcome == Err::<(PeerRole, String), HelloError>(HelloError::UnsupportedVersion(protocol_version))
                } else if presented@ != token@ {
                    outcome == Err::<(PeerRole, String), HelloError>(HelloError::AuthenticationFailed)
                } else {
                    outcome matches Ok((r, name)) && r == role && name@ == peer_name@
                },
            _ => outcome == Err::<(PeerRole, String), HelloError>(HelloError::NotHello),
        },
{
    match message {
        WireMessage::Hello { protocol_version, role, token: presented, peer_name, .. } => {
            if *protocol_version != PROTOCOL_VERSION {
                return Err(HelloError::UnsupportedVersion(*protocol_version));
            }
            if !constant_time_eq(presented.as_str(), token) {
                return Err(HelloError::AuthenticationFailed);
            }
            Ok((*role, peer_name.clone()))
        },
        _ => Err(HelloError::NotHello),
    }
}

// ------------------------------------------------------------ peer errors

/// The peer that serves a target, when it is not the daemon itself.
pub open spec fn peer_for(target: PeerTarget) -> Option<PeerRole> {
    match target {
        PeerTarget::Daemon => None,
        PeerTarget::Bridge => Some(PeerRole::Bridge),
        PeerTarget::Extension => Some(PeerRole::Extension),
    }
}

/// The peer that serves `target`, if the daemon does not.
pub fn peer_role_for(target: PeerTarget) -> (role: Option<PeerRole>)
    ensures
        role == peer_for(target),
{
    match target {
        PeerTarget::Daemon => None,
        PeerTarget::Bridge => Some(PeerRole::Bridge),
        PeerTarget::Extension => Some(PeerRole::Extension),
    }
}

/// The name a role is reported by.
pub open spec fn role_name(role: PeerRole) -> Seq<char> {
    match role {
        PeerRole::Client => "Client"@,
        PeerRole::Bridge => "Bridge"@,
        PeerRole::Extension => "Extension"@,
    }
}

/// The retryable error for a request whose peer is not connected.
pub fn peer_unavailable(role: PeerRole) -> (error: ProtocolError)
    ensures
        error.code@ == "peer_unavailable"@,
        error.message@ == role_name(role) + " is not connected"@,
        error.retryable,
{
    let name = match role {
        PeerRole::Client => "Client",
        PeerRole::Bridge => "Bridge",
        PeerRole::Extension => "Extension",
    };
    let mut message = String::from_str(name);
    message.append(" is not connected");
    ProtocolError { code: String::from_str("peer_unavailable"), message, retryable: true }
}

/// The error for a request whose peer went away while it was sent.
pub fn peer_disconnected() -> (error: ProtocolError)
    ensures
        error.code@ == "peer_disconnected"@,
        error.message@ == "integration peer disconnected"@,
        !error.retryable,
{
    ProtocolError::new("peer_disconnected", "integration peer disconnected")
}

/// The retryable error for a request the integration did not answer within
/// `REQUEST_TIMEOUT_SECS`.
pub fn request_timeout() -> (error: ProtocolError)
    ensures
        error.code@ == "request_timeout"@,
        error.message@ == timeout_message(),
        error.retryable,
{
    let seconds = decimal_string(REQUEST_TIMEOUT_SECS);
    let head = concat_str("Ableton integration did not respond within ", seconds.as_str());
    let message = concat_str(head.as_str(), " seconds");
    ProtocolError { code: String::from_str("request_timeout"), message, retryable: true }
}

} // verus!

verus! {

// ------------------------------------------------------- routing a request

/// What becomes of a client's request: an immediate reply, handling by the
/// daemon itself, or forwarding to a Live integration peer.
#[derive(Debug, PartialEq)]
pub enum ClientRoute {
    Reply(WireMessage),
    Daemon(RequestKind),
    Peer(PeerRole, RequestKind),
}

/// Whether `reply` is the error response to `rid` with this code and message.
pub open spec fn failed_with(reply: WireMessage, rid: Seq<char>, code: Seq<char>, message: Seq<char>, retryable: bool) -> bool {
    reply matches WireMessage::Response { request_id, result: None, error: Some(e) } && request_id@ == rid
        && e.code@ == code && e.message@ == message && e.retryable == retryable
}

/// Whether `reply` acknowledges `rid`.
pub open spec fn acked(reply: WireMessage, rid: Seq<char>) -> bool {
    reply matches WireMessage::Response { request_id, result: Some(ResponseData::Ack), error: None }
        && request_id@ == rid
}

/// The route of a request that needs no catalog lookup.
pub open spec fn plain_route(request: RequestKind, route: ClientRoute) -> bool {
    match peer_for(request_target(request)) {
        None => route == ClientRoute::Daemon(request),
        Some(role) => route == ClientRoute::Peer(role, request),
    }
}

/// Decides where a client's request goes.  Loading an item without a
/// Browser path first looks the item up: an unknown item is answered with
/// an error; one known only from Live's plug-in index, without a Browser
/// path, becomes a request to resolve it by exact name in Live's Browser
/// and load it; otherwise the stored path is filled in before the request
/// goes on.
pub fn route_client_request(store: &Store, request_id: String, request: RequestKind) -> (route: ClientRoute)
    ensures
        match request {
            RequestKind::LoadItem { item_id, browser_path, position } => if browser_path@.len() == 0 {
                match first_index(store@.catalog, item_has_id(item_id@)) {
                    None => route matches ClientRoute::Reply(m) && failed_with(
                        m,
                        request_id@,
                        "item_not_found"@,
                        "catalog item not found; scan the Live Browser first"@,
                        false,
                    ),
                    Some(i) => if store@.catalog[i].source == ItemSource::LiveDatabase
                        && store@.catalog[i].browser_path.len() == 0 {
                        route matches ClientRoute::Peer(
                            role,
                            RequestKind::ResolveAndLoadItem { item_id: id2, name, kind, position: position2 },
                        ) && role == PeerRole::Bridge && id2 == item_id && name@ == store@.catalog[i].name
                            && kind == store@.catalog[i].kind && position2 == position
                    } else {
                        route matches ClientRoute::Peer(
                            role,
                            RequestKind::LoadItem { item_id: id2, browser_path: path2, position: position2 },
                        ) && role == PeerRole::Bridge && id2 == item_id && position2 == position
                            && strings_view(path2@) == store@.catalog[i].browser_path
                    },
                }
            } else {
                plain_route(request, route)
            },
            _ => plain_route(request, route),
        },
{
    match request {
        RequestKind::LoadItem { item_id, browser_path, position } => {
            if browser_path.len() == 0 {
                let found = store.get_item(item_id.as_str());
                match found {
                    Ok(Some(item)) => {
                        if item.source == ItemSource::LiveDatabase && item.browser_path.len() == 0 {
                            let resolve = RequestKind::ResolveAndLoadItem {
                                item_id,
                                name: item.name,
                                kind: item.kind,
                                position,
                            };
                            return ClientRoute::Peer(PeerRole::Bridge, resolve);
                        }
                        let resolved = RequestKind::LoadItem {
                            item_id,
                            browser_path: item.browser_path,
                            position,
                        };
                        ClientRoute::Peer(PeerRole::Bridge, resolved)
                    },
                    _ => ClientRoute::Reply(
                        WireMessage::failure(
                            request_id,
                            ProtocolError::new(
                                "item_not_found",
                                "catalog item not found; scan the Live Browser first",
                            ),
                        ),
                    ),
                }
            } else {
                let request = RequestKind::LoadItem { item_id, browser_path, position };
                ClientRoute::Peer(PeerRole::Bridge, request)
            }
        },
        other => {
            let target = other.target();
            match peer_role_for(target) {
                None => ClientRoute::Daemon(other),
                Some(role) => ClientRoute::Peer(role, other),
            }
        },
    }
}

} // verus!

verus! {

// -------------------------------------------------- answering in the daemon

/// Whether `reply` carries the outcome of a store operation for `rid`:
/// an acknowledgement, or the operation's error as a `daemon_error`.
pub open spec fn store_replied(reply: WireMessage, rid: Seq<char>, outcome: Result<(), StoreError>) -> bool {
    match outcome {
        Ok(_) => acked(reply, rid),
        Err(e) => failed_with(reply, rid, "daemon_error"@, store_error_message(e), false),
    }
}

/// Whether `reply` carries `data` for `rid`.
pub open spec fn answered(reply: WireMessage, rid: Seq<char>, data: spec_fn(ResponseData) -> bool) -> bool {
    reply matches WireMessage::Response { request_id, result: Some(r), error: None } && request_id@ == rid
        && data(r)
}

/// What the daemon does with a request it answers itself: the store after
/// it and the reply, for each kind of request.
pub open spec fn daemon_handled(
    old: StoreView,
    new: StoreView,
    rid: Seq<char>,
    request: RequestKind,
    bridge_connected: bool,
    extension_connected: bool,
    data_directory: Seq<char>,
    reply: WireMessage,
) -> bool {
    match request {
        RequestKind::Ping => new == old && answered(reply, rid, |r: ResponseData| r == ResponseData::Pong),
        RequestKind::Status => new == old && answered(
            reply,
            rid,
            |r: ResponseData|
                r matches ResponseData::Status(s) && s.protocol_version == PROTOCOL_VERSION
                    && s.bridge_connected == bridge_connected && s.extension_connected == extension_connected
                    && s.catalog_count == old.catalog.len() && s.data_directory@ == data_directory,
        ),
        RequestKind::Search { query, limit } => new == old && if normalized_query(query@).len() > 0
            && !candidates_fit(listed_catalog(old)) {
            failed_with(reply, rid, "daemon_error"@, store_error_message(StoreError::TextTooLong), false)
        } else {
            answered(
                reply,
                rid,
                |r: ResponseData|
                    r matches ResponseData::SearchResults(items) && views_of(items@) == ranked(
                        query@,
                        listed_catalog(old),
                        search_limit(limit),
                    ),
            )
        },
        RequestKind::SetFavorite { item_id, favorite } => new == favorite_outcome(old, item_id@, favorite)
            && acked(reply, rid),
        RequestKind::SetPinned { item_id, pinned } => new == pinned_outcome(old, item_id@, pinned) && acked(
            reply,
            rid,
        ),
        RequestKind::AddAlias { item_id, alias } => new == add_alias_outcome(old, item_id@, alias@).0
            && store_replied(reply, rid, add_alias_outcome(old, item_id@, alias@).1),
        RequestKind::RemoveAlias { item_id, alias } => new == remove_alias_outcome(old, item_id@, alias@)
            && acked(reply, rid),
        RequestKind::AddTag { item_id, tag } => new == add_tag_outcome(old, item_id@, tag@).0
            && store_replied(reply, rid, add_tag_outcome(old, item_id@, tag@).1),
        RequestKind::RemoveTag { item_id, tag } => new == remove_tag_outcome(old, item_id@, tag@) && acked(
            reply,
            rid,
        ),
        RequestKind::CreateCollection { name } => new == create_collection_outcome(old, name@).0
            && store_replied(reply, rid, create_collection_outcome(old, name@).1),
        RequestKind::AddToCollection { name, item_id } => new == add_to_collection_outcome(
            old,
            name@,
            item_id@,
        ).0 && store_replied(reply, rid, add_to_collection_outcome(old, name@, item_id@).1),
        RequestKind::RemoveFromCollection { name, item_id } => new == remove_from_collection_outcome(
            old,
            name@,
            item_id@,
        ).0 && store_replied(reply, rid, remove_from_collection_outcome(old, name@, item_id@).1),
        RequestKind::DeleteCollection { name } => new == delete_collection_outcome(old, name@) && acked(
            reply,
            rid,
        ),
        RequestKind::ListCollections => new == old && answered(
            reply,
            rid,
            |r: ResponseData|
                r matches ResponseData::Collections(list) && views_of(list@) == listed_collections(
                    old.collections,
                ),
        ),
        RequestKind::SaveWorkflow { workflow } => exists|m: serde_json::Value|
            new == (#[trigger] save_workflow_outcome(old, workflow@, m)).0 && match save_workflow_outcome(
                old,
                workflow@,
                m,
            ).1 {
                Ok(_) => answered(
                    reply,
                    rid,
                    |r: ResponseData| r matches ResponseData::Workflow(w) && w@ == workflow@,
                ),
                Err(e) => failed_with(reply, rid, "daemon_error"@, store_error_message(e), false),
            },
        RequestKind::DeleteWorkflow { workflow_id } => new == delete_workflow_outcome(old, workflow_id@)
            && acked(reply, rid),
        RequestKind::ListWorkflows => new == old && answered(
            reply,
            rid,
            |r: ResponseData|
                r matches ResponseData::Workflows(list) && views_of(list@) == sort_stable(
                    old.workflows,
                    by_workflow_id(),
                ),
        ),
        RequestKind::SetHotkey { accelerator, target_id } => new == set_hotkey_outcome(
            old,
            accelerator@,
            target_id@,
        ).0 && store_replied(reply, rid, set_hotkey_outcome(old, accelerator@, target_id@).1),
        RequestKind::ClearHotkey { accelerator } => new == clear_hotkey_outcome(old, accelerator@)
            && acked(reply, rid),
        RequestKind::ListHotkeys => new == old && answered(
            reply,
            rid,
            |r: ResponseData|
                r matches ResponseData::Hotkeys(list) && views_of(list@) == sort_stable(
                    old.hotkeys,
                    by_accelerator(),
                ),
        ),
        _ => new == old && failed_with(
            reply,
            rid,
            "daemon_error"@,
            "request is not handled by daemon"@,
            false,
        ),
    }
}

/// What the daemon does with a request that it serves: answer it at once,
/// send a prepared request on to a Live integration peer, or read Live's
/// plug-in index (at the given path, or else where Live keeps it) and then
/// answer with `finish_live_import`.
#[derive(Debug, PartialEq)]
pub enum DaemonAction {
    Reply(WireMessage),
    Forward(PeerRole, RequestKind),
    ReadPluginIndex(Option<String>),
}

/// The stored workflow `w` as it goes to the bridge: every action that
/// loads an item without a Browser path gets the path from the catalog.
pub open spec fn prepared_run(v: StoreView, w: WorkflowView) -> WorkflowView {
    WorkflowView { actions: w.actions.map_values(|a: WorkflowActionView| resolved_action(v, a)), ..w }
}

/// What the daemon decides for a request that it serves: running a stored
/// workflow sends it, prepared, to the bridge, and an unknown workflow is
/// answered with `workflow_not_found`; importing Live's plug-in index first
/// reads the index; every other request is answered as `daemon_handled`
/// says.
pub open spec fn daemon_decided(
    old: StoreView,
    new: StoreView,
    rid: Seq<char>,
    request: RequestKind,
    bridge_connected: bool,
    extension_connected: bool,
    data_directory: Seq<char>,
    action: DaemonAction,
) -> bool {
    match request {
        RequestKind::RunWorkflow { workflow_id } => new == old && match first_index(
            old.workflows,
            workflow_has_id(workflow_id@),
        ) {
            None => action matches DaemonAction::Reply(m) && failed_with(
                m,
                rid,
                "workflow_not_found"@,
                "workflow not found: "@ + workflow_id@,
                false,
            ),
            Some(i) => action matches DaemonAction::Forward(role, RequestKind::ExecuteWorkflow { workflow })
                && role == PeerRole::Bridge && workflow@ == prepared_run(old, old.workflows[i]),
        },
        RequestKind::ImportLiveDatabase { plugin_database } => new == old && action
            == DaemonAction::ReadPluginIndex(plugin_database),
        _ => action matches DaemonAction::Reply(m) && daemon_handled(
            old,
            new,
            rid,
            request,
            bridge_connected,
            extension_connected,
            data_directory,
            m,
        ),
    }
}

/// The reply to `rid` for the outcome of a store operation.
fn store_reply(request_id: String, outcome: Result<(), StoreError>) -> (reply: WireMessage)
    ensures
        store_replied(reply, request_id@, outcome),
{
    match outcome {
        Ok(()) => WireMessage::success(request_id, ResponseData::Ack),
        Err(e) => {
            let message = e.message();
            WireMessage::failure(
                request_id,
                ProtocolError { code: String::from_str("daemon_error"), message, retryable: false },
            )
        },
    }
}

/// Decides a request that the daemon serves itself: a stored workflow to
/// run goes, prepared, to the bridge; an import of Live's plug-in index
/// starts by reading the index; every other request is answered at once by
/// `answer_daemon_request`.
pub fn handle_daemon_request(
    store: &mut Store,
    request_id: String,
    request: RequestKind,
    bridge_connected: bool,
    extension_connected: bool,
    data_directory: String,
) -> (action: DaemonAction)
    ensures
        daemon_decided(
            old(store)@,
            final(store)@,
            request_id@,
            request,
            bridge_connected,
            extension_connected,
            data_directory@,
            action,
        ),
{
    match request {
        RequestKind::RunWorkflow { workflow_id } => match prepare_workflow_run(&*store, workflow_id.as_str()) {
            Err(error) => DaemonAction::Reply(WireMessage::failure(request_id, error)),
            Ok(workflow) => DaemonAction::Forward(PeerRole::Bridge, RequestKind::ExecuteWorkflow { workflow }),
        },
        RequestKind::ImportLiveDatabase { plugin_database } => DaemonAction::ReadPluginIndex(plugin_database),
        other => DaemonAction::Reply(
            answer_daemon_request(store, request_id, other, bridge_connected, extension_connected, data_directory),
        ),
    }
}

/// Answers a request that the daemon handles at once, applying it to the
/// store.  Status reports the given connection state and data directory.
pub fn answer_daemon_request(
    store: &mut Store,
    request_id: String,
    request: RequestKind,
    bridge_connected: bool,
    extension_connected: bool,
    data_directory: String,
) -> (reply: WireMessage)
    ensures
        daemon_handled(
            old(store)@,
            final(store)@,
            request_id@,
            request,
            bridge_connected,
            extension_connected,
            data_directory@,
            reply,
        ),
{
    let ghost rid = request_id@;
    match request {
        RequestKind::Ping => WireMessage::success(request_id, ResponseData::Pong),
        RequestKind::Status => {
            let count = store.catalog_count().unwrap();
            let status = ServiceStatus {
                protocol_version: PROTOCOL_VERSION,
                bridge_connected,
                extension_connected,
                catalog_count: count,
                data_directory,
            };
            WireMessage::success(request_id, ResponseData::Status(status))
        },
        RequestKind::Search { query, limit } => match store.search(query.as_str(), limit) {
            Ok(items) => WireMessage::success(request_id, ResponseData::SearchResults(items)),
            Err(e) => {
                let reply = store_reply(request_id, Err(e));
                proof {
                    assert(e == StoreError::TextTooLong);
                    assert(failed_with(reply, rid, "daemon_error"@, store_error_message(e), false));
                }
                reply
            },
        },
        RequestKind::SetFavorite { item_id, favorite } => {
            let outcome = store.set_favorite(item_id.as_str(), favorite);
            store_reply(request_id, outcome)
        },
        RequestKind::SetPinned { item_id, pinned } => {
            let outcome = store.set_pinned(item_id.as_str(), pinned);
            store_reply(request_id, outcome)
        },
        RequestKind::AddAlias { item_id, alias } => {
            let outcome = store.add_alias(item_id.as_str(), alias.as_str());
            store_reply(request_id, outcome)
        },
        RequestKind::RemoveAlias { item_id, alias } => {
            let outcome = store.remove_alias(item_id.as_str(), alias.as_str());
            store_reply(request_id, outcome)
        },
        RequestKind::AddTag { item_id, tag } => {
            let outcome = store.add_tag(item_id.as_str(), tag.as_str());
            store_reply(request_id, outcome)
        },
        RequestKind::RemoveTag { item_id, tag } => {
            let outcome = store.remove_tag(item_id.as_str(), tag.as_str());
            store_reply(request_id, outcome)
        },
        RequestKind::CreateCollection { name } => {
            let outcome = store.create_collection(name.as_str());
            store_reply(request_id, outcome)
        },
        RequestKind::AddToCollection { name, item_id } => {
            let outcome = store.add_to_collection(name.as_str(), item_id.as_str());
            store_reply(request_id, outcome)
        },
        RequestKind::RemoveFromCollection { name, item_id } => {
            let outcome = store.remove_from_collection(name.as_str(), item_id.as_str());
            store_reply(request_id, outcome)
        },
        RequestKind::DeleteCollection { name } => {
            let outcome = store.delete_collection(name.as_str());
            store_reply(request_id, outcome)
        },
        RequestKind::ListCollections => {
            let list = store.list_collections().unwrap();
            WireMessage::success(request_id, ResponseData::Collections(list))
        },
        RequestKind::SaveWorkflow { workflow } => {
            let ghost before = store@;
            let outcome = store.save_workflow(&workflow);
            let ghost m = choose|m: serde_json::Value|
                (store@, outcome) == #[trigger] save_workflow_outcome(before, workflow@, m);
            proof { assert((store@, outcome) == save_workflow_outcome(before, workflow@, m)); }
            match outcome {
                Ok(()) => WireMessage::success(request_id, ResponseData::Workflow(workflow)),
                Err(e) => store_reply(request_id, Err(e)),
            }
        },
        RequestKind::DeleteWorkflow { workflow_id } => {
            let outcome = store.delete_workflow(workflow_id.as_str());
            store_reply(request_id, outcome)
        },
        RequestKind::ListWorkflows => {
            let list = store.list_workflows().unwrap();
            WireMessage::success(request_id, ResponseData::Workflows(list))
        },
        RequestKind::SetHotkey { accelerator, target_id } => {
            let outcome = store.set_hotkey(accelerator.as_str(), target_id.as_str());
            store_reply(request_id, outcome)
        },
        RequestKind::ClearHotkey { accelerator } => {
            let outcome = store.clear_hotkey(accelerator.as_str());
            store_reply(request_id, outcome)
        },
        RequestKind::ListHotkeys => {
            let list = store.list_hotkeys().unwrap();
            WireMessage::success(request_id, ResponseData::Hotkeys(list))
        },
        _ => WireMessage::failure(
            request_id,
            ProtocolError::new("daemon_error", "request is not handled by daemon"),
        ),
    }
}

} // verus!

verus! {

// --------------------------------------------------------- peer responses

/// The store after a peer's response to a request of which `forwarded` was
/// kept: a scanned catalog is upserted, and a successful load counts as one
/// use of the item at `now`.
pub open spec fn peer_response_outcome(
    old: StoreView,
    forwarded: Forwarded,
    result: Option<ResponseData>,
    failed: bool,
    now: i64,
) -> StoreView {
    let scanned = if !failed && result matches Some(ResponseData::Catalog(items)) {
        StoreView { catalog: upsert_items(old.catalog, views_of(result->0->Catalog_0@)), ..old }
    } else {
        old
    };
    if !failed && forwarded is LoadItem {
        usage_outcome(scanned, forwarded->item_id@, now).0
    } else {
        scanned
    }
}

/// Records what a successful peer response means for the store; the
/// response itself goes back to the client unchanged.
pub fn record_peer_response(
    store: &mut Store,
    forwarded: &Forwarded,
    result: &Option<ResponseData>,
    error: &Option<ProtocolError>,
)
    ensures
        exists|now: i64| final(store)@ == #[trigger] peer_response_outcome(
            old(store)@,
            *forwarded,
            *result,
            error is Some,
            now,
        ),
{
    let failed = error.is_some();
    if !failed {
        match result {
            Some(ResponseData::Catalog(items)) => {
                let _ = store.upsert_catalog(items);
            },
            _ => {},
        }
    }
    let ghost scanned = store@;
    if !failed {
        match forwarded {
            Forwarded::LoadItem { item_id } => {
                let _ = store.record_usage(item_id.as_str());
                let ghost now = choose|now: i64|
                    (store@, Ok::<(), StoreError>(())) == #[trigger] usage_outcome(scanned, item_id@, now)
                        || (store@, Err::<(), StoreError>(StoreError::CounterOverflow)) == usage_outcome(
                        scanned,
                        item_id@,
                        now,
                    );
                proof {
                    assert(store@ == usage_outcome(scanned, item_id@, now).0);
                    assert(store@ == peer_response_outcome(old(store)@, *forwarded, *result, failed, now));
                }
                return;
            },
            _ => {},
        }
    }
    proof {
        let now: i64 = 0;
        assert(store@ == peer_response_outcome(old(store)@, *forwarded, *result, failed, now));
    }
}

// -------------------------------------------------------- running a workflow

/// A workflow action with a missing Browser path filled in from the catalog
/// when the item is known.
pub open spec fn resolved_action(v: StoreView, a: WorkflowActionView) -> WorkflowActionView {
    match a {
        WorkflowActionView::LoadItem { item_id, browser_path, position } => if browser_path.len() == 0 {
            match first_index(v.catalog, item_has_id(item_id)) {
                Some(i) => WorkflowActionView::LoadItem {
                    item_id,
                    browser_path: v.catalog[i].browser_path,
                    position,
                },
                None => a,
            }
        } else {
            a
        },
        _ => a,
    }
}

/// The stored workflow `id`, made ready for the bridge, or the error for an
/// unknown workflow.
pub fn prepare_workflow_run(store: &Store, workflow_id: &str) -> (prepared: Result<WorkflowDefinition, ProtocolError>)
    ensures
        match first_index(store@.workflows, workflow_has_id(workflow_id@)) {
            None => prepared matches Err(e) && e.code@ == "workflow_not_found"@ && e.message@
                == "workflow not found: "@ + workflow_id@ && !e.retryable,
            Some(i) => prepared matches Ok(w) && w@ == prepared_run(store@, store@.workflows[i]),
        },
{
    let found = store.get_workflow(workflow_id).unwrap();
    match found {
        None => {
            let message = concat_str("workflow not found: ", workflow_id);
            Err(ProtocolError { code: String::from_str("workflow_not_found"), message, retryable: false })
        },
        Some(workflow) => {
            let ghost stored = workflow@;
            let mut actions: Vec<WorkflowAction> = Vec::new();
            for k in 0..workflow.actions.len()
                invariant
                    stored == workflow@,
                    views_of(actions@) == stored.actions.take(k as int).map_values(
                        |a: WorkflowActionView| resolved_action(store@, a),
                    ),
            {
                let action = resolve_action(store, &workflow.actions[k]);
                let ghost before = actions@;
                actions.push(action);
                proof {
                    lemma_views_of_push(before, action);
                    assert(stored.actions[k as int] == workflow.actions@[k as int]@);
                    assert(stored.actions.take(k + 1).map_values(
                        |a: WorkflowActionView| resolved_action(store@, a),
                    ) =~= stored.actions.take(k as int).map_values(
                        |a: WorkflowActionView| resolved_action(store@, a),
                    ).push(resolved_action(store@, stored.actions[k as int])));
                }
            }
            proof { assert(stored.actions.take(stored.actions.len() as int) == stored.actions); }
            Ok(WorkflowDefinition {
                id: workflow.id,
                name: workflow.name,
                description: workflow.description,
                actions,
            })
        },
    }
}

fn resolve_action(store: &Store, action: &WorkflowAction) -> (resolved: WorkflowAction)
    ensures
        resolved@ == resolved_action(store@, action@),
{
    match action {
        WorkflowAction::LoadItem { item_id, browser_path, position } => {
            if browser_path.len() == 0 {
                match store.get_item(item_id.as_str()).unwrap() {
                    Some(item) => {
                        return WorkflowAction::LoadItem {
                            item_id: item_id.clone(),
                            browser_path: item.browser_path,
                            position: *position,
                        };
                    },
                    None => {},
                }
            }
            action.duplicate()
        },
        _ => action.duplicate(),
    }
}

// ---------------------------------------------------- importing Live's index

/// Stores the plug-ins imported from Live's index and answers with the
/// import summary, or answers with the error that reading the index gave.
pub fn finish_live_import(
    store: &mut Store,
    request_id: String,
    imported: Result<(Vec<CatalogItem>, LiveDatabaseImportSummary), String>,
) -> (reply: WireMessage)
    ensures
        match imported {
            Ok((items, summary)) => final(store)@ == (StoreView {
                catalog: upsert_items(old(store)@.catalog, views_of(items@)),
                ..old(store)@
            }) && reply == (WireMessage::Response {
                request_id,
                result: Some(ResponseData::LiveDatabaseImport(summary)),
                error: None,
            }),
            Err(message) => final(store)@ == old(store)@ && failed_with(
                reply,
                request_id@,
                "daemon_error"@,
                message@,
                false,
            ),
        },
{
    match imported {
        Ok((items, summary)) => {
            let _ = store.upsert_catalog(&items);
            WireMessage::success(request_id, ResponseData::LiveDatabaseImport(summary))
        },
        Err(message) => WireMessage::failure(
            request_id,
            ProtocolError { code: String::from_str("daemon_error"), message, retryable: false },
        ),
    }
}

// ------------------------------------------------------- frames from a peer

/// What the daemon does with a frame from a connected peer: clients may
/// only send requests, integration peers only responses and events.
#[derive(Debug, PartialEq)]
pub enum Incoming {
    /// A client's request, to be routed.
    ClientRequest { request_id: String, request: RequestKind },
    /// An integration peer's response to a forwarded request.
    PeerResponse { request_id: String, result: Option<ResponseData>, error: Option<ProtocolError> },
    /// An integration peer's event, to be logged.
    PeerEvent { event: String, data: serde_json::Value },
    /// Anything else, to be ignored.
    Ignored,
}

/// Sorts a frame from a peer of `role`.
pub fn incoming_frame(role: PeerRole, message: WireMessage) -> (incoming: Incoming)
    ensures
        match message {
            WireMessage::Request { request_id, request } => if role == PeerRole::Client {
                incoming == (Incoming::ClientRequest { request_id, request })
            } else {
                incoming is Ignored
            },
            WireMessage::Response { request_id, result, error } => if role != PeerRole::Client {
                incoming == (Incoming::PeerResponse { request_id, result, error })
            } else {
                incoming is Ignored
            },
            WireMessage::Event { event, data } => if role != PeerRole::Client {
                incoming == (Incoming::PeerEvent { event, data })
            } else {
                incoming is Ignored
            },
            _ => incoming is Ignored,
        },
{
    let client = match role {
        PeerRole::Client => true,
        _ => false,
    };
    match message {
        WireMessage::Request { request_id, request } => if client {
            Incoming::ClientRequest { request_id, request }
        } else {
            Incoming::Ignored
        },
        WireMessage::Response { request_id, result, error } => if !client {
            Incoming::PeerResponse { request_id, result, error }
        } else {
            Incoming::Ignored
        },
        WireMessage::Event { event, data } => if !client {
            Incoming::PeerEvent { event, data }
        } else {
            Incoming::Ignored
        },
        _ => Incoming::Ignored,
    }
}

/// Every request the daemon answers at once is answered by a response to
/// that same request, carrying either a result or an error, never both.
pub proof fn lemma_daemon_reply_answers(
    old: StoreView,
    new: StoreView,
    rid: Seq<char>,
    request: RequestKind,
    bridge_connected: bool,
    extension_connected: bool,
    data_directory: Seq<char>,
    reply: WireMessage,
)
    requires
        daemon_handled(old, new, rid, request, bridge_connected, extension_connected, data_directory, reply),
    ensures
        reply matches WireMessage::Response { request_id, result, error } && request_id@ == rid && (result is Some
            <==> error is None),
{
    match request {
        RequestKind::SaveWorkflow { workflow } => {
            let m = choose|m: serde_json::Value| new == (#[trigger] save_workflow_outcome(old, workflow@, m)).0
                && match save_workflow_outcome(old, workflow@, m).1 {
                Ok(_) => answered(
                    reply,
                    rid,
                    |r: ResponseData| r matches ResponseData::Workflow(w) && w@ == workflow@,
                ),
                Err(e) => failed_with(reply, rid, "daemon_error"@, store_error_message(e), false),
            };
        },
        _ => {},
    }
}

/// Every decision of the daemon either answers the request under its id,
/// with a result or an error but never both, or leaves the store as it
/// was: then it sends a prepared workflow to the bridge, or waits for
/// Live's plug-in index.
pub proof fn lemma_daemon_decision(
    old: StoreView,
    new: StoreView,
    rid: Seq<char>,
    request: RequestKind,
    bridge_connected: bool,
    extension_connected: bool,
    data_directory: Seq<char>,
    action: DaemonAction,
)
    requires
        daemon_decided(old, new, rid, request, bridge_connected, extension_connected, data_directory, action),
    ensures
        action matches DaemonAction::Reply(m) ==> (m matches WireMessage::Response { request_id, result, error }
            && request_id@ == rid && (result is Some <==> error is None)),
        !(action is Reply) ==> new == old,
        action matches DaemonAction::Forward(role, r) ==> role == PeerRole::Bridge && r is ExecuteWorkflow,
{
    match request {
        RequestKind::RunWorkflow { .. } => {},
        RequestKind::ImportLiveDatabase { .. } => {},
        _ => {
            let m = action->Reply_0;
            lemma_daemon_reply_answers(old, new, rid, request, bridge_connected, extension_connected, data_directory, m);
        },
    }
}

/// No store error reads like the refusal of a request that the daemon
/// does not serve.
proof fn lemma_store_errors_are_not_refusals(e: StoreError)
    ensures
        store_error_message(e) != "request is not handled by daemon"@,
{
    reveal_strlit("request is not handled by daemon");
    let refusal = "request is not handled by daemon"@;
    assert(refusal[0] == 'r');
    match e {
        StoreError::EmptyAlias => reveal_strlit("alias cannot be empty"),
        StoreError::EmptyTag => reveal_strlit("tag cannot be empty"),
        StoreError::EmptyCollectionName => reveal_strlit("collection name cannot be empty"),
        StoreError::EmptyItemId => reveal_strlit("item id cannot be empty"),
        StoreError::EmptyAccelerator => reveal_strlit("accelerator cannot be empty"),
        StoreError::EmptyTargetId => reveal_strlit("target id cannot be empty"),
        StoreError::CounterOverflow => reveal_strlit("integer overflow"),
        StoreError::TextTooLong => reveal_strlit("catalog text is too long to search"),
        StoreError::InvalidWorkflow(w) => match w {
            crate::workflow::WorkflowValidationError::EmptyId => reveal_strlit("workflow id cannot be empty"),
            crate::workflow::WorkflowValidationError::EmptyName => reveal_strlit("workflow name cannot be empty"),
            crate::workflow::WorkflowValidationError::NoActions => reveal_strlit(
                "workflow must contain at least one action",
            ),
            crate::workflow::WorkflowValidationError::TooManyActions => reveal_strlit(
                "workflow exceeds the maximum of 64 actions",
            ),
            crate::workflow::WorkflowValidationError::EmptyActionValue { .. } => {
                reveal_strlit("action ");
                assert(store_error_message(e)[0] == 'a');
            },
            crate::workflow::WorkflowValidationError::NonFiniteParameter { .. } => {
                reveal_strlit("action ");
                assert(store_error_message(e)[0] == 'a');
            },
        },
    }
}

/// Every request goes to whoever serves it.  The official extension gets
/// exactly the SDK insertions.  The daemon keeps exactly the requests that
/// it serves itself: a request routed to the daemon is never refused as
/// not handled there, and every request it would refuse so (one that needs
/// Live) goes to an integration peer instead.
pub proof fn lemma_requests_reach_their_server(
    old: StoreView,
    new: StoreView,
    rid: Seq<char>,
    request: RequestKind,
    bridge_connected: bool,
    extension_connected: bool,
    data_directory: Seq<char>,
    action: DaemonAction,
)
    requires
        daemon_decided(old, new, rid, request, bridge_connected, extension_connected, data_directory, action),
    ensures
        request_target(request) == PeerTarget::Extension <==> request is SdkInsertNative,
        request_target(request) == PeerTarget::Daemon <==> !(action matches DaemonAction::Reply(m) && failed_with(
            m,
            rid,
            "daemon_error"@,
            "request is not handled by daemon"@,
            false,
        )),
{
    assert forall|e: StoreError| store_error_message(e) != "request is not handled by daemon"@ by {
        lemma_store_errors_are_not_refusals(e);
    }
    reveal_strlit("daemon_error");
    reveal_strlit("workflow_not_found");
    let refused = action matches DaemonAction::Reply(m) && failed_with(
        m,
        rid,
        "daemon_error"@,
        "request is not handled by daemon"@,
        false,
    );
    match request {
        RequestKind::SaveWorkflow { workflow } => {
            let m = choose|m: serde_json::Value|
                new == (#[trigger] save_workflow_outcome(old, workflow@, m)).0 && match save_workflow_outcome(
                    old,
                    workflow@,
                    m,
                ).1 {
                    Ok(_) => answered(
                        action->Reply_0,
                        rid,
                        |r: ResponseData| r matches ResponseData::Workflow(w) && w@ == workflow@,
                    ),
                    Err(e) => failed_with(action->Reply_0, rid, "daemon_error"@, store_error_message(e), false),
                };
            assert(!refused);
        },
        RequestKind::RunWorkflow { workflow_id } => {
            if first_index(old.workflows, workflow_has_id(workflow_id@)) is None {
                assert("workflow_not_found"@.len() != "daemon_error"@.len());
            }
            assert(!refused);
        },
        RequestKind::ImportLiveDatabase { .. } => assert(!refused),
        RequestKind::Search { .. } => assert(!refused),
        RequestKind::AddAlias { .. } => assert(!refused),
        RequestKind::AddTag { .. } => assert(!refused),
        RequestKind::CreateCollection { .. } => assert(!refused),
        RequestKind::AddToCollection { .. } => assert(!refused),
        RequestKind::RemoveFromCollection { .. } => assert(!refused),
        RequestKind::SetHotkey { .. } => assert(!refused),
        _ => {},
    }
}

// ------------------------------------------------------- streamed scans

/// Whether an event from a peer of role `from` is a batch of a Browser scan
/// that is still pending: a `catalog_batch` event, naming a pending request
/// (`pending`) that is a catalog scan sent to that peer.
pub open spec fn batch_accepted(event: Seq<char>, from: PeerRole, pending: Option<PendingRequest>) -> bool {
    &&& event == "catalog_batch"@
    &&& pending matches Some(p)
    &&& p.forwarded is ScanCatalog
    &&& p.role == from
}

/// Stores one batch of a streamed Browser scan when it belongs to a pending
/// scan served by the peer that sent it; returns whether it was stored.
pub fn record_scan_batch(
    store: &mut Store,
    event: &str,
    from: PeerRole,
    pending: Option<&PendingRequest>,
    items: &Vec<CatalogItem>,
) -> (accepted: bool)
    ensures
        accepted == batch_accepted(
            event@,
            from,
            match pending {
                Some(p) => Some(*p),
                None => None,
            },
        ),
        accepted ==> final(store)@ == (StoreView {
            catalog: upsert_items(old(store)@.catalog, views_of(items@)),
            ..old(store)@
        }),
        !accepted ==> final(store)@ == old(store)@,
{
    proof { reveal_strlit("catalog_batch"); }
    if !crate::text::str_equal(event, "catalog_batch") {
        return false;
    }
    let scan = match pending {
        Some(p) => match p.forwarded {
            Forwarded::ScanCatalog => p.role == from,
            _ => false,
        },
        None => false,
    };
    if !scan {
        return false;
    }
    let _ = store.upsert_catalog(items);
    true
}

} // verus!
