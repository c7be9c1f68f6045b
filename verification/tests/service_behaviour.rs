use ableton_palette::cli::{checked_response, command_to_request, hello_accepted, CliCommand, PositionArg};
use ableton_palette::client::{handshake_outcome, reply_for, DaemonClient, Handshake};
use ableton_palette::daemon::{
    answer_daemon_request, check_hello, ensure_frame_size, frame_outgoing, handle_daemon_request, incoming_frame,
    peer_disconnected, peer_unavailable, prepare_workflow_run, record_peer_response, record_scan_batch,
    request_timeout,
    route_client_request, ClientRoute, DaemonAction, FrameError, HelloError, Incoming,
};
use ableton_palette::forwarding::{Forwarded, ForwardAction, PendingRequest, PendingTable, REQUEST_TIMEOUT_SECS};
use ableton_palette::paths::{is_loopback_host, AppPaths, RuntimeConfig};
use ableton_palette::protocol::{
    CatalogItem, InsertionPosition, ItemKind, ItemSource, PeerRole, ProtocolError, RequestKind,
    ResponseData, WireMessage, WorkflowAction, WorkflowDefinition, MAX_FRAME_BYTES, PROTOCOL_VERSION,
};
use ableton_palette::store::Store;

fn item(id: &str, source: ItemSource, browser_path: Vec<String>) -> CatalogItem {
    CatalogItem {
        id: id.into(),
        kind: ItemKind::Plugin,
        source,
        name: "Trackspacer 2.5".into(),
        aliases: vec![],
        categories: vec![],
        tags: vec![],
        browser_path,
        compatible_tracks: vec![],
        favorite: false,
        pinned: false,
        usage_count: 0,
        last_used_at: None,
        metadata: serde_json::Value::Null,
    }
}

fn hello(version: u32, token: &str) -> WireMessage {
    WireMessage::Hello {
        protocol_version: version,
        role: PeerRole::Bridge,
        token: token.into(),
        peer_name: "remote-script".into(),
        peer_version: "1".into(),
        capabilities: vec![],
    }
}

fn failure_code(message: &WireMessage) -> (String, String, bool) {
    match message {
        WireMessage::Response { result: None, error: Some(e), .. } => (e.code.clone(), e.message.clone(), e.retryable),
        other => panic!("expected a failure, got {other:?}"),
    }
}

#[test]
fn frames_up_to_the_limit_pass() {
    let exact = "x".repeat(MAX_FRAME_BYTES);
    assert_eq!(ensure_frame_size(&exact), Ok(()));
    let over = "x".repeat(MAX_FRAME_BYTES + 1);
    assert_eq!(ensure_frame_size(&over), Err(FrameError::IncomingTooLarge));
    assert_eq!(FrameError::IncomingTooLarge.message(), "incoming frame exceeds size limit");
    assert_eq!(frame_outgoing(b"{}".to_vec()), Ok(b"{}\n".to_vec()));
    assert_eq!(frame_outgoing(vec![b' '; MAX_FRAME_BYTES + 1]), Err(FrameError::OutgoingTooLarge));
}

#[test]
fn hello_needs_the_exact_version_and_token() {
    assert_eq!(check_hello(&hello(PROTOCOL_VERSION, "secret"), "secret"), Ok((PeerRole::Bridge, "remote-script".into())));
    assert_eq!(check_hello(&hello(2, "secret"), "secret"), Err(HelloError::UnsupportedVersion(2)));
    assert_eq!(HelloError::UnsupportedVersion(2).message(), "unsupported protocol version 2");
    assert_eq!(check_hello(&hello(PROTOCOL_VERSION, "secreT"), "secret"), Err(HelloError::AuthenticationFailed));
    let not_hello = WireMessage::HelloAck { protocol_version: 1, daemon_version: "1".into() };
    assert_eq!(check_hello(&not_hello, "secret"), Err(HelloError::NotHello));
}

#[test]
fn loading_resolves_items_known_only_from_the_plugin_index() {
    let mut store = Store::in_memory().unwrap();
    store
        .upsert_catalog(&vec![
            item("live-plugin:x", ItemSource::LiveDatabase, vec![]),
            item("browser:y", ItemSource::LiveBrowser, vec!["Plug-Ins".into(), "Y".into()]),
        ])
        .unwrap();
    let load = |id: &str| RequestKind::LoadItem {
        item_id: id.into(),
        browser_path: vec![],
        position: InsertionPosition::End,
    };
    match route_client_request(&store, "r1".into(), load("missing")) {
        ClientRoute::Reply(reply) => assert_eq!(
            failure_code(&reply),
            ("item_not_found".into(), "catalog item not found; scan the Live Browser first".into(), false)
        ),
        other => panic!("unexpected {other:?}"),
    }
    match route_client_request(&store, "r2".into(), load("live-plugin:x")) {
        ClientRoute::Peer(PeerRole::Bridge, RequestKind::ResolveAndLoadItem { item_id, name, kind, position }) => {
            assert_eq!(item_id, "live-plugin:x");
            assert_eq!(name, "Trackspacer 2.5");
            assert_eq!(kind, ItemKind::Plugin);
            assert_eq!(position, InsertionPosition::End);
        }
        other => panic!("unexpected {other:?}"),
    }
    match route_client_request(&store, "r3".into(), load("browser:y")) {
        ClientRoute::Peer(PeerRole::Bridge, RequestKind::LoadItem { browser_path, .. }) => {
            assert_eq!(browser_path, vec!["Plug-Ins".to_string(), "Y".to_string()])
        }
        other => panic!("unexpected {other:?}"),
    }
    assert_eq!(route_client_request(&store, "r4".into(), RequestKind::Ping), ClientRoute::Daemon(RequestKind::Ping));
}

#[test]
fn daemon_answers_each_request_under_its_id() {
    let mut store = Store::in_memory().unwrap();
    let reply = answer_daemon_request(&mut store, "p".into(), RequestKind::Ping, false, false, "/data".into());
    assert_eq!(reply, WireMessage::success("p".to_string(), ResponseData::Pong));
    match answer_daemon_request(&mut store, "s".into(), RequestKind::Status, true, false, "/data".into()) {
        WireMessage::Response { request_id, result: Some(ResponseData::Status(status)), error: None } => {
            assert_eq!(request_id, "s");
            assert!(status.bridge_connected && !status.extension_connected);
            assert_eq!(status.catalog_count, 0);
            assert_eq!(status.data_directory, "/data");
        }
        other => panic!("unexpected {other:?}"),
    }
    let reply = answer_daemon_request(&mut store, "g".into(), RequestKind::GetContext, true, true, "/data".into());
    assert_eq!(failure_code(&reply), ("daemon_error".into(), "request is not handled by daemon".into(), false));
    let reply = answer_daemon_request(
        &mut store,
        "a".into(),
        RequestKind::AddAlias { item_id: "x".into(), alias: " ".into() },
        true,
        true,
        "/data".into(),
    );
    assert_eq!(failure_code(&reply).1, "alias cannot be empty");
}

#[test]
fn daemon_answers_an_unknown_workflow_run_at_once() {
    let mut store = Store::in_memory().unwrap();
    let action = handle_daemon_request(
        &mut store,
        "r1".into(),
        RequestKind::RunWorkflow { workflow_id: "missing".into() },
        true,
        false,
        "/data".into(),
    );
    match action {
        DaemonAction::Reply(reply) => {
            assert_eq!(
                reply,
                WireMessage::failure(
                    "r1".to_string(),
                    ProtocolError::new("workflow_not_found", "workflow not found: missing")
                )
            );
            assert_eq!(failure_code(&reply).2, false);
        }
        other => panic!("unexpected {other:?}"),
    }
}

#[test]
fn daemon_sends_a_saved_workflow_to_the_bridge_with_paths_filled_in() {
    let mut store = Store::in_memory().unwrap();
    store.upsert_catalog(&vec![item("browser:y", ItemSource::LiveBrowser, vec!["Plug-Ins".into(), "Y".into()])]).unwrap();
    let workflow = WorkflowDefinition {
        id: "mix".into(),
        name: "Mix".into(),
        description: String::new(),
        actions: vec![
            WorkflowAction::LoadItem { item_id: "browser:y".into(), browser_path: vec![], position: InsertionPosition::End },
            WorkflowAction::InsertNative { name: "EQ Eight".into(), position: InsertionPosition::End },
        ],
    };
    store.save_workflow(&workflow).unwrap();
    let action = handle_daemon_request(
        &mut store,
        "r2".into(),
        RequestKind::RunWorkflow { workflow_id: "mix".into() },
        true,
        false,
        "/data".into(),
    );
    match action {
        DaemonAction::Forward(PeerRole::Bridge, RequestKind::ExecuteWorkflow { workflow: sent }) => {
            assert_eq!(sent.id, "mix");
            assert_eq!(
                sent.actions[0],
                WorkflowAction::LoadItem {
                    item_id: "browser:y".into(),
                    browser_path: vec!["Plug-Ins".into(), "Y".into()],
                    position: InsertionPosition::End,
                }
            );
            assert_eq!(sent.actions[1], workflow.actions[1]);
        }
        other => panic!("unexpected {other:?}"),
    }
}

#[test]
fn daemon_reads_the_plugin_index_before_an_import() {
    let mut store = Store::in_memory().unwrap();
    let action = handle_daemon_request(
        &mut store,
        "r3".into(),
        RequestKind::ImportLiveDatabase { plugin_database: Some("/tmp/Live.db".into()) },
        false,
        false,
        "/data".into(),
    );
    assert_eq!(action, DaemonAction::ReadPluginIndex(Some("/tmp/Live.db".into())));
    let action = handle_daemon_request(&mut store, "r4".into(), RequestKind::Ping, false, false, "/data".into());
    assert_eq!(action, DaemonAction::Reply(WireMessage::success("r4".to_string(), ResponseData::Pong)));
}

#[test]
fn scanned_catalogs_are_stored_and_loads_counted() {
    let mut store = Store::in_memory().unwrap();
    let scan = RequestKind::ScanCatalog { max_items: 10, max_depth: 2 };
    let items = Some(ResponseData::Catalog(vec![item("browser:y", ItemSource::LiveBrowser, vec!["Y".into()])]));
    record_peer_response(&mut store, &Forwarded::of(&scan), &items, &None);
    assert_eq!(store.catalog_count().unwrap(), 1);
    let load = Forwarded::of(&RequestKind::LoadItem {
        item_id: "browser:y".into(),
        browser_path: vec![],
        position: InsertionPosition::End,
    });
    assert_eq!(load, Forwarded::LoadItem { item_id: "browser:y".into() });
    record_peer_response(&mut store, &load, &Some(ResponseData::Ack), &None);
    assert_eq!(store.get_item("browser:y").unwrap().unwrap().usage_count, 1);
    let failed = Some(ProtocolError::new("live_error", "frozen track"));
    record_peer_response(&mut store, &load, &None, &failed);
    assert_eq!(store.get_item("browser:y").unwrap().unwrap().usage_count, 1);
}

#[test]
fn forwarded_requests_wait_under_their_id_until_answered_once() {
    let mut pending = PendingTable::new();
    let scan = RequestKind::ScanCatalog { max_items: 10, max_depth: 2 };
    let action = pending.begin_forward("a".into(), 7, PeerRole::Bridge, false, RequestKind::GetContext);
    assert_eq!(
        action,
        ForwardAction::Reply(WireMessage::failure("a".to_string(), peer_unavailable(PeerRole::Bridge)))
    );
    assert!(pending.pending("a").is_none());
    let action = pending.begin_forward("s".into(), 7, PeerRole::Bridge, true, RequestKind::ScanCatalog { max_items: 10, max_depth: 2 });
    assert_eq!(action, ForwardAction::Send(PeerRole::Bridge, WireMessage::Request { request_id: "s".into(), request: scan }));
    assert_eq!(
        pending.pending("s"),
        Some(&PendingRequest { client: 7, role: PeerRole::Bridge, forwarded: Forwarded::ScanCatalog })
    );
    pending.begin_forward("t".into(), 8, PeerRole::Extension, true, RequestKind::Diagnostics);
    let taken = pending.response_arrived("s").unwrap();
    assert_eq!((taken.client, taken.forwarded), (7, Forwarded::ScanCatalog));
    assert_eq!(pending.response_arrived("s"), None);
    assert_eq!(pending.timed_out("s".into()), None);
    let (client, reply) = pending.timed_out("t".into()).unwrap();
    assert_eq!(client, 8);
    assert_eq!(failure_code(&reply), ("request_timeout".into(), "Ableton integration did not respond within 120 seconds".into(), true));
    assert_eq!(pending.send_failed("t".into()), None);
    pending.begin_forward("u".into(), 9, PeerRole::Bridge, true, RequestKind::GetContext);
    let (client, reply) = pending.send_failed("u".into()).unwrap();
    assert_eq!(client, 9);
    assert_eq!(reply, WireMessage::failure("u".to_string(), peer_disconnected()));
    assert!(pending.pending("u").is_none());
    assert_eq!(REQUEST_TIMEOUT_SECS, 120);
}

#[test]
fn peer_errors_name_the_missing_peer() {
    let e = peer_unavailable(PeerRole::Bridge);
    assert_eq!((e.code.as_str(), e.message.as_str(), e.retryable), ("peer_unavailable", "Bridge is not connected", true));
    assert_eq!(peer_disconnected().message, "integration peer disconnected");
    assert!(request_timeout().retryable);
    assert_eq!(request_timeout().message, "Ableton integration did not respond within 120 seconds");
}

#[test]
fn workflows_run_only_when_saved() {
    let mut store = Store::in_memory().unwrap();
    let e = prepare_workflow_run(&store, "vocal").unwrap_err();
    assert_eq!((e.code.as_str(), e.message.as_str()), ("workflow_not_found", "workflow not found: vocal"));
    let workflow = WorkflowDefinition {
        id: "vocal".into(),
        name: "Vocal".into(),
        description: String::new(),
        actions: vec![WorkflowAction::InsertNative { name: "EQ Eight".into(), position: InsertionPosition::End }],
    };
    store.save_workflow(&workflow).unwrap();
    assert_eq!(prepare_workflow_run(&store, "vocal").unwrap().actions.len(), 1);
}

#[test]
fn clients_send_requests_and_peers_answer() {
    let request = WireMessage::Request { request_id: "1".into(), request: RequestKind::Ping };
    assert_eq!(
        incoming_frame(PeerRole::Client, request),
        Incoming::ClientRequest { request_id: "1".into(), request: RequestKind::Ping }
    );
    let response = WireMessage::success("1".to_string(), ResponseData::Ack);
    assert_eq!(incoming_frame(PeerRole::Client, response), Incoming::Ignored);
    let request = WireMessage::Request { request_id: "2".into(), request: RequestKind::Ping };
    assert_eq!(incoming_frame(PeerRole::Bridge, request), Incoming::Ignored);
}

fn config() -> RuntimeConfig {
    RuntimeConfig::new("tok".into())
}

#[test]
fn peers_refuse_a_host_that_is_not_loopback() {
    assert!(is_loopback_host("127.0.0.1") && is_loopback_host("localhost") && is_loopback_host("::1"));
    assert!(!is_loopback_host("0.0.0.0") && !is_loopback_host("192.168.1.20") && !is_loopback_host(""));
    let mut remote = config();
    remote.host = "0.0.0.0".into();
    assert_eq!(
        remote.loopback_address(),
        Err("runtime configuration must use a loopback host, not 0.0.0.0".to_string())
    );
    let mut local = config();
    local.host = "localhost".into();
    local.port = 8000;
    assert_eq!(local.loopback_address(), Ok("localhost:8000".to_string()));
    let client = DaemonClient::discover("/c/config.json", Ok(remote)).unwrap();
    assert_eq!(client.address(), Err("runtime configuration must use a loopback host, not 0.0.0.0".to_string()));
}

#[test]
fn the_command_bar_client_connects_with_its_configuration() {
    let client = DaemonClient::discover("/c/config.json", Ok(config())).unwrap();
    assert_eq!(client.address(), Ok("127.0.0.1:49371".to_string()));
    match client.hello("0.1.0".into()) {
        WireMessage::Hello { protocol_version, role, token, peer_name, capabilities, .. } => {
            assert_eq!((protocol_version, role), (PROTOCOL_VERSION, PeerRole::Client));
            assert_eq!((token.as_str(), peer_name.as_str()), ("tok", "gpui-command-bar"));
            assert_eq!(capabilities, vec!["command_bar".to_string()]);
        }
        other => panic!("unexpected {other:?}"),
    }
    match DaemonClient::discover("/c/config.json", Err("missing".into())) {
        Err(message) => assert_eq!(message, "Command Palette is not installed yet (/c/config.json)"),
        Ok(_) => panic!("a missing configuration must be reported"),
    }
}

#[test]
fn the_client_reads_handshakes_and_replies() {
    let ack = WireMessage::HelloAck { protocol_version: 1, daemon_version: "1".into() };
    assert_eq!(handshake_outcome(&ack), Handshake::Accepted);
    let refused = WireMessage::failure("".to_string(), ProtocolError::new("auth", "authentication failed"));
    assert_eq!(handshake_outcome(&refused), Handshake::Refused("authentication failed".into()));
    assert_eq!(handshake_outcome(&WireMessage::Request { request_id: "x".into(), request: RequestKind::Ping }), Handshake::Unexpected);
    assert_eq!(reply_for("r", WireMessage::success("other".to_string(), ResponseData::Ack)), None);
    assert_eq!(reply_for("r", WireMessage::success("r".to_string(), ResponseData::Ack)), Some(Ok(ResponseData::Ack)));
    let empty = WireMessage::Response { request_id: "r".into(), result: None, error: None };
    assert_eq!(reply_for("r", empty), Some(Err("service returned an empty response".into())));
    let failed = WireMessage::failure("r".to_string(), ProtocolError::new("x", "boom"));
    assert_eq!(reply_for("r", failed), Some(Err("boom".into())));
}

#[test]
fn cli_commands_become_requests_with_clamped_scans() {
    assert_eq!(
        command_to_request(CliCommand::Scan { max_items: 0, max_depth: 1000 }),
        RequestKind::ScanCatalog { max_items: 1, max_depth: 64 }
    );
    assert_eq!(
        command_to_request(CliCommand::Scan { max_items: 999_999, max_depth: 12 }),
        RequestKind::ScanCatalog { max_items: 250_000, max_depth: 12 }
    );
    assert_eq!(
        command_to_request(CliCommand::Load { item_id: "a".into(), position: PositionArg::Before }),
        RequestKind::LoadItem { item_id: "a".into(), browser_path: vec![], position: InsertionPosition::BeforeSelected }
    );
    assert_eq!(
        command_to_request(CliCommand::Favorite { item_id: "a".into(), enabled: false }),
        RequestKind::SetFavorite { item_id: "a".into(), favorite: false }
    );
    assert_eq!(command_to_request(CliCommand::Context), RequestKind::GetContext);
}

#[test]
fn cli_checks_the_reply_it_gets() {
    assert!(hello_accepted(&WireMessage::HelloAck { protocol_version: 1, daemon_version: "1".into() }));
    assert!(!hello_accepted(&WireMessage::success("r".to_string(), ResponseData::Ack)));
    let ok = WireMessage::success("r".to_string(), ResponseData::Pong);
    assert_eq!(checked_response("r", ok), Ok(WireMessage::success("r".to_string(), ResponseData::Pong)));
    let failed = WireMessage::failure("r".to_string(), ProtocolError::new("x", "no bridge"));
    assert_eq!(checked_response("r", failed), Err("no bridge".to_string()));
    let other = WireMessage::success("q".to_string(), ResponseData::Pong);
    assert_eq!(checked_response("r", other), Err("unexpected daemon response".to_string()));
}

#[test]
fn runtime_files_live_under_the_data_directory() {
    let paths = AppPaths::discover(Some("/tmp/palette".into()), Some("/home/u/.local/share".into())).unwrap();
    assert_eq!(paths.config_file, "/tmp/palette/config.json");
    let paths = AppPaths::discover(None, Some("/home/u/.local/share/".into())).unwrap();
    assert_eq!(paths.data_dir, "/home/u/.local/share/Ableton Command Palette");
    assert_eq!(paths.database_file, "/home/u/.local/share/Ableton Command Palette/palette.sqlite3");
    assert_eq!(paths.log_dir, "/home/u/.local/share/Ableton Command Palette/logs");
    assert_eq!(AppPaths::discover(None, None).err().unwrap(), "unable to determine the user data directory");
    let config = config();
    assert_eq!((config.host.as_str(), config.port, config.protocol_version), ("127.0.0.1", 49371, 1));
}

#[test]
fn scan_batches_are_stored_only_for_a_pending_scan() {
    let mut store = Store::in_memory().unwrap();
    let scan = PendingRequest { client: 1, role: PeerRole::Bridge, forwarded: Forwarded::ScanCatalog };
    let context = PendingRequest { client: 1, role: PeerRole::Bridge, forwarded: Forwarded::Other };
    let batch = vec![item("browser:y", ItemSource::LiveBrowser, vec!["Y".into()])];
    assert!(!record_scan_batch(&mut store, "catalog_batch", PeerRole::Bridge, None, &batch));
    assert!(!record_scan_batch(&mut store, "catalog_batch", PeerRole::Extension, Some(&scan), &batch));
    assert!(!record_scan_batch(&mut store, "progress", PeerRole::Bridge, Some(&scan), &batch));
    assert!(!record_scan_batch(&mut store, "catalog_batch", PeerRole::Bridge, Some(&context), &batch));
    assert_eq!(store.catalog_count().unwrap(), 0);
    assert!(record_scan_batch(&mut store, "catalog_batch", PeerRole::Bridge, Some(&scan), &batch));
    assert_eq!(store.catalog_count().unwrap(), 1);
}
