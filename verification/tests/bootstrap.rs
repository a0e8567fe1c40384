//! Conversion and forwarding of events, settings, configuration and identity.

use xaeroflux::bridge::{
    convert_network_event, convert_network_event_at, raw_event_text, Group, NetworkEvent, RawEvent,
    ScopeTracker, Workspace,
};
use xaeroflux::config::{choose_relay, keep_valid, DiscoveryService, RelayChoice};
use xaeroflux::forwarder::{Forwarder, IggyConnection, SendStep};
use xaeroflux::identity::{key_from_file, key_from_seed, node_key, KeyError, NodeKey};
use xaeroflux::settings::{directory, settings, Variables, KEY_FILE, RENDEZVOUS_FILE};
use xaeroflux::{XaeroFlux, XaeroFluxBuilder, XaeroFluxConfig};

const NOW: u64 = 1_700_000_000;

fn convert(event: &NetworkEvent, tracker: &mut ScopeTracker) -> Option<RawEvent> {
    convert_network_event_at(event, "topic", tracker, "id".to_string(), NOW)
}

fn workspace() -> NetworkEvent {
    NetworkEvent::WorkspaceCreated(Workspace {
        id: "ws".to_string(),
        group_id: "grp".to_string(),
        name: "Work".to_string(),
        created_at: 2,
    })
}

fn board() -> NetworkEvent {
    NetworkEvent::BoardCreated {
        id: "b".to_string(),
        workspace_id: "ws".to_string(),
        name: "Board".to_string(),
        created_at: 3,
    }
}

fn chat() -> NetworkEvent {
    NetworkEvent::ChatSent {
        id: "c".to_string(),
        workspace_id: "ws".to_string(),
        message: "hi".to_string(),
        author: "ann".to_string(),
        parent_id: Some("p".to_string()),
        timestamp: 5,
    }
}

// ---- conversion ----

#[test]
fn groups_are_forwarded() {
    let mut tracker = ScopeTracker::new();
    let created = NetworkEvent::GroupCreated(Group {
        id: "g".to_string(),
        name: "Name".to_string(),
        icon: "i".to_string(),
        color: "c".to_string(),
        created_at: -1,
    });
    let raw = convert(&created, &mut tracker).expect("forwarded");
    assert_eq!(raw.id, "id");
    assert_eq!(raw.group_id, "g");
    assert_eq!(raw.workspace_id, "");
    assert_eq!(raw.source, "cyan");
    assert_eq!(raw.content_kind, "cyan_group");
    assert_eq!(raw.external_id, "g");
    assert_eq!(
        raw.content,
        "{\"action\":\"created\",\"color\":\"c\",\"icon\":\"i\",\"name\":\"Name\"}"
    );
    assert_eq!(raw.title.as_deref(), Some("Group created: Name"));
    assert_eq!(raw.ts, u64::MAX, "a time before the epoch wraps around");
    assert_eq!(raw.captured_at, NOW);

    let renamed = NetworkEvent::GroupRenamed { id: "g".to_string(), name: "New".to_string() };
    let raw = convert(&renamed, &mut tracker).expect("forwarded");
    assert_eq!(raw.content, "{\"action\":\"renamed\",\"name\":\"New\"}");
    assert_eq!(raw.title.as_deref(), Some("Group renamed: New"));
    assert_eq!(raw.ts, NOW);
}

#[test]
fn workspaces_and_boards_are_tracked() {
    let mut tracker = ScopeTracker::new();
    let raw = convert(&board(), &mut tracker).expect("forwarded");
    assert_eq!(raw.group_id, "topic", "the workspace is not known yet");
    assert_eq!(tracker.get_scope_for_board("b"), ("unknown".to_string(), "ws".to_string()));

    let raw = convert(&workspace(), &mut tracker).expect("forwarded");
    assert_eq!((raw.group_id.as_str(), raw.workspace_id.as_str()), ("grp", "ws"));
    assert_eq!(raw.content, "{\"action\":\"created\",\"name\":\"Work\"}");
    assert_eq!(raw.title.as_deref(), Some("Workspace created: Work"));
    assert_eq!(raw.content_kind, "cyan_workspace");

    let raw = convert(&board(), &mut tracker).expect("forwarded");
    assert_eq!(raw.group_id, "grp");
    assert_eq!(raw.content, "{\"action\":\"created\",\"board_id\":\"b\",\"name\":\"Board\"}");
    assert_eq!(raw.title.as_deref(), Some("Board created: Board"));
    assert_eq!(raw.ts, 3);
    assert_eq!(tracker.get_scope_for_board("b"), ("grp".to_string(), "ws".to_string()));
    assert_eq!(
        tracker.get_scope_for_board("other"),
        ("unknown".to_string(), "unknown".to_string())
    );
    assert_eq!(tracker.sizes(), (1, 1));
}

#[test]
fn scopes_are_learned_in_either_order() {
    let element = NetworkEvent::NotebookCellAdded {
        id: "n".to_string(),
        board_id: "b".to_string(),
        cell_type: "text".to_string(),
        cell_order: 0,
        content: Some("x".to_string()),
    };
    let orders = vec![vec![workspace(), chat(), board()], vec![board(), chat(), workspace()]];
    for events in orders {
        let mut tracker = ScopeTracker::new();
        for event in &events {
            convert(event, &mut tracker);
        }
        convert(&chat(), &mut tracker);
        let raw = convert(&element, &mut tracker).expect("forwarded");
        assert_eq!((raw.group_id.as_str(), raw.workspace_id.as_str()), ("grp", "ws"));
    }
}

#[test]
fn chats_are_forwarded() {
    let mut tracker = ScopeTracker::new();
    let raw = convert(&chat(), &mut tracker).expect("forwarded");
    assert_eq!(raw.group_id, "topic");
    tracker.track_workspace("ws", "grp");
    let raw = convert(&chat(), &mut tracker).expect("forwarded");
    assert_eq!(raw.group_id, "grp");
    assert_eq!(raw.source, "cyan_chat");
    assert_eq!(raw.content, "hi");
    assert_eq!((raw.author_id.as_str(), raw.author_name.as_str()), ("ann", "ann"));
    assert_eq!(raw.parent_id.as_deref(), Some("p"));
    assert_eq!(raw.ts, 5);
}

#[test]
fn files_are_forwarded() {
    let mut tracker = ScopeTracker::new();
    let file = |group: Option<&str>, workspace: Option<&str>| NetworkEvent::FileAvailable {
        id: "f".to_string(),
        group_id: group.map(|g| g.to_string()),
        workspace_id: workspace.map(|w| w.to_string()),
        board_id: None,
        name: "a.txt".to_string(),
        hash: "00".to_string(),
        size: 12,
        source_peer: "peer".to_string(),
        created_at: 4,
    };
    let raw = convert(&file(None, None), &mut tracker).expect("forwarded");
    assert_eq!((raw.group_id.as_str(), raw.workspace_id.as_str()), ("topic", ""));
    let mut expected = String::from("{\"board_id\":null,\"filename\":\"a.txt\",\"hash\":\"00\",");
    expected.push_str("\"size\":12,\"source_peer\":\"peer\"}");
    assert_eq!(raw.content, expected);
    assert_eq!(raw.title.as_deref(), Some("a.txt"));
    assert_eq!((raw.author_id.as_str(), raw.author_name.as_str()), ("peer", "peer"));
    let raw = convert(&file(Some("g"), Some("w")), &mut tracker).expect("forwarded");
    assert_eq!((raw.group_id.as_str(), raw.workspace_id.as_str()), ("g", "w"));
}

#[test]
fn elements_and_cells_carry_their_board() {
    let mut tracker = ScopeTracker::new();
    tracker.track_workspace("ws", "grp");
    tracker.track_board("b", "ws");
    let element = NetworkEvent::WhiteboardElementAdded {
        id: "e".to_string(),
        board_id: "b".to_string(),
        element_type: "rect".to_string(),
        z_index: 0,
        style_json: None,
        content_json: Some("{}".to_string()),
        created_at: 6,
        updated_at: 7,
    };
    let raw = convert(&element, &mut tracker).expect("forwarded");
    assert_eq!((raw.group_id.as_str(), raw.workspace_id.as_str()), ("grp", "ws"));
    assert_eq!(raw.thread_id.as_deref(), Some("b"));
    let mut expected = String::from("{\"action\":\"added\",\"board_id\":\"b\",");
    expected.push_str("\"content\":\"{}\",\"element_type\":\"rect\"}");
    assert_eq!(raw.content, expected);

    let cell = |content: Option<&str>| NetworkEvent::NotebookCellAdded {
        id: "n".to_string(),
        board_id: "b".to_string(),
        cell_type: "text".to_string(),
        cell_order: 0,
        content: content.map(|c| c.to_string()),
    };
    let raw = convert(&cell(Some(" x ")), &mut tracker).expect("forwarded");
    assert_eq!(raw.content, " x ");
    assert_eq!(raw.content_kind, "cyan_notebook_cell");
    assert_eq!(raw.ts, NOW);
    assert!(convert(&cell(None), &mut tracker).is_none());
    assert!(convert(&cell(Some("")), &mut tracker).is_none());
    assert!(convert(&cell(Some(" \t\n\u{a0}\u{2003}\u{3000}")), &mut tracker).is_none());
    assert!(convert(&cell(Some("\u{200b}")), &mut tracker).is_some());
}

#[test]
fn deletions_and_metadata_are_not_forwarded() {
    let mut tracker = ScopeTracker::new();
    let s = || "x".to_string();
    let events = vec![
        NetworkEvent::GroupDeleted { id: s() },
        NetworkEvent::GroupDissolved { id: s() },
        NetworkEvent::WorkspaceRenamed { id: s(), name: s() },
        NetworkEvent::WorkspaceDeleted { id: s() },
        NetworkEvent::BoardRenamed { id: s(), name: s() },
        NetworkEvent::BoardRated { board_id: s(), rating: 5 },
        NetworkEvent::ChatDeleted { id: s() },
        NetworkEvent::GroupSnapshotAvailable { source: s(), group_id: s() },
        NetworkEvent::ProfileUpdated { node_id: s(), display_name: s(), avatar_hash: None },
    ];
    for event in &events {
        assert!(convert(event, &mut tracker).is_none());
    }
    assert_eq!(tracker.sizes(), (0, 0));
}

#[test]
fn conversion_draws_an_identifier_and_the_time() {
    let mut tracker = ScopeTracker::new();
    let a = convert_network_event(&chat(), "topic", &mut tracker).expect("forwarded");
    let b = convert_network_event(&chat(), "topic", &mut tracker).expect("forwarded");
    assert_ne!(a.id, b.id);
    assert_eq!(a.id.len(), 36);
    assert_eq!(&a.id[14..15], "4");
    assert!(a.captured_at > 1_600_000_000);
    assert_eq!(a.group_id, "topic");
}

#[test]
fn raw_events_are_written_in_field_order() {
    let mut tracker = ScopeTracker::new();
    let raw = convert(&chat(), &mut tracker).expect("forwarded");
    let mut expected = String::from("{\"id\":\"id\",\"group_id\":\"topic\",\"workspace_id\":\"ws\",");
    expected.push_str("\"source\":\"cyan_chat\",\"content_kind\":\"cyan_chat\",");
    expected.push_str("\"external_id\":\"c\",\"content\":\"hi\",\"author_id\":\"ann\",");
    expected.push_str("\"author_name\":\"ann\",\"url\":\"\",\"title\":null,\"thread_id\":null,");
    expected.push_str("\"parent_id\":\"p\",\"ts\":5,\"captured_at\":1700000000}");
    assert_eq!(raw_event_text(&raw), expected);
}

// ---- forwarding ----

#[test]
fn a_connection_is_made_used_and_lost() {
    let mut tracker = ScopeTracker::new();
    let raw = convert(&chat(), &mut tracker).expect("forwarded");
    let mut connection = IggyConnection::new("127.0.0.1:8090".to_string(), true);
    assert!(connection.wants_connection());
    assert_eq!(connection.status(), "disconnected: unknown");
    match connection.send_raw_event(&raw) {
        SendStep::Refuse(reason) => assert_eq!(reason, "Not connected to Iggy"),
        other => panic!("{other:?}"),
    }
    assert_eq!(connection.status(), "disconnected: Not connected");

    connection.on_connected();
    assert!(connection.is_connected());
    assert!(!connection.wants_connection());
    assert_eq!(connection.last_error, None);
    match connection.send_raw_event(&raw) {
        SendStep::Send(bytes) => assert_eq!(bytes, raw_event_text(&raw).into_bytes()),
        other => panic!("{other:?}"),
    }
    assert!(connection.on_sent(Ok(())).is_ok());
    assert_eq!(connection.messages_sent(), 1);
    assert_eq!(connection.status(), "connected (1 sent)");

    let error = connection.on_sent(Err("broken".to_string())).expect_err("lost");
    assert_eq!(error, "Iggy send error: broken");
    assert_eq!(connection.status(), "disconnected: Iggy send error: broken");
    assert!(connection.wants_connection());
    assert_eq!(connection.messages_sent(), 1);
}

#[test]
fn a_disabled_connection_takes_everything() {
    let mut tracker = ScopeTracker::new();
    let raw = convert(&chat(), &mut tracker).expect("forwarded");
    let mut connection = IggyConnection::new("a".to_string(), false);
    assert!(!connection.wants_connection());
    assert!(matches!(connection.send_raw_event(&raw), SendStep::Skip));
    assert_eq!(connection.status(), "disabled");
    assert_eq!(connection.messages_sent(), 0);
}

#[test]
fn events_are_counted() {
    let mut forwarder = Forwarder::new();
    let id = || "id".to_string();
    assert!(forwarder.on_event_at("group/g", &None, id(), NOW).is_none());
    let deleted = NetworkEvent::BoardDeleted { id: "b".to_string() };
    assert!(forwarder.on_event_at("group/g", &Some(deleted), id(), NOW).is_none());
    let raw = forwarder.on_event_at("group/g", &Some(chat()), id(), NOW).expect("forwarded");
    assert_eq!(raw.group_id, "g");
    let raw = forwarder.on_event("elsewhere", &Some(chat())).expect("forwarded");
    assert_eq!(raw.group_id, "elsewhere");
    forwarder.on_forwarded();
    assert_eq!(forwarder.counters(), (4, 2, 1));
    forwarder.on_event("group/g", &Some(workspace()));
    forwarder.on_event("group/g", &Some(board()));
    assert_eq!(forwarder.scope_sizes(), (1, 1));
}

// ---- settings and configuration ----

fn unset() -> Variables {
    Variables {
        relay_url: None,
        discovery_key: None,
        db_path: None,
        no_n0: None,
        iggy_addr: None,
        iggy_enabled: None,
        env: None,
        rendezvous_path: None,
    }
}

#[test]
fn settings_have_defaults() {
    let s = settings(unset());
    assert_eq!(s.relay_url, None);
    assert_eq!(s.discovery_key, "cyan-dev");
    assert_eq!(s.db_path, "/opt/cyan/data/bootstrap.db");
    assert!(!s.no_n0);
    assert_eq!(s.iggy_addr, "127.0.0.1:8090");
    assert!(s.iggy_enabled);
    assert_eq!(s.env, "dev");
    assert_eq!(s.rendezvous_path, None);
    let config = s.config();
    assert_eq!(config.discovery_key, "cyan-dev");
    assert_eq!(config.db_path, "/opt/cyan/data/bootstrap.db");
    assert!(config.use_n0_discovery && config.use_mdns);
}

#[test]
fn files_stand_beside_the_database() {
    assert_eq!(directory(None), ".");
    assert_eq!(directory(Some("/data".to_string())), "/data");
    assert_eq!(directory(Some(String::new())), "");
    assert_eq!((KEY_FILE, RENDEZVOUS_FILE), ("node.key", "rendezvous.json"));
    let beside = "/data/rendezvous.json".to_string();
    assert_eq!(settings(unset()).rendezvous_target(beside.clone()), beside);
    let mut vars = unset();
    vars.rendezvous_path = Some("/srv/r.json".to_string());
    assert_eq!(settings(vars).rendezvous_target(beside), "/srv/r.json");
}

#[test]
fn settings_follow_the_variables() {
    let mut vars = unset();
    vars.relay_url = Some("https://r".to_string());
    vars.discovery_key = Some("k".to_string());
    vars.no_n0 = Some("1".to_string());
    vars.iggy_enabled = Some("0".to_string());
    vars.env = Some("prod".to_string());
    let s = settings(vars);
    assert!(s.no_n0);
    assert!(!s.iggy_enabled);
    assert_eq!(s.env, "prod");
    let config = s.config();
    assert_eq!(config.relay_url.as_deref(), Some("https://r"));
    assert_eq!(config.discovery_key, "k");
    assert!(!config.use_n0_discovery);

    let mut vars = unset();
    vars.no_n0 = Some("true".to_string());
    vars.iggy_enabled = Some("no".to_string());
    let s = settings(vars);
    assert!(!s.no_n0);
    assert!(s.iggy_enabled);
}

#[test]
fn the_builder_sets_what_it_is_told() {
    let config = XaeroFlux::builder()
        .discovery_key("k".to_string())
        .db_path("p".to_string())
        .relay_url("r".to_string())
        .bootstrap_peers(vec!["a".to_string()])
        .bootstrap_peer("b".to_string())
        .no_n0_discovery()
        .no_mdns()
        .disable_relay()
        .into_config();
    assert_eq!(config.discovery_key, "k");
    assert_eq!(config.db_path, "p");
    assert_eq!(config.relay_url.as_deref(), Some("r"));
    assert_eq!(config.bootstrap_peers, vec!["a".to_string(), "b".to_string()]);
    assert!(!config.use_n0_discovery && !config.use_mdns && config.relay_disabled);
    assert!(config.static_provider.is_none());
    let default = XaeroFluxConfig::default();
    assert_eq!(default.discovery_key, "xaeroflux");
    assert_eq!(default.db_path, "xaeroflux.db");
    assert!(default.use_n0_discovery && default.use_mdns && !default.relay_disabled);
    assert_eq!(XaeroFluxBuilder::default().into_config().db_path, "xaeroflux.db");
    let two = XaeroFlux::config("k".to_string(), "p".to_string());
    assert_eq!((two.discovery_key.as_str(), two.db_path.as_str()), ("k", "p"));
    let three =
        XaeroFlux::config_with_bootstrap("k".to_string(), "p".to_string(), vec!["a".to_string()]);
    assert_eq!(three.bootstrap_peers, vec!["a".to_string()]);
}

#[test]
fn the_relay_is_chosen() {
    let base = || XaeroFlux::builder();
    assert!(matches!(base().into_config().relay(), RelayChoice::Default));
    let custom = base().relay_url("https://quic.dev.cyan.blockxaero.io".to_string());
    match custom.into_config().relay() {
        RelayChoice::Custom(url) => assert_eq!(url, "https://quic.dev.cyan.blockxaero.io./"),
        other => panic!("{other:?}"),
    }
    let invalid = base().relay_url("not a url".to_string());
    assert!(matches!(invalid.into_config().relay(), RelayChoice::Default));
    let disabled = base().relay_url("https://quic.dev.cyan.blockxaero.io".to_string()).disable_relay();
    assert!(matches!(disabled.into_config().relay(), RelayChoice::Disabled));
    assert!(matches!(choose_relay(true, Some("x".to_string())), RelayChoice::Disabled));
}

#[test]
fn discovery_services_follow_the_configuration() {
    let all = XaeroFlux::builder()
        .static_provider(iroh::discovery::static_provider::StaticProvider::new())
        .into_config();
    assert_eq!(
        all.discovery_services(),
        vec![
            DiscoveryService::PkarrPublisher,
            DiscoveryService::Dns,
            DiscoveryService::Mdns,
            DiscoveryService::Static,
        ]
    );
    assert!(XaeroFlux::builder().no_n0_discovery().no_mdns().into_config().discovery_services().is_empty());
    assert_eq!(
        XaeroFlux::builder().no_n0_discovery().into_config().discovery_services(),
        vec![DiscoveryService::Mdns]
    );
}

#[test]
fn bootstrap_peers_that_are_no_identifiers_are_left_out() {
    let key = iroh::SecretKey::from_bytes(&[1; 32]).public();
    let config = XaeroFlux::builder()
        .bootstrap_peers(vec!["x".to_string(), key.to_string(), String::new()])
        .into_config();
    assert_eq!(config.bootstrap_ids(), vec![*key.as_bytes()]);
    assert_eq!(keep_valid(&vec![None, Some([1; 32]), None, Some([2; 32])]), vec![[1; 32], [2; 32]]);
}

// ---- identity ----

#[test]
fn the_key_file_holds_the_key() {
    let file: Vec<u8> = (0..32).collect();
    match node_key(Some(file.clone())) {
        Ok(NodeKey::Loaded(key)) => assert_eq!(key.to_vec(), file),
        other => panic!("{other:?}"),
    }
    assert!(matches!(node_key(Some(vec![1; 31])), Err(KeyError::InvalidKeyFile)));
    assert!(matches!(key_from_file(&vec![1; 33]), Err(KeyError::InvalidKeyFile)));
    assert_eq!(KeyError::InvalidKeyFile.message(), "Invalid key file");
    let no_seed = KeyError::NoSeed { cause: "why".to_string() };
    assert_eq!(no_seed.message(), "Failed to get random seed: why");
}

#[test]
fn new_keys_are_drawn() {
    let a = match node_key(None) {
        Ok(NodeKey::Generated(key)) => key,
        other => panic!("{other:?}"),
    };
    let b = match node_key(None) {
        Ok(NodeKey::Generated(key)) => key,
        other => panic!("{other:?}"),
    };
    assert_ne!(a, b);
    let first = key_from_seed(Ok([7; 32])).expect("a seed gives a key");
    assert_eq!(first, key_from_seed(Ok([7; 32])).expect("a seed gives a key"));
    assert_ne!(first, [7; 32]);
    assert!(matches!(
        key_from_seed(Err("why".to_string())),
        Err(KeyError::NoSeed { cause }) if cause == "why"
    ));
}

#[test]
fn a_node_is_called_by_its_public_key() {
    let secret = iroh::SecretKey::from_bytes(&[5; 32]);
    let xf = XaeroFlux::from_key("k".to_string(), [5; 32]);
    assert_eq!(xf.node_id, secret.public().to_string());
    assert_eq!(xf.discovery_key, "k");
    assert_eq!(xf.node_id.len(), 64);
}
