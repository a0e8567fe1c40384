//! Snapshots of groups.

use xaeroflux::frame::{frame, frame_length};
use xaeroflux::json::JsonMember;
use xaeroflux::snapshot::{
    should_request_snapshot, should_request_snapshot_at, DownloadError, GroupSnapshot, ServeError,
    SnapshotMessage, SnapshotProvider, SnapshotRequester,
};
use xaeroflux::snapshot_change::{read_change, SnapshotChange};
use xaeroflux::snapshot_data::snapshot_text;
use xaeroflux::Event;

fn object(members: &[(&str, serde_json::Value)]) -> serde_json::Value {
    let mut map = serde_json::Map::new();
    for (k, v) in members {
        map.insert(k.to_string(), v.clone());
    }
    serde_json::Value::Object(map)
}

fn s(text: &str) -> serde_json::Value {
    serde_json::Value::from(text)
}

fn n(number: i64) -> serde_json::Value {
    serde_json::Value::from(number)
}

fn ev(payload: serde_json::Value) -> Event {
    Event {
        id: blake3::hash(payload.to_string().as_bytes()).to_hex().to_string(),
        payload: payload.to_string(),
        source: "test".to_string(),
        ts: 42,
    }
}

fn group_created() -> serde_json::Value {
    object(&[
        ("type", s("GroupCreated")),
        ("id", s("g1")),
        ("name", s("Group One")),
        ("icon", s("🌀")),
        ("color", s("#0ff")),
        ("created_at", n(1)),
    ])
}

fn workspace_created(id: &str) -> serde_json::Value {
    object(&[
        ("type", s("WorkspaceCreated")),
        ("id", s(id)),
        ("group_id", s("g1")),
        ("name", s("Workspace One")),
        ("created_at", n(2)),
    ])
}

fn chat(i: i64) -> serde_json::Value {
    object(&[
        ("type", s("ChatSent")),
        ("id", s(&format!("c{i}"))),
        ("workspace_id", s("ws1")),
        ("message", s("hello")),
        ("author", s("me")),
        ("parent_id", serde_json::Value::Null),
        ("timestamp", n(i)),
    ])
}

#[test]
fn snapshot_store_preload_and_serve_message() {
    let node_id = "provider".to_string();
    let mut provider = SnapshotProvider::new(node_id);

    provider.update_from_event("g1", &ev(group_created()));
    provider.update_from_event("g1", &ev(workspace_created("ws1")));

    let snapshot = provider.get_snapshot("g1").expect("snapshot exists for g1");
    assert_eq!(snapshot.group.id, "g1");
    assert_eq!(snapshot.group.name, "Group One");
    assert_eq!(snapshot.workspaces.len(), 1, "one workspace preloaded");
    assert_eq!(snapshot.workspaces[0].id, "ws1");

    match provider.handle_request("g1") {
        Some(SnapshotMessage::SnapshotAvailable { group_id, item_count, .. }) => {
            assert_eq!(group_id, "g1");
            assert_eq!(item_count, 2, "item_count = group + workspaces + boards + files + chats");
        }
        other => panic!("expected SnapshotAvailable for g1, got {other:?}"),
    }

    assert!(provider.handle_request("does-not-exist").is_none());
}

#[test]
fn an_answer_carries_node_and_time() {
    let mut provider = SnapshotProvider::new("me".to_string());
    provider.update_from_event("g1", &ev(group_created()));
    match provider.handle_request("g1") {
        Some(SnapshotMessage::SnapshotAvailable { provider_node_id, latest_ts, .. }) => {
            assert_eq!(provider_node_id, "me");
            assert_eq!(latest_ts, 42);
        }
        other => panic!("{other:?}"),
    }
}

#[test]
fn any_event_makes_a_snapshot_and_sets_its_time() {
    let mut provider = SnapshotProvider::new("p".to_string());
    let event = Event {
        id: "x".to_string(),
        payload: "not json".to_string(),
        source: "test".to_string(),
        ts: 7,
    };
    provider.update_from_event("g9", &event);
    let snapshot = provider.get_snapshot("g9").expect("made");
    assert_eq!(snapshot.group.id, "g9");
    assert_eq!(snapshot.group.name, "");
    assert_eq!(snapshot.group.created_at, 0);
    assert_eq!(snapshot.snapshot_ts, 7);
    assert!(provider.get_snapshot("g1").is_none());
}

#[test]
fn repeated_creations_change_nothing() {
    let mut provider = SnapshotProvider::new("p".to_string());
    provider.update_from_event("g1", &ev(workspace_created("ws1")));
    let mut renamed = workspace_created("ws1");
    renamed.as_object_mut().expect("object").insert("name".to_string(), s("Other"));
    provider.update_from_event("g1", &ev(renamed));
    provider.update_from_event("g1", &ev(workspace_created("ws2")));
    let snapshot = provider.get_snapshot("g1").expect("made");
    assert_eq!(snapshot.workspaces.len(), 2);
    assert_eq!(snapshot.workspaces[0].name, "Workspace One");
    assert_eq!(snapshot.workspaces[1].id, "ws2");
}

#[test]
fn boards_are_free_form_and_may_lack_a_time() {
    let mut provider = SnapshotProvider::new("p".to_string());
    let board = object(&[
        ("type", s("BoardCreated")),
        ("id", s("b1")),
        ("workspace_id", s("ws1")),
        ("name", s("Board")),
    ]);
    provider.update_from_event("g1", &ev(board.clone()));
    provider.update_from_event("g1", &ev(board));
    let nameless = object(&[("type", s("BoardCreated")), ("id", s("b2")), ("workspace_id", s("w"))]);
    provider.update_from_event("g1", &ev(nameless));
    let snapshot = provider.get_snapshot("g1").expect("made");
    assert_eq!(snapshot.boards.len(), 1);
    assert_eq!(snapshot.boards[0].board_mode, "freeform");
    assert_eq!(snapshot.boards[0].created_at, 0);
    assert_eq!(snapshot.boards[0].workspace_id, "ws1");
}

#[test]
fn files_may_lack_workspace_and_board() {
    let mut provider = SnapshotProvider::new("p".to_string());
    let file = object(&[
        ("type", s("FileAvailable")),
        ("id", s("f1")),
        ("group_id", s("g1")),
        ("board_id", s("b1")),
        ("name", s("a.txt")),
        ("hash", s("00")),
        ("size", n(12)),
        ("source_peer", s("peer")),
        ("created_at", n(-3)),
    ]);
    provider.update_from_event("g1", &ev(file.clone()));
    provider.update_from_event("g1", &ev(file.clone()));
    let mut negative = file.clone();
    let members = negative.as_object_mut().expect("object");
    members.insert("id".to_string(), s("f2"));
    members.insert("size".to_string(), n(-1));
    provider.update_from_event("g1", &ev(negative));
    let mut wrong = file.clone();
    let members = wrong.as_object_mut().expect("object");
    members.insert("id".to_string(), s("f3"));
    members.insert("workspace_id".to_string(), n(5));
    provider.update_from_event("g1", &ev(wrong));
    let snapshot = provider.get_snapshot("g1").expect("made");
    assert_eq!(snapshot.files.len(), 1);
    assert_eq!(snapshot.files[0].workspace_id, None);
    assert_eq!(snapshot.files[0].board_id.as_deref(), Some("b1"));
    assert_eq!(snapshot.files[0].size, 12);
    assert_eq!(snapshot.files[0].created_at, -3);
}

#[test]
fn the_latest_chats_stay() {
    let mut provider = SnapshotProvider::new("p".to_string());
    for i in 0..105 {
        provider.update_from_event("g1", &ev(chat(i)));
    }
    let snapshot = provider.get_snapshot("g1").expect("made");
    assert_eq!(snapshot.recent_chats.len(), 100);
    assert_eq!(snapshot.recent_chats[0].id, "c5");
    assert_eq!(snapshot.recent_chats[99].id, "c104");
}

fn member(key: &str, value: &serde_json::Value) -> JsonMember {
    JsonMember {
        key: key.to_string(),
        text: value.as_str().map(|t| t.to_string()),
        int: value.as_i64(),
        uint: value.as_u64(),
        null: value.is_null(),
    }
}

#[test]
fn changes_are_read_from_members() {
    let fields: Vec<JsonMember> = group_created()
        .as_object()
        .expect("object")
        .iter()
        .map(|(k, v)| member(k, v))
        .collect();
    match read_change(&fields) {
        SnapshotChange::Group(g) => {
            assert_eq!(g.id, "g1");
            assert_eq!(g.color, "#0ff");
            assert_eq!(g.created_at, 1);
        }
        other => panic!("{other:?}"),
    }
    let without_color: Vec<JsonMember> = group_created()
        .as_object()
        .expect("object")
        .iter()
        .filter(|(k, _)| k.as_str() != "color")
        .map(|(k, v)| member(k, v))
        .collect();
    assert!(matches!(read_change(&without_color), SnapshotChange::Nothing));
    let unknown = vec![member("type", &s("BoardDeleted")), member("id", &s("b1"))];
    assert!(matches!(read_change(&unknown), SnapshotChange::Nothing));
    assert!(matches!(read_change(&vec![]), SnapshotChange::Nothing));
}

#[test]
fn snapshots_are_written_as_compact_json() {
    let mut provider = SnapshotProvider::new("p".to_string());
    provider.update_from_event("g1", &ev(group_created()));
    provider.update_from_event("g1", &ev(workspace_created("ws1")));
    provider.update_from_event("g1", &ev(chat(3)));
    let snapshot = provider.get_snapshot("g1").expect("made");
    let mut expected = String::new();
    expected.push_str("{\"group\":{\"id\":\"g1\",\"name\":\"Group One\",\"icon\":\"🌀\",");
    expected.push_str("\"color\":\"#0ff\",\"created_at\":1},\"workspaces\":[{\"id\":\"ws1\",");
    expected.push_str("\"group_id\":\"g1\",\"name\":\"Workspace One\",\"created_at\":2}],");
    expected.push_str("\"boards\":[],\"files\":[],\"recent_chats\":[{\"id\":\"c3\",");
    expected.push_str("\"workspace_id\":\"ws1\",\"message\":\"hello\",\"author\":\"me\",");
    expected.push_str("\"parent_id\":null,\"timestamp\":3}],\"snapshot_ts\":42}");
    assert_eq!(snapshot_text(&snapshot), expected);
}

#[test]
fn negative_times_are_written_with_a_sign() {
    let mut snapshot = GroupSnapshot::empty("g");
    snapshot.group.created_at = i64::MIN;
    snapshot.snapshot_ts = u64::MAX;
    let text = snapshot_text(&snapshot);
    assert!(text.contains("\"created_at\":-9223372036854775808}"));
    assert!(text.ends_with("\"snapshot_ts\":18446744073709551615}"));
}

#[test]
fn served_snapshots_read_back() {
    let mut provider = SnapshotProvider::new("p".to_string());
    provider.update_from_event("g1", &ev(group_created()));
    provider.update_from_event("g1", &ev(workspace_created("ws1")));
    let bytes = provider.serve_snapshot("g1").expect("served");
    let start: [u8; 4] = [bytes[0], bytes[1], bytes[2], bytes[3]];
    assert_eq!(frame_length(&start) as usize, bytes.len() - 4);
    let text = snapshot_text(&provider.get_snapshot("g1").expect("held"));
    assert_eq!(&bytes[4..], text.as_bytes());
    let value: serde_json::Value = serde_json::from_slice(&bytes[4..]).expect("parses");
    let workspaces = value.get("workspaces").and_then(|w| w.as_array()).expect("workspaces");
    assert_eq!(workspaces.len(), 1);
}

#[test]
fn nothing_is_served_of_an_unknown_group() {
    let provider = SnapshotProvider::new("p".to_string());
    match provider.serve_snapshot("g2") {
        Err(e) => {
            assert_eq!(e.message(), "No snapshot for group g2");
            assert!(matches!(e, ServeError::NoSnapshot { .. }));
        }
        Ok(_) => panic!("there is no snapshot"),
    }
}

#[test]
fn frames_start_with_a_big_endian_length() {
    assert_eq!(frame(b"abc"), vec![0, 0, 0, 3, 97, 98, 99]);
    assert_eq!(frame(b""), vec![0, 0, 0, 0]);
    assert_eq!(frame(&vec![7u8; 258])[..5], [0, 0, 1, 2, 7]);
    assert_eq!(frame_length(&[1, 2, 3, 4]), 0x01020304);
    assert_eq!(frame_length(&[255, 255, 255, 255]), u32::MAX);
}

#[test]
fn a_requester_asks_until_it_has_synced() {
    let mut requester = SnapshotRequester::new("r".to_string());
    assert!(requester.needs_snapshot("g1"), "fresh requester needs a snapshot");
    requester.mark_synced("g1", 1000);
    assert!(!requester.needs_snapshot_at("g1", 1000));
    assert!(!requester.needs_snapshot_at("g1", 1000 + 6 * 3600));
    assert!(requester.needs_snapshot_at("g1", 1000 + 6 * 3600 + 1));
    assert!(!requester.needs_snapshot_at("g1", 999), "a sync in the future is not long ago");
    assert!(requester.needs_snapshot_at("g2", 1000));
    assert!(requester.needs_snapshot("g1"), "the year 1970 is long ago");
    requester.mark_synced("g1", u64::MAX);
    assert!(!requester.needs_snapshot("g1"));
}

#[test]
fn requests_ask_for_everything() {
    let requester = SnapshotRequester::new("r".to_string());
    match requester.create_request("g1") {
        SnapshotMessage::RequestSnapshot { group_id, requester_node_id, since_ts } => {
            assert_eq!((group_id.as_str(), requester_node_id.as_str(), since_ts), ("g1", "r", 0));
        }
        other => panic!("{other:?}"),
    }
    assert_eq!(
        requester.create_request("g1").text(),
        "{\"type\":\"RequestSnapshot\",\"group_id\":\"g1\",\"requester_node_id\":\"r\",\"since_ts\":0}"
    );
}

#[test]
fn answers_are_written_with_their_type() {
    let message = SnapshotMessage::SnapshotAvailable {
        group_id: "g".to_string(),
        provider_node_id: "p".to_string(),
        item_count: 2,
        latest_ts: 9,
    };
    let mut expected = String::from("{\"type\":\"SnapshotAvailable\",\"group_id\":\"g\",");
    expected.push_str("\"provider_node_id\":\"p\",\"item_count\":2,\"latest_ts\":9}");
    assert_eq!(message.text(), expected);
}

#[test]
fn downloads_go_to_a_valid_provider_and_are_recorded() {
    let mut requester = SnapshotRequester::new("r".to_string());
    let provider = iroh::SecretKey::from_bytes(&[9; 32]).public();
    let download = requester.download_snapshot(&provider.to_string(), "g1").expect("valid");
    assert_eq!(&download.provider, provider.as_bytes());
    assert_eq!(download.request, vec![0, 0, 0, 2, b'g', b'1']);
    assert!(matches!(
        requester.download_snapshot("nobody", "g1"),
        Err(DownloadError::InvalidProvider { cause }) if !cause.is_empty()
    ));
    assert!(requester.download_from(Ok([1; 32]), "").is_ok());
    let error = requester.download_from(Err("why".to_string()), "").expect_err("no key");
    assert_eq!(error.message(), "why");
    assert_eq!(DownloadError::NoSnapshot.message(), "the reply is no snapshot");

    let mut snapshot = GroupSnapshot::empty("g1");
    snapshot.snapshot_ts = 500;
    let snapshot = requester.downloaded("g1", snapshot);
    assert_eq!(snapshot.group.id, "g1");
    assert!(!requester.needs_snapshot_at("g1", 600));
}

#[test]
fn snapshots_are_requested_by_count_and_age() {
    assert!(should_request_snapshot(0, 0, None));
    assert!(should_request_snapshot(0, 0, Some(u64::MAX)));
    assert!(should_request_snapshot(10, 13, None));
    assert!(should_request_snapshot(10, 12, None), "exactly a fifth more");
    assert!(!should_request_snapshot(10, 11, None));
    assert!(!should_request_snapshot(1, 1, None));
    assert!(should_request_snapshot(1, 2, None));
    assert!(should_request_snapshot(10, 5, Some(0)));
    assert!(!should_request_snapshot_at(10, 11, Some(100), 100 + 21_600));
    assert!(should_request_snapshot_at(10, 11, Some(100), 101 + 21_600));
    assert!(!should_request_snapshot_at(10, 11, Some(100), 50));
    assert!(!should_request_snapshot(usize::MAX, u32::MAX, None));
}

fn at(ts: u64, payload: serde_json::Value) -> Event {
    Event { ts, ..ev(payload) }
}

fn latest(provider: &SnapshotProvider) -> u64 {
    match provider.handle_request("g1") {
        Some(SnapshotMessage::SnapshotAvailable { latest_ts, .. }) => latest_ts,
        other => panic!("{other:?}"),
    }
}

#[test]
fn the_most_recent_item_counts() {
    let mut provider = SnapshotProvider::new("p".to_string());
    provider.update_from_event("g1", &at(70, s("no object")));
    assert_eq!(latest(&provider), 0, "there is no item yet");
    provider.update_from_event("g1", &at(50, workspace_created("w1")));
    provider.update_from_event("g1", &at(40, workspace_created("w2")));
    assert_eq!(latest(&provider), 50);
    provider.update_from_event("g1", &at(90, workspace_created("w1")));
    assert_eq!(latest(&provider), 50, "nothing was added");
    assert_eq!(provider.get_snapshot("g1").expect("made").snapshot_ts, 90);
    provider.update_from_event("g1", &at(60, chat(1)));
    assert_eq!(latest(&provider), 60);
    provider.update_from_event("g1", &at(61, group_created()));
    assert_eq!(latest(&provider), 61);
    provider.update_from_event("g2", &at(99, chat(1)));
    assert_eq!(latest(&provider), 61);
}

#[test]
fn the_latest_chats_stay_whatever_comes_between() {
    let mut provider = SnapshotProvider::new("p".to_string());
    for i in 0..103 {
        provider.update_from_event("g1", &ev(chat(i)));
        provider.update_from_event("g1", &ev(workspace_created(&format!("w{i}"))));
    }
    let snapshot = provider.get_snapshot("g1").expect("made");
    assert_eq!(snapshot.workspaces.len(), 103);
    assert_eq!(snapshot.recent_chats.len(), 100);
    assert_eq!(snapshot.recent_chats[0].id, "c3");
}

#[test]
fn what_is_served_is_what_is_downloaded() {
    let mut provider = SnapshotProvider::new("p".to_string());
    provider.update_from_event("g1", &ev(group_created()));
    provider.update_from_event("g1", &ev(workspace_created("w\"1")));
    provider.update_from_event("g1", &ev(chat(-5)));
    let board = object(&[
        ("type", s("BoardCreated")),
        ("id", s("b1")),
        ("workspace_id", s("ws1")),
        ("name", s("Board")),
    ]);
    provider.update_from_event("g1", &ev(board));
    let file = object(&[
        ("type", s("FileAvailable")),
        ("id", s("f1")),
        ("group_id", s("g1")),
        ("board_id", s("b1")),
        ("name", s("a.txt")),
        ("hash", s("00")),
        ("size", serde_json::Value::from(u64::MAX)),
        ("created_at", n(i64::MIN)),
    ]);
    provider.update_from_event("g1", &ev(file));
    let bytes = provider.serve_snapshot("g1").expect("served");

    let mut requester = SnapshotRequester::new("r".to_string());
    let snapshot = requester.on_reply("g1", &bytes[4..]).expect("a snapshot");
    let held = provider.get_snapshot("g1").expect("held");
    assert_eq!(snapshot_text(&snapshot), snapshot_text(&held));
    assert_eq!(snapshot.group.name, "Group One");
    assert_eq!(snapshot.workspaces[0].id, "w\"1");
    assert_eq!(snapshot.files[0].size, u64::MAX);
    assert_eq!(snapshot.files[0].created_at, i64::MIN);
    assert_eq!(snapshot.files[0].workspace_id, None);
    assert_eq!(snapshot.recent_chats[0].timestamp, -5);
    assert!(!requester.needs_snapshot_at("g1", 42));
    assert!(requester.needs_snapshot_at("g2", 42));
}

#[test]
fn other_replies_change_nothing() {
    let mut requester = SnapshotRequester::new("r".to_string());
    let text = snapshot_text(&GroupSnapshot::empty("g1"));
    let replies = vec![
        String::new(),
        "[]".to_string(),
        "{}".to_string(),
        text[..text.len() - 1].to_string(),
        text.replace("\"boards\":[]", "\"boards\":null"),
        text.replace("\"boards\":[]", "\"boards\":[1]"),
        text.replace("\"boards\":[]", "\"boards\":[{\"id\":\"b\"}]"),
        text.replace("\"snapshot_ts\":0", "\"snapshot_ts\":-1"),
        text.replace("\"name\":\"\"", "\"name\":7"),
    ];
    for reply in &replies {
        assert!(matches!(
            requester.on_reply("g1", reply.as_bytes()),
            Err(DownloadError::NoSnapshot)
        ));
    }
    assert!(requester.needs_snapshot_at("g1", 0));
    let spaced = text.replace(":", " : ").replace("{", "{\"more\":true,");
    assert!(requester.on_reply("g1", spaced.as_bytes()).is_ok());
    assert!(!requester.needs_snapshot_at("g1", 0));
}

#[test]
fn groups_are_kept_apart() {
    let mut mixed = SnapshotProvider::new("p".to_string());
    let mut alone = SnapshotProvider::new("p".to_string());
    let events = [group_created(), workspace_created("w1"), chat(1), workspace_created("w1")];
    for event in &events {
        mixed.update_from_event("g2", &ev(chat(9)));
        mixed.update_from_event("g1", &ev(event.clone()));
        mixed.update_from_event("g3", &ev(workspace_created("w1")));
        alone.update_from_event("g1", &ev(event.clone()));
    }
    let a = mixed.get_snapshot("g1").expect("made");
    let b = alone.get_snapshot("g1").expect("made");
    assert_eq!(snapshot_text(&a), snapshot_text(&b));
    assert!(alone.get_snapshot("g2").is_none());
}
