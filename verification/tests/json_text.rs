//! What the library writes is what `serde_json` writes of the same values.

use serde::ser::{Serialize, SerializeMap, SerializeSeq, Serializer};
use xaeroflux::bridge::{raw_event_text, RawEvent};
use xaeroflux::discovery::introduction_text;
use xaeroflux::events::event_text;
use xaeroflux::rendezvous::{
    canonical_bytes, published_bytes, BootstrapInfo, RendezvousConfig, SignedRendezvousConfig,
};
use xaeroflux::snapshot::{
    BoardData, ChatData, FileData, GroupData, GroupSnapshot, SnapshotMessage, WorkspaceData,
};
use xaeroflux::snapshot_data::snapshot_text;
use xaeroflux::swarm::SwarmMessage;
use xaeroflux::text::{blank, decimal_text, joined, same_text, signed_decimal_text, white_space};
use xaeroflux::Event;

/// A value whose members keep their order.
enum Value {
    Null,
    Text(String),
    Unsigned(u64),
    Signed(i64),
    List(Vec<Value>),
    Object(Vec<(&'static str, Value)>),
}

impl Serialize for Value {
    fn serialize<S: Serializer>(&self, s: S) -> Result<S::Ok, S::Error> {
        match self {
            Value::Null => s.serialize_none(),
            Value::Text(t) => s.serialize_str(t),
            Value::Unsigned(n) => s.serialize_u64(*n),
            Value::Signed(n) => s.serialize_i64(*n),
            Value::List(items) => {
                let mut seq = s.serialize_seq(Some(items.len()))?;
                for item in items {
                    seq.serialize_element(item)?;
                }
                seq.end()
            }
            Value::Object(members) => {
                let mut map = s.serialize_map(Some(members.len()))?;
                for (key, value) in members {
                    map.serialize_entry(key, value)?;
                }
                map.end()
            }
        }
    }
}

fn t(text: &str) -> Value {
    Value::Text(text.to_string())
}

fn o(text: &Option<String>) -> Value {
    match text {
        Some(text) => t(text),
        None => Value::Null,
    }
}

fn compact(value: &Value) -> String {
    serde_json::to_string(value).expect("writes")
}

/// Texts with everything that is escaped in them, and much that is not.
fn awkward() -> Vec<String> {
    let mut all: Vec<String> = (0u32..0x100)
        .filter_map(|n| char::from_u32(n))
        .map(|c| format!("a{c}b"))
        .collect();
    for text in ["", "\"", "\\", "\\\"\\", "🌀é\u{2028}\u{2029}\u{ffff}", "</script>", "\u{10ffff}"] {
        all.push(text.to_string());
    }
    all
}

#[test]
fn events_match() {
    for text in awkward() {
        let event =
            Event { id: text.clone(), payload: text.clone(), source: text.clone(), ts: u64::MAX };
        let value = Value::Object(vec![
            ("id", t(&text)),
            ("payload", t(&text)),
            ("source", t(&text)),
            ("ts", Value::Unsigned(u64::MAX)),
        ]);
        assert_eq!(event_text(&event), compact(&value));
    }
}

fn config_value(c: &RendezvousConfig) -> Value {
    Value::Object(vec![
        ("env", t(&c.env)),
        ("discovery_key", t(&c.discovery_key)),
        (
            "bootstrap",
            Value::Object(vec![
                ("node_id", t(&c.bootstrap.node_id)),
                ("addr", Value::List(c.bootstrap.addr.iter().map(|a| t(a)).collect())),
            ]),
        ),
        ("relay_url", o(&c.relay_url)),
        ("ts", Value::Unsigned(c.ts)),
    ])
}

#[test]
fn configs_match() {
    let addresses: [Vec<String>; 3] = [vec![], vec!["a".to_string()], awkward()];
    for addr in addresses {
        for relay_url in [None, Some("https://r/\"".to_string())] {
            let config = RendezvousConfig {
                env: "e\n".to_string(),
                discovery_key: "d".to_string(),
                bootstrap: BootstrapInfo { node_id: "n".to_string(), addr: addr.clone() },
                relay_url,
                ts: 1_700_000_000,
            };
            assert_eq!(canonical_bytes(&config), compact(&config_value(&config)).into_bytes());
            let value = Value::Object(vec![
                ("config", config_value(&config)),
                ("signer", t("s")),
                ("signature", t("g")),
            ]);
            let signed = SignedRendezvousConfig {
                config,
                signer: "s".to_string(),
                signature: "g".to_string(),
            };
            assert_eq!(published_bytes(&signed), serde_json::to_vec_pretty(&value).expect("writes"));
        }
    }
}

fn full_snapshot(text: &str) -> GroupSnapshot {
    let s = || text.to_string();
    GroupSnapshot {
        group: GroupData { id: s(), name: s(), icon: s(), color: s(), created_at: i64::MIN },
        workspaces: vec![
            WorkspaceData { id: s(), group_id: s(), name: s(), created_at: -1 },
            WorkspaceData { id: s(), group_id: s(), name: s(), created_at: 0 },
        ],
        boards: vec![BoardData {
            id: s(),
            workspace_id: s(),
            name: s(),
            board_mode: s(),
            created_at: i64::MAX,
        }],
        files: vec![FileData {
            id: s(),
            group_id: s(),
            workspace_id: None,
            board_id: Some(s()),
            name: s(),
            hash: s(),
            size: u64::MAX,
            created_at: 10,
        }],
        recent_chats: vec![ChatData {
            id: s(),
            workspace_id: s(),
            message: s(),
            author: s(),
            parent_id: None,
            timestamp: 99,
        }],
        snapshot_ts: 100,
    }
}

fn snapshot_value(s: &GroupSnapshot) -> Value {
    Value::Object(vec![
        (
            "group",
            Value::Object(vec![
                ("id", t(&s.group.id)),
                ("name", t(&s.group.name)),
                ("icon", t(&s.group.icon)),
                ("color", t(&s.group.color)),
                ("created_at", Value::Signed(s.group.created_at)),
            ]),
        ),
        (
            "workspaces",
            Value::List(
                s.workspaces
                    .iter()
                    .map(|w| {
                        Value::Object(vec![
                            ("id", t(&w.id)),
                            ("group_id", t(&w.group_id)),
                            ("name", t(&w.name)),
                            ("created_at", Value::Signed(w.created_at)),
                        ])
                    })
                    .collect(),
            ),
        ),
        (
            "boards",
            Value::List(
                s.boards
                    .iter()
                    .map(|b| {
                        Value::Object(vec![
                            ("id", t(&b.id)),
                            ("workspace_id", t(&b.workspace_id)),
                            ("name", t(&b.name)),
                            ("board_mode", t(&b.board_mode)),
                            ("created_at", Value::Signed(b.created_at)),
                        ])
                    })
                    .collect(),
            ),
        ),
        (
            "files",
            Value::List(
                s.files
                    .iter()
                    .map(|f| {
                        Value::Object(vec![
                            ("id", t(&f.id)),
                            ("group_id", t(&f.group_id)),
                            ("workspace_id", o(&f.workspace_id)),
                            ("board_id", o(&f.board_id)),
                            ("name", t(&f.name)),
                            ("hash", t(&f.hash)),
                            ("size", Value::Unsigned(f.size)),
                            ("created_at", Value::Signed(f.created_at)),
                        ])
                    })
                    .collect(),
            ),
        ),
        (
            "recent_chats",
            Value::List(
                s.recent_chats
                    .iter()
                    .map(|c| {
                        Value::Object(vec![
                            ("id", t(&c.id)),
                            ("workspace_id", t(&c.workspace_id)),
                            ("message", t(&c.message)),
                            ("author", t(&c.author)),
                            ("parent_id", o(&c.parent_id)),
                            ("timestamp", Value::Signed(c.timestamp)),
                        ])
                    })
                    .collect(),
            ),
        ),
        ("snapshot_ts", Value::Unsigned(s.snapshot_ts)),
    ])
}

#[test]
fn snapshots_match() {
    for text in awkward() {
        let snapshot = full_snapshot(&text);
        assert_eq!(snapshot_text(&snapshot), compact(&snapshot_value(&snapshot)));
    }
    let empty = GroupSnapshot::empty("g");
    assert_eq!(snapshot_text(&empty), compact(&snapshot_value(&empty)));
    let full = full_snapshot("x");
    let copy = full.clone();
    assert_eq!(snapshot_text(&copy), snapshot_text(&full));
}

#[test]
fn messages_match() {
    for text in awkward() {
        let message = SwarmMessage::WhoHas { hash: text.clone(), requester_node_id: text.clone() };
        let value = Value::Object(vec![
            ("type", t("WhoHas")),
            ("hash", t(&text)),
            ("requester_node_id", t(&text)),
        ]);
        assert_eq!(message.text(), compact(&value));
        let message = SnapshotMessage::SnapshotAvailable {
            group_id: text.clone(),
            provider_node_id: text.clone(),
            item_count: u32::MAX,
            latest_ts: 0,
        };
        let value = Value::Object(vec![
            ("type", t("SnapshotAvailable")),
            ("group_id", t(&text)),
            ("provider_node_id", t(&text)),
            ("item_count", Value::Unsigned(u64::from(u32::MAX))),
            ("latest_ts", Value::Unsigned(0)),
        ]);
        assert_eq!(message.text(), compact(&value));
    }
}

#[test]
fn introductions_match() {
    let peers = awkward();
    let mut map = serde_json::Map::new();
    map.insert("msg_type".to_string(), serde_json::Value::from("peer_introduction"));
    map.insert("group_id".to_string(), serde_json::Value::from("g\""));
    map.insert("peers".to_string(), serde_json::Value::from(peers.clone()));
    assert_eq!(introduction_text("g\"", &peers), serde_json::Value::Object(map).to_string());
}

#[test]
fn raw_events_match() {
    for text in awkward() {
        let s = || text.clone();
        let raw = RawEvent {
            id: s(),
            group_id: s(),
            workspace_id: s(),
            source: s(),
            content_kind: s(),
            external_id: s(),
            content: s(),
            author_id: s(),
            author_name: s(),
            url: s(),
            title: Some(s()),
            thread_id: None,
            parent_id: Some(s()),
            ts: 1,
            captured_at: 2,
        };
        let value = Value::Object(vec![
            ("id", t(&text)),
            ("group_id", t(&text)),
            ("workspace_id", t(&text)),
            ("source", t(&text)),
            ("content_kind", t(&text)),
            ("external_id", t(&text)),
            ("content", t(&text)),
            ("author_id", t(&text)),
            ("author_name", t(&text)),
            ("url", t(&text)),
            ("title", t(&text)),
            ("thread_id", Value::Null),
            ("parent_id", t(&text)),
            ("ts", Value::Unsigned(1)),
            ("captured_at", Value::Unsigned(2)),
        ]);
        assert_eq!(raw_event_text(&raw), compact(&value));
    }
}

#[test]
fn white_space_is_what_unicode_says() {
    for n in 0..=0x10ffff {
        if let Some(c) = char::from_u32(n) {
            assert_eq!(white_space(c), c.is_whitespace(), "U+{n:04X}");
        }
    }
    for text in ["", " ", "x", " x ", "\u{85}\u{2029}", "\u{feff}"] {
        assert_eq!(blank(text), text.trim().is_empty());
    }
}

#[test]
fn numbers_are_written_in_decimal() {
    for n in [0, 1, 9, 10, 19, 100, 1_700_000_000, u64::MAX] {
        assert_eq!(decimal_text(n), n.to_string());
    }
    for n in [0, -1, 7, -10, i64::MIN, i64::MIN + 1, i64::MAX] {
        assert_eq!(signed_decimal_text(n), n.to_string());
    }
}

#[test]
fn texts_are_compared_and_joined() {
    assert!(same_text("", ""));
    assert!(same_text("é🌀", "é🌀"));
    assert!(!same_text("a", "b"));
    assert!(!same_text("a", "ab"));
    assert_eq!(joined("a", "é"), "aé");
}
