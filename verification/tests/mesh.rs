//! Events, peers, discovery and exchanges of groups.

use xaeroflux::discovery::{
    announcements, discovery_topic, events_topic, group_event, group_event_at, group_topic,
    introduction_text, introduction_texts, read_discovery, read_message, source_group,
    DiscoveryMessage,
};
use xaeroflux::events::{event_text, on_received, on_stored};
use xaeroflux::exchange::{Exchange, ExchangeAction, ExchangeEvent, Introducer};
use xaeroflux::json::{JsonElement, JsonMember, JsonSection};
use xaeroflux::peers::{
    offline_write, offline_write_at, prune_write, prune_write_at, upsert_write, upsert_write_at,
    PeerTracker, PeerWrite,
};
use xaeroflux::{generate_event_id, Event};

fn strings(list: &[&str]) -> Vec<String> {
    list.iter().map(|s| s.to_string()).collect()
}

fn row(group: &str, peer: &str) -> (String, String) {
    (group.to_string(), peer.to_string())
}

fn node(seed: u8) -> String {
    iroh::SecretKey::from_bytes(&[seed; 32]).public().to_string()
}

fn blake3_hex(text: &str) -> String {
    blake3::hash(text.as_bytes()).to_hex().to_string()
}

// ---- events ----

#[test]
fn event_ids_hash_payload_source_and_time() {
    assert_eq!(
        generate_event_id("hello", "node", 1_700_000_000),
        blake3_hex("{\"payload\":\"hello\",\"source\":\"node\",\"ts\":1700000000}")
    );
    assert_eq!(
        generate_event_id("", "", 0),
        blake3_hex("{\"payload\":\"\",\"source\":\"\",\"ts\":0}")
    );
    assert_eq!(
        generate_event_id("é\"", "🌀", u64::MAX),
        blake3_hex("{\"payload\":\"é\\\"\",\"source\":\"🌀\",\"ts\":18446744073709551615}")
    );
    assert_eq!(generate_event_id("a", "b", 1).len(), 64);
}

#[test]
fn event_ids_tell_events_apart() {
    assert_ne!(generate_event_id("ab", "c", 1), generate_event_id("a", "bc", 1));
    assert_ne!(generate_event_id("a", "b", 15), generate_event_id("a", "b1", 5));
    let source = node(1);
    let shifted = format!("{}1", &source[1..]);
    let payload = format!("p{}", &source[..1]);
    assert_ne!(generate_event_id("p", &source, 15), generate_event_id(&payload, &shifted, 5));
    assert_ne!(
        generate_event_id("a\",\"source\":\"b", "c", 1),
        generate_event_id("a", "b\",\"source\":\"c", 1)
    );
    assert_eq!(generate_event_id("a", "b", 1), generate_event_id("a", "b", 1));
}

#[test]
fn events_are_written_in_field_order() {
    let event = Event {
        id: "i".to_string(),
        payload: "{\"a\":1}".to_string(),
        source: "s".to_string(),
        ts: 10,
    };
    assert_eq!(
        event_text(&event),
        "{\"id\":\"i\",\"payload\":\"{\\\"a\\\":1}\",\"source\":\"s\",\"ts\":10}"
    );
    let copy = event.clone();
    assert_eq!(event_text(&copy), event_text(&event));
}

#[test]
fn own_events_are_not_stored_again() {
    let event = Event {
        id: "i".to_string(),
        payload: "p".to_string(),
        source: "me".to_string(),
        ts: 1,
    };
    assert!(!on_received("me", &event));
    assert!(on_received("you", &event));
    assert!(on_stored(1));
    assert!(!on_stored(0));
}

#[test]
fn an_event_is_delivered_once() {
    let event = |id: &str, source: &str| Event {
        id: id.to_string(),
        payload: "p".to_string(),
        source: source.to_string(),
        ts: 1,
    };
    let received =
        vec![event("1", "a"), event("2", "me"), event("1", "a"), event("3", "b"), event("1", "c")];
    let mut table: Vec<String> = vec!["3".to_string()];
    let mut delivered: Vec<String> = vec![];
    for e in &received {
        if on_received("me", e) {
            let rows = if table.contains(&e.id) { 0 } else { 1 };
            if rows > 0 {
                table.push(e.id.clone());
            }
            if on_stored(rows) {
                delivered.push(e.id.clone());
            }
        }
    }
    assert_eq!(delivered, strings(&["1"]));
}

// ---- peers ----

#[test]
fn rosters_follow_the_rows() {
    let mut tracker = PeerTracker::new();
    assert_eq!(tracker.stats(), (0, 0));
    tracker.record_peer("old", "x");
    tracker.load_cache(&vec![row("g1", "a"), row("g2", "b"), row("g1", "c")]);
    assert_eq!(tracker.get_peers("g1"), strings(&["a", "c"]));
    assert_eq!(tracker.get_peers("g2"), strings(&["b"]));
    assert!(tracker.get_peers("old").is_empty());
    assert_eq!(tracker.stats(), (2, 3));
}

#[test]
fn peers_come_and_go() {
    let mut tracker = PeerTracker::new();
    tracker.record_peer("g1", "a");
    tracker.record_peer("g1", "b");
    tracker.record_peer("g1", "a");
    tracker.record_peer("g2", "a");
    assert_eq!(tracker.get_peers("g1"), strings(&["a", "b"]));
    let mut active = tracker.get_active_groups();
    active.sort();
    assert_eq!(active, strings(&["g1", "g2"]));
    let mut left = tracker.forget_peer("a");
    left.sort();
    assert_eq!(left, strings(&["g1", "g2"]));
    assert!(tracker.forget_peer("a").is_empty(), "it was gone already");
    assert_eq!(tracker.get_peers("g1"), strings(&["b"]));
    assert!(tracker.get_peers("g2").is_empty());
    assert_eq!(tracker.get_active_groups(), strings(&["g1"]));
    assert_eq!(tracker.stats(), (2, 1));
}

#[test]
fn the_table_is_written_as_peers_show_up() {
    match upsert_write_at("g", "p", true, 5) {
        (PeerWrite::Touch { group_id, peer_id, now }, false) => {
            assert_eq!((group_id.as_str(), peer_id.as_str(), now), ("g", "p", 5));
        }
        other => panic!("{other:?}"),
    }
    match upsert_write_at("g", "p", false, 5) {
        (PeerWrite::Insert { group_id, peer_id, now }, true) => {
            assert_eq!((group_id.as_str(), peer_id.as_str(), now), ("g", "p", 5));
        }
        other => panic!("{other:?}"),
    }
    assert!(matches!(
        upsert_write("g", "p", false),
        (PeerWrite::Insert { now, .. }, true) if now > 1_600_000_000
    ));
    match offline_write_at("p", 7) {
        PeerWrite::Offline { peer_id, now } => assert_eq!((peer_id.as_str(), now), ("p", 7)),
        other => panic!("{other:?}"),
    }
    assert!(matches!(offline_write("p"), PeerWrite::Offline { now, .. } if now > 1_600_000_000));
}

#[test]
fn the_cutoff_lies_back_by_the_age() {
    let cutoff = |write: PeerWrite| match write {
        PeerWrite::Prune { cutoff } => cutoff,
        other => panic!("{other:?}"),
    };
    assert_eq!(cutoff(prune_write_at(1000, 300)), 700);
    assert_eq!(cutoff(prune_write_at(0, 300)), -300);
    assert_eq!(cutoff(prune_write_at(i64::MIN, 1)), i64::MIN);
    assert_eq!(cutoff(prune_write_at(i64::MAX, u64::MAX)), i64::MIN);
    assert!(cutoff(prune_write(300)) > 1_600_000_000);
}

// ---- discovery ----

#[test]
fn topics_are_digests_of_their_names() {
    assert_eq!(&discovery_topic("k"), blake3::hash(b"cyan/discovery/k").as_bytes());
    assert_eq!(&events_topic("k"), blake3::hash(b"cyan/events/k").as_bytes());
    assert_eq!(&group_topic("g1"), blake3::hash(b"cyan/group/g1").as_bytes());
    assert_ne!(discovery_topic("k"), events_topic("k"));
    assert_ne!(group_topic("g1"), group_topic("g2"));
}

#[test]
fn group_messages_become_events() {
    let event = group_event_at(b"{\"x\":1}", "g1", 9);
    assert_eq!(event.id, blake3_hex("{\"x\":1}"));
    assert_eq!(event.payload, "{\"x\":1}");
    assert_eq!(event.source, "group/g1");
    assert_eq!(event.ts, 9);
    let broken = group_event_at(&[b'a', 0xff, b'b'], "g1", 9);
    assert_eq!(broken.payload, "a\u{fffd}b");
    assert!(group_event(b"x", "g1").ts > 1_600_000_000);
}

#[test]
fn groups_are_told_by_the_source() {
    assert_eq!(source_group("group/g1"), "g1");
    assert_eq!(source_group("group/"), "");
    assert_eq!(source_group("group/group/x"), "group/x");
    assert_eq!(source_group("group"), "group");
    assert_eq!(source_group("groups/g1"), "groups/g1");
    assert_eq!(source_group("ünique"), "ünique");
    assert_eq!(source_group(&group_event_at(b"x", "a/b", 0).source), "a/b");
}

#[test]
fn exchanges_are_read() {
    let raw = b"{\"msg_type\":\"groups_exchange\",\"node_id\":\"n\",\"local_groups\":[\"a\",1,\"b\"]}";
    match read_message(raw) {
        DiscoveryMessage::GroupsExchange { from_node, groups } => {
            assert_eq!(from_node, "n");
            assert_eq!(groups, strings(&["a", "b"]));
        }
        other => panic!("{other:?}"),
    }
    let ignored: [&[u8]; 5] =
        [b"", b"[]", b"abc", b"{\"msg_type\":\"peer_introduction\"}", b"{\"msg_type\":1}"];
    for raw in ignored {
        assert!(matches!(read_message(raw), DiscoveryMessage::Ignored));
    }
    assert!(matches!(
        read_message(b"{\"msg_type\":\"groups_exchange\",\"local_groups\":[]}"),
        DiscoveryMessage::MissingNodeId
    ));
    assert!(matches!(
        read_message(b"{\"msg_type\":\"groups_exchange\",\"node_id\":\"n\",\"local_groups\":\"a\"}"),
        DiscoveryMessage::MissingLocalGroups
    ));
}

#[test]
fn exchanges_are_read_from_members() {
    let section = |key: &str, text: Option<&str>, elements: Option<Vec<Option<&str>>>| JsonSection {
        member: JsonMember {
            key: key.to_string(),
            text: text.map(|t| t.to_string()),
            int: None,
            uint: None,
            null: false,
        },
        object: None,
        elements: elements.map(|list| {
            list.iter()
                .map(|e| JsonElement { text: e.map(|t| t.to_string()), object: None })
                .collect()
        }),
    };
    let sections = vec![
        section("local_groups", None, Some(vec![Some("g"), None])),
        section("msg_type", Some("groups_exchange"), None),
        section("node_id", Some("n"), None),
    ];
    match read_discovery(&sections) {
        DiscoveryMessage::GroupsExchange { from_node, groups } => {
            assert_eq!(from_node, "n");
            assert_eq!(groups, strings(&["g"]));
        }
        other => panic!("{other:?}"),
    }
    assert!(matches!(
        read_discovery(&vec![section("msg_type", Some("groups_exchange"), None)]),
        DiscoveryMessage::MissingNodeId
    ));
}

#[test]
fn introductions_list_the_peers() {
    let text = introduction_text("g1", &strings(&["a", "b"]));
    assert_eq!(text, "{\"group_id\":\"g1\",\"msg_type\":\"peer_introduction\",\"peers\":[\"a\",\"b\"]}");
    let mut tracker = PeerTracker::new();
    tracker.load_cache(&vec![row("g1", "a"), row("g1", "b"), row("g2", "a")]);
    assert_eq!(introduction_texts(&tracker, &strings(&["g2", "g1", "g3"])), vec![text.clone()]);
    assert_eq!(announcements(&tracker), vec![text]);
    tracker.forget_peer("b");
    assert!(announcements(&tracker).is_empty());
}

// ---- exchange ----

#[test]
fn an_exchange_subscribes_writes_and_introduces() {
    let mut tracker = PeerTracker::new();
    tracker.record_peer("g1", "somebody");
    let mut introducer = Introducer::new(tracker);
    let from = node(1);
    let key = *iroh::SecretKey::from_bytes(&[1; 32]).public().as_bytes();
    let mut exchange = Exchange::start(from.clone(), strings(&["g1", "g2"]));

    match introducer.action(&exchange) {
        ExchangeAction::Subscribe { group_id, topic, peers } => {
            assert_eq!(group_id, "g1");
            assert_eq!(topic, group_topic("g1"));
            assert_eq!(peers, vec![key]);
        }
        other => panic!("{other:?}"),
    }
    introducer.on_event(&mut exchange, ExchangeEvent::Topic(true));
    match introducer.action(&exchange) {
        ExchangeAction::Lookup { group_id, peer_id } => {
            assert_eq!((group_id.as_str(), peer_id.as_str()), ("g1", from.as_str()));
        }
        other => panic!("{other:?}"),
    }
    introducer.on_event(&mut exchange, ExchangeEvent::Found(false));
    match introducer.action(&exchange) {
        ExchangeAction::Write { group_id, exists_already, .. } => {
            assert_eq!(group_id, "g1");
            assert!(!exists_already);
        }
        other => panic!("{other:?}"),
    }
    introducer.on_event(&mut exchange, ExchangeEvent::Written(true));
    introducer.on_event(&mut exchange, ExchangeEvent::Topic(false));
    introducer.on_event(&mut exchange, ExchangeEvent::Found(true));
    introducer.on_event(&mut exchange, ExchangeEvent::Written(true));
    match introducer.action(&exchange) {
        ExchangeAction::Broadcast { messages } => {
            let peers = vec!["somebody".to_string(), from.clone()];
            assert_eq!(messages, vec![introduction_text("g1", &peers)]);
        }
        other => panic!("{other:?}"),
    }
    assert_eq!(introducer.tracker().get_peers("g2"), vec![from.clone()]);

    let again = Exchange::start(from.clone(), strings(&["g1"]));
    assert!(matches!(
        introducer.action(&again),
        ExchangeAction::Join { group_id, peer } if group_id == "g1" && peer == key
    ));
    let retry = Exchange::start(from, strings(&["g2"]));
    assert!(matches!(introducer.action(&retry), ExchangeAction::Subscribe { .. }));
}

#[test]
fn a_node_without_a_key_is_still_written_down() {
    let mut introducer = Introducer::new(PeerTracker::new());
    let mut exchange = Exchange::start("nameless".to_string(), strings(&["g", "g"]));
    match introducer.action(&exchange) {
        ExchangeAction::Subscribe { peers, .. } => assert!(peers.is_empty()),
        other => panic!("{other:?}"),
    }
    introducer.on_event(&mut exchange, ExchangeEvent::Topic(true));
    introducer.on_event(&mut exchange, ExchangeEvent::Found(false));
    introducer.on_event(&mut exchange, ExchangeEvent::Written(true));
    assert!(matches!(introducer.action(&exchange), ExchangeAction::Proceed));
    introducer.on_event(&mut exchange, ExchangeEvent::Topic(true));
    introducer.on_event(&mut exchange, ExchangeEvent::Found(true));
    introducer.on_event(&mut exchange, ExchangeEvent::Written(true));
    match introducer.action(&exchange) {
        ExchangeAction::Broadcast { messages } => assert!(messages.is_empty()),
        other => panic!("{other:?}"),
    }
    assert_eq!(introducer.tracker().get_peers("g"), strings(&["nameless"]));
}

#[test]
fn a_peer_that_could_not_be_written_down_is_passed_over() {
    let mut introducer = Introducer::new(PeerTracker::new());
    let mut exchange = Exchange::start_with("n".to_string(), Some([3; 32]), strings(&["g"]));
    introducer.on_event(&mut exchange, ExchangeEvent::Written(true));
    introducer.on_event(&mut exchange, ExchangeEvent::Topic(true));
    introducer.on_event(&mut exchange, ExchangeEvent::Found(true));
    introducer.on_event(&mut exchange, ExchangeEvent::Written(false));
    match introducer.action(&exchange) {
        ExchangeAction::Broadcast { messages } => assert!(messages.is_empty()),
        other => panic!("{other:?}"),
    }
    assert!(introducer.tracker().get_peers("g").is_empty());
}

#[test]
fn an_exchange_without_groups_has_ended() {
    let introducer = Introducer::new(PeerTracker::new());
    let exchange = Exchange::start(node(1), vec![]);
    assert!(matches!(
        introducer.action(&exchange),
        ExchangeAction::Broadcast { messages } if messages.is_empty()
    ));
}

#[test]
fn departures_and_reloads_change_the_rosters() {
    let mut introducer = Introducer::new(PeerTracker::new());
    introducer.reload(&vec![row("g", "a"), row("g", "b"), row("g", "c")]);
    let left = introducer.on_departure("b", &strings(&["g"]));
    assert_eq!(left, vec![introduction_text("g", &strings(&["a", "c"]))]);
    introducer.reload(&vec![]);
    assert_eq!(introducer.tracker().stats(), (0, 0));
}
