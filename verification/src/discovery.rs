//! Discovery: the topics of a mesh, what its nodes say to each other on them, and what a node does
//! when another one tells it which groups it is in.

use vstd::prelude::*;
use vstd::utf8::{decode_utf8, encode_utf8, valid_utf8};

use crate::clock::{current_ts, is_now};
use crate::digest::{blake3_digest, blake3_of, digest_hex, lower_hex};
use crate::events::{Event, EventModel};
use crate::json::{
    by_section, find_section, object, object_sections, parts, read_sections, text_list,
    text_list_member, text_member, written, written_member, Json, JsonElement, JsonEntry, JsonPart,
    JsonSection,
};
use crate::json_unique::law_written_form_is_unique;
use crate::peers::{roster, PeerTracker, Rosters};
use crate::text::{joined, same_text, texts};

verus! {

// ---------------------------------------------------------------------------------------------
// Topics
// ---------------------------------------------------------------------------------------------

/// The text that names the discovery topic of a mesh.
pub open spec fn discovery_label(discovery_key: Seq<char>) -> Seq<char> {
    "cyan/discovery/"@ + discovery_key
}

/// The text that names the events topic of a mesh.
pub open spec fn events_label(discovery_key: Seq<char>) -> Seq<char> {
    "cyan/events/"@ + discovery_key
}

/// The text that names the topic of a group.
pub open spec fn group_label(group_id: Seq<char>) -> Seq<char> {
    "cyan/group/"@ + group_id
}

/// The identifier of a topic: the digest of its name.
pub open spec fn topic_id(label: Seq<char>) -> Seq<u8> {
    blake3_of(encode_utf8(label))
}

/// The identifier of the discovery topic of a mesh.
pub fn discovery_topic(discovery_key: &str) -> (r: [u8; 32])
    ensures
        r@ == topic_id(discovery_label(discovery_key@)),
{
    blake3_digest(joined("cyan/discovery/", discovery_key).as_str().as_bytes())
}

/// The identifier of the events topic of a mesh.
pub fn events_topic(discovery_key: &str) -> (r: [u8; 32])
    ensures
        r@ == topic_id(events_label(discovery_key@)),
{
    blake3_digest(joined("cyan/events/", discovery_key).as_str().as_bytes())
}

/// The identifier of the topic of a group.
pub fn group_topic(group_id: &str) -> (r: [u8; 32])
    ensures
        r@ == topic_id(group_label(group_id@)),
{
    blake3_digest(joined("cyan/group/", group_id).as_str().as_bytes())
}

/// Topics have different names unless they are of the same kind and of the same mesh or group.
pub proof fn law_topics_have_different_names(a: Seq<char>, b: Seq<char>)
    ensures
        discovery_label(a) == discovery_label(b) ==> a == b,
        events_label(a) == events_label(b) ==> a == b,
        group_label(a) == group_label(b) ==> a == b,
        discovery_label(a) != events_label(b),
        discovery_label(a) != group_label(b),
        events_label(a) != group_label(b),
{
    reveal_strlit("cyan/discovery/");
    reveal_strlit("cyan/events/");
    reveal_strlit("cyan/group/");
    assert(discovery_label(a).skip(15) =~= a);
    assert(discovery_label(b).skip(15) =~= b);
    assert(events_label(a).skip(12) =~= a);
    assert(events_label(b).skip(12) =~= b);
    assert(group_label(a).skip(11) =~= a);
    assert(group_label(b).skip(11) =~= b);
    assert(discovery_label(a)[5] == 'd');
    assert(events_label(a)[5] == 'e');
    assert(events_label(b)[5] == 'e');
    assert(group_label(b)[5] == 'g');
}

// ---------------------------------------------------------------------------------------------
// Events of a group
// ---------------------------------------------------------------------------------------------

/// The text that bytes give when what is not UTF-8 in them is replaced.
pub uninterp spec fn lossy_text(bytes: Seq<u8>) -> Seq<char>;

/// Reads bytes as text.
///
/// Calls `String::from_utf8_lossy`. Valid UTF-8 gives its text. Of other bytes the text is not
/// stated; it depends on the bytes alone.
#[verifier::external_body]
pub(crate) fn text_from_utf8(bytes: &[u8]) -> (r: String)
    ensures
        r@ == lossy_text(bytes@),
        valid_utf8(bytes@) ==> r@ == decode_utf8(bytes@),
{
    String::from_utf8_lossy(bytes).into_owned()
}

/// The source of events that come over the topic of a group.
pub open spec fn group_source(group_id: Seq<char>) -> Seq<char> {
    "group/"@ + group_id
}

/// The event that a message on the topic of a group becomes, given the text of the message.
pub open spec fn group_event_model(
    content: Seq<u8>,
    text: Seq<char>,
    group_id: Seq<char>,
    ts: u64,
) -> EventModel {
    EventModel {
        id: lower_hex(blake3_of(content)),
        payload: text,
        source: group_source(group_id),
        ts,
    }
}

/// The event that a message on the topic of a group becomes at the given time.
pub fn group_event_at(content: &[u8], group_id: &str, ts: u64) -> (r: Event)
    ensures
        r@ == group_event_model(content@, lossy_text(content@), group_id@, ts),
        valid_utf8(content@) ==> r@.payload == decode_utf8(content@),
{
    Event {
        id: digest_hex(blake3_digest(content)),
        payload: text_from_utf8(content),
        source: joined("group/", group_id),
        ts,
    }
}

/// The event that a message on the topic of a group becomes now.
pub fn group_event(content: &[u8], group_id: &str) -> (r: Event)
    ensures
        r@ == group_event_model(content@, lossy_text(content@), group_id@, r@.ts),
        is_now(r@.ts),
        valid_utf8(content@) ==> r@.payload == decode_utf8(content@),
{
    group_event_at(content, group_id, current_ts())
}

/// The group that an event came from: what follows `group/` in its source, or else its source.
pub open spec fn group_of_source(source: Seq<char>) -> Seq<char> {
    if "group/"@.is_prefix_of(source) {
        source.skip(6)
    } else {
        source
    }
}

/// The group that an event came from.
pub fn source_group(source: &str) -> (r: String)
    ensures
        r@ == group_of_source(source@),
{
    proof {
        reveal_strlit("group/");
    }
    let n: usize = source.unicode_len();
    if n < 6 {
        return source.to_owned();
    }
    let start: &str = source.substring_char(0, 6);
    if same_text(start, "group/") {
        assert("group/"@.is_prefix_of(source@));
        let rest: &str = source.substring_char(6, n);
        assert(rest@ =~= source@.skip(6));
        rest.to_owned()
    } else {
        assert(!"group/"@.is_prefix_of(source@));
        source.to_owned()
    }
}

/// The group of an event that came over the topic of a group is that group.
pub proof fn law_group_is_told_by_source(group_id: Seq<char>)
    ensures
        group_of_source(group_source(group_id)) == group_id,
{
    reveal_strlit("group/");
    assert("group/"@.is_prefix_of(group_source(group_id)));
    assert(group_source(group_id).skip(6) =~= group_id);
}

// ---------------------------------------------------------------------------------------------
// Reading what another node says
// ---------------------------------------------------------------------------------------------

/// What a message on the discovery topic says.
#[derive(Debug)]
pub enum DiscoveryMessage {
    /// Nothing that concerns this node.
    Ignored,
    /// An exchange of groups that does not say who it is from.
    MissingNodeId,
    /// An exchange of groups that names no groups.
    MissingLocalGroups,
    /// A node says which groups it is in.
    GroupsExchange { from_node: String, groups: Vec<String> },
}

/// The model of a [`DiscoveryMessage`].
pub enum DiscoveryModel {
    Ignored,
    MissingNodeId,
    MissingLocalGroups,
    GroupsExchange { from_node: Seq<char>, groups: Seq<Seq<char>> },
}

impl View for DiscoveryMessage {
    type V = DiscoveryModel;

    open spec fn view(&self) -> DiscoveryModel {
        match *self {
            DiscoveryMessage::Ignored => DiscoveryModel::Ignored,
            DiscoveryMessage::MissingNodeId => DiscoveryModel::MissingNodeId,
            DiscoveryMessage::MissingLocalGroups => DiscoveryModel::MissingLocalGroups,
            DiscoveryMessage::GroupsExchange { from_node, groups } => DiscoveryModel::GroupsExchange {
                from_node: from_node@,
                groups: texts(groups@),
            },
        }
    }
}

/// The texts among the elements of an array, in their order.
pub open spec fn texts_among(items: Seq<JsonPart>) -> Seq<Seq<char>>
    decreases items.len(),
{
    if items.len() == 0 {
        Seq::empty()
    } else {
        match items.last().text {
            Some(t) => texts_among(items.drop_last()).push(t),
            None => texts_among(items.drop_last()),
        }
    }
}

/// What a message with the given members says.
pub open spec fn discovery_in(entries: Map<Seq<char>, JsonEntry>) -> DiscoveryModel {
    if !entries.contains_key("msg_type"@) || entries["msg_type"@].field.text != Some(
        "groups_exchange"@,
    ) {
        DiscoveryModel::Ignored
    } else if !entries.contains_key("node_id"@) || entries["node_id"@].field.text is None {
        DiscoveryModel::MissingNodeId
    } else if !entries.contains_key("local_groups"@) || entries["local_groups"@].elements is None {
        DiscoveryModel::MissingLocalGroups
    } else {
        DiscoveryModel::GroupsExchange {
            from_node: entries["node_id"@].field.text->0,
            groups: texts_among(entries["local_groups"@].elements->0),
        }
    }
}

/// What a message says. One that is no JSON object does not concern this node.
pub open spec fn discovery_of(raw: Seq<u8>) -> DiscoveryModel {
    match object_sections(raw, ""@) {
        Some(entries) => discovery_in(entries),
        None => DiscoveryModel::Ignored,
    }
}

fn keep_texts(items: &Vec<JsonElement>) -> (r: Vec<String>)
    ensures
        texts(r@) == texts_among(parts(items@)),
{
    let ghost all = parts(items@);
    let mut r: Vec<String> = Vec::new();
    let mut i: usize = 0;
    assert(all.take(0) =~= Seq::<JsonPart>::empty());
    assert(texts(r@) =~= Seq::<Seq<char>>::empty());
    while i < items.len()
        invariant
            i <= items@.len(),
            all == parts(items@),
            texts(r@) == texts_among(all.take(i as int)),
        decreases items@.len() - i,
    {
        let ghost before = r@;
        assert(all.take(i + 1).drop_last() =~= all.take(i as int));
        match &items[i].text {
            Some(t) => {
                r.push(t.clone());
                assert(texts(r@) =~= texts(before).push(t@));
            },
            None => {},
        }
        i += 1;
    }
    assert(all.take(all.len() as int) =~= all);
    r
}

/// Reads what a message says from its members.
pub fn read_discovery(sections: &Vec<JsonSection>) -> (r: DiscoveryMessage)
    ensures
        r@ == discovery_in(by_section(sections@)),
{
    let is_exchange: bool = match find_section(sections, "msg_type") {
        Some(s) => match &s.member.text {
            Some(t) => same_text(t.as_str(), "groups_exchange"),
            None => false,
        },
        None => false,
    };
    if !is_exchange {
        return DiscoveryMessage::Ignored;
    }
    let from_node: String = match find_section(sections, "node_id") {
        Some(s) => match &s.member.text {
            Some(t) => t.clone(),
            None => return DiscoveryMessage::MissingNodeId,
        },
        None => return DiscoveryMessage::MissingNodeId,
    };
    match find_section(sections, "local_groups") {
        Some(s) => match &s.elements {
            Some(items) => DiscoveryMessage::GroupsExchange { from_node, groups: keep_texts(items) },
            None => DiscoveryMessage::MissingLocalGroups,
        },
        None => DiscoveryMessage::MissingLocalGroups,
    }
}

/// Reads what a message on the discovery topic says.
pub fn read_message(raw: &[u8]) -> (r: DiscoveryMessage)
    ensures
        r@ == discovery_of(raw@),
{
    match read_sections(raw, "") {
        Some(sections) => read_discovery(&sections),
        None => DiscoveryMessage::Ignored,
    }
}

// ---------------------------------------------------------------------------------------------
// Introductions
// ---------------------------------------------------------------------------------------------

/// The message that introduces the peers of a group to each other.
pub open spec fn introduction(group_id: Seq<char>, peers: Seq<Seq<char>>) -> Json {
    Json::Object(
        seq![
            ("group_id"@, Json::Text(group_id)),
            ("msg_type"@, Json::Text("peer_introduction"@)),
            ("peers"@, text_list(peers)),
        ],
    )
}

/// The introductions of groups, in the order of the groups. A group with one peer or none has
/// nobody to introduce.
pub open spec fn introductions(r: Rosters, groups: Seq<Seq<char>>) -> Seq<Seq<char>>
    decreases groups.len(),
{
    if groups.len() == 0 {
        Seq::empty()
    } else {
        let before = introductions(r, groups.drop_last());
        let peers = roster(r, groups.last());
        if peers.len() > 1 {
            before.push(written(introduction(groups.last(), peers)))
        } else {
            before
        }
    }
}

/// Writes the message that introduces the peers of a group to each other.
pub fn introduction_text(group_id: &str, peers: &Vec<String>) -> (r: String)
    ensures
        r@ == written(introduction(group_id@, texts(peers@))),
{
    let ghost v = introduction(group_id@, texts(peers@));
    let mut m: Vec<String> = Vec::new();
    m.push(text_member("group_id", group_id));
    m.push(text_member("msg_type", "peer_introduction"));
    m.push(text_list_member("peers", peers));
    assert(texts(m@) =~= v->Object_0.map_values(|m: (Seq<char>, Json)| written_member(m)));
    object(&m, Ghost(v))
}

/// Writes the introductions of groups: those that a peer has left, or all active ones.
pub fn introduction_texts(tracker: &PeerTracker, groups: &Vec<String>) -> (r: Vec<String>)
    requires
        tracker.wf(),
    ensures
        texts(r@) == introductions(tracker@, texts(groups@)),
{
    let ghost all = texts(groups@);
    let mut r: Vec<String> = Vec::new();
    let mut i: usize = 0;
    assert(all.take(0) =~= Seq::<Seq<char>>::empty());
    assert(texts(r@) =~= Seq::<Seq<char>>::empty());
    while i < groups.len()
        invariant
            i <= groups@.len(),
            tracker.wf(),
            all == texts(groups@),
            texts(r@) == introductions(tracker@, all.take(i as int)),
        decreases groups@.len() - i,
    {
        let ghost before = r@;
        assert(all.take(i + 1).drop_last() =~= all.take(i as int));
        let peers: Vec<String> = tracker.get_peers(groups[i].as_str());
        assert(texts(peers@).len() == peers@.len());
        if peers.len() > 1 {
            let text: String = introduction_text(groups[i].as_str(), &peers);
            r.push(text);
            assert(texts(r@) =~= texts(before).push(text@));
        }
        i += 1;
    }
    assert(all.take(all.len() as int) =~= all);
    r
}

/// What a node says from time to time: the introductions of all groups in which somebody is online.
pub fn announcements(tracker: &PeerTracker) -> (r: Vec<String>)
    requires
        tracker.wf(),
    ensures
        exists|groups: Seq<Seq<char>>|
            {
                &&& groups.no_duplicates()
                &&& forall|g: Seq<char>| #[trigger]
                    groups.contains(g) <==> roster(tracker@, g).len() > 0
                &&& texts(r@) == #[trigger] introductions(tracker@, groups)
            },
{
    let groups: Vec<String> = tracker.get_active_groups();
    introduction_texts(tracker, &groups)
}

/// A group is introduced if and only if at least two of its peers are online, whichever list of
/// groups it stands in.
pub proof fn law_introductions(r: Rosters, groups: Seq<Seq<char>>, group_id: Seq<char>)
    requires
        groups.contains(group_id),
    ensures
        introductions(r, groups).contains(written(introduction(group_id, roster(r, group_id))))
            <==> roster(r, group_id).len() > 1,
    decreases groups.len(),
{
    lemma_introduced(r, groups, written(introduction(group_id, roster(r, group_id))));
    let text = written(introduction(group_id, roster(r, group_id)));
    if roster(r, group_id).len() > 1 {
        let i = choose|i: int| 0 <= i < groups.len() && groups[i] == group_id;
        assert(groups[i] == group_id);
    } else if introductions(r, groups).contains(text) {
        let i = choose|i: int|
            0 <= i < groups.len() && roster(r, #[trigger] groups[i]).len() > 1 && text == written(
                introduction(groups[i], roster(r, groups[i])),
            );
        law_written_form_is_unique(
            introduction(group_id, roster(r, group_id)),
            introduction(groups[i], roster(r, groups[i])),
        );
        let x = introduction(group_id, roster(r, group_id))->Object_0;
        let y = introduction(groups[i], roster(r, groups[i]))->Object_0;
        assert(x[0] == y[0]);
    }
}

proof fn lemma_introduced(r: Rosters, groups: Seq<Seq<char>>, text: Seq<char>)
    ensures
        introductions(r, groups).contains(text) <==> exists|i: int|
            0 <= i < groups.len() && roster(r, #[trigger] groups[i]).len() > 1 && text == written(
                introduction(groups[i], roster(r, groups[i])),
            ),
    decreases groups.len(),
{
    if groups.len() > 0 {
        let front = groups.drop_last();
        let last = groups.last();
        lemma_introduced(r, front, text);
        let before = introductions(r, front);
        let after = introductions(r, groups);
        if after.contains(text) {
            let k = choose|k: int| 0 <= k < after.len() && after[k] == text;
            if k < before.len() {
                assert(before[k] == text);
                let i = choose|i: int|
                    0 <= i < front.len() && roster(r, #[trigger] front[i]).len() > 1 && text
                        == written(introduction(front[i], roster(r, front[i])));
                assert(groups[i] == front[i]);
            } else {
                assert(groups[groups.len() - 1] == last);
            }
        }
        if exists|i: int|
            0 <= i < groups.len() && roster(r, #[trigger] groups[i]).len() > 1 && text == written(
                introduction(groups[i], roster(r, groups[i])),
            ) {
            let i = choose|i: int|
                0 <= i < groups.len() && roster(r, #[trigger] groups[i]).len() > 1 && text
                    == written(introduction(groups[i], roster(r, groups[i])));
            if i < front.len() {
                assert(front[i] == groups[i]);
                let k = choose|k: int| 0 <= k < before.len() && before[k] == text;
                assert(after[k] == text);
            } else {
                assert(after[after.len() - 1] == text);
            }
        }
    }
}

} // verus!
