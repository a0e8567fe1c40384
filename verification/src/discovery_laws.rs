//! What is said on the topics of a mesh, and what it means.

use vstd::prelude::*;
use vstd::utf8::encode_utf8;

use crate::digest::{blake3_of, lower_hex};
use crate::discovery::{
    discovery_in, discovery_label, discovery_of, events_label, group_event_model, group_label,
    group_of_source, group_source, introduction, introductions, texts_among, topic_id,
    DiscoveryModel,
};
use crate::json::{object_sections, written, JsonEntry, JsonPart};
use crate::json_unique::law_written_form_is_unique;
use crate::peers::{roster, Rosters};

verus! {

/// Topics are the digests of what they are called: what they are for, and the key of the mesh or the
/// identifier of the group.
pub proof fn law_topics_are_digests(name: Seq<char>)
    ensures
        topic_id(discovery_label(name)) == blake3_of(encode_utf8("cyan/discovery/"@ + name)),
        topic_id(events_label(name)) == blake3_of(encode_utf8("cyan/events/"@ + name)),
        topic_id(group_label(name)) == blake3_of(encode_utf8("cyan/group/"@ + name)),
{
}

/// A message on the topic of a group becomes an event that is named by the digest of its bytes and
/// carries its text, its group and the time.
pub proof fn law_group_messages_become_events(
    content: Seq<u8>,
    text: Seq<char>,
    group_id: Seq<char>,
    ts: u64,
)
    ensures
        ({
            let e = group_event_model(content, text, group_id, ts);
            &&& e.id == lower_hex(blake3_of(content))
            &&& e.payload == text
            &&& e.source == "group/"@ + group_id
            &&& e.ts == ts
            &&& group_of_source(e.source) == group_id
        }),
{
    crate::discovery::law_group_is_told_by_source(group_id);
}

/// A source that does not start with `group/` stands for itself.
pub proof fn law_other_sources_stand_for_themselves(source: Seq<char>)
    ensures
        group_of_source(source) != source ==> source == "group/"@ + group_of_source(source),
        (forall|group_id: Seq<char>| source != #[trigger] group_source(group_id))
            ==> group_of_source(source) == source,
{
    reveal_strlit("group/");
    if "group/"@.is_prefix_of(source) {
        assert(source =~= "group/"@ + source.skip(6));
        assert(source == group_source(source.skip(6)));
    }
}

/// The texts of a list are kept in their order, and everything else is left out.
pub proof fn law_texts_are_kept(items: Seq<JsonPart>)
    ensures
        texts_among(items) == items.filter(|p: JsonPart| p.text is Some).map_values(
            |p: JsonPart| p.text->0,
        ),
    decreases items.len(),
{
    reveal(Seq::filter);
    let is_text = |p: JsonPart| p.text is Some;
    let text = |p: JsonPart| p.text->0;
    if items.len() == 0 {
        assert(texts_among(items) =~= items.filter(is_text).map_values(text));
    } else {
        law_texts_are_kept(items.drop_last());
        assert(texts_among(items) =~= items.filter(is_text).map_values(text));
    }
}

/// Whether a member is there and is a text.
pub open spec fn says(entries: Map<Seq<char>, JsonEntry>, key: Seq<char>, text: Seq<char>) -> bool {
    entries.contains_key(key) && entries[key].field.text == Some(text)
}

/// Whether a member is there and is a list.
pub open spec fn lists(
    entries: Map<Seq<char>, JsonEntry>,
    key: Seq<char>,
    items: Seq<JsonPart>,
) -> bool {
    entries.contains_key(key) && entries[key].elements == Some(items)
}

/// A message is an exchange of groups if and only if it says so, names its node and lists groups;
/// it is from that node and about the texts of that list. One that says so and names no node lacks
/// the node, whatever else it lacks; one that names a node and lists no groups lacks the groups; and
/// one that does not say so is passed over.
pub proof fn law_exchanges_are_read(
    entries: Map<Seq<char>, JsonEntry>,
    from_node: Seq<char>,
    items: Seq<JsonPart>,
)
    ensures
        says(entries, "msg_type"@, "groups_exchange"@) && says(entries, "node_id"@, from_node)
            && lists(entries, "local_groups"@, items) ==> discovery_in(entries) == (
        DiscoveryModel::GroupsExchange { from_node, groups: texts_among(items) }),
        discovery_in(entries) matches DiscoveryModel::GroupsExchange { from_node: n, groups: g } ==> {
            &&& says(entries, "msg_type"@, "groups_exchange"@)
            &&& says(entries, "node_id"@, n)
            &&& entries.contains_key("local_groups"@) && entries["local_groups"@].elements is Some
        },
        discovery_in(entries) is Ignored <==> !says(entries, "msg_type"@, "groups_exchange"@),
        discovery_in(entries) is MissingNodeId <==> says(
            entries,
            "msg_type"@,
            "groups_exchange"@,
        ) && !(exists|n: Seq<char>| #[trigger] says(entries, "node_id"@, n)),
        discovery_in(entries) is MissingLocalGroups <==> says(
            entries,
            "msg_type"@,
            "groups_exchange"@,
        ) && (exists|n: Seq<char>| #[trigger] says(entries, "node_id"@, n)) && !(exists|
            i: Seq<JsonPart>,
        | #[trigger] lists(entries, "local_groups"@, i)),
{
    if entries.contains_key("node_id"@) && entries["node_id"@].field.text is Some {
        assert(says(entries, "node_id"@, entries["node_id"@].field.text->0));
    }
    if entries.contains_key("local_groups"@) && entries["local_groups"@].elements is Some {
        assert(lists(entries, "local_groups"@, entries["local_groups"@].elements->0));
    }
}

/// A message means what the members of its object say; one that is no object is passed over.
pub proof fn law_messages_are_objects(raw: Seq<u8>)
    ensures
        object_sections(raw, ""@) is None ==> discovery_of(raw) is Ignored,
        object_sections(raw, ""@) is Some ==> discovery_of(raw) == discovery_in(
            object_sections(raw, ""@)->0,
        ),
{
}

/// Of the groups those with two or more peers are introduced, in their order, each by a message that
/// names the group and lists all its peers.
pub proof fn law_groups_are_introduced_in_order(r: Rosters, groups: Seq<Seq<char>>)
    ensures
        introductions(r, groups) == groups.filter(|g: Seq<char>| roster(r, g).len() >= 2).map_values(
            |g: Seq<char>| written(introduction(g, roster(r, g))),
        ),
    decreases groups.len(),
{
    reveal(Seq::filter);
    let many = |g: Seq<char>| roster(r, g).len() >= 2;
    let message = |g: Seq<char>| written(introduction(g, roster(r, g)));
    if groups.len() == 0 {
        assert(introductions(r, groups) =~= groups.filter(many).map_values(message));
    } else {
        law_groups_are_introduced_in_order(r, groups.drop_last());
        assert(introductions(r, groups) =~= groups.filter(many).map_values(message));
    }
}

/// An introduction tells its group and its peers: no two of them read alike.
pub proof fn law_introductions_tell_their_group(
    a: Seq<char>,
    b: Seq<char>,
    peers: Seq<Seq<char>>,
    others: Seq<Seq<char>>,
)
    requires
        written(introduction(a, peers)) == written(introduction(b, others)),
    ensures
        a == b,
        peers == others,
{
    let v = introduction(a, peers);
    let w = introduction(b, others);
    law_written_form_is_unique(v, w);
    let x = v->Object_0;
    let y = w->Object_0;
    assert(x[0] == y[0] && x[2] == y[2]);
    let p = crate::json::text_list(peers)->List_0;
    let q = crate::json::text_list(others)->List_0;
    assert(p.len() == peers.len() && q.len() == others.len());
    assert forall|i: int| 0 <= i < peers.len() implies peers[i] == others[i] by {
        assert(p[i] == crate::json::Json::Text(peers[i]));
        assert(q[i] == crate::json::Json::Text(others[i]));
    }
    assert(peers =~= others);
}

} // verus!
