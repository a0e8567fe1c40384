//! What stands in the JSON values that are written, by key.

use vstd::prelude::*;

use crate::bridge::{
    board_created_content, element_content, file_content, group_created_content,
    named_action_content, raw_event_value, Group, RawEventModel,
};
use crate::discovery::introduction;
use crate::events::{event_value, id_value, EventModel};
use crate::json::{optional, text_list, Json};
use crate::rendezvous::{
    bootstrap_value, config_value, signed_value, ConfigModel, SignedRendezvousConfig,
};
use crate::snapshot::SnapshotMessage;
use crate::snapshot_data::{
    board_value, boards_value, chat_value, chats_value, file_value, files_value, group_value,
    snapshot_value, workspace_value, workspaces_value, BoardDataModel, ChatDataModel,
    FileDataModel, GroupDataModel, GroupSnapshotModel, WorkspaceDataModel,
};
use crate::swarm::MessageModel;

verus! {

/// The keys of the members of an object, in their order.
pub open spec fn keys_of(members: Seq<(Seq<char>, Json)>) -> Seq<Seq<char>> {
    members.map_values(|m: (Seq<char>, Json)| m.0)
}

/// An optional text is that text, or `null`; a list of texts has each of them in its place.
pub proof fn law_texts_and_lists(o: Option<Seq<char>>, list: Seq<Seq<char>>)
    ensures
        o is Some ==> optional(o) == Json::Text(o->0),
        o is None ==> optional(o) is Null,
        text_list(list) is List,
        text_list(list)->List_0.len() == list.len(),
        forall|i: int|
            0 <= i < list.len() ==> #[trigger] text_list(list)->List_0[i] == Json::Text(list[i]),
{
}

/// An event is written with its identifier, payload, source and time.
pub proof fn law_event_members(e: EventModel)
    ensures
        ({
            let m = event_value(e)->Object_0;
            &&& event_value(e) is Object
            &&& m.len() == 4
            &&& keys_of(m) == seq!["id"@, "payload"@, "source"@, "ts"@]
            &&& m.contains(("id"@, Json::Text(e.id)))
            &&& m.contains(("payload"@, Json::Text(e.payload)))
            &&& m.contains(("source"@, Json::Text(e.source)))
            &&& m.contains(("ts"@, Json::Number(e.ts as int)))
        }),
{
    let m = event_value(e)->Object_0;
    assert(m[0] == ("id"@, Json::Text(e.id)));
    assert(m[1] == ("payload"@, Json::Text(e.payload)));
    assert(m[2] == ("source"@, Json::Text(e.source)));
    assert(m[3] == ("ts"@, Json::Number(e.ts as int)));
    assert(keys_of(m) =~= seq!["id"@, "payload"@, "source"@, "ts"@]);
}

/// An identifier is the digest of payload, source and time.
pub proof fn law_id_members(payload: Seq<char>, source: Seq<char>, ts: u64)
    ensures
        ({
            let m = id_value(payload, source, ts)->Object_0;
            &&& id_value(payload, source, ts) is Object
            &&& m.len() == 3
            &&& keys_of(m) == seq!["payload"@, "source"@, "ts"@]
            &&& m.contains(("payload"@, Json::Text(payload)))
            &&& m.contains(("source"@, Json::Text(source)))
            &&& m.contains(("ts"@, Json::Number(ts as int)))
        }),
{
    let m = id_value(payload, source, ts)->Object_0;
    assert(m[0] == ("payload"@, Json::Text(payload)));
    assert(m[1] == ("source"@, Json::Text(source)));
    assert(m[2] == ("ts"@, Json::Number(ts as int)));
    assert(keys_of(m) =~= seq!["payload"@, "source"@, "ts"@]);
}

/// A raw event is written with each of its fields under its name.
pub proof fn law_raw_event_members(e: RawEventModel)
    ensures
        ({
            let m = raw_event_value(e)->Object_0;
            &&& raw_event_value(e) is Object
            &&& m.len() == 15
            &&& keys_of(m) == seq![
                "id"@, "group_id"@, "workspace_id"@, "source"@, "content_kind"@, "external_id"@,
                "content"@, "author_id"@, "author_name"@, "url"@, "title"@, "thread_id"@,
                "parent_id"@, "ts"@, "captured_at"@,
            ]
            &&& m.contains(("id"@, Json::Text(e.id)))
            &&& m.contains(("group_id"@, Json::Text(e.group_id)))
            &&& m.contains(("workspace_id"@, Json::Text(e.workspace_id)))
            &&& m.contains(("source"@, Json::Text(e.source)))
            &&& m.contains(("content_kind"@, Json::Text(e.content_kind)))
            &&& m.contains(("external_id"@, Json::Text(e.external_id)))
            &&& m.contains(("content"@, Json::Text(e.content)))
            &&& m.contains(("author_id"@, Json::Text(e.author_id)))
            &&& m.contains(("author_name"@, Json::Text(e.author_name)))
            &&& m.contains(("url"@, Json::Text(e.url)))
            &&& m.contains(("title"@, optional(e.title)))
            &&& m.contains(("thread_id"@, optional(e.thread_id)))
            &&& m.contains(("parent_id"@, optional(e.parent_id)))
            &&& m.contains(("ts"@, Json::Number(e.ts as int)))
            &&& m.contains(("captured_at"@, Json::Number(e.captured_at as int)))
        }),
{
    let m = raw_event_value(e)->Object_0;
    assert(m[0] == ("id"@, Json::Text(e.id)));
    assert(m[1] == ("group_id"@, Json::Text(e.group_id)));
    assert(m[2] == ("workspace_id"@, Json::Text(e.workspace_id)));
    assert(m[3] == ("source"@, Json::Text(e.source)));
    assert(m[4] == ("content_kind"@, Json::Text(e.content_kind)));
    assert(m[5] == ("external_id"@, Json::Text(e.external_id)));
    assert(m[6] == ("content"@, Json::Text(e.content)));
    assert(m[7] == ("author_id"@, Json::Text(e.author_id)));
    assert(m[8] == ("author_name"@, Json::Text(e.author_name)));
    assert(m[9] == ("url"@, Json::Text(e.url)));
    assert(m[10] == ("title"@, optional(e.title)));
    assert(m[11] == ("thread_id"@, optional(e.thread_id)));
    assert(m[12] == ("parent_id"@, optional(e.parent_id)));
    assert(m[13] == ("ts"@, Json::Number(e.ts as int)));
    assert(m[14] == ("captured_at"@, Json::Number(e.captured_at as int)));
    assert(keys_of(m) =~= seq![
        "id"@, "group_id"@, "workspace_id"@, "source"@, "content_kind"@, "external_id"@,
        "content"@, "author_id"@, "author_name"@, "url"@, "title"@, "thread_id"@, "parent_id"@,
        "ts"@, "captured_at"@,
    ]);
}

/// A group is written with each of its fields under its name.
pub proof fn law_group_members(d: GroupDataModel)
    ensures
        ({
            let m = group_value(d)->Object_0;
            &&& group_value(d) is Object
            &&& m.len() == 5
            &&& keys_of(m) == seq!["id"@, "name"@, "icon"@, "color"@, "created_at"@]
            &&& m.contains(("id"@, Json::Text(d.id)))
            &&& m.contains(("name"@, Json::Text(d.name)))
            &&& m.contains(("icon"@, Json::Text(d.icon)))
            &&& m.contains(("color"@, Json::Text(d.color)))
            &&& m.contains(("created_at"@, Json::Number(d.created_at as int)))
        }),
{
    let m = group_value(d)->Object_0;
    assert(m[0] == ("id"@, Json::Text(d.id)));
    assert(m[1] == ("name"@, Json::Text(d.name)));
    assert(m[2] == ("icon"@, Json::Text(d.icon)));
    assert(m[3] == ("color"@, Json::Text(d.color)));
    assert(m[4] == ("created_at"@, Json::Number(d.created_at as int)));
    assert(keys_of(m) =~= seq!["id"@, "name"@, "icon"@, "color"@, "created_at"@]);
}

/// A workspace is written with each of its fields under its name.
pub proof fn law_workspace_members(d: WorkspaceDataModel)
    ensures
        ({
            let m = workspace_value(d)->Object_0;
            &&& workspace_value(d) is Object
            &&& m.len() == 4
            &&& keys_of(m) == seq!["id"@, "group_id"@, "name"@, "created_at"@]
            &&& m.contains(("id"@, Json::Text(d.id)))
            &&& m.contains(("group_id"@, Json::Text(d.group_id)))
            &&& m.contains(("name"@, Json::Text(d.name)))
            &&& m.contains(("created_at"@, Json::Number(d.created_at as int)))
        }),
{
    let m = workspace_value(d)->Object_0;
    assert(m[0] == ("id"@, Json::Text(d.id)));
    assert(m[1] == ("group_id"@, Json::Text(d.group_id)));
    assert(m[2] == ("name"@, Json::Text(d.name)));
    assert(m[3] == ("created_at"@, Json::Number(d.created_at as int)));
    assert(keys_of(m) =~= seq!["id"@, "group_id"@, "name"@, "created_at"@]);
}

/// A board is written with each of its fields under its name.
pub proof fn law_board_members(d: BoardDataModel)
    ensures
        ({
            let m = board_value(d)->Object_0;
            &&& board_value(d) is Object
            &&& m.len() == 5
            &&& keys_of(m) == seq!["id"@, "workspace_id"@, "name"@, "board_mode"@, "created_at"@]
            &&& m.contains(("id"@, Json::Text(d.id)))
            &&& m.contains(("workspace_id"@, Json::Text(d.workspace_id)))
            &&& m.contains(("name"@, Json::Text(d.name)))
            &&& m.contains(("board_mode"@, Json::Text(d.board_mode)))
            &&& m.contains(("created_at"@, Json::Number(d.created_at as int)))
        }),
{
    let m = board_value(d)->Object_0;
    assert(m[0] == ("id"@, Json::Text(d.id)));
    assert(m[1] == ("workspace_id"@, Json::Text(d.workspace_id)));
    assert(m[2] == ("name"@, Json::Text(d.name)));
    assert(m[3] == ("board_mode"@, Json::Text(d.board_mode)));
    assert(m[4] == ("created_at"@, Json::Number(d.created_at as int)));
    assert(keys_of(m) =~= seq!["id"@, "workspace_id"@, "name"@, "board_mode"@, "created_at"@]);
}

/// A file is written with each of its fields under its name.
pub proof fn law_file_members(d: FileDataModel)
    ensures
        ({
            let m = file_value(d)->Object_0;
            &&& file_value(d) is Object
            &&& m.len() == 8
            &&& keys_of(m) == seq![
                "id"@, "group_id"@, "workspace_id"@, "board_id"@, "name"@, "hash"@, "size"@,
                "created_at"@,
            ]
            &&& m.contains(("id"@, Json::Text(d.id)))
            &&& m.contains(("group_id"@, Json::Text(d.group_id)))
            &&& m.contains(("workspace_id"@, optional(d.workspace_id)))
            &&& m.contains(("board_id"@, optional(d.board_id)))
            &&& m.contains(("name"@, Json::Text(d.name)))
            &&& m.contains(("hash"@, Json::Text(d.hash)))
            &&& m.contains(("size"@, Json::Number(d.size as int)))
            &&& m.contains(("created_at"@, Json::Number(d.created_at as int)))
        }),
{
    let m = file_value(d)->Object_0;
    assert(m[0] == ("id"@, Json::Text(d.id)));
    assert(m[1] == ("group_id"@, Json::Text(d.group_id)));
    assert(m[2] == ("workspace_id"@, optional(d.workspace_id)));
    assert(m[3] == ("board_id"@, optional(d.board_id)));
    assert(m[4] == ("name"@, Json::Text(d.name)));
    assert(m[5] == ("hash"@, Json::Text(d.hash)));
    assert(m[6] == ("size"@, Json::Number(d.size as int)));
    assert(m[7] == ("created_at"@, Json::Number(d.created_at as int)));
    assert(keys_of(m) =~= seq![
        "id"@, "group_id"@, "workspace_id"@, "board_id"@, "name"@, "hash"@, "size"@,
        "created_at"@,
    ]);
}

/// A chat message is written with each of its fields under its name.
pub proof fn law_chat_members(d: ChatDataModel)
    ensures
        ({
            let m = chat_value(d)->Object_0;
            &&& chat_value(d) is Object
            &&& m.len() == 6
            &&& keys_of(m) == seq![
                "id"@, "workspace_id"@, "message"@, "author"@, "parent_id"@, "timestamp"@,
            ]
            &&& m.contains(("id"@, Json::Text(d.id)))
            &&& m.contains(("workspace_id"@, Json::Text(d.workspace_id)))
            &&& m.contains(("message"@, Json::Text(d.message)))
            &&& m.contains(("author"@, Json::Text(d.author)))
            &&& m.contains(("parent_id"@, optional(d.parent_id)))
            &&& m.contains(("timestamp"@, Json::Number(d.timestamp as int)))
        }),
{
    let m = chat_value(d)->Object_0;
    assert(m[0] == ("id"@, Json::Text(d.id)));
    assert(m[1] == ("workspace_id"@, Json::Text(d.workspace_id)));
    assert(m[2] == ("message"@, Json::Text(d.message)));
    assert(m[3] == ("author"@, Json::Text(d.author)));
    assert(m[4] == ("parent_id"@, optional(d.parent_id)));
    assert(m[5] == ("timestamp"@, Json::Number(d.timestamp as int)));
    assert(keys_of(m) =~= seq![
        "id"@, "workspace_id"@, "message"@, "author"@, "parent_id"@, "timestamp"@,
    ]);
}

/// A snapshot is written with each of its fields under its name.
pub proof fn law_snapshot_members(s: GroupSnapshotModel)
    ensures
        ({
            let m = snapshot_value(s)->Object_0;
            &&& snapshot_value(s) is Object
            &&& m.len() == 6
            &&& keys_of(m) == seq![
                "group"@, "workspaces"@, "boards"@, "files"@, "recent_chats"@, "snapshot_ts"@,
            ]
            &&& m.contains(("group"@, group_value(s.group)))
            &&& m.contains(("workspaces"@, workspaces_value(s.workspaces)))
            &&& m.contains(("boards"@, boards_value(s.boards)))
            &&& m.contains(("files"@, files_value(s.files)))
            &&& m.contains(("recent_chats"@, chats_value(s.recent_chats)))
            &&& m.contains(("snapshot_ts"@, Json::Number(s.snapshot_ts as int)))
        }),
{
    let m = snapshot_value(s)->Object_0;
    assert(m[0] == ("group"@, group_value(s.group)));
    assert(m[1] == ("workspaces"@, workspaces_value(s.workspaces)));
    assert(m[2] == ("boards"@, boards_value(s.boards)));
    assert(m[3] == ("files"@, files_value(s.files)));
    assert(m[4] == ("recent_chats"@, chats_value(s.recent_chats)));
    assert(m[5] == ("snapshot_ts"@, Json::Number(s.snapshot_ts as int)));
    assert(keys_of(m) =~= seq![
        "group"@, "workspaces"@, "boards"@, "files"@, "recent_chats"@, "snapshot_ts"@,
    ]);
}

/// The lists of a snapshot are written with each of their items in its place.
pub proof fn law_snapshot_lists(s: GroupSnapshotModel)
    ensures
        workspaces_value(s.workspaces) is List,
        workspaces_value(s.workspaces)->List_0.len() == s.workspaces.len(),
        forall|i: int|
            0 <= i < s.workspaces.len() ==> #[trigger] workspaces_value(s.workspaces)->List_0[i] == workspace_value(
                s.workspaces[i],
            ),
        boards_value(s.boards) is List,
        boards_value(s.boards)->List_0.len() == s.boards.len(),
        forall|i: int|
            0 <= i < s.boards.len() ==> #[trigger] boards_value(s.boards)->List_0[i] == board_value(
                s.boards[i],
            ),
        files_value(s.files) is List,
        files_value(s.files)->List_0.len() == s.files.len(),
        forall|i: int|
            0 <= i < s.files.len() ==> #[trigger] files_value(s.files)->List_0[i] == file_value(
                s.files[i],
            ),
        chats_value(s.recent_chats) is List,
        chats_value(s.recent_chats)->List_0.len() == s.recent_chats.len(),
        forall|i: int|
            0 <= i < s.recent_chats.len() ==> #[trigger] chats_value(s.recent_chats)->List_0[i] == chat_value(
                s.recent_chats[i],
            ),
{
}

/// A config is written with each of its fields under its name, and its node inside it.
pub proof fn law_config_members(c: ConfigModel)
    ensures
        ({
            let m = config_value(c)->Object_0;
            &&& config_value(c) is Object
            &&& m.len() == 5
            &&& keys_of(m) == seq!["env"@, "discovery_key"@, "bootstrap"@, "relay_url"@, "ts"@]
            &&& m.contains(("env"@, Json::Text(c.env)))
            &&& m.contains(("discovery_key"@, Json::Text(c.discovery_key)))
            &&& m.contains(("bootstrap"@, bootstrap_value(c)))
            &&& m.contains(("relay_url"@, optional(c.relay_url)))
            &&& m.contains(("ts"@, Json::Number(c.ts as int)))
        }),
{
    let m = config_value(c)->Object_0;
    assert(m[0] == ("env"@, Json::Text(c.env)));
    assert(m[1] == ("discovery_key"@, Json::Text(c.discovery_key)));
    assert(m[2] == ("bootstrap"@, bootstrap_value(c)));
    assert(m[3] == ("relay_url"@, optional(c.relay_url)));
    assert(m[4] == ("ts"@, Json::Number(c.ts as int)));
    assert(keys_of(m) =~= seq!["env"@, "discovery_key"@, "bootstrap"@, "relay_url"@, "ts"@]);
}

/// The node of a config is written with its identifier and its addresses.
pub proof fn law_bootstrap_members(c: ConfigModel)
    ensures
        ({
            let m = bootstrap_value(c)->Object_0;
            &&& bootstrap_value(c) is Object
            &&& m.len() == 2
            &&& keys_of(m) == seq!["node_id"@, "addr"@]
            &&& m.contains(("node_id"@, Json::Text(c.node_id)))
            &&& m.contains(("addr"@, text_list(c.addr)))
        }),
{
    let m = bootstrap_value(c)->Object_0;
    assert(m[0] == ("node_id"@, Json::Text(c.node_id)));
    assert(m[1] == ("addr"@, text_list(c.addr)));
    assert(keys_of(m) =~= seq!["node_id"@, "addr"@]);
}

/// A signed config is written with the config, its signer and its signature.
pub proof fn law_signed_members(s: SignedRendezvousConfig)
    ensures
        ({
            let m = signed_value(s)->Object_0;
            &&& signed_value(s) is Object
            &&& m.len() == 3
            &&& keys_of(m) == seq!["config"@, "signer"@, "signature"@]
            &&& m.contains(("config"@, config_value(s.config@)))
            &&& m.contains(("signer"@, Json::Text(s.signer@)))
            &&& m.contains(("signature"@, Json::Text(s.signature@)))
        }),
{
    let m = signed_value(s)->Object_0;
    assert(m[0] == ("config"@, config_value(s.config@)));
    assert(m[1] == ("signer"@, Json::Text(s.signer@)));
    assert(m[2] == ("signature"@, Json::Text(s.signature@)));
    assert(keys_of(m) =~= seq!["config"@, "signer"@, "signature"@]);
}

/// An introduction names its group and lists all the peers.
pub proof fn law_introduction_members(group_id: Seq<char>, peers: Seq<Seq<char>>)
    ensures
        ({
            let m = introduction(group_id, peers)->Object_0;
            &&& introduction(group_id, peers) is Object
            &&& m.len() == 3
            &&& keys_of(m) == seq!["group_id"@, "msg_type"@, "peers"@]
            &&& m.contains(("group_id"@, Json::Text(group_id)))
            &&& m.contains(("msg_type"@, Json::Text("peer_introduction"@)))
            &&& m.contains(("peers"@, text_list(peers)))
        }),
{
    let m = introduction(group_id, peers)->Object_0;
    assert(m[0] == ("group_id"@, Json::Text(group_id)));
    assert(m[1] == ("msg_type"@, Json::Text("peer_introduction"@)));
    assert(m[2] == ("peers"@, text_list(peers)));
    assert(keys_of(m) =~= seq!["group_id"@, "msg_type"@, "peers"@]);
}

/// An announcement says what it is, which blob it is about, and who holds it.
pub proof fn law_announcement_members(hash: Seq<char>, holder: Seq<char>)
    ensures
        ({
            let m = crate::swarm::message_value(MessageModel::IHave { hash, holder })->Object_0;
            &&& crate::swarm::message_value(MessageModel::IHave { hash, holder }) is Object
            &&& m.len() == 3
            &&& keys_of(m) == seq!["type"@, "hash"@, "holder_node_id"@]
            &&& m.contains(("type"@, Json::Text("IHave"@)))
            &&& m.contains(("hash"@, Json::Text(hash)))
            &&& m.contains(("holder_node_id"@, Json::Text(holder)))
        }),
{
    let m = crate::swarm::message_value(MessageModel::IHave { hash, holder })->Object_0;
    assert(m[0] == ("type"@, Json::Text("IHave"@)));
    assert(m[1] == ("hash"@, Json::Text(hash)));
    assert(m[2] == ("holder_node_id"@, Json::Text(holder)));
    assert(keys_of(m) =~= seq!["type"@, "hash"@, "holder_node_id"@]);
}

/// A question says what it is, which blob it is about, and who asks.
pub proof fn law_question_members(hash: Seq<char>, requester: Seq<char>)
    ensures
        ({
            let m = crate::swarm::message_value(MessageModel::WhoHas { hash, requester })->Object_0;
            &&& crate::swarm::message_value(MessageModel::WhoHas { hash, requester }) is Object
            &&& m.len() == 3
            &&& keys_of(m) == seq!["type"@, "hash"@, "requester_node_id"@]
            &&& m.contains(("type"@, Json::Text("WhoHas"@)))
            &&& m.contains(("hash"@, Json::Text(hash)))
            &&& m.contains(("requester_node_id"@, Json::Text(requester)))
        }),
{
    let m = crate::swarm::message_value(MessageModel::WhoHas { hash, requester })->Object_0;
    assert(m[0] == ("type"@, Json::Text("WhoHas"@)));
    assert(m[1] == ("hash"@, Json::Text(hash)));
    assert(m[2] == ("requester_node_id"@, Json::Text(requester)));
    assert(keys_of(m) =~= seq!["type"@, "hash"@, "requester_node_id"@]);
}

/// A request for a snapshot says what it is, of which group, who asks, and since when.
pub proof fn law_request_members(message: SnapshotMessage)
    requires
        message is RequestSnapshot,
    ensures
        ({
            let m = crate::snapshot::message_value(message)->Object_0;
            &&& crate::snapshot::message_value(message) is Object
            &&& m.len() == 4
            &&& keys_of(m) == seq!["type"@, "group_id"@, "requester_node_id"@, "since_ts"@]
            &&& m.contains(("type"@, Json::Text("RequestSnapshot"@)))
            &&& m.contains(("group_id"@, Json::Text(message->RequestSnapshot_group_id@)))
            &&& m.contains(("requester_node_id"@, Json::Text(message->requester_node_id@)))
            &&& m.contains(("since_ts"@, Json::Number(message->since_ts as int)))
        }),
{
    let m = crate::snapshot::message_value(message)->Object_0;
    assert(m[0] == ("type"@, Json::Text("RequestSnapshot"@)));
    assert(m[1] == ("group_id"@, Json::Text(message->RequestSnapshot_group_id@)));
    assert(m[2] == ("requester_node_id"@, Json::Text(message->requester_node_id@)));
    assert(m[3] == ("since_ts"@, Json::Number(message->since_ts as int)));
    assert(keys_of(m) =~= seq!["type"@, "group_id"@, "requester_node_id"@, "since_ts"@]);
}

/// An offer of a snapshot says what it is, of which group, who offers it, how much is in it, and
/// how recent it is.
pub proof fn law_offer_members(message: SnapshotMessage)
    requires
        message is SnapshotAvailable,
    ensures
        ({
            let m = crate::snapshot::message_value(message)->Object_0;
            &&& crate::snapshot::message_value(message) is Object
            &&& m.len() == 5
            &&& keys_of(m) == seq![
                "type"@, "group_id"@, "provider_node_id"@, "item_count"@, "latest_ts"@,
            ]
            &&& m.contains(("type"@, Json::Text("SnapshotAvailable"@)))
            &&& m.contains(("group_id"@, Json::Text(message->SnapshotAvailable_group_id@)))
            &&& m.contains(("provider_node_id"@, Json::Text(message->provider_node_id@)))
            &&& m.contains(("item_count"@, Json::Number(message->item_count as int)))
            &&& m.contains(("latest_ts"@, Json::Number(message->latest_ts as int)))
        }),
{
    let m = crate::snapshot::message_value(message)->Object_0;
    assert(m[0] == ("type"@, Json::Text("SnapshotAvailable"@)));
    assert(m[1] == ("group_id"@, Json::Text(message->SnapshotAvailable_group_id@)));
    assert(m[2] == ("provider_node_id"@, Json::Text(message->provider_node_id@)));
    assert(m[3] == ("item_count"@, Json::Number(message->item_count as int)));
    assert(m[4] == ("latest_ts"@, Json::Number(message->latest_ts as int)));
    assert(keys_of(m) =~= seq![
        "type"@, "group_id"@, "provider_node_id"@, "item_count"@, "latest_ts"@,
    ]);
}

/// The creation of a group is told with name, icon and color.
pub proof fn law_group_created_members(g: Group)
    ensures
        ({
            let m = group_created_content(g)->Object_0;
            &&& group_created_content(g) is Object
            &&& m.len() == 4
            &&& keys_of(m) == seq!["action"@, "color"@, "icon"@, "name"@]
            &&& m.contains(("action"@, Json::Text("created"@)))
            &&& m.contains(("name"@, Json::Text(g.name@)))
            &&& m.contains(("icon"@, Json::Text(g.icon@)))
            &&& m.contains(("color"@, Json::Text(g.color@)))
        }),
{
    let m = group_created_content(g)->Object_0;
    assert(m[0] == ("action"@, Json::Text("created"@)));
    assert(m[3] == ("name"@, Json::Text(g.name@)));
    assert(m[2] == ("icon"@, Json::Text(g.icon@)));
    assert(m[1] == ("color"@, Json::Text(g.color@)));
    assert(keys_of(m) =~= seq!["action"@, "color"@, "icon"@, "name"@]);
}

/// An action on something named is told with the action and the name.
pub proof fn law_named_action_members(action: Seq<char>, name: Seq<char>)
    ensures
        ({
            let m = named_action_content(action, name)->Object_0;
            &&& named_action_content(action, name) is Object
            &&& m.len() == 2
            &&& keys_of(m) == seq!["action"@, "name"@]
            &&& m.contains(("action"@, Json::Text(action)))
            &&& m.contains(("name"@, Json::Text(name)))
        }),
{
    let m = named_action_content(action, name)->Object_0;
    assert(m[0] == ("action"@, Json::Text(action)));
    assert(m[1] == ("name"@, Json::Text(name)));
    assert(keys_of(m) =~= seq!["action"@, "name"@]);
}

/// The creation of a board is told with its identifier and its name.
pub proof fn law_board_created_members(board_id: Seq<char>, name: Seq<char>)
    ensures
        ({
            let m = board_created_content(board_id, name)->Object_0;
            &&& board_created_content(board_id, name) is Object
            &&& m.len() == 3
            &&& keys_of(m) == seq!["action"@, "board_id"@, "name"@]
            &&& m.contains(("action"@, Json::Text("created"@)))
            &&& m.contains(("board_id"@, Json::Text(board_id)))
            &&& m.contains(("name"@, Json::Text(name)))
        }),
{
    let m = board_created_content(board_id, name)->Object_0;
    assert(m[0] == ("action"@, Json::Text("created"@)));
    assert(m[1] == ("board_id"@, Json::Text(board_id)));
    assert(m[2] == ("name"@, Json::Text(name)));
    assert(keys_of(m) =~= seq!["action"@, "board_id"@, "name"@]);
}

/// A file is told with its board, its name, its hash, its size and the peer that has it.
pub proof fn law_file_members_forwarded(board_id: Option<Seq<char>>, name: Seq<char>, hash: Seq<char>, size: u64, peer: Seq<char>)
    ensures
        ({
            let m = file_content(board_id, name, hash, size, peer)->Object_0;
            &&& file_content(board_id, name, hash, size, peer) is Object
            &&& m.len() == 5
            &&& keys_of(m) == seq!["board_id"@, "filename"@, "hash"@, "size"@, "source_peer"@]
            &&& m.contains(("board_id"@, optional(board_id)))
            &&& m.contains(("filename"@, Json::Text(name)))
            &&& m.contains(("hash"@, Json::Text(hash)))
            &&& m.contains(("size"@, Json::Number(size as int)))
            &&& m.contains(("source_peer"@, Json::Text(peer)))
        }),
{
    let m = file_content(board_id, name, hash, size, peer)->Object_0;
    assert(m[0] == ("board_id"@, optional(board_id)));
    assert(m[1] == ("filename"@, Json::Text(name)));
    assert(m[2] == ("hash"@, Json::Text(hash)));
    assert(m[3] == ("size"@, Json::Number(size as int)));
    assert(m[4] == ("source_peer"@, Json::Text(peer)));
    assert(keys_of(m) =~= seq!["board_id"@, "filename"@, "hash"@, "size"@, "source_peer"@]);
}

/// A new element is told with its board, its content and its type.
pub proof fn law_element_members(board_id: Seq<char>, content: Option<Seq<char>>, element_type: Seq<char>)
    ensures
        ({
            let m = element_content(board_id, content, element_type)->Object_0;
            &&& element_content(board_id, content, element_type) is Object
            &&& m.len() == 4
            &&& keys_of(m) == seq!["action"@, "board_id"@, "content"@, "element_type"@]
            &&& m.contains(("action"@, Json::Text("added"@)))
            &&& m.contains(("board_id"@, Json::Text(board_id)))
            &&& m.contains(("content"@, optional(content)))
            &&& m.contains(("element_type"@, Json::Text(element_type)))
        }),
{
    let m = element_content(board_id, content, element_type)->Object_0;
    assert(m[0] == ("action"@, Json::Text("added"@)));
    assert(m[1] == ("board_id"@, Json::Text(board_id)));
    assert(m[2] == ("content"@, optional(content)));
    assert(m[3] == ("element_type"@, Json::Text(element_type)));
    assert(keys_of(m) =~= seq!["action"@, "board_id"@, "content"@, "element_type"@]);
}

} // verus!
