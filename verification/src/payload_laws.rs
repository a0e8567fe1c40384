//! What the payloads of events mean, in terms of their members.

use vstd::prelude::*;
use vstd::utf8::encode_utf8;

use crate::json::{object_members, object_sections, JsonEntry, JsonPart};
use crate::snapshot_change::{
    change_in, change_of, chat_in, file_in, group_in, workspace_in, ChangeModel, Fields,
};
use crate::snapshot_data::{
    BoardDataModel, ChatDataModel, FileDataModel, GroupDataModel, GroupSnapshotModel,
    WorkspaceDataModel,
};
use crate::snapshot_read::{all_in, snapshot_in, snapshot_of, stored_board_in};

verus! {

/// Whether a member is there and is a text.
pub open spec fn has_text(f: Fields, key: Seq<char>, text: Seq<char>) -> bool {
    f.contains_key(key) && f[key].text == Some(text)
}

/// Whether a member is there and is a signed number.
pub open spec fn has_int(f: Fields, key: Seq<char>, n: i64) -> bool {
    f.contains_key(key) && f[key].int == Some(n)
}

/// Whether a member is there and is an unsigned number.
pub open spec fn has_uint(f: Fields, key: Seq<char>, n: u64) -> bool {
    f.contains_key(key) && f[key].uint == Some(n)
}

/// Whether a member is a text, or is missing or `null` where no text is meant.
pub open spec fn may_have_text(f: Fields, key: Seq<char>, text: Option<Seq<char>>) -> bool {
    if !f.contains_key(key) || f[key].null {
        text is None
    } else {
        text is Some && f[key].text == text
    }
}

/// Whether members say that they are the creation of a group, and say all of it.
pub open spec fn tells_group(f: Fields, d: GroupDataModel) -> bool {
    &&& has_text(f, "type"@, "GroupCreated"@)
    &&& has_text(f, "id"@, d.id) && has_text(f, "name"@, d.name)
    &&& has_text(f, "icon"@, d.icon) && has_text(f, "color"@, d.color)
    &&& has_int(f, "created_at"@, d.created_at)
}

/// Whether members say that they are the creation of a workspace, and say all of it.
pub open spec fn tells_workspace(f: Fields, d: WorkspaceDataModel) -> bool {
    &&& has_text(f, "type"@, "WorkspaceCreated"@)
    &&& has_text(f, "id"@, d.id) && has_text(f, "group_id"@, d.group_id)
    &&& has_text(f, "name"@, d.name) && has_int(f, "created_at"@, d.created_at)
}

/// Whether members say that they are the creation of a board. Such a board is free-form, and is as
/// old as can be where no time is given.
pub open spec fn tells_board(f: Fields, d: BoardDataModel) -> bool {
    &&& has_text(f, "type"@, "BoardCreated"@)
    &&& has_text(f, "id"@, d.id) && has_text(f, "workspace_id"@, d.workspace_id)
    &&& has_text(f, "name"@, d.name) && d.board_mode == "freeform"@
    &&& has_int(f, "created_at"@, d.created_at) || (d.created_at == 0 && (!f.contains_key(
        "created_at"@,
    ) || f["created_at"@].int is None))
}

/// Whether members say that a file is available, and say all of it.
pub open spec fn tells_file(f: Fields, d: FileDataModel) -> bool {
    &&& has_text(f, "type"@, "FileAvailable"@)
    &&& has_text(f, "id"@, d.id) && has_text(f, "group_id"@, d.group_id)
    &&& may_have_text(f, "workspace_id"@, d.workspace_id)
    &&& may_have_text(f, "board_id"@, d.board_id)
    &&& has_text(f, "name"@, d.name) && has_text(f, "hash"@, d.hash)
    &&& has_uint(f, "size"@, d.size) && has_int(f, "created_at"@, d.created_at)
}

/// Whether members say that a chat message was sent, and say all of it.
pub open spec fn tells_chat(f: Fields, d: ChatDataModel) -> bool {
    &&& has_text(f, "type"@, "ChatSent"@)
    &&& has_text(f, "id"@, d.id) && has_text(f, "workspace_id"@, d.workspace_id)
    &&& has_text(f, "message"@, d.message) && has_text(f, "author"@, d.author)
    &&& may_have_text(f, "parent_id"@, d.parent_id) && has_int(f, "timestamp"@, d.timestamp)
}

/// An event means for a snapshot exactly what its members tell, and nothing where they tell nothing
/// in full.
pub proof fn law_payloads_mean_what_they_tell(f: Fields)
    ensures
        forall|d: GroupDataModel| #[trigger]
            tells_group(f, d) <==> change_in(f) == ChangeModel::Group(d),
        forall|d: WorkspaceDataModel| #[trigger]
            tells_workspace(f, d) <==> change_in(f) == ChangeModel::Workspace(d),
        forall|d: BoardDataModel| #[trigger]
            tells_board(f, d) <==> change_in(f) == ChangeModel::Board(d),
        forall|d: FileDataModel| #[trigger]
            tells_file(f, d) <==> change_in(f) == ChangeModel::File(d),
        forall|d: ChatDataModel| #[trigger]
            tells_chat(f, d) <==> change_in(f) == ChangeModel::Chat(d),
{
    reveal_strlit("GroupCreated");
    reveal_strlit("WorkspaceCreated");
    reveal_strlit("BoardCreated");
    reveal_strlit("FileAvailable");
    reveal_strlit("ChatSent");
    assert("GroupCreated"@.len() == 12 && "BoardCreated"@.len() == 12);
    assert("GroupCreated"@[0] != "BoardCreated"@[0]);
    assert("WorkspaceCreated"@.len() == 16);
    assert("FileAvailable"@.len() == 13);
    assert("ChatSent"@.len() == 8);
}

/// A payload means what the members of its object tell; one that holds no object means nothing.
pub proof fn law_payloads_are_objects(payload: Seq<char>)
    ensures
        object_members(encode_utf8(payload)) is None ==> change_of(payload) is Nothing,
        object_members(encode_utf8(payload)) is Some ==> change_of(payload) == change_in(
            object_members(encode_utf8(payload))->0,
        ),
{
}

/// Whether the elements of a list are objects that each describe an item, one by one.
pub open spec fn describe<T>(
    list: Seq<JsonPart>,
    read: spec_fn(Fields) -> Option<T>,
    items: Seq<T>,
) -> bool {
    &&& list.len() == items.len()
    &&& forall|i: int|
        0 <= i < items.len() ==> (#[trigger] list[i]).object is Some && read(list[i].object->0)
            == Some(items[i])
}

/// A list is read where every element of it describes something, and then gives all of it in order.
pub proof fn law_lists_are_read<T>(
    list: Seq<JsonPart>,
    read: spec_fn(Fields) -> Option<T>,
    items: Seq<T>,
)
    ensures
        all_in(list, read) == Some(items) <==> describe(list, read, items),
    decreases list.len(),
{
    if list.len() == 0 {
        if describe(list, read, items) {
            assert(items =~= Seq::<T>::empty());
        }
    } else {
        let front = list.drop_last();
        let n = list.len() - 1;
        if items.len() > 0 {
            law_lists_are_read(front, read, items.drop_last());
        }
        if describe(list, read, items) {
            assert(list[n].object is Some && read(list[n].object->0) == Some(items[n]));
            assert forall|i: int| 0 <= i < n implies (#[trigger] front[i]).object is Some && read(
                front[i].object->0,
            ) == Some(items.drop_last()[i]) by {
                assert(front[i] == list[i]);
            }
            assert(describe(front, read, items.drop_last()));
            assert(items.drop_last().push(items[n]) =~= items);
        }
        if all_in(list, read) == Some(items) {
            let earlier = all_in(front, read)->0;
            assert(items.drop_last() =~= earlier);
            assert(describe(front, read, items.drop_last()));
            assert forall|i: int| 0 <= i < items.len() implies (#[trigger] list[i]).object is Some
                && read(list[i].object->0) == Some(items[i]) by {
                if i < n {
                    assert(front[i].object is Some);
                    assert(front[i] == list[i]);
                }
            }
        }
    }
}

/// Whether a section is there and is a list of objects that each describe an item, one by one.
pub open spec fn describes<T>(
    sections: Map<Seq<char>, JsonEntry>,
    key: Seq<char>,
    read: spec_fn(Fields) -> Option<T>,
    items: Seq<T>,
) -> bool {
    sections.contains_key(key) && sections[key].elements is Some && describe(
        sections[key].elements->0,
        read,
        items,
    )
}

/// A snapshot is read if and only if its sections describe all of it: the group, the four lists and
/// the time.
pub proof fn law_snapshots_are_read(
    sections: Map<Seq<char>, JsonEntry>,
    s: GroupSnapshotModel,
)
    ensures
        snapshot_in(sections) == Some(s) <==> {
            &&& sections.contains_key("group"@) && sections["group"@].object is Some && group_in(
                sections["group"@].object->0,
            ) == Some(s.group)
            &&& describes(sections, "workspaces"@, |f: Fields| workspace_in(f), s.workspaces)
            &&& describes(sections, "boards"@, |f: Fields| stored_board_in(f), s.boards)
            &&& describes(sections, "files"@, |f: Fields| file_in(f), s.files)
            &&& describes(sections, "recent_chats"@, |f: Fields| chat_in(f), s.recent_chats)
            &&& sections.contains_key("snapshot_ts"@) && sections["snapshot_ts"@].field.uint == Some(
                s.snapshot_ts,
            )
        },
{
    if sections.contains_key("workspaces"@) && sections["workspaces"@].elements is Some {
        law_lists_are_read(
            sections["workspaces"@].elements->0,
            |f: Fields| workspace_in(f),
            s.workspaces,
        );
    }
    if sections.contains_key("boards"@) && sections["boards"@].elements is Some {
        law_lists_are_read(
            sections["boards"@].elements->0,
            |f: Fields| stored_board_in(f),
            s.boards,
        );
    }
    if sections.contains_key("files"@) && sections["files"@].elements is Some {
        law_lists_are_read(sections["files"@].elements->0, |f: Fields| file_in(f), s.files);
    }
    if sections.contains_key("recent_chats"@) && sections["recent_chats"@].elements is Some {
        law_lists_are_read(
            sections["recent_chats"@].elements->0,
            |f: Fields| chat_in(f),
            s.recent_chats,
        );
    }
}

/// A text is read as a snapshot where the sections of its object describe one.
pub proof fn law_snapshots_are_objects(raw: Seq<u8>)
    ensures
        object_sections(raw, ""@) is None ==> snapshot_of(raw) is None,
        object_sections(raw, ""@) is Some ==> snapshot_of(raw) == snapshot_in(
            object_sections(raw, ""@)->0,
        ),
{
}

/// The items of a snapshot are what their members tell; that they are stored needs not be said.
pub proof fn law_stored_items_are_what_they_tell(
    f: Fields,
    g: GroupDataModel,
    w: WorkspaceDataModel,
    d: FileDataModel,
    c: ChatDataModel,
)
    ensures
        group_in(f) == Some(g) <==> has_text(f, "id"@, g.id) && has_text(f, "name"@, g.name)
            && has_text(f, "icon"@, g.icon) && has_text(f, "color"@, g.color) && has_int(
            f,
            "created_at"@,
            g.created_at,
        ),
        workspace_in(f) == Some(w) <==> has_text(f, "id"@, w.id) && has_text(
            f,
            "group_id"@,
            w.group_id,
        ) && has_text(f, "name"@, w.name) && has_int(f, "created_at"@, w.created_at),
        file_in(f) == Some(d) <==> has_text(f, "id"@, d.id) && has_text(f, "group_id"@, d.group_id)
            && may_have_text(f, "workspace_id"@, d.workspace_id) && may_have_text(
            f,
            "board_id"@,
            d.board_id,
        ) && has_text(f, "name"@, d.name) && has_text(f, "hash"@, d.hash) && has_uint(
            f,
            "size"@,
            d.size,
        ) && has_int(f, "created_at"@, d.created_at),
        chat_in(f) == Some(c) <==> has_text(f, "id"@, c.id) && has_text(
            f,
            "workspace_id"@,
            c.workspace_id,
        ) && has_text(f, "message"@, c.message) && has_text(f, "author"@, c.author)
            && may_have_text(f, "parent_id"@, c.parent_id) && has_int(f, "timestamp"@, c.timestamp),
{
}

/// A board in a snapshot is what its members tell, mode and time among them.
pub proof fn law_stored_boards_are_what_they_tell(f: Fields, d: BoardDataModel)
    ensures
        stored_board_in(f) == Some(d) <==> has_text(f, "id"@, d.id) && has_text(
            f,
            "workspace_id"@,
            d.workspace_id,
        ) && has_text(f, "name"@, d.name) && has_text(f, "board_mode"@, d.board_mode) && has_int(
            f,
            "created_at"@,
            d.created_at,
        ),
{
}

} // verus!
