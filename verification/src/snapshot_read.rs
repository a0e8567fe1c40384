//! Reading snapshots from the text that they are written as.

use vstd::prelude::*;
use vstd::utf8::encode_utf8;

use crate::json::{
    by_key, by_section, distinct_keys, entries_of, entry_of, field_of, fields_of, find_section,
    is_tame, is_text_of, lemma_value_of, object_at, object_of, object_sections, part_of, parts,
    read_sections, written, Json, JsonElement, JsonEntry, JsonMember, JsonPart, JsonSection,
    READ_DEPTH,
};
use crate::snapshot_change::{
    chat_in, field_int, field_text, file_in, group_in, int_at, read_chat, read_file, read_group,
    read_workspace, text_at, workspace_in, Fields, SnapshotChange,
};
use crate::snapshot_data::{
    board_value, boards_value, chat_value, chats_value, file_value, files_value, group_value,
    snapshot_value, workspace_value, workspaces_value, BoardData, BoardDataModel, ChatData,
    ChatDataModel, FileData, FileDataModel, GroupData, GroupDataModel, GroupSnapshot,
    GroupSnapshotModel, WorkspaceData, WorkspaceDataModel,
};

verus! {

/// The board that the members of a board in a snapshot describe.
pub open spec fn stored_board_in(f: Fields) -> Option<BoardDataModel> {
    match (
        field_text(f, "id"@),
        field_text(f, "workspace_id"@),
        field_text(f, "name"@),
        field_text(f, "board_mode"@),
        field_int(f, "created_at"@),
    ) {
        (Some(id), Some(workspace_id), Some(name), Some(board_mode), Some(created_at)) => Some(
            BoardDataModel { id, workspace_id, name, board_mode, created_at },
        ),
        _ => None,
    }
}

/// What the elements of a list describe, where each of them is an object that describes something.
pub open spec fn all_in<T>(
    list: Seq<JsonPart>,
    read: spec_fn(Fields) -> Option<T>,
) -> Option<Seq<T>>
    decreases list.len(),
{
    if list.len() == 0 {
        Some(Seq::empty())
    } else {
        match (all_in(list.drop_last(), read), list.last().object) {
            (Some(earlier), Some(fields)) => match read(fields) {
                Some(item) => Some(earlier.push(item)),
                None => None,
            },
            _ => None,
        }
    }
}

/// The entry of a section, where there is one.
pub open spec fn section(sections: Map<Seq<char>, JsonEntry>, key: Seq<char>) -> Option<JsonEntry> {
    if sections.contains_key(key) {
        Some(sections[key])
    } else {
        None
    }
}

/// What the elements of a section describe, where it is a list of objects of which each describes
/// something.
pub open spec fn list_in<T>(
    sections: Map<Seq<char>, JsonEntry>,
    key: Seq<char>,
    read: spec_fn(Fields) -> Option<T>,
) -> Option<Seq<T>> {
    match section(sections, key) {
        Some(e) => match e.elements {
            Some(list) => all_in(list, read),
            None => None,
        },
        None => None,
    }
}

/// The group that the object of a section describes.
pub open spec fn group_section(sections: Map<Seq<char>, JsonEntry>) -> Option<GroupDataModel> {
    match section(sections, "group"@) {
        Some(e) => match e.object {
            Some(fields) => group_in(fields),
            None => None,
        },
        None => None,
    }
}

/// The time in a section.
pub open spec fn time_section(sections: Map<Seq<char>, JsonEntry>) -> Option<u64> {
    match section(sections, "snapshot_ts"@) {
        Some(e) => e.field.uint,
        None => None,
    }
}

/// The snapshot that the sections of an object describe.
pub open spec fn snapshot_in(sections: Map<Seq<char>, JsonEntry>) -> Option<GroupSnapshotModel> {
    match (
        group_section(sections),
        list_in(sections, "workspaces"@, |f: Fields| workspace_in(f)),
        list_in(sections, "boards"@, |f: Fields| stored_board_in(f)),
        list_in(sections, "files"@, |f: Fields| file_in(f)),
        list_in(sections, "recent_chats"@, |f: Fields| chat_in(f)),
        time_section(sections),
    ) {
        (
            Some(group),
            Some(workspaces),
            Some(boards),
            Some(files),
            Some(recent_chats),
            Some(snapshot_ts),
        ) => Some(
            GroupSnapshotModel { group, workspaces, boards, files, recent_chats, snapshot_ts },
        ),
        _ => None,
    }
}

/// The snapshot that a text describes.
pub open spec fn snapshot_of(raw: Seq<u8>) -> Option<GroupSnapshotModel> {
    match object_sections(raw, ""@) {
        Some(sections) => snapshot_in(sections),
        None => None,
    }
}

// ---------------------------------------------------------------------------------------------
// The code
// ---------------------------------------------------------------------------------------------

fn read_stored_board(m: &Vec<JsonMember>) -> (r: Option<BoardData>)
    ensures
        match r {
            Some(b) => stored_board_in(by_key(m@)) == Some(b@),
            None => stored_board_in(by_key(m@)) is None,
        },
{
    match (
        text_at(m, "id"),
        text_at(m, "workspace_id"),
        text_at(m, "name"),
        text_at(m, "board_mode"),
        int_at(m, "created_at"),
    ) {
        (Some(id), Some(workspace_id), Some(name), Some(board_mode), Some(created_at)) => Some(
            BoardData { id, workspace_id, name, board_mode, created_at },
        ),
        _ => None,
    }
}

fn read_stored_workspace(m: &Vec<JsonMember>) -> (r: Option<WorkspaceData>)
    ensures
        match r {
            Some(d) => workspace_in(by_key(m@)) == Some(d@),
            None => workspace_in(by_key(m@)) is None,
        },
{
    match read_workspace(m) {
        SnapshotChange::Workspace(d) => Some(d),
        _ => None,
    }
}

fn read_stored_file(m: &Vec<JsonMember>) -> (r: Option<FileData>)
    ensures
        match r {
            Some(d) => file_in(by_key(m@)) == Some(d@),
            None => file_in(by_key(m@)) is None,
        },
{
    match read_file(m) {
        SnapshotChange::File(d) => Some(d),
        _ => None,
    }
}

fn read_stored_chat(m: &Vec<JsonMember>) -> (r: Option<ChatData>)
    ensures
        match r {
            Some(d) => chat_in(by_key(m@)) == Some(d@),
            None => chat_in(by_key(m@)) is None,
        },
{
    match read_chat(m) {
        SnapshotChange::Chat(d) => Some(d),
        _ => None,
    }
}

/// A list that fails to read up to a point fails to read as a whole.
proof fn lemma_failure_stays<T>(list: Seq<JsonPart>, read: spec_fn(Fields) -> Option<T>, i: int)
    requires
        0 <= i <= list.len(),
        all_in(list.take(i), read) is None,
    ensures
        all_in(list, read) is None,
    decreases list.len() - i,
{
    if i == list.len() {
        assert(list.take(i) =~= list);
    } else {
        assert(list.take(i + 1).drop_last() =~= list.take(i));
        lemma_failure_stays(list, read, i + 1);
    }
}

fn read_stored_workspaces(list: &Vec<JsonElement>) -> (r: Option<Vec<WorkspaceData>>)
    ensures
        ({
            let read = all_in(
                parts(list@),
                |f: Fields| workspace_in(f),
            );
            match r {
                Some(items) => read == Some(items@.map_values(|d: WorkspaceData| d@)),
                None => read is None,
            }
        }),
{
    let ghost all = parts(list@);
    let ghost read = |f: Fields| workspace_in(f);
    let mut r: Vec<WorkspaceData> = Vec::new();
    let mut i: usize = 0;
    assert(all.take(0) =~= Seq::<JsonPart>::empty());
    assert(r@.map_values(|d: WorkspaceData| d@) =~= Seq::<WorkspaceDataModel>::empty());
    while i < list.len()
        invariant
            i <= list@.len(),
            all == parts(list@),
            read == (|f: Fields| workspace_in(f)),
            all_in(all.take(i as int), read) == Some(r@.map_values(|d: WorkspaceData| d@)),
        decreases list@.len() - i,
    {
        assert(all.take(i + 1).drop_last() =~= all.take(i as int));
        let item: Option<WorkspaceData> = match &list[i].object {
            Some(m) => read_stored_workspace(m),
            None => None,
        };
        match item {
            Some(d) => {
                let ghost before = r@;
                r.push(d);
                assert(r@.map_values(|d: WorkspaceData| d@) =~= before.map_values(|d: WorkspaceData| d@).push(d@));
            },
            None => {
                proof {
                    lemma_failure_stays(all, read, i + 1);
                }
                return None;
            },
        }
        i += 1;
    }
    assert(all.take(all.len() as int) =~= all);
    Some(r)
}

fn read_stored_boards(list: &Vec<JsonElement>) -> (r: Option<Vec<BoardData>>)
    ensures
        ({
            let read = all_in(
                parts(list@),
                |f: Fields| stored_board_in(f),
            );
            match r {
                Some(items) => read == Some(items@.map_values(|d: BoardData| d@)),
                None => read is None,
            }
        }),
{
    let ghost all = parts(list@);
    let ghost read = |f: Fields| stored_board_in(f);
    let mut r: Vec<BoardData> = Vec::new();
    let mut i: usize = 0;
    assert(all.take(0) =~= Seq::<JsonPart>::empty());
    assert(r@.map_values(|d: BoardData| d@) =~= Seq::<BoardDataModel>::empty());
    while i < list.len()
        invariant
            i <= list@.len(),
            all == parts(list@),
            read == (|f: Fields| stored_board_in(f)),
            all_in(all.take(i as int), read) == Some(r@.map_values(|d: BoardData| d@)),
        decreases list@.len() - i,
    {
        assert(all.take(i + 1).drop_last() =~= all.take(i as int));
        let item: Option<BoardData> = match &list[i].object {
            Some(m) => read_stored_board(m),
            None => None,
        };
        match item {
            Some(d) => {
                let ghost before = r@;
                r.push(d);
                assert(r@.map_values(|d: BoardData| d@) =~= before.map_values(|d: BoardData| d@).push(d@));
            },
            None => {
                proof {
                    lemma_failure_stays(all, read, i + 1);
                }
                return None;
            },
        }
        i += 1;
    }
    assert(all.take(all.len() as int) =~= all);
    Some(r)
}

fn read_stored_files(list: &Vec<JsonElement>) -> (r: Option<Vec<FileData>>)
    ensures
        ({
            let read = all_in(
                parts(list@),
                |f: Fields| file_in(f),
            );
            match r {
                Some(items) => read == Some(items@.map_values(|d: FileData| d@)),
                None => read is None,
            }
        }),
{
    let ghost all = parts(list@);
    let ghost read = |f: Fields| file_in(f);
    let mut r: Vec<FileData> = Vec::new();
    let mut i: usize = 0;
    assert(all.take(0) =~= Seq::<JsonPart>::empty());
    assert(r@.map_values(|d: FileData| d@) =~= Seq::<FileDataModel>::empty());
    while i < list.len()
        invariant
            i <= list@.len(),
            all == parts(list@),
            read == (|f: Fields| file_in(f)),
            all_in(all.take(i as int), read) == Some(r@.map_values(|d: FileData| d@)),
        decreases list@.len() - i,
    {
        assert(all.take(i + 1).drop_last() =~= all.take(i as int));
        let item: Option<FileData> = match &list[i].object {
            Some(m) => read_stored_file(m),
            None => None,
        };
        match item {
            Some(d) => {
                let ghost before = r@;
                r.push(d);
                assert(r@.map_values(|d: FileData| d@) =~= before.map_values(|d: FileData| d@).push(d@));
            },
            None => {
                proof {
                    lemma_failure_stays(all, read, i + 1);
                }
                return None;
            },
        }
        i += 1;
    }
    assert(all.take(all.len() as int) =~= all);
    Some(r)
}

fn read_stored_chats(list: &Vec<JsonElement>) -> (r: Option<Vec<ChatData>>)
    ensures
        ({
            let read = all_in(
                parts(list@),
                |f: Fields| chat_in(f),
            );
            match r {
                Some(items) => read == Some(items@.map_values(|d: ChatData| d@)),
                None => read is None,
            }
        }),
{
    let ghost all = parts(list@);
    let ghost read = |f: Fields| chat_in(f);
    let mut r: Vec<ChatData> = Vec::new();
    let mut i: usize = 0;
    assert(all.take(0) =~= Seq::<JsonPart>::empty());
    assert(r@.map_values(|d: ChatData| d@) =~= Seq::<ChatDataModel>::empty());
    while i < list.len()
        invariant
            i <= list@.len(),
            all == parts(list@),
            read == (|f: Fields| chat_in(f)),
            all_in(all.take(i as int), read) == Some(r@.map_values(|d: ChatData| d@)),
        decreases list@.len() - i,
    {
        assert(all.take(i + 1).drop_last() =~= all.take(i as int));
        let item: Option<ChatData> = match &list[i].object {
            Some(m) => read_stored_chat(m),
            None => None,
        };
        match item {
            Some(d) => {
                let ghost before = r@;
                r.push(d);
                assert(r@.map_values(|d: ChatData| d@) =~= before.map_values(|d: ChatData| d@).push(d@));
            },
            None => {
                proof {
                    lemma_failure_stays(all, read, i + 1);
                }
                return None;
            },
        }
        i += 1;
    }
    assert(all.take(all.len() as int) =~= all);
    Some(r)
}

fn elements_at<'a>(sections: &'a Vec<JsonSection>, key: &str) -> (r: Option<&'a Vec<JsonElement>>)
    ensures
        match section(by_section(sections@), key@) {
            Some(e) => match e.elements {
                Some(list) => r is Some && list == parts(r->0@),
                None => r is None,
            },
            None => r is None,
        },
{
    match find_section(sections, key) {
        Some(s) => match &s.elements {
            Some(list) => Some(list),
            None => None,
        },
        None => None,
    }
}

fn read_stored_group(sections: &Vec<JsonSection>) -> (r: Option<GroupData>)
    ensures
        match r {
            Some(g) => group_section(by_section(sections@)) == Some(g@),
            None => group_section(by_section(sections@)) is None,
        },
{
    match find_section(sections, "group") {
        Some(s) => match &s.object {
            Some(m) => match read_group(m) {
                SnapshotChange::Group(g) => Some(g),
                _ => None,
            },
            None => None,
        },
        None => None,
    }
}

/// Reads a snapshot from the sections of the object that describes it.
pub fn read_sectioned(sections: &Vec<JsonSection>) -> (r: Option<GroupSnapshot>)
    ensures
        match r {
            Some(s) => snapshot_in(by_section(sections@)) == Some(s@),
            None => snapshot_in(by_section(sections@)) is None,
        },
{
    let group: GroupData = match read_stored_group(sections) {
        Some(group) => group,
        None => return None,
    };
    let workspaces: Vec<WorkspaceData> = match elements_at(sections, "workspaces") {
        Some(list) => match read_stored_workspaces(list) {
            Some(workspaces) => workspaces,
            None => return None,
        },
        None => return None,
    };
    let boards: Vec<BoardData> = match elements_at(sections, "boards") {
        Some(list) => match read_stored_boards(list) {
            Some(boards) => boards,
            None => return None,
        },
        None => return None,
    };
    let files: Vec<FileData> = match elements_at(sections, "files") {
        Some(list) => match read_stored_files(list) {
            Some(files) => files,
            None => return None,
        },
        None => return None,
    };
    let recent_chats: Vec<ChatData> = match elements_at(sections, "recent_chats") {
        Some(list) => match read_stored_chats(list) {
            Some(recent_chats) => recent_chats,
            None => return None,
        },
        None => return None,
    };
    let snapshot_ts: u64 = match find_section(sections, "snapshot_ts") {
        Some(s) => match s.member.uint {
            Some(ts) => ts,
            None => return None,
        },
        None => return None,
    };
    Some(GroupSnapshot { group, workspaces, boards, files, recent_chats, snapshot_ts })
}

/// Reads a snapshot from its text. The text that a snapshot is written as reads as that snapshot. Of
/// a member that stands twice in an object the last one counts.
pub fn read_snapshot(raw: &[u8]) -> (r: Option<GroupSnapshot>)
    ensures
        match r {
            Some(s) => snapshot_of(raw@) == Some(s@),
            None => snapshot_of(raw@) is None,
        },
        forall|s: GroupSnapshotModel|
            raw@ == encode_utf8(written(#[trigger] snapshot_value(s))) ==> r is Some && r->0@ == s,
{
    let sections: Option<Vec<JsonSection>> = read_sections(raw, "");
    proof {
        assert forall|s: GroupSnapshotModel|
            raw@ == encode_utf8(written(#[trigger] snapshot_value(s))) implies snapshot_of(raw@)
            == Some(s) by {
            lemma_snapshot_is_tame(s);
            law_snapshot_reads_back(s);
            let v = snapshot_value(s);
            assert(is_text_of(raw@, v));
            assert(object_at(v, Seq::empty()) == Some(v->Object_0));
        }
    }
    match sections {
        Some(sections) => read_sectioned(&sections),
        None => None,
    }
}

// ---------------------------------------------------------------------------------------------
// What is written reads back
// ---------------------------------------------------------------------------------------------

proof fn lemma_group_reads_back(d: GroupDataModel, depth: nat)
    requires
        depth > 0,
    ensures
        is_tame(group_value(d), depth),
        group_in(object_of(group_value(d))->0) == Some(d),
{
    let m = group_value(d)->Object_0;
    reveal_strlit("id");
    reveal_strlit("name");
    reveal_strlit("icon");
    reveal_strlit("color");
    reveal_strlit("created_at");
    assert("id"@.len() != "name"@.len());
    assert("id"@.len() != "icon"@.len());
    assert("id"@.len() != "color"@.len());
    assert("id"@.len() != "created_at"@.len());
    assert("name"@[0] != "icon"@[0]);
    assert("name"@.len() != "color"@.len());
    assert("name"@.len() != "created_at"@.len());
    assert("icon"@.len() != "color"@.len());
    assert("icon"@.len() != "created_at"@.len());
    assert("color"@.len() != "created_at"@.len());
    reveal_with_fuel(is_tame, 2);
    assert(distinct_keys(m));
    lemma_value_of(m, 0);
    lemma_value_of(m, 1);
    lemma_value_of(m, 2);
    lemma_value_of(m, 3);
    lemma_value_of(m, 4);
    let f = fields_of(m);
    assert(f.contains_key("id"@) && f["id"@] == field_of(m[0].1));
    assert(f.contains_key("name"@) && f["name"@] == field_of(m[1].1));
    assert(f.contains_key("icon"@) && f["icon"@] == field_of(m[2].1));
    assert(f.contains_key("color"@) && f["color"@] == field_of(m[3].1));
    assert(f.contains_key("created_at"@) && f["created_at"@] == field_of(m[4].1));
}

proof fn lemma_workspace_reads_back(d: WorkspaceDataModel, depth: nat)
    requires
        depth > 0,
    ensures
        is_tame(workspace_value(d), depth),
        workspace_in(object_of(workspace_value(d))->0) == Some(d),
{
    let m = workspace_value(d)->Object_0;
    reveal_strlit("id");
    reveal_strlit("group_id");
    reveal_strlit("name");
    reveal_strlit("created_at");
    assert("id"@.len() != "group_id"@.len());
    assert("id"@.len() != "name"@.len());
    assert("id"@.len() != "created_at"@.len());
    assert("group_id"@.len() != "name"@.len());
    assert("group_id"@.len() != "created_at"@.len());
    assert("name"@.len() != "created_at"@.len());
    reveal_with_fuel(is_tame, 2);
    assert(distinct_keys(m));
    lemma_value_of(m, 0);
    lemma_value_of(m, 1);
    lemma_value_of(m, 2);
    lemma_value_of(m, 3);
    let f = fields_of(m);
    assert(f.contains_key("id"@) && f["id"@] == field_of(m[0].1));
    assert(f.contains_key("group_id"@) && f["group_id"@] == field_of(m[1].1));
    assert(f.contains_key("name"@) && f["name"@] == field_of(m[2].1));
    assert(f.contains_key("created_at"@) && f["created_at"@] == field_of(m[3].1));
}

proof fn lemma_board_reads_back(d: BoardDataModel, depth: nat)
    requires
        depth > 0,
    ensures
        is_tame(board_value(d), depth),
        stored_board_in(object_of(board_value(d))->0) == Some(d),
{
    let m = board_value(d)->Object_0;
    reveal_strlit("id");
    reveal_strlit("workspace_id");
    reveal_strlit("name");
    reveal_strlit("board_mode");
    reveal_strlit("created_at");
    assert("id"@.len() != "workspace_id"@.len());
    assert("id"@.len() != "name"@.len());
    assert("id"@.len() != "board_mode"@.len());
    assert("id"@.len() != "created_at"@.len());
    assert("workspace_id"@.len() != "name"@.len());
    assert("workspace_id"@.len() != "board_mode"@.len());
    assert("workspace_id"@.len() != "created_at"@.len());
    assert("name"@.len() != "board_mode"@.len());
    assert("name"@.len() != "created_at"@.len());
    assert("board_mode"@[0] != "created_at"@[0]);
    reveal_with_fuel(is_tame, 2);
    assert(distinct_keys(m));
    lemma_value_of(m, 0);
    lemma_value_of(m, 1);
    lemma_value_of(m, 2);
    lemma_value_of(m, 3);
    lemma_value_of(m, 4);
    let f = fields_of(m);
    assert(f.contains_key("id"@) && f["id"@] == field_of(m[0].1));
    assert(f.contains_key("workspace_id"@) && f["workspace_id"@] == field_of(m[1].1));
    assert(f.contains_key("name"@) && f["name"@] == field_of(m[2].1));
    assert(f.contains_key("board_mode"@) && f["board_mode"@] == field_of(m[3].1));
    assert(f.contains_key("created_at"@) && f["created_at"@] == field_of(m[4].1));
}

proof fn lemma_file_reads_back(d: FileDataModel, depth: nat)
    requires
        depth > 0,
    ensures
        is_tame(file_value(d), depth),
        file_in(object_of(file_value(d))->0) == Some(d),
{
    let m = file_value(d)->Object_0;
    reveal_strlit("id");
    reveal_strlit("group_id");
    reveal_strlit("workspace_id");
    reveal_strlit("board_id");
    reveal_strlit("name");
    reveal_strlit("hash");
    reveal_strlit("size");
    reveal_strlit("created_at");
    assert("id"@.len() != "group_id"@.len());
    assert("id"@.len() != "workspace_id"@.len());
    assert("id"@.len() != "board_id"@.len());
    assert("id"@.len() != "name"@.len());
    assert("id"@.len() != "hash"@.len());
    assert("id"@.len() != "size"@.len());
    assert("id"@.len() != "created_at"@.len());
    assert("group_id"@.len() != "workspace_id"@.len());
    assert("group_id"@[0] != "board_id"@[0]);
    assert("group_id"@.len() != "name"@.len());
    assert("group_id"@.len() != "hash"@.len());
    assert("group_id"@.len() != "size"@.len());
    assert("group_id"@.len() != "created_at"@.len());
    assert("workspace_id"@.len() != "board_id"@.len());
    assert("workspace_id"@.len() != "name"@.len());
    assert("workspace_id"@.len() != "hash"@.len());
    assert("workspace_id"@.len() != "size"@.len());
    assert("workspace_id"@.len() != "created_at"@.len());
    assert("board_id"@.len() != "name"@.len());
    assert("board_id"@.len() != "hash"@.len());
    assert("board_id"@.len() != "size"@.len());
    assert("board_id"@.len() != "created_at"@.len());
    assert("name"@[0] != "hash"@[0]);
    assert("name"@[0] != "size"@[0]);
    assert("name"@.len() != "created_at"@.len());
    assert("hash"@[0] != "size"@[0]);
    assert("hash"@.len() != "created_at"@.len());
    assert("size"@.len() != "created_at"@.len());
    reveal_with_fuel(is_tame, 2);
    assert(distinct_keys(m));
    lemma_value_of(m, 0);
    lemma_value_of(m, 1);
    lemma_value_of(m, 2);
    lemma_value_of(m, 3);
    lemma_value_of(m, 4);
    lemma_value_of(m, 5);
    lemma_value_of(m, 6);
    lemma_value_of(m, 7);
    let f = fields_of(m);
    assert(f.contains_key("id"@) && f["id"@] == field_of(m[0].1));
    assert(f.contains_key("group_id"@) && f["group_id"@] == field_of(m[1].1));
    assert(f.contains_key("workspace_id"@) && f["workspace_id"@] == field_of(m[2].1));
    assert(f.contains_key("board_id"@) && f["board_id"@] == field_of(m[3].1));
    assert(f.contains_key("name"@) && f["name"@] == field_of(m[4].1));
    assert(f.contains_key("hash"@) && f["hash"@] == field_of(m[5].1));
    assert(f.contains_key("size"@) && f["size"@] == field_of(m[6].1));
    assert(f.contains_key("created_at"@) && f["created_at"@] == field_of(m[7].1));
}

proof fn lemma_chat_reads_back(d: ChatDataModel, depth: nat)
    requires
        depth > 0,
    ensures
        is_tame(chat_value(d), depth),
        chat_in(object_of(chat_value(d))->0) == Some(d),
{
    let m = chat_value(d)->Object_0;
    reveal_strlit("id");
    reveal_strlit("workspace_id");
    reveal_strlit("message");
    reveal_strlit("author");
    reveal_strlit("parent_id");
    reveal_strlit("timestamp");
    assert("id"@.len() != "workspace_id"@.len());
    assert("id"@.len() != "message"@.len());
    assert("id"@.len() != "author"@.len());
    assert("id"@.len() != "parent_id"@.len());
    assert("id"@.len() != "timestamp"@.len());
    assert("workspace_id"@.len() != "message"@.len());
    assert("workspace_id"@.len() != "author"@.len());
    assert("workspace_id"@.len() != "parent_id"@.len());
    assert("workspace_id"@.len() != "timestamp"@.len());
    assert("message"@.len() != "author"@.len());
    assert("message"@.len() != "parent_id"@.len());
    assert("message"@.len() != "timestamp"@.len());
    assert("author"@.len() != "parent_id"@.len());
    assert("author"@.len() != "timestamp"@.len());
    assert("parent_id"@[0] != "timestamp"@[0]);
    reveal_with_fuel(is_tame, 2);
    assert(distinct_keys(m));
    lemma_value_of(m, 0);
    lemma_value_of(m, 1);
    lemma_value_of(m, 2);
    lemma_value_of(m, 3);
    lemma_value_of(m, 4);
    lemma_value_of(m, 5);
    let f = fields_of(m);
    assert(f.contains_key("id"@) && f["id"@] == field_of(m[0].1));
    assert(f.contains_key("workspace_id"@) && f["workspace_id"@] == field_of(m[1].1));
    assert(f.contains_key("message"@) && f["message"@] == field_of(m[2].1));
    assert(f.contains_key("author"@) && f["author"@] == field_of(m[3].1));
    assert(f.contains_key("parent_id"@) && f["parent_id"@] == field_of(m[4].1));
    assert(f.contains_key("timestamp"@) && f["timestamp"@] == field_of(m[5].1));
}

proof fn lemma_workspaces_read_back(list: Seq<WorkspaceDataModel>, depth: nat)
    requires
        depth > 1,
    ensures
        is_tame(workspaces_value(list), depth),
        all_in(entry_of(workspaces_value(list)).elements->0, |f: Fields| workspace_in(f)) == Some(list),
    decreases list.len(),
{
    let items = workspaces_value(list)->List_0;
    let elements = items.map_values(|i: Json| part_of(i));
    assert forall|i: int| 0 <= i < items.len() implies is_tame(
        #[trigger] items[i],
        (depth - 1) as nat,
    ) by {
        lemma_workspace_reads_back(list[i], (depth - 1) as nat);
        assert(items[i] == workspace_value(list[i]));
    }
    if list.len() > 0 {
        let front = list.drop_last();
        lemma_workspaces_read_back(front, depth);
        let front_items = workspaces_value(front)->List_0;
        assert(front_items.map_values(|i: Json| part_of(i)) =~= elements.drop_last());
        lemma_workspace_reads_back(list.last(), (depth - 1) as nat);
        assert(elements.last() == part_of(workspace_value(list.last())));
        assert(front.push(list.last()) =~= list);
    } else {
        assert(elements =~= Seq::<JsonPart>::empty());
        assert(list =~= Seq::<WorkspaceDataModel>::empty());
    }
}

proof fn lemma_boards_read_back(list: Seq<BoardDataModel>, depth: nat)
    requires
        depth > 1,
    ensures
        is_tame(boards_value(list), depth),
        all_in(entry_of(boards_value(list)).elements->0, |f: Fields| stored_board_in(f)) == Some(list),
    decreases list.len(),
{
    let items = boards_value(list)->List_0;
    let elements = items.map_values(|i: Json| part_of(i));
    assert forall|i: int| 0 <= i < items.len() implies is_tame(
        #[trigger] items[i],
        (depth - 1) as nat,
    ) by {
        lemma_board_reads_back(list[i], (depth - 1) as nat);
        assert(items[i] == board_value(list[i]));
    }
    if list.len() > 0 {
        let front = list.drop_last();
        lemma_boards_read_back(front, depth);
        let front_items = boards_value(front)->List_0;
        assert(front_items.map_values(|i: Json| part_of(i)) =~= elements.drop_last());
        lemma_board_reads_back(list.last(), (depth - 1) as nat);
        assert(elements.last() == part_of(board_value(list.last())));
        assert(front.push(list.last()) =~= list);
    } else {
        assert(elements =~= Seq::<JsonPart>::empty());
        assert(list =~= Seq::<BoardDataModel>::empty());
    }
}

proof fn lemma_files_read_back(list: Seq<FileDataModel>, depth: nat)
    requires
        depth > 1,
    ensures
        is_tame(files_value(list), depth),
        all_in(entry_of(files_value(list)).elements->0, |f: Fields| file_in(f)) == Some(list),
    decreases list.len(),
{
    let items = files_value(list)->List_0;
    let elements = items.map_values(|i: Json| part_of(i));
    assert forall|i: int| 0 <= i < items.len() implies is_tame(
        #[trigger] items[i],
        (depth - 1) as nat,
    ) by {
        lemma_file_reads_back(list[i], (depth - 1) as nat);
        assert(items[i] == file_value(list[i]));
    }
    if list.len() > 0 {
        let front = list.drop_last();
        lemma_files_read_back(front, depth);
        let front_items = files_value(front)->List_0;
        assert(front_items.map_values(|i: Json| part_of(i)) =~= elements.drop_last());
        lemma_file_reads_back(list.last(), (depth - 1) as nat);
        assert(elements.last() == part_of(file_value(list.last())));
        assert(front.push(list.last()) =~= list);
    } else {
        assert(elements =~= Seq::<JsonPart>::empty());
        assert(list =~= Seq::<FileDataModel>::empty());
    }
}

proof fn lemma_chats_read_back(list: Seq<ChatDataModel>, depth: nat)
    requires
        depth > 1,
    ensures
        is_tame(chats_value(list), depth),
        all_in(entry_of(chats_value(list)).elements->0, |f: Fields| chat_in(f)) == Some(list),
    decreases list.len(),
{
    let items = chats_value(list)->List_0;
    let elements = items.map_values(|i: Json| part_of(i));
    assert forall|i: int| 0 <= i < items.len() implies is_tame(
        #[trigger] items[i],
        (depth - 1) as nat,
    ) by {
        lemma_chat_reads_back(list[i], (depth - 1) as nat);
        assert(items[i] == chat_value(list[i]));
    }
    if list.len() > 0 {
        let front = list.drop_last();
        lemma_chats_read_back(front, depth);
        let front_items = chats_value(front)->List_0;
        assert(front_items.map_values(|i: Json| part_of(i)) =~= elements.drop_last());
        lemma_chat_reads_back(list.last(), (depth - 1) as nat);
        assert(elements.last() == part_of(chat_value(list.last())));
        assert(front.push(list.last()) =~= list);
    } else {
        assert(elements =~= Seq::<JsonPart>::empty());
        assert(list =~= Seq::<ChatDataModel>::empty());
    }
}

proof fn lemma_snapshot_is_tame(s: GroupSnapshotModel)
    ensures
        is_tame(snapshot_value(s), READ_DEPTH as nat),
        distinct_keys(snapshot_value(s)->Object_0),
{
    let m = snapshot_value(s)->Object_0;
    reveal_strlit("group");
    reveal_strlit("workspaces");
    reveal_strlit("boards");
    reveal_strlit("files");
    reveal_strlit("recent_chats");
    reveal_strlit("snapshot_ts");
    assert("group"@.len() != "workspaces"@.len());
    assert("group"@.len() != "boards"@.len());
    assert("group"@[0] != "files"@[0]);
    assert("group"@.len() != "recent_chats"@.len());
    assert("group"@.len() != "snapshot_ts"@.len());
    assert("workspaces"@.len() != "boards"@.len());
    assert("workspaces"@.len() != "files"@.len());
    assert("workspaces"@.len() != "recent_chats"@.len());
    assert("workspaces"@.len() != "snapshot_ts"@.len());
    assert("boards"@.len() != "files"@.len());
    assert("boards"@.len() != "recent_chats"@.len());
    assert("boards"@.len() != "snapshot_ts"@.len());
    assert("files"@.len() != "recent_chats"@.len());
    assert("files"@.len() != "snapshot_ts"@.len());
    assert("recent_chats"@.len() != "snapshot_ts"@.len());
    assert(distinct_keys(m));
    lemma_group_reads_back(s.group, 99);
    lemma_workspaces_read_back(s.workspaces, 99);
    lemma_boards_read_back(s.boards, 99);
    lemma_files_read_back(s.files, 99);
    lemma_chats_read_back(s.recent_chats, 99);
    reveal_with_fuel(is_tame, 2);
    assert forall|i: int| 0 <= i < m.len() implies is_tame((#[trigger] m[i]).1, 99) by {
        assert(i == 0 || i == 1 || i == 2 || i == 3 || i == 4 || i == 5);
    }
}

/// The value of a snapshot reads as that snapshot.
pub proof fn law_snapshot_reads_back(s: GroupSnapshotModel)
    ensures
        snapshot_in(entries_of(snapshot_value(s)->Object_0)) == Some(s),
{
    let m = snapshot_value(s)->Object_0;
    lemma_snapshot_is_tame(s);
    lemma_value_of(m, 0);
    lemma_value_of(m, 1);
    lemma_value_of(m, 2);
    lemma_value_of(m, 3);
    lemma_value_of(m, 4);
    lemma_value_of(m, 5);
    let e = entries_of(m);
    assert(section(e, "group"@) == Some(entry_of(group_value(s.group))));
    assert(section(e, "workspaces"@) == Some(entry_of(workspaces_value(s.workspaces))));
    assert(section(e, "boards"@) == Some(entry_of(boards_value(s.boards))));
    assert(section(e, "files"@) == Some(entry_of(files_value(s.files))));
    assert(section(e, "recent_chats"@) == Some(entry_of(chats_value(s.recent_chats))));
    assert(section(e, "snapshot_ts"@) == Some(entry_of(Json::Number(s.snapshot_ts as int))));
    lemma_group_reads_back(s.group, 99);
    lemma_workspaces_read_back(s.workspaces, 99);
    lemma_boards_read_back(s.boards, 99);
    lemma_files_read_back(s.files, 99);
    lemma_chats_read_back(s.recent_chats, 99);
}

} // verus!
