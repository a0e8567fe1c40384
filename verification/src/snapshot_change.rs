//! What events mean for the snapshot of their group.

use vstd::prelude::*;
use vstd::utf8::encode_utf8;

use crate::json::{by_key, find, object_members, read_object, JsonField, JsonMember};
use crate::snapshot_data::{
    BoardData, BoardDataModel, ChatData, ChatDataModel, FileData, FileDataModel, GroupData,
    GroupDataModel, GroupSnapshot, GroupSnapshotModel, WorkspaceData, WorkspaceDataModel,
};
use crate::text::{opt_text, same_text};

verus! {

/// How many chats a snapshot keeps.
pub const RECENT_CHATS: usize = 100;

// ---------------------------------------------------------------------------------------------
// What an event changes
// ---------------------------------------------------------------------------------------------

/// What an event means for the snapshot of its group.
#[derive(Debug)]
pub enum SnapshotChange {
    Nothing,
    Group(GroupData),
    Workspace(WorkspaceData),
    Board(BoardData),
    File(FileData),
    Chat(ChatData),
}

/// The model of a [`SnapshotChange`].
pub enum ChangeModel {
    Nothing,
    Group(GroupDataModel),
    Workspace(WorkspaceDataModel),
    Board(BoardDataModel),
    File(FileDataModel),
    Chat(ChatDataModel),
}

impl View for SnapshotChange {
    type V = ChangeModel;

    open spec fn view(&self) -> ChangeModel {
        match *self {
            SnapshotChange::Nothing => ChangeModel::Nothing,
            SnapshotChange::Group(g) => ChangeModel::Group(g@),
            SnapshotChange::Workspace(w) => ChangeModel::Workspace(w@),
            SnapshotChange::Board(b) => ChangeModel::Board(b@),
            SnapshotChange::File(f) => ChangeModel::File(f@),
            SnapshotChange::Chat(c) => ChangeModel::Chat(c@),
        }
    }
}

/// The members of an object that was read.
pub type Fields = Map<Seq<char>, JsonField>;

/// The text of a member.
pub open spec fn field_text(fields: Fields, key: Seq<char>) -> Option<Seq<char>> {
    if fields.contains_key(key) {
        fields[key].text
    } else {
        None
    }
}

/// The signed number of a member.
pub open spec fn field_int(fields: Fields, key: Seq<char>) -> Option<i64> {
    if fields.contains_key(key) {
        fields[key].int
    } else {
        None
    }
}

/// The unsigned number of a member.
pub open spec fn field_uint(fields: Fields, key: Seq<char>) -> Option<u64> {
    if fields.contains_key(key) {
        fields[key].uint
    } else {
        None
    }
}

/// A member that may be missing or `null`, or else is a text. `None` where it is anything else.
pub open spec fn field_optional_text(fields: Fields, key: Seq<char>) -> Option<Option<Seq<char>>> {
    if !fields.contains_key(key) || fields[key].null {
        Some(None)
    } else {
        match fields[key].text {
            Some(t) => Some(Some(t)),
            None => None,
        }
    }
}

/// The group that the members describe.
pub open spec fn group_in(f: Fields) -> Option<GroupDataModel> {
    match (
        field_text(f, "id"@),
        field_text(f, "name"@),
        field_text(f, "icon"@),
        field_text(f, "color"@),
        field_int(f, "created_at"@),
    ) {
        (Some(id), Some(name), Some(icon), Some(color), Some(created_at)) => Some(
            GroupDataModel { id, name, icon, color, created_at },
        ),
        _ => None,
    }
}

/// The workspace that the members describe.
pub open spec fn workspace_in(f: Fields) -> Option<WorkspaceDataModel> {
    match (
        field_text(f, "id"@),
        field_text(f, "group_id"@),
        field_text(f, "name"@),
        field_int(f, "created_at"@),
    ) {
        (Some(id), Some(group_id), Some(name), Some(created_at)) => Some(
            WorkspaceDataModel { id, group_id, name, created_at },
        ),
        _ => None,
    }
}

/// The board that the members describe: a free-form board, made at time 0 where no time is given.
pub open spec fn board_in(f: Fields) -> Option<BoardDataModel> {
    match (field_text(f, "id"@), field_text(f, "workspace_id"@), field_text(f, "name"@)) {
        (Some(id), Some(workspace_id), Some(name)) => Some(
            BoardDataModel {
                id,
                workspace_id,
                name,
                board_mode: "freeform"@,
                created_at: match field_int(f, "created_at"@) {
                    Some(t) => t,
                    None => 0,
                },
            },
        ),
        _ => None,
    }
}

/// The file that the members describe.
pub open spec fn file_in(f: Fields) -> Option<FileDataModel> {
    match (
        field_text(f, "id"@),
        field_text(f, "group_id"@),
        field_optional_text(f, "workspace_id"@),
        field_optional_text(f, "board_id"@),
        field_text(f, "name"@),
        field_text(f, "hash"@),
        field_uint(f, "size"@),
        field_int(f, "created_at"@),
    ) {
        (
            Some(id),
            Some(group_id),
            Some(workspace_id),
            Some(board_id),
            Some(name),
            Some(hash),
            Some(size),
            Some(created_at),
        ) => Some(
            FileDataModel { id, group_id, workspace_id, board_id, name, hash, size, created_at },
        ),
        _ => None,
    }
}

/// The chat message that the members describe.
pub open spec fn chat_in(f: Fields) -> Option<ChatDataModel> {
    match (
        field_text(f, "id"@),
        field_text(f, "workspace_id"@),
        field_text(f, "message"@),
        field_text(f, "author"@),
        field_optional_text(f, "parent_id"@),
        field_int(f, "timestamp"@),
    ) {
        (
            Some(id),
            Some(workspace_id),
            Some(message),
            Some(author),
            Some(parent_id),
            Some(timestamp),
        ) => Some(ChatDataModel { id, workspace_id, message, author, parent_id, timestamp }),
        _ => None,
    }
}

/// What an event with the given members means: its `type` says which of its members count.
pub open spec fn change_in(f: Fields) -> ChangeModel {
    let kind = field_text(f, "type"@);
    if kind == Some("GroupCreated"@) {
        match group_in(f) {
            Some(g) => ChangeModel::Group(g),
            None => ChangeModel::Nothing,
        }
    } else if kind == Some("WorkspaceCreated"@) {
        match workspace_in(f) {
            Some(w) => ChangeModel::Workspace(w),
            None => ChangeModel::Nothing,
        }
    } else if kind == Some("BoardCreated"@) {
        match board_in(f) {
            Some(b) => ChangeModel::Board(b),
            None => ChangeModel::Nothing,
        }
    } else if kind == Some("FileAvailable"@) {
        match file_in(f) {
            Some(file) => ChangeModel::File(file),
            None => ChangeModel::Nothing,
        }
    } else if kind == Some("ChatSent"@) {
        match chat_in(f) {
            Some(c) => ChangeModel::Chat(c),
            None => ChangeModel::Nothing,
        }
    } else {
        ChangeModel::Nothing
    }
}

/// What an event with the given payload means. A payload that is no JSON object means nothing.
pub open spec fn change_of(payload: Seq<char>) -> ChangeModel {
    match object_members(encode_utf8(payload)) {
        Some(f) => change_in(f),
        None => ChangeModel::Nothing,
    }
}

pub(crate) fn text_at(members: &Vec<JsonMember>, key: &str) -> (r: Option<String>)
    ensures
        opt_text(r) == field_text(by_key(members@), key@),
{
    match find(members, key) {
        Some(m) => m.text.clone(),
        None => None,
    }
}

pub(crate) fn int_at(members: &Vec<JsonMember>, key: &str) -> (r: Option<i64>)
    ensures
        r == field_int(by_key(members@), key@),
{
    match find(members, key) {
        Some(m) => m.int,
        None => None,
    }
}

pub(crate) fn uint_at(members: &Vec<JsonMember>, key: &str) -> (r: Option<u64>)
    ensures
        r == field_uint(by_key(members@), key@),
{
    match find(members, key) {
        Some(m) => m.uint,
        None => None,
    }
}

fn optional_text_at(members: &Vec<JsonMember>, key: &str) -> (r: Option<Option<String>>)
    ensures
        match r {
            Some(o) => field_optional_text(by_key(members@), key@) == Some(opt_text(o)),
            None => field_optional_text(by_key(members@), key@) is None,
        },
{
    match find(members, key) {
        None => Some(None),
        Some(m) => {
            if m.null {
                Some(None)
            } else {
                match &m.text {
                    Some(t) => Some(Some(t.clone())),
                    None => None,
                }
            }
        },
    }
}

pub(crate) fn read_group(m: &Vec<JsonMember>) -> (r: SnapshotChange)
    ensures
        match group_in(by_key(m@)) {
            Some(g) => r@ == ChangeModel::Group(g),
            None => r@ == ChangeModel::Nothing,
        },
{
    match (
        text_at(m, "id"),
        text_at(m, "name"),
        text_at(m, "icon"),
        text_at(m, "color"),
        int_at(m, "created_at"),
    ) {
        (Some(id), Some(name), Some(icon), Some(color), Some(created_at)) => {
            SnapshotChange::Group(GroupData { id, name, icon, color, created_at })
        },
        _ => SnapshotChange::Nothing,
    }
}

pub(crate) fn read_workspace(m: &Vec<JsonMember>) -> (r: SnapshotChange)
    ensures
        match workspace_in(by_key(m@)) {
            Some(w) => r@ == ChangeModel::Workspace(w),
            None => r@ == ChangeModel::Nothing,
        },
{
    match (
        text_at(m, "id"),
        text_at(m, "group_id"),
        text_at(m, "name"),
        int_at(m, "created_at"),
    ) {
        (Some(id), Some(group_id), Some(name), Some(created_at)) => {
            SnapshotChange::Workspace(WorkspaceData { id, group_id, name, created_at })
        },
        _ => SnapshotChange::Nothing,
    }
}

fn read_board(m: &Vec<JsonMember>) -> (r: SnapshotChange)
    ensures
        match board_in(by_key(m@)) {
            Some(b) => r@ == ChangeModel::Board(b),
            None => r@ == ChangeModel::Nothing,
        },
{
    match (text_at(m, "id"), text_at(m, "workspace_id"), text_at(m, "name")) {
        (Some(id), Some(workspace_id), Some(name)) => {
            let created_at: i64 = match int_at(m, "created_at") {
                Some(t) => t,
                None => 0,
            };
            let board_mode: String = "freeform".to_owned();
            SnapshotChange::Board(BoardData { id, workspace_id, name, board_mode, created_at })
        },
        _ => SnapshotChange::Nothing,
    }
}

pub(crate) fn read_file(m: &Vec<JsonMember>) -> (r: SnapshotChange)
    ensures
        match file_in(by_key(m@)) {
            Some(f) => r@ == ChangeModel::File(f),
            None => r@ == ChangeModel::Nothing,
        },
{
    match (
        text_at(m, "id"),
        text_at(m, "group_id"),
        optional_text_at(m, "workspace_id"),
        optional_text_at(m, "board_id"),
        text_at(m, "name"),
        text_at(m, "hash"),
        uint_at(m, "size"),
        int_at(m, "created_at"),
    ) {
        (
            Some(id),
            Some(group_id),
            Some(workspace_id),
            Some(board_id),
            Some(name),
            Some(hash),
            Some(size),
            Some(created_at),
        ) => SnapshotChange::File(
            FileData { id, group_id, workspace_id, board_id, name, hash, size, created_at },
        ),
        _ => SnapshotChange::Nothing,
    }
}

pub(crate) fn read_chat(m: &Vec<JsonMember>) -> (r: SnapshotChange)
    ensures
        match chat_in(by_key(m@)) {
            Some(c) => r@ == ChangeModel::Chat(c),
            None => r@ == ChangeModel::Nothing,
        },
{
    match (
        text_at(m, "id"),
        text_at(m, "workspace_id"),
        text_at(m, "message"),
        text_at(m, "author"),
        optional_text_at(m, "parent_id"),
        int_at(m, "timestamp"),
    ) {
        (
            Some(id),
            Some(workspace_id),
            Some(message),
            Some(author),
            Some(parent_id),
            Some(timestamp),
        ) => SnapshotChange::Chat(
            ChatData { id, workspace_id, message, author, parent_id, timestamp },
        ),
        _ => SnapshotChange::Nothing,
    }
}

/// Reads what an event means from the members of its payload.
pub fn read_change(members: &Vec<JsonMember>) -> (r: SnapshotChange)
    ensures
        r@ == change_in(by_key(members@)),
{
    let kind: String = match text_at(members, "type") {
        Some(kind) => kind,
        None => return SnapshotChange::Nothing,
    };
    if same_text(kind.as_str(), "GroupCreated") {
        read_group(members)
    } else if same_text(kind.as_str(), "WorkspaceCreated") {
        read_workspace(members)
    } else if same_text(kind.as_str(), "BoardCreated") {
        read_board(members)
    } else if same_text(kind.as_str(), "FileAvailable") {
        read_file(members)
    } else if same_text(kind.as_str(), "ChatSent") {
        read_chat(members)
    } else {
        SnapshotChange::Nothing
    }
}

/// What an event with the given payload means for the snapshot of its group.
pub fn payload_change(payload: &str) -> (r: SnapshotChange)
    ensures
        r@ == change_of(payload@),
{
    match read_object(payload.as_bytes()) {
        Some(members) => read_change(&members),
        None => SnapshotChange::Nothing,
    }
}

// ---------------------------------------------------------------------------------------------
// Applying a change
// ---------------------------------------------------------------------------------------------

/// A snapshot of a group of which nothing but the identifier is known.
pub open spec fn empty_snapshot(group_id: Seq<char>) -> GroupSnapshotModel {
    GroupSnapshotModel {
        group: GroupDataModel {
            id: group_id,
            name: Seq::empty(),
            icon: Seq::empty(),
            color: Seq::empty(),
            created_at: 0,
        },
        workspaces: Seq::empty(),
        boards: Seq::empty(),
        files: Seq::empty(),
        recent_chats: Seq::empty(),
        snapshot_ts: 0,
    }
}

/// Whether a list has a workspace with an identifier.
pub open spec fn has_workspace(list: Seq<WorkspaceDataModel>, id: Seq<char>) -> bool {
    exists|i: int| 0 <= i < list.len() && (#[trigger] list[i]).id == id
}

/// Whether a list has a board with an identifier.
pub open spec fn has_board(list: Seq<BoardDataModel>, id: Seq<char>) -> bool {
    exists|i: int| 0 <= i < list.len() && (#[trigger] list[i]).id == id
}

/// Whether a list has a file with an identifier.
pub open spec fn has_file(list: Seq<FileDataModel>, id: Seq<char>) -> bool {
    exists|i: int| 0 <= i < list.len() && (#[trigger] list[i]).id == id
}

/// The chats after one more was sent: where as many as are kept are there, the first one goes.
pub open spec fn chats_with(chats: Seq<ChatDataModel>, c: ChatDataModel) -> Seq<ChatDataModel> {
    if chats.len() >= RECENT_CHATS {
        chats.drop_first().push(c)
    } else {
        chats.push(c)
    }
}

/// A snapshot after a change. A group replaces the group, a chat is appended, and anything else is
/// appended unless its identifier is there already.
pub open spec fn applied(s: GroupSnapshotModel, change: ChangeModel) -> GroupSnapshotModel {
    match change {
        ChangeModel::Nothing => s,
        ChangeModel::Group(g) => GroupSnapshotModel { group: g, ..s },
        ChangeModel::Workspace(w) => if has_workspace(s.workspaces, w.id) {
            s
        } else {
            GroupSnapshotModel { workspaces: s.workspaces.push(w), ..s }
        },
        ChangeModel::Board(b) => if has_board(s.boards, b.id) {
            s
        } else {
            GroupSnapshotModel { boards: s.boards.push(b), ..s }
        },
        ChangeModel::File(f) => if has_file(s.files, f.id) {
            s
        } else {
            GroupSnapshotModel { files: s.files.push(f), ..s }
        },
        ChangeModel::Chat(c) => GroupSnapshotModel {
            recent_chats: chats_with(s.recent_chats, c),
            ..s
        },
    }
}

/// A snapshot after an event: changed as the event says, and as of the event's time.
pub open spec fn after_event(s: GroupSnapshotModel, change: ChangeModel, ts: u64) -> GroupSnapshotModel {
    GroupSnapshotModel { snapshot_ts: ts, ..applied(s, change) }
}

/// Whether a snapshot is as a provider keeps it: no workspace, board or file stands in it twice,
/// and it holds no more chats than are kept.
pub open spec fn tidy(s: GroupSnapshotModel) -> bool {
    &&& forall|i: int, j: int|
        0 <= i < j < s.workspaces.len() ==> (#[trigger] s.workspaces[i]).id != (
        #[trigger] s.workspaces[j]).id
    &&& forall|i: int, j: int|
        0 <= i < j < s.boards.len() ==> (#[trigger] s.boards[i]).id != (#[trigger] s.boards[j]).id
    &&& forall|i: int, j: int|
        0 <= i < j < s.files.len() ==> (#[trigger] s.files[i]).id != (#[trigger] s.files[j]).id
    &&& s.recent_chats.len() <= RECENT_CHATS
}

/// A tidy snapshot stays tidy whatever event comes.
pub proof fn law_events_keep_snapshots_tidy(s: GroupSnapshotModel, change: ChangeModel, ts: u64)
    requires
        tidy(s),
    ensures
        tidy(after_event(s, change, ts)),
{
}

/// An event that is not a chat changes a snapshot at most once, however often it comes.
pub proof fn law_repeated_events_change_nothing(
    s: GroupSnapshotModel,
    change: ChangeModel,
    ts: u64,
)
    requires
        !(change is Chat),
    ensures
        after_event(after_event(s, change, ts), change, ts) == after_event(s, change, ts),
{
    match change {
        ChangeModel::Workspace(w) => {
            let list = after_event(s, change, ts).workspaces;
            if !has_workspace(s.workspaces, w.id) {
                assert(list[list.len() - 1].id == w.id);
            }
        },
        ChangeModel::Board(b) => {
            let list = after_event(s, change, ts).boards;
            if !has_board(s.boards, b.id) {
                assert(list[list.len() - 1].id == b.id);
            }
        },
        ChangeModel::File(f) => {
            let list = after_event(s, change, ts).files;
            if !has_file(s.files, f.id) {
                assert(list[list.len() - 1].id == f.id);
            }
        },
        _ => {},
    }
}

/// A snapshot after a run of events, each with its time.
pub open spec fn after_events(
    s: GroupSnapshotModel,
    events: Seq<(ChangeModel, u64)>,
) -> GroupSnapshotModel
    decreases events.len(),
{
    if events.len() == 0 {
        s
    } else {
        after_event(after_events(s, events.drop_last()), events.last().0, events.last().1)
    }
}

/// The chats among a run of events, in their order.
pub open spec fn chats_among(events: Seq<(ChangeModel, u64)>) -> Seq<ChatDataModel>
    decreases events.len(),
{
    if events.len() == 0 {
        Seq::empty()
    } else {
        match events.last().0 {
            ChangeModel::Chat(c) => chats_among(events.drop_last()).push(c),
            _ => chats_among(events.drop_last()),
        }
    }
}

/// After any run of events a snapshot holds the latest chats in their order, as many as are kept:
/// those that were there before followed by the new ones, less the first ones of all. What else
/// happens between the chats does not matter.
pub proof fn law_latest_chats_stay(s: GroupSnapshotModel, events: Seq<(ChangeModel, u64)>)
    requires
        tidy(s),
    ensures
        ({
            let all = s.recent_chats + chats_among(events);
            let kept = after_events(s, events).recent_chats;
            &&& kept.len() == (if all.len() <= RECENT_CHATS {
                all.len() as int
            } else {
                RECENT_CHATS as int
            })
            &&& kept == all.subrange(all.len() - kept.len(), all.len() as int)
        }),
    decreases events.len(),
{
    let all = s.recent_chats + chats_among(events);
    let kept = after_events(s, events).recent_chats;
    if events.len() == 0 {
        assert(all =~= s.recent_chats);
        assert(all.subrange(0, all.len() as int) =~= all);
    } else {
        let earlier = events.drop_last();
        law_latest_chats_stay(s, earlier);
        let all_before = s.recent_chats + chats_among(earlier);
        if let ChangeModel::Chat(c) = events.last().0 {
            assert(all =~= all_before.push(c));
            assert(kept =~= all.subrange(all.len() - kept.len(), all.len() as int));
        }
    }
}

/// Whether an event puts an item into a snapshot: the group or a chat always, anything else unless
/// its identifier is there already.
pub open spec fn puts_item(s: GroupSnapshotModel, change: ChangeModel) -> bool {
    match change {
        ChangeModel::Nothing => false,
        ChangeModel::Group(_) | ChangeModel::Chat(_) => true,
        ChangeModel::Workspace(w) => !has_workspace(s.workspaces, w.id),
        ChangeModel::Board(b) => !has_board(s.boards, b.id),
        ChangeModel::File(f) => !has_file(s.files, f.id),
    }
}

fn workspace_known(list: &Vec<WorkspaceData>, id: &str) -> (r: bool)
    ensures
        r == has_workspace(list@.map_values(|w: WorkspaceData| w@), id@),
{
    let ghost models = list@.map_values(|w: WorkspaceData| w@);
    let mut i: usize = 0;
    while i < list.len()
        invariant
            i <= list@.len(),
            models == list@.map_values(|w: WorkspaceData| w@),
            forall|j: int| 0 <= j < i ==> (#[trigger] models[j]).id != id@,
        decreases list@.len() - i,
    {
        if same_text(list[i].id.as_str(), id) {
            assert(models[i as int].id == id@);
            return true;
        }
        i += 1;
    }
    false
}

fn board_known(list: &Vec<BoardData>, id: &str) -> (r: bool)
    ensures
        r == has_board(list@.map_values(|b: BoardData| b@), id@),
{
    let ghost models = list@.map_values(|b: BoardData| b@);
    let mut i: usize = 0;
    while i < list.len()
        invariant
            i <= list@.len(),
            models == list@.map_values(|b: BoardData| b@),
            forall|j: int| 0 <= j < i ==> (#[trigger] models[j]).id != id@,
        decreases list@.len() - i,
    {
        if same_text(list[i].id.as_str(), id) {
            assert(models[i as int].id == id@);
            return true;
        }
        i += 1;
    }
    false
}

fn file_known(list: &Vec<FileData>, id: &str) -> (r: bool)
    ensures
        r == has_file(list@.map_values(|f: FileData| f@), id@),
{
    let ghost models = list@.map_values(|f: FileData| f@);
    let mut i: usize = 0;
    while i < list.len()
        invariant
            i <= list@.len(),
            models == list@.map_values(|f: FileData| f@),
            forall|j: int| 0 <= j < i ==> (#[trigger] models[j]).id != id@,
        decreases list@.len() - i,
    {
        if same_text(list[i].id.as_str(), id) {
            assert(models[i as int].id == id@);
            return true;
        }
        i += 1;
    }
    false
}

impl GroupSnapshot {
    /// A snapshot of a group of which nothing but the identifier is known.
    pub fn empty(group_id: &str) -> (r: Self)
        ensures
            r@ == empty_snapshot(group_id@),
    {
        GroupSnapshot {
            group: GroupData {
                id: group_id.to_owned(),
                name: String::new(),
                icon: String::new(),
                color: String::new(),
                created_at: 0,
            },
            workspaces: Vec::new(),
            boards: Vec::new(),
            files: Vec::new(),
            recent_chats: Vec::new(),
            snapshot_ts: 0,
        }
    }

    /// Applies a change that was made at the given time, and says whether it put an item there.
    pub fn apply(&mut self, change: SnapshotChange, ts: u64) -> (r: bool)
        ensures
            final(self)@ == after_event(old(self)@, change@, ts),
            r == puts_item(old(self)@, change@),
    {
        let ghost before = *self;
        let mut put: bool = false;
        match change {
            SnapshotChange::Nothing => {},
            SnapshotChange::Group(g) => {
                self.group = g;
                put = true;
            },
            SnapshotChange::Workspace(w) => {
                if !workspace_known(&self.workspaces, w.id.as_str()) {
                    self.workspaces.push(w);
                    assert(self@.workspaces =~= before@.workspaces.push(w@));
                    put = true;
                }
            },
            SnapshotChange::Board(b) => {
                if !board_known(&self.boards, b.id.as_str()) {
                    self.boards.push(b);
                    assert(self@.boards =~= before@.boards.push(b@));
                    put = true;
                }
            },
            SnapshotChange::File(f) => {
                if !file_known(&self.files, f.id.as_str()) {
                    self.files.push(f);
                    assert(self@.files =~= before@.files.push(f@));
                    put = true;
                }
            },
            SnapshotChange::Chat(c) => {
                if self.recent_chats.len() >= RECENT_CHATS {
                    let _first: ChatData = self.recent_chats.remove(0);
                    assert(self@.recent_chats =~= before@.recent_chats.drop_first());
                }
                self.recent_chats.push(c);
                assert(self@.recent_chats =~= chats_with(before@.recent_chats, c@));
                put = true;
            },
        }
        self.snapshot_ts = ts;
        put
    }
}

} // verus!
