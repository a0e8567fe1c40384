//! What a snapshot of a group holds, and how it is written.

use vstd::prelude::*;

use crate::json::{
    array, member, number_member, object, optional, optional_text_member, signed_member,
    text_member, written, written_member, Json,
};
use crate::json_unique::law_written_form_is_unique;
use crate::text::{opt_text, texts};

verus! {

// ---------------------------------------------------------------------------------------------
// Data
// ---------------------------------------------------------------------------------------------

/// A group.
#[derive(Debug)]
pub struct GroupData {
    pub id: String,
    pub name: String,
    pub icon: String,
    pub color: String,
    pub created_at: i64,
}

/// A workspace of a group.
#[derive(Debug)]
pub struct WorkspaceData {
    pub id: String,
    pub group_id: String,
    pub name: String,
    pub created_at: i64,
}

/// A board of a workspace.
#[derive(Debug)]
pub struct BoardData {
    pub id: String,
    pub workspace_id: String,
    pub name: String,
    pub board_mode: String,
    pub created_at: i64,
}

/// A file of a group.
#[derive(Debug)]
pub struct FileData {
    pub id: String,
    pub group_id: String,
    pub workspace_id: Option<String>,
    pub board_id: Option<String>,
    pub name: String,
    pub hash: String,
    pub size: u64,
    pub created_at: i64,
}

/// A chat message.
#[derive(Debug)]
pub struct ChatData {
    pub id: String,
    pub workspace_id: String,
    pub message: String,
    pub author: String,
    pub parent_id: Option<String>,
    pub timestamp: i64,
}

/// What a peer that joins a group starts from.
#[derive(Debug)]
pub struct GroupSnapshot {
    pub group: GroupData,
    pub workspaces: Vec<WorkspaceData>,
    pub boards: Vec<BoardData>,
    pub files: Vec<FileData>,
    pub recent_chats: Vec<ChatData>,
    pub snapshot_ts: u64,
}

/// The model of a [`GroupData`].
pub struct GroupDataModel {
    pub id: Seq<char>,
    pub name: Seq<char>,
    pub icon: Seq<char>,
    pub color: Seq<char>,
    pub created_at: i64,
}

/// The model of a [`WorkspaceData`].
pub struct WorkspaceDataModel {
    pub id: Seq<char>,
    pub group_id: Seq<char>,
    pub name: Seq<char>,
    pub created_at: i64,
}

/// The model of a [`BoardData`].
pub struct BoardDataModel {
    pub id: Seq<char>,
    pub workspace_id: Seq<char>,
    pub name: Seq<char>,
    pub board_mode: Seq<char>,
    pub created_at: i64,
}

/// The model of a [`FileData`].
pub struct FileDataModel {
    pub id: Seq<char>,
    pub group_id: Seq<char>,
    pub workspace_id: Option<Seq<char>>,
    pub board_id: Option<Seq<char>>,
    pub name: Seq<char>,
    pub hash: Seq<char>,
    pub size: u64,
    pub created_at: i64,
}

/// The model of a [`ChatData`].
pub struct ChatDataModel {
    pub id: Seq<char>,
    pub workspace_id: Seq<char>,
    pub message: Seq<char>,
    pub author: Seq<char>,
    pub parent_id: Option<Seq<char>>,
    pub timestamp: i64,
}

/// The model of a [`GroupSnapshot`].
#[verifier::ext_equal]
pub struct GroupSnapshotModel {
    pub group: GroupDataModel,
    pub workspaces: Seq<WorkspaceDataModel>,
    pub boards: Seq<BoardDataModel>,
    pub files: Seq<FileDataModel>,
    pub recent_chats: Seq<ChatDataModel>,
    pub snapshot_ts: u64,
}

impl View for GroupData {
    type V = GroupDataModel;

    open spec fn view(&self) -> GroupDataModel {
        GroupDataModel {
            id: self.id@,
            name: self.name@,
            icon: self.icon@,
            color: self.color@,
            created_at: self.created_at,
        }
    }
}

impl View for WorkspaceData {
    type V = WorkspaceDataModel;

    open spec fn view(&self) -> WorkspaceDataModel {
        WorkspaceDataModel {
            id: self.id@,
            group_id: self.group_id@,
            name: self.name@,
            created_at: self.created_at,
        }
    }
}

impl View for BoardData {
    type V = BoardDataModel;

    open spec fn view(&self) -> BoardDataModel {
        BoardDataModel {
            id: self.id@,
            workspace_id: self.workspace_id@,
            name: self.name@,
            board_mode: self.board_mode@,
            created_at: self.created_at,
        }
    }
}

impl View for FileData {
    type V = FileDataModel;

    open spec fn view(&self) -> FileDataModel {
        FileDataModel {
            id: self.id@,
            group_id: self.group_id@,
            workspace_id: opt_text(self.workspace_id),
            board_id: opt_text(self.board_id),
            name: self.name@,
            hash: self.hash@,
            size: self.size,
            created_at: self.created_at,
        }
    }
}

impl View for ChatData {
    type V = ChatDataModel;

    open spec fn view(&self) -> ChatDataModel {
        ChatDataModel {
            id: self.id@,
            workspace_id: self.workspace_id@,
            message: self.message@,
            author: self.author@,
            parent_id: opt_text(self.parent_id),
            timestamp: self.timestamp,
        }
    }
}

impl View for GroupSnapshot {
    type V = GroupSnapshotModel;

    open spec fn view(&self) -> GroupSnapshotModel {
        GroupSnapshotModel {
            group: self.group@,
            workspaces: self.workspaces@.map_values(|w: WorkspaceData| w@),
            boards: self.boards@.map_values(|b: BoardData| b@),
            files: self.files@.map_values(|f: FileData| f@),
            recent_chats: self.recent_chats@.map_values(|c: ChatData| c@),
            snapshot_ts: self.snapshot_ts,
        }
    }
}

impl Clone for GroupData {
    fn clone(&self) -> (r: Self)
        ensures
            r == *self,
    {
        GroupData {
            id: self.id.clone(),
            name: self.name.clone(),
            icon: self.icon.clone(),
            color: self.color.clone(),
            created_at: self.created_at,
        }
    }
}

impl Clone for WorkspaceData {
    fn clone(&self) -> (r: Self)
        ensures
            r == *self,
    {
        WorkspaceData {
            id: self.id.clone(),
            group_id: self.group_id.clone(),
            name: self.name.clone(),
            created_at: self.created_at,
        }
    }
}

impl Clone for BoardData {
    fn clone(&self) -> (r: Self)
        ensures
            r == *self,
    {
        BoardData {
            id: self.id.clone(),
            workspace_id: self.workspace_id.clone(),
            name: self.name.clone(),
            board_mode: self.board_mode.clone(),
            created_at: self.created_at,
        }
    }
}

impl Clone for FileData {
    fn clone(&self) -> (r: Self)
        ensures
            r == *self,
    {
        FileData {
            id: self.id.clone(),
            group_id: self.group_id.clone(),
            workspace_id: self.workspace_id.clone(),
            board_id: self.board_id.clone(),
            name: self.name.clone(),
            hash: self.hash.clone(),
            size: self.size,
            created_at: self.created_at,
        }
    }
}

impl Clone for ChatData {
    fn clone(&self) -> (r: Self)
        ensures
            r == *self,
    {
        ChatData {
            id: self.id.clone(),
            workspace_id: self.workspace_id.clone(),
            message: self.message.clone(),
            author: self.author.clone(),
            parent_id: self.parent_id.clone(),
            timestamp: self.timestamp,
        }
    }
}

impl Clone for GroupSnapshot {
    fn clone(&self) -> (r: Self)
        ensures
            r@ == self@,
    {
        let r = GroupSnapshot {
            group: self.group.clone(),
            workspaces: self.workspaces.clone(),
            boards: self.boards.clone(),
            files: self.files.clone(),
            recent_chats: self.recent_chats.clone(),
            snapshot_ts: self.snapshot_ts,
        };
        assert(r.workspaces@ =~= self.workspaces@);
        assert(r.boards@ =~= self.boards@);
        assert(r.files@ =~= self.files@);
        assert(r.recent_chats@ =~= self.recent_chats@);
        r
    }
}

// ---------------------------------------------------------------------------------------------
// The written form
// ---------------------------------------------------------------------------------------------

/// The JSON value of a group.
pub open spec fn group_value(d: GroupDataModel) -> Json {
    Json::Object(
        seq![
            ("id"@, Json::Text(d.id)),
            ("name"@, Json::Text(d.name)),
            ("icon"@, Json::Text(d.icon)),
            ("color"@, Json::Text(d.color)),
            ("created_at"@, Json::Number(d.created_at as int)),
        ],
    )
}

/// The JSON value of a workspace.
pub open spec fn workspace_value(d: WorkspaceDataModel) -> Json {
    Json::Object(
        seq![
            ("id"@, Json::Text(d.id)),
            ("group_id"@, Json::Text(d.group_id)),
            ("name"@, Json::Text(d.name)),
            ("created_at"@, Json::Number(d.created_at as int)),
        ],
    )
}

/// The JSON value of a board.
pub open spec fn board_value(d: BoardDataModel) -> Json {
    Json::Object(
        seq![
            ("id"@, Json::Text(d.id)),
            ("workspace_id"@, Json::Text(d.workspace_id)),
            ("name"@, Json::Text(d.name)),
            ("board_mode"@, Json::Text(d.board_mode)),
            ("created_at"@, Json::Number(d.created_at as int)),
        ],
    )
}

/// The JSON value of a file.
pub open spec fn file_value(d: FileDataModel) -> Json {
    Json::Object(
        seq![
            ("id"@, Json::Text(d.id)),
            ("group_id"@, Json::Text(d.group_id)),
            ("workspace_id"@, optional(d.workspace_id)),
            ("board_id"@, optional(d.board_id)),
            ("name"@, Json::Text(d.name)),
            ("hash"@, Json::Text(d.hash)),
            ("size"@, Json::Number(d.size as int)),
            ("created_at"@, Json::Number(d.created_at as int)),
        ],
    )
}

/// The JSON value of a chat message.
pub open spec fn chat_value(d: ChatDataModel) -> Json {
    Json::Object(
        seq![
            ("id"@, Json::Text(d.id)),
            ("workspace_id"@, Json::Text(d.workspace_id)),
            ("message"@, Json::Text(d.message)),
            ("author"@, Json::Text(d.author)),
            ("parent_id"@, optional(d.parent_id)),
            ("timestamp"@, Json::Number(d.timestamp as int)),
        ],
    )
}

/// The JSON value of workspaces.
pub open spec fn workspaces_value(list: Seq<WorkspaceDataModel>) -> Json {
    Json::List(list.map_values(|w: WorkspaceDataModel| workspace_value(w)))
}

/// The JSON value of boards.
pub open spec fn boards_value(list: Seq<BoardDataModel>) -> Json {
    Json::List(list.map_values(|b: BoardDataModel| board_value(b)))
}

/// The JSON value of files.
pub open spec fn files_value(list: Seq<FileDataModel>) -> Json {
    Json::List(list.map_values(|f: FileDataModel| file_value(f)))
}

/// The JSON value of chats.
pub open spec fn chats_value(list: Seq<ChatDataModel>) -> Json {
    Json::List(list.map_values(|c: ChatDataModel| chat_value(c)))
}

/// The JSON value of a snapshot.
pub open spec fn snapshot_value(s: GroupSnapshotModel) -> Json {
    Json::Object(
        seq![
            ("group"@, group_value(s.group)),
            ("workspaces"@, workspaces_value(s.workspaces)),
            ("boards"@, boards_value(s.boards)),
            ("files"@, files_value(s.files)),
            ("recent_chats"@, chats_value(s.recent_chats)),
            ("snapshot_ts"@, Json::Number(s.snapshot_ts as int)),
        ],
    )
}

fn group_text(d: &GroupData) -> (r: String)
    ensures
        r@ == written(group_value(d@)),
{
    let ghost v = group_value(d@);
    let mut m: Vec<String> = Vec::new();
    m.push(text_member("id", d.id.as_str()));
    m.push(text_member("name", d.name.as_str()));
    m.push(text_member("icon", d.icon.as_str()));
    m.push(text_member("color", d.color.as_str()));
    m.push(signed_member("created_at", d.created_at));
    assert(texts(m@) =~= v->Object_0.map_values(|m: (Seq<char>, Json)| written_member(m)));
    object(&m, Ghost(v))
}

fn workspace_text(d: &WorkspaceData) -> (r: String)
    ensures
        r@ == written(workspace_value(d@)),
{
    let ghost v = workspace_value(d@);
    let mut m: Vec<String> = Vec::new();
    m.push(text_member("id", d.id.as_str()));
    m.push(text_member("group_id", d.group_id.as_str()));
    m.push(text_member("name", d.name.as_str()));
    m.push(signed_member("created_at", d.created_at));
    assert(texts(m@) =~= v->Object_0.map_values(|m: (Seq<char>, Json)| written_member(m)));
    object(&m, Ghost(v))
}

fn board_text(d: &BoardData) -> (r: String)
    ensures
        r@ == written(board_value(d@)),
{
    let ghost v = board_value(d@);
    let mut m: Vec<String> = Vec::new();
    m.push(text_member("id", d.id.as_str()));
    m.push(text_member("workspace_id", d.workspace_id.as_str()));
    m.push(text_member("name", d.name.as_str()));
    m.push(text_member("board_mode", d.board_mode.as_str()));
    m.push(signed_member("created_at", d.created_at));
    assert(texts(m@) =~= v->Object_0.map_values(|m: (Seq<char>, Json)| written_member(m)));
    object(&m, Ghost(v))
}

fn file_text(d: &FileData) -> (r: String)
    ensures
        r@ == written(file_value(d@)),
{
    let ghost v = file_value(d@);
    let mut m: Vec<String> = Vec::new();
    m.push(text_member("id", d.id.as_str()));
    m.push(text_member("group_id", d.group_id.as_str()));
    m.push(optional_text_member("workspace_id", &d.workspace_id));
    m.push(optional_text_member("board_id", &d.board_id));
    m.push(text_member("name", d.name.as_str()));
    m.push(text_member("hash", d.hash.as_str()));
    m.push(number_member("size", d.size));
    m.push(signed_member("created_at", d.created_at));
    assert(texts(m@) =~= v->Object_0.map_values(|m: (Seq<char>, Json)| written_member(m)));
    object(&m, Ghost(v))
}

fn chat_text(d: &ChatData) -> (r: String)
    ensures
        r@ == written(chat_value(d@)),
{
    let ghost v = chat_value(d@);
    let mut m: Vec<String> = Vec::new();
    m.push(text_member("id", d.id.as_str()));
    m.push(text_member("workspace_id", d.workspace_id.as_str()));
    m.push(text_member("message", d.message.as_str()));
    m.push(text_member("author", d.author.as_str()));
    m.push(optional_text_member("parent_id", &d.parent_id));
    m.push(signed_member("timestamp", d.timestamp));
    assert(texts(m@) =~= v->Object_0.map_values(|m: (Seq<char>, Json)| written_member(m)));
    object(&m, Ghost(v))
}

fn workspaces_text(list: &Vec<WorkspaceData>) -> (r: String)
    ensures
        r@ == written(workspaces_value(list@.map_values(|w: WorkspaceData| w@))),
{
    let ghost models = list@.map_values(|w: WorkspaceData| w@);
    let ghost values = models.map_values(|w: WorkspaceDataModel| workspace_value(w));
    let mut items: Vec<String> = Vec::new();
    let mut i: usize = 0;
    while i < list.len()
        invariant
            i <= list@.len(),
            items@.len() == i,
            forall|j: int|
                0 <= j < i ==> #[trigger] items@[j]@ == written(workspace_value(list@[j]@)),
        decreases list@.len() - i,
    {
        items.push(workspace_text(&list[i]));
        i += 1;
    }
    assert(texts(items@) =~= values.map_values(|v: Json| written(v)));
    array(&items, Ghost(values))
}

fn boards_text(list: &Vec<BoardData>) -> (r: String)
    ensures
        r@ == written(boards_value(list@.map_values(|b: BoardData| b@))),
{
    let ghost models = list@.map_values(|b: BoardData| b@);
    let ghost values = models.map_values(|b: BoardDataModel| board_value(b));
    let mut items: Vec<String> = Vec::new();
    let mut i: usize = 0;
    while i < list.len()
        invariant
            i <= list@.len(),
            items@.len() == i,
            forall|j: int|
                0 <= j < i ==> #[trigger] items@[j]@ == written(board_value(list@[j]@)),
        decreases list@.len() - i,
    {
        items.push(board_text(&list[i]));
        i += 1;
    }
    assert(texts(items@) =~= values.map_values(|v: Json| written(v)));
    array(&items, Ghost(values))
}

fn files_text(list: &Vec<FileData>) -> (r: String)
    ensures
        r@ == written(files_value(list@.map_values(|f: FileData| f@))),
{
    let ghost models = list@.map_values(|f: FileData| f@);
    let ghost values = models.map_values(|f: FileDataModel| file_value(f));
    let mut items: Vec<String> = Vec::new();
    let mut i: usize = 0;
    while i < list.len()
        invariant
            i <= list@.len(),
            items@.len() == i,
            forall|j: int|
                0 <= j < i ==> #[trigger] items@[j]@ == written(file_value(list@[j]@)),
        decreases list@.len() - i,
    {
        items.push(file_text(&list[i]));
        i += 1;
    }
    assert(texts(items@) =~= values.map_values(|v: Json| written(v)));
    array(&items, Ghost(values))
}

fn chats_text(list: &Vec<ChatData>) -> (r: String)
    ensures
        r@ == written(chats_value(list@.map_values(|c: ChatData| c@))),
{
    let ghost models = list@.map_values(|c: ChatData| c@);
    let ghost values = models.map_values(|c: ChatDataModel| chat_value(c));
    let mut items: Vec<String> = Vec::new();
    let mut i: usize = 0;
    while i < list.len()
        invariant
            i <= list@.len(),
            items@.len() == i,
            forall|j: int|
                0 <= j < i ==> #[trigger] items@[j]@ == written(chat_value(list@[j]@)),
        decreases list@.len() - i,
    {
        items.push(chat_text(&list[i]));
        i += 1;
    }
    assert(texts(items@) =~= values.map_values(|v: Json| written(v)));
    array(&items, Ghost(values))
}

/// Writes a snapshot.
pub fn snapshot_text(s: &GroupSnapshot) -> (r: String)
    ensures
        r@ == written(snapshot_value(s@)),
{
    let ghost v = snapshot_value(s@);
    let mut m: Vec<String> = Vec::new();
    m.push(member("group", group_text(&s.group).as_str(), Ghost(v->Object_0[0].1)));
    m.push(
        member("workspaces", workspaces_text(&s.workspaces).as_str(), Ghost(v->Object_0[1].1)),
    );
    m.push(member("boards", boards_text(&s.boards).as_str(), Ghost(v->Object_0[2].1)));
    m.push(member("files", files_text(&s.files).as_str(), Ghost(v->Object_0[3].1)));
    m.push(member("recent_chats", chats_text(&s.recent_chats).as_str(), Ghost(v->Object_0[4].1)));
    m.push(number_member("snapshot_ts", s.snapshot_ts));
    assert(texts(m@) =~= v->Object_0.map_values(|m: (Seq<char>, Json)| written_member(m)));
    object(&m, Ghost(v))
}

proof fn lemma_group_value_injective(a: GroupDataModel, b: GroupDataModel)
    requires
        group_value(a) == group_value(b),
    ensures
        a == b,
{
    let x = group_value(a)->Object_0;
    let y = group_value(b)->Object_0;
    assert(x[0] == y[0] && x[1] == y[1] && x[2] == y[2] && x[3] == y[3]
        && x[4] == y[4]);
}

proof fn lemma_workspace_value_injective(a: WorkspaceDataModel, b: WorkspaceDataModel)
    requires
        workspace_value(a) == workspace_value(b),
    ensures
        a == b,
{
    let x = workspace_value(a)->Object_0;
    let y = workspace_value(b)->Object_0;
    assert(x[0] == y[0] && x[1] == y[1] && x[2] == y[2] && x[3] == y[3]);
}

proof fn lemma_board_value_injective(a: BoardDataModel, b: BoardDataModel)
    requires
        board_value(a) == board_value(b),
    ensures
        a == b,
{
    let x = board_value(a)->Object_0;
    let y = board_value(b)->Object_0;
    assert(x[0] == y[0] && x[1] == y[1] && x[2] == y[2] && x[3] == y[3]
        && x[4] == y[4]);
}

proof fn lemma_file_value_injective(a: FileDataModel, b: FileDataModel)
    requires
        file_value(a) == file_value(b),
    ensures
        a == b,
{
    let x = file_value(a)->Object_0;
    let y = file_value(b)->Object_0;
    assert(x[0] == y[0] && x[1] == y[1] && x[2] == y[2] && x[3] == y[3]
        && x[4] == y[4] && x[5] == y[5] && x[6] == y[6] && x[7] == y[7]);
}

proof fn lemma_chat_value_injective(a: ChatDataModel, b: ChatDataModel)
    requires
        chat_value(a) == chat_value(b),
    ensures
        a == b,
{
    let x = chat_value(a)->Object_0;
    let y = chat_value(b)->Object_0;
    assert(x[0] == y[0] && x[1] == y[1] && x[2] == y[2] && x[3] == y[3]
        && x[4] == y[4] && x[5] == y[5]);
}

proof fn lemma_workspaces_value_injective(a: Seq<WorkspaceDataModel>, b: Seq<WorkspaceDataModel>)
    requires
        workspaces_value(a) == workspaces_value(b),
    ensures
        a == b,
{
    let x = workspaces_value(a)->List_0;
    let y = workspaces_value(b)->List_0;
    assert(x.len() == a.len() && y.len() == b.len());
    assert forall|i: int| 0 <= i < a.len() implies a[i] == b[i] by {
        assert(x[i] == workspace_value(a[i]));
        assert(y[i] == workspace_value(b[i]));
        lemma_workspace_value_injective(a[i], b[i]);
    }
    assert(a =~= b);
}

proof fn lemma_boards_value_injective(a: Seq<BoardDataModel>, b: Seq<BoardDataModel>)
    requires
        boards_value(a) == boards_value(b),
    ensures
        a == b,
{
    let x = boards_value(a)->List_0;
    let y = boards_value(b)->List_0;
    assert(x.len() == a.len() && y.len() == b.len());
    assert forall|i: int| 0 <= i < a.len() implies a[i] == b[i] by {
        assert(x[i] == board_value(a[i]));
        assert(y[i] == board_value(b[i]));
        lemma_board_value_injective(a[i], b[i]);
    }
    assert(a =~= b);
}

proof fn lemma_files_value_injective(a: Seq<FileDataModel>, b: Seq<FileDataModel>)
    requires
        files_value(a) == files_value(b),
    ensures
        a == b,
{
    let x = files_value(a)->List_0;
    let y = files_value(b)->List_0;
    assert(x.len() == a.len() && y.len() == b.len());
    assert forall|i: int| 0 <= i < a.len() implies a[i] == b[i] by {
        assert(x[i] == file_value(a[i]));
        assert(y[i] == file_value(b[i]));
        lemma_file_value_injective(a[i], b[i]);
    }
    assert(a =~= b);
}

proof fn lemma_chats_value_injective(a: Seq<ChatDataModel>, b: Seq<ChatDataModel>)
    requires
        chats_value(a) == chats_value(b),
    ensures
        a == b,
{
    let x = chats_value(a)->List_0;
    let y = chats_value(b)->List_0;
    assert(x.len() == a.len() && y.len() == b.len());
    assert forall|i: int| 0 <= i < a.len() implies a[i] == b[i] by {
        assert(x[i] == chat_value(a[i]));
        assert(y[i] == chat_value(b[i]));
        lemma_chat_value_injective(a[i], b[i]);
    }
    assert(a =~= b);
}

/// The written form of a snapshot tells the snapshot.
pub proof fn law_snapshot_text_tells_snapshot(a: GroupSnapshotModel, b: GroupSnapshotModel)
    requires
        written(snapshot_value(a)) == written(snapshot_value(b)),
    ensures
        a == b,
{
    law_written_form_is_unique(snapshot_value(a), snapshot_value(b));
    let x = snapshot_value(a)->Object_0;
    let y = snapshot_value(b)->Object_0;
    assert(x[0] == y[0] && x[1] == y[1] && x[2] == y[2] && x[3] == y[3] && x[4] == y[4] && x[5]
        == y[5]);
    lemma_group_value_injective(a.group, b.group);
    lemma_workspaces_value_injective(a.workspaces, b.workspaces);
    lemma_boards_value_injective(a.boards, b.boards);
    lemma_files_value_injective(a.files, b.files);
    lemma_chats_value_injective(a.recent_chats, b.recent_chats);
}

} // verus!
