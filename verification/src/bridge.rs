//! The bridge from group events to the enrichment pipeline: what a group's events mean
//! ([`NetworkEvent`]), where their subjects belong ([`ScopeTracker`]), and what is forwarded of
//! them ([`RawEvent`]).

use vstd::prelude::*;

use crate::clock::{current_ts, gen_id, is_drawn_id, is_now, is_uuid_v4};
use crate::json::{
    number_member, object, optional, optional_text_member, text_member, written, written_member,
    Json,
};
use crate::string_map::StringMap;
use crate::text::{blank, is_blank, joined, opt_text, texts};

verus! {

// ---------------------------------------------------------------------------------------------
// Group events
// ---------------------------------------------------------------------------------------------

/// A group as its creation announces it.
#[derive(Debug, Clone)]
pub struct Group {
    pub id: String,
    pub name: String,
    pub icon: String,
    pub color: String,
    pub created_at: i64,
}

/// A workspace as its creation announces it.
#[derive(Debug, Clone)]
pub struct Workspace {
    pub id: String,
    pub group_id: String,
    pub name: String,
    pub created_at: i64,
}

/// An event of a group. The geometry of whiteboard elements and cells is not carried: nothing
/// here reads it.
#[derive(Debug, Clone)]
pub enum NetworkEvent {
    GroupSnapshotAvailable { source: String, group_id: String },
    GroupCreated(Group),
    GroupRenamed { id: String, name: String },
    GroupDeleted { id: String },
    GroupDissolved { id: String },
    WorkspaceCreated(Workspace),
    WorkspaceRenamed { id: String, name: String },
    WorkspaceDeleted { id: String },
    WorkspaceDissolved { id: String },
    BoardCreated { id: String, workspace_id: String, name: String, created_at: i64 },
    BoardRenamed { id: String, name: String },
    BoardDeleted { id: String },
    BoardDissolved { id: String },
    FileAvailable {
        id: String,
        group_id: Option<String>,
        workspace_id: Option<String>,
        board_id: Option<String>,
        name: String,
        hash: String,
        size: u64,
        source_peer: String,
        created_at: i64,
    },
    ChatSent {
        id: String,
        workspace_id: String,
        message: String,
        author: String,
        parent_id: Option<String>,
        timestamp: i64,
    },
    ChatDeleted { id: String },
    WhiteboardElementAdded {
        id: String,
        board_id: String,
        element_type: String,
        z_index: i32,
        style_json: Option<String>,
        content_json: Option<String>,
        created_at: i64,
        updated_at: i64,
    },
    WhiteboardElementUpdated {
        id: String,
        board_id: String,
        element_type: String,
        z_index: i32,
        style_json: Option<String>,
        content_json: Option<String>,
        updated_at: i64,
    },
    WhiteboardElementDeleted { id: String, board_id: String },
    WhiteboardCleared { board_id: String },
    NotebookCellAdded {
        id: String,
        board_id: String,
        cell_type: String,
        cell_order: i32,
        content: Option<String>,
    },
    NotebookCellUpdated {
        id: String,
        board_id: String,
        cell_type: String,
        cell_order: i32,
        content: Option<String>,
        output: Option<String>,
        collapsed: bool,
        metadata_json: Option<String>,
    },
    NotebookCellDeleted { id: String, board_id: String },
    NotebookCellsReordered { board_id: String, cell_ids: Vec<String> },
    BoardModeChanged { board_id: String, mode: String },
    BoardMetadataUpdated {
        board_id: String,
        labels: Vec<String>,
        rating: i32,
        contains_model: Option<String>,
        contains_skills: Vec<String>,
    },
    BoardLabelsUpdated { board_id: String, labels: Vec<String> },
    BoardRated { board_id: String, rating: i32 },
    ProfileUpdated { node_id: String, display_name: String, avatar_hash: Option<String> },
}

// ---------------------------------------------------------------------------------------------
// Scopes
// ---------------------------------------------------------------------------------------------

/// Which group each known workspace belongs to, and which workspace each known board.
pub struct Scopes {
    pub groups: Map<Seq<char>, Seq<char>>,
    pub workspaces: Map<Seq<char>, Seq<char>>,
}

/// The value of a key, or a fallback.
pub open spec fn known_or(
    m: Map<Seq<char>, Seq<char>>,
    key: Seq<char>,
    fallback: Seq<char>,
) -> Seq<char> {
    if m.contains_key(key) {
        m[key]
    } else {
        fallback
    }
}

impl Scopes {
    /// The workspace of a board, `unknown` where it was not tracked.
    pub open spec fn workspace_of_board(self, board_id: Seq<char>) -> Seq<char> {
        known_or(self.workspaces, board_id, "unknown"@)
    }

    /// The group of a board: that of its workspace, `unknown` where that was not tracked.
    pub open spec fn group_of_board(self, board_id: Seq<char>) -> Seq<char> {
        known_or(self.groups, self.workspace_of_board(board_id), "unknown"@)
    }

    /// The scopes once a workspace was tracked.
    pub open spec fn with_workspace(self, workspace_id: Seq<char>, group_id: Seq<char>) -> Scopes {
        Scopes { groups: self.groups.insert(workspace_id, group_id), ..self }
    }

    /// The scopes once a board was tracked.
    pub open spec fn with_board(self, board_id: Seq<char>, workspace_id: Seq<char>) -> Scopes {
        Scopes { workspaces: self.workspaces.insert(board_id, workspace_id), ..self }
    }
}

/// Tracks which workspace and group the subject of an event belongs to.
pub struct ScopeTracker {
    workspace_to_group: StringMap<String>,
    board_to_workspace: StringMap<String>,
}

impl View for ScopeTracker {
    type V = Scopes;

    closed spec fn view(&self) -> Scopes {
        Scopes {
            groups: self.workspace_to_group@.map_values(|s: String| s@),
            workspaces: self.board_to_workspace@.map_values(|s: String| s@),
        }
    }
}

impl ScopeTracker {
    /// Both maps are well formed.
    pub closed spec fn wf(&self) -> bool {
        self.workspace_to_group.wf() && self.board_to_workspace.wf()
    }

    /// Nothing is tracked yet.
    pub fn new() -> (r: Self)
        ensures
            r.wf(),
            r@ == (Scopes { groups: Map::empty(), workspaces: Map::empty() }),
    {
        let r = ScopeTracker {
            workspace_to_group: StringMap::new(),
            board_to_workspace: StringMap::new(),
        };
        assert(r@.groups =~= Map::empty());
        assert(r@.workspaces =~= Map::empty());
        r
    }

    /// Records the group of a workspace.
    pub fn track_workspace(&mut self, workspace_id: &str, group_id: &str)
        requires
            old(self).wf(),
        ensures
            final(self).wf(),
            final(self)@ == old(self)@.with_workspace(workspace_id@, group_id@),
    {
        let ghost before = self@;
        self.workspace_to_group.insert(workspace_id.to_owned(), group_id.to_owned());
        assert(self@.groups =~= before.groups.insert(workspace_id@, group_id@));
        assert(self@.workspaces =~= before.workspaces);
    }

    /// Records the workspace of a board.
    pub fn track_board(&mut self, board_id: &str, workspace_id: &str)
        requires
            old(self).wf(),
        ensures
            final(self).wf(),
            final(self)@ == old(self)@.with_board(board_id@, workspace_id@),
    {
        let ghost before = self@;
        self.board_to_workspace.insert(board_id.to_owned(), workspace_id.to_owned());
        assert(self@.groups =~= before.groups);
        assert(self@.workspaces =~= before.workspaces.insert(board_id@, workspace_id@));
    }

    /// The group of a workspace, where it was tracked.
    pub fn get_group_for_workspace(&self, workspace_id: &str) -> (r: Option<&String>)
        requires
            self.wf(),
        ensures
            match r {
                Some(g) => self@.groups.contains_key(workspace_id@) && g@
                    == self@.groups[workspace_id@],
                None => !self@.groups.contains_key(workspace_id@),
            },
    {
        self.workspace_to_group.get(workspace_id)
    }

    /// The workspace of a board, where it was tracked.
    pub fn get_workspace_for_board(&self, board_id: &str) -> (r: Option<&String>)
        requires
            self.wf(),
        ensures
            match r {
                Some(w) => self@.workspaces.contains_key(board_id@) && w@
                    == self@.workspaces[board_id@],
                None => !self@.workspaces.contains_key(board_id@),
            },
    {
        self.board_to_workspace.get(board_id)
    }

    /// The group and the workspace of a board, each `unknown` where it was not tracked.
    pub fn get_scope_for_board(&self, board_id: &str) -> (r: (String, String))
        requires
            self.wf(),
        ensures
            r.0@ == self@.group_of_board(board_id@),
            r.1@ == self@.workspace_of_board(board_id@),
    {
        let workspace_id: String = match self.get_workspace_for_board(board_id) {
            Some(w) => w.clone(),
            None => "unknown".to_owned(),
        };
        let group_id: String = match self.get_group_for_workspace(workspace_id.as_str()) {
            Some(g) => g.clone(),
            None => "unknown".to_owned(),
        };
        (group_id, workspace_id)
    }

    /// The numbers of workspaces and of boards that are tracked.
    pub fn sizes(&self) -> (r: (usize, usize))
        requires
            self.wf(),
        ensures
            r.0 == self@.groups.len(),
            r.1 == self@.workspaces.len(),
    {
        let r: (usize, usize) = (self.workspace_to_group.len(), self.board_to_workspace.len());
        proof {
            self.workspace_to_group.lemma_len();
            self.board_to_workspace.lemma_len();
            assert(self@.groups.dom() =~= self.workspace_to_group@.dom());
            assert(self@.workspaces.dom() =~= self.board_to_workspace@.dom());
        }
        r
    }
}

// ---------------------------------------------------------------------------------------------
// Raw events
// ---------------------------------------------------------------------------------------------

/// An event in the form that the enrichment pipeline takes.
#[derive(Debug, Clone)]
pub struct RawEvent {
    pub id: String,
    pub group_id: String,
    pub workspace_id: String,
    /// Where the event arose: `cyan`, `cyan_board`, `cyan_chat`, `cyan_file`, and so on.
    pub source: String,
    /// What the content is: `cyan_group`, `cyan_chat`, `cyan_file`, and so on.
    pub content_kind: String,
    pub external_id: String,
    pub content: String,
    pub author_id: String,
    pub author_name: String,
    pub url: String,
    pub title: Option<String>,
    pub thread_id: Option<String>,
    pub parent_id: Option<String>,
    pub ts: u64,
    pub captured_at: u64,
}

/// The model of a [`RawEvent`].
pub struct RawEventModel {
    pub id: Seq<char>,
    pub group_id: Seq<char>,
    pub workspace_id: Seq<char>,
    pub source: Seq<char>,
    pub content_kind: Seq<char>,
    pub external_id: Seq<char>,
    pub content: Seq<char>,
    pub author_id: Seq<char>,
    pub author_name: Seq<char>,
    pub url: Seq<char>,
    pub title: Option<Seq<char>>,
    pub thread_id: Option<Seq<char>>,
    pub parent_id: Option<Seq<char>>,
    pub ts: u64,
    pub captured_at: u64,
}

impl View for RawEvent {
    type V = RawEventModel;

    open spec fn view(&self) -> RawEventModel {
        RawEventModel {
            id: self.id@,
            group_id: self.group_id@,
            workspace_id: self.workspace_id@,
            source: self.source@,
            content_kind: self.content_kind@,
            external_id: self.external_id@,
            content: self.content@,
            author_id: self.author_id@,
            author_name: self.author_name@,
            url: self.url@,
            title: opt_text(self.title),
            thread_id: opt_text(self.thread_id),
            parent_id: opt_text(self.parent_id),
            ts: self.ts,
            captured_at: self.captured_at,
        }
    }
}

/// A raw event that says nothing yet: every text is empty, and it happened when it was captured.
pub open spec fn empty_raw_event(id: Seq<char>, now: u64) -> RawEventModel {
    RawEventModel {
        id,
        group_id: Seq::empty(),
        workspace_id: Seq::empty(),
        source: Seq::empty(),
        content_kind: Seq::empty(),
        external_id: Seq::empty(),
        content: Seq::empty(),
        author_id: Seq::empty(),
        author_name: Seq::empty(),
        url: Seq::empty(),
        title: None,
        thread_id: None,
        parent_id: None,
        ts: now,
        captured_at: now,
    }
}

/// A signed time as an unsigned one: times before the epoch wrap around.
pub open spec fn unsigned_time(t: i64) -> u64 {
    if t >= 0 {
        t as u64
    } else {
        (t + 0x1_0000_0000_0000_0000) as u64
    }
}

/// The content of a group's creation.
pub open spec fn group_created_content(g: Group) -> Json {
    Json::Object(
        seq![
            ("action"@, Json::Text("created"@)),
            ("color"@, Json::Text(g.color@)),
            ("icon"@, Json::Text(g.icon@)),
            ("name"@, Json::Text(g.name@)),
        ],
    )
}

/// The content of an event that says no more than what was done and a name.
pub open spec fn named_action_content(action: Seq<char>, name: Seq<char>) -> Json {
    Json::Object(
        seq![
            ("action"@, Json::Text(action)),
            ("name"@, Json::Text(name)),
        ],
    )
}

/// The content of a board's creation.
pub open spec fn board_created_content(board_id: Seq<char>, name: Seq<char>) -> Json {
    Json::Object(
        seq![
            ("action"@, Json::Text("created"@)),
            ("board_id"@, Json::Text(board_id)),
            ("name"@, Json::Text(name)),
        ],
    )
}

/// The content of a file's announcement.
pub open spec fn file_content(
    board_id: Option<Seq<char>>,
    name: Seq<char>,
    hash: Seq<char>,
    size: u64,
    source_peer: Seq<char>,
) -> Json {
    Json::Object(
        seq![
            ("board_id"@, optional(board_id)),
            ("filename"@, Json::Text(name)),
            ("hash"@, Json::Text(hash)),
            ("size"@, Json::Number(size as int)),
            ("source_peer"@, Json::Text(source_peer)),
        ],
    )
}

/// The content of a new whiteboard element.
pub open spec fn element_content(
    board_id: Seq<char>,
    content: Option<Seq<char>>,
    element_type: Seq<char>,
) -> Json {
    Json::Object(
        seq![
            ("action"@, Json::Text("added"@)),
            ("board_id"@, Json::Text(board_id)),
            ("content"@, optional(content)),
            ("element_type"@, Json::Text(element_type)),
        ],
    )
}

/// An optional text, empty where there is none.
pub open spec fn text_or_empty(o: Option<String>) -> Seq<char> {
    match o {
        Some(s) => s@,
        None => Seq::empty(),
    }
}

/// What an event adds to the known scopes: the creation of a workspace or of a board is tracked.
pub open spec fn scopes_after(event: NetworkEvent, scopes: Scopes) -> Scopes {
    match event {
        NetworkEvent::WorkspaceCreated(ws) => scopes.with_workspace(ws.id@, ws.group_id@),
        NetworkEvent::BoardCreated { id, workspace_id, .. } => scopes.with_board(
            id@,
            workspace_id@,
        ),
        _ => scopes,
    }
}

/// What is forwarded of a notebook cell: nothing where it has no text but white space.
pub open spec fn cell_raw_event(
    cell_id: Seq<char>,
    board_id: Seq<char>,
    content: Option<String>,
    scopes: Scopes,
    empty: RawEventModel,
) -> Option<RawEventModel> {
    if is_blank(text_or_empty(content)) {
        None
    } else {
        Some(
            RawEventModel {
                group_id: scopes.group_of_board(board_id),
                workspace_id: scopes.workspace_of_board(board_id),
                source: "cyan_notebook"@,
                content_kind: "cyan_notebook_cell"@,
                external_id: cell_id,
                content: text_or_empty(content),
                thread_id: Some(board_id),
                ..empty
            },
        )
    }
}

/// What is forwarded of an event that came over the topic of a group, given the scopes known so
/// far, an identifier and the time. Deletions, renames other than a group's, and changes of
/// metadata are not forwarded.
pub open spec fn raw_event_of(
    event: NetworkEvent,
    topic_group: Seq<char>,
    scopes: Scopes,
    id: Seq<char>,
    now: u64,
) -> Option<RawEventModel> {
    let empty = empty_raw_event(id, now);
    match event {
        NetworkEvent::GroupCreated(g) => Some(
            RawEventModel {
                group_id: g.id@,
                source: "cyan"@,
                content_kind: "cyan_group"@,
                external_id: g.id@,
                content: written(group_created_content(g)),
                title: Some("Group created: "@ + g.name@),
                ts: unsigned_time(g.created_at),
                ..empty
            },
        ),
        NetworkEvent::GroupRenamed { id, name } => Some(
            RawEventModel {
                group_id: id@,
                source: "cyan"@,
                content_kind: "cyan_group"@,
                external_id: id@,
                content: written(named_action_content("renamed"@, name@)),
                title: Some("Group renamed: "@ + name@),
                ..empty
            },
        ),
        NetworkEvent::WorkspaceCreated(ws) => Some(
            RawEventModel {
                group_id: ws.group_id@,
                workspace_id: ws.id@,
                source: "cyan"@,
                content_kind: "cyan_workspace"@,
                external_id: ws.id@,
                content: written(named_action_content("created"@, ws.name@)),
                title: Some("Workspace created: "@ + ws.name@),
                ts: unsigned_time(ws.created_at),
                ..empty
            },
        ),
        NetworkEvent::BoardCreated { id, workspace_id, name, created_at } => Some(
            RawEventModel {
                group_id: known_or(scopes.groups, workspace_id@, topic_group),
                workspace_id: workspace_id@,
                source: "cyan_board"@,
                content_kind: "cyan_board"@,
                external_id: id@,
                content: written(board_created_content(id@, name@)),
                title: Some("Board created: "@ + name@),
                ts: unsigned_time(created_at),
                ..empty
            },
        ),
        NetworkEvent::ChatSent { id, workspace_id, message, author, parent_id, timestamp } => Some(
            RawEventModel {
                group_id: known_or(scopes.groups, workspace_id@, topic_group),
                workspace_id: workspace_id@,
                source: "cyan_chat"@,
                content_kind: "cyan_chat"@,
                external_id: id@,
                content: message@,
                author_id: author@,
                author_name: author@,
                parent_id: opt_text(parent_id),
                ts: unsigned_time(timestamp),
                ..empty
            },
        ),
        NetworkEvent::FileAvailable {
            id,
            group_id,
            workspace_id,
            board_id,
            name,
            hash,
            size,
            source_peer,
            created_at,
        } => Some(
            RawEventModel {
                group_id: match group_id {
                    Some(g) => g@,
                    None => topic_group,
                },
                workspace_id: text_or_empty(workspace_id),
                source: "cyan_file"@,
                content_kind: "cyan_file"@,
                external_id: id@,
                content: written(file_content(opt_text(board_id), name@, hash@, size, source_peer@)),
                author_id: source_peer@,
                author_name: source_peer@,
                title: Some(name@),
                ts: unsigned_time(created_at),
                ..empty
            },
        ),
        NetworkEvent::WhiteboardElementAdded {
            id,
            board_id,
            element_type,
            content_json,
            created_at,
            ..
        } => Some(
            RawEventModel {
                group_id: scopes.group_of_board(board_id@),
                workspace_id: scopes.workspace_of_board(board_id@),
                source: "cyan_whiteboard"@,
                content_kind: "cyan_whiteboard_element"@,
                external_id: id@,
                content: written(element_content(board_id@, opt_text(content_json), element_type@)),
                thread_id: Some(board_id@),
                ts: unsigned_time(created_at),
                ..empty
            },
        ),
        NetworkEvent::NotebookCellAdded { id, board_id, content, .. } => cell_raw_event(
            id@,
            board_id@,
            content,
            scopes,
            empty,
        ),
        NetworkEvent::NotebookCellUpdated { id, board_id, content, .. } => cell_raw_event(
            id@,
            board_id@,
            content,
            scopes,
            empty,
        ),
        _ => None,
    }
}

fn unsigned(t: i64) -> (r: u64)
    ensures
        r == unsigned_time(t),
{
    assert(t < 0 ==> t as u64 == t + 0x1_0000_0000_0000_0000) by (bit_vector);
    t as u64
}

fn empty_raw(id: String, now: u64) -> (r: RawEvent)
    ensures
        r@ == empty_raw_event(id@, now),
{
    RawEvent {
        id,
        group_id: String::new(),
        workspace_id: String::new(),
        source: String::new(),
        content_kind: String::new(),
        external_id: String::new(),
        content: String::new(),
        author_id: String::new(),
        author_name: String::new(),
        url: String::new(),
        title: None,
        thread_id: None,
        parent_id: None,
        ts: now,
        captured_at: now,
    }
}

fn write_group_created(g: &Group) -> (r: String)
    ensures
        r@ == written(group_created_content(*g)),
{
    let ghost v = group_created_content(*g);
    let mut m: Vec<String> = Vec::new();
    m.push(text_member("action", "created"));
    m.push(text_member("color", g.color.as_str()));
    m.push(text_member("icon", g.icon.as_str()));
    m.push(text_member("name", g.name.as_str()));
    assert(texts(m@) =~= v->Object_0.map_values(|m: (Seq<char>, Json)| written_member(m)));
    object(&m, Ghost(v))
}

fn write_named_action(action: &str, name: &str) -> (r: String)
    ensures
        r@ == written(named_action_content(action@, name@)),
{
    let ghost v = named_action_content(action@, name@);
    let mut m: Vec<String> = Vec::new();
    m.push(text_member("action", action));
    m.push(text_member("name", name));
    assert(texts(m@) =~= v->Object_0.map_values(|m: (Seq<char>, Json)| written_member(m)));
    object(&m, Ghost(v))
}

fn write_board_created(board_id: &str, name: &str) -> (r: String)
    ensures
        r@ == written(board_created_content(board_id@, name@)),
{
    let ghost v = board_created_content(board_id@, name@);
    let mut m: Vec<String> = Vec::new();
    m.push(text_member("action", "created"));
    m.push(text_member("board_id", board_id));
    m.push(text_member("name", name));
    assert(texts(m@) =~= v->Object_0.map_values(|m: (Seq<char>, Json)| written_member(m)));
    object(&m, Ghost(v))
}

fn write_file(
    board_id: &Option<String>,
    name: &str,
    hash: &str,
    size: u64,
    source_peer: &str,
) -> (r: String)
    ensures
        r@ == written(file_content(opt_text(*board_id), name@, hash@, size, source_peer@)),
{
    let ghost v = file_content(opt_text(*board_id), name@, hash@, size, source_peer@);
    let mut m: Vec<String> = Vec::new();
    m.push(optional_text_member("board_id", board_id));
    m.push(text_member("filename", name));
    m.push(text_member("hash", hash));
    m.push(number_member("size", size));
    m.push(text_member("source_peer", source_peer));
    assert(texts(m@) =~= v->Object_0.map_values(|m: (Seq<char>, Json)| written_member(m)));
    object(&m, Ghost(v))
}

fn write_element(board_id: &str, content: &Option<String>, element_type: &str) -> (r: String)
    ensures
        r@ == written(element_content(board_id@, opt_text(*content), element_type@)),
{
    let ghost v = element_content(board_id@, opt_text(*content), element_type@);
    let mut m: Vec<String> = Vec::new();
    m.push(text_member("action", "added"));
    m.push(text_member("board_id", board_id));
    m.push(optional_text_member("content", content));
    m.push(text_member("element_type", element_type));
    assert(texts(m@) =~= v->Object_0.map_values(|m: (Seq<char>, Json)| written_member(m)));
    object(&m, Ghost(v))
}

fn convert_cell(
    cell_id: &String,
    board_id: &String,
    content: &Option<String>,
    tracker: &ScopeTracker,
    id: String,
    now: u64,
) -> (r: Option<RawEvent>)
    requires
        tracker.wf(),
    ensures
        match r {
            Some(e) => cell_raw_event(
                cell_id@,
                board_id@,
                *content,
                tracker@,
                empty_raw_event(id@, now),
            ) == Some(e@),
            None => cell_raw_event(
                cell_id@,
                board_id@,
                *content,
                tracker@,
                empty_raw_event(id@, now),
            ) is None,
        },
{
    let text: String = match content {
        Some(c) => c.clone(),
        None => String::new(),
    };
    if blank(text.as_str()) {
        return None;
    }
    let (group_id, workspace_id) = tracker.get_scope_for_board(board_id.as_str());
    let mut e: RawEvent = empty_raw(id, now);
    e.group_id = group_id;
    e.workspace_id = workspace_id;
    e.source = "cyan_notebook".to_owned();
    e.content_kind = "cyan_notebook_cell".to_owned();
    e.external_id = cell_id.clone();
    e.content = text;
    e.thread_id = Some(board_id.clone());
    Some(e)
}

fn group_or_topic(tracker: &ScopeTracker, workspace_id: &String, topic_group: &str) -> (r: String)
    requires
        tracker.wf(),
    ensures
        r@ == known_or(tracker@.groups, workspace_id@, topic_group@),
{
    match tracker.get_group_for_workspace(workspace_id.as_str()) {
        Some(g) => g.clone(),
        None => topic_group.to_owned(),
    }
}

/// Converts an event of a group, given the identifier and the time that the result carries.
pub fn convert_network_event_at(
    event: &NetworkEvent,
    group_id_from_topic: &str,
    tracker: &mut ScopeTracker,
    id: String,
    now: u64,
) -> (r: Option<RawEvent>)
    requires
        old(tracker).wf(),
    ensures
        final(tracker).wf(),
        final(tracker)@ == scopes_after(*event, old(tracker)@),
        match r {
            Some(e) => raw_event_of(
                *event,
                group_id_from_topic@,
                final(tracker)@,
                id@,
                now,
            ) == Some(e@),
            None => raw_event_of(*event, group_id_from_topic@, final(tracker)@, id@, now) is None,
        },
{
    match event {
        NetworkEvent::GroupCreated(g) => {
            let mut e: RawEvent = empty_raw(id, now);
            e.group_id = g.id.clone();
            e.source = "cyan".to_owned();
            e.content_kind = "cyan_group".to_owned();
            e.external_id = g.id.clone();
            e.content = write_group_created(g);
            e.title = Some(joined("Group created: ", g.name.as_str()));
            e.ts = unsigned(g.created_at);
            Some(e)
        },
        NetworkEvent::GroupRenamed { id: group_id, name } => {
            let mut e: RawEvent = empty_raw(id, now);
            e.group_id = group_id.clone();
            e.source = "cyan".to_owned();
            e.content_kind = "cyan_group".to_owned();
            e.external_id = group_id.clone();
            e.content = write_named_action("renamed", name.as_str());
            e.title = Some(joined("Group renamed: ", name.as_str()));
            Some(e)
        },
        NetworkEvent::WorkspaceCreated(ws) => {
            tracker.track_workspace(ws.id.as_str(), ws.group_id.as_str());
            let mut e: RawEvent = empty_raw(id, now);
            e.group_id = ws.group_id.clone();
            e.workspace_id = ws.id.clone();
            e.source = "cyan".to_owned();
            e.content_kind = "cyan_workspace".to_owned();
            e.external_id = ws.id.clone();
            e.content = write_named_action("created", ws.name.as_str());
            e.title = Some(joined("Workspace created: ", ws.name.as_str()));
            e.ts = unsigned(ws.created_at);
            Some(e)
        },
        NetworkEvent::BoardCreated { id: board_id, workspace_id, name, created_at } => {
            tracker.track_board(board_id.as_str(), workspace_id.as_str());
            let mut e: RawEvent = empty_raw(id, now);
            e.group_id = group_or_topic(tracker, workspace_id, group_id_from_topic);
            e.workspace_id = workspace_id.clone();
            e.source = "cyan_board".to_owned();
            e.content_kind = "cyan_board".to_owned();
            e.external_id = board_id.clone();
            e.content = write_board_created(board_id.as_str(), name.as_str());
            e.title = Some(joined("Board created: ", name.as_str()));
            e.ts = unsigned(*created_at);
            Some(e)
        },
        NetworkEvent::ChatSent { id: chat_id, workspace_id, message, author, parent_id, timestamp } => {
            let mut e: RawEvent = empty_raw(id, now);
            e.group_id = group_or_topic(tracker, workspace_id, group_id_from_topic);
            e.workspace_id = workspace_id.clone();
            e.source = "cyan_chat".to_owned();
            e.content_kind = "cyan_chat".to_owned();
            e.external_id = chat_id.clone();
            e.content = message.clone();
            e.author_id = author.clone();
            e.author_name = author.clone();
            e.parent_id = parent_id.clone();
            e.ts = unsigned(*timestamp);
            Some(e)
        },
        NetworkEvent::FileAvailable {
            id: file_id,
            group_id,
            workspace_id,
            board_id,
            name,
            hash,
            size,
            source_peer,
            created_at,
        } => {
            let mut e: RawEvent = empty_raw(id, now);
            e.group_id = match group_id {
                Some(g) => g.clone(),
                None => group_id_from_topic.to_owned(),
            };
            e.workspace_id = match workspace_id {
                Some(w) => w.clone(),
                None => String::new(),
            };
            e.source = "cyan_file".to_owned();
            e.content_kind = "cyan_file".to_owned();
            e.external_id = file_id.clone();
            e.content = write_file(board_id, name.as_str(), hash.as_str(), *size, source_peer.as_str());
            e.author_id = source_peer.clone();
            e.author_name = source_peer.clone();
            e.title = Some(name.clone());
            e.ts = unsigned(*created_at);
            Some(e)
        },
        NetworkEvent::WhiteboardElementAdded {
            id: element_id,
            board_id,
            element_type,
            content_json,
            created_at,
            ..
        } => {
            let (group_id, workspace_id) = tracker.get_scope_for_board(board_id.as_str());
            let mut e: RawEvent = empty_raw(id, now);
            e.group_id = group_id;
            e.workspace_id = workspace_id;
            e.source = "cyan_whiteboard".to_owned();
            e.content_kind = "cyan_whiteboard_element".to_owned();
            e.external_id = element_id.clone();
            e.content = write_element(board_id.as_str(), content_json, element_type.as_str());
            e.thread_id = Some(board_id.clone());
            e.ts = unsigned(*created_at);
            Some(e)
        },
        NetworkEvent::NotebookCellAdded { id: cell_id, board_id, content, .. } => {
            convert_cell(cell_id, board_id, content, tracker, id, now)
        },
        NetworkEvent::NotebookCellUpdated { id: cell_id, board_id, content, .. } => {
            convert_cell(cell_id, board_id, content, tracker, id, now)
        },
        _ => None,
    }
}

/// Converts an event of a group, under a fresh identifier and at the present time.
pub fn convert_network_event(
    event: &NetworkEvent,
    group_id_from_topic: &str,
    tracker: &mut ScopeTracker,
) -> (r: Option<RawEvent>)
    requires
        old(tracker).wf(),
    ensures
        final(tracker).wf(),
        final(tracker)@ == scopes_after(*event, old(tracker)@),
        exists|id: Seq<char>, now: u64|
            is_drawn_id(id) && is_uuid_v4(id) && is_now(now) && match r {
                Some(e) => #[trigger] raw_event_of(
                    *event,
                    group_id_from_topic@,
                    final(tracker)@,
                    id,
                    now,
                ) == Some(e@),
                None => raw_event_of(
                    *event,
                    group_id_from_topic@,
                    final(tracker)@,
                    id,
                    now,
                ) is None,
            },
{
    let now: u64 = current_ts();
    let id: String = gen_id();
    let ghost drawn = id@;
    let r: Option<RawEvent> = convert_network_event_at(event, group_id_from_topic, tracker, id, now);
    assert(is_drawn_id(drawn) && is_uuid_v4(drawn) && is_now(now));
    r
}

/// The scopes after events came by, one after the other.
pub open spec fn scopes_after_all(scopes: Scopes, events: Seq<NetworkEvent>) -> Scopes
    decreases events.len(),
{
    if events.len() == 0 {
        scopes
    } else {
        scopes_after(events.last(), scopes_after_all(scopes, events.drop_last()))
    }
}

/// Whether an event is the creation of a workspace in a group.
pub open spec fn creates_workspace(e: NetworkEvent, id: Seq<char>, group_id: Seq<char>) -> bool {
    e matches NetworkEvent::WorkspaceCreated(ws) && ws.id@ == id && ws.group_id@ == group_id
}

/// Whether an event is the creation of a board in a workspace.
pub open spec fn creates_board(e: NetworkEvent, board_id: Seq<char>, workspace: Seq<char>) -> bool {
    e matches NetworkEvent::BoardCreated { id, workspace_id, .. } && id@ == board_id
        && workspace_id@ == workspace
}

proof fn lemma_group_is_learned(
    scopes: Scopes,
    events: Seq<NetworkEvent>,
    i: int,
    workspace_id: Seq<char>,
    group_id: Seq<char>,
)
    requires
        0 <= i < events.len(),
        creates_workspace(events[i], workspace_id, group_id),
        forall|k: int, g: Seq<char>|
            i < k < events.len() && #[trigger] creates_workspace(events[k], workspace_id, g) ==> g
                == group_id,
    ensures
        known_or(scopes_after_all(scopes, events).groups, workspace_id, "unknown"@) == group_id,
        scopes_after_all(scopes, events).groups.contains_key(workspace_id),
    decreases events.len(),
{
    let earlier = events.drop_last();
    let last = events.last();
    if i < earlier.len() {
        assert(earlier[i] == events[i]);
        assert forall|k: int, g: Seq<char>|
            i < k < earlier.len() && #[trigger] creates_workspace(
                earlier[k],
                workspace_id,
                g,
            ) implies g == group_id by {
            assert(earlier[k] == events[k]);
            assert(creates_workspace(events[k], workspace_id, g));
        }
        lemma_group_is_learned(scopes, earlier, i, workspace_id, group_id);
        if last is WorkspaceCreated && last->WorkspaceCreated_0.id@ == workspace_id {
            let g = last->WorkspaceCreated_0.group_id@;
            assert(creates_workspace(events[events.len() - 1], workspace_id, g));
        }
    }
}

proof fn lemma_workspace_is_learned(
    scopes: Scopes,
    events: Seq<NetworkEvent>,
    j: int,
    board_id: Seq<char>,
    workspace_id: Seq<char>,
)
    requires
        0 <= j < events.len(),
        creates_board(events[j], board_id, workspace_id),
        forall|k: int, w: Seq<char>|
            j < k < events.len() && #[trigger] creates_board(events[k], board_id, w) ==> w
                == workspace_id,
    ensures
        scopes_after_all(scopes, events).workspace_of_board(board_id) == workspace_id,
        scopes_after_all(scopes, events).workspaces.contains_key(board_id),
    decreases events.len(),
{
    let earlier = events.drop_last();
    let last = events.last();
    if j < earlier.len() {
        assert(earlier[j] == events[j]);
        assert forall|k: int, w: Seq<char>|
            j < k < earlier.len() && #[trigger] creates_board(
                earlier[k],
                board_id,
                w,
            ) implies w == workspace_id by {
            assert(earlier[k] == events[k]);
            assert(creates_board(events[k], board_id, w));
        }
        lemma_workspace_is_learned(scopes, earlier, j, board_id, workspace_id);
        if last is BoardCreated && last->BoardCreated_id@ == board_id {
            let w = last->BoardCreated_workspace_id@;
            assert(creates_board(events[events.len() - 1], board_id, w));
        }
    }
}

/// What was learned of a workspace and of a board places the events of the board. Once both were
/// created, in whichever order and whatever came by before, between and after, what is drawn on the
/// board belongs to the workspace and its group, whatever topic it comes over; unless the workspace
/// or the board was created anew somewhere else since.
pub proof fn law_scopes_are_learned(
    scopes: Scopes,
    events: Seq<NetworkEvent>,
    i: int,
    j: int,
    board_id: Seq<char>,
    workspace_id: Seq<char>,
    group_id: Seq<char>,
)
    requires
        0 <= i < events.len(),
        0 <= j < events.len(),
        creates_workspace(events[i], workspace_id, group_id),
        creates_board(events[j], board_id, workspace_id),
        forall|k: int, g: Seq<char>|
            i < k < events.len() && #[trigger] creates_workspace(events[k], workspace_id, g) ==> g
                == group_id,
        forall|k: int, w: Seq<char>|
            j < k < events.len() && #[trigger] creates_board(events[k], board_id, w) ==> w
                == workspace_id,
    ensures
        scopes_after_all(scopes, events).workspace_of_board(board_id) == workspace_id,
        scopes_after_all(scopes, events).group_of_board(board_id) == group_id,
{
    lemma_group_is_learned(scopes, events, i, workspace_id, group_id);
    lemma_workspace_is_learned(scopes, events, j, board_id, workspace_id);
}

/// Whatever is forwarded carries the identifier that was drawn for it and the time at which it was
/// captured.
pub proof fn law_forwarded_events_are_stamped(
    event: NetworkEvent,
    topic_group: Seq<char>,
    scopes: Scopes,
    id: Seq<char>,
    now: u64,
)
    ensures
        raw_event_of(event, topic_group, scopes, id, now) matches Some(e) ==> e.id == id
            && e.captured_at == now,
{
}

/// The JSON value of a raw event.
pub open spec fn raw_event_value(e: RawEventModel) -> Json {
    Json::Object(
        seq![
            ("id"@, Json::Text(e.id)),
            ("group_id"@, Json::Text(e.group_id)),
            ("workspace_id"@, Json::Text(e.workspace_id)),
            ("source"@, Json::Text(e.source)),
            ("content_kind"@, Json::Text(e.content_kind)),
            ("external_id"@, Json::Text(e.external_id)),
            ("content"@, Json::Text(e.content)),
            ("author_id"@, Json::Text(e.author_id)),
            ("author_name"@, Json::Text(e.author_name)),
            ("url"@, Json::Text(e.url)),
            ("title"@, optional(e.title)),
            ("thread_id"@, optional(e.thread_id)),
            ("parent_id"@, optional(e.parent_id)),
            ("ts"@, Json::Number(e.ts as int)),
            ("captured_at"@, Json::Number(e.captured_at as int)),
        ],
    )
}

/// Writes a raw event as the pipeline takes it.
pub fn raw_event_text(event: &RawEvent) -> (r: String)
    ensures
        r@ == written(raw_event_value(event@)),
{
    let ghost v = raw_event_value(event@);
    let mut m: Vec<String> = Vec::new();
    m.push(text_member("id", event.id.as_str()));
    m.push(text_member("group_id", event.group_id.as_str()));
    m.push(text_member("workspace_id", event.workspace_id.as_str()));
    m.push(text_member("source", event.source.as_str()));
    m.push(text_member("content_kind", event.content_kind.as_str()));
    m.push(text_member("external_id", event.external_id.as_str()));
    m.push(text_member("content", event.content.as_str()));
    m.push(text_member("author_id", event.author_id.as_str()));
    m.push(text_member("author_name", event.author_name.as_str()));
    m.push(text_member("url", event.url.as_str()));
    m.push(optional_text_member("title", &event.title));
    m.push(optional_text_member("thread_id", &event.thread_id));
    m.push(optional_text_member("parent_id", &event.parent_id));
    m.push(number_member("ts", event.ts));
    m.push(number_member("captured_at", event.captured_at));
    assert(texts(m@) =~= v->Object_0.map_values(|m: (Seq<char>, Json)| written_member(m)));
    object(&m, Ghost(v))
}

} // verus!
