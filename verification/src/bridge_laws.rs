//! What is forwarded of the events of groups, field by field.

use vstd::prelude::*;

use crate::bridge::{
    board_created_content, element_content, file_content, group_created_content,
    named_action_content, raw_event_of, scopes_after, unsigned_time, NetworkEvent, Scopes,
};
use crate::json::written;
use crate::text::{is_white_space, opt_text};

verus! {

/// Whether an event is about the content of a notebook cell.
pub open spec fn is_cell(e: NetworkEvent) -> bool {
    e is NotebookCellAdded || e is NotebookCellUpdated
}

/// The identifier of a cell.
pub open spec fn cell_id(e: NetworkEvent) -> Seq<char> {
    match e {
        NetworkEvent::NotebookCellAdded { id, .. } => id@,
        NetworkEvent::NotebookCellUpdated { id, .. } => id@,
        _ => Seq::empty(),
    }
}

/// The board that a cell is on.
pub open spec fn cell_board(e: NetworkEvent) -> Seq<char> {
    match e {
        NetworkEvent::NotebookCellAdded { board_id, .. } => board_id@,
        NetworkEvent::NotebookCellUpdated { board_id, .. } => board_id@,
        _ => Seq::empty(),
    }
}

/// The text of a cell, empty where it has none.
pub open spec fn cell_text(e: NetworkEvent) -> Seq<char> {
    match e {
        NetworkEvent::NotebookCellAdded { content: Some(c), .. } => c@,
        NetworkEvent::NotebookCellUpdated { content: Some(c), .. } => c@,
        _ => Seq::empty(),
    }
}

/// Whether a cell says something: a character of its text is not white space.
pub open spec fn says_something(e: NetworkEvent) -> bool {
    exists|i: int| 0 <= i < cell_text(e).len() && !is_white_space(#[trigger] cell_text(e)[i])
}

/// Whether an event is of a kind that is always forwarded.
pub open spec fn is_announcement(e: NetworkEvent) -> bool {
    ||| e is GroupCreated
    ||| e is GroupRenamed
    ||| e is WorkspaceCreated
    ||| e is BoardCreated
    ||| e is ChatSent
    ||| e is FileAvailable
    ||| e is WhiteboardElementAdded
}

/// Of a notebook cell something is forwarded if and only if it says something, and it does not
/// matter whether the cell is new or edited: what is forwarded is the text, with the cell as its
/// subject and the board as its thread.
pub proof fn law_cells_are_forwarded(
    e: NetworkEvent,
    same: NetworkEvent,
    topic: Seq<char>,
    s: Scopes,
    id: Seq<char>,
    now: u64,
)
    requires
        is_cell(e),
        is_cell(same),
        cell_id(same) == cell_id(e),
        cell_board(same) == cell_board(e),
        cell_text(same) == cell_text(e),
    ensures
        raw_event_of(e, topic, s, id, now) is Some <==> says_something(e),
        raw_event_of(e, topic, s, id, now) matches Some(r) ==> r.content == cell_text(e)
            && r.external_id == cell_id(e) && r.thread_id == Some(cell_board(e)) && r.parent_id is None
            && r.title is None && r.ts == now,
        raw_event_of(e, topic, s, id, now) == raw_event_of(same, topic, s, id, now),
{
}

/// Something is forwarded of the announcements and of the cells that say something, and of nothing
/// else.
pub proof fn law_what_is_forwarded(
    e: NetworkEvent,
    topic: Seq<char>,
    s: Scopes,
    id: Seq<char>,
    now: u64,
)
    ensures
        raw_event_of(e, topic, s, id, now) is Some <==> is_announcement(e) || (is_cell(e)
            && says_something(e)),
{
    if is_cell(e) {
        law_cells_are_forwarded(e, e, topic, s, id, now);
    }
}

/// Where an event arose and what it is are told by its kind.
pub proof fn law_forwarded_kinds(
    e: NetworkEvent,
    topic: Seq<char>,
    s: Scopes,
    id: Seq<char>,
    now: u64,
)
    ensures
        raw_event_of(e, topic, s, id, now) matches Some(r) ==> {
            &&& r.id == id && r.captured_at == now && r.url.len() == 0
            &&& e is GroupCreated || e is GroupRenamed ==> r.source == "cyan"@ && r.content_kind
                == "cyan_group"@
            &&& e is WorkspaceCreated ==> r.source == "cyan"@ && r.content_kind
                == "cyan_workspace"@
            &&& e is BoardCreated ==> r.source == "cyan_board"@ && r.content_kind == "cyan_board"@
            &&& e is ChatSent ==> r.source == "cyan_chat"@ && r.content_kind == "cyan_chat"@
            &&& e is FileAvailable ==> r.source == "cyan_file"@ && r.content_kind == "cyan_file"@
            &&& e is WhiteboardElementAdded ==> r.source == "cyan_whiteboard"@ && r.content_kind
                == "cyan_whiteboard_element"@
            &&& is_cell(e) ==> r.source == "cyan_notebook"@ && r.content_kind
                == "cyan_notebook_cell"@
        },
{
}

/// The subject of what is forwarded is what the event is about.
pub proof fn law_forwarded_subjects(
    e: NetworkEvent,
    topic: Seq<char>,
    s: Scopes,
    id: Seq<char>,
    now: u64,
)
    ensures
        raw_event_of(e, topic, s, id, now) matches Some(r) ==> {
            &&& e is GroupCreated ==> r.external_id == e->GroupCreated_0.id@
            &&& e is GroupRenamed ==> r.external_id == e->GroupRenamed_id@
            &&& e is WorkspaceCreated ==> r.external_id == e->WorkspaceCreated_0.id@
            &&& e is BoardCreated ==> r.external_id == e->BoardCreated_id@
            &&& e is ChatSent ==> r.external_id == e->ChatSent_id@
            &&& e is FileAvailable ==> r.external_id == e->FileAvailable_id@
            &&& e is WhiteboardElementAdded ==> r.external_id == e->WhiteboardElementAdded_id@
            &&& is_cell(e) ==> r.external_id == cell_id(e)
        },
{
}

/// The workspace that a board is known to be in.
pub open spec fn workspace_known(s: Scopes, board_id: Seq<char>) -> Seq<char> {
    if s.workspaces.contains_key(board_id) {
        s.workspaces[board_id]
    } else {
        "unknown"@
    }
}

/// The group that a workspace is known to be in.
pub open spec fn group_known(s: Scopes, workspace_id: Seq<char>, otherwise: Seq<char>) -> Seq<char> {
    if s.groups.contains_key(workspace_id) {
        s.groups[workspace_id]
    } else {
        otherwise
    }
}

/// What is forwarded belongs to the group and the workspace that the event names, or else to those
/// that are known, or else to the group of the topic that it came over. What is on a board belongs
/// to the workspace of the board and to its group.
pub proof fn law_forwarded_places(
    e: NetworkEvent,
    topic: Seq<char>,
    s: Scopes,
    id: Seq<char>,
    now: u64,
)
    ensures
        raw_event_of(e, topic, s, id, now) matches Some(r) ==> {
            &&& e is GroupCreated ==> r.group_id == e->GroupCreated_0.id@ && r.workspace_id.len()
                == 0
            &&& e is GroupRenamed ==> r.group_id == e->GroupRenamed_id@ && r.workspace_id.len() == 0
            &&& e is WorkspaceCreated ==> r.group_id == e->WorkspaceCreated_0.group_id@
                && r.workspace_id == e->WorkspaceCreated_0.id@
            &&& e is BoardCreated ==> r.workspace_id == e->BoardCreated_workspace_id@ && r.group_id
                == group_known(s, e->BoardCreated_workspace_id@, topic)
            &&& e is ChatSent ==> r.workspace_id == e->ChatSent_workspace_id@ && r.group_id
                == group_known(s, e->ChatSent_workspace_id@, topic)
            &&& e is FileAvailable ==> r.group_id == (match opt_text(e->FileAvailable_group_id) {
                Some(g) => g,
                None => topic,
            }) && r.workspace_id == (match opt_text(e->FileAvailable_workspace_id) {
                Some(w) => w,
                None => Seq::empty(),
            })
            &&& e is WhiteboardElementAdded ==> r.workspace_id == workspace_known(
                s,
                e->WhiteboardElementAdded_board_id@,
            ) && r.group_id == group_known(s, r.workspace_id, "unknown"@)
            &&& is_cell(e) ==> r.workspace_id == workspace_known(s, cell_board(e)) && r.group_id
                == group_known(s, r.workspace_id, "unknown"@)
        },
{
}

/// The scope of a board is that of its workspace.
pub proof fn law_board_scopes(s: Scopes, board_id: Seq<char>)
    ensures
        s.workspace_of_board(board_id) == workspace_known(s, board_id),
        s.group_of_board(board_id) == group_known(s, workspace_known(s, board_id), "unknown"@),
{
}

/// The creation of a workspace or a board is remembered, and nothing is forgotten. No other event
/// teaches anything.
pub proof fn law_scopes_only_grow(e: NetworkEvent, s: Scopes)
    ensures
        e is WorkspaceCreated ==> scopes_after(e, s).groups == s.groups.insert(
            e->WorkspaceCreated_0.id@,
            e->WorkspaceCreated_0.group_id@,
        ),
        !(e is WorkspaceCreated) ==> scopes_after(e, s).groups == s.groups,
        e is BoardCreated ==> scopes_after(e, s).workspaces == s.workspaces.insert(
            e->BoardCreated_id@,
            e->BoardCreated_workspace_id@,
        ),
        !(e is BoardCreated) ==> scopes_after(e, s).workspaces == s.workspaces,
{
}

/// The author of a chat is who sent it, and of a file the peer that has it. Nothing else has one.
pub proof fn law_forwarded_authors(
    e: NetworkEvent,
    topic: Seq<char>,
    s: Scopes,
    id: Seq<char>,
    now: u64,
)
    ensures
        raw_event_of(e, topic, s, id, now) matches Some(r) ==> {
            &&& r.author_name == r.author_id
            &&& e is ChatSent ==> r.author_id == e->ChatSent_author@
            &&& e is FileAvailable ==> r.author_id == e->FileAvailable_source_peer@
            &&& !(e is ChatSent) && !(e is FileAvailable) ==> r.author_id.len() == 0
        },
{
}

/// What is on a board has the board as its thread. A chat that answers another one has that one as
/// its parent.
pub proof fn law_forwarded_threads(
    e: NetworkEvent,
    topic: Seq<char>,
    s: Scopes,
    id: Seq<char>,
    now: u64,
)
    ensures
        raw_event_of(e, topic, s, id, now) matches Some(r) ==> {
            &&& r.thread_id == (if e is WhiteboardElementAdded {
                Some(e->WhiteboardElementAdded_board_id@)
            } else if is_cell(e) {
                Some(cell_board(e))
            } else {
                None
            })
            &&& r.parent_id == (if e is ChatSent {
                opt_text(e->ChatSent_parent_id)
            } else {
                None
            })
        },
{
}

/// What is made or renamed is called so in the title, and a file is called by its name.
pub proof fn law_forwarded_titles(
    e: NetworkEvent,
    topic: Seq<char>,
    s: Scopes,
    id: Seq<char>,
    now: u64,
)
    ensures
        raw_event_of(e, topic, s, id, now) matches Some(r) ==> {
            &&& e is GroupCreated ==> r.title == Some(
                "Group created: "@ + e->GroupCreated_0.name@,
            )
            &&& e is GroupRenamed ==> r.title == Some("Group renamed: "@ + e->GroupRenamed_name@)
            &&& e is WorkspaceCreated ==> r.title == Some(
                "Workspace created: "@ + e->WorkspaceCreated_0.name@,
            )
            &&& e is BoardCreated ==> r.title == Some("Board created: "@ + e->BoardCreated_name@)
            &&& e is FileAvailable ==> r.title == Some(e->FileAvailable_name@)
            &&& e is ChatSent || e is WhiteboardElementAdded || is_cell(e) ==> r.title is None
        },
{
}

/// What is forwarded happened when the event says, and else when it was captured.
pub proof fn law_forwarded_times(
    e: NetworkEvent,
    topic: Seq<char>,
    s: Scopes,
    id: Seq<char>,
    now: u64,
)
    ensures
        raw_event_of(e, topic, s, id, now) matches Some(r) ==> {
            &&& e is GroupCreated ==> r.ts == unsigned_time(e->GroupCreated_0.created_at)
            &&& e is WorkspaceCreated ==> r.ts == unsigned_time(e->WorkspaceCreated_0.created_at)
            &&& e is BoardCreated ==> r.ts == unsigned_time(e->BoardCreated_created_at)
            &&& e is ChatSent ==> r.ts == unsigned_time(e->ChatSent_timestamp)
            &&& e is FileAvailable ==> r.ts == unsigned_time(e->FileAvailable_created_at)
            &&& e is WhiteboardElementAdded ==> r.ts == unsigned_time(
                e->WhiteboardElementAdded_created_at,
            )
            &&& e is GroupRenamed || is_cell(e) ==> r.ts == now
        },
{
}

/// A time is kept as it is, and one before the epoch wraps around.
pub proof fn law_times_wrap(t: i64)
    ensures
        t >= 0 ==> unsigned_time(t) == t,
        t < 0 ==> unsigned_time(t) == t + 0x1_0000_0000_0000_0000,
{
}

/// What is forwarded of a chat is its message, and of the rest what was done and to what.
pub proof fn law_forwarded_contents(
    e: NetworkEvent,
    topic: Seq<char>,
    s: Scopes,
    id: Seq<char>,
    now: u64,
)
    ensures
        raw_event_of(e, topic, s, id, now) matches Some(r) ==> {
            &&& e is ChatSent ==> r.content == e->ChatSent_message@
            &&& is_cell(e) ==> r.content == cell_text(e)
            &&& e is GroupCreated ==> r.content == written(
                group_created_content(e->GroupCreated_0),
            )
            &&& e is GroupRenamed ==> r.content == written(
                named_action_content("renamed"@, e->GroupRenamed_name@),
            )
            &&& e is WorkspaceCreated ==> r.content == written(
                named_action_content("created"@, e->WorkspaceCreated_0.name@),
            )
            &&& e is BoardCreated ==> r.content == written(
                board_created_content(e->BoardCreated_id@, e->BoardCreated_name@),
            )
            &&& e is FileAvailable ==> r.content == written(
                file_content(
                    opt_text(e->FileAvailable_board_id),
                    e->FileAvailable_name@,
                    e->FileAvailable_hash@,
                    e->FileAvailable_size,
                    e->FileAvailable_source_peer@,
                ),
            )
            &&& e is WhiteboardElementAdded ==> r.content == written(
                element_content(
                    e->WhiteboardElementAdded_board_id@,
                    opt_text(e->WhiteboardElementAdded_content_json),
                    e->WhiteboardElementAdded_element_type@,
                ),
            )
        },
{
}

} // verus!
