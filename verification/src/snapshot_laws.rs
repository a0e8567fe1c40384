//! What snapshots are for: what a run of events leaves in them.

use vstd::prelude::*;

use crate::snapshot_change::{
    after_event, after_events, chats_among, empty_snapshot, has_board, has_file, has_workspace,
    law_latest_chats_stay, puts_item, ChangeModel,
};
use crate::snapshot::{item_total, should_request, wants_snapshot, ProviderModel};
use crate::snapshot_data::{BoardDataModel, FileDataModel, GroupSnapshotModel, WorkspaceDataModel};

verus! {

/// Whether places go up from one to the next.
pub open spec fn is_increasing(places: Seq<int>) -> bool {
    forall|k: int, l: int| 0 <= k < l < places.len() ==> #[trigger] places[k] < #[trigger] places[l]
}

proof fn lemma_pick_one_more(places: Seq<int>, n: int)
    requires
        is_increasing(places),
        forall|k: int| 0 <= k < places.len() ==> #[trigger] places[k] < n,
    ensures
        is_increasing(places.push(n)),
        forall|i: int| #[trigger] places.push(n).contains(i) <==> places.contains(i) || i == n,
{
    let more = places.push(n);
    assert forall|i: int| #[trigger] more.contains(i) <==> places.contains(i) || i == n by {
        if more.contains(i) {
            let k = choose|k: int| 0 <= k < more.len() && more[k] == i;
            if k < places.len() {
                assert(places[k] == i);
            }
        }
        if places.contains(i) {
            let k = choose|k: int| 0 <= k < places.len() && places[k] == i;
            assert(more[k] == i);
        }
        assert(more[places.len() as int] == n);
    }
}

// ---------------------------------------------------------------------------------------------
// Workspaces
// ---------------------------------------------------------------------------------------------

/// Whether an event is the first to bring a workspace with its identifier, which was not there before.
pub open spec fn is_first_workspace(
    before: Seq<WorkspaceDataModel>,
    events: Seq<(ChangeModel, u64)>,
    i: int,
) -> bool {
    &&& 0 <= i < events.len()
    &&& events[i].0 is Workspace
    &&& forall|k: int|
        0 <= k < before.len() ==> (#[trigger] before[k]).id != events[i].0->Workspace_0.id
    &&& forall|j: int|
        0 <= j < i && (#[trigger] events[j]).0 is Workspace ==> events[j].0->Workspace_0.id
            != events[i].0->Workspace_0.id
}

proof fn lemma_workspace_is_there(s: GroupSnapshotModel, events: Seq<(ChangeModel, u64)>, id: Seq<char>)
    ensures
        has_workspace(after_events(s, events).workspaces, id) <==> has_workspace(s.workspaces, id) || exists|j: int|
            0 <= j < events.len() && (#[trigger] events[j]).0 is Workspace && events[j].0->Workspace_0.id
                == id,
    decreases events.len(),
{
    if events.len() > 0 {
        let earlier = events.drop_last();
        let last = events.len() - 1;
        lemma_workspace_is_there(s, earlier, id);
        let list = after_events(s, earlier).workspaces;
        let more = after_events(s, events).workspaces;
        assert forall|j: int| 0 <= j < last implies earlier[j] == #[trigger] events[j] by {}
        if has_workspace(list, id) {
            let k = choose|k: int| 0 <= k < list.len() && (#[trigger] list[k]).id == id;
            assert(more[k].id == id);
        }
        if has_workspace(more, id) && !has_workspace(list, id) {
            let k = choose|k: int| 0 <= k < more.len() && (#[trigger] more[k]).id == id;
            if k < list.len() {
                assert(list[k].id == id);
            }
            assert(events[last].0 is Workspace);
        }
        if events[last].0 is Workspace && events[last].0->Workspace_0.id == id {
            if !has_workspace(list, id) {
                assert(more[list.len() as int].id == id);
            }
        }
    }
}

proof fn lemma_workspaces_accumulate(s: GroupSnapshotModel, events: Seq<(ChangeModel, u64)>) -> (picks: Seq<
    int,
>)
    ensures
        is_increasing(picks),
        forall|i: int| #[trigger] picks.contains(i) <==> is_first_workspace(s.workspaces, events, i),
        after_events(s, events).workspaces == s.workspaces + picks.map_values(
            |i: int| events[i].0->Workspace_0,
        ),
    decreases events.len(),
{
    if events.len() == 0 {
        let picks = Seq::<int>::empty();
        assert(after_events(s, events).workspaces =~= s.workspaces + picks.map_values(
            |i: int| events[i].0->Workspace_0,
        ));
        picks
    } else {
        let earlier = events.drop_last();
        let last = events.len() - 1;
        let before = lemma_workspaces_accumulate(s, earlier);
        assert forall|i: int| i < last implies is_first_workspace(s.workspaces, earlier, i)
            == #[trigger] is_first_workspace(s.workspaces, events, i) by {
            assert forall|j: int| 0 <= j < last implies earlier[j] == #[trigger] events[j] by {}
            if is_first_workspace(s.workspaces, events, i) {
                assert forall|j: int|
                    0 <= j < i && (#[trigger] earlier[j]).0 is Workspace implies earlier[j].0->Workspace_0.id
                    != earlier[i].0->Workspace_0.id by {
                    assert(events[j].0 is Workspace);
                }
            }
            if is_first_workspace(s.workspaces, earlier, i) {
                assert forall|j: int|
                    0 <= j < i && (#[trigger] events[j]).0 is Workspace implies events[j].0->Workspace_0.id
                    != events[i].0->Workspace_0.id by {
                    assert(earlier[j].0 is Workspace);
                }
            }
        }
        assert forall|k: int| 0 <= k < before.len() implies 0 <= #[trigger] before[k] < last by {
            assert(before.contains(before[k]));
        }
        let list = after_events(s, earlier).workspaces;
        if events[last].0 is Workspace {
            lemma_workspace_is_there(s, earlier, events[last].0->Workspace_0.id);
        }
        assert forall|j: int| 0 <= j < last implies earlier[j] == #[trigger] events[j] by {}
        let new = events[last].0 is Workspace && !has_workspace(list, events[last].0->Workspace_0.id);
        assert(new == is_first_workspace(s.workspaces, events, last)) by {
            if new {
                let id = events[last].0->Workspace_0.id;
                assert forall|j: int|
                    0 <= j < last && (#[trigger] events[j]).0 is Workspace implies events[j].0->Workspace_0.id
                    != id by {
                    assert(earlier[j].0 is Workspace);
                }
            }
        }
        let picks = if new {
            before.push(last)
        } else {
            before
        };
        lemma_pick_one_more(before, last);
        assert(picks.map_values(|i: int| events[i].0->Workspace_0) =~= (if new {
            before.map_values(|i: int| earlier[i].0->Workspace_0).push(events[last].0->Workspace_0)
        } else {
            before.map_values(|i: int| earlier[i].0->Workspace_0)
        }));
        assert(after_events(s, events).workspaces =~= s.workspaces + picks.map_values(
            |i: int| events[i].0->Workspace_0,
        ));
        assert forall|i: int| #[trigger] picks.contains(i) <==> is_first_workspace(
            s.workspaces,
            events,
            i,
        ) by {
            if i < last {
                assert(before.contains(i) <==> is_first_workspace(s.workspaces, earlier, i));
            } else if before.contains(i) {
                let k = choose|k: int| 0 <= k < before.len() && before[k] == i;
                assert(before[k] < last);
            }
        }
        picks
    }
}

/// After any run of events a snapshot holds the workspaces that were there before, in their order, and
/// after them the first one of each new identifier among the events, in the order of the events. No
/// event takes a workspace away or moves it.
pub proof fn law_workspaces_accumulate(s: GroupSnapshotModel, events: Seq<(ChangeModel, u64)>)
    ensures
        exists|picks: Seq<int>|
            {
                &&& #[trigger] is_increasing(picks)
                &&& forall|i: int| #[trigger]
                    picks.contains(i) <==> is_first_workspace(s.workspaces, events, i)
                &&& after_events(s, events).workspaces == s.workspaces + picks.map_values(
                    |i: int| events[i].0->Workspace_0,
                )
            },
{
    let picks = lemma_workspaces_accumulate(s, events);
    assert(is_increasing(picks));
}

// ---------------------------------------------------------------------------------------------
// Boards
// ---------------------------------------------------------------------------------------------

/// Whether an event is the first to bring a board with its identifier, which was not there before.
pub open spec fn is_first_board(
    before: Seq<BoardDataModel>,
    events: Seq<(ChangeModel, u64)>,
    i: int,
) -> bool {
    &&& 0 <= i < events.len()
    &&& events[i].0 is Board
    &&& forall|k: int|
        0 <= k < before.len() ==> (#[trigger] before[k]).id != events[i].0->Board_0.id
    &&& forall|j: int|
        0 <= j < i && (#[trigger] events[j]).0 is Board ==> events[j].0->Board_0.id
            != events[i].0->Board_0.id
}

proof fn lemma_board_is_there(s: GroupSnapshotModel, events: Seq<(ChangeModel, u64)>, id: Seq<char>)
    ensures
        has_board(after_events(s, events).boards, id) <==> has_board(s.boards, id) || exists|j: int|
            0 <= j < events.len() && (#[trigger] events[j]).0 is Board && events[j].0->Board_0.id
                == id,
    decreases events.len(),
{
    if events.len() > 0 {
        let earlier = events.drop_last();
        let last = events.len() - 1;
        lemma_board_is_there(s, earlier, id);
        let list = after_events(s, earlier).boards;
        let more = after_events(s, events).boards;
        assert forall|j: int| 0 <= j < last implies earlier[j] == #[trigger] events[j] by {}
        if has_board(list, id) {
            let k = choose|k: int| 0 <= k < list.len() && (#[trigger] list[k]).id == id;
            assert(more[k].id == id);
        }
        if has_board(more, id) && !has_board(list, id) {
            let k = choose|k: int| 0 <= k < more.len() && (#[trigger] more[k]).id == id;
            if k < list.len() {
                assert(list[k].id == id);
            }
            assert(events[last].0 is Board);
        }
        if events[last].0 is Board && events[last].0->Board_0.id == id {
            if !has_board(list, id) {
                assert(more[list.len() as int].id == id);
            }
        }
    }
}

proof fn lemma_boards_accumulate(s: GroupSnapshotModel, events: Seq<(ChangeModel, u64)>) -> (picks: Seq<
    int,
>)
    ensures
        is_increasing(picks),
        forall|i: int| #[trigger] picks.contains(i) <==> is_first_board(s.boards, events, i),
        after_events(s, events).boards == s.boards + picks.map_values(
            |i: int| events[i].0->Board_0,
        ),
    decreases events.len(),
{
    if events.len() == 0 {
        let picks = Seq::<int>::empty();
        assert(after_events(s, events).boards =~= s.boards + picks.map_values(
            |i: int| events[i].0->Board_0,
        ));
        picks
    } else {
        let earlier = events.drop_last();
        let last = events.len() - 1;
        let before = lemma_boards_accumulate(s, earlier);
        assert forall|i: int| i < last implies is_first_board(s.boards, earlier, i)
            == #[trigger] is_first_board(s.boards, events, i) by {
            assert forall|j: int| 0 <= j < last implies earlier[j] == #[trigger] events[j] by {}
            if is_first_board(s.boards, events, i) {
                assert forall|j: int|
                    0 <= j < i && (#[trigger] earlier[j]).0 is Board implies earlier[j].0->Board_0.id
                    != earlier[i].0->Board_0.id by {
                    assert(events[j].0 is Board);
                }
            }
            if is_first_board(s.boards, earlier, i) {
                assert forall|j: int|
                    0 <= j < i && (#[trigger] events[j]).0 is Board implies events[j].0->Board_0.id
                    != events[i].0->Board_0.id by {
                    assert(earlier[j].0 is Board);
                }
            }
        }
        assert forall|k: int| 0 <= k < before.len() implies 0 <= #[trigger] before[k] < last by {
            assert(before.contains(before[k]));
        }
        let list = after_events(s, earlier).boards;
        if events[last].0 is Board {
            lemma_board_is_there(s, earlier, events[last].0->Board_0.id);
        }
        assert forall|j: int| 0 <= j < last implies earlier[j] == #[trigger] events[j] by {}
        let new = events[last].0 is Board && !has_board(list, events[last].0->Board_0.id);
        assert(new == is_first_board(s.boards, events, last)) by {
            if new {
                let id = events[last].0->Board_0.id;
                assert forall|j: int|
                    0 <= j < last && (#[trigger] events[j]).0 is Board implies events[j].0->Board_0.id
                    != id by {
                    assert(earlier[j].0 is Board);
                }
            }
        }
        let picks = if new {
            before.push(last)
        } else {
            before
        };
        lemma_pick_one_more(before, last);
        assert(picks.map_values(|i: int| events[i].0->Board_0) =~= (if new {
            before.map_values(|i: int| earlier[i].0->Board_0).push(events[last].0->Board_0)
        } else {
            before.map_values(|i: int| earlier[i].0->Board_0)
        }));
        assert(after_events(s, events).boards =~= s.boards + picks.map_values(
            |i: int| events[i].0->Board_0,
        ));
        assert forall|i: int| #[trigger] picks.contains(i) <==> is_first_board(
            s.boards,
            events,
            i,
        ) by {
            if i < last {
                assert(before.contains(i) <==> is_first_board(s.boards, earlier, i));
            } else if before.contains(i) {
                let k = choose|k: int| 0 <= k < before.len() && before[k] == i;
                assert(before[k] < last);
            }
        }
        picks
    }
}

/// After any run of events a snapshot holds the boards that were there before, in their order, and
/// after them the first one of each new identifier among the events, in the order of the events. No
/// event takes a board away or moves it.
pub proof fn law_boards_accumulate(s: GroupSnapshotModel, events: Seq<(ChangeModel, u64)>)
    ensures
        exists|picks: Seq<int>|
            {
                &&& #[trigger] is_increasing(picks)
                &&& forall|i: int| #[trigger]
                    picks.contains(i) <==> is_first_board(s.boards, events, i)
                &&& after_events(s, events).boards == s.boards + picks.map_values(
                    |i: int| events[i].0->Board_0,
                )
            },
{
    let picks = lemma_boards_accumulate(s, events);
    assert(is_increasing(picks));
}

// ---------------------------------------------------------------------------------------------
// Files
// ---------------------------------------------------------------------------------------------

/// Whether an event is the first to bring a file with its identifier, which was not there before.
pub open spec fn is_first_file(
    before: Seq<FileDataModel>,
    events: Seq<(ChangeModel, u64)>,
    i: int,
) -> bool {
    &&& 0 <= i < events.len()
    &&& events[i].0 is File
    &&& forall|k: int|
        0 <= k < before.len() ==> (#[trigger] before[k]).id != events[i].0->File_0.id
    &&& forall|j: int|
        0 <= j < i && (#[trigger] events[j]).0 is File ==> events[j].0->File_0.id
            != events[i].0->File_0.id
}

proof fn lemma_file_is_there(s: GroupSnapshotModel, events: Seq<(ChangeModel, u64)>, id: Seq<char>)
    ensures
        has_file(after_events(s, events).files, id) <==> has_file(s.files, id) || exists|j: int|
            0 <= j < events.len() && (#[trigger] events[j]).0 is File && events[j].0->File_0.id
                == id,
    decreases events.len(),
{
    if events.len() > 0 {
        let earlier = events.drop_last();
        let last = events.len() - 1;
        lemma_file_is_there(s, earlier, id);
        let list = after_events(s, earlier).files;
        let more = after_events(s, events).files;
        assert forall|j: int| 0 <= j < last implies earlier[j] == #[trigger] events[j] by {}
        if has_file(list, id) {
            let k = choose|k: int| 0 <= k < list.len() && (#[trigger] list[k]).id == id;
            assert(more[k].id == id);
        }
        if has_file(more, id) && !has_file(list, id) {
            let k = choose|k: int| 0 <= k < more.len() && (#[trigger] more[k]).id == id;
            if k < list.len() {
                assert(list[k].id == id);
            }
            assert(events[last].0 is File);
        }
        if events[last].0 is File && events[last].0->File_0.id == id {
            if !has_file(list, id) {
                assert(more[list.len() as int].id == id);
            }
        }
    }
}

proof fn lemma_files_accumulate(s: GroupSnapshotModel, events: Seq<(ChangeModel, u64)>) -> (picks: Seq<
    int,
>)
    ensures
        is_increasing(picks),
        forall|i: int| #[trigger] picks.contains(i) <==> is_first_file(s.files, events, i),
        after_events(s, events).files == s.files + picks.map_values(
            |i: int| events[i].0->File_0,
        ),
    decreases events.len(),
{
    if events.len() == 0 {
        let picks = Seq::<int>::empty();
        assert(after_events(s, events).files =~= s.files + picks.map_values(
            |i: int| events[i].0->File_0,
        ));
        picks
    } else {
        let earlier = events.drop_last();
        let last = events.len() - 1;
        let before = lemma_files_accumulate(s, earlier);
        assert forall|i: int| i < last implies is_first_file(s.files, earlier, i)
            == #[trigger] is_first_file(s.files, events, i) by {
            assert forall|j: int| 0 <= j < last implies earlier[j] == #[trigger] events[j] by {}
            if is_first_file(s.files, events, i) {
                assert forall|j: int|
                    0 <= j < i && (#[trigger] earlier[j]).0 is File implies earlier[j].0->File_0.id
                    != earlier[i].0->File_0.id by {
                    assert(events[j].0 is File);
                }
            }
            if is_first_file(s.files, earlier, i) {
                assert forall|j: int|
                    0 <= j < i && (#[trigger] events[j]).0 is File implies events[j].0->File_0.id
                    != events[i].0->File_0.id by {
                    assert(earlier[j].0 is File);
                }
            }
        }
        assert forall|k: int| 0 <= k < before.len() implies 0 <= #[trigger] before[k] < last by {
            assert(before.contains(before[k]));
        }
        let list = after_events(s, earlier).files;
        if events[last].0 is File {
            lemma_file_is_there(s, earlier, events[last].0->File_0.id);
        }
        assert forall|j: int| 0 <= j < last implies earlier[j] == #[trigger] events[j] by {}
        let new = events[last].0 is File && !has_file(list, events[last].0->File_0.id);
        assert(new == is_first_file(s.files, events, last)) by {
            if new {
                let id = events[last].0->File_0.id;
                assert forall|j: int|
                    0 <= j < last && (#[trigger] events[j]).0 is File implies events[j].0->File_0.id
                    != id by {
                    assert(earlier[j].0 is File);
                }
            }
        }
        let picks = if new {
            before.push(last)
        } else {
            before
        };
        lemma_pick_one_more(before, last);
        assert(picks.map_values(|i: int| events[i].0->File_0) =~= (if new {
            before.map_values(|i: int| earlier[i].0->File_0).push(events[last].0->File_0)
        } else {
            before.map_values(|i: int| earlier[i].0->File_0)
        }));
        assert(after_events(s, events).files =~= s.files + picks.map_values(
            |i: int| events[i].0->File_0,
        ));
        assert forall|i: int| #[trigger] picks.contains(i) <==> is_first_file(
            s.files,
            events,
            i,
        ) by {
            if i < last {
                assert(before.contains(i) <==> is_first_file(s.files, earlier, i));
            } else if before.contains(i) {
                let k = choose|k: int| 0 <= k < before.len() && before[k] == i;
                assert(before[k] < last);
            }
        }
        picks
    }
}

/// After any run of events a snapshot holds the files that were there before, in their order, and
/// after them the first one of each new identifier among the events, in the order of the events. No
/// event takes a file away or moves it.
pub proof fn law_files_accumulate(s: GroupSnapshotModel, events: Seq<(ChangeModel, u64)>)
    ensures
        exists|picks: Seq<int>|
            {
                &&& #[trigger] is_increasing(picks)
                &&& forall|i: int| #[trigger]
                    picks.contains(i) <==> is_first_file(s.files, events, i)
                &&& after_events(s, events).files == s.files + picks.map_values(
                    |i: int| events[i].0->File_0,
                )
            },
{
    let picks = lemma_files_accumulate(s, events);
    assert(is_increasing(picks));
}

// ---------------------------------------------------------------------------------------------
// The rest of a snapshot
// ---------------------------------------------------------------------------------------------

/// The group of a snapshot is the one that was announced last, or else the one that was there.
pub proof fn law_group_is_the_last_one(s: GroupSnapshotModel, events: Seq<(ChangeModel, u64)>)
    ensures
        (forall|i: int| 0 <= i < events.len() ==> !((#[trigger] events[i]).0 is Group)) ==> after_events(
            s,
            events,
        ).group == s.group,
        forall|i: int|
            0 <= i < events.len() && (#[trigger] events[i]).0 is Group && (forall|j: int|
                i < j < events.len() ==> !((#[trigger] events[j]).0 is Group)) ==> after_events(
                s,
                events,
            ).group == events[i].0->Group_0,
    decreases events.len(),
{
    if events.len() > 0 {
        let earlier = events.drop_last();
        let last = events.len() - 1;
        law_group_is_the_last_one(s, earlier);
        assert forall|j: int| 0 <= j < last implies earlier[j] == #[trigger] events[j] by {}
        if events[last].0 is Group {
        } else {
            assert(after_events(s, events).group == after_events(s, earlier).group);
            if forall|i: int| 0 <= i < events.len() ==> !((#[trigger] events[i]).0 is Group) {
                assert forall|i: int| 0 <= i < earlier.len() implies !((#[trigger] earlier[i]).0 is Group) by {
                    assert(earlier[i] == events[i]);
                }
            }
            assert forall|i: int|
                0 <= i < events.len() && (#[trigger] events[i]).0 is Group && (forall|j: int|
                    i < j < events.len() ==> !((#[trigger] events[j]).0 is Group)) implies after_events(
                s,
                events,
            ).group == events[i].0->Group_0 by {
                assert(earlier[i] == events[i]);
                assert forall|j: int| i < j < earlier.len() implies !((#[trigger] earlier[j]).0 is Group) by {
                    assert(earlier[j] == events[j]);
                }
            }
        }
    }
}

/// A snapshot is as of its last event, whatever the event says.
pub proof fn law_snapshot_is_as_of_its_last_event(
    s: GroupSnapshotModel,
    events: Seq<(ChangeModel, u64)>,
)
    ensures
        after_events(s, events).snapshot_ts == (if events.len() == 0 {
            s.snapshot_ts
        } else {
            events[events.len() - 1].1
        }),
{
}

/// Of the chats that were there and those that came, in their order, the last hundred stay.
pub proof fn law_last_hundred_chats_stay(s: GroupSnapshotModel, events: Seq<(ChangeModel, u64)>)
    requires
        s.recent_chats.len() <= 100,
    ensures
        ({
            let all = s.recent_chats + events.filter(
                |e: (ChangeModel, u64)| e.0 is Chat,
            ).map_values(|e: (ChangeModel, u64)| e.0->Chat_0);
            after_events(s, events).recent_chats == (if all.len() <= 100 {
                all
            } else {
                all.skip(all.len() - 100)
            })
        }),
{
    lemma_chats_stay(s, events);
    lemma_chats_among(events);
    let all = s.recent_chats + chats_among(events);
    let kept = after_events(s, events).recent_chats;
    assert(all.subrange(all.len() - kept.len(), all.len() as int) =~= all.skip(
        all.len() - kept.len(),
    ));
    assert(all.skip(0) =~= all);
}

proof fn lemma_chats_stay(s: GroupSnapshotModel, events: Seq<(ChangeModel, u64)>)
    requires
        s.recent_chats.len() <= 100,
    ensures
        ({
            let all = s.recent_chats + chats_among(events);
            let kept = after_events(s, events).recent_chats;
            &&& kept.len() == (if all.len() <= 100 {
                all.len() as int
            } else {
                100
            })
            &&& kept == all.subrange(all.len() - kept.len(), all.len() as int)
        }),
{
    let t = GroupSnapshotModel {
        workspaces: Seq::empty(),
        boards: Seq::empty(),
        files: Seq::empty(),
        ..s
    };
    law_latest_chats_stay(t, events);
    lemma_chats_alone(s, t, events);
}

proof fn lemma_chats_alone(
    s: GroupSnapshotModel,
    t: GroupSnapshotModel,
    events: Seq<(ChangeModel, u64)>,
)
    requires
        s.recent_chats == t.recent_chats,
    ensures
        after_events(s, events).recent_chats == after_events(t, events).recent_chats,
    decreases events.len(),
{
    if events.len() > 0 {
        lemma_chats_alone(s, t, events.drop_last());
    }
}

proof fn lemma_chats_among(events: Seq<(ChangeModel, u64)>)
    ensures
        chats_among(events) == events.filter(|e: (ChangeModel, u64)| e.0 is Chat).map_values(
            |e: (ChangeModel, u64)| e.0->Chat_0,
        ),
    decreases events.len(),
{
    reveal(Seq::filter);
    let is_chat = |e: (ChangeModel, u64)| e.0 is Chat;
    let chat = |e: (ChangeModel, u64)| e.0->Chat_0;
    if events.len() == 0 {
        assert(chats_among(events) =~= events.filter(is_chat).map_values(chat));
    } else {
        let earlier = events.drop_last();
        lemma_chats_among(earlier);
        assert(chats_among(events) =~= events.filter(is_chat).map_values(chat));
    }
}

/// What is known of a group before its first event: its identifier, and nothing else.
pub proof fn law_unknown_group_is_empty(group_id: Seq<char>)
    ensures
        ({
            let s = empty_snapshot(group_id);
            &&& s.group.id == group_id
            &&& s.group.name.len() == 0 && s.group.icon.len() == 0 && s.group.color.len() == 0
            &&& s.group.created_at == 0 && s.snapshot_ts == 0
            &&& s.workspaces.len() == 0 && s.boards.len() == 0 && s.files.len() == 0
            &&& s.recent_chats.len() == 0
        }),
{
}

/// The number of items grows by one with each item that is put there, save where a chat takes the
/// place of another or the group is announced anew; an event that puts nothing there changes
/// nothing but the time. An unknown group has one item, the group.
pub proof fn law_items_are_counted(
    s: GroupSnapshotModel,
    change: ChangeModel,
    ts: u64,
    group_id: Seq<char>,
)
    ensures
        item_total(empty_snapshot(group_id)) == 1,
        !puts_item(s, change) ==> after_event(s, change, ts) == (GroupSnapshotModel {
            snapshot_ts: ts,
            ..s
        }),
        change is Group || change is Chat ==> puts_item(s, change),
        item_total(after_event(s, change, ts)) == item_total(s) + (if puts_item(s, change) && !(
        change is Group) && !(change is Chat && s.recent_chats.len() >= 100) {
            1int
        } else {
            0int
        }),
{
}

/// An event of a group changes what a provider knows of that group, and of no other.
pub proof fn law_other_groups_are_left_alone(
    p: ProviderModel,
    group_id: Seq<char>,
    change: ChangeModel,
    ts: u64,
    other: Seq<char>,
)
    requires
        other != group_id,
    ensures
        p.after(group_id, change, ts).node_id == p.node_id,
        p.after(group_id, change, ts).snapshots.contains_key(other) == p.snapshots.contains_key(other),
        p.snapshots.contains_key(other) ==> p.after(group_id, change, ts).snapshots[other]
            == p.snapshots[other],
        p.after(group_id, change, ts).latest_of(other) == p.latest_of(other),
        p.after(group_id, change, ts).snapshots.contains_key(group_id),
{
}

// ---------------------------------------------------------------------------------------------
// When a snapshot is wanted
// ---------------------------------------------------------------------------------------------

/// A group is wanted if it was never synced, or more than six hours ago. When another group is
/// synced nothing changes for it.
pub proof fn law_snapshots_are_wanted(
    synced: Map<Seq<char>, u64>,
    group_id: Seq<char>,
    other: Seq<char>,
    ts: u64,
    now: u64,
)
    ensures
        !synced.contains_key(group_id) ==> wants_snapshot(synced, group_id, now),
        synced.contains_key(group_id) ==> (wants_snapshot(synced, group_id, now) <==> now
            > synced[group_id] + 6 * 3600),
        wants_snapshot(synced.insert(group_id, ts), group_id, now) <==> now > ts + 6 * 3600,
        other != group_id ==> wants_snapshot(synced.insert(other, ts), group_id, now)
            == wants_snapshot(synced, group_id, now),
{
}

/// A peer asks if it has nothing, if the other side has at least a fifth more, or if the last sync
/// was more than six hours ago, and for no other reason. What makes it ask goes on making it ask
/// when the other side has more, when it has less itself, and as time goes by.
pub proof fn law_snapshots_are_requested(
    local: nat,
    remote: nat,
    last: Option<u64>,
    now: u64,
    fewer: nat,
    more: nat,
    later: u64,
)
    requires
        fewer <= local,
        more >= remote,
        later >= now,
    ensures
        should_request(0, remote, last, now),
        local > 0 && last is None ==> (should_request(local, remote, last, now) <==> remote * 5
            >= local * 6),
        local > 0 && last is Some && remote * 5 < local * 6 ==> (should_request(
            local,
            remote,
            last,
            now,
        ) <==> now > last->0 + 6 * 3600),
        remote * 5 >= local * 6 ==> should_request(local, remote, last, now),
        should_request(local, remote, last, now) ==> should_request(fewer, more, last, later),
{
}

} // verus!
