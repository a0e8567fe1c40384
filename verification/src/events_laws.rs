//! Which events are stored and delivered, in terms of where they come from and what came before.

use vstd::prelude::*;
use vstd::utf8::encode_utf8;

use crate::digest::{blake3_of, lower_hex};
use crate::events::{
    delivered, event_id, id_value, is_foreign, rows_added, table_after, with_event, EventModel,
    EventTable,
};
use crate::json::written;

verus! {

/// An event is stored unless the node made it itself.
pub proof fn law_only_own_events_are_left_out(node_id: Seq<char>, e: EventModel)
    ensures
        is_foreign(node_id, e) <==> e.source != node_id,
{
}

/// An event is named by the digest of the written form of what it says, who says it and when, in
/// hexadecimal.
pub proof fn law_events_are_named_by_what_they_say(
    payload: Seq<char>,
    source: Seq<char>,
    ts: u64,
)
    ensures
        event_id(payload, source, ts) == lower_hex(
            blake3_of(encode_utf8(written(id_value(payload, source, ts)))),
        ),
{
}

/// Storing an event whose identifier is new adds it and nothing else; storing one whose identifier
/// is taken changes nothing.
pub proof fn law_storing_adds_what_is_new(table: EventTable, e: EventModel, other: Seq<char>)
    ensures
        rows_added(table, e) == (if table.contains_key(e.id) {
            0nat
        } else {
            1nat
        }),
        !table.contains_key(e.id) ==> with_event(table, e) == table.insert(e.id, e),
        table.contains_key(e.id) ==> with_event(table, e) == table,
        other != e.id ==> with_event(table, e).contains_key(other) == table.contains_key(other),
{
}

proof fn lemma_is_not_stored(
    node_id: Seq<char>,
    table: EventTable,
    received: Seq<EventModel>,
    id: Seq<char>,
)
    requires
        !table.contains_key(id),
        forall|j: int|
            0 <= j < received.len() ==> (#[trigger] received[j]).source == node_id || received[j].id
                != id,
    ensures
        !table_after(node_id, table, received).contains_key(id),
    decreases received.len(),
{
    if received.len() > 0 {
        let earlier = received.drop_last();
        assert forall|j: int| 0 <= j < earlier.len() implies (#[trigger] earlier[j]).source
            == node_id || earlier[j].id != id by {
            assert(earlier[j] == received[j]);
        }
        lemma_is_not_stored(node_id, table, earlier, id);
        assert(received[received.len() - 1] == received.last());
    }
}

/// Of the events with a new identifier that others made, the first one that comes in reaches the
/// application.
pub proof fn law_the_first_one_is_delivered(
    node_id: Seq<char>,
    table: EventTable,
    received: Seq<EventModel>,
    i: int,
)
    requires
        0 <= i < received.len(),
        received[i].source != node_id,
        !table.contains_key(received[i].id),
        forall|j: int|
            0 <= j < i ==> (#[trigger] received[j]).source == node_id || received[j].id
                != received[i].id,
    ensures
        delivered(node_id, table, received).contains(received[i]),
    decreases received.len(),
{
    let earlier = received.drop_last();
    let all = delivered(node_id, table, received);
    let so_far = delivered(node_id, table, earlier);
    if i < earlier.len() {
        assert forall|j: int| 0 <= j < i implies (#[trigger] earlier[j]).source == node_id
            || earlier[j].id != earlier[i].id by {
            assert(earlier[j] == received[j]);
        }
        law_the_first_one_is_delivered(node_id, table, earlier, i);
        let k = choose|k: int| 0 <= k < so_far.len() && so_far[k] == earlier[i];
        assert(all[k] == received[i]);
    } else {
        assert forall|j: int| 0 <= j < earlier.len() implies (#[trigger] earlier[j]).source
            == node_id || earlier[j].id != received[i].id by {
            assert(earlier[j] == received[j]);
        }
        lemma_is_not_stored(node_id, table, earlier, received[i].id);
        assert(all[all.len() - 1] == received[i]);
    }
}

/// What reaches the application came in, was made by somebody else, and was not stored before.
pub proof fn law_nothing_else_is_delivered(
    node_id: Seq<char>,
    table: EventTable,
    received: Seq<EventModel>,
    k: int,
)
    requires
        0 <= k < delivered(node_id, table, received).len(),
    ensures
        received.contains(delivered(node_id, table, received)[k]),
        delivered(node_id, table, received)[k].source != node_id,
        !table.contains_key(delivered(node_id, table, received)[k].id),
    decreases received.len(),
{
    let earlier = received.drop_last();
    let all = delivered(node_id, table, received);
    let so_far = delivered(node_id, table, earlier);
    crate::events::law_stored_events_stay(node_id, table, earlier);
    if k < so_far.len() {
        law_nothing_else_is_delivered(node_id, table, earlier, k);
        let i = choose|i: int| 0 <= i < earlier.len() && earlier[i] == so_far[k];
        assert(received[i] == all[k]);
    } else {
        assert(received[received.len() - 1] == all[k]);
    }
}

} // verus!
