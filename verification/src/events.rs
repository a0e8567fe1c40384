//! Events: their identifiers, their written form, and which of them a node stores and delivers.

use vstd::prelude::*;
use vstd::utf8::{encode_utf8, encode_utf8_decode_utf8};

use crate::digest::{blake3_digest, blake3_of, digest_hex, lower_hex};
use crate::hex_text::law_hex_reads_back;
use crate::json_unique::law_written_form_is_unique;
use crate::json::{number_member, object, text_member, written, written_member, Json};
use crate::text::{same_text, texts};

verus! {

/// An event that the nodes of a mesh exchange.
#[derive(Debug)]
pub struct Event {
    /// The identifier, unique to the event: a BLAKE3 digest in hexadecimal.
    pub id: String,
    /// What the application says.
    pub payload: String,
    /// The node that made the event, or the group whose topic it came over.
    pub source: String,
    /// When it was made, in seconds since the Unix epoch.
    pub ts: u64,
}

/// The model of an [`Event`].
pub struct EventModel {
    pub id: Seq<char>,
    pub payload: Seq<char>,
    pub source: Seq<char>,
    pub ts: u64,
}

impl View for Event {
    type V = EventModel;

    open spec fn view(&self) -> EventModel {
        EventModel { id: self.id@, payload: self.payload@, source: self.source@, ts: self.ts }
    }
}

impl Clone for Event {
    fn clone(&self) -> (r: Self)
        ensures
            r == *self,
    {
        Event {
            id: self.id.clone(),
            payload: self.payload.clone(),
            source: self.source.clone(),
            ts: self.ts,
        }
    }
}

/// What an identifier is the digest of: the payload, the source and the time of the event, told
/// apart.
pub open spec fn id_value(payload: Seq<char>, source: Seq<char>, ts: u64) -> Json {
    Json::Object(
        seq![
            ("payload"@, Json::Text(payload)),
            ("source"@, Json::Text(source)),
            ("ts"@, Json::Number(ts as int)),
        ],
    )
}

/// The bytes of which an identifier is the digest.
pub open spec fn id_input(payload: Seq<char>, source: Seq<char>, ts: u64) -> Seq<u8> {
    encode_utf8(written(id_value(payload, source, ts)))
}

/// The identifier of an event, unique to its payload, its source and its time.
pub open spec fn event_id(payload: Seq<char>, source: Seq<char>, ts: u64) -> Seq<char> {
    lower_hex(blake3_of(id_input(payload, source, ts)))
}

/// The identifier of an event.
pub fn generate_event_id(payload: &str, source: &str, ts: u64) -> (r: String)
    ensures
        r@ == event_id(payload@, source@, ts),
        r@.len() == 64,
{
    let ghost v = id_value(payload@, source@, ts);
    let mut m: Vec<String> = Vec::new();
    m.push(text_member("payload", payload));
    m.push(text_member("source", source));
    m.push(number_member("ts", ts));
    assert(texts(m@) =~= v->Object_0.map_values(|m: (Seq<char>, Json)| written_member(m)));
    let input: String = object(&m, Ghost(v));
    digest_hex(blake3_digest(input.as_str().as_bytes()))
}

/// Identifiers are made of different bytes where the events differ: the bytes tell the payload, the
/// source and the time.
pub proof fn law_id_input_tells_event(
    payload: Seq<char>,
    source: Seq<char>,
    ts: u64,
    other_payload: Seq<char>,
    other_source: Seq<char>,
    other_ts: u64,
)
    requires
        id_input(payload, source, ts) == id_input(other_payload, other_source, other_ts),
    ensures
        payload == other_payload,
        source == other_source,
        ts == other_ts,
{
    let a = id_value(payload, source, ts);
    let b = id_value(other_payload, other_source, other_ts);
    encode_utf8_decode_utf8(written(a));
    encode_utf8_decode_utf8(written(b));
    law_written_form_is_unique(a, b);
    let x = a->Object_0;
    let y = b->Object_0;
    assert(x[0] == y[0] && x[1] == y[1] && x[2] == y[2]);
}

/// Identifiers are as unique as digests: two events that differ in payload, source or time have the
/// same identifier only where different bytes have the same digest.
pub proof fn law_ids_are_as_unique_as_digests(
    payload: Seq<char>,
    source: Seq<char>,
    ts: u64,
    other_payload: Seq<char>,
    other_source: Seq<char>,
    other_ts: u64,
)
    requires
        event_id(payload, source, ts) == event_id(other_payload, other_source, other_ts),
        !(payload == other_payload && source == other_source && ts == other_ts),
    ensures
        ({
            let a = id_input(payload, source, ts);
            let b = id_input(other_payload, other_source, other_ts);
            a != b && blake3_of(a) == blake3_of(b)
        }),
{
    let a = id_input(payload, source, ts);
    let b = id_input(other_payload, other_source, other_ts);
    if a == b {
        law_id_input_tells_event(payload, source, ts, other_payload, other_source, other_ts);
    }
    law_hex_reads_back(blake3_of(a));
    law_hex_reads_back(blake3_of(b));
}

/// An event as it goes over the events topic.
pub open spec fn event_value(e: EventModel) -> Json {
    Json::Object(
        seq![
            ("id"@, Json::Text(e.id)),
            ("payload"@, Json::Text(e.payload)),
            ("source"@, Json::Text(e.source)),
            ("ts"@, Json::Number(e.ts as int)),
        ],
    )
}

/// Writes an event as it goes over the events topic.
pub fn event_text(event: &Event) -> (r: String)
    ensures
        r@ == written(event_value(event@)),
{
    let ghost v = event_value(event@);
    let mut m: Vec<String> = Vec::new();
    m.push(text_member("id", event.id.as_str()));
    m.push(text_member("payload", event.payload.as_str()));
    m.push(text_member("source", event.source.as_str()));
    m.push(number_member("ts", event.ts));
    assert(texts(m@) =~= v->Object_0.map_values(|m: (Seq<char>, Json)| written_member(m)));
    object(&m, Ghost(v))
}

/// The written form of an event tells the event.
pub proof fn law_event_text_tells_event(a: EventModel, b: EventModel)
    requires
        written(event_value(a)) == written(event_value(b)),
    ensures
        a == b,
{
    law_written_form_is_unique(event_value(a), event_value(b));
    let x = event_value(a)->Object_0;
    let y = event_value(b)->Object_0;
    assert(x[0] == y[0] && x[1] == y[1] && x[2] == y[2] && x[3] == y[3]);
}

/// Whether a node stores an event that came over the events topic: not where it made it itself.
pub open spec fn is_foreign(node_id: Seq<char>, e: EventModel) -> bool {
    e.source != node_id
}

/// Whether a node stores an event that came over the events topic.
pub fn on_received(node_id: &str, event: &Event) -> (r: bool)
    ensures
        r == is_foreign(node_id@, event@),
{
    !same_text(event.source.as_str(), node_id)
}

/// Whether an event goes on, given the number of rows that storing it has added: to the events
/// topic where the application made it, to the application where it came over that topic.
pub fn on_stored(rows: usize) -> (r: bool)
    ensures
        r == (rows > 0),
{
    rows > 0
}

// ---------------------------------------------------------------------------------------------
// What a node delivers
// ---------------------------------------------------------------------------------------------

/// The stored events by their identifiers.
pub type EventTable = Map<Seq<char>, EventModel>;

/// The number of rows that storing an event adds: one, or none where the identifier is taken.
pub open spec fn rows_added(table: EventTable, e: EventModel) -> nat {
    if table.contains_key(e.id) {
        0
    } else {
        1
    }
}

/// The table after an event was stored. What is there already stays as it is.
pub open spec fn with_event(table: EventTable, e: EventModel) -> EventTable {
    if table.contains_key(e.id) {
        table
    } else {
        table.insert(e.id, e)
    }
}

/// The table after events came over the events topic, one after the other.
pub open spec fn table_after(
    node_id: Seq<char>,
    table: EventTable,
    received: Seq<EventModel>,
) -> EventTable
    decreases received.len(),
{
    if received.len() == 0 {
        table
    } else {
        let before = table_after(node_id, table, received.drop_last());
        if is_foreign(node_id, received.last()) {
            with_event(before, received.last())
        } else {
            before
        }
    }
}

/// The events that the application gets to see when events come over the events topic.
pub open spec fn delivered(
    node_id: Seq<char>,
    table: EventTable,
    received: Seq<EventModel>,
) -> Seq<EventModel>
    decreases received.len(),
{
    if received.len() == 0 {
        Seq::empty()
    } else {
        let earlier = received.drop_last();
        let e = received.last();
        let so_far = delivered(node_id, table, earlier);
        if is_foreign(node_id, e) && rows_added(table_after(node_id, table, earlier), e) > 0 {
            so_far.push(e)
        } else {
            so_far
        }
    }
}

/// What came over the events topic is in the table afterwards, and what was there is unchanged.
pub proof fn law_stored_events_stay(
    node_id: Seq<char>,
    table: EventTable,
    received: Seq<EventModel>,
)
    ensures
        forall|id: Seq<char>| #[trigger]
            table.contains_key(id) ==> table_after(node_id, table, received).contains_key(id)
                && table_after(node_id, table, received)[id] == table[id],
        forall|i: int|
            0 <= i < received.len() && is_foreign(node_id, #[trigger] received[i])
                ==> table_after(node_id, table, received).contains_key(received[i].id),
    decreases received.len(),
{
    if received.len() > 0 {
        let earlier = received.drop_last();
        law_stored_events_stay(node_id, table, earlier);
        assert forall|i: int|
            0 <= i < received.len() && is_foreign(
                node_id,
                #[trigger] received[i],
            ) implies table_after(node_id, table, received).contains_key(received[i].id) by {
            if i < earlier.len() {
                assert(earlier[i] == received[i]);
            }
        }
    }
}

/// No event reaches the application twice, however often it comes in, and none that was stored
/// before or that the node made itself reaches it at all.
pub proof fn law_delivered_once(node_id: Seq<char>, table: EventTable, received: Seq<EventModel>)
    ensures
        forall|i: int, j: int|
            0 <= i < j < delivered(node_id, table, received).len() ==> (#[trigger] delivered(
                node_id,
                table,
                received,
            )[i]).id != (#[trigger] delivered(node_id, table, received)[j]).id,
        forall|i: int|
            0 <= i < delivered(node_id, table, received).len() ==> is_foreign(
                node_id,
                #[trigger] delivered(node_id, table, received)[i],
            ) && !table.contains_key(delivered(node_id, table, received)[i].id)
                && table_after(node_id, table, received).contains_key(
                delivered(node_id, table, received)[i].id,
            ),
    decreases received.len(),
{
    if received.len() > 0 {
        let earlier = received.drop_last();
        law_delivered_once(node_id, table, earlier);
        law_stored_events_stay(node_id, table, earlier);
        let so_far = delivered(node_id, table, earlier);
        let all = delivered(node_id, table, received);
        assert forall|i: int| 0 <= i < all.len() implies is_foreign(node_id, #[trigger] all[i])
            && !table.contains_key(all[i].id) && table_after(
            node_id,
            table,
            received,
        ).contains_key(all[i].id) by {
            if i < so_far.len() {
                assert(all[i] == so_far[i]);
            }
        }
        assert forall|i: int, j: int| 0 <= i < j < all.len() implies (#[trigger] all[i]).id != (
        #[trigger] all[j]).id by {
            assert(all[i] == so_far[i]);
            if j < so_far.len() {
                assert(all[j] == so_far[j]);
            }
        }
    }
}

/// Nothing is lost: whatever foreign event comes in, the application gets to see an event with its
/// identifier, unless one was stored before.
pub proof fn law_delivered_or_known(
    node_id: Seq<char>,
    table: EventTable,
    received: Seq<EventModel>,
    i: int,
)
    requires
        0 <= i < received.len(),
        is_foreign(node_id, received[i]),
        !table.contains_key(received[i].id),
    ensures
        exists|k: int|
            0 <= k < delivered(node_id, table, received).len() && (#[trigger] delivered(
                node_id,
                table,
                received,
            )[k]).id == received[i].id,
{
    law_stored_events_stay(node_id, table, received);
    lemma_table_is_known_or_delivered(node_id, table, received, received[i].id);
}

proof fn lemma_table_is_known_or_delivered(
    node_id: Seq<char>,
    table: EventTable,
    received: Seq<EventModel>,
    id: Seq<char>,
)
    requires
        table_after(node_id, table, received).contains_key(id),
        !table.contains_key(id),
    ensures
        exists|k: int|
            0 <= k < delivered(node_id, table, received).len() && (#[trigger] delivered(
                node_id,
                table,
                received,
            )[k]).id == id,
    decreases received.len(),
{
    if received.len() > 0 {
        let earlier = received.drop_last();
        let all = delivered(node_id, table, received);
        if table_after(node_id, table, earlier).contains_key(id) {
            lemma_table_is_known_or_delivered(node_id, table, earlier, id);
            let so_far = delivered(node_id, table, earlier);
            let k = choose|k: int| 0 <= k < so_far.len() && (#[trigger] so_far[k]).id == id;
            assert(all[k] == so_far[k]);
        } else {
            assert(all[all.len() - 1].id == id);
        }
    }
}

// ---------------------------------------------------------------------------------------------
// What a node sends
// ---------------------------------------------------------------------------------------------

/// The table after the application made events, one after the other.
pub open spec fn table_with(table: EventTable, made: Seq<EventModel>) -> EventTable
    decreases made.len(),
{
    if made.len() == 0 {
        table
    } else {
        with_event(table_with(table, made.drop_last()), made.last())
    }
}

/// The events that go over the events topic when the application makes events.
pub open spec fn sent(table: EventTable, made: Seq<EventModel>) -> Seq<EventModel>
    decreases made.len(),
{
    if made.len() == 0 {
        Seq::empty()
    } else {
        let earlier = made.drop_last();
        if rows_added(table_with(table, earlier), made.last()) > 0 {
            sent(table, earlier).push(made.last())
        } else {
            sent(table, earlier)
        }
    }
}

/// No event goes over the events topic twice, however often the application makes it, and none
/// goes that was stored before.
pub proof fn law_sent_once(table: EventTable, made: Seq<EventModel>)
    ensures
        forall|i: int, j: int|
            0 <= i < j < sent(table, made).len() ==> (#[trigger] sent(table, made)[i]).id != (
            #[trigger] sent(table, made)[j]).id,
        forall|i: int|
            0 <= i < sent(table, made).len() ==> !table.contains_key(
                (#[trigger] sent(table, made)[i]).id,
            ) && table_with(table, made).contains_key(sent(table, made)[i].id),
        forall|id: Seq<char>| #[trigger]
            table.contains_key(id) ==> table_with(table, made).contains_key(id),
    decreases made.len(),
{
    if made.len() > 0 {
        let earlier = made.drop_last();
        law_sent_once(table, earlier);
        let so_far = sent(table, earlier);
        let all = sent(table, made);
        assert forall|i: int| 0 <= i < all.len() implies !table.contains_key((#[trigger] all[i]).id)
            && table_with(table, made).contains_key(all[i].id) by {
            if i < so_far.len() {
                assert(all[i] == so_far[i]);
            }
        }
        assert forall|i: int, j: int| 0 <= i < j < all.len() implies (#[trigger] all[i]).id != (
        #[trigger] all[j]).id by {
            assert(all[i] == so_far[i]);
            if j < so_far.len() {
                assert(all[j] == so_far[j]);
            }
        }
    }
}

/// An event reaches the other nodes of the mesh once: where a node makes it that has not stored it,
/// and it comes in at another node at least once, the application there gets to see exactly one
/// event with its identifier, unless one was stored there before.
pub proof fn law_event_reaches_other_node_once(
    maker_table: EventTable,
    e: EventModel,
    node_id: Seq<char>,
    table: EventTable,
    received: Seq<EventModel>,
    i: int,
)
    requires
        !maker_table.contains_key(e.id),
        is_foreign(node_id, e),
        !table.contains_key(e.id),
        0 <= i < received.len(),
        received[i] == e,
    ensures
        sent(maker_table, seq![e]) == seq![e],
        exists|k: int|
            0 <= k < delivered(node_id, table, received).len() && (#[trigger] delivered(
                node_id,
                table,
                received,
            )[k]).id == e.id,
        forall|k: int, l: int|
            0 <= k < delivered(node_id, table, received).len() && 0 <= l < delivered(
                node_id,
                table,
                received,
            ).len() && (#[trigger] delivered(node_id, table, received)[k]).id == e.id && (
            #[trigger] delivered(node_id, table, received)[l]).id == e.id ==> k == l,
{
    assert(seq![e].drop_last() =~= Seq::<EventModel>::empty());
    reveal_with_fuel(sent, 2);
    reveal_with_fuel(table_with, 2);
    assert(sent(maker_table, seq![e]) =~= seq![e]);
    law_delivered_or_known(node_id, table, received, i);
    law_delivered_once(node_id, table, received);
    let all = delivered(node_id, table, received);
    assert forall|k: int, l: int|
        0 <= k < all.len() && 0 <= l < all.len() && (#[trigger] all[k]).id == e.id && (
        #[trigger] all[l]).id == e.id implies k == l by {
        if k < l {
            assert(all[k].id != all[l].id);
        }
        if l < k {
            assert(all[l].id != all[k].id);
        }
    }
}

} // verus!
