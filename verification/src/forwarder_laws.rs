//! What becomes of the events of a mesh that are forwarded, and how they are counted.

use vstd::prelude::*;

use crate::bridge::{raw_event_of, scopes_after, NetworkEvent, Scopes};
use crate::forwarder::{
    after_event, counted, forwarded_of, status_text, ConnectionModel, ForwarderModel,
};
use crate::text::decimal;

verus! {

/// A counter goes up by one, and starts again at zero when it is full.
pub proof fn law_counters(n: u64)
    ensures
        counted(n) == (n + 1) % 0x1_0000_0000_0000_0000,
{
}

/// What is forwarded of an event of a group is what its group and the scopes that are known once it
/// was taken in make of it; of anything else nothing is forwarded. An event whose source is a plain
/// name is forwarded as one of the group of that name.
pub proof fn law_group_events_are_forwarded(
    e: NetworkEvent,
    group_id: Seq<char>,
    source: Seq<char>,
    scopes: Scopes,
    id: Seq<char>,
    now: u64,
)
    ensures
        forwarded_of(source, None, scopes, id, now) is None,
        forwarded_of("group/"@ + group_id, Some(e), scopes, id, now) == raw_event_of(
            e,
            group_id,
            scopes_after(e, scopes),
            id,
            now,
        ),
        !"group/"@.is_prefix_of(source) ==> forwarded_of(source, Some(e), scopes, id, now)
            == raw_event_of(e, source, scopes_after(e, scopes), id, now),
{
    crate::discovery::law_group_is_told_by_source(group_id);
}

/// Every event is received, and counted as converted where something is forwarded of it. What is
/// sent is counted elsewhere. Of the scopes what an event of a group teaches is learned.
pub proof fn law_events_are_counted(
    f: ForwarderModel,
    e: NetworkEvent,
    event: Option<NetworkEvent>,
    converted: bool,
)
    ensures
        after_event(f, event, converted).received == (f.received + 1) % 0x1_0000_0000_0000_0000,
        converted ==> after_event(f, event, converted).converted == (f.converted + 1)
            % 0x1_0000_0000_0000_0000,
        !converted ==> after_event(f, event, converted).converted == f.converted,
        after_event(f, event, converted).forwarded == f.forwarded,
        after_event(f, Some(e), converted).scopes == scopes_after(e, f.scopes),
        after_event(f, None, converted).scopes == f.scopes,
{
}

/// A forwarder after a run of events, each with whether something was forwarded of it.
pub open spec fn after_events(
    f: ForwarderModel,
    events: Seq<(Option<NetworkEvent>, bool)>,
) -> ForwarderModel
    decreases events.len(),
{
    if events.len() == 0 {
        f
    } else {
        after_event(after_events(f, events.drop_last()), events.last().0, events.last().1)
    }
}

/// After any run of events as many were received as came, and as many converted as something was
/// forwarded of, as long as no counter is full.
pub proof fn law_counters_tell_how_many(
    f: ForwarderModel,
    events: Seq<(Option<NetworkEvent>, bool)>,
)
    requires
        f.received + events.len() <= u64::MAX,
        f.converted + events.len() <= u64::MAX,
    ensures
        after_events(f, events).received == f.received + events.len(),
        after_events(f, events).converted == f.converted + events.filter(
            |e: (Option<NetworkEvent>, bool)| e.1,
        ).len(),
        after_events(f, events).forwarded == f.forwarded,
    decreases events.len(),
{
    reveal(Seq::filter);
    let counts = |e: (Option<NetworkEvent>, bool)| e.1;
    if events.len() > 0 {
        law_counters_tell_how_many(f, events.drop_last());
        lemma_filter_is_no_longer(events.drop_last(), counts);
    }
}

proof fn lemma_filter_is_no_longer<A>(s: Seq<A>, p: spec_fn(A) -> bool)
    ensures
        s.filter(p).len() <= s.len(),
    decreases s.len(),
{
    reveal(Seq::filter);
    if s.len() > 0 {
        lemma_filter_is_no_longer(s.drop_last(), p);
    }
}

/// A connection that is switched off says so and nothing else; one that stands says how many
/// messages were sent, and one that does not says why.
pub proof fn law_states_in_words(c: ConnectionModel)
    ensures
        !c.enabled ==> status_text(c) == "disabled"@,
        c.enabled && c.connected ==> status_text(c) == "connected ("@ + decimal(
            c.messages_sent as nat,
        ) + " sent)"@,
        c.enabled && !c.connected && c.last_error is Some ==> status_text(c) == "disconnected: "@
            + c.last_error->0,
        c.enabled && !c.connected && c.last_error is None ==> status_text(c) == "disconnected: "@
            + "unknown"@,
{
}

} // verus!
