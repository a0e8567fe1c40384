//! What exchanges are for: that the announcing node is on the topics of its groups, in the table
//! and in the rosters, and that the peers of its groups hear of each other.

use vstd::prelude::*;
use vstd::utf8::encode_utf8;

use crate::digest::blake3_of;
use crate::discovery::introduction;
use crate::exchange::{
    after, ActionModel, ExchangeEvent, ExchangeModel, ExchangePhase, IntroducerModel,
};
use crate::json::written;
use crate::peers::{
    agrees, is_online, law_upsert_keeps_agreement, roster, table_after, upsert, PeerTable,
};
use crate::peers_laws::{law_only_the_peer_joins, law_seeing_a_peer_is_written_down};

verus! {

// ---------------------------------------------------------------------------------------------
// Carrying out what an exchange asks for
// ---------------------------------------------------------------------------------------------

/// A node in the middle of an exchange, with the table of peers and the groups that were written to
/// it so far.
pub struct World {
    pub introducer: IntroducerModel,
    pub exchange: ExchangeModel,
    pub table: PeerTable,
    pub written: Set<Seq<char>>,
}

/// How the world answers: whether topics get ready, whether the table can be written, and the time.
pub struct Answer {
    pub ready: bool,
    pub writable: bool,
    pub now: i64,
}

/// The world after what the exchange asks for next was carried out. The table answers look-ups
/// itself.
pub open spec fn carried_out(w: World, a: Answer) -> World {
    match w.exchange.action(w.introducer) {
        ActionModel::Proceed => told(w, ExchangeEvent::Topic(true)),
        ActionModel::Join { .. } => told(w, ExchangeEvent::Topic(true)),
        ActionModel::Subscribe { .. } => told(w, ExchangeEvent::Topic(a.ready)),
        ActionModel::Lookup { group_id, peer_id } => told(
            w,
            ExchangeEvent::Found(w.table.contains_key((group_id, peer_id))),
        ),
        ActionModel::Write { group_id, peer_id, exists_already } => if a.writable {
            World {
                table: table_after(
                    w.table,
                    upsert(group_id, peer_id, exists_already, a.now),
                ),
                written: w.written.insert(group_id),
                ..told(w, ExchangeEvent::Written(true))
            }
        } else {
            told(w, ExchangeEvent::Written(false))
        },
        ActionModel::Broadcast { .. } => w,
    }
}

/// The world after the exchange was told of an event.
pub open spec fn told(w: World, event: ExchangeEvent) -> World {
    let (introducer, exchange) = after(w.introducer, w.exchange, event);
    World { introducer, exchange, ..w }
}

/// The world after what the exchange asks for was carried out again and again.
pub open spec fn carried_on(w: World, answers: Seq<Answer>) -> World
    decreases answers.len(),
{
    if answers.len() == 0 {
        w
    } else {
        carried_out(carried_on(w, answers.drop_last()), answers.last())
    }
}

/// The world when a node says which groups it is in.
pub open spec fn at_the_start(
    introducer: IntroducerModel,
    table: PeerTable,
    from_node: Seq<char>,
    key: Option<Seq<u8>>,
    groups: Seq<Seq<char>>,
) -> World {
    World {
        introducer,
        exchange: ExchangeModel::fresh(from_node, key, groups),
        table,
        written: Set::empty(),
    }
}

/// What holds all along: the table agrees with the rosters, the announcing node is online in every
/// group that was written, those are groups of its own, and no row but those changed.
pub open spec fn is_faithful(
    w: World,
    table: PeerTable,
    from_node: Seq<char>,
    key: Option<Seq<u8>>,
    groups: Seq<Seq<char>>,
) -> bool {
    &&& agrees(w.introducer.rosters, w.table)
    &&& w.exchange.from_node == from_node && w.exchange.key == key && w.exchange.groups == groups
    &&& w.exchange.at <= groups.len()
    &&& w.exchange.phase == ExchangePhase::Done <==> w.exchange.at == groups.len()
    &&& w.exchange.phase matches ExchangePhase::Write { exists_already } ==> exists_already
        == w.table.contains_key((groups[w.exchange.at as int], from_node))
    &&& forall|g: Seq<char>| #[trigger]
        w.written.contains(g) ==> groups.contains(g) && is_online(w.table, g, from_node)
    &&& forall|g: Seq<char>, p: Seq<char>|
        !(p == from_node && w.written.contains(g)) ==> #[trigger] w.table.contains_key((g, p))
            == table.contains_key((g, p)) && (table.contains_key((g, p)) ==> w.table[(g, p)]
            == table[(g, p)])
}

proof fn lemma_stays_faithful(
    w: World,
    a: Answer,
    table: PeerTable,
    from_node: Seq<char>,
    key: Option<Seq<u8>>,
    groups: Seq<Seq<char>>,
)
    requires
        is_faithful(w, table, from_node, key, groups),
    ensures
        is_faithful(carried_out(w, a), table, from_node, key, groups),
{
    let group_id = groups[w.exchange.at as int];
    let v = carried_out(w, a);
    if w.exchange.phase is Write && a.writable {
        let row = (group_id, from_node);
        assert(groups.contains(group_id));
        law_upsert_keeps_agreement(w.introducer.rosters, w.table, group_id, from_node, a.now);
        assert(v.table == table_after(
            w.table,
            upsert(group_id, from_node, w.table.contains_key(row), a.now),
        ));
        assert forall|g: Seq<char>, p: Seq<char>| (g, p) != row implies #[trigger] v.table.contains_key(
            (g, p),
        ) == w.table.contains_key((g, p)) && (w.table.contains_key((g, p)) ==> v.table[(g, p)]
            == w.table[(g, p)]) by {
            law_seeing_a_peer_is_written_down(w.table, group_id, from_node, a.now, (g, p));
        }
        let elsewhere = (group_id, from_node + seq!['x']);
        assert(elsewhere.1.len() != from_node.len());
        law_seeing_a_peer_is_written_down(w.table, group_id, from_node, a.now, elsewhere);
        assert forall|g: Seq<char>| #[trigger] v.written.contains(g) implies groups.contains(g)
            && is_online(v.table, g, from_node) by {
            if g != group_id {
                assert(w.written.contains(g));
                assert(v.table.contains_key((g, from_node)) == w.table.contains_key(
                    (g, from_node),
                ));
            }
        }
        assert forall|g: Seq<char>, p: Seq<char>|
            !(p == from_node && v.written.contains(g)) implies #[trigger] v.table.contains_key(
            (g, p),
        ) == table.contains_key((g, p)) && (table.contains_key((g, p)) ==> v.table[(g, p)]
            == table[(g, p)]) by {
            assert(v.written.contains(group_id));
            assert((g, p) != row);
            assert(w.table.contains_key((g, p)) == table.contains_key((g, p)));
        }
    }
}

/// Carrying out what an exchange asks for keeps the table in agreement with the rosters. The
/// announcing node is online in the table in every group that was written, those are groups that it
/// said it is in, and no other row changes.
pub proof fn law_exchanges_keep_the_table(
    introducer: IntroducerModel,
    table: PeerTable,
    from_node: Seq<char>,
    key: Option<Seq<u8>>,
    groups: Seq<Seq<char>>,
    answers: Seq<Answer>,
)
    requires
        agrees(introducer.rosters, table),
    ensures
        is_faithful(
            carried_on(at_the_start(introducer, table, from_node, key, groups), answers),
            table,
            from_node,
            key,
            groups,
        ),
    decreases answers.len(),
{
    if answers.len() > 0 {
        law_exchanges_keep_the_table(
            introducer,
            table,
            from_node,
            key,
            groups,
            answers.drop_last(),
        );
        lemma_stays_faithful(
            carried_on(at_the_start(introducer, table, from_node, key, groups), answers.drop_last()),
            answers.last(),
            table,
            from_node,
            key,
            groups,
        );
    }
}

proof fn lemma_all_written(
    introducer: IntroducerModel,
    table: PeerTable,
    from_node: Seq<char>,
    key: Option<Seq<u8>>,
    groups: Seq<Seq<char>>,
    answers: Seq<Answer>,
)
    requires
        agrees(introducer.rosters, table),
        forall|i: int| 0 <= i < answers.len() ==> (#[trigger] answers[i]).writable,
        answers.len() <= 3 * groups.len(),
    ensures
        ({
            let w = carried_on(at_the_start(introducer, table, from_node, key, groups), answers);
            &&& answers.len() == 3 * w.exchange.at + (match w.exchange.phase {
                ExchangePhase::Topic | ExchangePhase::Done => 0int,
                ExchangePhase::Lookup => 1int,
                ExchangePhase::Write { .. } => 2int,
            })
            &&& forall|k: int|
                0 <= k < w.exchange.at ==> w.written.contains(#[trigger] groups[k])
        }),
    decreases answers.len(),
{
    let start = at_the_start(introducer, table, from_node, key, groups);
    if answers.len() > 0 {
        let earlier = answers.drop_last();
        assert forall|i: int| 0 <= i < earlier.len() implies (#[trigger] earlier[i]).writable by {
            assert(earlier[i] == answers[i]);
        }
        assert(answers[answers.len() - 1].writable);
        lemma_all_written(introducer, table, from_node, key, groups, earlier);
        law_exchanges_keep_the_table(introducer, table, from_node, key, groups, earlier);
    }
}

/// Where the table can be written all along, three answers for each group bring an exchange to its
/// end, and then the announcing node is online in the table in every group that it said it is in,
/// and is in the roster of each.
pub proof fn law_announcing_nodes_are_written_down(
    introducer: IntroducerModel,
    table: PeerTable,
    from_node: Seq<char>,
    key: Option<Seq<u8>>,
    groups: Seq<Seq<char>>,
    answers: Seq<Answer>,
)
    requires
        agrees(introducer.rosters, table),
        forall|i: int| 0 <= i < answers.len() ==> (#[trigger] answers[i]).writable,
        answers.len() == 3 * groups.len(),
    ensures
        ({
            let w = carried_on(at_the_start(introducer, table, from_node, key, groups), answers);
            &&& w.exchange.phase == ExchangePhase::Done
            &&& forall|k: int|
                0 <= k < groups.len() ==> is_online(w.table, #[trigger] groups[k], from_node)
                    && roster(w.introducer.rosters, groups[k]).contains(from_node)
        }),
{
    lemma_all_written(introducer, table, from_node, key, groups, answers);
    law_exchanges_keep_the_table(introducer, table, from_node, key, groups, answers);
    let w = carried_on(at_the_start(introducer, table, from_node, key, groups), answers);
    assert forall|k: int| 0 <= k < groups.len() implies is_online(
        w.table,
        #[trigger] groups[k],
        from_node,
    ) && roster(w.introducer.rosters, groups[k]).contains(from_node) by {
        assert(w.written.contains(groups[k]));
        assert(roster(w.introducer.rosters, groups[k]).contains(from_node) <==> is_online(
            w.table,
            groups[k],
            from_node,
        ));
    }
}

// ---------------------------------------------------------------------------------------------
// Topics
// ---------------------------------------------------------------------------------------------

/// An exchange asks about one group at a time, in the order in which they were named, and never for
/// anybody but the announcing node. It subscribes to the topic of the group, and to no other, where
/// the node is not on it, starting from the announcing node where that has a key; and it brings the
/// announcing node into a topic that the node is on.
pub proof fn law_exchanges_ask_about_one_group(i: IntroducerModel, e: ExchangeModel)
    requires
        e.valid(),
    ensures
        ({
            let group = e.groups[e.at as int];
            match e.action(i) {
                ActionModel::Proceed => e.phase == ExchangePhase::Topic && i.subscribed.contains(
                    group,
                ) && e.key is None,
                ActionModel::Join { group_id, peer } => group_id == group && e.key == Some(peer)
                    && i.subscribed.contains(group),
                ActionModel::Subscribe { group_id, topic, peers } => {
                    &&& group_id == group && !i.subscribed.contains(group)
                    &&& topic == blake3_of(encode_utf8("cyan/group/"@ + group))
                    &&& e.key is Some ==> peers == seq![e.key->0]
                    &&& e.key is None ==> peers.len() == 0
                },
                ActionModel::Lookup { group_id, peer_id } => group_id == group && peer_id
                    == e.from_node,
                ActionModel::Write { group_id, peer_id, exists_already } => group_id == group
                    && peer_id == e.from_node && e.phase == (ExchangePhase::Write {
                    exists_already,
                }),
                ActionModel::Broadcast { messages } => e.at == e.groups.len() && messages
                    == e.introductions,
            }
        }),
{
}

/// A topic that gets ready is one that the node is on from then on, and no other topic is touched;
/// seeing to topics changes no roster, and writing to the table changes no topic.
pub proof fn law_topics_and_rosters_are_apart(
    i: IntroducerModel,
    e: ExchangeModel,
    ready: bool,
    written_down: bool,
    other: Seq<char>,
)
    requires
        e.valid(),
    ensures
        after(i, e, ExchangeEvent::Topic(ready)).0.rosters == i.rosters,
        after(i, e, ExchangeEvent::Topic(ready)).0.subscribed.contains(other) <==> i.subscribed.contains(
            other,
        ) || (ready && e.phase == ExchangePhase::Topic && other == e.groups[e.at as int]),
        after(i, e, ExchangeEvent::Written(written_down)).0.subscribed == i.subscribed,
        other != e.groups[e.at as int] || !written_down ==> roster(
            after(i, e, ExchangeEvent::Written(written_down)).0.rosters,
            other,
        ) == roster(i.rosters, other),
{
    law_only_the_peer_joins(i.rosters, e.groups[e.at as int], e.from_node, other);
}

/// An event that answers nothing changes nothing.
pub proof fn law_only_answers_move_an_exchange(
    i: IntroducerModel,
    e: ExchangeModel,
    event: ExchangeEvent,
)
    requires
        !(e.phase == ExchangePhase::Topic && event is Topic),
        !(e.phase == ExchangePhase::Lookup && event is Found),
        !(e.phase is Write && event is Written),
    ensures
        after(i, e, event) == (i, e),
{
}

/// What is told of a group once it was written down is its roster as it then is, if there is
/// somebody to introduce; of a group that could not be written down nothing is told.
pub proof fn law_introductions_follow_writes(
    i: IntroducerModel,
    e: ExchangeModel,
    written_down: bool,
)
    requires
        e.valid(),
        e.phase is Write,
    ensures
        ({
            let (j, f) = after(i, e, ExchangeEvent::Written(written_down));
            let group = e.groups[e.at as int];
            let peers = roster(j.rosters, group);
            &&& written_down ==> peers.contains(e.from_node)
            &&& written_down && peers.len() > 1 ==> f.introductions == e.introductions.push(
                written(introduction(group, peers)),
            )
            &&& !written_down || peers.len() <= 1 ==> f.introductions == e.introductions
            &&& !written_down ==> j == i
            &&& f.at == e.at + 1
        }),
{
    let group = e.groups[e.at as int];
    let list = roster(i.rosters, group);
    if !list.contains(e.from_node) {
        assert(list.push(e.from_node)[list.len() as int] == e.from_node);
    }
}

} // verus!
