//! What a node does when another one tells it which groups it is in.
//!
//! For each group in turn the node sees to it that it is on the group's topic together with the
//! other node, and writes down that the other node is a peer of the group. At the end it
//! introduces the peers of the groups to each other. An [`Exchange`] says what to do next and takes
//! in what came of it; an [`Introducer`] is what the node knows across exchanges.

use vstd::prelude::*;

use crate::discovery::{
    group_label, group_topic, introduction, introduction_text, introduction_texts, introductions,
    topic_id,
};
use crate::identity::{node_key_of, parse_node_id};
use crate::json::written;
use crate::peers::{
    roster, rosters_of, row_texts, with_peer, without_peer, PeerTracker, Rosters,
};
use crate::string_map::StringMap;
use crate::text::texts;

verus! {

/// The groups on whose topics a node is, and the peers that it knows.
pub struct Introducer {
    subscribed: StringMap<bool>,
    tracker: PeerTracker,
}

/// The model of an [`Introducer`].
#[verifier::ext_equal]
pub struct IntroducerModel {
    pub subscribed: Set<Seq<char>>,
    pub rosters: Rosters,
}

impl View for Introducer {
    type V = IntroducerModel;

    closed spec fn view(&self) -> IntroducerModel {
        IntroducerModel { subscribed: self.subscribed@.dom(), rosters: self.tracker@ }
    }
}

/// How far an exchange has come.
#[derive(Debug, Clone, Copy, PartialEq, Eq, Structural)]
pub enum ExchangePhase {
    /// See to the topic of the group.
    Topic,
    /// Look up whether the table has the peer.
    Lookup,
    /// Write to the table, which has the peer or not.
    Write { exists_already: bool },
    /// Introduce the peers to each other.
    Done,
}

/// An exchange that is being worked on.
pub struct Exchange {
    from_node: String,
    key: Option<[u8; 32]>,
    groups: Vec<String>,
    at: usize,
    introductions: Vec<String>,
    phase: ExchangePhase,
}

/// The model of an [`Exchange`]: who it is from, their key, their groups, how many of these are
/// done, the introductions so far, and the phase.
#[verifier::ext_equal]
pub struct ExchangeModel {
    pub from_node: Seq<char>,
    pub key: Option<Seq<u8>>,
    pub groups: Seq<Seq<char>>,
    pub at: nat,
    pub introductions: Seq<Seq<char>>,
    pub phase: ExchangePhase,
}

impl View for Exchange {
    type V = ExchangeModel;

    closed spec fn view(&self) -> ExchangeModel {
        ExchangeModel {
            from_node: self.from_node@,
            key: match self.key {
                Some(key) => Some(key@),
                None => None,
            },
            groups: texts(self.groups@),
            at: self.at as nat,
            introductions: texts(self.introductions@),
            phase: self.phase,
        }
    }
}

/// What is to be done next.
#[derive(Debug)]
pub enum ExchangeAction {
    /// Nothing: go on as if the topic was ready.
    Proceed,
    /// Bring the peer into the topic of a group that the node is on.
    Join { group_id: String, peer: [u8; 32] },
    /// Subscribe to the topic of a group, starting from the given peers.
    Subscribe { group_id: String, topic: [u8; 32], peers: Vec<[u8; 32]> },
    /// Look up whether the table has a peer of a group.
    Lookup { group_id: String, peer_id: String },
    /// Write to the table that a peer of a group was seen.
    Write { group_id: String, peer_id: String, exists_already: bool },
    /// Broadcast these messages. The exchange has ended.
    Broadcast { messages: Vec<String> },
}

/// The model of an [`ExchangeAction`].
pub enum ActionModel {
    Proceed,
    Join { group_id: Seq<char>, peer: Seq<u8> },
    Subscribe { group_id: Seq<char>, topic: Seq<u8>, peers: Seq<Seq<u8>> },
    Lookup { group_id: Seq<char>, peer_id: Seq<char> },
    Write { group_id: Seq<char>, peer_id: Seq<char>, exists_already: bool },
    Broadcast { messages: Seq<Seq<char>> },
}

impl View for ExchangeAction {
    type V = ActionModel;

    open spec fn view(&self) -> ActionModel {
        match *self {
            ExchangeAction::Proceed => ActionModel::Proceed,
            ExchangeAction::Join { group_id, peer } => ActionModel::Join {
                group_id: group_id@,
                peer: peer@,
            },
            ExchangeAction::Subscribe { group_id, topic, peers } => ActionModel::Subscribe {
                group_id: group_id@,
                topic: topic@,
                peers: peers@.map_values(|p: [u8; 32]| p@),
            },
            ExchangeAction::Lookup { group_id, peer_id } => ActionModel::Lookup {
                group_id: group_id@,
                peer_id: peer_id@,
            },
            ExchangeAction::Write { group_id, peer_id, exists_already } => ActionModel::Write {
                group_id: group_id@,
                peer_id: peer_id@,
                exists_already,
            },
            ExchangeAction::Broadcast { messages } => ActionModel::Broadcast {
                messages: texts(messages@),
            },
        }
    }
}

/// What came of an action.
#[derive(Debug, Clone, Copy)]
pub enum ExchangeEvent {
    /// The topic is ready, or not.
    Topic(bool),
    /// The table has the peer, or not.
    Found(bool),
    /// The table was written, or not.
    Written(bool),
}

impl ExchangeModel {
    /// An exchange that has not begun.
    pub open spec fn fresh(
        from_node: Seq<char>,
        key: Option<Seq<u8>>,
        groups: Seq<Seq<char>>,
    ) -> ExchangeModel {
        ExchangeModel {
            from_node,
            key,
            groups,
            at: 0,
            introductions: Seq::empty(),
            phase: if groups.len() == 0 {
                ExchangePhase::Done
            } else {
                ExchangePhase::Topic
            },
        }
    }

    /// It has ended if and only if all groups are done.
    pub open spec fn valid(self) -> bool {
        &&& self.at <= self.groups.len()
        &&& self.phase == ExchangePhase::Done <==> self.at == self.groups.len()
    }

    /// What is to be done next. A node subscribes to the topic of a group once; from then on it
    /// brings the peer into the topic, where the peer's identifier gives a key.
    pub open spec fn action(self, i: IntroducerModel) -> ActionModel {
        let group_id = self.groups[self.at as int];
        match self.phase {
            ExchangePhase::Topic => if i.subscribed.contains(group_id) {
                match self.key {
                    Some(peer) => ActionModel::Join { group_id, peer },
                    None => ActionModel::Proceed,
                }
            } else {
                ActionModel::Subscribe {
                    group_id,
                    topic: topic_id(group_label(group_id)),
                    peers: match self.key {
                        Some(peer) => seq![peer],
                        None => Seq::empty(),
                    },
                }
            },
            ExchangePhase::Lookup => ActionModel::Lookup { group_id, peer_id: self.from_node },
            ExchangePhase::Write { exists_already } => ActionModel::Write {
                group_id,
                peer_id: self.from_node,
                exists_already,
            },
            ExchangePhase::Done => ActionModel::Broadcast { messages: self.introductions },
        }
    }
}

/// The introductions once a group with the given roster is done.
pub open spec fn with_introduction(
    so_far: Seq<Seq<char>>,
    group_id: Seq<char>,
    peers: Seq<Seq<char>>,
) -> Seq<Seq<char>> {
    if peers.len() > 1 {
        so_far.push(written(introduction(group_id, peers)))
    } else {
        so_far
    }
}

/// What follows an event: a topic that could not be subscribed to is tried again in the next
/// exchange, and a peer that could not be written down is passed over. An event that is no answer
/// to what the phase asks changes nothing.
pub open spec fn after(i: IntroducerModel, e: ExchangeModel, event: ExchangeEvent) -> (
    IntroducerModel,
    ExchangeModel,
) {
    let group_id = e.groups[e.at as int];
    match (e.phase, event) {
        (ExchangePhase::Topic, ExchangeEvent::Topic(ready)) => (
            IntroducerModel {
                subscribed: if ready {
                    i.subscribed.insert(group_id)
                } else {
                    i.subscribed
                },
                ..i
            },
            ExchangeModel { phase: ExchangePhase::Lookup, ..e },
        ),
        (ExchangePhase::Lookup, ExchangeEvent::Found(exists_already)) => (
            i,
            ExchangeModel { phase: ExchangePhase::Write { exists_already }, ..e },
        ),
        (ExchangePhase::Write { .. }, ExchangeEvent::Written(written_down)) => {
            let rosters = if written_down {
                with_peer(i.rosters, group_id, e.from_node)
            } else {
                i.rosters
            };
            (
                IntroducerModel { rosters, ..i },
                ExchangeModel {
                    at: e.at + 1,
                    introductions: if written_down {
                        with_introduction(e.introductions, group_id, roster(rosters, group_id))
                    } else {
                        e.introductions
                    },
                    phase: if e.at + 1 < e.groups.len() {
                        ExchangePhase::Topic
                    } else {
                        ExchangePhase::Done
                    },
                    ..e
                },
            )
        },
        _ => (i, e),
    }
}

impl Exchange {
    /// The model is valid.
    pub closed spec fn wf(&self) -> bool {
        self@.valid()
    }

    /// Starts on an exchange, given the key that the other node's identifier gives.
    pub fn start_with(from_node: String, key: Option<[u8; 32]>, groups: Vec<String>) -> (r: Self)
        ensures
            r.wf(),
            r@ == ExchangeModel::fresh(
                from_node@,
                match key {
                    Some(key) => Some(key@),
                    None => None,
                },
                texts(groups@),
            ),
    {
        let phase: ExchangePhase = if groups.len() == 0 {
            ExchangePhase::Done
        } else {
            ExchangePhase::Topic
        };
        let r = Exchange { from_node, key, groups, at: 0, introductions: Vec::new(), phase };
        assert(r@.introductions =~= Seq::<Seq<char>>::empty());
        r
    }

    /// Starts on an exchange.
    pub fn start(from_node: String, groups: Vec<String>) -> (r: Self)
        ensures
            r.wf(),
            r@ == ExchangeModel::fresh(from_node@, node_key_of(from_node@), texts(groups@)),
    {
        let key: Option<[u8; 32]> = parse_node_id(from_node.as_str()).ok();
        Exchange::start_with(from_node, key, groups)
    }
}

impl Introducer {
    /// What is known is in order.
    pub closed spec fn wf(&self) -> bool {
        self.subscribed.wf() && self.tracker.wf()
    }

    /// A node that is on no topic of a group, with the peers that it knows.
    pub fn new(tracker: PeerTracker) -> (r: Self)
        requires
            tracker.wf(),
        ensures
            r.wf(),
            r@ == (IntroducerModel { subscribed: Set::empty(), rosters: tracker@ }),
    {
        let r = Introducer { subscribed: StringMap::new(), tracker };
        assert(r@.subscribed =~= Set::<Seq<char>>::empty());
        r
    }

    /// The peers that the node knows.
    pub fn tracker(&self) -> (r: &PeerTracker)
        requires
            self.wf(),
        ensures
            r.wf(),
            r@ == self@.rosters,
    {
        &self.tracker
    }

    /// Replaces the peers that the node knows by rows of the table.
    pub fn reload(&mut self, rows: &Vec<(String, String)>)
        requires
            old(self).wf(),
        ensures
            final(self).wf(),
            final(self)@ == (IntroducerModel {
                rosters: rosters_of(row_texts(rows@)),
                ..old(self)@
            }),
    {
        self.tracker.load_cache(rows);
    }

    /// Takes in that a peer went away, given the groups in which the table had it online, and gives
    /// the introductions of those groups without it.
    pub fn on_departure(&mut self, peer_id: &str, groups: &Vec<String>) -> (r: Vec<String>)
        requires
            old(self).wf(),
        ensures
            final(self).wf(),
            final(self)@ == (IntroducerModel {
                rosters: without_peer(old(self)@.rosters, peer_id@),
                ..old(self)@
            }),
            texts(r@) == introductions(final(self)@.rosters, texts(groups@)),
    {
        let _left: Vec<String> = self.tracker.forget_peer(peer_id);
        introduction_texts(&self.tracker, groups)
    }

    /// What is to be done next in an exchange.
    pub fn action(&self, exchange: &Exchange) -> (r: ExchangeAction)
        requires
            self.wf(),
            exchange.wf(),
        ensures
            r@ == exchange@.action(self@),
    {
        match exchange.phase {
            ExchangePhase::Topic => {
                let group: &String = &exchange.groups[exchange.at];
                assert(exchange@.groups[exchange.at as int] == group@);
                if self.subscribed.contains_key(group.as_str()) {
                    match exchange.key {
                        Some(peer) => ExchangeAction::Join { group_id: group.clone(), peer },
                        None => ExchangeAction::Proceed,
                    }
                } else {
                    let mut peers: Vec<[u8; 32]> = Vec::new();
                    match exchange.key {
                        Some(peer) => {
                            peers.push(peer);
                        },
                        None => {},
                    }
                    let r = ExchangeAction::Subscribe {
                        group_id: group.clone(),
                        topic: group_topic(group.as_str()),
                        peers,
                    };
                    assert(r@->Subscribe_peers =~= exchange@.action(self@)->Subscribe_peers);
                    r
                }
            },
            ExchangePhase::Lookup => ExchangeAction::Lookup {
                group_id: exchange.groups[exchange.at].clone(),
                peer_id: exchange.from_node.clone(),
            },
            ExchangePhase::Write { exists_already } => ExchangeAction::Write {
                group_id: exchange.groups[exchange.at].clone(),
                peer_id: exchange.from_node.clone(),
                exists_already,
            },
            ExchangePhase::Done => ExchangeAction::Broadcast {
                messages: exchange.introductions.clone(),
            },
        }
    }

    /// Takes in what came of the action.
    pub fn on_event(&mut self, exchange: &mut Exchange, event: ExchangeEvent)
        requires
            old(self).wf(),
            old(exchange).wf(),
        ensures
            final(self).wf(),
            final(exchange).wf(),
            (final(self)@, final(exchange)@) == after(old(self)@, old(exchange)@, event),
    {
        let ghost before = self@;
        let ghost e = exchange@;
        match (exchange.phase, event) {
            (ExchangePhase::Topic, ExchangeEvent::Topic(ready)) => {
                if ready {
                    let group: String = exchange.groups[exchange.at].clone();
                    self.subscribed.insert(group, true);
                    assert(self@.subscribed =~= before.subscribed.insert(e.groups[e.at as int]));
                }
                exchange.phase = ExchangePhase::Lookup;
            },
            (ExchangePhase::Lookup, ExchangeEvent::Found(exists_already)) => {
                exchange.phase = ExchangePhase::Write { exists_already };
            },
            (ExchangePhase::Write { .. }, ExchangeEvent::Written(written_down)) => {
                let count: usize = exchange.groups.len();
                if written_down {
                    let group: String = exchange.groups[exchange.at].clone();
                    self.tracker.record_peer(group.as_str(), exchange.from_node.as_str());
                    let peers: Vec<String> = self.tracker.get_peers(group.as_str());
                    assert(texts(peers@).len() == peers@.len());
                    if peers.len() > 1 {
                        let text: String = introduction_text(group.as_str(), &peers);
                        let ghost so_far = exchange.introductions@;
                        exchange.introductions.push(text);
                        assert(texts(exchange.introductions@) =~= texts(so_far).push(text@));
                    }
                }
                exchange.at = exchange.at + 1;
                if exchange.at < count {
                    exchange.phase = ExchangePhase::Topic;
                } else {
                    exchange.phase = ExchangePhase::Done;
                }
            },
            _ => {},
        }
    }
}

// ---------------------------------------------------------------------------------------------
// Whole exchanges
// ---------------------------------------------------------------------------------------------

/// What came of one group: whether its topic is ready, whether the table had the peer, and whether
/// the table was written.
pub struct GroupOutcome {
    pub ready: bool,
    pub found: bool,
    pub written_down: bool,
}

/// The state after the three events of one group.
pub open spec fn after_group(i: IntroducerModel, e: ExchangeModel, o: GroupOutcome) -> (
    IntroducerModel,
    ExchangeModel,
) {
    let (i1, e1) = after(i, e, ExchangeEvent::Topic(o.ready));
    let (i2, e2) = after(i1, e1, ExchangeEvent::Found(o.found));
    after(i2, e2, ExchangeEvent::Written(o.written_down))
}

/// The state after the events of some groups.
pub open spec fn after_groups(i: IntroducerModel, e: ExchangeModel, outcomes: Seq<GroupOutcome>) -> (
    IntroducerModel,
    ExchangeModel,
)
    decreases outcomes.len(),
{
    if outcomes.len() == 0 {
        (i, e)
    } else {
        let (i1, e1) = after_groups(i, e, outcomes.drop_last());
        after_group(i1, e1, outcomes.last())
    }
}

/// An exchange ends after three events for each group, whatever comes of them.
pub proof fn law_exchange_ends(
    i: IntroducerModel,
    from_node: Seq<char>,
    key: Option<Seq<u8>>,
    groups: Seq<Seq<char>>,
    outcomes: Seq<GroupOutcome>,
)
    requires
        outcomes.len() <= groups.len(),
    ensures
        ({
            let e = after_groups(i, ExchangeModel::fresh(from_node, key, groups), outcomes).1;
            &&& e.valid()
            &&& e.at == outcomes.len()
            &&& e.from_node == from_node
            &&& e.key == key
            &&& e.groups == groups
            &&& e.phase == if outcomes.len() == groups.len() {
                ExchangePhase::Done
            } else {
                ExchangePhase::Topic
            }
        }),
    decreases outcomes.len(),
{
    if outcomes.len() > 0 {
        law_exchange_ends(i, from_node, key, groups, outcomes.drop_last());
    }
}

/// Where the topic of a group that the other node is in becomes ready, the node is on it from then
/// on. It is on no other topic than before and those of such groups.
pub proof fn law_exchange_subscribes(
    i: IntroducerModel,
    from_node: Seq<char>,
    key: Option<Seq<u8>>,
    groups: Seq<Seq<char>>,
    outcomes: Seq<GroupOutcome>,
    group_id: Seq<char>,
)
    requires
        outcomes.len() <= groups.len(),
    ensures
        after_groups(
            i,
            ExchangeModel::fresh(from_node, key, groups),
            outcomes,
        ).0.subscribed.contains(group_id) <==> i.subscribed.contains(group_id) || exists|k: int|
            0 <= k < outcomes.len() && (#[trigger] outcomes[k]).ready && groups[k] == group_id,
    decreases outcomes.len(),
{
    if outcomes.len() > 0 {
        let earlier = outcomes.drop_last();
        let last = outcomes.len() - 1;
        law_exchange_subscribes(i, from_node, key, groups, earlier, group_id);
        law_exchange_ends(i, from_node, key, groups, earlier);
        if exists|k: int|
            0 <= k < earlier.len() && (#[trigger] earlier[k]).ready && groups[k] == group_id {
            let k = choose|k: int|
                0 <= k < earlier.len() && (#[trigger] earlier[k]).ready && groups[k] == group_id;
            assert(outcomes[k] == earlier[k]);
        }
        if exists|k: int|
            0 <= k < outcomes.len() && (#[trigger] outcomes[k]).ready && groups[k] == group_id {
            let k = choose|k: int|
                0 <= k < outcomes.len() && (#[trigger] outcomes[k]).ready && groups[k] == group_id;
            if k < last {
                assert(outcomes[k] == earlier[k]);
            }
        }
        if outcomes[last].ready && groups[last] == group_id {
            assert(outcomes[last].ready);
        }
    }
}

/// A node that is on the topic of a group does not subscribe to it again, and one that subscribed
/// is on it from then on.
pub proof fn law_one_subscription_per_group(
    i: IntroducerModel,
    e: ExchangeModel,
    event: ExchangeEvent,
    group_id: Seq<char>,
)
    ensures
        e.action(i) matches ActionModel::Subscribe { group_id: g, .. } ==> !i.subscribed.contains(g)
            && after(i, e, ExchangeEvent::Topic(true)).0.subscribed.contains(g),
        i.subscribed.contains(group_id) ==> after(i, e, event).0.subscribed.contains(group_id),
{
}

proof fn lemma_others_keep_roster(
    r: Rosters,
    groups: Seq<Seq<char>>,
    group_id: Seq<char>,
    peer_id: Seq<char>,
)
    requires
        forall|k: int|
            0 <= k < groups.len() ==> roster(r, #[trigger] groups[k]).contains(peer_id),
    ensures
        introductions(with_peer(r, group_id, peer_id), groups) == introductions(r, groups),
        forall|k: int|
            0 <= k < groups.len() ==> roster(
                with_peer(r, group_id, peer_id),
                #[trigger] groups[k],
            ).contains(peer_id),
    decreases groups.len(),
{
    if groups.len() > 0 {
        let front = groups.drop_last();
        assert forall|k: int| 0 <= k < front.len() implies roster(r, #[trigger] front[k]).contains(
            peer_id,
        ) by {
            assert(front[k] == groups[k]);
        }
        lemma_others_keep_roster(r, front, group_id, peer_id);
        let last = groups[groups.len() - 1];
        assert(roster(r, last).contains(peer_id));
        assert(roster(with_peer(r, group_id, peer_id), last) == roster(r, last));
        assert forall|k: int| 0 <= k < groups.len() implies roster(
            with_peer(r, group_id, peer_id),
            #[trigger] groups[k],
        ).contains(peer_id) by {
            if k < front.len() {
                assert(front[k] == groups[k]);
            }
        }
    }
}

/// Where the table could be written for every group, the other node is in the roster of each of its
/// groups at the end, and what is broadcast are the introductions of these groups as their rosters
/// then are.
pub proof fn law_exchange_introduces(
    i: IntroducerModel,
    from_node: Seq<char>,
    key: Option<Seq<u8>>,
    groups: Seq<Seq<char>>,
    outcomes: Seq<GroupOutcome>,
)
    requires
        outcomes.len() == groups.len(),
        forall|k: int| 0 <= k < outcomes.len() ==> (#[trigger] outcomes[k]).written_down,
    ensures
        ({
            let (j, e) = after_groups(i, ExchangeModel::fresh(from_node, key, groups), outcomes);
            &&& forall|k: int|
                0 <= k < groups.len() ==> roster(j.rosters, #[trigger] groups[k]).contains(from_node)
            &&& e.action(j) == (ActionModel::Broadcast {
                messages: introductions(j.rosters, groups),
            })
        }),
{
    assert(outcomes.take(outcomes.len() as int) =~= outcomes);
    assert(groups.take(groups.len() as int) =~= groups);
    lemma_exchange_introduces(i, from_node, key, groups, outcomes);
    law_exchange_ends(i, from_node, key, groups, outcomes);
}

proof fn lemma_exchange_introduces(
    i: IntroducerModel,
    from_node: Seq<char>,
    key: Option<Seq<u8>>,
    groups: Seq<Seq<char>>,
    outcomes: Seq<GroupOutcome>,
)
    requires
        outcomes.len() <= groups.len(),
        forall|k: int| 0 <= k < outcomes.len() ==> (#[trigger] outcomes[k]).written_down,
    ensures
        ({
            let done = groups.take(outcomes.len() as int);
            let (j, e) = after_groups(i, ExchangeModel::fresh(from_node, key, groups), outcomes);
            &&& forall|k: int|
                0 <= k < done.len() ==> roster(j.rosters, #[trigger] done[k]).contains(from_node)
            &&& e.introductions == introductions(j.rosters, done)
        }),
    decreases outcomes.len(),
{
    let n = outcomes.len() as int;
    let fresh = ExchangeModel::fresh(from_node, key, groups);
    if n > 0 {
        let earlier = outcomes.drop_last();
        assert forall|k: int| 0 <= k < earlier.len() implies (#[trigger] earlier[k]).written_down by {
            assert(earlier[k] == outcomes[k]);
        }
        assert(outcomes[n - 1].written_down);
        lemma_exchange_introduces(i, from_node, key, groups, earlier);
        law_exchange_ends(i, from_node, key, groups, earlier);
        let (j, e) = after_groups(i, fresh, earlier);
        let done = groups.take(n - 1);
        let all = groups.take(n);
        let group_id = groups[n - 1];
        let r = with_peer(j.rosters, group_id, from_node);
        lemma_others_keep_roster(j.rosters, done, group_id, from_node);
        assert(all.drop_last() =~= done);
        assert(all.last() == group_id);
        let list = roster(j.rosters, group_id);
        if !list.contains(from_node) {
            assert(list.push(from_node)[list.len() as int] == from_node);
        }
        assert(roster(r, group_id).contains(from_node));
        let (j2, e2) = after_groups(i, fresh, outcomes);
        assert(j2.rosters == r);
        assert forall|k: int| 0 <= k < all.len() implies roster(r, #[trigger] all[k]).contains(
            from_node,
        ) by {
            if k < done.len() {
                assert(all[k] == done[k]);
            }
        }
        assert(e2.introductions == with_introduction(e.introductions, group_id, roster(r, group_id)));
    }
}

/// Where two nodes have said that they are in a group, the introduction of the group lists both of
/// them.
pub proof fn law_both_peers_are_introduced(
    r: Rosters,
    group_id: Seq<char>,
    a: Seq<char>,
    b: Seq<char>,
)
    requires
        a != b,
    ensures
        ({
            let both = with_peer(with_peer(r, group_id, a), group_id, b);
            &&& roster(both, group_id).contains(a)
            &&& roster(both, group_id).contains(b)
            &&& introductions(both, seq![group_id]) == seq![
                written(introduction(group_id, roster(both, group_id))),
            ]
        }),
{
    let one = with_peer(r, group_id, a);
    let both = with_peer(one, group_id, b);
    let list = roster(r, group_id);
    let first = roster(one, group_id);
    if !list.contains(a) {
        assert(first[list.len() as int] == a);
    }
    assert(first.contains(a));
    let k = choose|k: int| 0 <= k < first.len() && first[k] == a;
    let all = roster(both, group_id);
    if !first.contains(b) {
        assert(all[first.len() as int] == b);
    }
    assert(all[k] == a);
    assert(all.contains(b));
    let m = choose|m: int| 0 <= m < all.len() && all[m] == b;
    assert(k != m);
    assert(all.len() > 1);
    assert(seq![group_id].drop_last() =~= Seq::<Seq<char>>::empty());
    reveal_with_fuel(introductions, 2);
    assert(introductions(both, seq![group_id]) =~= seq![written(introduction(group_id, all))]);
}

} // verus!
