//! Which peers are online in which groups.
//!
//! The peers of each group are kept in a table of the database, and those that are online also in
//! memory. [`PeerTracker`] is what is in memory. [`PeerWrite`] is what the database has to do.

use vstd::prelude::*;

use crate::clock::{is_utc_now, utc_now};
use crate::string_map::StringMap;
use crate::text::{contains_text, same_text, texts};

verus! {

/// The number of seconds after which a peer that was not seen counts as gone.
pub const STALE_AFTER: u64 = 300;

/// The peers that are online, by group.
pub type Rosters = Map<Seq<char>, Seq<Seq<char>>>;

/// The peers of a group that are online.
pub open spec fn roster(r: Rosters, group_id: Seq<char>) -> Seq<Seq<char>> {
    if r.contains_key(group_id) {
        r[group_id]
    } else {
        Seq::empty()
    }
}

/// The rosters after a row of the table was loaded.
pub open spec fn with_row(r: Rosters, row: (Seq<char>, Seq<char>)) -> Rosters {
    r.insert(row.0, roster(r, row.0).push(row.1))
}

/// The rosters that rows of the table give, in the order of the rows.
pub open spec fn rosters_of(rows: Seq<(Seq<char>, Seq<char>)>) -> Rosters
    decreases rows.len(),
{
    if rows.len() == 0 {
        Map::empty()
    } else {
        with_row(rosters_of(rows.drop_last()), rows.last())
    }
}

/// The rosters after a peer showed up in a group.
pub open spec fn with_peer(r: Rosters, group_id: Seq<char>, peer_id: Seq<char>) -> Rosters {
    r.insert(
        group_id,
        if roster(r, group_id).contains(peer_id) {
            roster(r, group_id)
        } else {
            roster(r, group_id).push(peer_id)
        },
    )
}

/// The rosters after a peer went away.
pub open spec fn without_peer(r: Rosters, peer_id: Seq<char>) -> Rosters {
    r.map_values(|peers: Seq<Seq<char>>| others(peers, peer_id))
}

/// The peers of a list but one, in their order.
pub open spec fn others(peers: Seq<Seq<char>>, peer_id: Seq<char>) -> Seq<Seq<char>>
    decreases peers.len(),
{
    if peers.len() == 0 {
        Seq::empty()
    } else if peers.last() == peer_id {
        others(peers.drop_last(), peer_id)
    } else {
        others(peers.drop_last(), peer_id).push(peers.last())
    }
}

/// What stays of a list is what is not the one peer.
pub proof fn lemma_others(peers: Seq<Seq<char>>, peer_id: Seq<char>)
    ensures
        forall|p: Seq<char>| #[trigger]
            others(peers, peer_id).contains(p) <==> peers.contains(p) && p != peer_id,
        peers.no_duplicates() ==> others(peers, peer_id).no_duplicates(),
    decreases peers.len(),
{
    if peers.len() > 0 {
        let front = peers.drop_last();
        lemma_others(front, peer_id);
        assert(peers =~= front.push(peers.last()));
        let kept = others(front, peer_id);
        assert forall|p: Seq<char>| #[trigger]
            others(peers, peer_id).contains(p) <==> peers.contains(p) && p != peer_id by {
            if peers.contains(p) {
                let i = choose|i: int| 0 <= i < peers.len() && peers[i] == p;
                if i < front.len() {
                    assert(front[i] == p);
                }
            }
            if front.contains(p) {
                let i = choose|i: int| 0 <= i < front.len() && front[i] == p;
                assert(peers[i] == p);
            }
            assert(peers[peers.len() - 1] == peers.last());
            if others(peers, peer_id).contains(p) {
                let i = choose|i: int|
                    0 <= i < others(peers, peer_id).len() && others(peers, peer_id)[i] == p;
                if i < kept.len() {
                    assert(kept[i] == p);
                }
            }
            if kept.contains(p) {
                let i = choose|i: int| 0 <= i < kept.len() && kept[i] == p;
                assert(others(peers, peer_id)[i] == p);
            }
            if peers.last() != peer_id {
                assert(others(peers, peer_id)[kept.len() as int] == peers.last());
            }
        }
        if peers.no_duplicates() {
            assert(front.no_duplicates());
            if peers.last() != peer_id && kept.contains(peers.last()) {
                assert(front.contains(peers.last()));
            }
        }
    }
}

/// Whether a list holds the groups in which a peer is online, each of them once.
pub open spec fn are_groups_of(groups: Seq<Seq<char>>, r: Rosters, peer_id: Seq<char>) -> bool {
    &&& groups.no_duplicates()
    &&& forall|g: Seq<char>| #[trigger]
        groups.contains(g) <==> roster(r, g).contains(peer_id)
}

/// The number of peers in the rosters of a list of groups.
pub open spec fn roster_total(r: Rosters, groups: Seq<Seq<char>>) -> nat
    decreases groups.len(),
{
    if groups.len() == 0 {
        0
    } else {
        roster_total(r, groups.drop_last()) + roster(r, groups.last()).len()
    }
}

/// The peers that are online, as far as this node knows.
pub struct PeerTracker {
    cache: StringMap<Vec<String>>,
}

impl View for PeerTracker {
    type V = Rosters;

    closed spec fn view(&self) -> Rosters {
        self.cache@.map_values(|v: Vec<String>| texts(v@))
    }
}

/// What a list of rows holds.
pub open spec fn row_texts(rows: Seq<(String, String)>) -> Seq<(Seq<char>, Seq<char>)> {
    rows.map_values(|r: (String, String)| (r.0@, r.1@))
}

fn all_but(peers: &Vec<String>, peer_id: &str) -> (r: Vec<String>)
    ensures
        texts(r@) == others(texts(peers@), peer_id@),
{
    let ghost all = texts(peers@);
    let mut r: Vec<String> = Vec::new();
    let mut i: usize = 0;
    assert(all.take(0) =~= Seq::<Seq<char>>::empty());
    assert(texts(r@) =~= Seq::<Seq<char>>::empty());
    while i < peers.len()
        invariant
            i <= peers@.len(),
            all == texts(peers@),
            texts(r@) == others(all.take(i as int), peer_id@),
        decreases peers@.len() - i,
    {
        let ghost before = r@;
        assert(all.take(i + 1).drop_last() =~= all.take(i as int));
        if !same_text(peers[i].as_str(), peer_id) {
            r.push(peers[i].clone());
            assert(texts(r@) =~= texts(before).push(peers@[i as int]@));
        }
        i += 1;
    }
    assert(all.take(all.len() as int) =~= all);
    r
}

impl PeerTracker {
    /// The rosters are in order.
    pub closed spec fn wf(&self) -> bool {
        self.cache.wf()
    }

    /// The groups in the order in which this node heard of them.
    pub closed spec fn groups(&self) -> Seq<Seq<char>> {
        self.cache.order()
    }

    /// Every group stands once in that order.
    pub proof fn lemma_groups(&self)
        requires
            self.wf(),
        ensures
            self.groups().no_duplicates(),
            forall|g: Seq<char>| #[trigger] self.groups().contains(g) <==> self@.contains_key(g),
            self@.dom().finite(),
            self@.len() == self.groups().len(),
    {
        self.cache.lemma_order();
        self.cache.lemma_len();
        assert(self@.dom() =~= self.cache@.dom());
    }

    /// Nobody is online.
    pub fn new() -> (r: Self)
        ensures
            r.wf(),
            r@ == Map::<Seq<char>, Seq<Seq<char>>>::empty(),
    {
        let r = PeerTracker { cache: StringMap::new() };
        assert(r@ =~= Map::<Seq<char>, Seq<Seq<char>>>::empty());
        r
    }

    /// Replaces what is known by rows of the table, of which each names a group and a peer.
    pub fn load_cache(&mut self, rows: &Vec<(String, String)>)
        requires
            old(self).wf(),
        ensures
            final(self).wf(),
            final(self)@ == rosters_of(row_texts(rows@)),
    {
        self.cache = StringMap::new();
        let ghost all = row_texts(rows@);
        assert(all.take(0) =~= Seq::<(Seq<char>, Seq<char>)>::empty());
        assert(self@ =~= Map::<Seq<char>, Seq<Seq<char>>>::empty());
        let mut i: usize = 0;
        while i < rows.len()
            invariant
                i <= rows@.len(),
                all == row_texts(rows@),
                self.wf(),
                self@ == rosters_of(all.take(i as int)),
            decreases rows@.len() - i,
        {
            assert(all.take(i + 1).drop_last() =~= all.take(i as int));
            let ghost before = *self;
            let group: &String = &rows[i].0;
            let peer: &String = &rows[i].1;
            match self.cache.position(group.as_str()) {
                Some(k) => {
                    let mut peers: Vec<String> = self.cache.replace_at(k, Vec::new());
                    let ghost former = peers@;
                    assert(before@[group@] == texts(former));
                    peers.push(peer.clone());
                    assert(texts(peers@) =~= texts(former).push(peer@));
                    let _placeholder: Vec<String> = self.cache.replace_at(k, peers);
                },
                None => {
                    let mut peers: Vec<String> = Vec::new();
                    peers.push(peer.clone());
                    assert(texts(peers@) =~= Seq::<Seq<char>>::empty().push(peer@));
                    self.cache.insert(group.clone(), peers);
                },
            }
            assert(self@ =~= with_row(before@, (group@, peer@)));
            i += 1;
        }
        assert(all.take(all.len() as int) =~= all);
    }

    /// Records that a peer showed up in a group.
    pub fn record_peer(&mut self, group_id: &str, peer_id: &str)
        requires
            old(self).wf(),
        ensures
            final(self).wf(),
            final(self)@ == with_peer(old(self)@, group_id@, peer_id@),
    {
        let ghost before = *self;
        match self.cache.position(group_id) {
            Some(k) => {
                let mut peers: Vec<String> = self.cache.replace_at(k, Vec::new());
                let ghost former = peers@;
                assert(before@[group_id@] == texts(former));
                if !contains_text(&peers, peer_id) {
                    peers.push(peer_id.to_owned());
                    assert(texts(peers@) =~= texts(former).push(peer_id@));
                }
                let _placeholder: Vec<String> = self.cache.replace_at(k, peers);
            },
            None => {
                let mut peers: Vec<String> = Vec::new();
                peers.push(peer_id.to_owned());
                assert(texts(peers@) =~= Seq::<Seq<char>>::empty().push(peer_id@));
                self.cache.insert(group_id.to_owned(), peers);
            },
        }
        assert(self@ =~= with_peer(before@, group_id@, peer_id@));
    }

    /// Records that a peer went away, and gives the groups in which it was online, each of them
    /// once.
    pub fn forget_peer(&mut self, peer_id: &str) -> (r: Vec<String>)
        requires
            old(self).wf(),
        ensures
            final(self).wf(),
            final(self)@ == without_peer(old(self)@, peer_id@),
            are_groups_of(texts(r@), old(self)@, peer_id@),
    {
        let ghost before = *self;
        let n: usize = self.cache.len();
        let mut left: Vec<String> = Vec::new();
        let mut i: usize = 0;
        proof {
            self.cache.lemma_order();
        }
        while i < n
            invariant
                i <= n,
                n == self.cache.order().len(),
                before.cache.wf(),
                self.cache.wf(),
                self.cache.order() == before.cache.order(),
                self.cache.order().no_duplicates(),
                forall|g: Seq<char>|
                    before.cache@.contains_key(g) <==> #[trigger] self.cache@.contains_key(g),
                forall|j: int|
                    0 <= j < i ==> texts(self.cache@[#[trigger] self.cache.order()[j]]@) == others(
                        texts(before.cache@[before.cache.order()[j]]@),
                        peer_id@,
                    ),
                forall|j: int|
                    i <= j < n ==> self.cache@[#[trigger] self.cache.order()[j]]
                        == before.cache@[before.cache.order()[j]],
                texts(left@).no_duplicates(),
                forall|g: Seq<char>| #[trigger]
                    texts(left@).contains(g) <==> exists|j: int|
                        0 <= j < i && #[trigger] before.cache.order()[j] == g && texts(
                            before.cache@[g]@,
                        ).contains(peer_id@),
            decreases n - i,
        {
            let ghost group = before.cache.order()[i as int];
            let ghost so_far = left@;
            assert(forall|g: Seq<char>| #[trigger]
                texts(so_far).contains(g) <==> exists|j: int|
                    0 <= j < i && #[trigger] before.cache.order()[j] == g && texts(
                        before.cache@[g]@,
                    ).contains(peer_id@));
            let peers: &Vec<String> = self.cache.value_at(i);
            let listed: bool = contains_text(peers, peer_id);
            let kept: Vec<String> = all_but(peers, peer_id);
            if listed {
                left.push(self.cache.key_at(i).clone());
                assert(texts(left@) =~= texts(so_far).push(group));
                assert(!texts(so_far).contains(group)) by {
                    if texts(so_far).contains(group) {
                        let j = choose|j: int|
                            0 <= j < i && #[trigger] before.cache.order()[j] == group && texts(
                                before.cache@[group]@,
                            ).contains(peer_id@);
                        assert(before.cache.order()[j] != before.cache.order()[i as int]);
                    }
                }
            }
            assert forall|g: Seq<char>| #[trigger]
                texts(left@).contains(g) <==> exists|j: int|
                    0 <= j < i + 1 && #[trigger] before.cache.order()[j] == g && texts(
                        before.cache@[g]@,
                    ).contains(peer_id@) by {
                lemma_push_contains(texts(so_far), group, g);
                if texts(so_far).contains(g) {
                    let j = choose|j: int|
                        0 <= j < i && #[trigger] before.cache.order()[j] == g && texts(
                            before.cache@[g]@,
                        ).contains(peer_id@);
                    assert(0 <= j < i + 1 && before.cache.order()[j] == g);
                }
                if g == group && listed {
                    assert(before.cache.order()[i as int] == g);
                }
                if exists|j: int|
                    0 <= j < i + 1 && #[trigger] before.cache.order()[j] == g && texts(
                        before.cache@[g]@,
                    ).contains(peer_id@) {
                    let j = choose|j: int|
                        0 <= j < i + 1 && #[trigger] before.cache.order()[j] == g && texts(
                            before.cache@[g]@,
                        ).contains(peer_id@);
                    if j < i {
                        assert(0 <= j < i && before.cache.order()[j] == g);
                    }
                }
            }
            let ghost here = *self;
            let _former: Vec<String> = self.cache.replace_at(i, kept);
            assert forall|j: int|
                0 <= j < n && j != i implies self.cache@[#[trigger] self.cache.order()[j]]
                == here.cache@[here.cache.order()[j]] by {
                assert(self.cache.order()[j] != self.cache.order()[i as int]);
            }
            i += 1;
        }
        assert forall|g: Seq<char>| self@.contains_key(g) implies #[trigger] self@[g]
            == without_peer(before@, peer_id@)[g] by {
            before.cache.lemma_order();
            let j = choose|j: int| 0 <= j < n && before.cache.order()[j] == g;
            assert(before.cache.order().contains(g));
            assert(self.cache.order()[j] == g);
        }
        assert(self@ =~= without_peer(before@, peer_id@));
        assert forall|g: Seq<char>| #[trigger]
            texts(left@).contains(g) <==> roster(before@, g).contains(peer_id@) by {
            before.cache.lemma_order();
            if roster(before@, g).contains(peer_id@) {
                assert(before.cache.order().contains(g));
                let j = choose|j: int| 0 <= j < n && before.cache.order()[j] == g;
                assert(0 <= j < n && before.cache.order()[j] == g);
            }
            if texts(left@).contains(g) {
                let j = choose|j: int|
                    0 <= j < n && #[trigger] before.cache.order()[j] == g && texts(
                        before.cache@[g]@,
                    ).contains(peer_id@);
                assert(before.cache@.contains_key(before.cache.order()[j]));
            }
        }
        left
    }

    /// The peers of a group that are online.
    pub fn get_peers(&self, group_id: &str) -> (r: Vec<String>)
        requires
            self.wf(),
        ensures
            texts(r@) == roster(self@, group_id@),
    {
        match self.cache.get(group_id) {
            Some(peers) => peers.clone(),
            None => {
                let none: Vec<String> = Vec::new();
                assert(texts(none@) =~= Seq::<Seq<char>>::empty());
                none
            },
        }
    }

    /// The groups in which somebody is online, each of them once.
    pub fn get_active_groups(&self) -> (r: Vec<String>)
        requires
            self.wf(),
        ensures
            texts(r@).no_duplicates(),
            forall|g: Seq<char>| #[trigger]
                texts(r@).contains(g) <==> roster(self@, g).len() > 0,
    {
        proof {
            self.cache.lemma_order();
        }
        let n: usize = self.cache.len();
        let mut r: Vec<String> = Vec::new();
        let mut i: usize = 0;
        while i < n
            invariant
                i <= n,
                n == self.cache.order().len(),
                self.cache.wf(),
                self.cache.order().no_duplicates(),
                forall|g: Seq<char>| #[trigger]
                    self.cache.order().contains(g) <==> self.cache@.contains_key(g),
                texts(r@).no_duplicates(),
                forall|j: int| #![trigger r@[j]]
                    0 <= j < r@.len() ==> exists|k: int|
                        0 <= k < i && #[trigger] self.cache.order()[k] == r@[j]@ && roster(
                            self@,
                            r@[j]@,
                        ).len() > 0,
                forall|k: int|
                    0 <= k < i && roster(self@, #[trigger] self.cache.order()[k]).len() > 0
                        ==> texts(r@).contains(self.cache.order()[k]),
            decreases n - i,
        {
            let ghost before = r@;
            let ghost group = self.cache.order()[i as int];
            assert(self.cache.order().contains(group));
            let peers: &Vec<String> = self.cache.value_at(i);
            if peers.len() > 0 {
                r.push(self.cache.key_at(i).clone());
                assert(texts(r@) =~= texts(before).push(group));
                assert forall|j: int| 0 <= j < texts(before).len() implies texts(before)[j] != group by {
                    assert(before[j]@ == texts(before)[j]);
                    let k = choose|k: int|
                        0 <= k < i && #[trigger] self.cache.order()[k] == before[j]@ && roster(
                            self@,
                            before[j]@,
                        ).len() > 0;
                    assert(self.cache.order()[k] != self.cache.order()[i as int]);
                }
                assert(texts(r@)[r@.len() - 1] == group);
                assert forall|j: int| #![trigger r@[j]] 0 <= j < r@.len() implies exists|k: int|
                    0 <= k < i + 1 && #[trigger] self.cache.order()[k] == r@[j]@ && roster(
                        self@,
                        r@[j]@,
                    ).len() > 0 by {
                    if j < before.len() {
                        assert(r@[j] == before[j]);
                    } else {
                        assert(self.cache.order()[i as int] == r@[j]@);
                    }
                }
                assert forall|k: int|
                    0 <= k < i + 1 && roster(self@, #[trigger] self.cache.order()[k]).len() > 0 implies texts(
                    r@,
                ).contains(self.cache.order()[k]) by {
                    if k < i {
                        let j = choose|j: int|
                            0 <= j < texts(before).len() && texts(before)[j]
                                == self.cache.order()[k];
                        assert(texts(r@)[j] == self.cache.order()[k]);
                    }
                }
            }
            i += 1;
        }
        assert forall|g: Seq<char>| #[trigger]
            texts(r@).contains(g) <==> roster(self@, g).len() > 0 by {
            if texts(r@).contains(g) {
                let j = choose|j: int| 0 <= j < texts(r@).len() && texts(r@)[j] == g;
                assert(r@[j]@ == g);
            }
            if roster(self@, g).len() > 0 {
                assert(self.cache.order().contains(g));
                let k = choose|k: int| 0 <= k < n && self.cache.order()[k] == g;
                assert(texts(r@).contains(self.cache.order()[k]));
            }
        }
        r
    }

    /// The number of groups, and the number of peers that are online in them.
    pub fn stats(&self) -> (r: (usize, u128))
        requires
            self.wf(),
        ensures
            r.0 == self@.len(),
            r.1 == roster_total(self@, self.groups()),
    {
        proof {
            self.lemma_groups();
        }
        let n: usize = self.cache.len();
        let mut total: u128 = 0;
        let mut i: usize = 0;
        let ghost all = self.groups();
        assert(all.take(0) =~= Seq::<Seq<char>>::empty());
        while i < n
            invariant
                i <= n,
                self.cache.wf(),
                all == self.groups(),
                n == self.cache.order().len(),
                total == roster_total(self@, all.take(i as int)),
                total <= i * 0xffff_ffff_ffff_ffff,
            decreases n - i,
        {
            assert(all.take(i + 1).drop_last() =~= all.take(i as int));
            let peers: &Vec<String> = self.cache.value_at(i);
            let size: usize = peers.len();
            assert(roster(self@, all[i as int]).len() == size);
            total = total + size as u128;
            i += 1;
        }
        assert(all.take(all.len() as int) =~= all);
        (n, total)
    }
}

// ---------------------------------------------------------------------------------------------
// The table
// ---------------------------------------------------------------------------------------------

/// What the database has to do to the table of peers.
#[derive(Debug)]
pub enum PeerWrite {
    /// A peer of a group that is in the table was seen: it is online.
    Touch { group_id: String, peer_id: String, now: i64 },
    /// A peer of a group that is not in the table was seen: a row is made for it.
    Insert { group_id: String, peer_id: String, now: i64 },
    /// A peer went away from all its groups.
    Offline { peer_id: String, now: i64 },
    /// Whoever was last seen before a time is offline.
    Prune { cutoff: i64 },
}

/// The model of a [`PeerWrite`].
pub enum PeerWriteModel {
    Touch { group_id: Seq<char>, peer_id: Seq<char>, now: i64 },
    Insert { group_id: Seq<char>, peer_id: Seq<char>, now: i64 },
    Offline { peer_id: Seq<char>, now: i64 },
    Prune { cutoff: i64 },
}

impl View for PeerWrite {
    type V = PeerWriteModel;

    open spec fn view(&self) -> PeerWriteModel {
        match *self {
            PeerWrite::Touch { group_id, peer_id, now } => PeerWriteModel::Touch {
                group_id: group_id@,
                peer_id: peer_id@,
                now,
            },
            PeerWrite::Insert { group_id, peer_id, now } => PeerWriteModel::Insert {
                group_id: group_id@,
                peer_id: peer_id@,
                now,
            },
            PeerWrite::Offline { peer_id, now } => PeerWriteModel::Offline {
                peer_id: peer_id@,
                now,
            },
            PeerWrite::Prune { cutoff } => PeerWriteModel::Prune { cutoff },
        }
    }
}

/// What is done when a peer shows up in a group, given whether the table has it.
pub open spec fn upsert(
    group_id: Seq<char>,
    peer_id: Seq<char>,
    exists_already: bool,
    now: i64,
) -> PeerWriteModel {
    if exists_already {
        PeerWriteModel::Touch { group_id, peer_id, now }
    } else {
        PeerWriteModel::Insert { group_id, peer_id, now }
    }
}

/// The time before which a peer must have been seen last to count as gone, no earlier than can be
/// represented.
pub open spec fn cutoff_at(now: i64, max_age: u64) -> i64 {
    if now - max_age < i64::MIN {
        i64::MIN
    } else {
        (now - max_age) as i64
    }
}

/// What the database has to do when a peer shows up in a group at the given time, and whether the
/// peer is new there.
pub fn upsert_write_at(group_id: &str, peer_id: &str, exists_already: bool, now: i64) -> (r: (
    PeerWrite,
    bool,
))
    ensures
        r.0@ == upsert(group_id@, peer_id@, exists_already, now),
        r.1 == !exists_already,
{
    let group_id: String = group_id.to_owned();
    let peer_id: String = peer_id.to_owned();
    if exists_already {
        (PeerWrite::Touch { group_id, peer_id, now }, false)
    } else {
        (PeerWrite::Insert { group_id, peer_id, now }, true)
    }
}

/// What the database has to do when a peer shows up in a group now, and whether the peer is new
/// there.
pub fn upsert_write(group_id: &str, peer_id: &str, exists_already: bool) -> (r: (PeerWrite, bool))
    ensures
        exists|now: i64| #[trigger]
            is_utc_now(now) && r.0@ == upsert(group_id@, peer_id@, exists_already, now),
        r.1 == !exists_already,
{
    upsert_write_at(group_id, peer_id, exists_already, utc_now())
}

/// What the database has to do when a peer goes away at the given time.
pub fn offline_write_at(peer_id: &str, now: i64) -> (r: PeerWrite)
    ensures
        r@ == (PeerWriteModel::Offline { peer_id: peer_id@, now }),
{
    PeerWrite::Offline { peer_id: peer_id.to_owned(), now }
}

/// What the database has to do when a peer goes away now.
pub fn offline_write(peer_id: &str) -> (r: PeerWrite)
    ensures
        exists|now: i64| #[trigger]
            is_utc_now(now) && r@ == (PeerWriteModel::Offline { peer_id: peer_id@, now }),
{
    offline_write_at(peer_id, utc_now())
}

/// What the database has to do so that peers that were not seen for some seconds before the given
/// time are offline.
pub fn prune_write_at(now: i64, max_age: u64) -> (r: PeerWrite)
    ensures
        r@ == (PeerWriteModel::Prune { cutoff: cutoff_at(now, max_age) }),
{
    let cutoff: i128 = now as i128 - max_age as i128;
    if cutoff < i64::MIN as i128 {
        PeerWrite::Prune { cutoff: i64::MIN }
    } else {
        PeerWrite::Prune { cutoff: cutoff as i64 }
    }
}

/// What the database has to do so that peers that were not seen for some seconds are offline.
pub fn prune_write(max_age: u64) -> (r: PeerWrite)
    ensures
        exists|now: i64| #[trigger]
            is_utc_now(now) && r@ == (PeerWriteModel::Prune { cutoff: cutoff_at(now, max_age) }),
{
    prune_write_at(utc_now(), max_age)
}

// ---------------------------------------------------------------------------------------------
// What is in memory agrees with the table
// ---------------------------------------------------------------------------------------------

/// A row of the table.
pub struct PeerRow {
    pub first_seen: i64,
    pub last_seen: i64,
    pub online: bool,
}

/// The table of peers, by group and peer.
pub type PeerTable = Map<(Seq<char>, Seq<char>), PeerRow>;

/// The table after the database did what it had to.
pub open spec fn table_after(table: PeerTable, write: PeerWriteModel) -> PeerTable {
    match write {
        PeerWriteModel::Touch { group_id, peer_id, now } => {
            let key = (group_id, peer_id);
            if table.contains_key(key) {
                table.insert(key, PeerRow { last_seen: now, online: true, ..table[key] })
            } else {
                table
            }
        },
        PeerWriteModel::Insert { group_id, peer_id, now } => table.insert(
            (group_id, peer_id),
            PeerRow { first_seen: now, last_seen: now, online: true },
        ),
        PeerWriteModel::Offline { peer_id, now } => Map::new(
            |key: (Seq<char>, Seq<char>)| table.contains_key(key),
            |key: (Seq<char>, Seq<char>)|
                if key.1 == peer_id {
                    PeerRow { last_seen: now, online: false, ..table[key] }
                } else {
                    table[key]
                },
        ),
        PeerWriteModel::Prune { cutoff } => table.map_values(
            |row: PeerRow|
                if row.last_seen < cutoff {
                    PeerRow { online: false, ..row }
                } else {
                    row
                },
        ),
    }
}

/// Whether a peer is online in a group.
pub open spec fn is_online(table: PeerTable, group_id: Seq<char>, peer_id: Seq<char>) -> bool {
    table.contains_key((group_id, peer_id)) && table[(group_id, peer_id)].online
}

/// Whether the rosters say of each peer what the table says, and name nobody twice.
pub open spec fn agrees(r: Rosters, table: PeerTable) -> bool {
    &&& forall|g: Seq<char>, p: Seq<char>| #[trigger]
        roster(r, g).contains(p) <==> is_online(table, g, p)
    &&& forall|g: Seq<char>| (#[trigger] roster(r, g)).no_duplicates()
}

/// Whether rows are the ones of the table that are online, each of them once, in any order.
pub open spec fn lists_online(rows: Seq<(Seq<char>, Seq<char>)>, table: PeerTable) -> bool {
    &&& rows.no_duplicates()
    &&& forall|g: Seq<char>, p: Seq<char>| #[trigger]
        rows.contains((g, p)) <==> is_online(table, g, p)
}

proof fn lemma_rosters_of(rows: Seq<(Seq<char>, Seq<char>)>)
    requires
        rows.no_duplicates(),
    ensures
        forall|g: Seq<char>, p: Seq<char>| #[trigger]
            roster(rosters_of(rows), g).contains(p) <==> rows.contains((g, p)),
        forall|g: Seq<char>| (#[trigger] roster(rosters_of(rows), g)).no_duplicates(),
    decreases rows.len(),
{
    if rows.len() > 0 {
        let front = rows.drop_last();
        let last = rows.last();
        assert(front.no_duplicates());
        lemma_rosters_of(front);
        let before = rosters_of(front);
        let after = rosters_of(rows);
        let list = roster(before, last.0);
        assert(rows =~= front.push(last));
        assert(!front.contains(last));
        assert(!list.contains(last.1));
        assert(roster(after, last.0) == list.push(last.1));
        assert(list.push(last.1)[list.len() as int] == last.1);
        assert(rows[rows.len() - 1] == last);
        assert forall|g: Seq<char>, p: Seq<char>| #[trigger]
            roster(after, g).contains(p) <==> rows.contains((g, p)) by {
            lemma_push_contains(list, last.1, p);
            lemma_push_contains(front, last, (g, p));
            if g != last.0 {
                assert(roster(after, g) == roster(before, g));
            }
        }
        assert forall|g: Seq<char>| (#[trigger] roster(after, g)).no_duplicates() by {
            if g != last.0 {
                assert(roster(after, g) == roster(before, g));
            } else {
                assert(list.no_duplicates());
            }
        }
    }
}

proof fn lemma_push_contains<A>(list: Seq<A>, new: A, x: A)
    ensures
        list.push(new).contains(x) <==> list.contains(x) || x == new,
{
    if list.push(new).contains(x) {
        let i = choose|i: int| 0 <= i < list.push(new).len() && list.push(new)[i] == x;
        if i < list.len() {
            assert(list[i] == x);
        }
    }
    if list.contains(x) {
        let i = choose|i: int| 0 <= i < list.len() && list[i] == x;
        assert(list.push(new)[i] == x);
    }
    assert(list.push(new)[list.len() as int] == new);
}

/// What is loaded from the table agrees with it, in whatever order the rows come. This holds at
/// the start, and after peers that were not seen for long were put offline.
pub proof fn law_loading_agrees(rows: Seq<(Seq<char>, Seq<char>)>, table: PeerTable)
    requires
        lists_online(rows, table),
    ensures
        agrees(rosters_of(rows), table),
{
    lemma_rosters_of(rows);
    assert forall|g: Seq<char>, p: Seq<char>| #[trigger]
        roster(rosters_of(rows), g).contains(p) <==> is_online(table, g, p) by {
        assert(rows.contains((g, p)) <==> is_online(table, g, p));
    }
}

/// When a peer shows up in a group, the rosters go on agreeing with the table, and the peer is in
/// the roster of the group.
pub proof fn law_upsert_keeps_agreement(
    r: Rosters,
    table: PeerTable,
    group_id: Seq<char>,
    peer_id: Seq<char>,
    now: i64,
)
    requires
        agrees(r, table),
    ensures
        agrees(
            with_peer(r, group_id, peer_id),
            table_after(
                table,
                upsert(group_id, peer_id, table.contains_key((group_id, peer_id)), now),
            ),
        ),
        roster(with_peer(r, group_id, peer_id), group_id).contains(peer_id),
{
    let after = with_peer(r, group_id, peer_id);
    let write = upsert(group_id, peer_id, table.contains_key((group_id, peer_id)), now);
    let new_table = table_after(table, write);
    let list = roster(r, group_id);
    assert(list.no_duplicates());
    assert forall|g: Seq<char>, p: Seq<char>| #[trigger]
        roster(after, g).contains(p) <==> is_online(new_table, g, p) by {
        lemma_push_contains(list, peer_id, p);
        assert(roster(r, g).contains(p) <==> is_online(table, g, p));
        if g != group_id {
            assert(roster(after, g) == roster(r, g));
        }
    }
    assert forall|g: Seq<char>| (#[trigger] roster(after, g)).no_duplicates() by {
        if g != group_id {
            assert(roster(after, g) == roster(r, g));
        }
    }
    lemma_push_contains(list, peer_id, peer_id);
}

/// When a peer goes away, the rosters go on agreeing with the table, and the peer is in no roster.
/// Nobody else is put offline.
pub proof fn law_departure_keeps_agreement(
    r: Rosters,
    table: PeerTable,
    peer_id: Seq<char>,
    now: i64,
)
    requires
        agrees(r, table),
    ensures
        agrees(
            without_peer(r, peer_id),
            table_after(table, PeerWriteModel::Offline { peer_id, now }),
        ),
        forall|g: Seq<char>, p: Seq<char>| #[trigger]
            roster(without_peer(r, peer_id), g).contains(p) <==> roster(r, g).contains(p) && p
                != peer_id,
{
    let after = without_peer(r, peer_id);
    let new_table = table_after(table, PeerWriteModel::Offline { peer_id, now });
    assert forall|g: Seq<char>, p: Seq<char>| #[trigger]
        roster(after, g).contains(p) <==> roster(r, g).contains(p) && p != peer_id by {
        lemma_others(roster(r, g), peer_id);
        if r.contains_key(g) {
            assert(roster(after, g) == others(roster(r, g), peer_id));
        }
    }
    assert forall|g: Seq<char>, p: Seq<char>| #[trigger]
        roster(after, g).contains(p) <==> is_online(new_table, g, p) by {
        assert(roster(r, g).contains(p) <==> is_online(table, g, p));
    }
    assert forall|g: Seq<char>| (#[trigger] roster(after, g)).no_duplicates() by {
        lemma_others(roster(r, g), peer_id);
        assert(roster(r, g).no_duplicates());
        if r.contains_key(g) {
            assert(roster(after, g) == others(roster(r, g), peer_id));
        }
    }
}

/// Whether a list holds the groups in which the table has a peer online, each of them once, in any
/// order.
pub open spec fn are_online_groups(
    groups: Seq<Seq<char>>,
    table: PeerTable,
    peer_id: Seq<char>,
) -> bool {
    &&& groups.no_duplicates()
    &&& forall|g: Seq<char>| #[trigger] groups.contains(g) <==> is_online(table, g, peer_id)
}

/// The groups that a departing peer leaves are the same in memory and in the table. When the peer
/// goes away a second time there are none, and a group that is left without peers is not active any
/// more. The table keeps every row, and those of other peers as they are.
pub proof fn law_departure_tells_groups(
    r: Rosters,
    table: PeerTable,
    peer_id: Seq<char>,
    now: i64,
    in_memory: Seq<Seq<char>>,
    in_table: Seq<Seq<char>>,
    in_memory_again: Seq<Seq<char>>,
    in_table_again: Seq<Seq<char>>,
)
    requires
        agrees(r, table),
        are_groups_of(in_memory, r, peer_id),
        are_online_groups(in_table, table, peer_id),
        are_groups_of(in_memory_again, without_peer(r, peer_id), peer_id),
        are_online_groups(
            in_table_again,
            table_after(table, PeerWriteModel::Offline { peer_id, now }),
            peer_id,
        ),
    ensures
        forall|g: Seq<char>| #[trigger] in_memory.contains(g) <==> in_table.contains(g),
        in_memory_again.len() == 0,
        in_table_again.len() == 0,
        forall|g: Seq<char>|
            (forall|p: Seq<char>| #[trigger] roster(r, g).contains(p) ==> p == peer_id) ==> (
            #[trigger] roster(without_peer(r, peer_id), g)).len() == 0,
        ({
            let after = table_after(table, PeerWriteModel::Offline { peer_id, now });
            &&& after.dom() == table.dom()
            &&& forall|key: (Seq<char>, Seq<char>)| #[trigger]
                table.contains_key(key) && key.1 != peer_id ==> after[key] == table[key]
        }),
{
    let rest = without_peer(r, peer_id);
    let after = table_after(table, PeerWriteModel::Offline { peer_id, now });
    law_departure_keeps_agreement(r, table, peer_id, now);
    assert forall|g: Seq<char>| #[trigger] in_memory.contains(g) <==> in_table.contains(g) by {
        assert(roster(r, g).contains(peer_id) <==> is_online(table, g, peer_id));
    }
    if in_memory_again.len() > 0 {
        assert(in_memory_again.contains(in_memory_again[0]));
        assert(roster(rest, in_memory_again[0]).contains(peer_id));
    }
    if in_table_again.len() > 0 {
        assert(in_table_again.contains(in_table_again[0]));
        assert(is_online(after, in_table_again[0], peer_id));
    }
    assert forall|g: Seq<char>|
        (forall|p: Seq<char>| #[trigger] roster(r, g).contains(p) ==> p == peer_id) implies (
    #[trigger] roster(rest, g)).len() == 0 by {
        if roster(rest, g).len() > 0 {
            assert(roster(rest, g).contains(roster(rest, g)[0]));
        }
    }
    assert(after.dom() =~= table.dom());
}

/// Whoever was seen since the cutoff stays online, and whoever was not is offline.
pub proof fn law_prune(table: PeerTable, cutoff: i64, group_id: Seq<char>, peer_id: Seq<char>)
    ensures
        is_online(table_after(table, PeerWriteModel::Prune { cutoff }), group_id, peer_id)
            <==> is_online(table, group_id, peer_id) && table[(group_id, peer_id)].last_seen
            >= cutoff,
{
}

} // verus!
