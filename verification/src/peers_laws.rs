//! What the rosters and the table of peers are for: who is where, and since when.

use vstd::prelude::*;

use crate::peers::{
    are_groups_of, cutoff_at, is_online, others, roster, roster_total, rosters_of, row_texts,
    table_after, upsert, with_peer, without_peer, PeerTable, PeerWriteModel, Rosters, STALE_AFTER,
};

verus! {

/// A peer that shows up in a group comes last in its roster, unless it is there already. Everybody
/// else stays in place, there and in every other group, and no group comes or goes but this one.
pub proof fn law_only_the_peer_joins(
    r: Rosters,
    group_id: Seq<char>,
    peer_id: Seq<char>,
    other: Seq<char>,
)
    ensures
        with_peer(r, group_id, peer_id).contains_key(group_id),
        other != group_id ==> with_peer(r, group_id, peer_id).contains_key(other)
            == r.contains_key(other),
        other != group_id ==> roster(with_peer(r, group_id, peer_id), other) == roster(r, other),
        roster(r, group_id).contains(peer_id) ==> roster(with_peer(r, group_id, peer_id), group_id)
            == roster(r, group_id),
        !roster(r, group_id).contains(peer_id) ==> roster(
            with_peer(r, group_id, peer_id),
            group_id,
        ) == roster(r, group_id).push(peer_id),
        r.contains_key(other) ==> roster(r, other) == r[other],
        !r.contains_key(other) ==> roster(r, other).len() == 0,
{
}

/// What is left of a list is its peers but the one, in their order.
pub proof fn law_others_stay_in_order(peers: Seq<Seq<char>>, peer_id: Seq<char>)
    ensures
        others(peers, peer_id) == peers.filter(|p: Seq<char>| p != peer_id),
    decreases peers.len(),
{
    reveal(Seq::filter);
    if peers.len() == 0 {
        assert(others(peers, peer_id) =~= peers.filter(|p: Seq<char>| p != peer_id));
    } else {
        law_others_stay_in_order(peers.drop_last(), peer_id);
    }
}

/// A peer that goes away goes from every roster. Everybody else stays, in their order, and every
/// group stays known.
pub proof fn law_only_the_peer_leaves(r: Rosters, peer_id: Seq<char>, group_id: Seq<char>)
    ensures
        without_peer(r, peer_id).dom() == r.dom(),
        roster(without_peer(r, peer_id), group_id) == roster(r, group_id).filter(
            |p: Seq<char>| p != peer_id,
        ),
{
    assert(without_peer(r, peer_id).dom() =~= r.dom());
    law_others_stay_in_order(roster(r, group_id), peer_id);
    reveal(Seq::filter);
}

/// A peer leaves each group in whose roster it was, once, and no other.
pub proof fn law_groups_are_left_once(
    r: Rosters,
    peer_id: Seq<char>,
    groups: Seq<Seq<char>>,
    i: int,
    j: int,
    group_id: Seq<char>,
)
    requires
        are_groups_of(groups, r, peer_id),
        0 <= i < j < groups.len(),
    ensures
        groups[i] != groups[j],
        roster(r, groups[i]).contains(peer_id) && roster(r, groups[j]).contains(peer_id),
        roster(r, group_id).contains(peer_id) ==> groups.contains(group_id),
{
    assert(groups.contains(groups[i]) && groups.contains(groups[j]));
}

/// A roster that is loaded holds the peers of the rows of its group, in the order of the rows.
pub proof fn law_rosters_follow_the_rows(
    rows: Seq<(Seq<char>, Seq<char>)>,
    group_id: Seq<char>,
)
    ensures
        roster(rosters_of(rows), group_id) == rows.filter(
            |row: (Seq<char>, Seq<char>)| row.0 == group_id,
        ).map_values(|row: (Seq<char>, Seq<char>)| row.1),
        rosters_of(rows).contains_key(group_id) <==> exists|i: int|
            0 <= i < rows.len() && (#[trigger] rows[i]).0 == group_id,
    decreases rows.len(),
{
    reveal(Seq::filter);
    let own = |row: (Seq<char>, Seq<char>)| row.0 == group_id;
    let peer = |row: (Seq<char>, Seq<char>)| row.1;
    if rows.len() == 0 {
        assert(roster(rosters_of(rows), group_id) =~= rows.filter(own).map_values(peer));
    } else {
        let earlier = rows.drop_last();
        law_rosters_follow_the_rows(earlier, group_id);
        assert(roster(rosters_of(rows), group_id) =~= rows.filter(own).map_values(peer));
        assert(rows[rows.len() - 1] == rows.last());
        if exists|i: int| 0 <= i < earlier.len() && (#[trigger] earlier[i]).0 == group_id {
            let i = choose|i: int| 0 <= i < earlier.len() && (#[trigger] earlier[i]).0 == group_id;
            assert(rows[i].0 == group_id);
        }
        if exists|i: int| 0 <= i < rows.len() && (#[trigger] rows[i]).0 == group_id {
            let i = choose|i: int| 0 <= i < rows.len() && (#[trigger] rows[i]).0 == group_id;
            if i < earlier.len() {
                assert(earlier[i].0 == group_id);
            }
        }
    }
}

/// Rows are taken in one by one.
pub proof fn law_rows_are_taken_one_by_one(rows: Seq<(String, String)>)
    ensures
        row_texts(rows).len() == rows.len(),
        forall|i: int|
            0 <= i < rows.len() ==> #[trigger] row_texts(rows)[i] == (rows[i].0@, rows[i].1@),
{
}

/// The number of peers is the sum of the lengths of the rosters.
pub proof fn law_peers_are_counted(r: Rosters, groups: Seq<Seq<char>>)
    ensures
        roster_total(r, groups) == groups.fold_left(
            0,
            |sum: int, g: Seq<char>| sum + roster(r, g).len(),
        ),
    decreases groups.len(),
{
    if groups.len() > 0 {
        law_peers_are_counted(r, groups.drop_last());
    }
}

/// Writing down that a peer was seen makes it online in that group as of now, and first seen now
/// where it was not in the table. No other row changes.
pub proof fn law_seeing_a_peer_is_written_down(
    table: PeerTable,
    group_id: Seq<char>,
    peer_id: Seq<char>,
    now: i64,
    other: (Seq<char>, Seq<char>),
)
    requires
        other != (group_id, peer_id),
    ensures
        ({
            let key = (group_id, peer_id);
            let after = table_after(
                table,
                upsert(group_id, peer_id, table.contains_key(key), now),
            );
            &&& is_online(after, group_id, peer_id)
            &&& after.contains_key(key) && after[key].online
            &&& after[key].last_seen == now
            &&& after[key].first_seen == (if table.contains_key(key) {
                table[key].first_seen
            } else {
                now
            })
            &&& after.contains_key(other) == table.contains_key(other)
            &&& table.contains_key(other) ==> after[other] == table[other]
        }),
{
}

/// Writing down that a peer went away makes it offline everywhere as of now, and changes nobody
/// else's rows.
pub proof fn law_a_departure_is_written_down(
    table: PeerTable,
    peer_id: Seq<char>,
    now: i64,
    key: (Seq<char>, Seq<char>),
)
    requires
        table.contains_key(key),
    ensures
        ({
            let after = table_after(table, PeerWriteModel::Offline { peer_id, now });
            &&& after.contains_key(key) && after[key].first_seen == table[key].first_seen
            &&& key.1 == peer_id ==> !after[key].online && after[key].last_seen == now
            &&& key.1 != peer_id ==> after[key] == table[key]
        }),
{
}

/// The cutoff lies back from now by the age, as far as times go back.
pub proof fn law_cutoff(now: i64, max_age: u64)
    ensures
        now - max_age >= i64::MIN ==> cutoff_at(now, max_age) + max_age == now,
        now - max_age < i64::MIN ==> cutoff_at(now, max_age) == i64::MIN,
{
}

/// Whoever was seen in the last five minutes stays online, and whoever was not is put offline.
pub proof fn law_five_minutes(
    table: PeerTable,
    now: i64,
    group_id: Seq<char>,
    peer_id: Seq<char>,
)
    requires
        now >= 0,
        is_online(table, group_id, peer_id),
    ensures
        is_online(
            table_after(table, PeerWriteModel::Prune { cutoff: cutoff_at(now, STALE_AFTER) }),
            group_id,
            peer_id,
        ) <==> table[(group_id, peer_id)].last_seen + 300 >= now,
{
}

} // verus!
