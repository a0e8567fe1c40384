//! Snapshots of groups: how a provider keeps them up to date from events, and how a peer that
//! joins a group asks for one.
//!
//! A new peer broadcasts a request on the group's topic, a peer with data answers that a snapshot
//! is available, and the new peer downloads it over a direct connection. From then on it follows
//! the group's events. A snapshot holds the group, its workspaces, boards and files, and the
//! latest chats. Whiteboard elements and notebook cells are not in it.

use vstd::prelude::*;
use vstd::utf8::{encode_utf8, encode_utf8_decode_utf8};

use crate::clock::{current_ts, is_now};
use crate::events::Event;
use crate::frame::{frame, framed, law_frame_reads_back, unframed};
use crate::identity::{node_key_fault, node_key_of, parse_node_id};
use crate::json::{number_member, object, text_member, written, written_member, Json};
use crate::snapshot_change::{
    after_event, after_events, change_of, empty_snapshot, law_events_keep_snapshots_tidy, payload_change,
    puts_item, tidy, ChangeModel, SnapshotChange,
};
use crate::snapshot_data::{
    law_snapshot_text_tells_snapshot, snapshot_text, snapshot_value, GroupSnapshotModel,
};
use crate::snapshot_read::{read_snapshot, snapshot_of};
use crate::string_map::StringMap;
use crate::text::{joined, texts};

pub use crate::snapshot_data::{
    BoardData, ChatData, FileData, GroupData, GroupSnapshot, WorkspaceData,
};

verus! {

/// The name of the snapshot protocol in a connection's handshake.
pub const SNAPSHOT_ALPN: &'static str = "cyan-snapshot-v1";

/// The number of seconds after which a peer wants a new snapshot.
pub const SNAPSHOT_MAX_AGE: u64 = 21_600;

// ---------------------------------------------------------------------------------------------
// Messages
// ---------------------------------------------------------------------------------------------

/// What peers say about snapshots on a group's topic.
#[derive(Debug, Clone)]
pub enum SnapshotMessage {
    /// A peer asks for a snapshot of a group.
    RequestSnapshot {
        group_id: String,
        requester_node_id: String,
        /// The time of the last event that it knows, 0 for a full snapshot.
        since_ts: u64,
    },
    /// A peer has a snapshot of a group.
    SnapshotAvailable {
        group_id: String,
        provider_node_id: String,
        /// The number of items in it.
        item_count: u32,
        /// The time of its latest item.
        latest_ts: u64,
    },
}

/// The JSON value of a message. Its `type` tells its kind.
pub open spec fn message_value(m: SnapshotMessage) -> Json {
    match m {
        SnapshotMessage::RequestSnapshot { group_id, requester_node_id, since_ts } => Json::Object(
            seq![
                ("type"@, Json::Text("RequestSnapshot"@)),
                ("group_id"@, Json::Text(group_id@)),
                ("requester_node_id"@, Json::Text(requester_node_id@)),
                ("since_ts"@, Json::Number(since_ts as int)),
            ],
        ),
        SnapshotMessage::SnapshotAvailable { group_id, provider_node_id, item_count, latest_ts } =>
            Json::Object(
                seq![
                    ("type"@, Json::Text("SnapshotAvailable"@)),
                    ("group_id"@, Json::Text(group_id@)),
                    ("provider_node_id"@, Json::Text(provider_node_id@)),
                    ("item_count"@, Json::Number(item_count as int)),
                    ("latest_ts"@, Json::Number(latest_ts as int)),
                ],
            ),
    }
}

impl SnapshotMessage {
    /// Writes a message as it goes over a group's topic.
    pub fn text(&self) -> (r: String)
        ensures
            r@ == written(message_value(*self)),
    {
        let ghost v = message_value(*self);
        let mut m: Vec<String> = Vec::new();
        match self {
            SnapshotMessage::RequestSnapshot { group_id, requester_node_id, since_ts } => {
                m.push(text_member("type", "RequestSnapshot"));
                m.push(text_member("group_id", group_id.as_str()));
                m.push(text_member("requester_node_id", requester_node_id.as_str()));
                m.push(number_member("since_ts", *since_ts));
            },
            SnapshotMessage::SnapshotAvailable {
                group_id,
                provider_node_id,
                item_count,
                latest_ts,
            } => {
                m.push(text_member("type", "SnapshotAvailable"));
                m.push(text_member("group_id", group_id.as_str()));
                m.push(text_member("provider_node_id", provider_node_id.as_str()));
                m.push(number_member("item_count", *item_count as u64));
                m.push(number_member("latest_ts", *latest_ts));
            },
        }
        assert(texts(m@) =~= v->Object_0.map_values(|m: (Seq<char>, Json)| written_member(m)));
        object(&m, Ghost(v))
    }
}

// ---------------------------------------------------------------------------------------------
// The provider
// ---------------------------------------------------------------------------------------------

/// Keeps a snapshot of each group that it has heard of.
pub struct SnapshotProvider {
    snapshots: StringMap<GroupSnapshot>,
    latest: StringMap<u64>,
    node_id: String,
}

/// What a provider knows: its own identifier, the snapshots by group, and the time of the most
/// recent item by group.
#[verifier::ext_equal]
pub struct ProviderModel {
    pub node_id: Seq<char>,
    pub snapshots: Map<Seq<char>, GroupSnapshotModel>,
    pub latest: Map<Seq<char>, u64>,
}

impl View for SnapshotProvider {
    type V = ProviderModel;

    closed spec fn view(&self) -> ProviderModel {
        ProviderModel {
            node_id: self.node_id@,
            snapshots: self.snapshots@.map_values(|s: GroupSnapshot| s@),
            latest: self.latest@,
        }
    }
}

impl ProviderModel {
    /// A provider that has heard of nothing.
    pub open spec fn empty(node_id: Seq<char>) -> ProviderModel {
        ProviderModel { node_id, snapshots: Map::empty(), latest: Map::empty() }
    }

    /// The time of the most recent item of a group, 0 where there is none.
    pub open spec fn latest_of(self, group_id: Seq<char>) -> u64 {
        if self.latest.contains_key(group_id) {
            self.latest[group_id]
        } else {
            0
        }
    }

    /// After an event of a group. The most recent item is the one of the greatest time; an event
    /// that puts no item there does not count.
    pub open spec fn after(self, group_id: Seq<char>, change: ChangeModel, ts: u64) -> ProviderModel {
        let before = snapshot_or_empty(self.snapshots, group_id);
        ProviderModel {
            snapshots: self.snapshots.insert(group_id, after_event(before, change, ts)),
            latest: self.latest.insert(
                group_id,
                if puts_item(before, change) && ts > self.latest_of(group_id) {
                    ts
                } else {
                    self.latest_of(group_id)
                },
            ),
            ..self
        }
    }

    /// After a run of events, each with its group and its time.
    pub open spec fn after_all(self, events: Seq<(Seq<char>, ChangeModel, u64)>) -> ProviderModel
        decreases events.len(),
    {
        if events.len() == 0 {
            self
        } else {
            let e = events.last();
            self.after_all(events.drop_last()).after(e.0, e.1, e.2)
        }
    }

    /// Whether an event of a run puts an item into the snapshot of its group as it is by then.
    pub open spec fn puts_item_at(
        self,
        events: Seq<(Seq<char>, ChangeModel, u64)>,
        i: int,
    ) -> bool {
        puts_item(
            snapshot_or_empty(self.after_all(events.take(i)).snapshots, events[i].0),
            events[i].1,
        )
    }
}

/// The events of a group among a run of events, in their order.
pub open spec fn events_of(
    events: Seq<(Seq<char>, ChangeModel, u64)>,
    group_id: Seq<char>,
) -> Seq<(ChangeModel, u64)>
    decreases events.len(),
{
    if events.len() == 0 {
        Seq::empty()
    } else {
        let earlier = events_of(events.drop_last(), group_id);
        let e = events.last();
        if e.0 == group_id {
            earlier.push((e.1, e.2))
        } else {
            earlier
        }
    }
}

/// After any run of events of any groups, the snapshot of a group is what the events of that group
/// make of an empty one. There is one if and only if there was an event of that group.
pub proof fn law_groups_are_kept_apart(
    node_id: Seq<char>,
    group_id: Seq<char>,
    events: Seq<(Seq<char>, ChangeModel, u64)>,
)
    ensures
        ({
            let p = ProviderModel::empty(node_id).after_all(events);
            let own = events_of(events, group_id);
            &&& snapshot_or_empty(p.snapshots, group_id) == after_events(
                empty_snapshot(group_id),
                own,
            )
            &&& p.snapshots.contains_key(group_id) <==> own.len() > 0
        }),
    decreases events.len(),
{
    if events.len() > 0 {
        let earlier = events.drop_last();
        law_groups_are_kept_apart(node_id, group_id, earlier);
        let e = events.last();
        let own = events_of(events, group_id);
        if e.0 == group_id {
            assert(own.drop_last() =~= events_of(earlier, group_id));
        }
    }
}

/// The time that a provider gives for the most recent item of a group is the greatest one of the
/// events that put an item there, in whatever order they came, and 0 where none did.
pub proof fn law_latest_is_greatest(
    node_id: Seq<char>,
    group_id: Seq<char>,
    events: Seq<(Seq<char>, ChangeModel, u64)>,
)
    ensures
        ({
            let p = ProviderModel::empty(node_id);
            let latest = p.after_all(events).latest_of(group_id);
            &&& forall|i: int|
                0 <= i < events.len() && events[i].0 == group_id && #[trigger] p.puts_item_at(
                    events,
                    i,
                ) ==> events[i].2 <= latest
            &&& latest == 0 || exists|i: int|
                0 <= i < events.len() && events[i].0 == group_id && #[trigger] p.puts_item_at(
                    events,
                    i,
                ) && events[i].2 == latest
        }),
    decreases events.len(),
{
    let p = ProviderModel::empty(node_id);
    if events.len() > 0 {
        let earlier = events.drop_last();
        law_latest_is_greatest(node_id, group_id, earlier);
        let before = p.after_all(earlier).latest_of(group_id);
        let latest = p.after_all(events).latest_of(group_id);
        let last = events.len() - 1;
        assert(events.take(last) =~= earlier);
        assert forall|i: int| 0 <= i < last implies p.puts_item_at(earlier, i)
            == #[trigger] p.puts_item_at(events, i) && earlier[i] == events[i] by {
            assert(earlier.take(i) =~= events.take(i));
        }
        assert forall|i: int|
            0 <= i < events.len() && events[i].0 == group_id && #[trigger] p.puts_item_at(
                events,
                i,
            ) implies events[i].2 <= latest by {
            if i < last {
                assert(p.puts_item_at(earlier, i));
            }
        }
        if latest != 0 {
            if latest == before {
                let i = choose|i: int|
                    0 <= i < earlier.len() && earlier[i].0 == group_id
                        && #[trigger] p.puts_item_at(earlier, i) && earlier[i].2 == before;
                assert(p.puts_item_at(events, i));
            } else {
                assert(p.puts_item_at(events, last));
            }
        }
    }
}

/// The snapshot that an event of a group is applied to: an empty one where there is none yet.
pub open spec fn snapshot_or_empty(
    snapshots: Map<Seq<char>, GroupSnapshotModel>,
    group_id: Seq<char>,
) -> GroupSnapshotModel {
    if snapshots.contains_key(group_id) {
        snapshots[group_id]
    } else {
        empty_snapshot(group_id)
    }
}

/// The number of items in a snapshot, the group among them.
pub open spec fn item_total(s: GroupSnapshotModel) -> nat {
    1 + s.workspaces.len() + s.boards.len() + s.files.len() + s.recent_chats.len()
}

impl SnapshotProvider {
    /// Every snapshot is tidy.
    pub closed spec fn wf(&self) -> bool {
        &&& self.snapshots.wf()
        &&& self.latest.wf()
        &&& forall|g: Seq<char>| #[trigger]
            self@.snapshots.contains_key(g) ==> tidy(self@.snapshots[g])
    }

    /// Every snapshot that a provider keeps is tidy.
    pub proof fn law_snapshots_are_tidy(&self, group_id: Seq<char>)
        requires
            self.wf(),
            self@.snapshots.contains_key(group_id),
        ensures
            tidy(self@.snapshots[group_id]),
    {
    }

    /// A provider without snapshots.
    pub fn new(node_id: String) -> (r: Self)
        ensures
            r.wf(),
            r@ == ProviderModel::empty(node_id@),
    {
        let r = SnapshotProvider {
            snapshots: StringMap::new(),
            latest: StringMap::new(),
            node_id,
        };
        assert(r@.snapshots =~= Map::<Seq<char>, GroupSnapshotModel>::empty());
        r
    }

    /// Applies a change to the snapshot of a group, which is made where there is none.
    pub fn apply_change(&mut self, group_id: &str, change: SnapshotChange, ts: u64)
        requires
            old(self).wf(),
        ensures
            final(self).wf(),
            final(self)@ == old(self)@.after(group_id@, change@, ts),
    {
        let ghost before = *self;
        let ghost start = snapshot_or_empty(self@.snapshots, group_id@);
        assert(tidy(start));
        let latest: u64 = match self.latest.get(group_id) {
            Some(latest) => *latest,
            None => 0,
        };
        let put: bool = match self.snapshots.position(group_id) {
            Some(i) => {
                let mut s: GroupSnapshot = self.snapshots.replace_at(
                    i,
                    GroupSnapshot::empty(group_id),
                );
                let put: bool = s.apply(change, ts);
                let _placeholder: GroupSnapshot = self.snapshots.replace_at(i, s);
                put
            },
            None => {
                let mut s: GroupSnapshot = GroupSnapshot::empty(group_id);
                let put: bool = s.apply(change, ts);
                self.snapshots.insert(group_id.to_owned(), s);
                put
            },
        };
        let latest: u64 = if put && ts > latest {
            ts
        } else {
            latest
        };
        self.latest.insert(group_id.to_owned(), latest);
        proof {
            law_events_keep_snapshots_tidy(start, change@, ts);
            assert(self@.snapshots =~= before@.snapshots.insert(
                group_id@,
                after_event(start, change@, ts),
            ));
        }
    }

    /// Brings the snapshot of a group up to date with an event.
    pub fn update_from_event(&mut self, group_id: &str, event: &Event)
        requires
            old(self).wf(),
        ensures
            final(self).wf(),
            final(self)@ == old(self)@.after(group_id@, change_of(event@.payload), event@.ts),
    {
        let change: SnapshotChange = payload_change(event.payload.as_str());
        self.apply_change(group_id, change, event.ts);
    }

    /// The snapshot of a group.
    pub fn get_snapshot(&self, group_id: &str) -> (r: Option<GroupSnapshot>)
        requires
            self.wf(),
        ensures
            match r {
                Some(s) => self@.snapshots.contains_key(group_id@) && s@
                    == self@.snapshots[group_id@],
                None => !self@.snapshots.contains_key(group_id@),
            },
    {
        match self.snapshots.get(group_id) {
            Some(s) => Some(s.clone()),
            None => None,
        }
    }

    /// Answers a request for a snapshot of a group: that one is available, where there is one. The
    /// number of items is given modulo the range of its type.
    pub fn handle_request(&self, group_id: &str) -> (r: Option<SnapshotMessage>)
        requires
            self.wf(),
        ensures
            match r {
                Some(SnapshotMessage::SnapshotAvailable {
                    group_id: g,
                    provider_node_id,
                    item_count,
                    latest_ts,
                }) => {
                    &&& self@.snapshots.contains_key(group_id@)
                    &&& g@ == group_id@
                    &&& provider_node_id@ == self@.node_id
                    &&& item_count == item_total(self@.snapshots[group_id@]) % 0x1_0000_0000
                    &&& latest_ts == self@.latest_of(group_id@)
                },
                Some(SnapshotMessage::RequestSnapshot { .. }) => false,
                None => !self@.snapshots.contains_key(group_id@),
            },
    {
        match self.snapshots.get(group_id) {
            Some(s) => {
                let total: u128 = 1u128 + s.workspaces.len() as u128 + s.boards.len() as u128
                    + s.files.len() as u128 + s.recent_chats.len() as u128;
                assert(total == item_total(s@));
                let latest_ts: u64 = match self.latest.get(group_id) {
                    Some(latest) => *latest,
                    None => 0,
                };
                Some(
                    SnapshotMessage::SnapshotAvailable {
                        group_id: group_id.to_owned(),
                        provider_node_id: self.node_id.clone(),
                        item_count: (total % 0x1_0000_0000) as u32,
                        latest_ts,
                    },
                )
            },
            None => None,
        }
    }
}

/// Why no snapshot is served.
#[derive(Debug)]
pub enum ServeError {
    /// There is no snapshot of the group.
    NoSnapshot { group_id: String },
}

impl ServeError {
    /// The error in words.
    pub fn message(&self) -> (r: String)
        ensures
            match *self {
                ServeError::NoSnapshot { group_id } => r@ == "No snapshot for group "@ + group_id@,
            },
    {
        match self {
            ServeError::NoSnapshot { group_id } => joined(
                "No snapshot for group ",
                group_id.as_str(),
            ),
        }
    }
}

impl SnapshotProvider {
    /// What is sent to a peer that asks for the snapshot of a group: one frame with the written
    /// form of the snapshot. It goes out on the stream that the request came in on.
    pub fn serve_snapshot(&self, group_id: &str) -> (r: Result<Vec<u8>, ServeError>)
        requires
            self.wf(),
        ensures
            match r {
                Ok(bytes) => self@.snapshots.contains_key(group_id@) && bytes@ == framed(
                    encode_utf8(written(snapshot_value(self@.snapshots[group_id@]))),
                ),
                Err(ServeError::NoSnapshot { group_id: g }) => !self@.snapshots.contains_key(
                    group_id@,
                ) && g@ == group_id@,
            },
    {
        match self.snapshots.get(group_id) {
            Some(s) => {
                let text: String = snapshot_text(s);
                Ok(frame(text.as_str().as_bytes()))
            },
            None => Err(ServeError::NoSnapshot { group_id: group_id.to_owned() }),
        }
    }
}

// ---------------------------------------------------------------------------------------------
// The requester
// ---------------------------------------------------------------------------------------------

/// Knows when each group was last synced, and asks for snapshots.
pub struct SnapshotRequester {
    node_id: String,
    sync_state: StringMap<u64>,
}

/// What a requester knows: its own identifier, and the time of the last sync by group.
pub struct RequesterModel {
    pub node_id: Seq<char>,
    pub synced: Map<Seq<char>, u64>,
}

impl View for SnapshotRequester {
    type V = RequesterModel;

    closed spec fn view(&self) -> RequesterModel {
        RequesterModel { node_id: self.node_id@, synced: self.sync_state@ }
    }
}

/// Whom to ask for a snapshot, and what to send.
#[derive(Debug)]
pub struct Download {
    pub provider: [u8; 32],
    pub request: Vec<u8>,
}

/// Why a snapshot was not downloaded.
#[derive(Debug)]
pub enum DownloadError {
    /// The provider's text is no identifier of a node. The cause says what is wrong with it.
    InvalidProvider { cause: String },
    /// The reply is not the text of a snapshot.
    NoSnapshot,
}

impl DownloadError {
    /// The error in words.
    pub fn message(&self) -> (r: String)
        ensures
            r@ == (match *self {
                DownloadError::InvalidProvider { cause } => cause@,
                DownloadError::NoSnapshot => "the reply is no snapshot"@,
            }),
    {
        match self {
            DownloadError::InvalidProvider { cause } => cause.clone(),
            DownloadError::NoSnapshot => "the reply is no snapshot".to_owned(),
        }
    }
}

/// Whether a time lies more than the greatest age of a snapshot back.
pub open spec fn long_ago(ts: u64, now: u64) -> bool {
    now - ts > SNAPSHOT_MAX_AGE
}

fn is_long_ago(ts: u64, now: u64) -> (r: bool)
    ensures
        r == long_ago(ts, now),
{
    now > ts && now - ts > SNAPSHOT_MAX_AGE
}

/// Whether a snapshot of a group is wanted: where it was never synced, or long ago.
pub open spec fn wants_snapshot(synced: Map<Seq<char>, u64>, group_id: Seq<char>, now: u64) -> bool {
    synced.contains_key(group_id) ==> long_ago(synced[group_id], now)
}

impl SnapshotRequester {
    /// The table of sync times is in order.
    pub closed spec fn wf(&self) -> bool {
        self.sync_state.wf()
    }

    /// A requester that has synced no group.
    pub fn new(node_id: String) -> (r: Self)
        ensures
            r.wf(),
            r@ == (RequesterModel { node_id: node_id@, synced: Map::empty() }),
    {
        SnapshotRequester { node_id, sync_state: StringMap::new() }
    }

    /// Whether a snapshot of a group is wanted at the given time.
    pub fn needs_snapshot_at(&self, group_id: &str, now: u64) -> (r: bool)
        requires
            self.wf(),
        ensures
            r == wants_snapshot(self@.synced, group_id@, now),
    {
        match self.sync_state.get(group_id) {
            None => true,
            Some(ts) => is_long_ago(*ts, now),
        }
    }

    /// Whether a snapshot of a group is wanted now. A group that was never synced wants one at any
    /// time.
    pub fn needs_snapshot(&self, group_id: &str) -> (r: bool)
        requires
            self.wf(),
        ensures
            !self@.synced.contains_key(group_id@) ==> r,
            exists|now: u64|
                is_now(now) && r == #[trigger] wants_snapshot(self@.synced, group_id@, now),
    {
        self.needs_snapshot_at(group_id, current_ts())
    }

    /// A request for a full snapshot of a group.
    pub fn create_request(&self, group_id: &str) -> (r: SnapshotMessage)
        ensures
            match r {
                SnapshotMessage::RequestSnapshot { group_id: g, requester_node_id, since_ts } => g@
                    == group_id@ && requester_node_id@ == self@.node_id && since_ts == 0,
                SnapshotMessage::SnapshotAvailable { .. } => false,
            },
    {
        SnapshotMessage::RequestSnapshot {
            group_id: group_id.to_owned(),
            requester_node_id: self.node_id.clone(),
            since_ts: 0,
        }
    }

    /// How the snapshot of a group is asked for, given what reading the provider's identifier gave:
    /// what is sent is one frame with the group's identifier.
    pub fn download_from(&self, provider: Result<[u8; 32], String>, group_id: &str) -> (r: Result<
        Download,
        DownloadError,
    >)
        ensures
            match provider {
                Ok(key) => r is Ok && r->Ok_0.provider == key && r->Ok_0.request@ == framed(
                    encode_utf8(group_id@),
                ),
                Err(cause) => r == Err::<Download, DownloadError>(
                    DownloadError::InvalidProvider { cause },
                ),
            },
    {
        match provider {
            Ok(key) => Ok(Download { provider: key, request: frame(group_id.as_bytes()) }),
            Err(cause) => Err(DownloadError::InvalidProvider { cause }),
        }
    }

    /// How the snapshot of a group is asked for from a provider. The reply is one frame with the
    /// written form of the snapshot; [`SnapshotRequester::on_reply`] takes in what it holds.
    pub fn download_snapshot(&self, provider_node_id: &str, group_id: &str) -> (r: Result<
        Download,
        DownloadError,
    >)
        ensures
            match r {
                Ok(d) => node_key_of(provider_node_id@) == Some(d.provider@) && d.request@
                    == framed(encode_utf8(group_id@)),
                Err(e) => node_key_of(provider_node_id@) is None && e is InvalidProvider
                    && e->cause@ == node_key_fault(provider_node_id@),
            },
    {
        self.download_from(parse_node_id(provider_node_id), group_id)
    }

    /// Takes in what a provider replied. The group counts as synced at the time of the snapshot; a
    /// reply that is no snapshot changes nothing. Where the provider sent the written form of a
    /// snapshot, that snapshot is what comes out.
    pub fn on_reply(&mut self, group_id: &str, reply: &[u8]) -> (r: Result<
        GroupSnapshot,
        DownloadError,
    >)
        requires
            old(self).wf(),
        ensures
            final(self).wf(),
            match r {
                Ok(s) => snapshot_of(reply@) == Some(s@) && final(self)@ == (RequesterModel {
                    node_id: old(self)@.node_id,
                    synced: old(self)@.synced.insert(group_id@, s@.snapshot_ts),
                }),
                Err(e) => snapshot_of(reply@) is None && e is NoSnapshot && final(self)@ == old(
                    self,
                )@,
            },
            forall|held: GroupSnapshotModel|
                reply@ == encode_utf8(written(#[trigger] snapshot_value(held))) ==> r is Ok
                    && r->Ok_0@ == held,
    {
        match read_snapshot(reply) {
            Some(s) => Ok(self.downloaded(group_id, s)),
            None => Err(DownloadError::NoSnapshot),
        }
    }

    /// Records that a snapshot of a group was downloaded, and hands it on. The group counts as
    /// synced at the time of the snapshot.
    pub fn downloaded(&mut self, group_id: &str, snapshot: GroupSnapshot) -> (r: GroupSnapshot)
        requires
            old(self).wf(),
        ensures
            final(self).wf(),
            final(self)@ == (RequesterModel {
                node_id: old(self)@.node_id,
                synced: old(self)@.synced.insert(group_id@, snapshot@.snapshot_ts),
            }),
            r == snapshot,
    {
        self.mark_synced(group_id, snapshot.snapshot_ts);
        snapshot
    }

    /// Records that a group was synced at the given time.
    pub fn mark_synced(&mut self, group_id: &str, ts: u64)
        requires
            old(self).wf(),
        ensures
            final(self).wf(),
            final(self)@ == (RequesterModel {
                node_id: old(self)@.node_id,
                synced: old(self)@.synced.insert(group_id@, ts),
            }),
    {
        self.sync_state.insert(group_id.to_owned(), ts);
    }
}

/// What a provider sends arrives: a requester that reads a frame from a stream that starts with what
/// the provider sends has the written form of the snapshot that the provider holds, whatever follows
/// on the stream, and it is the written form of no other snapshot. What comes out of it in
/// [`SnapshotRequester::on_reply`] is then the snapshot that the provider holds. This holds of every
/// snapshot whose written form is short enough for its length to be given.
pub proof fn law_download_gives_what_is_held(
    held: GroupSnapshotModel,
    read: GroupSnapshotModel,
    rest: Seq<u8>,
)
    requires
        encode_utf8(written(snapshot_value(held))).len() < 0x1_0000_0000,
    ensures
        unframed(framed(encode_utf8(written(snapshot_value(held)))) + rest) == Some(
            encode_utf8(written(snapshot_value(held))),
        ),
        encode_utf8(written(snapshot_value(read))) == encode_utf8(written(snapshot_value(held)))
            ==> read == held,
{
    law_frame_reads_back(encode_utf8(written(snapshot_value(held))), rest);
    encode_utf8_decode_utf8(written(snapshot_value(held)));
    encode_utf8_decode_utf8(written(snapshot_value(read)));
    if written(snapshot_value(read)) == written(snapshot_value(held)) {
        law_snapshot_text_tells_snapshot(read, held);
    }
}

/// A group that was synced wants no snapshot until the greatest age of a snapshot has passed, and
/// wants one from then on.
pub proof fn law_sync_lasts(synced: Map<Seq<char>, u64>, group_id: Seq<char>, ts: u64, now: u64)
    ensures
        now <= ts + SNAPSHOT_MAX_AGE ==> !wants_snapshot(
            synced.insert(group_id, ts),
            group_id,
            now,
        ),
        now > ts + SNAPSHOT_MAX_AGE ==> wants_snapshot(synced.insert(group_id, ts), group_id, now),
{
}

/// Whether a peer asks for a snapshot: it has nothing, the other side has a fifth more or still more
/// than that, or the last sync was long ago.
pub open spec fn should_request(
    local_item_count: nat,
    remote_item_count: nat,
    last_sync_ts: Option<u64>,
    now: u64,
) -> bool {
    ||| local_item_count == 0
    ||| 10 * remote_item_count >= 12 * local_item_count
    ||| match last_sync_ts {
        Some(ts) => long_ago(ts, now),
        None => false,
    }
}

/// Whether a peer asks for a snapshot at the given time.
pub fn should_request_snapshot_at(
    local_item_count: usize,
    remote_item_count: u32,
    last_sync_ts: Option<u64>,
    now: u64,
) -> (r: bool)
    ensures
        r == should_request(local_item_count as nat, remote_item_count as nat, last_sync_ts, now),
{
    if local_item_count == 0 {
        return true;
    }
    if 10 * (remote_item_count as u128) >= 12 * (local_item_count as u128) {
        return true;
    }
    match last_sync_ts {
        Some(ts) => is_long_ago(ts, now),
        None => false,
    }
}

/// Whether a peer asks for a snapshot now. Where the numbers of items alone ask for one, the time
/// does not matter, and neither does it where the last sync is not known.
pub fn should_request_snapshot(
    local_item_count: usize,
    remote_item_count: u32,
    last_sync_ts: Option<u64>,
) -> (r: bool)
    ensures
        local_item_count == 0 ==> r,
        10 * remote_item_count >= 12 * local_item_count ==> r,
        local_item_count > 0 && 10 * remote_item_count < 12 * local_item_count
            && last_sync_ts is None ==> !r,
        exists|now: u64|
            is_now(now) && r == #[trigger] should_request(
                local_item_count as nat,
                remote_item_count as nat,
                last_sync_ts,
                now,
            ),
{
    should_request_snapshot_at(local_item_count, remote_item_count, last_sync_ts, current_ts())
}

} // verus!
