//! What the models of values tell of them: everything that callers can see.

use vstd::prelude::*;

use crate::bridge::RawEvent;
use crate::config::{RelayChoice, RelayModel};
use crate::discovery::{DiscoveryMessage, DiscoveryModel};
use crate::events::Event;
use crate::exchange::{ActionModel, ExchangeAction};
use crate::fetch::{
    DialFailure, FetchError, FetchErrorModel, FetchEvent, FetchEventModel, Phase, PhaseModel,
};
use crate::forwarder::IggyConnection;
use crate::peers::{PeerWrite, PeerWriteModel};
use crate::rendezvous::{VerifyError, VerifyErrorModel};
use crate::snapshot_change::{ChangeModel, SnapshotChange};
use crate::snapshot_data::{
    BoardData, ChatData, FileData, GroupData, GroupSnapshot, WorkspaceData,
};
use crate::swarm::{BlobHash, MessageModel, SwarmMessage};
use crate::text::{opt_text, texts};

verus! {

/// An event is modelled by its identifier, its payload, its source and its time.
pub proof fn law_event_model(x: Event)
    ensures
        x@.id == x.id@,
        x@.payload == x.payload@,
        x@.source == x.source@,
        x@.ts == x.ts,
{
}

/// A group is modelled by all of its fields.
pub proof fn law_group_model(x: GroupData)
    ensures
        x@.id == x.id@,
        x@.name == x.name@,
        x@.icon == x.icon@,
        x@.color == x.color@,
        x@.created_at == x.created_at,
{
}

/// A workspace is modelled by all of its fields.
pub proof fn law_workspace_model(x: WorkspaceData)
    ensures
        x@.id == x.id@,
        x@.group_id == x.group_id@,
        x@.name == x.name@,
        x@.created_at == x.created_at,
{
}

/// A board is modelled by all of its fields.
pub proof fn law_board_model(x: BoardData)
    ensures
        x@.id == x.id@,
        x@.workspace_id == x.workspace_id@,
        x@.name == x.name@,
        x@.board_mode == x.board_mode@,
        x@.created_at == x.created_at,
{
}

/// A file is modelled by all of its fields.
pub proof fn law_file_model(x: FileData)
    ensures
        x@.id == x.id@,
        x@.group_id == x.group_id@,
        x@.workspace_id == opt_text(x.workspace_id),
        x@.board_id == opt_text(x.board_id),
        x@.name == x.name@,
        x@.hash == x.hash@,
        x@.size == x.size,
        x@.created_at == x.created_at,
{
}

/// A chat message is modelled by all of its fields.
pub proof fn law_chat_model(x: ChatData)
    ensures
        x@.id == x.id@,
        x@.workspace_id == x.workspace_id@,
        x@.message == x.message@,
        x@.author == x.author@,
        x@.parent_id == opt_text(x.parent_id),
        x@.timestamp == x.timestamp,
{
}

/// A raw event is modelled by all of its fields.
pub proof fn law_raw_event_model(x: RawEvent)
    ensures
        x@.id == x.id@,
        x@.group_id == x.group_id@,
        x@.workspace_id == x.workspace_id@,
        x@.source == x.source@,
        x@.content_kind == x.content_kind@,
        x@.external_id == x.external_id@,
        x@.content == x.content@,
        x@.author_id == x.author_id@,
        x@.author_name == x.author_name@,
        x@.url == x.url@,
        x@.title == opt_text(x.title),
        x@.thread_id == opt_text(x.thread_id),
        x@.parent_id == opt_text(x.parent_id),
        x@.ts == x.ts,
        x@.captured_at == x.captured_at,
{
}

/// A connection is modelled by all of its fields.
pub proof fn law_connection_model(x: IggyConnection)
    ensures
        x@.addr == x.addr@,
        x@.enabled == x.enabled,
        x@.connected == x.connected,
        x@.last_error == opt_text(x.last_error),
        x@.messages_sent == x.messages_sent,
{
}

/// A snapshot is modelled by the models of its group and of each of its items, in their places.
pub proof fn law_snapshot_model(x: GroupSnapshot)
    ensures
        x@.group == x.group@,
        x@.snapshot_ts == x.snapshot_ts,
        x@.workspaces.len() == x.workspaces@.len(),
        x@.boards.len() == x.boards@.len(),
        x@.files.len() == x.files@.len(),
        x@.recent_chats.len() == x.recent_chats@.len(),
        forall|i: int|
            0 <= i < x.workspaces@.len() ==> #[trigger] x@.workspaces[i] == x.workspaces@[i]@,
        forall|i: int| 0 <= i < x.boards@.len() ==> #[trigger] x@.boards[i] == x.boards@[i]@,
        forall|i: int| 0 <= i < x.files@.len() ==> #[trigger] x@.files[i] == x.files@[i]@,
        forall|i: int|
            0 <= i < x.recent_chats@.len() ==> #[trigger] x@.recent_chats[i] == x.recent_chats@[i]@,
{
}

/// A change is modelled by its kind and the model of its item.
pub proof fn law_change_model(x: SnapshotChange)
    ensures
        x is Nothing <==> x@ is Nothing,
        x is Group ==> x@ == ChangeModel::Group(x->Group_0@),
        x is Workspace ==> x@ == ChangeModel::Workspace(x->Workspace_0@),
        x is Board ==> x@ == ChangeModel::Board(x->Board_0@),
        x is File ==> x@ == ChangeModel::File(x->File_0@),
        x is Chat ==> x@ == ChangeModel::Chat(x->Chat_0@),
{
}

/// What an exchange asks for is modelled by its kind and all that it names.
pub proof fn law_action_model(x: ExchangeAction)
    ensures
        x is Proceed <==> x@ is Proceed,
        x matches ExchangeAction::Join { group_id, peer } ==> x@ == (ActionModel::Join {
            group_id: group_id@,
            peer: peer@,
        }),
        x matches ExchangeAction::Subscribe { group_id, topic, peers } ==> x@ is Subscribe
            && x@->Subscribe_group_id == group_id@ && x@->topic == topic@
            && x@->Subscribe_peers.len() == peers@.len() && forall|i: int|
            0 <= i < peers@.len() ==> #[trigger] x@->Subscribe_peers[i] == peers@[i]@,
        x matches ExchangeAction::Lookup { group_id, peer_id } ==> x@ == (ActionModel::Lookup {
            group_id: group_id@,
            peer_id: peer_id@,
        }),
        x matches ExchangeAction::Write { group_id, peer_id, exists_already } ==> x@ == (
        ActionModel::Write { group_id: group_id@, peer_id: peer_id@, exists_already }),
        x matches ExchangeAction::Broadcast { messages } ==> x@ == (ActionModel::Broadcast {
            messages: texts(messages@),
        }),
{
}

/// What is done to the table of peers is modelled by its kind and all that it names.
pub proof fn law_peer_write_model(x: PeerWrite)
    ensures
        x matches PeerWrite::Touch { group_id, peer_id, now } ==> x@ == (PeerWriteModel::Touch {
            group_id: group_id@,
            peer_id: peer_id@,
            now,
        }),
        x matches PeerWrite::Insert { group_id, peer_id, now } ==> x@ == (PeerWriteModel::Insert {
            group_id: group_id@,
            peer_id: peer_id@,
            now,
        }),
        x matches PeerWrite::Offline { peer_id, now } ==> x@ == (PeerWriteModel::Offline {
            peer_id: peer_id@,
            now,
        }),
        x matches PeerWrite::Prune { cutoff } ==> x@ == (PeerWriteModel::Prune { cutoff }),
{
}

/// What a message on the discovery topic says is modelled by its kind, its node and its groups.
pub proof fn law_discovery_model(x: DiscoveryMessage)
    ensures
        x is Ignored <==> x@ is Ignored,
        x is MissingNodeId <==> x@ is MissingNodeId,
        x is MissingLocalGroups <==> x@ is MissingLocalGroups,
        x matches DiscoveryMessage::GroupsExchange { from_node, groups } ==> x@ == (
        DiscoveryModel::GroupsExchange { from_node: from_node@, groups: texts(groups@) }),
{
}

/// What is said about blobs is modelled by its kind, the blob and the node.
pub proof fn law_swarm_message_model(x: SwarmMessage)
    ensures
        x matches SwarmMessage::IHave { hash, holder_node_id } ==> x@ == (MessageModel::IHave {
            hash: hash@,
            holder: holder_node_id@,
        }),
        x matches SwarmMessage::WhoHas { hash, requester_node_id } ==> x@ == (
        MessageModel::WhoHas { hash: hash@, requester: requester_node_id@ }),
{
}

/// A hash is modelled by its bytes, so that two hashes are the same where their models are.
pub proof fn law_hash_model(x: BlobHash, i: int)
    requires
        0 <= i < 32,
    ensures
        x@.len() == 32,
        x@[i] == x.bytes@[i],
{
}

/// A choice of relays is modelled by its kind and the URL.
pub proof fn law_relay_model(x: RelayChoice)
    ensures
        x is Disabled <==> x@ is Disabled,
        x is Default <==> x@ is Default,
        x is Custom ==> x@ == RelayModel::Custom(x->Custom_0@),
{
}

/// What is wrong with a signed config is modelled by its kind and the cause.
pub proof fn law_verify_error_model(x: VerifyError)
    ensures
        x matches VerifyError::InvalidSigner { cause } ==> x@ == (VerifyErrorModel::InvalidSigner {
            cause: cause@,
        }),
        x matches VerifyError::BadHex { cause } ==> x@ == (VerifyErrorModel::BadHex {
            cause: cause@,
        }),
        x is WrongLength <==> x@ is WrongLength,
        x matches VerifyError::Mismatch { cause } ==> x@ == (VerifyErrorModel::Mismatch {
            cause: cause@,
        }),
{
}

/// Why a blob was not fetched is modelled by its kind and all that it names.
pub proof fn law_fetch_error_model(x: FetchError)
    ensures
        x matches FetchError::NoHolders { hash } ==> x@ == (FetchErrorModel::NoHolders {
            hash: hash@,
        }),
        x matches FetchError::InvalidHolder { holder, cause } ==> x@ == (
        FetchErrorModel::InvalidHolder { holder: holder@, cause: cause@ }),
        x matches FetchError::HasFailed { reason } ==> x@ == (FetchErrorModel::HasFailed {
            reason: reason@,
        }),
        x matches FetchError::GetFailed { reason } ==> x@ == (FetchErrorModel::GetFailed {
            reason: reason@,
        }),
        x matches FetchError::DialFailed { provider, reason } ==> x@ == (
        FetchErrorModel::DialFailed { provider: provider@, reason: reason@ }),
        x matches FetchError::DialTimedOut { provider } ==> x@ == (FetchErrorModel::DialTimedOut {
            provider: provider@,
        }),
        x matches FetchError::TransferFailed { provider, reason } ==> x@ == (
        FetchErrorModel::TransferFailed { provider: provider@, reason: reason@ }),
        x matches FetchError::NotServed { hash } ==> x@ == (FetchErrorModel::NotServed {
            hash: hash@,
        }),
        x matches FetchError::IntegrityFailed { computed, expected } ==> x@ == (
        FetchErrorModel::IntegrityFailed { computed: computed@, expected: expected@ }),
{
}

/// What comes of fetching is modelled by its kind and all that it carries.
pub proof fn law_fetch_event_model(x: FetchEvent)
    ensures
        x matches FetchEvent::Has(b) ==> x@ == FetchEventModel::Has(b),
        x matches FetchEvent::HasFailed { reason } ==> x@ == (FetchEventModel::HasFailed {
            reason: reason@,
        }),
        x is Dialed <==> x@ is Dialed,
        x matches FetchEvent::DialFailed(failure) ==> x@ == (match failure {
            DialFailure::Failed { reason } => FetchEventModel::DialFailed { reason: reason@ },
            DialFailure::TimedOut => FetchEventModel::DialTimedOut,
        }),
        x is Transferred <==> x@ is Transferred,
        x matches FetchEvent::TransferFailed { reason } ==> x@ == (
        FetchEventModel::TransferFailed { reason: reason@ }),
        x matches FetchEvent::Content(bytes) ==> x@ == FetchEventModel::Content(bytes@),
        x matches FetchEvent::GetFailed { reason } ==> x@ == (FetchEventModel::GetFailed {
            reason: reason@,
        }),
{
}

/// How far a fetch has come is modelled by its kind and what came of it.
pub proof fn law_phase_model(x: Phase)
    ensures
        x is AskBefore <==> x@ is AskBefore,
        x is Dial <==> x@ is Dial,
        x is Transfer <==> x@ is Transfer,
        x is AskAfter <==> x@ is AskAfter,
        x is Get <==> x@ is Get,
        x is Done ==> x@ == PhaseModel::Done(x->Done_0@),
        x is Failed ==> x@ == PhaseModel::Failed(x->Failed_0@),
{
}

} // verus!
