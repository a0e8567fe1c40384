//! Blobs that a group holds together: who has which, and how one is fetched.
//!
//! A blob is named by the BLAKE3 digest of its content. Nodes say on a gossip topic which blobs
//! they have and ask who has one; each keeps a register of the holders that it heard of. A blob is
//! fetched from its holders in turn. Ranges that one holder delivered stay in the store, so that
//! the next one only delivers what is missing, and a holder that has left does no harm.
//!
//! The store, the connections and the gossip topic belong to the program around this library.

use vstd::prelude::*;
use vstd::utf8::{encode_utf8, is_ascii_chars_encode_utf8};

use crate::digest::{blake3_of, lower_hex};
use crate::hex_text::{hex_bytes, is_lower_hex, law_hex_reads_back, lemma_lower_hex_digits};
use crate::json::{object, text_member, written, written_member, Json};
use crate::json_unique::law_written_form_is_unique;
use crate::string_map::StringMap;
use crate::text::{contains_text, joined, same_text, texts};

verus! {

/// The number of seconds after which a holder that does not answer counts as gone.
pub const DIAL_TIMEOUT: u64 = 5;

// ---------------------------------------------------------------------------------------------
// Hashes
// ---------------------------------------------------------------------------------------------

/// The name of a blob: the BLAKE3 digest of its content.
#[derive(Debug, Clone, Copy, PartialEq, Eq)]
pub struct BlobHash {
    pub bytes: [u8; 32],
}

impl View for BlobHash {
    type V = Seq<u8>;

    open spec fn view(&self) -> Seq<u8> {
        self.bytes@
    }
}

/// The hash that a text of lower-case hexadecimal digits gives.
pub open spec fn hex_hash(text: Seq<char>) -> Option<Seq<u8>> {
    if text.len() == 64 && forall|i: int| 0 <= i < 64 ==> is_lower_hex(#[trigger] text[i]) {
        Some(hex_bytes(text))
    } else {
        None
    }
}

/// The hash that a base 32 text gives, where it gives one.
pub uninterp spec fn base32_hash(text: Seq<char>) -> Option<Seq<u8>>;

/// What `iroh_blobs` says of a text that gives no hash.
pub uninterp spec fn hash_fault(text: Seq<char>) -> Seq<char>;

/// Whether a text is as long as one that may give a hash.
pub open spec fn has_hash_length(text: Seq<char>) -> bool {
    encode_utf8(text).len() == 64 || encode_utf8(text).len() == 52
}

/// The hash that a text gives: hexadecimal in 64 bytes, base 32 in 52.
pub open spec fn hash_in(text: Seq<char>) -> Option<Seq<u8>> {
    if encode_utf8(text).len() == 64 {
        hex_hash(text)
    } else if encode_utf8(text).len() == 52 {
        base32_hash(text)
    } else {
        None
    }
}

/// What is wrong with a text that gives no hash.
pub open spec fn hash_cause(text: Seq<char>) -> Seq<char> {
    if has_hash_length(text) {
        hash_fault(text)
    } else {
        "Invalid length"@
    }
}

/// The digest of a blob's content.
///
/// Calls `iroh_blobs::Hash::new`, which is the BLAKE3 digest of the content.
#[verifier::external_body]
pub(crate) fn content_digest(content: &[u8]) -> (r: [u8; 32])
    ensures
        r@ == blake3_of(content@),
{
    *iroh_blobs::Hash::new(content).as_bytes()
}

/// The printed form of a hash.
///
/// Calls `iroh_blobs::Hash`'s `Display`: two lower-case hexadecimal digits for each byte, in order.
#[verifier::external_body]
pub(crate) fn hash_text(bytes: [u8; 32]) -> (r: String)
    ensures
        r@ == lower_hex(bytes@),
{
    iroh_blobs::Hash::from_bytes(bytes).to_string()
}

/// Reads a hash from a text of 64 or 52 bytes.
///
/// Calls `iroh_blobs::Hash::from_str`, and prints the error. It takes 64 bytes as lower-case
/// hexadecimal, and 52 bytes as base 32 in either case; the result of the latter, and what is said
/// of a text that gives no hash, depend on the text alone.
#[verifier::external_body]
pub(crate) fn parse_hash(text: &str) -> (r: Result<[u8; 32], String>)
    requires
        has_hash_length(text@),
    ensures
        encode_utf8(text@).len() == 64 ==> match r {
            Ok(h) => hex_hash(text@) == Some(h@),
            Err(_) => hex_hash(text@) is None,
        },
        encode_utf8(text@).len() == 52 ==> match r {
            Ok(h) => base32_hash(text@) == Some(h@),
            Err(_) => base32_hash(text@) is None,
        },
        r matches Err(cause) ==> cause@ == hash_fault(text@),
{
    let hash = text.parse::<iroh_blobs::Hash>().map_err(|e| e.to_string())?;
    Ok(*hash.as_bytes())
}

impl BlobHash {
    /// The hash of a blob with the given content.
    pub fn new(content: &[u8]) -> (r: BlobHash)
        ensures
            r@ == blake3_of(content@),
    {
        BlobHash { bytes: content_digest(content) }
    }

    /// The hash in hexadecimal.
    pub fn text(&self) -> (r: String)
        ensures
            r@ == lower_hex(self@),
    {
        hash_text(self.bytes)
    }

    /// Reads a hash, or says what is wrong with the text.
    pub fn parse(text: &str) -> (r: Result<BlobHash, String>)
        ensures
            match r {
                Ok(h) => hash_in(text@) == Some(h@),
                Err(cause) => hash_in(text@) is None && cause@ == hash_cause(text@),
            },
    {
        let n: usize = text.as_bytes().len();
        if n != 64 && n != 52 {
            return Err("Invalid length".to_owned());
        }
        match parse_hash(text) {
            Ok(bytes) => Ok(BlobHash { bytes }),
            Err(cause) => Err(cause),
        }
    }

    /// Whether two hashes are the same.
    pub fn same(&self, other: &BlobHash) -> (r: bool)
        ensures
            r == (self@ == other@),
    {
        let mut i: usize = 0;
        while i < 32
            invariant
                i <= 32,
                forall|j: int| 0 <= j < i ==> self.bytes@[j] == other.bytes@[j],
            decreases 32 - i,
        {
            if self.bytes[i] != other.bytes[i] {
                return false;
            }
            i += 1;
        }
        assert(self@ =~= other@);
        true
    }
}

/// A hash that was printed reads back.
pub proof fn law_hash_reads_back(hash: Seq<u8>)
    requires
        hash.len() == 32,
    ensures
        hash_in(lower_hex(hash)) == Some(hash),
{
    law_hex_reads_back(hash);
    let text = lower_hex(hash);
    lemma_lower_hex_digits(hash);
    is_ascii_chars_encode_utf8(text);
}

// ---------------------------------------------------------------------------------------------
// Messages
// ---------------------------------------------------------------------------------------------

/// What nodes say about blobs.
#[derive(Debug, Clone, PartialEq, Eq)]
pub enum SwarmMessage {
    /// A node has a blob and serves it.
    IHave { hash: String, holder_node_id: String },
    /// A node looks for holders of a blob.
    WhoHas { hash: String, requester_node_id: String },
}

/// The model of a [`SwarmMessage`].
pub enum MessageModel {
    IHave { hash: Seq<char>, holder: Seq<char> },
    WhoHas { hash: Seq<char>, requester: Seq<char> },
}

impl View for SwarmMessage {
    type V = MessageModel;

    open spec fn view(&self) -> MessageModel {
        match *self {
            SwarmMessage::IHave { hash, holder_node_id } => MessageModel::IHave {
                hash: hash@,
                holder: holder_node_id@,
            },
            SwarmMessage::WhoHas { hash, requester_node_id } => MessageModel::WhoHas {
                hash: hash@,
                requester: requester_node_id@,
            },
        }
    }
}

/// The JSON value of a message. Its `type` tells its kind.
pub open spec fn message_value(m: MessageModel) -> Json {
    match m {
        MessageModel::IHave { hash, holder } => Json::Object(
            seq![
                ("type"@, Json::Text("IHave"@)),
                ("hash"@, Json::Text(hash)),
                ("holder_node_id"@, Json::Text(holder)),
            ],
        ),
        MessageModel::WhoHas { hash, requester } => Json::Object(
            seq![
                ("type"@, Json::Text("WhoHas"@)),
                ("hash"@, Json::Text(hash)),
                ("requester_node_id"@, Json::Text(requester)),
            ],
        ),
    }
}

impl SwarmMessage {
    /// Writes a message as it goes over a gossip topic.
    pub fn text(&self) -> (r: String)
        ensures
            r@ == written(message_value(self@)),
    {
        let ghost v = message_value(self@);
        let mut m: Vec<String> = Vec::new();
        match self {
            SwarmMessage::IHave { hash, holder_node_id } => {
                m.push(text_member("type", "IHave"));
                m.push(text_member("hash", hash.as_str()));
                m.push(text_member("holder_node_id", holder_node_id.as_str()));
            },
            SwarmMessage::WhoHas { hash, requester_node_id } => {
                m.push(text_member("type", "WhoHas"));
                m.push(text_member("hash", hash.as_str()));
                m.push(text_member("requester_node_id", requester_node_id.as_str()));
            },
        }
        assert(texts(m@) =~= v->Object_0.map_values(|m: (Seq<char>, Json)| written_member(m)));
        object(&m, Ghost(v))
    }
}

/// The written form of a message tells the message.
pub proof fn law_message_text_tells_message(a: MessageModel, b: MessageModel)
    requires
        written(message_value(a)) == written(message_value(b)),
    ensures
        a == b,
{
    law_written_form_is_unique(message_value(a), message_value(b));
    let x = message_value(a)->Object_0;
    let y = message_value(b)->Object_0;
    assert(x[0] == y[0] && x[1] == y[1] && x[2] == y[2]);
    reveal_strlit("IHave");
    reveal_strlit("WhoHas");
    assert("IHave"@.len() != "WhoHas"@.len());
    assert(x[0].1->Text_0 == y[0].1->Text_0);
}

// ---------------------------------------------------------------------------------------------
// The register of holders
// ---------------------------------------------------------------------------------------------

/// A node's part in the negotiation: its own identifier, and the holders that it heard of.
pub struct BlobSwarm {
    node_id: String,
    holders: StringMap<Vec<String>>,
}

/// The model of a [`BlobSwarm`]: the holders by the text of the hash, in the order in which they
/// were heard of.
#[verifier::ext_equal]
pub struct SwarmModel {
    pub node_id: Seq<char>,
    pub holders: Map<Seq<char>, Seq<Seq<char>>>,
}

impl View for BlobSwarm {
    type V = SwarmModel;

    closed spec fn view(&self) -> SwarmModel {
        SwarmModel {
            node_id: self.node_id@,
            holders: self.holders@.map_values(|v: Vec<String>| texts(v@)),
        }
    }
}

impl SwarmModel {
    /// The holders of a blob.
    pub open spec fn holders_of(self, hash: Seq<char>) -> Seq<Seq<char>> {
        if self.holders.contains_key(hash) {
            self.holders[hash]
        } else {
            Seq::empty()
        }
    }

    /// After a holder was heard of. A node does not list itself, and nobody twice.
    pub open spec fn with_holder(self, hash: Seq<char>, holder: Seq<char>) -> SwarmModel {
        if holder == self.node_id {
            self
        } else {
            SwarmModel {
                holders: self.holders.insert(
                    hash,
                    if self.holders_of(hash).contains(holder) {
                        self.holders_of(hash)
                    } else {
                        self.holders_of(hash).push(holder)
                    },
                ),
                ..self
            }
        }
    }

    /// No node stands twice among the holders of a blob, and the node itself does not stand there.
    pub open spec fn tidy(self) -> bool {
        forall|hash: Seq<char>| #[trigger]
            self.holders.contains_key(hash) ==> self.holders[hash].no_duplicates()
                && !self.holders[hash].contains(self.node_id)
    }
}

/// A register that is tidy stays tidy, and a holder that was heard of is in it, unless it is the
/// node itself.
pub proof fn law_holders_are_registered(m: SwarmModel, hash: Seq<char>, holder: Seq<char>)
    requires
        m.tidy(),
    ensures
        m.with_holder(hash, holder).tidy(),
        m.with_holder(hash, holder).holders_of(hash).contains(holder) <==> holder != m.node_id,
{
    let after = m.with_holder(hash, holder);
    if holder != m.node_id {
        let list = m.holders_of(hash);
        if !list.contains(holder) {
            let new = list.push(holder);
            assert(new[new.len() - 1] == holder);
            assert(new.no_duplicates());
            assert forall|x: Seq<char>| new.contains(x) implies list.contains(x) || x == holder by {
                let i = choose|i: int| 0 <= i < new.len() && new[i] == x;
                if i < list.len() {
                    assert(list[i] == x);
                }
            }
        }
    } else if m.holders.contains_key(hash) {
        assert(!m.holders[hash].contains(m.node_id));
    }
}

/// Hearing of a holder adds that holder to that blob, and changes nothing else: whoever was listed
/// stays listed in its place, for this blob and for every other one.
pub proof fn law_only_the_holder_is_added(
    m: SwarmModel,
    hash: Seq<char>,
    holder: Seq<char>,
    other: Seq<char>,
    node: Seq<char>,
)
    ensures
        m.with_holder(hash, holder).node_id == m.node_id,
        m.with_holder(hash, holder).holders_of(other).contains(node) <==> m.holders_of(
            other,
        ).contains(node) || (other == hash && node == holder && holder != m.node_id),
        m.holders_of(other).is_prefix_of(m.with_holder(hash, holder).holders_of(other)),
        m.with_holder(hash, holder).holders_of(other).len() == m.holders_of(other).len() + (if other
            == hash && holder != m.node_id && !m.holders_of(hash).contains(holder) {
            1int
        } else {
            0int
        }),
        m.holders.contains_key(other) ==> m.holders_of(other) == m.holders[other],
        !m.holders.contains_key(other) ==> m.holders_of(other).len() == 0,
{
    let before = m.holders_of(other);
    let after = m.with_holder(hash, holder).holders_of(other);
    if before.contains(node) {
        let i = choose|i: int| 0 <= i < before.len() && before[i] == node;
        assert(after[i] == node);
    }
    if after.contains(node) {
        let i = choose|i: int| 0 <= i < after.len() && after[i] == node;
        if i < before.len() {
            assert(before[i] == node);
        }
    }
    if other == hash && holder != m.node_id && !before.contains(holder) {
        assert(after[before.len() as int] == holder);
    }
}

/// The register after announcements came in, one after the other.
pub open spec fn after_announcements(
    m: SwarmModel,
    heard: Seq<(Seq<char>, Seq<char>)>,
) -> SwarmModel
    decreases heard.len(),
{
    if heard.len() == 0 {
        m
    } else {
        after_announcements(m, heard.drop_last()).with_holder(heard.last().0, heard.last().1)
    }
}

/// After any run of announcements a node lists for each blob whom it listed before and whoever
/// announced that blob, save itself.
pub proof fn law_register_lists_all_announcements(
    m: SwarmModel,
    heard: Seq<(Seq<char>, Seq<char>)>,
    hash: Seq<char>,
    node: Seq<char>,
)
    ensures
        after_announcements(m, heard).node_id == m.node_id,
        after_announcements(m, heard).holders_of(hash).contains(node) <==> m.holders_of(
            hash,
        ).contains(node) || (node != m.node_id && heard.contains((hash, node))),
    decreases heard.len(),
{
    if heard.len() > 0 {
        let earlier = heard.drop_last();
        let last = heard.last();
        law_register_lists_all_announcements(m, earlier, hash, node);
        law_only_the_holder_is_added(after_announcements(m, earlier), last.0, last.1, hash, node);
        if earlier.contains((hash, node)) {
            let i = choose|i: int| 0 <= i < earlier.len() && earlier[i] == (hash, node);
            assert(heard[i] == (hash, node));
        }
        if heard.contains((hash, node)) {
            let i = choose|i: int| 0 <= i < heard.len() && heard[i] == (hash, node);
            if i < earlier.len() {
                assert(earlier[i] == (hash, node));
            }
        }
        assert(heard[heard.len() - 1] == last);
    }
}

impl BlobSwarm {
    /// The register is tidy.
    pub closed spec fn wf(&self) -> bool {
        self.holders.wf() && self@.tidy()
    }

    /// The register is tidy.
    pub proof fn law_register_is_tidy(&self)
        requires
            self.wf(),
        ensures
            self@.tidy(),
    {
    }

    /// A node that has heard of no holders.
    pub fn new(node_id: String) -> (r: Self)
        ensures
            r.wf(),
            r@ == (SwarmModel { node_id: node_id@, holders: Map::empty() }),
    {
        let r = BlobSwarm { node_id, holders: StringMap::new() };
        assert(r@.holders =~= Map::<Seq<char>, Seq<Seq<char>>>::empty());
        r
    }

    /// The node's identifier.
    pub fn node_id(&self) -> (r: &str)
        ensures
            r@ == self@.node_id,
    {
        self.node_id.as_str()
    }

    /// Says that this node has a blob.
    pub fn announce(&self, hash: &BlobHash) -> (r: SwarmMessage)
        ensures
            r@ == (MessageModel::IHave { hash: lower_hex(hash@), holder: self@.node_id }),
    {
        SwarmMessage::IHave { hash: hash.text(), holder_node_id: self.node_id.clone() }
    }

    /// Asks who has a blob.
    pub fn query(&self, hash: &BlobHash) -> (r: SwarmMessage)
        ensures
            r@ == (MessageModel::WhoHas { hash: lower_hex(hash@), requester: self@.node_id }),
    {
        SwarmMessage::WhoHas { hash: hash.text(), requester_node_id: self.node_id.clone() }
    }

    /// Records a holder of a blob.
    pub fn record_holder(&mut self, hash_hex: &str, holder: &str)
        requires
            old(self).wf(),
        ensures
            final(self).wf(),
            final(self)@ == old(self)@.with_holder(hash_hex@, holder@),
    {
        let ghost before = *self;
        proof {
            law_holders_are_registered(before@, hash_hex@, holder@);
        }
        if same_text(holder, self.node_id.as_str()) {
            return;
        }
        match self.holders.position(hash_hex) {
            Some(i) => {
                let mut list: Vec<String> = self.holders.replace_at(i, Vec::new());
                let ghost former = list@;
                assert(before@.holders[hash_hex@] == texts(former));
                if !contains_text(&list, holder) {
                    list.push(holder.to_owned());
                    assert(texts(list@) =~= texts(former).push(holder@));
                }
                let _placeholder: Vec<String> = self.holders.replace_at(i, list);
            },
            None => {
                let mut list: Vec<String> = Vec::new();
                list.push(holder.to_owned());
                assert(texts(list@) =~= Seq::<Seq<char>>::empty().push(holder@));
                self.holders.insert(hash_hex.to_owned(), list);
            },
        }
        assert(self@.holders =~= before@.with_holder(hash_hex@, holder@).holders);
    }

    /// The holders of a blob that this node heard of.
    pub fn holders(&self, hash: &BlobHash) -> (r: Vec<String>)
        requires
            self.wf(),
        ensures
            texts(r@) == self@.holders_of(lower_hex(hash@)),
    {
        match self.holders.get(hash.text().as_str()) {
            Some(list) => list.clone(),
            None => {
                let none: Vec<String> = Vec::new();
                assert(texts(none@) =~= Seq::<Seq<char>>::empty());
                none
            },
        }
    }
}

/// Why a message is not answered.
#[derive(Debug)]
pub enum SwarmError {
    /// A question names no hash. The cause says what is wrong with its text.
    UnparseableHash { cause: String },
}

impl SwarmError {
    /// The error in words.
    pub fn message(&self) -> (r: String)
        ensures
            match *self {
                SwarmError::UnparseableHash { cause } => r@
                    == "WhoHas carried an unparseable hash: "@ + cause@,
            },
    {
        match self {
            SwarmError::UnparseableHash { cause } => joined(
                "WhoHas carried an unparseable hash: ",
                cause.as_str(),
            ),
        }
    }
}

impl BlobSwarm {
    /// Takes a message. An announcement is recorded, and needs no answer. A question gives the hash
    /// that it is about: the store has to be asked for it, and [`BlobSwarm::answer`] says what is
    /// replied.
    pub fn on_message(&mut self, message: &SwarmMessage) -> (r: Result<Option<BlobHash>, SwarmError>)
        requires
            old(self).wf(),
        ensures
            final(self).wf(),
            match message@ {
                MessageModel::IHave { hash, holder } => final(self)@ == old(self)@.with_holder(
                    hash,
                    holder,
                ) && r == Ok::<Option<BlobHash>, SwarmError>(None),
                MessageModel::WhoHas { hash, .. } => final(self)@ == old(self)@ && match r {
                    Ok(Some(h)) => hash_in(hash) == Some(h@),
                    Ok(None) => false,
                    Err(SwarmError::UnparseableHash { cause }) => hash_in(hash) is None && cause@
                        == hash_cause(hash),
                },
            },
    {
        match message {
            SwarmMessage::IHave { hash, holder_node_id } => {
                self.record_holder(hash.as_str(), holder_node_id.as_str());
                Ok(None)
            },
            SwarmMessage::WhoHas { hash, .. } => {
                match BlobHash::parse(hash.as_str()) {
                    Ok(h) => Ok(Some(h)),
                    Err(cause) => Err(SwarmError::UnparseableHash { cause }),
                }
            },
        }
    }

    /// The reply to a question, given whether the store holds the blob.
    pub fn answer(&self, hash: &BlobHash, held: bool) -> (r: Option<SwarmMessage>)
        ensures
            match r {
                Some(m) => held && m@ == (MessageModel::IHave {
                    hash: lower_hex(hash@),
                    holder: self@.node_id,
                }),
                None => !held,
            },
    {
        if held {
            Some(self.announce(hash))
        } else {
            None
        }
    }
}

/// The negotiation works: where one node asks for a blob and another holds it, the question reads
/// as the hash that was asked for, the answer names the other node as a holder of it, and once the
/// answer is recorded the first node lists the other one among the holders.
pub proof fn law_negotiation(requester: SwarmModel, provider: SwarmModel, hash: Seq<u8>)
    requires
        requester.tidy(),
        hash.len() == 32,
        provider.node_id != requester.node_id,
    ensures
        hash_in(lower_hex(hash)) == Some(hash),
        requester.with_holder(lower_hex(hash), provider.node_id).holders_of(
            lower_hex(hash),
        ).contains(provider.node_id),
{
    law_hash_reads_back(hash);
    law_holders_are_registered(requester, lower_hex(hash), provider.node_id);
}

} // verus!
