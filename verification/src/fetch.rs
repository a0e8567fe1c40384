//! Fetching a blob from its holders.
//!
//! A [`Fetch`] says what to do next and takes in what came of it. The holders are tried in turn
//! until the store has the whole blob. A holder that cannot be reached or that fails is passed
//! over. What the store has at the end is handed out only if it hashes to the name of the blob.

use vstd::prelude::*;

use crate::digest::{blake3_of, lower_hex};
use crate::hex_text::hex_encode;
use crate::identity::{node_key_result, parse_node_id};
use crate::swarm::{BlobHash, BlobSwarm};
use crate::text::{joined, texts};

verus! {

/// Why a blob was not fetched.
#[derive(Debug)]
pub enum FetchError {
    /// No holders were given.
    NoHolders { hash: BlobHash },
    /// A holder's text is no identifier of a node. The cause says what is wrong with it.
    InvalidHolder { holder: String, cause: String },
    /// The store did not say whether it has the blob.
    HasFailed { reason: String },
    /// The store did not hand out the blob.
    GetFailed { reason: String },
    /// A holder could not be reached.
    DialFailed { provider: [u8; 32], reason: String },
    /// A holder did not answer in time.
    DialTimedOut { provider: [u8; 32] },
    /// A holder did not deliver.
    TransferFailed { provider: [u8; 32], reason: String },
    /// The store does not have the blob though no holder failed.
    NotServed { hash: BlobHash },
    /// What the store has hashes to something else.
    IntegrityFailed { computed: BlobHash, expected: BlobHash },
}

/// The model of a [`FetchError`].
pub enum FetchErrorModel {
    NoHolders { hash: Seq<u8> },
    InvalidHolder { holder: Seq<char>, cause: Seq<char> },
    HasFailed { reason: Seq<char> },
    GetFailed { reason: Seq<char> },
    DialFailed { provider: Seq<u8>, reason: Seq<char> },
    DialTimedOut { provider: Seq<u8> },
    TransferFailed { provider: Seq<u8>, reason: Seq<char> },
    NotServed { hash: Seq<u8> },
    IntegrityFailed { computed: Seq<u8>, expected: Seq<u8> },
}

impl View for FetchError {
    type V = FetchErrorModel;

    open spec fn view(&self) -> FetchErrorModel {
        match *self {
            FetchError::NoHolders { hash } => FetchErrorModel::NoHolders { hash: hash@ },
            FetchError::InvalidHolder { holder, cause } => FetchErrorModel::InvalidHolder {
                holder: holder@,
                cause: cause@,
            },
            FetchError::HasFailed { reason } => FetchErrorModel::HasFailed { reason: reason@ },
            FetchError::GetFailed { reason } => FetchErrorModel::GetFailed { reason: reason@ },
            FetchError::DialFailed { provider, reason } => FetchErrorModel::DialFailed {
                provider: provider@,
                reason: reason@,
            },
            FetchError::DialTimedOut { provider } => FetchErrorModel::DialTimedOut {
                provider: provider@,
            },
            FetchError::TransferFailed { provider, reason } => FetchErrorModel::TransferFailed {
                provider: provider@,
                reason: reason@,
            },
            FetchError::NotServed { hash } => FetchErrorModel::NotServed { hash: hash@ },
            FetchError::IntegrityFailed { computed, expected } => FetchErrorModel::IntegrityFailed {
                computed: computed@,
                expected: expected@,
            },
        }
    }
}

/// An error in words.
pub open spec fn error_text(e: FetchErrorModel) -> Seq<char> {
    match e {
        FetchErrorModel::NoHolders { hash } => "cannot fetch "@ + lower_hex(hash)
            + ": no holders provided"@,
        FetchErrorModel::InvalidHolder { holder, cause } => "holder id '"@ + holder
            + "' is not a valid node id: "@ + cause,
        FetchErrorModel::HasFailed { reason } => "blob has() failed: "@ + reason,
        FetchErrorModel::GetFailed { reason } => "blob get_bytes failed: "@ + reason,
        FetchErrorModel::DialFailed { provider, reason } => "dial holder "@ + lower_hex(provider)
            + " failed: "@ + reason,
        FetchErrorModel::DialTimedOut { provider } => "dial holder "@ + lower_hex(provider)
            + " timed out (likely departed)"@,
        FetchErrorModel::TransferFailed { provider, reason } => "fetch from holder "@ + lower_hex(
            provider,
        ) + " failed: "@ + reason,
        FetchErrorModel::NotServed { hash } => "no holder in the set could serve "@ + lower_hex(
            hash,
        ),
        FetchErrorModel::IntegrityFailed { computed, expected } =>
            "integrity check failed: fetched content hashes to "@ + lower_hex(computed)
            + ", expected "@ + lower_hex(expected),
    }
}

fn three(a: &str, b: &str, c: &str) -> (r: String)
    ensures
        r@ == a@ + b@ + c@,
{
    let mut r: String = joined(a, b);
    r.append(c);
    r
}

impl FetchError {
    /// The error in words.
    pub fn message(&self) -> (r: String)
        ensures
            r@ == error_text(self@),
    {
        match self {
            FetchError::NoHolders { hash } => three(
                "cannot fetch ",
                hash.text().as_str(),
                ": no holders provided",
            ),
            FetchError::InvalidHolder { holder, cause } => {
                let mut r: String = three(
                    "holder id '",
                    holder.as_str(),
                    "' is not a valid node id: ",
                );
                r.append(cause.as_str());
                r
            },
            FetchError::HasFailed { reason } => joined("blob has() failed: ", reason.as_str()),
            FetchError::GetFailed { reason } => joined("blob get_bytes failed: ", reason.as_str()),
            FetchError::DialFailed { provider, reason } => {
                let mut r: String = three(
                    "dial holder ",
                    hex_encode(provider.as_slice()).as_str(),
                    " failed: ",
                );
                r.append(reason.as_str());
                r
            },
            FetchError::DialTimedOut { provider } => three(
                "dial holder ",
                hex_encode(provider.as_slice()).as_str(),
                " timed out (likely departed)",
            ),
            FetchError::TransferFailed { provider, reason } => {
                let mut r: String = three(
                    "fetch from holder ",
                    hex_encode(provider.as_slice()).as_str(),
                    " failed: ",
                );
                r.append(reason.as_str());
                r
            },
            FetchError::NotServed { hash } => joined(
                "no holder in the set could serve ",
                hash.text().as_str(),
            ),
            FetchError::IntegrityFailed { computed, expected } => {
                let mut r: String = three(
                    "integrity check failed: fetched content hashes to ",
                    computed.text().as_str(),
                    ", expected ",
                );
                r.append(expected.text().as_str());
                r
            },
        }
    }
}

// ---------------------------------------------------------------------------------------------
// Steps
// ---------------------------------------------------------------------------------------------

/// Why a holder was not reached.
#[derive(Debug)]
pub enum DialFailure {
    Failed { reason: String },
    TimedOut,
}

/// What came of an action.
#[derive(Debug)]
pub enum FetchEvent {
    /// Whether the store has the whole blob.
    Has(bool),
    /// The store did not say.
    HasFailed { reason: String },
    /// The holder was reached.
    Dialed,
    /// The holder was not reached.
    DialFailed(DialFailure),
    /// The holder delivered what was missing.
    Transferred,
    /// The holder did not deliver all that was missing.
    TransferFailed { reason: String },
    /// The content of the blob.
    Content(Vec<u8>),
    /// The store did not hand out the blob.
    GetFailed { reason: String },
}

/// The model of a [`FetchEvent`].
pub enum FetchEventModel {
    Has(bool),
    HasFailed { reason: Seq<char> },
    Dialed,
    DialFailed { reason: Seq<char> },
    DialTimedOut,
    Transferred,
    TransferFailed { reason: Seq<char> },
    Content(Seq<u8>),
    GetFailed { reason: Seq<char> },
}

impl View for FetchEvent {
    type V = FetchEventModel;

    open spec fn view(&self) -> FetchEventModel {
        match *self {
            FetchEvent::Has(b) => FetchEventModel::Has(b),
            FetchEvent::HasFailed { reason } => FetchEventModel::HasFailed { reason: reason@ },
            FetchEvent::Dialed => FetchEventModel::Dialed,
            FetchEvent::DialFailed(DialFailure::Failed { reason }) => FetchEventModel::DialFailed {
                reason: reason@,
            },
            FetchEvent::DialFailed(DialFailure::TimedOut) => FetchEventModel::DialTimedOut,
            FetchEvent::Transferred => FetchEventModel::Transferred,
            FetchEvent::TransferFailed { reason } => FetchEventModel::TransferFailed {
                reason: reason@,
            },
            FetchEvent::Content(bytes) => FetchEventModel::Content(bytes@),
            FetchEvent::GetFailed { reason } => FetchEventModel::GetFailed { reason: reason@ },
        }
    }
}

/// How far a fetch has come, and so what is to be done next.
#[derive(Debug)]
pub enum Phase {
    /// Ask the store whether it has the blob, before the next holder is tried.
    AskBefore,
    /// Dial the holder.
    Dial,
    /// Let the holder deliver what is missing.
    Transfer,
    /// Ask the store whether it has the blob, now that no holder is tried any more.
    AskAfter,
    /// Get the blob from the store.
    Get,
    /// The blob is here.
    Done(Vec<u8>),
    /// The blob was not fetched.
    Failed(FetchError),
}

/// The model of a [`Phase`].
pub enum PhaseModel {
    AskBefore,
    Dial,
    Transfer,
    AskAfter,
    Get,
    Done(Seq<u8>),
    Failed(FetchErrorModel),
}

impl View for Phase {
    type V = PhaseModel;

    open spec fn view(&self) -> PhaseModel {
        match *self {
            Phase::AskBefore => PhaseModel::AskBefore,
            Phase::Dial => PhaseModel::Dial,
            Phase::Transfer => PhaseModel::Transfer,
            Phase::AskAfter => PhaseModel::AskAfter,
            Phase::Get => PhaseModel::Get,
            Phase::Done(bytes) => PhaseModel::Done(bytes@),
            Phase::Failed(e) => PhaseModel::Failed(e@),
        }
    }
}

/// A blob that is being fetched.
pub struct Fetch {
    hash: BlobHash,
    providers: Vec<[u8; 32]>,
    next: usize,
    last_error: Option<FetchError>,
    phase: Phase,
}

/// The model of a [`Fetch`]: the blob, its holders, how many of them were tried, the last failure
/// of one, and the phase.
pub struct FetchModel {
    pub hash: Seq<u8>,
    pub providers: Seq<Seq<u8>>,
    pub tried: nat,
    pub last_error: Option<FetchErrorModel>,
    pub phase: PhaseModel,
}

impl View for Fetch {
    type V = FetchModel;

    closed spec fn view(&self) -> FetchModel {
        FetchModel {
            hash: self.hash@,
            providers: self.providers@.map_values(|p: [u8; 32]| p@),
            tried: self.next as nat,
            last_error: match self.last_error {
                Some(e) => Some(e@),
                None => None,
            },
            phase: self.phase@,
        }
    }
}

impl FetchModel {
    /// A fetch that has not begun.
    pub open spec fn fresh(hash: Seq<u8>, providers: Seq<Seq<u8>>) -> FetchModel {
        FetchModel { hash, providers, tried: 0, last_error: None, phase: PhaseModel::AskBefore }
    }

    /// The holder that is tried is one of the holders, and what is done hashes to the blob's name.
    pub open spec fn valid(self) -> bool {
        &&& self.tried <= self.providers.len()
        &&& self.phase is AskBefore || self.phase is Dial || self.phase is Transfer ==> self.tried
            < self.providers.len()
        &&& self.phase matches PhaseModel::Done(bytes) ==> blake3_of(bytes) == self.hash
    }

    /// Turns to the next holder, or, after the last one, to what the store has.
    pub open spec fn holder_done(self, error: Option<FetchErrorModel>) -> FetchModel {
        FetchModel {
            tried: self.tried + 1,
            last_error: if error is Some {
                error
            } else {
                self.last_error
            },
            phase: if self.tried + 1 < self.providers.len() {
                PhaseModel::AskBefore
            } else {
                PhaseModel::AskAfter
            },
            ..self
        }
    }

    /// Where nothing more is tried.
    pub open spec fn ended(self, phase: PhaseModel) -> FetchModel {
        FetchModel { phase, ..self }
    }

    /// What follows an event. An event that is no answer to what the phase asks changes nothing.
    pub open spec fn after(self, event: FetchEventModel) -> FetchModel {
        let provider = self.providers[self.tried as int];
        match (self.phase, event) {
            (PhaseModel::AskBefore, FetchEventModel::Has(true)) => self.ended(PhaseModel::AskAfter),
            (PhaseModel::AskBefore, FetchEventModel::Has(false)) => self.ended(PhaseModel::Dial),
            (PhaseModel::AskAfter, FetchEventModel::Has(true)) => self.ended(PhaseModel::Get),
            (PhaseModel::AskAfter, FetchEventModel::Has(false)) => FetchModel {
                phase: PhaseModel::Failed(
                    match self.last_error {
                        Some(e) => e,
                        None => FetchErrorModel::NotServed { hash: self.hash },
                    },
                ),
                last_error: None,
                ..self
            },
            (
                PhaseModel::AskBefore | PhaseModel::AskAfter,
                FetchEventModel::HasFailed { reason },
            ) => self.ended(PhaseModel::Failed(FetchErrorModel::HasFailed { reason })),
            (PhaseModel::Dial, FetchEventModel::Dialed) => self.ended(PhaseModel::Transfer),
            (PhaseModel::Dial, FetchEventModel::DialFailed { reason }) => self.holder_done(
                Some(FetchErrorModel::DialFailed { provider, reason }),
            ),
            (PhaseModel::Dial, FetchEventModel::DialTimedOut) => self.holder_done(
                Some(FetchErrorModel::DialTimedOut { provider }),
            ),
            (PhaseModel::Transfer, FetchEventModel::Transferred) => self.holder_done(None),
            (PhaseModel::Transfer, FetchEventModel::TransferFailed { reason }) => self.holder_done(
                Some(FetchErrorModel::TransferFailed { provider, reason }),
            ),
            (PhaseModel::Get, FetchEventModel::GetFailed { reason }) => self.ended(
                PhaseModel::Failed(FetchErrorModel::GetFailed { reason }),
            ),
            (PhaseModel::Get, FetchEventModel::Content(bytes)) => self.ended(
                if blake3_of(bytes) == self.hash {
                    PhaseModel::Done(bytes)
                } else {
                    PhaseModel::Failed(
                        FetchErrorModel::IntegrityFailed {
                            computed: blake3_of(bytes),
                            expected: self.hash,
                        },
                    )
                },
            ),
            _ => self,
        }
    }
}

/// The keys of holders, given what reading their texts gave, or the first of the texts that gives
/// none with what is wrong with it.
pub open spec fn provider_keys(
    holders: Seq<Seq<char>>,
    keys: Seq<Result<Seq<u8>, Seq<char>>>,
) -> Result<Seq<Seq<u8>>, (Seq<char>, Seq<char>)>
    decreases keys.len(),
{
    if keys.len() == 0 {
        Ok(Seq::empty())
    } else {
        match (provider_keys(holders, keys.drop_last()), keys.last()) {
            (Err(bad), _) => Err(bad),
            (Ok(_), Err(cause)) => Err((holders[keys.len() - 1], cause)),
            (Ok(so_far), Ok(key)) => Ok(so_far.push(key)),
        }
    }
}

/// A fetch from the given holders, given what reading their texts gave.
pub open spec fn fetch_from(
    hash: Seq<u8>,
    holders: Seq<Seq<char>>,
    keys: Seq<Result<Seq<u8>, Seq<char>>>,
) -> Result<FetchModel, FetchErrorModel> {
    if holders.len() == 0 {
        Err(FetchErrorModel::NoHolders { hash })
    } else {
        match provider_keys(holders, keys) {
            Err((holder, cause)) => Err(FetchErrorModel::InvalidHolder { holder, cause }),
            Ok(providers) => Ok(FetchModel::fresh(hash, providers)),
        }
    }
}

/// What a list of read identifiers holds.
pub open spec fn key_results(keys: Seq<Result<[u8; 32], String>>) -> Seq<Result<Seq<u8>, Seq<char>>> {
    keys.map_values(
        |k: Result<[u8; 32], String>|
            match k {
                Ok(key) => Ok(key@),
                Err(cause) => Err(cause@),
            },
    )
}

impl Fetch {
    /// The model is valid.
    pub closed spec fn wf(&self) -> bool {
        self@.valid()
    }

    /// What is done hashes to the blob's name.
    pub proof fn law_fetch_is_valid(&self)
        requires
            self.wf(),
        ensures
            self@.valid(),
    {
    }

    /// Starts a fetch, given the keys that the holders' texts give.
    pub fn start_with(hash: BlobHash, holders: &Vec<String>, keys: &Vec<Result<[u8; 32], String>>) -> (r: Result<
        Fetch,
        FetchError,
    >)
        requires
            holders@.len() == keys@.len(),
        ensures
            match r {
                Ok(f) => f.wf() && fetch_from(hash@, texts(holders@), key_results(keys@)) == Ok::<
                    FetchModel,
                    FetchErrorModel,
                >(f@),
                Err(e) => fetch_from(hash@, texts(holders@), key_results(keys@)) == Err::<
                    FetchModel,
                    FetchErrorModel,
                >(e@),
            },
    {
        if holders.len() == 0 {
            return Err(FetchError::NoHolders { hash });
        }
        let mut providers: Vec<[u8; 32]> = Vec::new();
        let mut i: usize = 0;
        let ghost all = key_results(keys@);
        let ghost names = texts(holders@);
        assert(all.take(0) =~= Seq::<Result<Seq<u8>, Seq<char>>>::empty());
        assert(providers@.map_values(|p: [u8; 32]| p@) =~= Seq::<Seq<u8>>::empty());
        while i < keys.len()
            invariant
                i <= keys@.len(),
                holders@.len() == keys@.len(),
                names == texts(holders@),
                names.len() > 0,
                all == key_results(keys@),
                providers@.len() == i,
                provider_keys(names, all.take(i as int)) == Ok::<Seq<Seq<u8>>, (Seq<char>, Seq<char>)>(
                    providers@.map_values(|p: [u8; 32]| p@),
                ),
            decreases keys@.len() - i,
        {
            assert(all.take(i + 1).drop_last() =~= all.take(i as int));
            match &keys[i] {
                Ok(key) => {
                    let ghost before = providers@;
                    providers.push(*key);
                    assert(providers@.map_values(|p: [u8; 32]| p@) =~= before.map_values(
                        |p: [u8; 32]| p@,
                    ).push(key@));
                },
                Err(cause) => {
                    proof {
                        lemma_first_failure(names, all, i as int);
                    }
                    return Err(
                        FetchError::InvalidHolder { holder: holders[i].clone(), cause: cause.clone() },
                    );
                },
            }
            i += 1;
        }
        assert(all.take(all.len() as int) =~= all);
        Ok(Fetch { hash, providers, next: 0, last_error: None, phase: Phase::AskBefore })
    }

    /// Starts a fetch of a blob from the given holders.
    pub fn start(hash: BlobHash, holders: &Vec<String>) -> (r: Result<Fetch, FetchError>)
        ensures
            ({
                let keys = texts(holders@).map_values(|t: Seq<char>| node_key_result(t));
                match r {
                    Ok(f) => f.wf() && fetch_from(hash@, texts(holders@), keys) == Ok::<
                        FetchModel,
                        FetchErrorModel,
                    >(f@),
                    Err(e) => fetch_from(hash@, texts(holders@), keys) == Err::<
                        FetchModel,
                        FetchErrorModel,
                    >(e@),
                }
            }),
    {
        let mut keys: Vec<Result<[u8; 32], String>> = Vec::new();
        let mut i: usize = 0;
        let ghost results = texts(holders@).map_values(|t: Seq<char>| node_key_result(t));
        while i < holders.len()
            invariant
                i <= holders@.len(),
                results == texts(holders@).map_values(|t: Seq<char>| node_key_result(t)),
                keys@.len() == i,
                forall|j: int| 0 <= j < i ==> key_results(keys@)[j] == #[trigger] results[j],
            decreases holders@.len() - i,
        {
            let ghost before = keys@;
            keys.push(parse_node_id(holders[i].as_str()));
            assert forall|j: int| 0 <= j < i + 1 implies key_results(keys@)[j]
                == #[trigger] results[j] by {
                if j < i {
                    assert(key_results(before)[j] == results[j]);
                }
            }
            i += 1;
        }
        assert(key_results(keys@) =~= results);
        Fetch::start_with(hash, holders, &keys)
    }

    /// How far the fetch has come.
    pub fn phase(&self) -> (r: &Phase)
        ensures
            r@ == self@.phase,
    {
        &self.phase
    }

    /// The holder that is tried.
    pub fn provider(&self) -> (r: Option<[u8; 32]>)
        ensures
            match r {
                Some(p) => self@.tried < self@.providers.len() && p@
                    == self@.providers[self@.tried as int],
                None => self@.tried >= self@.providers.len(),
            },
    {
        if self.next < self.providers.len() {
            Some(self.providers[self.next])
        } else {
            None
        }
    }

    fn holder_done(&mut self, error: Option<FetchError>)
        requires
            old(self)@.tried < old(self)@.providers.len(),
        ensures
            final(self)@ == old(self)@.holder_done(
                match error {
                    Some(e) => Some(e@),
                    None => None,
                },
            ),
    {
        let count: usize = self.providers.len();
        match error {
            Some(e) => {
                self.last_error = Some(e);
            },
            None => {},
        }
        self.next = self.next + 1;
        if self.next < count {
            self.phase = Phase::AskBefore;
        } else {
            self.phase = Phase::AskAfter;
        }
    }

    /// Takes in what came of the action that the phase asks for.
    pub fn on_event(&mut self, event: FetchEvent)
        requires
            old(self).wf(),
        ensures
            final(self).wf(),
            final(self)@ == old(self)@.after(event@),
    {
        match self.phase {
            Phase::AskBefore => match event {
                FetchEvent::Has(true) => {
                    self.phase = Phase::AskAfter;
                },
                FetchEvent::Has(false) => {
                    self.phase = Phase::Dial;
                },
                FetchEvent::HasFailed { reason } => {
                    self.phase = Phase::Failed(FetchError::HasFailed { reason });
                },
                _ => {},
            },
            Phase::Dial => {
                let provider: [u8; 32] = self.providers[self.next];
                match event {
                    FetchEvent::Dialed => {
                        self.phase = Phase::Transfer;
                    },
                    FetchEvent::DialFailed(DialFailure::Failed { reason }) => {
                        self.holder_done(Some(FetchError::DialFailed { provider, reason }));
                    },
                    FetchEvent::DialFailed(DialFailure::TimedOut) => {
                        self.holder_done(Some(FetchError::DialTimedOut { provider }));
                    },
                    _ => {},
                }
            },
            Phase::Transfer => {
                let provider: [u8; 32] = self.providers[self.next];
                match event {
                    FetchEvent::Transferred => {
                        self.holder_done(None);
                    },
                    FetchEvent::TransferFailed { reason } => {
                        self.holder_done(Some(FetchError::TransferFailed { provider, reason }));
                    },
                    _ => {},
                }
            },
            Phase::AskAfter => match event {
                FetchEvent::Has(true) => {
                    self.phase = Phase::Get;
                },
                FetchEvent::Has(false) => {
                    let mut last: Option<FetchError> = None;
                    core::mem::swap(&mut last, &mut self.last_error);
                    self.phase = Phase::Failed(
                        match last {
                            Some(e) => e,
                            None => FetchError::NotServed { hash: self.hash },
                        },
                    );
                },
                FetchEvent::HasFailed { reason } => {
                    self.phase = Phase::Failed(FetchError::HasFailed { reason });
                },
                _ => {},
            },
            Phase::Get => match event {
                FetchEvent::GetFailed { reason } => {
                    self.phase = Phase::Failed(FetchError::GetFailed { reason });
                },
                FetchEvent::Content(bytes) => {
                    let computed: BlobHash = BlobHash::new(bytes.as_slice());
                    if computed.same(&self.hash) {
                        self.phase = Phase::Done(bytes);
                    } else {
                        self.phase = Phase::Failed(
                            FetchError::IntegrityFailed { computed, expected: self.hash },
                        );
                    }
                },
                _ => {},
            },
            _ => {},
        }
    }

    /// What came of the fetch, once it has ended.
    pub fn result(self) -> (r: Option<Result<Vec<u8>, FetchError>>)
        requires
            self.wf(),
        ensures
            match r {
                Some(Ok(bytes)) => self@.phase == PhaseModel::Done(bytes@) && blake3_of(bytes@)
                    == self@.hash,
                Some(Err(e)) => self@.phase == PhaseModel::Failed(e@),
                None => !(self@.phase is Done) && !(self@.phase is Failed),
            },
    {
        match self.phase {
            Phase::Done(bytes) => Some(Ok(bytes)),
            Phase::Failed(e) => Some(Err(e)),
            _ => None,
        }
    }
}

impl BlobSwarm {
    /// Starts a fetch of a blob from the given holders.
    pub fn fetch(&self, hash: &BlobHash, holders: &Vec<String>) -> (r: Result<Fetch, FetchError>)
        ensures
            ({
                let keys = texts(holders@).map_values(|t: Seq<char>| node_key_result(t));
                match r {
                    Ok(f) => f.wf() && fetch_from(hash@, texts(holders@), keys) == Ok::<
                        FetchModel,
                        FetchErrorModel,
                    >(f@),
                    Err(e) => fetch_from(hash@, texts(holders@), keys) == Err::<
                        FetchModel,
                        FetchErrorModel,
                    >(e@),
                }
            }),
    {
        Fetch::start(*hash, holders)
    }
}

// ---------------------------------------------------------------------------------------------
// Whole fetches
// ---------------------------------------------------------------------------------------------

/// A fetch after a run of events.
pub open spec fn run(f: FetchModel, events: Seq<FetchEventModel>) -> FetchModel
    decreases events.len(),
{
    if events.len() == 0 {
        f
    } else {
        run(f, events.drop_last()).after(events.last())
    }
}

/// Whatever happens, a fetch hands out no other content than the blob's: what it hands out hashes
/// to the blob's name.
pub proof fn law_only_the_blob_is_handed_out(
    hash: Seq<u8>,
    providers: Seq<Seq<u8>>,
    events: Seq<FetchEventModel>,
)
    requires
        providers.len() > 0,
    ensures
        run(FetchModel::fresh(hash, providers), events).valid(),
        run(FetchModel::fresh(hash, providers), events).hash == hash,
        run(FetchModel::fresh(hash, providers), events).phase matches PhaseModel::Done(bytes)
            ==> blake3_of(bytes) == hash,
    decreases events.len(),
{
    if events.len() > 0 {
        law_only_the_blob_is_handed_out(hash, providers, events.drop_last());
    }
}

/// Whether an event is an answer to what a phase asks.
pub open spec fn answers(phase: PhaseModel, event: FetchEventModel) -> bool {
    match phase {
        PhaseModel::AskBefore | PhaseModel::AskAfter => event is Has || event is HasFailed,
        PhaseModel::Dial => event is Dialed || event is DialFailed || event is DialTimedOut,
        PhaseModel::Transfer => event is Transferred || event is TransferFailed,
        PhaseModel::Get => event is Content || event is GetFailed,
        PhaseModel::Done(_) | PhaseModel::Failed(_) => false,
    }
}

/// The greatest number of answers after which a fetch has ended.
pub open spec fn answers_left(f: FetchModel) -> int {
    let later = 3 * (f.providers.len() - f.tried) + 2;
    match f.phase {
        PhaseModel::AskBefore => later,
        PhaseModel::Dial => later - 1,
        PhaseModel::Transfer => later - 2,
        PhaseModel::AskAfter => 2,
        PhaseModel::Get => 1,
        PhaseModel::Done(_) | PhaseModel::Failed(_) => 0,
    }
}

/// A fetch ends: each answer brings it closer to its end, and it has ended when there is nothing
/// left to be answered.
pub proof fn law_fetch_ends(f: FetchModel, event: FetchEventModel)
    requires
        f.valid(),
        answers(f.phase, event),
    ensures
        0 <= answers_left(f.after(event)) < answers_left(f),
        answers_left(f.after(event)) == 0 <==> f.after(event).phase is Done || f.after(
            event,
        ).phase is Failed,
{
}

/// How a holder fails.
pub enum HolderFailure {
    Unreachable { reason: Seq<char> },
    Silent,
    Broken { reason: Seq<char> },
}

/// What happens when a holder that fails is tried while the store lacks a part of the blob.
pub open spec fn failing(failure: HolderFailure) -> Seq<FetchEventModel> {
    match failure {
        HolderFailure::Unreachable { reason } => seq![
            FetchEventModel::Has(false),
            FetchEventModel::DialFailed { reason },
        ],
        HolderFailure::Silent => seq![FetchEventModel::Has(false), FetchEventModel::DialTimedOut],
        HolderFailure::Broken { reason } => seq![
            FetchEventModel::Has(false),
            FetchEventModel::Dialed,
            FetchEventModel::TransferFailed { reason },
        ],
    }
}

/// What happens when holders that fail are tried one after the other.
pub open spec fn all_failing(failures: Seq<HolderFailure>) -> Seq<FetchEventModel>
    decreases failures.len(),
{
    if failures.len() == 0 {
        Seq::empty()
    } else {
        all_failing(failures.drop_last()) + failing(failures.last())
    }
}

/// What happens when a holder delivers what is missing. Where there are more holders, the store is
/// asked once more before it is found that they are not needed.
pub open spec fn delivering(last: bool, bytes: Seq<u8>) -> Seq<FetchEventModel> {
    seq![FetchEventModel::Has(false), FetchEventModel::Dialed, FetchEventModel::Transferred] + (
    if last {
        Seq::empty()
    } else {
        seq![FetchEventModel::Has(true)]
    }) + seq![FetchEventModel::Has(true), FetchEventModel::Content(bytes)]
}

proof fn lemma_run_concat(f: FetchModel, a: Seq<FetchEventModel>, b: Seq<FetchEventModel>)
    ensures
        run(f, a + b) == run(run(f, a), b),
    decreases b.len(),
{
    if b.len() == 0 {
        assert(a + b =~= a);
    } else {
        lemma_run_concat(f, a, b.drop_last());
        assert((a + b).drop_last() =~= a + b.drop_last());
    }
}

proof fn lemma_run_step(f: FetchModel, events: Seq<FetchEventModel>)
    requires
        events.len() > 0,
    ensures
        run(f, events) == run(f.after(events[0]), events.drop_first()),
{
    let first = seq![events[0]];
    lemma_run_concat(f, first, events.drop_first());
    assert(first + events.drop_first() =~= events);
    assert(first.drop_last() =~= Seq::<FetchEventModel>::empty());
    assert(run(f, first) == run(f, first.drop_last()).after(events[0]));
}

proof fn lemma_after_failures(f: FetchModel, failures: Seq<HolderFailure>)
    requires
        f.phase is AskBefore,
        f.tried + failures.len() < f.providers.len(),
    ensures
        ({
            let g = run(f, all_failing(failures));
            &&& g.phase is AskBefore
            &&& g.hash == f.hash
            &&& g.providers == f.providers
            &&& g.tried == f.tried + failures.len()
        }),
    decreases failures.len(),
{
    if failures.len() > 0 {
        lemma_after_failures(f, failures.drop_last());
        let events = failing(failures.last());
        lemma_run_concat(f, all_failing(failures.drop_last()), events);
        let g = run(f, all_failing(failures.drop_last()));
        lemma_run_step(g, events);
        lemma_run_step(g.after(events[0]), events.drop_first());
        assert(events.drop_first()[0] == events[1]);
        let h = g.after(events[0]).after(events[1]);
        let rest = events.drop_first().drop_first();
        if failures.last() is Broken {
            lemma_run_step(h, rest);
            assert(rest[0] == events[2]);
            assert(rest.drop_first() =~= Seq::<FetchEventModel>::empty());
        } else {
            assert(rest =~= Seq::<FetchEventModel>::empty());
        }
    }
}

/// Holders that fail do no harm: however many of them fail first, and in whatever way, the blob is
/// handed out as soon as one holder has delivered what is missing.
pub proof fn law_failing_holders_do_no_harm(
    hash: Seq<u8>,
    providers: Seq<Seq<u8>>,
    failures: Seq<HolderFailure>,
    bytes: Seq<u8>,
)
    requires
        failures.len() < providers.len(),
        blake3_of(bytes) == hash,
    ensures
        run(
            FetchModel::fresh(hash, providers),
            all_failing(failures) + delivering(failures.len() + 1 == providers.len(), bytes),
        ).phase == PhaseModel::Done(bytes),
{
    let f = FetchModel::fresh(hash, providers);
    let last = failures.len() + 1 == providers.len();
    let events = delivering(last, bytes);
    lemma_after_failures(f, failures);
    lemma_run_concat(f, all_failing(failures), events);
    let g0 = run(f, all_failing(failures));
    lemma_run_step(g0, events);
    let e1 = events.drop_first();
    let g1 = g0.after(FetchEventModel::Has(false));
    assert(e1[0] == FetchEventModel::Dialed);
    lemma_run_step(g1, e1);
    let e2 = e1.drop_first();
    let g2 = g1.after(FetchEventModel::Dialed);
    assert(e2[0] == FetchEventModel::Transferred);
    lemma_run_step(g2, e2);
    let e3 = e2.drop_first();
    let g3 = g2.after(FetchEventModel::Transferred);
    let (g4, e4) = if last {
        (g3, e3)
    } else {
        (g3.after(FetchEventModel::Has(true)), e3.drop_first())
    };
    if !last {
        assert(e3[0] == FetchEventModel::Has(true));
        lemma_run_step(g3, e3);
    }
    assert(e4 =~= seq![FetchEventModel::Has(true), FetchEventModel::Content(bytes)]);
    lemma_run_step(g4, e4);
    let g5 = g4.after(FetchEventModel::Has(true));
    let e5 = e4.drop_first();
    lemma_run_step(g5, e5);
    assert(e5[0] == FetchEventModel::Content(bytes));
    assert(e5.drop_first() =~= Seq::<FetchEventModel>::empty());
}

proof fn lemma_first_failure(holders: Seq<Seq<char>>, keys: Seq<Result<Seq<u8>, Seq<char>>>, i: int)
    requires
        0 <= i < keys.len(),
        keys[i] is Err,
        provider_keys(holders, keys.take(i)) is Ok,
    ensures
        provider_keys(holders, keys) == Err::<Seq<Seq<u8>>, (Seq<char>, Seq<char>)>(
            (holders[i], keys[i]->Err_0),
        ),
    decreases keys.len() - i,
{
    assert(keys.take(i + 1).drop_last() =~= keys.take(i));
    lemma_failure_stays(holders, keys, i + 1);
}

proof fn lemma_failure_stays(holders: Seq<Seq<char>>, keys: Seq<Result<Seq<u8>, Seq<char>>>, i: int)
    requires
        0 <= i <= keys.len(),
        provider_keys(holders, keys.take(i)) is Err,
    ensures
        provider_keys(holders, keys) == provider_keys(holders, keys.take(i)),
    decreases keys.len() - i,
{
    if i == keys.len() {
        assert(keys.take(i) =~= keys);
    } else {
        assert(keys.take(i + 1).drop_last() =~= keys.take(i));
        lemma_failure_stays(holders, keys, i + 1);
    }
}

} // verus!
