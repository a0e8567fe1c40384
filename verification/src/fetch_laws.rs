//! What fetching is for: whom it dials, in which order, and what it says in the end.

use vstd::prelude::*;

use crate::digest::{blake3_of, lower_hex};
use crate::fetch::{
    all_failing, answers, error_text, failing, fetch_from, key_results, provider_keys, run,
    FetchErrorModel, FetchEventModel, FetchModel, HolderFailure, PhaseModel,
};

verus! {

// ---------------------------------------------------------------------------------------------
// Whom it dials
// ---------------------------------------------------------------------------------------------

proof fn lemma_all_keys(holders: Seq<Seq<char>>, keys: Seq<Result<Seq<u8>, Seq<char>>>)
    requires
        forall|i: int| 0 <= i < keys.len() ==> #[trigger] keys[i] is Ok,
    ensures
        provider_keys(holders, keys) is Ok,
        provider_keys(holders, keys)->Ok_0.len() == keys.len(),
        forall|i: int|
            0 <= i < keys.len() ==> #[trigger] provider_keys(holders, keys)->Ok_0[i]
                == keys[i]->Ok_0,
    decreases keys.len(),
{
    if keys.len() > 0 {
        let earlier = keys.drop_last();
        assert forall|i: int| 0 <= i < earlier.len() implies #[trigger] earlier[i] is Ok by {
            assert(keys[i] is Ok);
        }
        lemma_all_keys(holders, earlier);
        assert(keys[keys.len() - 1] is Ok);
        assert forall|i: int| 0 <= i < keys.len() implies #[trigger] provider_keys(
            holders,
            keys,
        )->Ok_0[i] == keys[i]->Ok_0 by {
            if i < earlier.len() {
                assert(earlier[i] == keys[i]);
                assert(provider_keys(holders, earlier)->Ok_0[i] == earlier[i]->Ok_0);
            }
        }
    }
}

/// Where every holder's text gives a key, the fetch has one provider for each holder, in the same
/// order, and each is the key that the holder's text gives.
pub proof fn law_every_holder_is_a_provider(
    hash: Seq<u8>,
    holders: Seq<Seq<char>>,
    keys: Seq<Result<Seq<u8>, Seq<char>>>,
)
    requires
        holders.len() == keys.len(),
        holders.len() > 0,
        forall|i: int| 0 <= i < keys.len() ==> #[trigger] keys[i] is Ok,
    ensures
        fetch_from(hash, holders, keys) is Ok,
        ({
            let f = fetch_from(hash, holders, keys)->Ok_0;
            &&& f.hash == hash
            &&& f.providers.len() == holders.len()
            &&& forall|i: int|
                0 <= i < holders.len() ==> #[trigger] f.providers[i] == keys[i]->Ok_0
            &&& f.tried == 0 && f.phase is AskBefore && f.last_error is None
        }),
{
    lemma_all_keys(holders, keys);
}

proof fn lemma_first_bad_key(
    holders: Seq<Seq<char>>,
    keys: Seq<Result<Seq<u8>, Seq<char>>>,
    i: int,
)
    requires
        0 <= i < keys.len(),
        keys[i] is Err,
        forall|j: int| 0 <= j < i ==> #[trigger] keys[j] is Ok,
    ensures
        provider_keys(holders, keys) == Err::<Seq<Seq<u8>>, (Seq<char>, Seq<char>)>(
            (holders[i], keys[i]->Err_0),
        ),
    decreases keys.len(),
{
    let earlier = keys.drop_last();
    if i < earlier.len() {
        assert(earlier[i] == keys[i]);
        assert forall|j: int| 0 <= j < i implies #[trigger] earlier[j] is Ok by {
            assert(keys[j] is Ok);
        }
        lemma_first_bad_key(holders, earlier, i);
    } else {
        assert forall|j: int| 0 <= j < earlier.len() implies #[trigger] earlier[j] is Ok by {
            assert(keys[j] is Ok);
        }
        lemma_all_keys(holders, earlier);
    }
}

/// Without holders nothing is fetched. Where a holder's text gives no key, nothing is fetched
/// either, and the first such holder is named, with what is wrong with its text.
pub proof fn law_bad_holders_are_named(
    hash: Seq<u8>,
    holders: Seq<Seq<char>>,
    keys: Seq<Result<Seq<u8>, Seq<char>>>,
)
    requires
        holders.len() == keys.len(),
    ensures
        holders.len() == 0 ==> fetch_from(hash, holders, keys) == Err::<
            FetchModel,
            FetchErrorModel,
        >(FetchErrorModel::NoHolders { hash }),
        forall|i: int|
            0 <= i < keys.len() && (#[trigger] keys[i]) is Err && (forall|j: int|
                0 <= j < i ==> #[trigger] keys[j] is Ok) ==> fetch_from(hash, holders, keys) == Err::<
                FetchModel,
                FetchErrorModel,
            >(FetchErrorModel::InvalidHolder { holder: holders[i], cause: keys[i]->Err_0 }),
{
    assert forall|i: int|
        0 <= i < keys.len() && (#[trigger] keys[i]) is Err && (forall|j: int|
            0 <= j < i ==> #[trigger] keys[j] is Ok) implies fetch_from(hash, holders, keys) == Err::<
        FetchModel,
        FetchErrorModel,
    >(FetchErrorModel::InvalidHolder { holder: holders[i], cause: keys[i]->Err_0 }) by {
        lemma_first_bad_key(holders, keys, i);
    }
}

/// What was read of the holders' texts is taken in one by one.
pub proof fn law_keys_are_taken_one_by_one(keys: Seq<Result<[u8; 32], String>>)
    ensures
        key_results(keys).len() == keys.len(),
        forall|i: int|
            0 <= i < keys.len() && keys[i] is Ok ==> #[trigger] key_results(keys)[i] == Ok::<
                Seq<u8>,
                Seq<char>,
            >(keys[i]->Ok_0@),
        forall|i: int|
            0 <= i < keys.len() && keys[i] is Err ==> #[trigger] key_results(keys)[i] == Err::<
                Seq<u8>,
                Seq<char>,
            >(keys[i]->Err_0@),
{
}

/// The providers that are dialed in the course of a run of events.
pub open spec fn dialed(f: FetchModel, events: Seq<FetchEventModel>) -> Seq<Seq<u8>>
    decreases events.len(),
{
    if events.len() == 0 {
        Seq::empty()
    } else {
        let before = run(f, events.drop_last());
        let after = run(f, events);
        let so_far = dialed(f, events.drop_last());
        if !(before.phase is Dial) && after.phase is Dial {
            so_far.push(after.providers[after.tried as int])
        } else {
            so_far
        }
    }
}

/// The providers are dialed in turn, from the first on, none of them twice and none left out, and
/// none before the one before it is done with. Nobody is given up on: as long as the store does not
/// say that it has the blob, the fetch asks it for the last time only when all were dialed.
pub proof fn law_holders_are_dialed_in_turn(
    hash: Seq<u8>,
    providers: Seq<Seq<u8>>,
    events: Seq<FetchEventModel>,
)
    requires
        providers.len() > 0,
    ensures
        ({
            let f = FetchModel::fresh(hash, providers);
            let g = run(f, events);
            let d = dialed(f, events);
            &&& g.providers == providers && g.hash == hash
            &&& d.len() <= providers.len()
            &&& d == providers.take(d.len() as int)
            &&& g.tried <= d.len() <= g.tried + 1
            &&& g.phase is Dial || g.phase is Transfer <==> d.len() == g.tried + 1
            &&& g.phase is AskAfter && !events.contains(FetchEventModel::Has(true)) ==> d
                == providers
        }),
    decreases events.len(),
{
    let f = FetchModel::fresh(hash, providers);
    if events.len() == 0 {
        assert(dialed(f, events) =~= providers.take(0));
    } else {
        let earlier = events.drop_last();
        law_holders_are_dialed_in_turn(hash, providers, earlier);
        let b = run(f, earlier);
        let g = run(f, events);
        let before = dialed(f, earlier);
        let d = dialed(f, events);
        lemma_tried_is_in_range(hash, providers, earlier);
        if !(b.phase is Dial) && g.phase is Dial {
            assert(d =~= providers.take(d.len() as int));
        }
        if g.phase is AskAfter && !events.contains(FetchEventModel::Has(true)) {
            assert(events[events.len() - 1] == events.last());
            assert(events.last() != FetchEventModel::Has(true));
            assert(!earlier.contains(FetchEventModel::Has(true))) by {
                if earlier.contains(FetchEventModel::Has(true)) {
                    let i = choose|i: int|
                        0 <= i < earlier.len() && earlier[i] == FetchEventModel::Has(true);
                    assert(events[i] == FetchEventModel::Has(true));
                }
            }
            assert(providers.take(providers.len() as int) =~= providers);
        }
    }
}

proof fn lemma_tried_is_in_range(
    hash: Seq<u8>,
    providers: Seq<Seq<u8>>,
    events: Seq<FetchEventModel>,
)
    requires
        providers.len() > 0,
    ensures
        ({
            let g = run(FetchModel::fresh(hash, providers), events);
            &&& g.providers == providers
            &&& g.tried <= providers.len()
            &&& g.phase is AskBefore || g.phase is Dial || g.phase is Transfer ==> g.tried
                < providers.len()
        }),
    decreases events.len(),
{
    if events.len() > 0 {
        lemma_tried_is_in_range(hash, providers, events.drop_last());
    }
}

// ---------------------------------------------------------------------------------------------
// What it says
// ---------------------------------------------------------------------------------------------

/// What is said of a provider that fails.
pub open spec fn complaint(failure: HolderFailure, provider: Seq<u8>) -> FetchErrorModel {
    match failure {
        HolderFailure::Unreachable { reason } => FetchErrorModel::DialFailed { provider, reason },
        HolderFailure::Silent => FetchErrorModel::DialTimedOut { provider },
        HolderFailure::Broken { reason } => FetchErrorModel::TransferFailed { provider, reason },
    }
}

proof fn lemma_run_on(f: FetchModel, a: Seq<FetchEventModel>, b: Seq<FetchEventModel>)
    ensures
        run(f, a + b) == run(run(f, a), b),
    decreases b.len(),
{
    if b.len() == 0 {
        assert(a + b =~= a);
    } else {
        lemma_run_on(f, a, b.drop_last());
        assert((a + b).drop_last() =~= a + b.drop_last());
    }
}

proof fn lemma_one_failure(g: FetchModel, failure: HolderFailure)
    requires
        g.phase is AskBefore,
        g.tried < g.providers.len(),
    ensures
        ({
            let h = run(g, failing(failure));
            &&& h.hash == g.hash && h.providers == g.providers && h.tried == g.tried + 1
            &&& h.last_error == Some(complaint(failure, g.providers[g.tried as int]))
            &&& h.phase == (if g.tried + 1 < g.providers.len() {
                PhaseModel::AskBefore
            } else {
                PhaseModel::AskAfter
            })
        }),
{
    let events = failing(failure);
    let none = Seq::<FetchEventModel>::empty();
    assert(run(g, none) == g);
    let one = seq![events[0]];
    assert(one.drop_last() =~= none);
    let two = seq![events[0], events[1]];
    assert(two.drop_last() =~= one);
    assert(run(g, one) == g.after(events[0]));
    assert(run(g, two) == run(g, one).after(events[1]));
    if failure is Broken {
        assert(events.drop_last() =~= two);
        assert(run(g, events) == run(g, two).after(events[2]));
    } else {
        assert(events =~= two);
    }
}

proof fn lemma_failures(f: FetchModel, failures: Seq<HolderFailure>)
    requires
        f.phase is AskBefore,
        f.tried == 0,
        0 < failures.len() <= f.providers.len(),
    ensures
        ({
            let n = failures.len() as int;
            let h = run(f, all_failing(failures));
            &&& h.hash == f.hash && h.providers == f.providers && h.tried == n
            &&& h.last_error == Some(complaint(failures[n - 1], f.providers[n - 1]))
            &&& h.phase == (if n < f.providers.len() {
                PhaseModel::AskBefore
            } else {
                PhaseModel::AskAfter
            })
        }),
    decreases failures.len(),
{
    let earlier = failures.drop_last();
    lemma_run_on(f, all_failing(earlier), failing(failures.last()));
    if earlier.len() > 0 {
        lemma_failures(f, earlier);
    } else {
        assert(all_failing(earlier) =~= Seq::<FetchEventModel>::empty());
    }
    lemma_one_failure(run(f, all_failing(earlier)), failures.last());
}

/// Where every provider fails, the fetch fails with what is to be said of the last one.
pub proof fn law_the_last_failure_is_told(
    hash: Seq<u8>,
    providers: Seq<Seq<u8>>,
    failures: Seq<HolderFailure>,
)
    requires
        providers.len() > 0,
        failures.len() == providers.len(),
    ensures
        run(
            FetchModel::fresh(hash, providers),
            all_failing(failures) + seq![FetchEventModel::Has(false)],
        ).phase == PhaseModel::Failed(
            complaint(failures[failures.len() - 1], providers[providers.len() - 1]),
        ),
{
    let f = FetchModel::fresh(hash, providers);
    let ask = seq![FetchEventModel::Has(false)];
    lemma_failures(f, failures);
    lemma_run_on(f, all_failing(failures), ask);
    assert(ask.drop_last() =~= Seq::<FetchEventModel>::empty());
    let g = run(f, all_failing(failures));
    assert(run(g, ask.drop_last()) == g);
    assert(run(g, ask) == g.after(FetchEventModel::Has(false)));
}

/// What the store says counts at once: that it failed, that the blob is not there though nobody
/// failed, and what it hands out. What it hands out is taken only if it hashes to the blob's name.
pub proof fn law_what_the_store_says(f: FetchModel, reason: Seq<char>, bytes: Seq<u8>)
    ensures
        f.phase is AskBefore || f.phase is AskAfter ==> f.after(
            FetchEventModel::HasFailed { reason },
        ).phase == PhaseModel::Failed(FetchErrorModel::HasFailed { reason }),
        f.phase is AskAfter && f.last_error is None ==> f.after(
            FetchEventModel::Has(false),
        ).phase == PhaseModel::Failed(FetchErrorModel::NotServed { hash: f.hash }),
        f.phase is AskBefore || f.phase is AskAfter ==> !(f.after(
            FetchEventModel::Has(true),
        ).phase is Failed),
        f.phase is Get ==> f.after(FetchEventModel::GetFailed { reason }).phase
            == PhaseModel::Failed(FetchErrorModel::GetFailed { reason }),
        f.phase is Get && blake3_of(bytes) == f.hash ==> f.after(
            FetchEventModel::Content(bytes),
        ).phase == PhaseModel::Done(bytes),
        f.phase is Get && blake3_of(bytes) != f.hash ==> f.after(
            FetchEventModel::Content(bytes),
        ).phase == PhaseModel::Failed(
            FetchErrorModel::IntegrityFailed { computed: blake3_of(bytes), expected: f.hash },
        ),
{
}

/// What goes well leads on: a blob that the store has is asked for once more and then got from it, a
/// holder that was reached has to deliver, and one that delivered is done with, which is no failure.
pub proof fn law_success_leads_on(f: FetchModel)
    ensures
        f.phase is AskBefore ==> f.after(FetchEventModel::Has(true)) == (FetchModel {
            phase: PhaseModel::AskAfter,
            ..f
        }),
        f.phase is AskBefore ==> f.after(FetchEventModel::Has(false)) == (FetchModel {
            phase: PhaseModel::Dial,
            ..f
        }),
        f.phase is AskAfter ==> f.after(FetchEventModel::Has(true)) == (FetchModel {
            phase: PhaseModel::Get,
            ..f
        }),
        f.phase is Dial ==> f.after(FetchEventModel::Dialed) == (FetchModel {
            phase: PhaseModel::Transfer,
            ..f
        }),
        f.phase is Transfer ==> f.after(FetchEventModel::Transferred) == (FetchModel {
            tried: f.tried + 1,
            phase: if f.tried + 1 < f.providers.len() {
                PhaseModel::AskBefore
            } else {
                PhaseModel::AskAfter
            },
            ..f
        }),
{
}

/// An event that answers nothing changes nothing, and a fetch that has ended stays as it is.
pub proof fn law_only_answers_count(f: FetchModel, event: FetchEventModel)
    ensures
        !answers(f.phase, event) ==> f.after(event) == f,
        f.phase is Done || f.phase is Failed ==> f.after(event) == f,
{
}

/// What is said names the blob, the holder or the provider that it is about, and ends with the
/// cause where there is one.
pub proof fn law_errors_in_words(
    hash: Seq<u8>,
    other: Seq<u8>,
    holder: Seq<char>,
    cause: Seq<char>,
)
    ensures
        error_text(FetchErrorModel::NoHolders { hash }) == "cannot fetch "@ + lower_hex(hash)
            + ": no holders provided"@,
        error_text(FetchErrorModel::InvalidHolder { holder, cause }) == "holder id '"@ + holder
            + "' is not a valid node id: "@ + cause,
        error_text(FetchErrorModel::HasFailed { reason: cause }) == "blob has() failed: "@ + cause,
        error_text(FetchErrorModel::GetFailed { reason: cause }) == "blob get_bytes failed: "@
            + cause,
        error_text(FetchErrorModel::DialFailed { provider: other, reason: cause })
            == "dial holder "@ + lower_hex(other) + " failed: "@ + cause,
        error_text(FetchErrorModel::DialTimedOut { provider: other }) == "dial holder "@
            + lower_hex(other) + " timed out (likely departed)"@,
        error_text(FetchErrorModel::TransferFailed { provider: other, reason: cause })
            == "fetch from holder "@ + lower_hex(other) + " failed: "@ + cause,
        error_text(FetchErrorModel::NotServed { hash }) == "no holder in the set could serve "@
            + lower_hex(hash),
        error_text(FetchErrorModel::IntegrityFailed { computed: other, expected: hash })
            == "integrity check failed: fetched content hashes to "@ + lower_hex(other)
            + ", expected "@ + lower_hex(hash),
{
}

} // verus!
