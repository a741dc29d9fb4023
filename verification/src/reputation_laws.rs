//! What holds of the reputation ledger as a whole.

use vstd::prelude::*;

use crate::reputation::{AttestationModel, Config, HistoryModel, ReputationData};
use crate::reputation_score;
use crate::reputation_score::{BASE_SCORE, MAX_HISTORY_POINTS, MAX_TRUST_WEIGHT};
use crate::reputation_store::ReputationState;

verus! {

/// A change that may be asked of the reputation ledger.
pub enum Operation {
    Initialize { admin: Seq<u8>, config: Config },
    TakeUp { address: Seq<u8> },
    CountTransaction { address: Seq<u8>, success: bool, amount: i128 },
    CountCredential { address: Seq<u8>, valid: bool, credential_type: Seq<u8> },
    Attest { attestation: AttestationModel },
}

/// The ledger after an operation at the time `now`, whether it was granted or
/// refused.
pub open spec fn perform(
    state: ReputationState,
    now: u64,
    operation: Operation,
) -> ReputationState {
    match operation {
        Operation::Initialize { admin, config } => ReputationState {
            admin: Some(admin),
            config: Some(config),
            ..state
        },
        Operation::TakeUp { address } => reputation_score::take_up_outcome(state, address, now),
        Operation::CountTransaction { address, success, amount } =>
            reputation_score::transaction_outcome(state, address, success, amount, now).0,
        Operation::CountCredential { address, valid, credential_type } =>
            reputation_score::credential_outcome(state, address, valid, credential_type, now).0,
        Operation::Attest { attestation } => reputation_score::attestation_outcome(
            state,
            attestation,
        ).0,
    }
}

/// The operation is one that can be asked for: the ledger is set up once and
/// before events are counted, and counters do not run over.
pub open spec fn possible(state: ReputationState, operation: Operation) -> bool {
    match operation {
        Operation::Initialize { .. } => state.admin is None,
        Operation::CountTransaction { address, success, .. } => state.config is Some && (
        state.profiles.contains_key(address) ==> reputation_score::transaction_countable(
            state.profiles[address],
            success,
        )),
        Operation::CountCredential { address, valid, .. } => state.config is Some && (
        state.profiles.contains_key(address) ==> reputation_score::credential_countable(
            state.profiles[address],
            valid,
        )),
        _ => true,
    }
}

/// A profile as the ledger keeps it: its counters add up, its score is the
/// published one, and that is no higher than the working score.
pub open spec fn profile_sound(state: ReputationState, address: Seq<u8>) -> bool {
    let profile = state.profiles[address];
    &&& profile.total_transactions == profile.successful_transactions + profile.failed_transactions
    &&& profile.total_credentials == profile.valid_credentials + profile.invalid_credentials
    &&& state.scores.contains_key(address)
    &&& state.scores[address] == profile.score
    &&& profile.score <= state.working_score(address)
    &&& state.population.contains(address)
}

/// The attestations for `subject` are about it and have allowed weights.
pub open spec fn attestations_sound(state: ReputationState, subject: Seq<u8>) -> bool {
    forall|i: int|
        0 <= i < state.trust[subject].len() ==> (#[trigger] state.trust[subject][i]).subject
            == subject && state.trust[subject][i].weight <= MAX_TRUST_WEIGHT
}

/// What is true of the ledger at all times.
pub open spec fn sound(state: ReputationState) -> bool {
    &&& state.admin is Some <==> state.config is Some
    &&& forall|a: Seq<u8>| #[trigger] state.profiles.contains_key(a) ==> profile_sound(state, a)
    &&& forall|a: Seq<u8>| #[trigger]
        state.scores.contains_key(a) ==> state.profiles.contains_key(a)
    &&& forall|a: Seq<u8>| #[trigger]
        state.working.contains_key(a) ==> state.profiles.contains_key(a)
    &&& forall|a: Seq<u8>| #[trigger]
        state.histories.contains_key(a) ==> state.profiles.contains_key(a)
            && state.histories[a].len() <= MAX_HISTORY_POINTS
    &&& state.population.no_duplicates()
    &&& forall|i: int|
        0 <= i < state.population.len() ==> state.profiles.contains_key(
            #[trigger] state.population[i],
        )
    &&& forall|s: Seq<u8>| #[trigger] state.trust.contains_key(s) ==> attestations_sound(state, s)
}

/// A ledger on which nothing has happened is sound.
pub proof fn law_empty_is_sound()
    ensures
        sound(ReputationState::empty()),
{
}

proof fn lemma_moved_bounded(published: u32, working: u32, up: bool, gain: u32, loss: u32, max: u32)
    requires
        published <= working,
    ensures
        reputation_score::capped(reputation_score::moved(published, up, gain, loss), max)
            <= reputation_score::reworked(working, up, gain, loss, max),
{
}

proof fn lemma_record_sound(
    state: ReputationState,
    address: Seq<u8>,
    profile: ReputationData,
    working: u32,
    event: Seq<u8>,
)
    requires
        sound(state),
        state.profiles.contains_key(address),
        profile.total_transactions == profile.successful_transactions + profile.failed_transactions,
        profile.total_credentials == profile.valid_credentials + profile.invalid_credentials,
        profile.score <= working,
    ensures
        sound(state.record(address, profile, working, event)),
{
    let after = state.record(address, profile, working, event);
    assert(profile_sound(state, address));
    assert forall|a: Seq<u8>| #[trigger] after.profiles.contains_key(a) implies profile_sound(
        after,
        a,
    ) by {
        if a != address {
            assert(profile_sound(state, a));
        }
    }
    assert forall|s: Seq<u8>| #[trigger] after.trust.contains_key(s) implies attestations_sound(
        after,
        s,
    ) by {
        assert(attestations_sound(state, s));
    }
}

/// Every operation, granted or refused, keeps the ledger sound: counters add
/// up, the published score is the profile's and no higher than the working
/// score, the population holds every address with a profile exactly once,
/// histories are not too long, and attestations have allowed weights.
pub proof fn law_operations_keep_soundness(state: ReputationState, now: u64, operation: Operation)
    requires
        sound(state),
        possible(state, operation),
    ensures
        sound(perform(state, now, operation)),
{
    let after = perform(state, now, operation);
    match operation {
        Operation::Initialize { admin, config } => {
            assert forall|a: Seq<u8>| #[trigger]
                after.profiles.contains_key(a) implies profile_sound(after, a) by {
                assert(profile_sound(state, a));
            }
            assert forall|s: Seq<u8>| #[trigger]
                after.trust.contains_key(s) implies attestations_sound(after, s) by {
                assert(attestations_sound(state, s));
            }
        },
        Operation::TakeUp { address } => {
            if !state.scores.contains_key(address) {
                if state.profiles.contains_key(address) {
                    assert(profile_sound(state, address));
                }
                assert(!state.working.contains_key(address));
                assert(!state.population.contains(address));
                assert(after.population[state.population.len() as int] == address);
                assert forall|a: Seq<u8>| #[trigger]
                    after.profiles.contains_key(a) implies profile_sound(after, a) by {
                    if a != address {
                        assert(profile_sound(state, a));
                        let i = choose|i: int|
                            0 <= i < state.population.len() && state.population[i] == a;
                        assert(after.population[i] == a);
                    }
                }
                assert forall|s: Seq<u8>| #[trigger]
                    after.trust.contains_key(s) implies attestations_sound(after, s) by {
                    assert(attestations_sound(state, s));
                }
            }
        },
        Operation::CountTransaction { address, success, amount } => {
            if state.profiles.contains_key(address) {
                assert(profile_sound(state, address));
                let config = state.config->0;
                let before = state.profiles[address];
                let profile = reputation_score::after_transaction(
                    before,
                    config,
                    success,
                    amount,
                    now,
                );
                let working = state.working_score(address);
                let gain = config.transaction_success_weight;
                let loss = config.transaction_failure_weight;
                lemma_moved_bounded(before.score, working, success, gain, loss, config.max_score);
                lemma_record_sound(
                    state,
                    address,
                    profile,
                    reputation_score::reworked(working, success, gain, loss, config.max_score),
                    reputation_score::transaction_text(success),
                );
            }
        },
        Operation::CountCredential { address, valid, credential_type } => {
            if state.profiles.contains_key(address) {
                assert(profile_sound(state, address));
                let config = state.config->0;
                let before = state.profiles[address];
                let profile = reputation_score::after_credential(before, config, valid, now);
                let working = state.working_score(address);
                let gain = config.credential_valid_weight;
                let loss = config.credential_invalid_weight;
                lemma_moved_bounded(before.score, working, valid, gain, loss, config.max_score);
                lemma_record_sound(
                    state,
                    address,
                    profile,
                    reputation_score::reworked(working, valid, gain, loss, config.max_score),
                    credential_type,
                );
            }
        },
        Operation::Attest { attestation } => {
            assert forall|a: Seq<u8>| #[trigger]
                after.profiles.contains_key(a) implies profile_sound(after, a) by {
                assert(profile_sound(state, a));
            }
            assert forall|s: Seq<u8>| #[trigger]
                after.trust.contains_key(s) implies attestations_sound(after, s) by {
                if state.trust.contains_key(s) {
                    assert(attestations_sound(state, s));
                }
                if attestation.weight <= MAX_TRUST_WEIGHT && s == attestation.subject {
                    let list = state.attestations(s);
                    assert forall|i: int| 0 <= i < after.trust[s].len() implies (
                    #[trigger] after.trust[s][i]).subject == s && after.trust[s][i].weight
                        <= MAX_TRUST_WEIGHT by {
                        if i < list.len() {
                            assert(after.trust[s][i] == state.trust[s][i]);
                        }
                    }
                }
            }
        },
    }
}

/// Once an event has been counted, the published score of the address is its
/// profile's and is not above the highest score.
pub proof fn law_published_score_is_capped(
    state: ReputationState,
    now: u64,
    address: Seq<u8>,
    up: bool,
    amount: i128,
    credential_type: Seq<u8>,
)
    requires
        state.config is Some,
        state.profiles.contains_key(address),
    ensures
        ({
            let after = reputation_score::transaction_outcome(state, address, up, amount, now).0;
            &&& after.scores[address] <= state.config->0.max_score
            &&& after.scores[address] == after.profiles[address].score
        }),
        ({
            let after = reputation_score::credential_outcome(
                state,
                address,
                up,
                credential_type,
                now,
            ).0;
            &&& after.scores[address] <= state.config->0.max_score
            &&& after.scores[address] == after.profiles[address].score
        }),
{
}

/// For an address whose working score is its published score and is not above
/// the highest score, the result of an update is the new published score, which
/// the profile and the newest entry of the history have too, and the working
/// score stays the published score.
pub proof fn law_result_is_the_published_score(
    state: ReputationState,
    now: u64,
    address: Seq<u8>,
    success: bool,
    amount: i128,
    valid: bool,
    credential_type: Seq<u8>,
)
    requires
        state.config is Some,
        state.profiles.contains_key(address),
        state.working_score(address) == state.profiles[address].score,
        state.working_score(address) <= state.config->0.max_score,
    ensures
        ({
            let (after, score) = reputation_score::transaction_outcome(
                state,
                address,
                success,
                amount,
                now,
            );
            score_everywhere(after, address, score->Ok_0) && score is Ok
        }),
        ({
            let (after, score) = reputation_score::credential_outcome(
                state,
                address,
                valid,
                credential_type,
                now,
            );
            score_everywhere(after, address, score->Ok_0) && score is Ok
        }),
{
}

/// The address has this score wherever the ledger tells of it, and it is not
/// above the highest score.
pub open spec fn score_everywhere(state: ReputationState, address: Seq<u8>, score: u32) -> bool {
    &&& state.scores[address] == score
    &&& state.profiles[address].score == score
    &&& state.working_score(address) == score
    &&& state.history(address).last().score == score
    &&& score <= state.config->0.max_score
}

/// Where the working score of an address is its published score and the result of
/// an update is not above the highest score, the two stay the same.
pub proof fn law_scores_agree_below_the_cap(
    state: ReputationState,
    now: u64,
    address: Seq<u8>,
    success: bool,
    amount: i128,
    valid: bool,
    credential_type: Seq<u8>,
)
    requires
        state.config is Some,
        state.profiles.contains_key(address),
        state.working_score(address) == state.profiles[address].score,
    ensures
        ({
            let (after, score) = reputation_score::transaction_outcome(
                state,
                address,
                success,
                amount,
                now,
            );
            score->Ok_0 <= state.config->0.max_score ==> after.scores[address] == score->Ok_0
                && after.working_score(address) == after.profiles[address].score
        }),
        ({
            let (after, score) = reputation_score::credential_outcome(
                state,
                address,
                valid,
                credential_type,
                now,
            );
            score->Ok_0 <= state.config->0.max_score ==> after.scores[address] == score->Ok_0
                && after.working_score(address) == after.profiles[address].score
        }),
{
}

/// A success or a valid credential never lowers the working score; a failure or
/// an invalid credential never raises either score.
pub proof fn law_events_move_scores_their_way(
    state: ReputationState,
    now: u64,
    address: Seq<u8>,
    up: bool,
    amount: i128,
    credential_type: Seq<u8>,
)
    requires
        state.config is Some,
        state.profiles.contains_key(address),
    ensures
        ({
            let (after, score) = reputation_score::transaction_outcome(
                state,
                address,
                up,
                amount,
                now,
            );
            &&& up ==> score->Ok_0 >= state.working_score(address)
            &&& !up ==> score->Ok_0 <= state.working_score(address)
            &&& !up ==> after.profiles[address].score <= state.profiles[address].score
        }),
        ({
            let (after, score) = reputation_score::credential_outcome(
                state,
                address,
                up,
                credential_type,
                now,
            );
            &&& up ==> score->Ok_0 >= state.working_score(address)
            &&& !up ==> score->Ok_0 <= state.working_score(address)
            &&& !up ==> after.profiles[address].score <= state.profiles[address].score
        }),
{
}

/// Taking up an address again changes nothing.
pub proof fn law_take_up_is_idempotent(
    state: ReputationState,
    address: Seq<u8>,
    now: u64,
    later: u64,
)
    ensures
        reputation_score::take_up_outcome(
            reputation_score::take_up_outcome(state, address, now),
            address,
            later,
        ) == reputation_score::take_up_outcome(state, address, now),
{
}

/// An address that was just taken up has the base score, in points and as its
/// working score, on a sound ledger.
pub proof fn law_take_up_gives_the_base_score(state: ReputationState, address: Seq<u8>, now: u64)
    requires
        sound(state),
        !state.scores.contains_key(address),
    ensures
        ({
            let after = reputation_score::take_up_outcome(state, address, now);
            &&& after.scores[address] == BASE_SCORE
            &&& after.profiles[address].score == BASE_SCORE
            &&& after.working_score(address) == BASE_SCORE
            &&& after.population == state.population.push(address)
        }),
{
    if state.profiles.contains_key(address) {
        assert(profile_sound(state, address));
    }
}

/// What is done for one address leaves the scores, the profile and the history
/// of every other address as they were.
pub proof fn law_addresses_do_not_interfere(
    state: ReputationState,
    now: u64,
    address: Seq<u8>,
    other: Seq<u8>,
    up: bool,
    amount: i128,
    credential_type: Seq<u8>,
)
    requires
        address != other,
    ensures
        same_standing(
            state,
            reputation_score::transaction_outcome(state, address, up, amount, now).0,
            other,
        ),
        same_standing(
            state,
            reputation_score::credential_outcome(state, address, up, credential_type, now).0,
            other,
        ),
        same_standing(state, reputation_score::take_up_outcome(state, address, now), other),
{
}

/// The address stands on both ledgers the same.
pub open spec fn same_standing(
    before: ReputationState,
    after: ReputationState,
    address: Seq<u8>,
) -> bool {
    &&& before.profiles.contains_key(address) <==> after.profiles.contains_key(address)
    &&& before.profiles[address] == after.profiles[address]
    &&& before.scores.contains_key(address) <==> after.scores.contains_key(address)
    &&& before.scores[address] == after.scores[address]
    &&& before.working.contains_key(address) <==> after.working.contains_key(address)
    &&& before.working[address] == after.working[address]
    &&& before.history(address) == after.history(address)
}

/// Cutting off a history at every entry keeps the same entries as cutting it
/// off at the end: a history is the latest part of all that was ever entered.
pub proof fn law_history_keeps_the_latest(all: Seq<HistoryModel>, entry: HistoryModel)
    ensures
        reputation_score::last_items(
            reputation_score::last_items(all, MAX_HISTORY_POINTS as nat).push(entry),
            MAX_HISTORY_POINTS as nat,
        ) == reputation_score::last_items(all.push(entry), MAX_HISTORY_POINTS as nat),
{
    let n = MAX_HISTORY_POINTS as nat;
    assert(reputation_score::last_items(
        reputation_score::last_items(all, n).push(entry),
        n,
    ) =~= reputation_score::last_items(all.push(entry), n));
}

proof fn lemma_count_all(
    profiles: Map<Seq<u8>, ReputationData>,
    addresses: Seq<Seq<u8>>,
    score: u32,
)
    requires
        forall|i: int|
            0 <= i < addresses.len() ==> profiles.contains_key(#[trigger] addresses[i])
                && profiles[addresses[i]].score <= score,
    ensures
        reputation_score::count_up_to(profiles, addresses, score) == addresses.len(),
    decreases addresses.len(),
{
    if addresses.len() > 0 {
        assert forall|i: int| 0 <= i < addresses.drop_last().len() implies profiles.contains_key(
            #[trigger] addresses.drop_last()[i],
        ) && profiles[addresses.drop_last()[i]].score <= score by {
            assert(addresses.drop_last()[i] == addresses[i]);
        }
        lemma_count_all(profiles, addresses.drop_last(), score);
        assert(addresses.last() == addresses[addresses.len() - 1]);
    }
}

/// A percentile is at most a hundred, and no lower for a higher score.
pub proof fn law_percentile_is_ordered(state: ReputationState, low: u32, high: u32)
    requires
        low <= high,
    ensures
        state.percentile(low) <= state.percentile(high) <= 100,
{
    let n = state.population.len();
    if n > 0 {
        reputation_score::lemma_count_bounds(state.profiles, state.population, low, high);
        let a = reputation_score::count_up_to(state.profiles, state.population, low);
        let b = reputation_score::count_up_to(state.profiles, state.population, high);
        assert(a * 100 / n <= b * 100 / n <= 100) by (nonlinear_arith)
            requires
                a <= b <= n,
                n > 0,
        ;
    }
}

/// On a sound ledger, an address that nobody outscores is in the hundredth
/// percentile.
pub proof fn law_top_score_has_top_percentile(state: ReputationState, address: Seq<u8>)
    requires
        sound(state),
        state.profiles.contains_key(address),
        forall|other: Seq<u8>| #[trigger]
            state.profiles.contains_key(other) ==> state.profiles[other].score
                <= state.profiles[address].score,
    ensures
        state.percentile(state.profiles[address].score) == 100,
{
    assert(profile_sound(state, address));
    let score = state.profiles[address].score;
    let n = state.population.len();
    lemma_count_all(state.profiles, state.population, score);
    assert(n * 100 / n == 100) by (nonlinear_arith)
        requires
            n > 0,
    ;
}

} // verus!
