//! What each operation of the reputation ledger does to every part of the
//! ledger, and what it answers.

use vstd::prelude::*;

use crate::credential_effects;
use crate::reputation::{
    AttestationModel, Config, HistoryModel, ReputationData, ReputationScoreError,
};
use crate::reputation_score;
use crate::reputation_store::ReputationState;

verus! {

/// The smaller of two numbers.
pub open spec fn smaller(a: int, b: int) -> int {
    if a <= b {
        a
    } else {
        b
    }
}

/// The larger of two numbers.
pub open spec fn larger(a: int, b: int) -> int {
    if a >= b {
        a
    } else {
        b
    }
}

/// The size of an amount.
pub open spec fn size(amount: int) -> int {
    larger(amount, -amount)
}

/// An address has one more entry at the end of its history, of which the latest
/// hundred and twenty are kept in order; every other history is as it was.
pub open spec fn entered_in_history(
    before: Map<Seq<u8>, Seq<HistoryModel>>,
    after: Map<Seq<u8>, Seq<HistoryModel>>,
    address: Seq<u8>,
    timestamp: u64,
    score: int,
    event: Seq<u8>,
) -> bool {
    let earlier = if before.contains_key(address) {
        before[address]
    } else {
        Seq::empty()
    };
    let now = after[address];
    let cut = earlier.len() + 1 - now.len();
    &&& after.contains_key(address)
    &&& now.len() == smaller(earlier.len() as int + 1, 120)
    &&& now.last().timestamp == timestamp
    &&& now.last().score == score
    &&& now.last().event == event
    &&& forall|i: int| 0 <= i < now.len() - 1 ==> #[trigger] now[i] == earlier[cut + i]
    &&& credential_effects::same_but_for(before, after, address)
}

/// The address, and no other, has this published score, which its profile has
/// too, and this working score.
pub open spec fn scored(
    before: ReputationState,
    after: ReputationState,
    address: Seq<u8>,
    published: int,
    working: int,
) -> bool {
    &&& after.scores.contains_key(address)
    &&& after.scores[address] == published
    &&& credential_effects::same_but_for(before.scores, after.scores, address)
    &&& after.profiles.contains_key(address)
    &&& after.profiles[address].score == published
    &&& credential_effects::same_but_for(before.profiles, after.profiles, address)
    &&& after.working.contains_key(address)
    &&& after.working[address] == working
    &&& credential_effects::same_but_for(before.working, after.working, address)
    &&& after.admin == before.admin
    &&& after.config == before.config
    &&& after.trust == before.trust
    &&& after.population == before.population
}

/// Where a score comes to when it goes up by `gain` or down by `loss`: not below
/// zero and not above the highest score.
pub open spec fn within_the_cap(score: int, up: bool, gain: int, loss: int, highest: int) -> int {
    smaller(
        if up {
            score + gain
        } else {
            larger(score - loss, 0)
        },
        highest,
    )
}

/// Where a working score comes to: one that is not above the highest score stays
/// within it, and one that is above moves within the range of scores.
pub open spec fn freed_above_the_cap(
    working: int,
    up: bool,
    gain: int,
    loss: int,
    highest: int,
) -> int {
    if working <= highest {
        within_the_cap(working, up, gain, loss, highest)
    } else {
        within_the_cap(working, up, gain, loss, u32::MAX as int)
    }
}

/// Counting a transaction of an address without a profile is an error and changes
/// nothing. Otherwise the score goes up by the weight of a success or down by that
/// of a failure, the counters and the volume grow, the time is noted, and the
/// history has one more entry.
pub proof fn law_transactions_move_the_score(
    state: ReputationState,
    address: Seq<u8>,
    success: bool,
    amount: i128,
    now: u64,
)
    requires
        state.config is Some,
        state.profiles.contains_key(address) ==> reputation_score::transaction_countable(
            state.profiles[address],
            success,
        ),
    ensures
        ({
            let (after, result) = reputation_score::transaction_outcome(
                state,
                address,
                success,
                amount,
                now,
            );
            let config = state.config->0;
            let old_profile = state.profiles[address];
            let profile = after.profiles[address];
            let working = if state.working.contains_key(address) {
                state.working[address]
            } else {
                old_profile.score
            };
            let gain = config.transaction_success_weight as int;
            let loss = config.transaction_failure_weight as int;
            let highest = config.max_score as int;
            let published = within_the_cap(old_profile.score as int, success, gain, loss, highest);
            let returned = freed_above_the_cap(working as int, success, gain, loss, highest);
            if !state.profiles.contains_key(address) {
                result == Err::<u32, ReputationScoreError>(ReputationScoreError::NotInitialized)
                    && after == state
            } else {
                &&& result is Ok
                &&& result->Ok_0 == returned
                &&& scored(state, after, address, published, returned)
                &&& profile.total_transactions == old_profile.total_transactions + 1
                &&& profile.successful_transactions == old_profile.successful_transactions
                    + if success {
                    1int
                } else {
                    0
                }
                &&& profile.failed_transactions == old_profile.failed_transactions + if success {
                    0int
                } else {
                    1
                }
                &&& profile.total_credentials == old_profile.total_credentials
                &&& profile.valid_credentials == old_profile.valid_credentials
                &&& profile.invalid_credentials == old_profile.invalid_credentials
                &&& profile.last_updated == now
                &&& profile.volume == smaller(
                    old_profile.volume + size(amount as int) % 0x1_0000_0000_0000_0000,
                    u64::MAX as int,
                )
                &&& entered_in_history(
                    state.histories,
                    after.histories,
                    address,
                    now,
                    published,
                    if success {
                        seq![116u8, 120u8, 95u8, 115u8, 117u8, 99u8, 99u8, 101u8, 115u8, 115u8]
                    } else {
                        seq![116u8, 120u8, 95u8, 102u8, 97u8, 105u8, 108u8, 117u8, 114u8, 101u8]
                    },
                )
            }
        }),
{
}

/// Counting a credential of an address without a profile is an error and changes
/// nothing. Otherwise the score goes up by the weight of a valid credential or
/// down by that of an invalid one, the counters grow, the time is noted, and the
/// history has one more entry, which names the type of the credential.
pub proof fn law_credentials_move_the_score(
    state: ReputationState,
    address: Seq<u8>,
    valid: bool,
    credential_type: Seq<u8>,
    now: u64,
)
    requires
        state.config is Some,
        state.profiles.contains_key(address) ==> reputation_score::credential_countable(
            state.profiles[address],
            valid,
        ),
    ensures
        ({
            let (after, result) = reputation_score::credential_outcome(
                state,
                address,
                valid,
                credential_type,
                now,
            );
            let config = state.config->0;
            let old_profile = state.profiles[address];
            let profile = after.profiles[address];
            let working = if state.working.contains_key(address) {
                state.working[address]
            } else {
                old_profile.score
            };
            let gain = config.credential_valid_weight as int;
            let loss = config.credential_invalid_weight as int;
            let highest = config.max_score as int;
            let published = within_the_cap(old_profile.score as int, valid, gain, loss, highest);
            let returned = freed_above_the_cap(working as int, valid, gain, loss, highest);
            if !state.profiles.contains_key(address) {
                result == Err::<u32, ReputationScoreError>(ReputationScoreError::NotInitialized)
                    && after == state
            } else {
                &&& result is Ok
                &&& result->Ok_0 == returned
                &&& scored(state, after, address, published, returned)
                &&& profile.total_transactions == old_profile.total_transactions
                &&& profile.successful_transactions == old_profile.successful_transactions
                &&& profile.failed_transactions == old_profile.failed_transactions
                &&& profile.total_credentials == old_profile.total_credentials + 1
                &&& profile.valid_credentials == old_profile.valid_credentials + if valid {
                    1int
                } else {
                    0
                }
                &&& profile.invalid_credentials == old_profile.invalid_credentials + if valid {
                    0int
                } else {
                    1
                }
                &&& profile.last_updated == now
                &&& profile.volume == old_profile.volume
                &&& entered_in_history(
                    state.histories,
                    after.histories,
                    address,
                    now,
                    published,
                    credential_type,
                )
            }
        }),
{
}

/// An address whose working score is its published score `s`, not above the
/// highest score, comes to `min(s + gain, highest)` or `max(s - loss, 0)`, on
/// record and as the result, and no other weight of the configuration matters.
pub proof fn law_only_the_weight_of_the_event_matters(
    state: ReputationState,
    other: Config,
    address: Seq<u8>,
    up: bool,
    amount: i128,
    credential_type: Seq<u8>,
    now: u64,
)
    requires
        state.config is Some,
        state.profiles.contains_key(address),
        state.working.contains_key(address) ==> state.working[address]
            == state.profiles[address].score,
        state.profiles[address].score <= state.config->0.max_score,
        other.max_score == state.config->0.max_score,
    ensures
        ({
            let s = state.profiles[address].score as int;
            let config = state.config->0;
            let elsewhere = ReputationState { config: Some(other), ..state };
            let (after, result) = reputation_score::transaction_outcome(
                state,
                address,
                up,
                amount,
                now,
            );
            let came_to = if up {
                smaller(s + config.transaction_success_weight, config.max_score as int)
            } else {
                larger(s - config.transaction_failure_weight, 0)
            };
            &&& result is Ok
            &&& result->Ok_0 == came_to
            &&& after.scores[address] == came_to
            &&& after.profiles[address].score == came_to
            &&& (up ==> other.transaction_success_weight == config.transaction_success_weight)
                && (!up ==> other.transaction_failure_weight == config.transaction_failure_weight)
                ==> reputation_score::transaction_outcome(
                elsewhere,
                address,
                up,
                amount,
                now,
            ).1 == result
        }),
        ({
            let s = state.profiles[address].score as int;
            let config = state.config->0;
            let elsewhere = ReputationState { config: Some(other), ..state };
            let (after, result) = reputation_score::credential_outcome(
                state,
                address,
                up,
                credential_type,
                now,
            );
            let came_to = if up {
                smaller(s + config.credential_valid_weight, config.max_score as int)
            } else {
                larger(s - config.credential_invalid_weight, 0)
            };
            &&& result is Ok
            &&& result->Ok_0 == came_to
            &&& after.scores[address] == came_to
            &&& after.profiles[address].score == came_to
            &&& (up ==> other.credential_valid_weight == config.credential_valid_weight) && (!up
                ==> other.credential_invalid_weight == config.credential_invalid_weight)
                ==> reputation_score::credential_outcome(
                elsewhere,
                address,
                up,
                credential_type,
                now,
            ).1 == result
        }),
{
}

/// An address with a published score is not taken up again. Any other gets a
/// profile with eight hundred as its score and nothing counted, the same
/// published score, and the last place in the population; nothing else changes.
pub proof fn law_taking_up_gives_a_profile(state: ReputationState, address: Seq<u8>, now: u64)
    ensures
        ({
            let after = reputation_score::take_up_outcome(state, address, now);
            let profile = after.profiles[address];
            if state.scores.contains_key(address) {
                after == state
            } else {
                &&& after.profiles.contains_key(address)
                &&& profile.score == 800
                &&& profile.total_transactions == 0
                &&& profile.successful_transactions == 0
                &&& profile.failed_transactions == 0
                &&& profile.total_credentials == 0
                &&& profile.valid_credentials == 0
                &&& profile.invalid_credentials == 0
                &&& profile.last_updated == now
                &&& profile.volume == 0
                &&& credential_effects::same_but_for(state.profiles, after.profiles, address)
                &&& after.scores.contains_key(address)
                &&& after.scores[address] == 800
                &&& credential_effects::same_but_for(state.scores, after.scores, address)
                &&& after.population == state.population.push(address)
                &&& after.admin == state.admin
                &&& after.config == state.config
                &&& after.working == state.working
                &&& after.histories == state.histories
                &&& after.trust == state.trust
            }
        }),
{
}

/// An attestation with a weight above a thousand is an error and changes nothing.
/// Any other is the result and stands last among those for its subject; nothing
/// else changes.
pub proof fn law_attestations_are_put_last(state: ReputationState, attestation: AttestationModel)
    ensures
        ({
            let (after, result) = reputation_score::attestation_outcome(state, attestation);
            let subject = attestation.subject;
            if attestation.weight > 1000 {
                result == Err::<AttestationModel, ReputationScoreError>(
                    ReputationScoreError::InvalidScore,
                ) && after == state
            } else {
                &&& result == Ok::<AttestationModel, ReputationScoreError>(attestation)
                &&& after.trust.contains_key(subject)
                &&& after.trust[subject].len() == 1 + if state.trust.contains_key(subject) {
                    state.trust[subject].len() as int
                } else {
                    0
                }
                &&& after.trust[subject].last() == attestation
                &&& state.trust.contains_key(subject) ==> after.trust[subject].drop_last()
                    == state.trust[subject]
                &&& credential_effects::same_but_for(state.trust, after.trust, subject)
                &&& after.admin == state.admin
                &&& after.config == state.config
                &&& after.scores == state.scores
                &&& after.profiles == state.profiles
                &&& after.working == state.working
                &&& after.histories == state.histories
                &&& after.population == state.population
            }
        }),
{
    let (after, result) = reputation_score::attestation_outcome(state, attestation);
    if state.trust.contains_key(attestation.subject) && attestation.weight <= 1000 {
        assert(after.trust[attestation.subject].drop_last() =~= state.trust[attestation.subject]);
    }
}

/// The history and the attestations of an address are those on record, and empty
/// where there are none; its working score is the one on record, and the score of
/// its profile where there is none.
pub proof fn law_records_are_found(state: ReputationState, address: Seq<u8>)
    ensures
        state.histories.contains_key(address) ==> state.history(address) == state.histories[address],
        !state.histories.contains_key(address) ==> state.history(address).len() == 0,
        state.trust.contains_key(address) ==> state.attestations(address) == state.trust[address],
        !state.trust.contains_key(address) ==> state.attestations(address).len() == 0,
        state.working.contains_key(address) ==> state.working_score(address)
            == state.working[address],
        !state.working.contains_key(address) ==> state.working_score(address)
            == state.profiles[address].score,
{
}

/// The last `n` items of a list are its end: as many as asked for, or all where
/// there are fewer, in order.
pub proof fn law_last_items_are_the_end<T>(items: Seq<T>, n: nat)
    ensures
        ({
            let last = reputation_score::last_items(items, n);
            &&& last.len() == smaller(items.len() as int, n as int)
            &&& forall|i: int|
                0 <= i < last.len() ==> #[trigger] last[i] == items[items.len() - last.len() + i]
        }),
{
}

/// A score reaches a threshold exactly where it has ten times as many units; for
/// an address without a profile the question is an error.
pub proof fn law_thresholds_are_in_points(state: ReputationState, address: Seq<u8>, threshold: u32)
    ensures
        ({
            let met = reputation_score::threshold_verdict(state, address, threshold);
            if state.profiles.contains_key(address) {
                met == Ok::<bool, ReputationScoreError>(
                    state.profiles[address].score >= 10 * threshold,
                )
            } else {
                met == Err::<bool, ReputationScoreError>(ReputationScoreError::NotInitialized)
            }
        }),
{
}

/// The places in a list at which stands an address that has a profile with a score
/// of at most `score`.
pub open spec fn places_at_most(
    profiles: Map<Seq<u8>, ReputationData>,
    addresses: Seq<Seq<u8>>,
    score: u32,
) -> Set<int> {
    Set::new(
        |i: int|
            0 <= i < addresses.len() && profiles.contains_key(addresses[i])
                && profiles[addresses[i]].score <= score,
    )
}

/// The count behind a percentile is the number of places at which stands an
/// address with a profile and a score of at most the given one.
pub proof fn law_counts_are_numbers_of_places(
    profiles: Map<Seq<u8>, ReputationData>,
    addresses: Seq<Seq<u8>>,
    score: u32,
)
    ensures
        places_at_most(profiles, addresses, score).finite(),
        reputation_score::count_up_to(profiles, addresses, score) == places_at_most(
            profiles,
            addresses,
            score,
        ).len(),
    decreases addresses.len(),
{
    let places = places_at_most(profiles, addresses, score);
    if addresses.len() == 0 {
        assert(places =~= Set::<int>::empty());
    } else {
        let fewer = places_at_most(profiles, addresses.drop_last(), score);
        let last = addresses.len() - 1;
        law_counts_are_numbers_of_places(profiles, addresses.drop_last(), score);
        assert(!fewer.contains(last));
        if profiles.contains_key(addresses.last()) && profiles[addresses.last()].score <= score {
            assert(places =~= fewer.insert(last));
        } else {
            assert(places =~= fewer);
        }
    }
}

/// A percentile is zero where there is no population. Otherwise it is the share,
/// in hundredths and rounded down, of the places in the population at which stands
/// an address with a profile and a score of at most the given one. It can be asked
/// for where a hundred times the number of these places is within the range of
/// numbers.
pub proof fn law_percentiles_are_shares(state: ReputationState, score: u32, address: Seq<u8>)
    ensures
        ({
            let places = places_at_most(state.profiles, state.population, score).len();
            let everyone = state.population.len();
            let share = state.percentile(score);
            &&& everyone == 0 ==> share == 0
            &&& everyone > 0 ==> share * everyone <= 100 * places
            &&& everyone > 0 ==> 100 * places < (share + 1) * everyone
        }),
        reputation_score::percentile_countable(state, address) <==> (state.profiles.contains_key(
            address,
        ) ==> state.population.len() <= u32::MAX && 100 * places_at_most(
            state.profiles,
            state.population,
            state.profiles[address].score,
        ).len() <= u32::MAX),
{
    law_counts_are_numbers_of_places(state.profiles, state.population, score);
    law_counts_are_numbers_of_places(
        state.profiles,
        state.population,
        state.profiles[address].score,
    );
    let n = state.population.len();
    let c = reputation_score::count_up_to(state.profiles, state.population, score);
    if n > 0 {
        assert((c * 100 / n) * n <= 100 * c < (c * 100 / n + 1) * n) by (nonlinear_arith)
            requires
                n > 0,
        ;
    }
}

} // verus!
