//! What holds of the reputation ledger over any number of operations.

use vstd::prelude::*;

use crate::reputation::{AttestationModel, HistoryModel};
use crate::reputation_laws;
use crate::reputation_laws::Operation;
use crate::reputation_score;
use crate::reputation_score::{BASE_SCORE, MAX_HISTORY_POINTS, MAX_TRUST_WEIGHT};
use crate::reputation_store::ReputationState;

verus! {

/// The ledger after a number of operations, each at its time.
pub open spec fn run(state: ReputationState, steps: Seq<(u64, Operation)>) -> ReputationState
    decreases steps.len(),
{
    if steps.len() == 0 {
        state
    } else {
        reputation_laws::perform(run(state, steps.drop_last()), steps.last().0, steps.last().1)
    }
}

/// Each operation is one that can be asked for when its turn comes.
pub open spec fn run_possible(state: ReputationState, steps: Seq<(u64, Operation)>) -> bool
    decreases steps.len(),
{
    steps.len() > 0 ==> {
        &&& run_possible(state, steps.drop_last())
        &&& reputation_laws::possible(run(state, steps.drop_last()), steps.last().1)
    }
}

/// The working score of every address is its published score, which is the base
/// score until the ledger is set up and not above the highest score from then on.
pub open spec fn scores_at_one(state: ReputationState) -> bool {
    forall|a: Seq<u8>| #[trigger]
        state.profiles.contains_key(a) ==> {
            &&& state.working_score(a) == state.profiles[a].score
            &&& state.config is None ==> state.profiles[a].score == BASE_SCORE
            &&& state.config is Some ==> state.profiles[a].score <= state.config->0.max_score
        }
}

/// On a ledger whose highest score is not below the base score, the result of an
/// update is always the published score: whatever has happened there, the
/// working score of every address is its published score and not above the
/// highest score.
pub proof fn law_scores_never_part(steps: Seq<(u64, Operation)>)
    requires
        run_possible(ReputationState::empty(), steps),
        ({
            let config = run(ReputationState::empty(), steps).config;
            config is Some ==> config->0.max_score >= BASE_SCORE
        }),
    ensures
        scores_at_one(run(ReputationState::empty(), steps)),
    decreases steps.len(),
{
    if steps.len() > 0 {
        let before = run(ReputationState::empty(), steps.drop_last());
        let after = run(ReputationState::empty(), steps);
        law_every_ledger_is_sound(steps.drop_last());
        law_scores_never_part(steps.drop_last());
        assert forall|a: Seq<u8>| #[trigger] after.profiles.contains_key(a) implies {
            &&& after.working_score(a) == after.profiles[a].score
            &&& after.config is None ==> after.profiles[a].score == BASE_SCORE
            &&& after.config is Some ==> after.profiles[a].score <= after.config->0.max_score
        } by {
            if before.profiles.contains_key(a) {
                assert(reputation_laws::profile_sound(before, a));
            }
        }
    }
}

/// Whatever has happened on a ledger, it is sound.
pub proof fn law_every_ledger_is_sound(steps: Seq<(u64, Operation)>)
    requires
        run_possible(ReputationState::empty(), steps),
    ensures
        reputation_laws::sound(run(ReputationState::empty(), steps)),
    decreases steps.len(),
{
    if steps.len() == 0 {
        reputation_laws::law_empty_is_sound();
    } else {
        law_every_ledger_is_sound(steps.drop_last());
        reputation_laws::law_operations_keep_soundness(
            run(ReputationState::empty(), steps.drop_last()),
            steps.last().0,
            steps.last().1,
        );
    }
}

/// What an operation adds to the history of an address, before anything is cut
/// off: one entry where it counts an event of the address, and nothing otherwise.
pub open spec fn logged(
    state: ReputationState,
    now: u64,
    operation: Operation,
    address: Seq<u8>,
) -> Seq<HistoryModel> {
    let score = reputation_laws::perform(state, now, operation).scores[address];
    match operation {
        Operation::CountTransaction { address: a, success, .. } => if a == address
            && state.profiles.contains_key(a) {
            seq![
                HistoryModel {
                    timestamp: now,
                    score,
                    event: reputation_score::transaction_text(success),
                },
            ]
        } else {
            Seq::empty()
        },
        Operation::CountCredential { address: a, credential_type, .. } => if a == address
            && state.profiles.contains_key(a) {
            seq![HistoryModel { timestamp: now, score, event: credential_type }]
        } else {
            Seq::empty()
        },
        _ => Seq::empty(),
    }
}

/// Everything that the operations add to the history of an address, in order.
pub open spec fn all_logged(
    state: ReputationState,
    steps: Seq<(u64, Operation)>,
    address: Seq<u8>,
) -> Seq<HistoryModel>
    decreases steps.len(),
{
    if steps.len() == 0 {
        Seq::empty()
    } else {
        all_logged(state, steps.drop_last(), address) + logged(
            run(state, steps.drop_last()),
            steps.last().0,
            steps.last().1,
            address,
        )
    }
}

/// Whatever has happened on a ledger, the history of an address is the latest
/// part of all the events that were counted for it, in order.
pub proof fn law_histories_hold_the_latest_events(
    steps: Seq<(u64, Operation)>,
    address: Seq<u8>,
)
    ensures
        run(ReputationState::empty(), steps).history(address) == reputation_score::last_items(
            all_logged(ReputationState::empty(), steps, address),
            MAX_HISTORY_POINTS as nat,
        ),
    decreases steps.len(),
{
    if steps.len() > 0 {
        law_histories_hold_the_latest_events(steps.drop_last(), address);
        let before = run(ReputationState::empty(), steps.drop_last());
        let (now, operation) = steps.last();
        let all = all_logged(ReputationState::empty(), steps.drop_last(), address);
        let new = logged(before, now, operation, address);
        if new.len() == 0 {
            assert(all + new =~= all);
        } else {
            reputation_laws::law_history_keeps_the_latest(all, new[0]);
            assert(all + new =~= all.push(new[0]));
        }
    }
}

/// What an operation adds to the attestations for an address.
pub open spec fn attested(operation: Operation, subject: Seq<u8>) -> Seq<AttestationModel> {
    match operation {
        Operation::Attest { attestation } => if attestation.subject == subject
            && attestation.weight <= MAX_TRUST_WEIGHT {
            seq![attestation]
        } else {
            Seq::empty()
        },
        _ => Seq::empty(),
    }
}

/// All the attestations for an address that the operations make, in order.
pub open spec fn all_attested(
    steps: Seq<(u64, Operation)>,
    subject: Seq<u8>,
) -> Seq<AttestationModel>
    decreases steps.len(),
{
    if steps.len() == 0 {
        Seq::empty()
    } else {
        all_attested(steps.drop_last(), subject) + attested(steps.last().1, subject)
    }
}

/// Whatever happens, the attestations for an address are those that there were,
/// followed by those that were made, in order.
pub proof fn law_attestations_are_kept(
    state: ReputationState,
    steps: Seq<(u64, Operation)>,
    subject: Seq<u8>,
)
    ensures
        run(state, steps).attestations(subject) == state.attestations(subject) + all_attested(
            steps,
            subject,
        ),
    decreases steps.len(),
{
    let before = state.attestations(subject);
    if steps.len() == 0 {
        assert(before + Seq::<AttestationModel>::empty() =~= before);
    } else {
        law_attestations_are_kept(state, steps.drop_last(), subject);
        let earlier = all_attested(steps.drop_last(), subject);
        let new = attested(steps.last().1, subject);
        assert(before + (earlier + new) =~= (before + earlier) + new);
        if new.len() == 0 {
            assert((before + earlier) + new =~= before + earlier);
        } else {
            assert((before + earlier) + new =~= (before + earlier).push(new[0]));
        }
    }
}

/// How many transactions of an address, successful or failed, were counted.
pub open spec fn transactions_counted(
    state: ReputationState,
    steps: Seq<(u64, Operation)>,
    address: Seq<u8>,
    wanted: bool,
) -> nat
    decreases steps.len(),
{
    if steps.len() == 0 {
        0
    } else {
        transactions_counted(state, steps.drop_last(), address, wanted) + match steps.last().1 {
            Operation::CountTransaction { address: a, success, .. } => if a == address && success
                == wanted && run(state, steps.drop_last()).profiles.contains_key(a) {
                1
            } else {
                0nat
            },
            _ => 0,
        }
    }
}

/// How many credentials of an address, valid or invalid, were counted.
pub open spec fn credentials_counted(
    state: ReputationState,
    steps: Seq<(u64, Operation)>,
    address: Seq<u8>,
    wanted: bool,
) -> nat
    decreases steps.len(),
{
    if steps.len() == 0 {
        0
    } else {
        credentials_counted(state, steps.drop_last(), address, wanted) + match steps.last().1 {
            Operation::CountCredential { address: a, valid, .. } => if a == address && valid
                == wanted && run(state, steps.drop_last()).profiles.contains_key(a) {
                1
            } else {
                0nat
            },
            _ => 0,
        }
    }
}

/// Whatever has happened on a ledger, the counters in the profile of an address
/// are the numbers of its transactions and credentials that were counted. Nothing
/// is counted for an address without a profile.
pub proof fn law_counters_count_the_events(steps: Seq<(u64, Operation)>, address: Seq<u8>)
    requires
        run_possible(ReputationState::empty(), steps),
    ensures
        ({
            let start = ReputationState::empty();
            let after = run(start, steps);
            let profile = after.profiles[address];
            let successes = transactions_counted(start, steps, address, true);
            let failures = transactions_counted(start, steps, address, false);
            let valid = credentials_counted(start, steps, address, true);
            let invalid = credentials_counted(start, steps, address, false);
            if after.profiles.contains_key(address) {
                &&& profile.successful_transactions == successes
                &&& profile.failed_transactions == failures
                &&& profile.total_transactions == successes + failures
                &&& profile.valid_credentials == valid
                &&& profile.invalid_credentials == invalid
                &&& profile.total_credentials == valid + invalid
            } else {
                successes + failures + valid + invalid == 0
            }
        }),
    decreases steps.len(),
{
    if steps.len() > 0 {
        let before = run(ReputationState::empty(), steps.drop_last());
        law_every_ledger_is_sound(steps.drop_last());
        law_counters_count_the_events(steps.drop_last(), address);
        if before.profiles.contains_key(address) {
            assert(reputation_laws::profile_sound(before, address));
        }
    }
}

/// The addresses that the operations ask to take up, each where it is first asked
/// for, in order.
pub open spec fn first_asked(steps: Seq<(u64, Operation)>) -> Seq<Seq<u8>>
    decreases steps.len(),
{
    if steps.len() == 0 {
        Seq::empty()
    } else {
        let earlier = first_asked(steps.drop_last());
        match steps.last().1 {
            Operation::TakeUp { address } => if earlier.contains(address) {
                earlier
            } else {
                earlier.push(address)
            },
            _ => earlier,
        }
    }
}

/// Whatever has happened on a ledger, its population is the addresses that were
/// asked to be taken up, in the order in which they were first asked for.
pub proof fn law_population_is_in_order(steps: Seq<(u64, Operation)>)
    requires
        run_possible(ReputationState::empty(), steps),
    ensures
        run(ReputationState::empty(), steps).population == first_asked(steps),
    decreases steps.len(),
{
    if steps.len() > 0 {
        let before = run(ReputationState::empty(), steps.drop_last());
        law_every_ledger_is_sound(steps.drop_last());
        law_population_is_in_order(steps.drop_last());
        match steps.last().1 {
            Operation::TakeUp { address } => {
                if before.scores.contains_key(address) {
                    assert(reputation_laws::profile_sound(before, address));
                } else if before.population.contains(address) {
                    let i = choose|i: int|
                        0 <= i < before.population.len() && before.population[i] == address;
                    assert(before.profiles.contains_key(before.population[i]));
                    assert(reputation_laws::profile_sound(before, address));
                }
            },
            _ => {},
        }
    }
}

} // verus!
