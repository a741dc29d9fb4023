//! What holds of the credential ledger over any number of operations.

use vstd::prelude::*;

use crate::credential::{CredentialIssuerError, ProofModel};
use crate::credential_issuer;
use crate::credential_laws;
use crate::credential_soundness;
use crate::credential_soundness::Operation;
use crate::credential_store::CredentialState;
use crate::delegation;
use crate::delegation::DelegationRequest;
use crate::ids;
use crate::ledger::Invocation;
use crate::revocation;

verus! {

/// The ledger after a number of operations, each in the ledger of its call.
pub open spec fn run(
    state: CredentialState,
    steps: Seq<(Invocation, Operation)>,
) -> CredentialState
    decreases steps.len(),
{
    if steps.len() == 0 {
        state
    } else {
        credential_soundness::perform(
            run(state, steps.drop_last()),
            steps.last().0,
            steps.last().1,
        )
    }
}

/// Each operation is one that can be asked for when its turn comes.
pub open spec fn run_possible(
    state: CredentialState,
    steps: Seq<(Invocation, Operation)>,
) -> bool
    decreases steps.len(),
{
    steps.len() > 0 ==> {
        &&& run_possible(state, steps.drop_last())
        &&& credential_soundness::possible(
            run(state, steps.drop_last()),
            steps.last().0,
            steps.last().1,
        )
    }
}

/// Whatever has happened on a ledger, it is sound.
pub proof fn law_every_ledger_is_sound(steps: Seq<(Invocation, Operation)>)
    requires
        run_possible(CredentialState::empty(), steps),
    ensures
        credential_soundness::sound(run(CredentialState::empty(), steps)),
    decreases steps.len(),
{
    if steps.len() == 0 {
        credential_soundness::law_empty_is_sound();
    } else {
        law_every_ledger_is_sound(steps.drop_last());
        credential_soundness::law_operations_keep_soundness(
            run(CredentialState::empty(), steps.drop_last()),
            steps.last().0,
            steps.last().1,
        );
    }
}

/// None of the operations, when its turn comes, issues a credential under the
/// identifier `id`.
pub open spec fn never_issued(
    state: CredentialState,
    steps: Seq<(Invocation, Operation)>,
    id: Seq<u8>,
) -> bool {
    forall|i: int|
        0 <= i < steps.len() ==> !credential_soundness::issues(
            run(state, steps.take(i)),
            (#[trigger] steps[i]).0,
            steps[i].1,
            id,
        )
}

proof fn lemma_never_issued_before(
    state: CredentialState,
    steps: Seq<(Invocation, Operation)>,
    id: Seq<u8>,
)
    requires
        steps.len() > 0,
        never_issued(state, steps, id),
    ensures
        never_issued(state, steps.drop_last(), id),
        !credential_soundness::issues(
            run(state, steps.drop_last()),
            steps.last().0,
            steps.last().1,
            id,
        ),
{
    let earlier = steps.drop_last();
    assert forall|i: int| 0 <= i < earlier.len() implies !credential_soundness::issues(
        run(state, earlier.take(i)),
        (#[trigger] earlier[i]).0,
        earlier[i].1,
        id,
    ) by {
        assert(earlier[i] == steps[i]);
        assert(earlier.take(i) =~= steps.take(i));
    }
    assert(steps.take(steps.len() - 1) =~= earlier);
    assert(steps[steps.len() - 1] == steps.last());
}

/// Operations in other ledgers issue nothing under the identifier of a
/// credential.
pub proof fn law_other_ledgers_issue_under_other_identifiers(
    state: CredentialState,
    steps: Seq<(Invocation, Operation)>,
    timestamp: u64,
    sequence: u32,
)
    requires
        forall|i: int|
            0 <= i < steps.len() ==> ((#[trigger] steps[i]).0.timestamp, steps[i].0.sequence) != (
                timestamp,
                sequence,
            ),
    ensures
        never_issued(state, steps, ids::credential_id(timestamp, sequence)),
{
    assert forall|i: int| 0 <= i < steps.len() implies !credential_soundness::issues(
        run(state, steps.take(i)),
        (#[trigger] steps[i]).0,
        steps[i].1,
        ids::credential_id(timestamp, sequence),
    ) by {
        ids::law_ids_tell_ledgers_apart(
            steps[i].0.timestamp,
            steps[i].0.sequence,
            timestamp,
            sequence,
        );
    }
}

/// Whatever happens, as long as no credential is issued under its identifier, a
/// revoked credential stays revoked, and its contents and the reason and the
/// proof of its revocation stay the same. So verification finds it not valid at
/// any time, its issuer cannot revoke it again, and the evidence that proved its
/// revocation still does.
pub proof fn law_revoked_credential_never_holds_again(
    state: CredentialState,
    steps: Seq<(Invocation, Operation)>,
    id: Seq<u8>,
)
    requires
        state.revoked(id),
        never_issued(state, steps, id),
    ensures
        ({
            let after = run(state, steps);
            &&& after.revoked(id)
            &&& credential_laws::same_record(state, after, id)
            &&& state.credentials.contains_key(id) ==> {
                &&& forall|now: u64|
                    #[trigger] credential_issuer::verification(after, now, id) == Ok::<
                        bool,
                        CredentialIssuerError,
                    >(false)
                &&& forall|now: u64, reason: Option<Seq<u8>>|
                    #[trigger] revocation::revocation_outcome(
                        after,
                        state.credentials[id].issuer,
                        id,
                        now,
                        reason,
                    ) == (
                        after,
                        Err::<(), CredentialIssuerError>(CredentialIssuerError::AlreadyRevoked),
                    )
            }
            &&& forall|evidence: ProofModel|
                #[trigger] revocation::proof_verification(after, id, evidence)
                    == revocation::proof_verification(state, id, evidence)
        }),
    decreases steps.len(),
{
    if steps.len() > 0 {
        lemma_never_issued_before(state, steps, id);
        law_revoked_credential_never_holds_again(state, steps.drop_last(), id);
        credential_laws::law_revocation_is_final(
            run(state, steps.drop_last()),
            steps.last().0,
            steps.last().1,
            id,
        );
    }
}

/// Whatever happens, as long as no credential is issued under its identifier, a
/// known credential stays known and keeps its contents, and an unknown one stays
/// unknown.
pub proof fn law_contents_never_change(
    state: CredentialState,
    steps: Seq<(Invocation, Operation)>,
    id: Seq<u8>,
)
    requires
        never_issued(state, steps, id),
    ensures
        run(state, steps).credentials.contains_key(id) <==> state.credentials.contains_key(id),
        state.credentials.contains_key(id) ==> credential_laws::same_contents(
            state.credentials[id],
            run(state, steps).credentials[id],
        ),
    decreases steps.len(),
{
    if steps.len() > 0 {
        lemma_never_issued_before(state, steps, id);
        law_contents_never_change(state, steps.drop_last(), id);
        credential_laws::law_contents_are_fixed(
            run(state, steps.drop_last()),
            steps.last().0,
            steps.last().1,
            id,
        );
    }
}

/// Whatever happens, as long as no credential is issued under its identifier, a
/// credential that verification did not find valid at one time, be it revoked,
/// expired, without a proof or unknown, is not found valid at any later time, and
/// one found not valid, revoked or expired, is found so ever after.
pub proof fn law_invalid_credential_stays_invalid(
    state: CredentialState,
    steps: Seq<(Invocation, Operation)>,
    id: Seq<u8>,
    now: u64,
    later: u64,
)
    requires
        never_issued(state, steps, id),
        now <= later,
    ensures
        ({
            let first = credential_issuer::verification(state, now, id);
            let second = credential_issuer::verification(run(state, steps), later, id);
            &&& first != Ok::<bool, CredentialIssuerError>(true) ==> second != Ok::<
                bool,
                CredentialIssuerError,
            >(true)
            &&& first == Ok::<bool, CredentialIssuerError>(false) ==> second == Ok::<
                bool,
                CredentialIssuerError,
            >(false)
            &&& first == Err::<bool, CredentialIssuerError>(CredentialIssuerError::NotFound)
                ==> second == Err::<bool, CredentialIssuerError>(CredentialIssuerError::NotFound)
        }),
{
    law_contents_never_change(state, steps, id);
    if state.revoked(id) {
        law_revoked_credential_never_holds_again(state, steps, id);
    }
}

/// None of the operations, when its turn comes, authorizes a delegation under
/// the identifier `auth_id`.
pub open spec fn never_authorized(
    state: CredentialState,
    steps: Seq<(Invocation, Operation)>,
    auth_id: Seq<u8>,
) -> bool {
    forall|i: int|
        0 <= i < steps.len() ==> !credential_soundness::authorizes(
            run(state, steps.take(i)),
            (#[trigger] steps[i]).0,
            steps[i].1,
            auth_id,
        )
}

/// How many of the operations issue a credential under the delegation `auth_id`.
pub open spec fn issuances_under(
    state: CredentialState,
    steps: Seq<(Invocation, Operation)>,
    auth_id: Seq<u8>,
) -> nat
    decreases steps.len(),
{
    if steps.len() == 0 {
        0
    } else {
        let (call, operation) = steps.last();
        let earlier = issuances_under(state, steps.drop_last(), auth_id);
        if credential_laws::uses_delegation(
            run(state, steps.drop_last()),
            call,
            operation,
            auth_id,
        ) {
            earlier + 1
        } else {
            earlier
        }
    }
}

/// Whatever happens, as long as no other delegation is authorized under its
/// identifier, a delegation keeps its identifier and its terms, counts exactly
/// the credentials that are issued under it and stays within its limit, and once
/// out of force stays so.
pub proof fn law_delegations_keep_their_terms(
    state: CredentialState,
    steps: Seq<(Invocation, Operation)>,
    auth_id: Seq<u8>,
)
    requires
        state.delegations.contains_key(auth_id),
        never_authorized(state, steps, auth_id),
    ensures
        ({
            let before = state.delegations[auth_id];
            let after = run(state, steps).delegations[auth_id];
            &&& run(state, steps).delegations.contains_key(auth_id)
            &&& credential_laws::same_terms(before, after)
            &&& after.issued_count == before.issued_count + issuances_under(
                state,
                steps,
                auth_id,
            )
            &&& before.issued_count <= before.max_issuances ==> after.issued_count
                <= after.max_issuances
            &&& after.active ==> before.active
        }),
    decreases steps.len(),
{
    if steps.len() > 0 {
        let earlier = steps.drop_last();
        assert forall|i: int| 0 <= i < earlier.len() implies !credential_soundness::authorizes(
            run(state, earlier.take(i)),
            (#[trigger] earlier[i]).0,
            earlier[i].1,
            auth_id,
        ) by {
            assert(earlier[i] == steps[i]);
            assert(earlier.take(i) =~= steps.take(i));
        }
        assert(steps.take(steps.len() - 1) =~= earlier);
        assert(steps[steps.len() - 1] == steps.last());
        law_delegations_keep_their_terms(state, earlier, auth_id);
        credential_laws::law_delegation_terms_are_fixed(
            run(state, earlier),
            steps.last().0,
            steps.last().1,
            auth_id,
        );
    }
}

/// From its grant on, and as long as no other delegation is authorized under its
/// identifier, a delegation has the identifier that was returned and the terms
/// that were asked for, and its count is the number of credentials issued under
/// it, which is within the limit.
pub proof fn law_delegations_count_their_issuances(
    state: CredentialState,
    call: Invocation,
    request: DelegationRequest,
    steps: Seq<(Invocation, Operation)>,
)
    requires
        delegation::authorization_outcome(state, call, request).1 is Ok,
        never_authorized(
            delegation::authorization_outcome(state, call, request).0,
            steps,
            ids::delegation_id(call.timestamp, call.sequence),
        ),
    ensures
        ({
            let authorized = delegation::authorization_outcome(state, call, request).0;
            let id = ids::delegation_id(call.timestamp, call.sequence);
            let after = run(authorized, steps);
            &&& delegation::authorization_outcome(state, call, request).1 == Ok::<
                Seq<u8>,
                CredentialIssuerError,
            >(id)
            &&& after.delegations.contains_key(id)
            &&& credential_laws::same_terms(
                delegation::new_delegation(call, request),
                after.delegations[id],
            )
            &&& after.delegations[id].issued_count == issuances_under(authorized, steps, id)
            &&& issuances_under(authorized, steps, id) <= request.max_issuances
        }),
{
    law_delegations_keep_their_terms(
        delegation::authorization_outcome(state, call, request).0,
        steps,
        ids::delegation_id(call.timestamp, call.sequence),
    );
}

/// No two of the operations, when their turns come, issue credentials in the
/// same ledger.
pub open spec fn one_issuance_per_ledger(
    state: CredentialState,
    steps: Seq<(Invocation, Operation)>,
) -> bool {
    forall|i: int, j: int|
        0 <= i < j < steps.len() && credential_soundness::issues_any(
            run(state, steps.take(i)),
            (#[trigger] steps[i]).0,
            steps[i].1,
        ) && credential_soundness::issues_any(
            run(state, steps.take(j)),
            (#[trigger] steps[j]).0,
            steps[j].1,
        ) ==> (steps[i].0.timestamp, steps[i].0.sequence) != (
            steps[j].0.timestamp,
            steps[j].0.sequence,
        )
}

/// Every credential on a ledger was issued there.
pub proof fn law_known_credentials_were_issued(steps: Seq<(Invocation, Operation)>, id: Seq<u8>)
    requires
        run(CredentialState::empty(), steps).credentials.contains_key(id),
    ensures
        !never_issued(CredentialState::empty(), steps, id),
{
    if never_issued(CredentialState::empty(), steps, id) {
        law_contents_never_change(CredentialState::empty(), steps, id);
    }
}

/// Whatever has happened on a ledger, its registries list no credential twice,
/// and only revoked ones of their issuers, as long as no two credentials were
/// issued in the same ledger.
pub proof fn law_registries_are_honest(steps: Seq<(Invocation, Operation)>)
    requires
        run_possible(CredentialState::empty(), steps),
        one_issuance_per_ledger(CredentialState::empty(), steps),
    ensures
        forall|id: Seq<u8>| #[trigger]
            run(CredentialState::empty(), steps).registries.contains_key(id)
                ==> credential_laws::registry_honest(run(CredentialState::empty(), steps), id),
    decreases steps.len(),
{
    if steps.len() > 0 {
        let start = CredentialState::empty();
        let earlier = steps.drop_last();
        let before = run(start, earlier);
        let (call, operation) = steps.last();
        let last = steps.len() - 1;
        assert(steps.last() == steps[last]);
        assert(steps.take(last) =~= earlier);
        assert forall|i: int| 0 <= i < earlier.len() implies #[trigger] earlier[i] == steps[i]
            && earlier.take(i) == steps.take(i) by {
            assert(earlier.take(i) =~= steps.take(i));
        }
        law_registries_are_honest(earlier);
        assert forall|id: Seq<u8>| #[trigger]
            before.credentials.contains_key(id) implies !credential_soundness::issues(
            before,
            call,
            operation,
            id,
        ) by {
            law_known_credentials_were_issued(earlier, id);
            let i = choose|i: int|
                0 <= i < earlier.len() && credential_soundness::issues(
                    run(start, earlier.take(i)),
                    (#[trigger] earlier[i]).0,
                    earlier[i].1,
                    id,
                );
            assert(earlier[i] == steps[i]);
            ids::law_ids_tell_ledgers_apart(
                steps[i].0.timestamp,
                steps[i].0.sequence,
                call.timestamp,
                call.sequence,
            );
        }
        credential_laws::law_operations_keep_registries_honest(before, call, operation);
    }
}

} // verus!
