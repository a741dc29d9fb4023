//! What the operations of the credential ledger promise to one another.

use vstd::prelude::*;

use crate::batch_revocation;
use crate::batch_revocation::BatchRequest;
use crate::credential::{CredentialIssuerError, CredentialModel, DelegationModel, ProofModel};
use crate::credential_issuer;
use crate::credential_issuer::{IssueRequest, SchemaVerdict};
use crate::credential_soundness;
use crate::credential_soundness::Operation;
use crate::credential_store;
use crate::credential_store::{CredentialState, STATUS_ACTIVE, STATUS_REVOKED};
use crate::decimal;
use crate::delegation;
use crate::delegation::DelegatedRequest;
use crate::ids;
use crate::ledger::Invocation;
use crate::revocation;
use crate::revocation::RegistryRequest;

verus! {

/// The ledger tells of this credential as of one that was just issued: it is
/// found as it is, it is active, it holds until it expires, and it stands at the
/// end of the lists of its issuer and its subject.
pub open spec fn freshly_issued(state: CredentialState, credential: CredentialModel) -> bool {
    &&& state.credentials.contains_key(credential.id)
    &&& state.credentials[credential.id] == credential
    &&& credential_issuer::status_text(state.status(credential.id, 255))
        == credential_issuer::active_text()
    &&& forall|now: u64|
        #[trigger] credential_issuer::verification(state, now, credential.id) == Ok::<
            bool,
            CredentialIssuerError,
        >(!credential_issuer::expired(credential, now))
    &&& credential_store::list_under(state.issuer_creds, credential.issuer).len() > 0
    &&& credential_store::list_under(state.issuer_creds, credential.issuer).last() == credential.id
    &&& credential_store::list_under(state.subject_creds, credential.subject).len() > 0
    &&& credential_store::list_under(state.subject_creds, credential.subject).last()
        == credential.id
}

/// A credential that was issued is found, active, valid until it expires, and
/// listed, whichever way it was issued.
pub proof fn law_issued_credential_holds(
    state: CredentialState,
    call: Invocation,
    request: IssueRequest,
    verdict: SchemaVerdict,
    delegated: DelegatedRequest,
)
    ensures
        credential_issuer::issue_outcome(state, call, request).1 is Ok ==> freshly_issued(
            credential_issuer::issue_outcome(state, call, request).0,
            credential_issuer::new_credential(call, request),
        ),
        credential_issuer::schema_outcome(state, call, verdict, request).1 is Ok
            ==> freshly_issued(
            credential_issuer::schema_outcome(state, call, verdict, request).0,
            credential_issuer::new_credential(call, request),
        ),
        delegation::delegated_outcome(state, call, delegated).1 is Ok ==> freshly_issued(
            delegation::delegated_outcome(state, call, delegated).0,
            delegation::delegated_credential(state, call, delegated),
        ),
{
}

/// A credential that was revoked fails verification at any time, is called
/// revoked, carries the time of its revocation, and cannot be revoked again.
pub proof fn law_revoked_credential_fails(
    state: CredentialState,
    issuer: Seq<u8>,
    id: Seq<u8>,
    now: u64,
    reason: Option<Seq<u8>>,
)
    requires
        revocation::revocation_outcome(state, issuer, id, now, reason).1 is Ok,
    ensures
        ({
            let after = revocation::revocation_outcome(state, issuer, id, now, reason).0;
            &&& after.revoked(id)
            &&& credential_issuer::status_text(after.status(id, 255))
                == credential_issuer::revoked_text()
            &&& after.credentials[id] == (CredentialModel {
                revocation: Some(decimal::digits(now as nat)),
                ..state.credentials[id]
            })
            &&& reason is Some ==> after.reasons.contains_key(id) && after.reasons[id] == reason->0
            &&& forall|later: u64|
                #[trigger] credential_issuer::verification(after, later, id) == Ok::<
                    bool,
                    CredentialIssuerError,
                >(false)
            &&& forall|later: u64, other: Option<Seq<u8>>|
                #[trigger] revocation::revocation_outcome(after, issuer, id, later, other) == (
                    after,
                    Err::<(), CredentialIssuerError>(CredentialIssuerError::AlreadyRevoked),
                )
        }),
{
}

/// What a batch has come to after the first `n` credentials: those revoked so far
/// were active, were the requester's and have their proofs; nothing else changed.
pub proof fn lemma_progress_statuses(
    state: CredentialState,
    request: BatchRequest,
    nonces: Seq<Seq<u8>>,
    n: nat,
)
    requires
        n <= request.credential_ids.len(),
    ensures
        ({
            let progress = batch_revocation::batch_progress(state, request, nonces, n);
            &&& progress.state.credentials.dom() == state.credentials.dom()
            &&& forall|id: Seq<u8>| #[trigger]
                state.credentials.contains_key(id) ==> same_contents(
                    state.credentials[id],
                    progress.state.credentials[id],
                )
            &&& forall|id: Seq<u8>| #[trigger]
                progress.state.status(id, STATUS_ACTIVE) == if progress.revoked.contains(id) {
                    STATUS_REVOKED
                } else {
                    state.status(id, STATUS_ACTIVE)
                }
            &&& forall|i: int|
                0 <= i < progress.revoked.len() ==> entered_properly(
                    state,
                    progress.state,
                    request,
                    nonces,
                    #[trigger] progress.revoked[i],
                )
            &&& progress.revoked.no_duplicates()
            &&& progress.error is None ==> forall|i: int|
                0 <= i < n ==> progress.state.status(
                    #[trigger] request.credential_ids[i],
                    STATUS_ACTIVE,
                ) != STATUS_ACTIVE
        }),
    decreases n,
{
    if n > 0 {
        let m = (n - 1) as nat;
        lemma_progress_statuses(state, request, nonces, m);
        let before = batch_revocation::batch_progress(state, request, nonces, m);
        let after = batch_revocation::batch_progress(state, request, nonces, n);
        let id = request.credential_ids[m as int];
        if before.error is None && before.state.credentials.contains_key(id)
            && before.state.credentials[id].issuer == request.issuer && before.state.status(
            id,
            STATUS_ACTIVE,
        ) == STATUS_ACTIVE {
            assert(after.revoked == before.revoked.push(id));
            assert(after.state.credentials.dom() =~= state.credentials.dom());
            assert(same_contents(state.credentials[id], before.state.credentials[id]));
            assert(!before.revoked.contains(id));
            assert(after.revoked[before.revoked.len() as int] == id);
            assert forall|x: Seq<u8>| #[trigger]
                after.state.status(x, STATUS_ACTIVE) == if after.revoked.contains(x) {
                    STATUS_REVOKED
                } else {
                    state.status(x, STATUS_ACTIVE)
                } by {
                assert(before.state.status(x, STATUS_ACTIVE) == if before.revoked.contains(x) {
                    STATUS_REVOKED
                } else {
                    state.status(x, STATUS_ACTIVE)
                });
                if x != id {
                    if before.revoked.contains(x) {
                        let i = choose|i: int|
                            0 <= i < before.revoked.len() && before.revoked[i] == x;
                        assert(after.revoked[i] == x);
                    }
                }
            }
            assert forall|i: int| 0 <= i < after.revoked.len() implies entered_properly(
                state,
                after.state,
                request,
                nonces,
                #[trigger] after.revoked[i],
            ) by {
                if i < before.revoked.len() {
                    assert(after.revoked[i] == before.revoked[i]);
                    assert(entered_properly(
                        state,
                        before.state,
                        request,
                        nonces,
                        before.revoked[i],
                    ));
                } else {
                    assert(request.credential_ids[m as int] == after.revoked[i]);
                }
            }
            assert forall|i: int| 0 <= i < n implies after.state.status(
                #[trigger] request.credential_ids[i],
                STATUS_ACTIVE,
            ) != STATUS_ACTIVE by {
                if i < m {
                    assert(before.state.status(request.credential_ids[i], STATUS_ACTIVE)
                        != STATUS_ACTIVE);
                }
            }
        }
    }
}

/// The two credentials agree in everything but the time of a revocation.
pub open spec fn same_contents(before: CredentialModel, after: CredentialModel) -> bool {
    after == (CredentialModel { revocation: after.revocation, ..before })
}

/// The batch was right to revoke this credential, which was active and the
/// requester's, and gave it a proof with the nonce meant for it.
pub open spec fn entered_properly(
    before: CredentialState,
    after: CredentialState,
    request: BatchRequest,
    nonces: Seq<Seq<u8>>,
    id: Seq<u8>,
) -> bool {
    &&& before.credentials.contains_key(id)
    &&& before.credentials[id].issuer == request.issuer
    &&& before.status(id, STATUS_ACTIVE) == STATUS_ACTIVE
    &&& after.revocation_proofs.contains_key(id)
    &&& exists|j: int|
        0 <= j < request.credential_ids.len() && #[trigger] request.credential_ids[j] == id
            && after.revocation_proofs[id] == (ProofModel {
            registry_id: request.registry_id,
            credential_id: id,
            nonce: nonces[j],
            timestamp: request.now,
        })
}

/// After a batch that went through, none of its credentials is active; those
/// that it revoked were active before, were the requester's, stand in the
/// registry once each, and have proofs; the status of every other credential is
/// as it was.
pub proof fn law_batch_revokes_the_active(
    state: CredentialState,
    request: BatchRequest,
    sequence: u32,
    nonces: Seq<Seq<u8>>,
    nonce: Seq<u8>,
)
    requires
        batch_revocation::batch_has_room(state, request),
        batch_revocation::batch_outcome(state, request, sequence, nonces, nonce).1 is Ok,
    ensures
        ({
            let after = batch_revocation::batch_outcome(state, request, sequence, nonces, nonce).0;
            let revoked = batch_revocation::batch_progress(
                state,
                request,
                nonces,
                request.credential_ids.len(),
            ).revoked;
            let registry = state.registries[request.registry_id];
            &&& forall|i: int|
                0 <= i < request.credential_ids.len() ==> after.status(
                    #[trigger] request.credential_ids[i],
                    STATUS_ACTIVE,
                ) != STATUS_ACTIVE
            &&& revoked.no_duplicates()
            &&& forall|i: int|
                0 <= i < revoked.len() ==> after.revoked(#[trigger] revoked[i])
                    && entered_properly(state, after, request, nonces, revoked[i])
            &&& forall|id: Seq<u8>|
                !revoked.contains(id) ==> #[trigger] after.status(id, STATUS_ACTIVE)
                    == state.status(id, STATUS_ACTIVE)
            &&& after.registries[request.registry_id].credential_ids == registry.credential_ids
                + revoked
            &&& after.registries[request.registry_id].revoked_count == registry.revoked_count
                + revoked.len()
            &&& after.registries[request.registry_id].nonce == nonce
        }),
{
    let total = request.credential_ids.len();
    lemma_progress_statuses(state, request, nonces, total);
    batch_revocation::lemma_progress_frame(state, request, nonces, total);
    let done = batch_revocation::batch_progress(state, request, nonces, total);
    let after = batch_revocation::batch_outcome(state, request, sequence, nonces, nonce).0;
    assert forall|id: Seq<u8>| #[trigger]
        after.status(id, STATUS_ACTIVE) == done.state.status(id, STATUS_ACTIVE) by {}
    assert forall|i: int| 0 <= i < done.revoked.len() implies after.revoked(
        #[trigger] done.revoked[i],
    ) && entered_properly(state, after, request, nonces, done.revoked[i]) by {
        assert(done.revoked.contains(done.revoked[i]));
        assert(entered_properly(state, done.state, request, nonces, done.revoked[i]));
    }
}

/// A proof made for a registry proves the revocation, and the registry has the
/// credential as its last and counts it.
pub proof fn law_registry_proof_verifies(
    state: CredentialState,
    request: RegistryRequest,
    now: u64,
    nonce: Seq<u8>,
)
    requires
        revocation::registry_has_room(state, request),
        revocation::registry_outcome(state, request, now, nonce).1 is Ok,
    ensures
        ({
            let after = revocation::registry_outcome(state, request, now, nonce).0;
            let id = request.credential_id;
            let registry = after.registries[request.registry_id];
            &&& after.revoked(id)
            &&& after.revocation_proofs.contains_key(id)
            &&& forall|evidence: ProofModel|
                #[trigger] revocation::proof_verification(after, id, evidence) == Ok::<
                    bool,
                    CredentialIssuerError,
                >(
                    evidence.registry_id == request.registry_id && evidence.credential_id == id
                        && evidence.nonce == nonce,
                )
            &&& registry.credential_ids
                == state.registries[request.registry_id].credential_ids.push(id)
            &&& registry.revoked_count == state.registries[request.registry_id].revoked_count + 1
            &&& registry.nonce == nonce
        }),
{
    let before = state.registries[request.registry_id].credential_ids;
    assert(before + seq![request.credential_id] =~= before.push(request.credential_id));
}

/// The ledgers tell the same of the credential `id`: its contents, its status,
/// and the reason and the proof of its revocation.
pub open spec fn same_record(before: CredentialState, after: CredentialState, id: Seq<u8>) -> bool {
    &&& before.credentials.contains_key(id) <==> after.credentials.contains_key(id)
    &&& before.credentials[id] == after.credentials[id]
    &&& before.statuses.contains_key(id) <==> after.statuses.contains_key(id)
    &&& before.statuses[id] == after.statuses[id]
    &&& before.reasons.contains_key(id) <==> after.reasons.contains_key(id)
    &&& before.reasons[id] == after.reasons[id]
    &&& before.revocation_proofs.contains_key(id) <==> after.revocation_proofs.contains_key(id)
    &&& before.revocation_proofs[id] == after.revocation_proofs[id]
}

proof fn lemma_progress_keeps_inactive(
    state: CredentialState,
    request: BatchRequest,
    nonces: Seq<Seq<u8>>,
    n: nat,
    id: Seq<u8>,
)
    requires
        state.status(id, STATUS_ACTIVE) != STATUS_ACTIVE,
    ensures
        same_record(
            state,
            batch_revocation::batch_progress(state, request, nonces, n).state,
            id,
        ),
    decreases n,
{
    if n > 0 {
        lemma_progress_keeps_inactive(state, request, nonces, (n - 1) as nat, id);
    }
}

/// Revocation is final: through every operation but one that issues another
/// credential under its identifier, a revoked credential stays revoked, and its
/// contents and the reason and the proof of its revocation stay the same.
pub proof fn law_revocation_is_final(
    state: CredentialState,
    call: Invocation,
    operation: Operation,
    id: Seq<u8>,
)
    requires
        state.revoked(id),
        !credential_soundness::issues(state, call, operation, id),
    ensures
        credential_soundness::perform(state, call, operation).revoked(id),
        same_record(state, credential_soundness::perform(state, call, operation), id),
{
    match operation {
        Operation::RevokeBatch { request, nonces, nonce } => {
            let total = request.credential_ids.len();
            lemma_progress_keeps_inactive(state, request, nonces, total, id);
        },
        _ => {},
    }
}

/// What a credential says never changes: through every operation but one that
/// issues a credential under its identifier, a known credential stays known and
/// keeps its contents, and an unknown one stays unknown.
pub proof fn law_contents_are_fixed(
    state: CredentialState,
    call: Invocation,
    operation: Operation,
    id: Seq<u8>,
)
    requires
        !credential_soundness::issues(state, call, operation, id),
    ensures
        credential_soundness::perform(state, call, operation).credentials.contains_key(id)
            <==> state.credentials.contains_key(id),
        state.credentials.contains_key(id) ==> same_contents(
            state.credentials[id],
            credential_soundness::perform(state, call, operation).credentials[id],
        ),
{
    match operation {
        Operation::RevokeBatch { request, nonces, nonce } => {
            let total = request.credential_ids.len();
            lemma_progress_statuses(state, request, nonces, total);
            let done = batch_revocation::batch_progress(state, request, nonces, total);
            assert(done.state.credentials.contains_key(id) == state.credentials.contains_key(id));
        },
        _ => {},
    }
}

/// The address at whose word an operation is performed.
pub open spec fn requester(operation: Operation) -> Seq<u8> {
    match operation {
        Operation::Issue { request } => request.issuer,
        Operation::IssueWithSchema { request, .. } => request.issuer,
        Operation::IssueDelegated { request } => request.delegate,
        Operation::Authorize { request } => request.delegator,
        Operation::Withdraw { delegator, .. } => delegator,
        Operation::Revoke { issuer, .. } => issuer,
        Operation::CreateRegistry { issuer, .. } => issuer,
        Operation::RevokeWithRegistry { request, .. } => request.issuer,
        Operation::RevokeBatch { request, .. } => request.issuer,
    }
}

/// Only the issuer of a credential can bring about its revocation.
pub proof fn law_only_the_issuer_revokes(
    state: CredentialState,
    call: Invocation,
    operation: Operation,
    id: Seq<u8>,
)
    requires
        !state.revoked(id),
        credential_soundness::perform(state, call, operation).revoked(id),
    ensures
        state.credentials.contains_key(id),
        state.credentials[id].issuer == requester(operation),
{
    match operation {
        Operation::RevokeBatch { request, nonces, nonce } => {
            let total = request.credential_ids.len();
            lemma_progress_statuses(state, request, nonces, total);
            let done = batch_revocation::batch_progress(state, request, nonces, total);
            assert(done.state.status(id, STATUS_ACTIVE) == STATUS_REVOKED);
            let i = choose|i: int| 0 <= i < done.revoked.len() && done.revoked[i] == id;
            assert(entered_properly(state, done.state, request, nonces, done.revoked[i]));
        },
        _ => {},
    }
}

/// A delegate's credential is in the name of the delegator, of authorized types
/// only, and uses up one of the issuances that the delegation allows; other
/// delegations are as they were.
pub proof fn law_delegated_issuance_is_covered(
    state: CredentialState,
    call: Invocation,
    request: DelegatedRequest,
)
    requires
        delegation::delegated_outcome(state, call, request).1 is Ok,
    ensures
        ({
            let after = delegation::delegated_outcome(state, call, request).0;
            let before_auth = state.delegations[request.auth_id];
            let after_auth = after.delegations[request.auth_id];
            let credential =
                after.credentials[ids::credential_id(call.timestamp, call.sequence)];
            &&& before_auth.active
            &&& before_auth.delegate == request.delegate
            &&& call.timestamp <= before_auth.expires_at
            &&& credential.issuer == before_auth.delegator
            &&& delegation::types_authorized(credential.type_, before_auth.authorized_types)
            &&& after_auth.issued_count == before_auth.issued_count + 1
            &&& after_auth.issued_count <= after_auth.max_issuances
            &&& after_auth.max_issuances == before_auth.max_issuances
            &&& forall|other: Seq<u8>|
                other != request.auth_id ==> (#[trigger] after.delegations.contains_key(other)
                    <==> state.delegations.contains_key(other)) && after.delegations[other]
                    == state.delegations[other]
        }),
{
}

/// The delegations have the same identifier, the same parties and the same terms.
pub open spec fn same_terms(before: DelegationModel, after: DelegationModel) -> bool {
    after == (DelegationModel {
        issued_count: after.issued_count,
        active: after.active,
        ..before
    })
}

/// Whether the operation issues a credential under the delegation `auth_id`.
pub open spec fn uses_delegation(
    state: CredentialState,
    call: Invocation,
    operation: Operation,
    auth_id: Seq<u8>,
) -> bool {
    match operation {
        Operation::IssueDelegated { request } => request.auth_id == auth_id
            && delegation::delegated_outcome(state, call, request).1 is Ok,
        _ => false,
    }
}

/// Through every operation but one that authorizes another delegation under its
/// identifier, a delegation keeps its identifier and its terms, counts the
/// credentials that are issued under it and stays within its limit, and does not
/// come into force again.
pub proof fn law_delegation_terms_are_fixed(
    state: CredentialState,
    call: Invocation,
    operation: Operation,
    auth_id: Seq<u8>,
)
    requires
        state.delegations.contains_key(auth_id),
        !credential_soundness::authorizes(state, call, operation, auth_id),
    ensures
        ({
            let before = state.delegations[auth_id];
            let state_after = credential_soundness::perform(state, call, operation);
            let after = state_after.delegations[auth_id];
            &&& state_after.delegations.contains_key(auth_id)
            &&& same_terms(before, after)
            &&& after.issued_count == before.issued_count + if uses_delegation(
                state,
                call,
                operation,
                auth_id,
            ) {
                1int
            } else {
                0
            }
            &&& before.issued_count <= before.max_issuances ==> after.issued_count
                <= after.max_issuances
            &&& after.active ==> before.active
        }),
{
    match operation {
        Operation::RevokeBatch { request, nonces, nonce } => {
            batch_revocation::lemma_progress_frame(
                state,
                request,
                nonces,
                request.credential_ids.len(),
            );
        },
        _ => {},
    }
}

/// Nothing is issued under a delegation that was withdrawn or found to have
/// expired, nor can it be withdrawn again.
pub proof fn law_inactive_delegation_is_refused(
    state: CredentialState,
    call: Invocation,
    request: DelegatedRequest,
)
    requires
        state.delegations.contains_key(request.auth_id),
        !state.delegations[request.auth_id].active,
    ensures
        delegation::delegated_outcome(state, call, request) == (
            state,
            Err::<Seq<u8>, CredentialIssuerError>(CredentialIssuerError::DelegationRevoked),
        ),
        delegation::withdrawal_outcome(
            state,
            state.delegations[request.auth_id].delegator,
            request.auth_id,
        ) == (
            state,
            Err::<(), CredentialIssuerError>(CredentialIssuerError::DelegationRevoked),
        ),
{
}

/// Withdrawing a delegation, and finding it expired, put it out of force.
pub proof fn law_delegations_end(
    state: CredentialState,
    call: Invocation,
    delegator: Seq<u8>,
    request: DelegatedRequest,
)
    ensures
        delegation::withdrawal_outcome(state, delegator, request.auth_id).1 is Ok
            ==> !delegation::withdrawal_outcome(
            state,
            delegator,
            request.auth_id,
        ).0.delegations[request.auth_id].active,
        delegation::delegated_outcome(state, call, request).1 == Err::<
            Seq<u8>,
            CredentialIssuerError,
        >(CredentialIssuerError::DelegationExpired) ==> !delegation::delegated_outcome(
            state,
            call,
            request,
        ).0.delegations[request.auth_id].active,
{
}

/// A delegation that is used up allows no further issuance.
pub proof fn law_used_up_delegation_is_refused(
    state: CredentialState,
    call: Invocation,
    request: DelegatedRequest,
)
    requires
        state.delegations.contains_key(request.auth_id),
        state.delegations[request.auth_id].issued_count
            >= state.delegations[request.auth_id].max_issuances,
    ensures
        delegation::delegated_outcome(state, call, request).1 is Err,
        delegation::delegated_outcome(state, call, request).0.credentials == state.credentials,
{
}

/// A credential on a sound ledger never fails verification for want of a proof:
/// verification finds it valid exactly where it is active and not expired.
pub proof fn law_known_credentials_verify(state: CredentialState, now: u64, id: Seq<u8>)
    requires
        credential_soundness::sound(state),
        state.credentials.contains_key(id),
    ensures
        credential_issuer::verification(state, now, id) == Ok::<bool, CredentialIssuerError>(
            state.statuses[id] == STATUS_ACTIVE && !credential_issuer::expired(
                state.credentials[id],
                now,
            ),
        ),
{
    assert(credential_soundness::credential_sound(state, id));
}

/// A registry that lists no credential twice, and only revoked ones of its
/// issuer.
pub open spec fn registry_honest(state: CredentialState, id: Seq<u8>) -> bool {
    let registry = state.registries[id];
    &&& registry.credential_ids.no_duplicates()
    &&& forall|i: int|
        0 <= i < registry.credential_ids.len() ==> listed_rightly(
            state,
            registry.issuer,
            #[trigger] registry.credential_ids[i],
        )
}

/// The credential is known, revoked, and in the name of `issuer`.
pub open spec fn listed_rightly(state: CredentialState, issuer: Seq<u8>, id: Seq<u8>) -> bool {
    &&& state.credentials.contains_key(id)
    &&& state.credentials[id].issuer == issuer
    &&& state.revoked(id)
}

proof fn lemma_added_honestly(
    before: CredentialState,
    after: CredentialState,
    id: Seq<u8>,
    added: Seq<Seq<u8>>,
)
    requires
        registry_honest(before, id),
        after.registries[id].issuer == before.registries[id].issuer,
        after.registries[id].credential_ids == before.registries[id].credential_ids + added,
        added.no_duplicates(),
        forall|i: int|
            0 <= i < added.len() ==> !before.revoked(#[trigger] added[i]) && listed_rightly(
                after,
                before.registries[id].issuer,
                added[i],
            ),
        forall|x: Seq<u8>| #[trigger]
            listed_rightly(before, before.registries[id].issuer, x) ==> listed_rightly(
                after,
                before.registries[id].issuer,
                x,
            ),
    ensures
        registry_honest(after, id),
{
    let old_ids = before.registries[id].credential_ids;
    let new_ids = after.registries[id].credential_ids;
    assert forall|i: int| 0 <= i < new_ids.len() implies listed_rightly(
        after,
        after.registries[id].issuer,
        #[trigger] new_ids[i],
    ) by {
        if i < old_ids.len() {
            assert(new_ids[i] == old_ids[i]);
        } else {
            assert(new_ids[i] == added[i - old_ids.len()]);
        }
    }
    assert forall|i: int, j: int| 0 <= i < j < new_ids.len() implies new_ids[i] != new_ids[j] by {
        if j < old_ids.len() {
            assert(old_ids[i] != old_ids[j]);
        } else if i < old_ids.len() {
            assert(new_ids[i] == old_ids[i]);
            assert(new_ids[j] == added[j - old_ids.len()]);
        } else {
            assert(added[i - old_ids.len()] != added[j - old_ids.len()]);
        }
    }
}

/// Every operation that issues no second credential under a known identifier
/// keeps the registries honest.
pub proof fn law_operations_keep_registries_honest(
    state: CredentialState,
    call: Invocation,
    operation: Operation,
)
    requires
        credential_soundness::possible(state, call, operation),
        forall|id: Seq<u8>| #[trigger]
            state.registries.contains_key(id) ==> registry_honest(state, id),
        forall|id: Seq<u8>| #[trigger]
            state.credentials.contains_key(id) ==> !credential_soundness::issues(
                state,
                call,
                operation,
                id,
            ),
    ensures
        forall|id: Seq<u8>| #[trigger]
            credential_soundness::perform(state, call, operation).registries.contains_key(id)
                ==> registry_honest(credential_soundness::perform(state, call, operation), id),
{
    let after = credential_soundness::perform(state, call, operation);
    assert forall|issuer: Seq<u8>, x: Seq<u8>| #[trigger]
        listed_rightly(state, issuer, x) implies listed_rightly(after, issuer, x) by {
        law_revocation_is_final(state, call, operation, x);
        law_contents_are_fixed(state, call, operation, x);
    }
    assert forall|id: Seq<u8>| #[trigger] after.registries.contains_key(id) implies registry_honest(
        after,
        id,
    ) by {
        let none = Seq::<Seq<u8>>::empty();
        let ids_before = state.registries[id].credential_ids;
        assert(ids_before + none =~= ids_before);
        match operation {
            Operation::RevokeWithRegistry { request, nonce } => {
                let outcome = revocation::registry_outcome(state, request, call.timestamp, nonce);
                if outcome.1 is Ok && id == request.registry_id {
                    lemma_added_honestly(state, after, id, seq![request.credential_id]);
                } else {
                    lemma_added_honestly(state, after, id, none);
                }
            },
            Operation::RevokeBatch { request, nonces, nonce } => {
                let total = request.credential_ids.len();
                let done = batch_revocation::batch_progress(state, request, nonces, total);
                batch_revocation::lemma_progress_frame(state, request, nonces, total);
                lemma_progress_statuses(state, request, nonces, total);
                let outcome = batch_revocation::batch_outcome(
                    state,
                    request,
                    call.sequence,
                    nonces,
                    nonce,
                );
                if outcome.1 is Ok && id == request.registry_id {
                    law_batch_revokes_the_active(state, request, call.sequence, nonces, nonce);
                    assert forall|i: int| 0 <= i < done.revoked.len() implies !state.revoked(
                        #[trigger] done.revoked[i],
                    ) && listed_rightly(after, state.registries[id].issuer, done.revoked[i]) by {
                        assert(entered_properly(state, after, request, nonces, done.revoked[i]));
                        law_contents_are_fixed(state, call, operation, done.revoked[i]);
                    }
                    lemma_added_honestly(state, after, id, done.revoked);
                } else {
                    lemma_added_honestly(state, after, id, none);
                }
            },
            Operation::CreateRegistry { issuer, nonce } => {
                if id != ids::registry_id(call.timestamp, call.sequence) {
                    lemma_added_honestly(state, after, id, none);
                }
            },
            _ => {
                lemma_added_honestly(state, after, id, none);
            },
        }
    }
}

} // verus!
