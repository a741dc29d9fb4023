//! What holds of the credential ledger as a whole.

use vstd::prelude::*;

use crate::batch_revocation;
use crate::batch_revocation::BatchRequest;
use crate::credential::{
    BatchModel, CredentialIssuerError, CredentialModel, DelegationModel, EventModel, ProofModel,
    RegistryModel,
};
use crate::credential_issuer;
use crate::credential_issuer::{IssueRequest, SchemaVerdict};
use crate::credential_store;
use crate::credential_store::{CredentialState, STATUS_ACTIVE, STATUS_REVOKED};
use crate::delegation;
use crate::delegation::{DelegatedRequest, DelegationRequest};
use crate::ledger::Invocation;
use crate::revocation;
use crate::revocation::RegistryRequest;

verus! {

/// A change that may be asked of the ledger, with the nonces that it is made
/// with.
pub enum Operation {
    Issue { request: IssueRequest },
    IssueWithSchema { verdict: SchemaVerdict, request: IssueRequest },
    IssueDelegated { request: DelegatedRequest },
    Authorize { request: DelegationRequest },
    Withdraw { delegator: Seq<u8>, auth_id: Seq<u8> },
    Revoke { issuer: Seq<u8>, credential_id: Seq<u8>, reason: Option<Seq<u8>> },
    CreateRegistry { issuer: Seq<u8>, nonce: Seq<u8> },
    RevokeWithRegistry { request: RegistryRequest, nonce: Seq<u8> },
    RevokeBatch { request: BatchRequest, nonces: Seq<Seq<u8>>, nonce: Seq<u8> },
}

/// The ledger after an operation in the ledger of the call, whether it was
/// granted or refused.
pub open spec fn perform(
    state: CredentialState,
    call: Invocation,
    operation: Operation,
) -> CredentialState {
    match operation {
        Operation::Issue { request } => credential_issuer::issue_outcome(state, call, request).0,
        Operation::IssueWithSchema { verdict, request } => credential_issuer::schema_outcome(
            state,
            call,
            verdict,
            request,
        ).0,
        Operation::IssueDelegated { request } => delegation::delegated_outcome(
            state,
            call,
            request,
        ).0,
        Operation::Authorize { request } => delegation::authorization_outcome(
            state,
            call,
            request,
        ).0,
        Operation::Withdraw { delegator, auth_id } => delegation::withdrawal_outcome(
            state,
            delegator,
            auth_id,
        ).0,
        Operation::Revoke { issuer, credential_id, reason } => revocation::revocation_outcome(
            state,
            issuer,
            credential_id,
            call.timestamp,
            reason,
        ).0,
        Operation::CreateRegistry { issuer, nonce } => revocation::registry_created(
            state,
            call,
            issuer,
            nonce,
        ),
        Operation::RevokeWithRegistry { request, nonce } => revocation::registry_outcome(
            state,
            request,
            call.timestamp,
            nonce,
        ).0,
        Operation::RevokeBatch { request, nonces, nonce } => batch_revocation::batch_outcome(
            state,
            request,
            call.sequence,
            nonces,
            nonce,
        ).0,
    }
}

/// The operation is one that can be asked for in the ledger of the call: a
/// batch is made at the time of the call, and the registry that an operation
/// enters credentials in can count them.
pub open spec fn possible(
    state: CredentialState,
    call: Invocation,
    operation: Operation,
) -> bool {
    match operation {
        Operation::RevokeWithRegistry { request, .. } => revocation::registry_has_room(
            state,
            request,
        ),
        Operation::RevokeBatch { request, .. } => request.now == call.timestamp
            && batch_revocation::batch_has_room(state, request),
        _ => true,
    }
}

/// Whether the operation is granted and issues a credential.
pub open spec fn issues_any(state: CredentialState, call: Invocation, operation: Operation) -> bool {
    match operation {
        Operation::Issue { request } => credential_issuer::issue_outcome(
            state,
            call,
            request,
        ).1 is Ok,
        Operation::IssueWithSchema { verdict, request } => credential_issuer::schema_outcome(
            state,
            call,
            verdict,
            request,
        ).1 is Ok,
        Operation::IssueDelegated { request } => delegation::delegated_outcome(
            state,
            call,
            request,
        ).1 is Ok,
        _ => false,
    }
}

/// Whether the operation issues a credential under the identifier `id`.
pub open spec fn issues(
    state: CredentialState,
    call: Invocation,
    operation: Operation,
    id: Seq<u8>,
) -> bool {
    issues_any(state, call, operation) && id == crate::ids::credential_id(
        call.timestamp,
        call.sequence,
    )
}

/// Whether the operation is granted and authorizes a delegation under the
/// identifier `auth_id`.
pub open spec fn authorizes(
    state: CredentialState,
    call: Invocation,
    operation: Operation,
    auth_id: Seq<u8>,
) -> bool {
    match operation {
        Operation::Authorize { request } => delegation::authorization_outcome(
            state,
            call,
            request,
        ).1 == Ok::<Seq<u8>, CredentialIssuerError>(auth_id),
        _ => false,
    }
}

/// A credential as the ledger keeps it: under its own identifier, complete,
/// active or revoked, and listed under its issuer and its subject.
pub open spec fn credential_sound(state: CredentialState, id: Seq<u8>) -> bool {
    let credential = state.credentials[id];
    &&& credential.id == id
    &&& credential.proof is Some
    &&& credential_issuer::issue_refusal(
        credential.type_,
        credential.credential_data,
        credential.proof->0,
    ) is None
    &&& state.statuses.contains_key(id)
    &&& state.statuses[id] == STATUS_ACTIVE || state.statuses[id] == STATUS_REVOKED
    &&& state.statuses[id] == STATUS_REVOKED <==> credential.revocation is Some
    &&& credential_store::list_under(state.issuer_creds, credential.issuer).contains(id)
    &&& credential_store::list_under(state.subject_creds, credential.subject).contains(id)
}

/// A delegation as the ledger keeps it: under its own identifier, for some
/// types, used no more often than allowed, and listed under its two parties.
pub open spec fn delegation_sound(state: CredentialState, id: Seq<u8>) -> bool {
    let auth = state.delegations[id];
    &&& auth.id == id
    &&& auth.authorized_types.len() > 0
    &&& 0 < auth.max_issuances
    &&& auth.issued_count <= auth.max_issuances
    &&& credential_store::list_under(state.delegate_auths, auth.delegate).contains(id)
    &&& credential_store::list_under(state.delegator_auths, auth.delegator).contains(id)
}

/// Every one of the credentials is known.
pub open spec fn all_known(state: CredentialState, credential_ids: Seq<Seq<u8>>) -> bool {
    forall|i: int|
        0 <= i < credential_ids.len() ==> state.credentials.contains_key(
            #[trigger] credential_ids[i],
        )
}

/// Every one of the delegations is known.
pub open spec fn all_delegations_known(state: CredentialState, auth_ids: Seq<Seq<u8>>) -> bool {
    forall|i: int|
        0 <= i < auth_ids.len() ==> state.delegations.contains_key(#[trigger] auth_ids[i])
}

/// A registry as the ledger keeps it: under its own identifier, with known
/// credentials, of which it has the right count.
pub open spec fn registry_sound(state: CredentialState, id: Seq<u8>) -> bool {
    let registry = state.registries[id];
    &&& registry.id == id
    &&& registry.revoked_count == registry.credential_ids.len()
    &&& all_known(state, registry.credential_ids)
}

/// What is true of the ledger at all times.
pub open spec fn sound(state: CredentialState) -> bool {
    &&& forall|id: Seq<u8>| #[trigger]
        state.credentials.contains_key(id) ==> credential_sound(state, id)
    &&& forall|id: Seq<u8>| #[trigger]
        state.statuses.contains_key(id) ==> state.credentials.contains_key(id)
    &&& forall|id: Seq<u8>| #[trigger]
        state.reasons.contains_key(id) ==> state.credentials.contains_key(id)
    &&& forall|key: Seq<u8>| #[trigger]
        state.issuer_creds.contains_key(key) ==> all_known(state, state.issuer_creds[key])
    &&& forall|key: Seq<u8>| #[trigger]
        state.subject_creds.contains_key(key) ==> all_known(state, state.subject_creds[key])
    &&& forall|id: Seq<u8>| #[trigger]
        state.delegations.contains_key(id) ==> delegation_sound(state, id)
    &&& forall|key: Seq<u8>| #[trigger]
        state.delegate_auths.contains_key(key) ==> all_delegations_known(
            state,
            state.delegate_auths[key],
        )
    &&& forall|key: Seq<u8>| #[trigger]
        state.delegator_auths.contains_key(key) ==> all_delegations_known(
            state,
            state.delegator_auths[key],
        )
    &&& forall|id: Seq<u8>| #[trigger]
        state.registries.contains_key(id) ==> registry_sound(state, id)
    &&& forall|id: Seq<u8>| #[trigger]
        state.revocation_proofs.contains_key(id) ==> state.credentials.contains_key(id)
            && state.revocation_proofs[id].credential_id == id
    &&& forall|id: Seq<u8>| #[trigger]
        state.batch_revocations.contains_key(id) ==> state.batch_revocations[id].batch_id == id
            && all_known(state, state.batch_revocations[id].credential_ids)
}

proof fn lemma_listed(lists: Map<Seq<u8>, Seq<Seq<u8>>>, key: Seq<u8>, id: Seq<u8>)
    ensures
        credential_store::list_under(credential_store::listed(lists, key, id), key).contains(id),
        forall|other: Seq<u8>, x: Seq<u8>|
            credential_store::list_under(lists, other).contains(x)
                ==> #[trigger] credential_store::list_under(
                credential_store::listed(lists, key, id),
                other,
            ).contains(x),
{
    let old_list = credential_store::list_under(lists, key);
    let new_list = old_list.push(id);
    assert(new_list[old_list.len() as int] == id);
    assert forall|other: Seq<u8>, x: Seq<u8>|
        credential_store::list_under(lists, other).contains(x) implies #[trigger]
        credential_store::list_under(
        credential_store::listed(lists, key, id),
        other,
    ).contains(x) by {
        if other == key {
            let i = choose|i: int| 0 <= i < old_list.len() && old_list[i] == x;
            assert(new_list[i] == x);
        }
    }
}

/// What `before` has, `after` has too: every credential and every delegation,
/// and each of them in the lists in which it was.
spec fn keeps_all(before: CredentialState, after: CredentialState) -> bool {
    &&& before.credentials.dom().subset_of(after.credentials.dom())
    &&& before.delegations.dom().subset_of(after.delegations.dom())
    &&& keeps_lists(before.issuer_creds, after.issuer_creds)
    &&& keeps_lists(before.subject_creds, after.subject_creds)
    &&& keeps_lists(before.delegate_auths, after.delegate_auths)
    &&& keeps_lists(before.delegator_auths, after.delegator_auths)
}

spec fn keeps_lists(
    before: Map<Seq<u8>, Seq<Seq<u8>>>,
    after: Map<Seq<u8>, Seq<Seq<u8>>>,
) -> bool {
    forall|key: Seq<u8>, id: Seq<u8>|
        credential_store::list_under(before, key).contains(id)
            ==> #[trigger] credential_store::list_under(after, key).contains(id)
}

/// A change that takes nothing away leaves sound what it does not touch.
proof fn lemma_untouched_sound(before: CredentialState, after: CredentialState)
    requires
        sound(before),
        keeps_all(before, after),
    ensures
        forall|id: Seq<u8>| #[trigger]
            after.credentials.contains_key(id) && before.credentials.contains_key(id)
                && after.credentials[id] == before.credentials[id]
                && after.statuses.contains_key(id) && after.statuses[id] == before.statuses[id]
                ==> credential_sound(after, id),
        forall|id: Seq<u8>| #[trigger]
            after.delegations.contains_key(id) && before.delegations.contains_key(id)
                && after.delegations[id] == before.delegations[id] ==> delegation_sound(after, id),
        forall|id: Seq<u8>| #[trigger]
            after.registries.contains_key(id) && before.registries.contains_key(id)
                && after.registries[id] == before.registries[id] ==> registry_sound(after, id),
{
    assert forall|id: Seq<u8>| #[trigger]
        after.credentials.contains_key(id) && before.credentials.contains_key(id)
            && after.credentials[id] == before.credentials[id] && after.statuses.contains_key(id)
            && after.statuses[id] == before.statuses[id] implies credential_sound(after, id) by {
        assert(credential_sound(before, id));
    }
    assert forall|id: Seq<u8>| #[trigger]
        after.delegations.contains_key(id) && before.delegations.contains_key(id)
            && after.delegations[id] == before.delegations[id] implies delegation_sound(
        after,
        id,
    ) by {
        assert(delegation_sound(before, id));
    }
    assert forall|id: Seq<u8>| #[trigger]
        after.registries.contains_key(id) && before.registries.contains_key(id)
            && after.registries[id] == before.registries[id] implies registry_sound(after, id) by {
        assert(registry_sound(before, id));
    }
}

proof fn lemma_enroll_sound(state: CredentialState, credential: CredentialModel)
    requires
        sound(state),
        credential.proof is Some,
        credential.revocation is None,
        credential_issuer::issue_refusal(
            credential.type_,
            credential.credential_data,
            credential.proof->0,
        ) is None,
    ensures
        sound(state.enroll(credential)),
{
    let after = state.enroll(credential);
    lemma_listed(state.issuer_creds, credential.issuer, credential.id);
    lemma_listed(state.subject_creds, credential.subject, credential.id);
    lemma_untouched_sound(state, after);
}

proof fn lemma_announce_sound(state: CredentialState, event: EventModel)
    requires
        sound(state),
    ensures
        sound(state.announce(event)),
{
    lemma_untouched_sound(state, state.announce(event));
}

proof fn lemma_revoke_sound(
    state: CredentialState,
    id: Seq<u8>,
    now: u64,
    reason: Option<Seq<u8>>,
)
    requires
        sound(state),
        state.credentials.contains_key(id),
    ensures
        sound(state.revoke(id, now, reason)),
{
    lemma_untouched_sound(state, state.revoke(id, now, reason));
}

proof fn lemma_attach_proof_sound(state: CredentialState, evidence: ProofModel)
    requires
        sound(state),
        state.credentials.contains_key(evidence.credential_id),
    ensures
        sound(state.attach_proof(evidence)),
{
    lemma_untouched_sound(state, state.attach_proof(evidence));
}

proof fn lemma_with_registry_sound(state: CredentialState, id: Seq<u8>, registry: RegistryModel)
    requires
        sound(state),
        registry.id == id,
        registry.revoked_count == registry.credential_ids.len(),
        all_known(state, registry.credential_ids),
    ensures
        sound(state.with_registry(id, registry)),
{
    lemma_untouched_sound(state, state.with_registry(id, registry));
}

proof fn lemma_enter_in_registry_sound(
    state: CredentialState,
    registry_id: Seq<u8>,
    credential_ids: Seq<Seq<u8>>,
    nonce: Seq<u8>,
)
    requires
        sound(state),
        state.registries.contains_key(registry_id),
        state.registries[registry_id].revoked_count + credential_ids.len() <= u32::MAX,
        all_known(state, credential_ids),
    ensures
        sound(state.enter_in_registry(registry_id, credential_ids, nonce)),
{
    let registry = state.registries[registry_id];
    assert(registry_sound(state, registry_id));
    let all = registry.credential_ids + credential_ids;
    assert forall|i: int| 0 <= i < all.len() implies state.credentials.contains_key(
        #[trigger] all[i],
    ) by {
        if i < registry.credential_ids.len() {
            assert(all[i] == registry.credential_ids[i]);
        } else {
            assert(all[i] == credential_ids[i - registry.credential_ids.len()]);
        }
    }
    lemma_with_registry_sound(
        state,
        registry_id,
        RegistryModel {
            credential_ids: all,
            nonce,
            revoked_count: (registry.revoked_count + credential_ids.len()) as u32,
            ..registry
        },
    );
}

proof fn lemma_record_batch_sound(state: CredentialState, batch: BatchModel)
    requires
        sound(state),
        all_known(state, batch.credential_ids),
    ensures
        sound(state.record_batch(batch)),
{
    lemma_untouched_sound(state, state.record_batch(batch));
}

proof fn lemma_delegate_sound(state: CredentialState, auth: DelegationModel)
    requires
        sound(state),
        auth.authorized_types.len() > 0,
        0 < auth.max_issuances,
        auth.issued_count <= auth.max_issuances,
    ensures
        sound(state.delegate(auth)),
{
    let after = state.delegate(auth);
    lemma_listed(state.delegate_auths, auth.delegate, auth.id);
    lemma_listed(state.delegator_auths, auth.delegator, auth.id);
    lemma_untouched_sound(state, after);
}

proof fn lemma_with_delegation_sound(state: CredentialState, id: Seq<u8>, auth: DelegationModel)
    requires
        sound(state),
        state.delegations.contains_key(id),
        auth == (DelegationModel {
            issued_count: auth.issued_count,
            active: auth.active,
            ..state.delegations[id]
        }),
        auth.issued_count <= auth.max_issuances,
    ensures
        sound(state.with_delegation(id, auth)),
{
    lemma_untouched_sound(state, state.with_delegation(id, auth));
}

proof fn lemma_progress_sound(
    state: CredentialState,
    request: BatchRequest,
    nonces: Seq<Seq<u8>>,
    n: nat,
)
    requires
        sound(state),
        n <= request.credential_ids.len(),
    ensures
        ({
            let progress = batch_revocation::batch_progress(state, request, nonces, n);
            &&& sound(progress.state)
            &&& progress.state.credentials.dom() == state.credentials.dom()
            &&& all_known(state, progress.revoked)
            &&& progress.error is None ==> all_known(state, request.credential_ids.take(n as int))
        }),
    decreases n,
{
    if n > 0 {
        let m = (n - 1) as nat;
        lemma_progress_sound(state, request, nonces, m);
        let before = batch_revocation::batch_progress(state, request, nonces, m);
        let after = batch_revocation::batch_progress(state, request, nonces, n);
        let id = request.credential_ids[m as int];
        if before.error is None && before.state.credentials.contains_key(id)
            && before.state.credentials[id].issuer == request.issuer {
            assert(request.credential_ids.take(n as int) =~= request.credential_ids.take(
                m as int,
            ).push(id));
            if before.state.status(id, STATUS_ACTIVE) == STATUS_ACTIVE {
                let evidence = ProofModel {
                    registry_id: request.registry_id,
                    credential_id: id,
                    nonce: nonces[m as int],
                    timestamp: request.now,
                };
                lemma_revoke_sound(before.state, id, request.now, request.reason);
                lemma_attach_proof_sound(
                    before.state.revoke(id, request.now, request.reason),
                    evidence,
                );
                assert(after.state.credentials.dom() =~= state.credentials.dom());
            }
        }
    }
}

/// A ledger on which nothing has happened is sound.
pub proof fn law_empty_is_sound()
    ensures
        sound(CredentialState::empty()),
{
}

/// Every operation, granted or refused, keeps the ledger sound: credentials are
/// complete, listed, and revoked exactly where they carry the time of their
/// revocation; delegations are used no more often than they allow; registries
/// count what they hold; nothing refers to an unknown credential.
pub proof fn law_operations_keep_soundness(
    state: CredentialState,
    call: Invocation,
    operation: Operation,
)
    requires
        sound(state),
        possible(state, call, operation),
    ensures
        sound(perform(state, call, operation)),
{
    match operation {
        Operation::Issue { request } => {
            if credential_issuer::issue_refusal(request.types, request.data, request.proof) is None {
                let credential = credential_issuer::new_credential(call, request);
                lemma_enroll_sound(state, credential);
                lemma_announce_sound(
                    state.enroll(credential),
                    EventModel::CredentialIssued {
                        credential_id: credential.id,
                        issuer: credential.issuer,
                    },
                );
            }
        },
        Operation::IssueWithSchema { verdict, request } => {
            if credential_issuer::schema_refusal(
                verdict,
                request.types,
                request.data,
                request.proof,
            ) is None {
                lemma_enroll_sound(state, credential_issuer::new_credential(call, request));
            }
        },
        Operation::IssueDelegated { request } => {
            let refusal = delegation::delegated_refusal(state, request, call.timestamp);
            if state.delegations.contains_key(request.auth_id) {
                assert(delegation_sound(state, request.auth_id));
                lemma_with_delegation_sound(
                    state,
                    request.auth_id,
                    DelegationModel { active: false, ..state.delegations[request.auth_id] },
                );
            }
            if refusal is None {
                let credential = delegation::delegated_credential(state, call, request);
                lemma_enroll_sound(state, credential);
                let entered = state.enroll(credential);
                let auth = entered.delegations[request.auth_id];
                lemma_with_delegation_sound(
                    entered,
                    request.auth_id,
                    DelegationModel { issued_count: (auth.issued_count + 1) as u32, ..auth },
                );
                lemma_announce_sound(
                    entered.count_issuance(request.auth_id),
                    EventModel::DelegatedCredentialIssued {
                        credential_id: credential.id,
                        delegate: request.delegate,
                    },
                );
            }
        },
        Operation::Authorize { request } => {
            if delegation::delegation_refusal(request, call.timestamp) is None {
                let auth = delegation::new_delegation(call, request);
                lemma_delegate_sound(state, auth);
                lemma_announce_sound(
                    state.delegate(auth),
                    EventModel::DelegationAuthorized {
                        auth_id: auth.id,
                        delegator: auth.delegator,
                        delegate: auth.delegate,
                    },
                );
            }
        },
        Operation::Withdraw { delegator, auth_id } => {
            if delegation::withdrawal_refusal(state, delegator, auth_id) is None {
                assert(delegation_sound(state, auth_id));
                lemma_with_delegation_sound(
                    state,
                    auth_id,
                    DelegationModel { active: false, ..state.delegations[auth_id] },
                );
                lemma_announce_sound(
                    state.deactivate(auth_id),
                    EventModel::DelegationRevoked { auth_id, delegator },
                );
            }
        },
        Operation::Revoke { issuer, credential_id, reason } => {
            lemma_single_revocation_sound(state, issuer, credential_id, call.timestamp, reason);
        },
        Operation::CreateRegistry { issuer, nonce } => {
            let id = crate::ids::registry_id(call.timestamp, call.sequence);
            let registry = RegistryModel {
                id,
                issuer,
                credential_ids: Seq::empty(),
                nonce,
                created: call.timestamp,
                revoked_count: 0,
            };
            lemma_with_registry_sound(state, id, registry);
            lemma_announce_sound(
                state.with_registry(id, registry),
                EventModel::RevocationRegistryCreated { registry_id: id, issuer },
            );
        },
        Operation::RevokeWithRegistry { request, nonce } => {
            let now = call.timestamp;
            let id = request.credential_id;
            lemma_single_revocation_sound(state, request.issuer, id, now, request.reason);
            if revocation::revocation_refusal(state, request.issuer, id) is None
                && revocation::registry_refusal(
                state,
                request.issuer,
                request.registry_id,
            ) is None {
                let revoked = state.revoke_and_announce(request.issuer, id, now, request.reason);
                let evidence = ProofModel {
                    registry_id: request.registry_id,
                    credential_id: id,
                    nonce,
                    timestamp: now,
                };
                lemma_attach_proof_sound(revoked, evidence);
                lemma_enter_in_registry_sound(
                    revoked.attach_proof(evidence),
                    request.registry_id,
                    seq![id],
                    nonce,
                );
            }
        },
        Operation::RevokeBatch { request, nonces, nonce } => {
            let total = request.credential_ids.len();
            lemma_progress_sound(state, request, nonces, total);
            batch_revocation::lemma_progress_frame(state, request, nonces, total);
            let done = batch_revocation::batch_progress(state, request, nonces, total);
            if revocation::registry_refusal(state, request.issuer, request.registry_id) is None
                && done.error is None {
                assert(request.credential_ids.take(total as int) =~= request.credential_ids);
                lemma_enter_in_registry_sound(
                    done.state,
                    request.registry_id,
                    done.revoked,
                    nonce,
                );
                let entered = done.state.enter_in_registry(
                    request.registry_id,
                    done.revoked,
                    nonce,
                );
                let id = crate::ids::batch_id(request.now, call.sequence);
                let batch = BatchModel {
                    batch_id: id,
                    issuer: request.issuer,
                    credential_ids: request.credential_ids,
                    reason: request.reason,
                    timestamp: request.now,
                };
                lemma_record_batch_sound(entered, batch);
                lemma_announce_sound(
                    entered.record_batch(batch),
                    EventModel::BatchRevocationExecuted {
                        batch_id: id,
                        registry_id: request.registry_id,
                        issuer: request.issuer,
                    },
                );
            }
        },
    }
}

proof fn lemma_single_revocation_sound(
    state: CredentialState,
    issuer: Seq<u8>,
    id: Seq<u8>,
    now: u64,
    reason: Option<Seq<u8>>,
)
    requires
        sound(state),
    ensures
        sound(revocation::revocation_outcome(state, issuer, id, now, reason).0),
{
    if revocation::revocation_refusal(state, issuer, id) is None {
        lemma_revoke_sound(state, id, now, reason);
        lemma_announce_sound(
            state.revoke(id, now, reason),
            EventModel::CredentialRevoked { credential_id: id, issuer, reason },
        );
    }
}

} // verus!
