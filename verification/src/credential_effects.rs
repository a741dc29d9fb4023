//! What each operation of the credential ledger does to every part of the
//! ledger, and what it answers.

use vstd::prelude::*;

use crate::credential::{
    CredentialIssuerError, CredentialModel, EventModel, PaginatedCredentials, ProofModel,
};
use crate::credential_issuer;
use crate::credential_issuer::{IssueRequest, SchemaVerdict};
use crate::credential_store;
use crate::credential_store::CredentialState;
use crate::decimal;
use crate::delegation;
use crate::delegation::{DelegatedRequest, DelegationRequest};
use crate::digest;
use crate::ids;
use crate::ledger::Invocation;
use crate::revocation;
use crate::revocation::RegistryRequest;

verus! {

/// The maps agree under every key but one.
pub open spec fn same_but_for<V>(
    before: Map<Seq<u8>, V>,
    after: Map<Seq<u8>, V>,
    key: Seq<u8>,
) -> bool {
    forall|other: Seq<u8>|
        other != key ==> (#[trigger] after.contains_key(other) <==> before.contains_key(other))
            && (before.contains_key(other) ==> after[other] == before[other])
}

/// The list under `key` has `id` as one more item at its end, and is otherwise as
/// it was, as is every other list.
pub open spec fn appended_to(
    before: Map<Seq<u8>, Seq<Seq<u8>>>,
    after: Map<Seq<u8>, Seq<Seq<u8>>>,
    key: Seq<u8>,
    id: Seq<u8>,
) -> bool {
    &&& after.contains_key(key)
    &&& before.contains_key(key) ==> after[key] == before[key].push(id)
    &&& !before.contains_key(key) ==> after[key] == seq![id]
    &&& same_but_for(before, after, key)
}

/// The ledgers agree on registries, on reasons and proofs of revocations and on
/// batch records.
pub open spec fn same_revocations(before: CredentialState, after: CredentialState) -> bool {
    &&& after.reasons == before.reasons
    &&& after.registries == before.registries
    &&& after.revocation_proofs == before.revocation_proofs
    &&& after.batch_revocations == before.batch_revocations
}

/// The ledgers agree on delegations and their lists.
pub open spec fn same_delegations(before: CredentialState, after: CredentialState) -> bool {
    &&& after.delegations == before.delegations
    &&& after.delegate_auths == before.delegate_auths
    &&& after.delegator_auths == before.delegator_auths
}

/// The ledgers agree on credentials, their statuses and their lists.
pub open spec fn same_credentials(before: CredentialState, after: CredentialState) -> bool {
    &&& after.credentials == before.credentials
    &&& after.statuses == before.statuses
    &&& after.issuer_creds == before.issuer_creds
    &&& after.subject_creds == before.subject_creds
}

/// There are no types, one of them is named too long, or there is no data or too
/// much of it.
pub open spec fn contents_refused(types: Seq<Seq<u8>>, data: Seq<u8>) -> bool {
    ||| types.len() == 0
    ||| exists|i: int| 0 <= i < types.len() && (#[trigger] types[i]).len() > 128
    ||| data.len() == 0
    ||| data.len() > 10240
}

/// In the ledger of the call, the credential `id` came to have the issuer, the
/// contents and the schema of the request; it is active, and stands last among
/// the credentials of its issuer and among those of its subject. No other
/// credential changed.
pub open spec fn issued_as_asked(
    before: CredentialState,
    after: CredentialState,
    call: Invocation,
    id: Seq<u8>,
    request: IssueRequest,
) -> bool {
    let credential = after.credentials[id];
    &&& id == ids::credential_id(call.timestamp, call.sequence)
    &&& after.credentials.contains_key(id)
    &&& credential.id == id
    &&& credential.issuer == request.issuer
    &&& credential.subject == request.subject
    &&& credential.type_ == request.types
    &&& credential.credential_data == request.data
    &&& credential.issuance_date == call.timestamp
    &&& credential.expiration_date == request.expiration_date
    &&& credential.schema_id == request.schema_id
    &&& credential.revocation is None
    &&& credential.proof == Some(request.proof)
    &&& same_but_for(before.credentials, after.credentials, id)
    &&& after.statuses.contains_key(id)
    &&& after.statuses[id] == 0
    &&& same_but_for(before.statuses, after.statuses, id)
    &&& appended_to(before.issuer_creds, after.issuer_creds, request.issuer, id)
    &&& appended_to(before.subject_creds, after.subject_creds, request.subject, id)
    &&& same_revocations(before, after)
}

/// A credential is refused for its contents before it is refused for want of a
/// proof, and a refusal changes nothing. Otherwise the credential is issued as
/// asked for and announced, and its identifier is the result.
pub proof fn law_issuing_issues_what_was_asked(
    state: CredentialState,
    call: Invocation,
    request: IssueRequest,
)
    ensures
        ({
            let (after, result) = credential_issuer::issue_outcome(state, call, request);
            if contents_refused(request.types, request.data) {
                result == Err::<Seq<u8>, CredentialIssuerError>(
                    CredentialIssuerError::InvalidCredential,
                ) && after == state
            } else if request.proof.len() == 0 {
                result == Err::<Seq<u8>, CredentialIssuerError>(
                    CredentialIssuerError::InvalidSignature,
                ) && after == state
            } else {
                &&& result is Ok
                &&& issued_as_asked(state, after, call, result->Ok_0, request)
                &&& same_delegations(state, after)
                &&& after.events == state.events.push(
                    EventModel::CredentialIssued {
                        credential_id: result->Ok_0,
                        issuer: request.issuer,
                    },
                )
            }
        }),
{
    lemma_push_is_single(call);
}

proof fn lemma_push_is_single(call: Invocation)
    ensures
        Seq::<Seq<u8>>::empty().push(ids::credential_id(call.timestamp, call.sequence))
            == seq![ids::credential_id(call.timestamp, call.sequence)],
        Seq::<Seq<u8>>::empty().push(ids::delegation_id(call.timestamp, call.sequence))
            == seq![ids::delegation_id(call.timestamp, call.sequence)],
{
    assert(Seq::<Seq<u8>>::empty().push(ids::credential_id(call.timestamp, call.sequence))
        =~= seq![ids::credential_id(call.timestamp, call.sequence)]);
    assert(Seq::<Seq<u8>>::empty().push(ids::delegation_id(call.timestamp, call.sequence))
        =~= seq![ids::delegation_id(call.timestamp, call.sequence)]);
}

/// A credential that refers to a schema is refused first where the schema is
/// missing, then where its data does not conform, and then as any other. A
/// refusal changes nothing. Otherwise it is issued as asked for, without an
/// announcement.
pub proof fn law_issuing_with_schema_issues_what_was_asked(
    state: CredentialState,
    call: Invocation,
    verdict: SchemaVerdict,
    request: IssueRequest,
)
    ensures
        ({
            let (after, result) = credential_issuer::schema_outcome(state, call, verdict, request);
            if verdict is Missing {
                result == Err::<Seq<u8>, CredentialIssuerError>(
                    CredentialIssuerError::SchemaNotFound,
                ) && after == state
            } else if verdict is Rejected {
                result == Err::<Seq<u8>, CredentialIssuerError>(
                    CredentialIssuerError::SchemaValidationFailed,
                ) && after == state
            } else if contents_refused(request.types, request.data) {
                result == Err::<Seq<u8>, CredentialIssuerError>(
                    CredentialIssuerError::InvalidCredential,
                ) && after == state
            } else if request.proof.len() == 0 {
                result == Err::<Seq<u8>, CredentialIssuerError>(
                    CredentialIssuerError::InvalidSignature,
                ) && after == state
            } else {
                &&& result is Ok
                &&& issued_as_asked(state, after, call, result->Ok_0, request)
                &&& same_delegations(state, after)
                &&& after.events == state.events
            }
        }),
{
    lemma_push_is_single(call);
}

/// A delegate is refused, in this order: where there is no such delegation, it is
/// out of force, it is another's, it has expired, it is used up, one of the types
/// is not authorized, the contents are refused, or there is no proof. Of these
/// only an expiry changes anything: the delegation goes out of force. Otherwise
/// the credential is issued as asked for in the name of the delegator, the
/// delegation counts one more issuance, and the issuance is announced.
pub proof fn law_delegates_issue_what_was_asked(
    state: CredentialState,
    call: Invocation,
    request: DelegatedRequest,
)
    ensures
        ({
            let (after, result) = delegation::delegated_outcome(state, call, request);
            let auth = state.delegations[request.auth_id];
            let auth_after = after.delegations[request.auth_id];
            let refused = |error: CredentialIssuerError|
                result == Err::<Seq<u8>, CredentialIssuerError>(error) && after == state;
            if !state.delegations.contains_key(request.auth_id) {
                refused(CredentialIssuerError::DelegationNotFound)
            } else if !auth.active {
                refused(CredentialIssuerError::DelegationRevoked)
            } else if auth.delegate != request.delegate {
                refused(CredentialIssuerError::Unauthorized)
            } else if call.timestamp > auth.expires_at {
                &&& result == Err::<Seq<u8>, CredentialIssuerError>(
                    CredentialIssuerError::DelegationExpired,
                )
                &&& after.delegations.contains_key(request.auth_id)
                &&& auth_after.id == auth.id
                &&& auth_after.delegator == auth.delegator
                &&& auth_after.delegate == auth.delegate
                &&& auth_after.authorized_types == auth.authorized_types
                &&& auth_after.max_issuances == auth.max_issuances
                &&& auth_after.issued_count == auth.issued_count
                &&& auth_after.expires_at == auth.expires_at
                &&& !auth_after.active
                &&& same_but_for(state.delegations, after.delegations, request.auth_id)
                &&& after.delegate_auths == state.delegate_auths
                &&& after.delegator_auths == state.delegator_auths
                &&& same_credentials(state, after)
                &&& same_revocations(state, after)
                &&& after.events == state.events
            } else if auth.issued_count >= auth.max_issuances {
                refused(CredentialIssuerError::DelegationLimitExceeded)
            } else if exists|i: int|
                0 <= i < request.types.len() && !auth.authorized_types.contains(
                    #[trigger] request.types[i],
                ) {
                refused(CredentialIssuerError::UnauthorizedCredentialType)
            } else if contents_refused(request.types, request.data) {
                refused(CredentialIssuerError::InvalidCredential)
            } else if request.proof.len() == 0 {
                refused(CredentialIssuerError::InvalidSignature)
            } else {
                &&& result is Ok
                &&& issued_as_asked(
                    state,
                    after,
                    call,
                    result->Ok_0,
                    IssueRequest {
                        issuer: auth.delegator,
                        subject: request.subject,
                        types: request.types,
                        data: request.data,
                        expiration_date: request.expiration_date,
                        schema_id: None,
                        proof: request.proof,
                    },
                )
                &&& after.delegations.contains_key(request.auth_id)
                &&& auth_after.id == auth.id
                &&& auth_after.delegator == auth.delegator
                &&& auth_after.delegate == auth.delegate
                &&& auth_after.authorized_types == auth.authorized_types
                &&& auth_after.max_issuances == auth.max_issuances
                &&& auth_after.issued_count == auth.issued_count + 1
                &&& auth_after.expires_at == auth.expires_at
                &&& auth_after.active
                &&& same_but_for(state.delegations, after.delegations, request.auth_id)
                &&& after.delegate_auths == state.delegate_auths
                &&& after.delegator_auths == state.delegator_auths
                &&& after.events == state.events.push(
                    EventModel::DelegatedCredentialIssued {
                        credential_id: result->Ok_0,
                        delegate: request.delegate,
                    },
                )
            }
        }),
{
    lemma_push_is_single(call);
}

/// A delegation needs types, a limit and an expiry in the future; a refusal
/// changes nothing. Otherwise it is entered on the terms asked for, in force and
/// unused, stands last among the delegations of each party, and is announced.
pub proof fn law_delegations_are_authorized_as_asked(
    state: CredentialState,
    call: Invocation,
    request: DelegationRequest,
)
    ensures
        ({
            let (after, result) = delegation::authorization_outcome(state, call, request);
            if request.types.len() == 0 || request.max_issuances == 0 {
                result == Err::<Seq<u8>, CredentialIssuerError>(
                    CredentialIssuerError::InvalidCredential,
                ) && after == state
            } else if request.expires_at <= call.timestamp {
                result == Err::<Seq<u8>, CredentialIssuerError>(
                    CredentialIssuerError::DelegationExpired,
                ) && after == state
            } else {
                let id = ids::delegation_id(call.timestamp, call.sequence);
                let auth = after.delegations[id];
                &&& result == Ok::<Seq<u8>, CredentialIssuerError>(id)
                &&& after.delegations.contains_key(id)
                &&& auth.id == id
                &&& auth.delegator == request.delegator
                &&& auth.delegate == request.delegate
                &&& auth.authorized_types == request.types
                &&& auth.max_issuances == request.max_issuances
                &&& auth.issued_count == 0
                &&& auth.expires_at == request.expires_at
                &&& auth.active
                &&& same_but_for(state.delegations, after.delegations, id)
                &&& appended_to(state.delegate_auths, after.delegate_auths, request.delegate, id)
                &&& appended_to(state.delegator_auths, after.delegator_auths, request.delegator, id)
                &&& same_credentials(state, after)
                &&& same_revocations(state, after)
                &&& after.events == state.events.push(
                    EventModel::DelegationAuthorized {
                        auth_id: id,
                        delegator: request.delegator,
                        delegate: request.delegate,
                    },
                )
            }
        }),
{
    lemma_push_is_single(call);
}

/// Only its delegator can withdraw a delegation, and only while it is in force; a
/// refusal changes nothing. Withdrawing puts it out of force and changes nothing
/// else of it, and is announced.
pub proof fn law_withdrawing_puts_out_of_force(
    state: CredentialState,
    delegator: Seq<u8>,
    auth_id: Seq<u8>,
)
    ensures
        ({
            let (after, result) = delegation::withdrawal_outcome(state, delegator, auth_id);
            let auth = state.delegations[auth_id];
            let auth_after = after.delegations[auth_id];
            if !state.delegations.contains_key(auth_id) {
                result == Err::<(), CredentialIssuerError>(
                    CredentialIssuerError::DelegationNotFound,
                ) && after == state
            } else if auth.delegator != delegator {
                result == Err::<(), CredentialIssuerError>(CredentialIssuerError::Unauthorized)
                    && after == state
            } else if !auth.active {
                result == Err::<(), CredentialIssuerError>(
                    CredentialIssuerError::DelegationRevoked,
                ) && after == state
            } else {
                &&& result == Ok::<(), CredentialIssuerError>(())
                &&& after.delegations.contains_key(auth_id)
                &&& auth_after.id == auth.id
                &&& auth_after.delegator == auth.delegator
                &&& auth_after.delegate == auth.delegate
                &&& auth_after.authorized_types == auth.authorized_types
                &&& auth_after.max_issuances == auth.max_issuances
                &&& auth_after.issued_count == auth.issued_count
                &&& auth_after.expires_at == auth.expires_at
                &&& !auth_after.active
                &&& same_but_for(state.delegations, after.delegations, auth_id)
                &&& after.delegate_auths == state.delegate_auths
                &&& after.delegator_auths == state.delegator_auths
                &&& same_credentials(state, after)
                &&& same_revocations(state, after)
                &&& after.events == state.events.push(
                    EventModel::DelegationRevoked { auth_id, delegator },
                )
            }
        }),
{
}

/// The credential carries the time `now` as that of its revocation and is
/// otherwise as it was.
pub open spec fn marked_at(before: CredentialModel, after: CredentialModel, now: u64) -> bool {
    &&& after.id == before.id
    &&& after.issuer == before.issuer
    &&& after.subject == before.subject
    &&& after.type_ == before.type_
    &&& after.credential_data == before.credential_data
    &&& after.issuance_date == before.issuance_date
    &&& after.expiration_date == before.expiration_date
    &&& after.schema_id == before.schema_id
    &&& after.revocation == Some(decimal::digits(now as nat))
    &&& after.proof == before.proof
}

/// The credential `id`, and no other, was revoked at the time `now`: it carries
/// the time, has the status of a revoked credential, and the reason where one is
/// given.
pub open spec fn revoked_alone(
    before: CredentialState,
    after: CredentialState,
    id: Seq<u8>,
    now: u64,
    reason: Option<Seq<u8>>,
) -> bool {
    &&& after.credentials.contains_key(id)
    &&& marked_at(before.credentials[id], after.credentials[id], now)
    &&& same_but_for(before.credentials, after.credentials, id)
    &&& after.statuses.contains_key(id)
    &&& after.statuses[id] == 1
    &&& same_but_for(before.statuses, after.statuses, id)
    &&& reason is Some ==> after.reasons.contains_key(id) && after.reasons[id] == reason->0
    &&& reason is None ==> after.reasons == before.reasons
    &&& same_but_for(before.reasons, after.reasons, id)
    &&& after.issuer_creds == before.issuer_creds
    &&& after.subject_creds == before.subject_creds
    &&& same_delegations(before, after)
    &&& after.batch_revocations == before.batch_revocations
}

/// Whether the status on record is that of a revoked credential.
pub open spec fn status_is_revoked(state: CredentialState, id: Seq<u8>) -> bool {
    state.statuses.contains_key(id) && state.statuses[id] == 1
}

/// Only its issuer can revoke a credential, and only once; a refusal changes
/// nothing. Otherwise the credential alone is revoked, and that is announced.
pub proof fn law_revoking_revokes_one(
    state: CredentialState,
    issuer: Seq<u8>,
    id: Seq<u8>,
    now: u64,
    reason: Option<Seq<u8>>,
)
    ensures
        ({
            let (after, result) = revocation::revocation_outcome(state, issuer, id, now, reason);
            if !state.credentials.contains_key(id) {
                result == Err::<(), CredentialIssuerError>(CredentialIssuerError::NotFound)
                    && after == state
            } else if state.credentials[id].issuer != issuer {
                result == Err::<(), CredentialIssuerError>(CredentialIssuerError::Unauthorized)
                    && after == state
            } else if status_is_revoked(state, id) {
                result == Err::<(), CredentialIssuerError>(CredentialIssuerError::AlreadyRevoked)
                    && after == state
            } else {
                &&& result == Ok::<(), CredentialIssuerError>(())
                &&& revoked_alone(state, after, id, now, reason)
                &&& after.registries == state.registries
                &&& after.revocation_proofs == state.revocation_proofs
                &&& after.events == state.events.push(
                    EventModel::CredentialRevoked { credential_id: id, issuer, reason },
                )
            }
        }),
{
}

/// A registry begins without credentials, in the name of its issuer, with the
/// time of the call and the given nonce, and is announced; nothing else changes.
pub proof fn law_registries_begin_empty(
    state: CredentialState,
    call: Invocation,
    issuer: Seq<u8>,
    nonce: Seq<u8>,
)
    ensures
        ({
            let after = revocation::registry_created(state, call, issuer, nonce);
            let id = ids::registry_id(call.timestamp, call.sequence);
            let registry = after.registries[id];
            &&& after.registries.contains_key(id)
            &&& registry.id == id
            &&& registry.issuer == issuer
            &&& registry.credential_ids.len() == 0
            &&& registry.nonce == nonce
            &&& registry.created == call.timestamp
            &&& registry.revoked_count == 0
            &&& same_but_for(state.registries, after.registries, id)
            &&& same_credentials(state, after)
            &&& same_delegations(state, after)
            &&& after.reasons == state.reasons
            &&& after.revocation_proofs == state.revocation_proofs
            &&& after.batch_revocations == state.batch_revocations
            &&& after.events == state.events.push(
                EventModel::RevocationRegistryCreated { registry_id: id, issuer },
            )
        }),
{
}

/// A revocation for a registry is refused as any other revocation, and changes
/// nothing then. Otherwise the credential alone is revoked and that is announced.
/// Where the registry is missing or another's, that is all. Otherwise a proof is
/// put on record, and the registry has the credential last, counts it, and takes
/// the nonce.
pub proof fn law_revoking_for_a_registry_enters_it(
    state: CredentialState,
    request: RegistryRequest,
    now: u64,
    nonce: Seq<u8>,
)
    requires
        revocation::registry_has_room(state, request),
    ensures
        ({
            let (after, result) = revocation::registry_outcome(state, request, now, nonce);
            let id = request.credential_id;
            let registry = state.registries[request.registry_id];
            let registry_after = after.registries[request.registry_id];
            if !state.credentials.contains_key(id) {
                result == Err::<(), CredentialIssuerError>(CredentialIssuerError::NotFound)
                    && after == state
            } else if state.credentials[id].issuer != request.issuer {
                result == Err::<(), CredentialIssuerError>(CredentialIssuerError::Unauthorized)
                    && after == state
            } else if status_is_revoked(state, id) {
                result == Err::<(), CredentialIssuerError>(CredentialIssuerError::AlreadyRevoked)
                    && after == state
            } else {
                &&& revoked_alone(state, after, id, now, request.reason)
                &&& after.events == state.events.push(
                    EventModel::CredentialRevoked {
                        credential_id: id,
                        issuer: request.issuer,
                        reason: request.reason,
                    },
                )
                &&& if !state.registries.contains_key(request.registry_id) {
                    &&& result == Err::<(), CredentialIssuerError>(
                        CredentialIssuerError::RegistryNotFound,
                    )
                    &&& after.registries == state.registries
                    &&& after.revocation_proofs == state.revocation_proofs
                } else if registry.issuer != request.issuer {
                    &&& result == Err::<(), CredentialIssuerError>(
                        CredentialIssuerError::Unauthorized,
                    )
                    &&& after.registries == state.registries
                    &&& after.revocation_proofs == state.revocation_proofs
                } else {
                    &&& result == Ok::<(), CredentialIssuerError>(())
                    &&& after.revocation_proofs.contains_key(id)
                    &&& after.revocation_proofs[id].registry_id == request.registry_id
                    &&& after.revocation_proofs[id].credential_id == id
                    &&& after.revocation_proofs[id].nonce == nonce
                    &&& after.revocation_proofs[id].timestamp == now
                    &&& same_but_for(state.revocation_proofs, after.revocation_proofs, id)
                    &&& after.registries.contains_key(request.registry_id)
                    &&& registry_after.id == registry.id
                    &&& registry_after.issuer == registry.issuer
                    &&& registry_after.credential_ids == registry.credential_ids.push(id)
                    &&& registry_after.nonce == nonce
                    &&& registry_after.created == registry.created
                    &&& registry_after.revoked_count == registry.revoked_count + 1
                    &&& same_but_for(state.registries, after.registries, request.registry_id)
                }
            }
        }),
{
    let before = state.registries[request.registry_id].credential_ids;
    assert(before + seq![request.credential_id] =~= before.push(request.credential_id));
}

/// The registry has room for a revocation unless the revocation would be entered
/// and the count is at its end.
pub proof fn law_registries_have_room_for_one_more(
    state: CredentialState,
    request: RegistryRequest,
)
    ensures
        ({
            let id = request.credential_id;
            let entered = {
                &&& state.credentials.contains_key(id)
                &&& state.credentials[id].issuer == request.issuer
                &&& !status_is_revoked(state, id)
                &&& state.registries.contains_key(request.registry_id)
                &&& state.registries[request.registry_id].issuer == request.issuer
            };
            revocation::registry_has_room(state, request) <==> !(entered
                && state.registries[request.registry_id].revoked_count == u32::MAX)
        }),
{
}

/// The nonce of a registry is the digest of the time in decimal notation; that of
/// a proof in a batch is the digest of the time in decimal notation followed by
/// the credential's identifier.
pub proof fn law_nonces_are_digests(now: u64, id: Seq<u8>, credential_ids: Seq<Seq<u8>>)
    ensures
        revocation::registry_nonce(now) == digest::sha256_digest(decimal::digits(now as nat)),
        revocation::batch_nonce(now, id) == digest::sha256_digest(decimal::digits(now as nat) + id),
        revocation::batch_nonces(now, credential_ids).len() == credential_ids.len(),
        forall|i: int|
            0 <= i < credential_ids.len() ==> #[trigger] revocation::batch_nonces(
                now,
                credential_ids,
            )[i] == digest::sha256_digest(decimal::digits(now as nat) + credential_ids[i]),
{
}

/// Verifying an unknown credential is an error. A revoked one is not valid. One
/// with an expiration date is not valid exactly where the date has passed. Of the
/// others, one with an empty proof is an error, and the rest are valid.
pub proof fn law_verification_tells_whether_a_credential_holds(
    state: CredentialState,
    now: u64,
    id: Seq<u8>,
)
    ensures
        ({
            let verdict = credential_issuer::verification(state, now, id);
            let credential = state.credentials[id];
            let date = credential.expiration_date;
            let text = credential.proof;
            if !state.credentials.contains_key(id) {
                verdict == Err::<bool, CredentialIssuerError>(CredentialIssuerError::NotFound)
            } else if status_is_revoked(state, id) {
                verdict == Ok::<bool, CredentialIssuerError>(false)
            } else {
                &&& date is Some ==> (verdict == Ok::<bool, CredentialIssuerError>(false)
                    <==> now > date->0)
                &&& date is None ==> verdict != Ok::<bool, CredentialIssuerError>(false)
                &&& verdict != Ok::<bool, CredentialIssuerError>(false) ==> verdict == if text is Some
                    && text->0.len() == 0 {
                    Err::<bool, CredentialIssuerError>(CredentialIssuerError::InvalidSignature)
                } else {
                    Ok::<bool, CredentialIssuerError>(true)
                }
            }
        }),
{
}

/// A credential as a whole is wrong where it has no data or no types, and
/// otherwise where it carries an empty proof.
pub proof fn law_defects_are_what_is_missing(credential: CredentialModel)
    ensures
        ({
            let found = credential_issuer::defect(credential);
            let empty = credential.credential_data.len() == 0 || credential.type_.len() == 0;
            &&& found == Some(CredentialIssuerError::InvalidCredential) <==> empty
            &&& found == Some(CredentialIssuerError::InvalidSignature) <==> !empty
                && credential.proof is Some && credential.proof->0.len() == 0
            &&& found is None || found == Some(CredentialIssuerError::InvalidCredential) || found
                == Some(CredentialIssuerError::InvalidSignature)
        }),
{
}

/// A credential is called `active` where its status on record is zero, `revoked`
/// where it is one, and `unknown` where it is another or there is none; it is
/// revoked exactly where its status on record is one.
pub proof fn law_statuses_have_their_names(state: CredentialState, id: Seq<u8>)
    ensures
        ({
            let text = credential_issuer::status_text(state.status(id, 255));
            if state.statuses.contains_key(id) && state.statuses[id] == 0 {
                text == seq![97u8, 99u8, 116u8, 105u8, 118u8, 101u8]
            } else if state.statuses.contains_key(id) && state.statuses[id] == 1 {
                text == seq![114u8, 101u8, 118u8, 111u8, 107u8, 101u8, 100u8]
            } else {
                text == seq![117u8, 110u8, 107u8, 110u8, 111u8, 119u8, 110u8]
            }
        }),
        state.revoked(id) <==> status_is_revoked(state, id),
{
}

/// Evidence proves a revocation exactly where it names the registry, the
/// credential and the nonce of the proof on record and the credential is revoked,
/// whatever time it gives; without a proof on record it is an error.
pub proof fn law_evidence_has_to_agree(state: CredentialState, id: Seq<u8>, evidence: ProofModel)
    ensures
        ({
            let verdict = revocation::proof_verification(state, id, evidence);
            let on_record = state.revocation_proofs[id];
            if state.revocation_proofs.contains_key(id) {
                verdict == Ok::<bool, CredentialIssuerError>(
                    evidence.registry_id == on_record.registry_id && evidence.credential_id
                        == on_record.credential_id && evidence.nonce == on_record.nonce
                        && status_is_revoked(state, id),
                )
            } else {
                verdict == Err::<bool, CredentialIssuerError>(
                    CredentialIssuerError::RegistryNotFound,
                )
            }
        }),
{
}

/// A list that is looked up is the one on record, and empty where there is none.
pub proof fn law_lists_are_found(lists: Map<Seq<u8>, Seq<Seq<u8>>>, key: Seq<u8>)
    ensures
        lists.contains_key(key) ==> credential_store::list_under(lists, key) == lists[key],
        !lists.contains_key(key) ==> credential_store::list_under(lists, key).len() == 0,
{
}

/// A page of credentials has its number, the length of the whole list, the
/// identifiers from `page * size` on, at most `size` of them, and tells whether
/// more follow.
pub proof fn law_credential_pages_hold_their_items(
    result: PaginatedCredentials,
    items: Seq<Seq<u8>>,
    page: u32,
    size: u32,
)
    requires
        credential_issuer::is_page(result, items, page, size),
    ensures
        result.page == page,
        result.total == items.len(),
        result.has_more <==> page * size + size < items.len(),
        page * size >= items.len() ==> result.data@.len() == 0,
        page * size < items.len() ==> result.data@.len() == if size <= items.len() - page * size {
            size as int
        } else {
            items.len() - page * size
        },
        forall|i: int|
            0 <= i < result.data@.len() ==> (#[trigger] result.data@[i])@ == items[page * size + i],
{
    crate::paging::law_pages_hold_their_items(items, page, size);
    crate::record_laws::law_lists_mean_their_items(result.data@);
    assert forall|i: int| 0 <= i < result.data@.len() implies (#[trigger] result.data@[i])@
        == items[page * size + i] by {
        assert(crate::model::models(result.data@)[i] == result.data@[i]@);
    }
}

} // verus!
