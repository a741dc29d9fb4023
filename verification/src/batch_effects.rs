//! What a batch revocation does to every part of the ledger, and what it
//! answers.

use vstd::prelude::*;

use crate::batch_revocation;
use crate::batch_revocation::BatchRequest;
use crate::credential::{CredentialIssuerError, EventModel, ProofModel};
use crate::credential_effects;
use crate::credential_store::CredentialState;
use crate::decimal;
use crate::ids;
use crate::revocation;

verus! {

/// Whether a credential without a revocation on record, or without a status at
/// all, has this identifier.
pub open spec fn in_force(state: CredentialState, id: Seq<u8>) -> bool {
    !state.statuses.contains_key(id) || state.statuses[id] == 0
}

/// The first `m` credentials of the batch are known and the requester's.
pub open spec fn all_own(state: CredentialState, request: BatchRequest, m: nat) -> bool {
    forall|j: int|
        0 <= j < m ==> state.credentials.contains_key(#[trigger] request.credential_ids[j])
            && state.credentials[request.credential_ids[j]].issuer == request.issuer
}

/// Whether the credential at index `j` is the first of the batch with its
/// identifier.
pub open spec fn first_named(request: BatchRequest, j: int) -> bool {
    forall|i: int|
        0 <= i < j ==> #[trigger] request.credential_ids[i] != request.credential_ids[j]
}

/// Whether the batch names the credential `id` before the index `j`.
pub open spec fn named_before(request: BatchRequest, id: Seq<u8>, j: int) -> bool {
    exists|i: int| 0 <= i < j && #[trigger] request.credential_ids[i] == id
}

/// `revoked` are those of the first `m` credentials of the batch that are in
/// force, each once, in the order in which they are first named.
pub open spec fn revocable(
    state: CredentialState,
    request: BatchRequest,
    m: nat,
    revoked: Seq<Seq<u8>>,
) -> bool {
    &&& revoked.no_duplicates()
    &&& forall|k: int|
        0 <= k < revoked.len() ==> in_force(state, #[trigger] revoked[k]) && exists|j: int|
            0 <= j < m && #[trigger] request.credential_ids[j] == revoked[k]
    &&& forall|j: int|
        0 <= j < m && in_force(state, #[trigger] request.credential_ids[j]) ==> revoked.contains(
            request.credential_ids[j],
        )
    &&& forall|k: int, l: int, j: int|
        0 <= k < l < revoked.len() && 0 <= j < m && #[trigger] request.credential_ids[j]
            == #[trigger] revoked[l] ==> #[trigger] named_before(request, revoked[k], j)
}

/// What was done to a credential that the batch revoked: it carries the time of
/// the batch, has the status of a revoked credential, has the reason of the batch
/// where there is one, and has a proof for the registry, with the nonce meant for
/// the place at which the batch first names it.
pub open spec fn revoked_in_batch(
    before: CredentialState,
    after: CredentialState,
    request: BatchRequest,
    nonces: Seq<Seq<u8>>,
    id: Seq<u8>,
) -> bool {
    let evidence = after.revocation_proofs[id];
    &&& after.credentials.contains_key(id)
    &&& credential_effects::marked_at(before.credentials[id], after.credentials[id], request.now)
    &&& after.statuses.contains_key(id)
    &&& after.statuses[id] == 1
    &&& request.reason is Some ==> after.reasons.contains_key(id) && after.reasons[id]
        == request.reason->0
    &&& request.reason is None ==> (after.reasons.contains_key(id) <==> before.reasons.contains_key(
        id,
    )) && after.reasons[id] == before.reasons[id]
    &&& after.revocation_proofs.contains_key(id)
    &&& evidence.registry_id == request.registry_id
    &&& evidence.credential_id == id
    &&& evidence.timestamp == request.now
    &&& exists|j: int|
        0 <= j < request.credential_ids.len() && #[trigger] request.credential_ids[j] == id
            && first_named(request, j) && evidence.nonce == nonces[j]
}

/// What the ledger holds of this credential is as it was.
pub open spec fn untouched(before: CredentialState, after: CredentialState, id: Seq<u8>) -> bool {
    &&& after.credentials.contains_key(id) <==> before.credentials.contains_key(id)
    &&& after.credentials[id] == before.credentials[id]
    &&& after.statuses.contains_key(id) <==> before.statuses.contains_key(id)
    &&& after.statuses[id] == before.statuses[id]
    &&& after.reasons.contains_key(id) <==> before.reasons.contains_key(id)
    &&& after.reasons[id] == before.reasons[id]
    &&& after.revocation_proofs.contains_key(id) <==> before.revocation_proofs.contains_key(id)
    &&& after.revocation_proofs[id] == before.revocation_proofs[id]
}

/// Exactly the credentials `revoked` were revoked by the batch, and no list and no
/// delegation changed.
pub open spec fn revoked_exactly(
    before: CredentialState,
    after: CredentialState,
    request: BatchRequest,
    nonces: Seq<Seq<u8>>,
    revoked: Seq<Seq<u8>>,
) -> bool {
    &&& forall|k: int|
        0 <= k < revoked.len() ==> revoked_in_batch(
            before,
            after,
            request,
            nonces,
            #[trigger] revoked[k],
        )
    &&& forall|id: Seq<u8>|
        !revoked.contains(id) ==> #[trigger] untouched(before, after, id)
    &&& after.issuer_creds == before.issuer_creds
    &&& after.subject_creds == before.subject_creds
    &&& credential_effects::same_delegations(before, after)
}

proof fn lemma_passed_over(
    state: CredentialState,
    after: CredentialState,
    request: BatchRequest,
    nonces: Seq<Seq<u8>>,
    m: nat,
    revoked: Seq<Seq<u8>>,
)
    requires
        m < request.credential_ids.len(),
        revocable(state, request, m, revoked),
        revoked_exactly(state, after, request, nonces, revoked),
        !in_force(after, request.credential_ids[m as int]),
    ensures
        revocable(state, request, m + 1, revoked),
{
    let id = request.credential_ids[m as int];
    if !revoked.contains(id) {
        assert(untouched(state, after, id));
    }
    assert forall|k: int, l: int, j: int|
        0 <= k < l < revoked.len() && 0 <= j < m + 1 && #[trigger] request.credential_ids[j]
            == #[trigger] revoked[l] implies #[trigger] named_before(
        request,
        revoked[k],
        j,
    ) by {
        let i = choose|i: int|
            0 <= i < m && #[trigger] request.credential_ids[i] == revoked[k];
        assert(request.credential_ids[i] == revoked[k]);
    }
}

proof fn lemma_one_more(
    state: CredentialState,
    before: CredentialState,
    after: CredentialState,
    request: BatchRequest,
    nonces: Seq<Seq<u8>>,
    m: nat,
    revoked: Seq<Seq<u8>>,
)
    requires
        m < request.credential_ids.len(),
        revocable(state, request, m, revoked),
        revoked_exactly(state, before, request, nonces, revoked),
        before.credentials.contains_key(request.credential_ids[m as int]),
        in_force(before, request.credential_ids[m as int]),
        after == before.revoke(
            request.credential_ids[m as int],
            request.now,
            request.reason,
        ).attach_proof(
            ProofModel {
                registry_id: request.registry_id,
                credential_id: request.credential_ids[m as int],
                nonce: nonces[m as int],
                timestamp: request.now,
            },
        ),
    ensures
        revocable(state, request, m + 1, revoked.push(request.credential_ids[m as int])),
        revoked_exactly(
            state,
            after,
            request,
            nonces,
            revoked.push(request.credential_ids[m as int]),
        ),
{
    let id = request.credential_ids[m as int];
    let more = revoked.push(id);
    if revoked.contains(id) {
        let k = choose|k: int| 0 <= k < revoked.len() && revoked[k] == id;
        assert(revoked_in_batch(state, before, request, nonces, revoked[k]));
    }
    assert(untouched(state, before, id));
    assert(more[revoked.len() as int] == id);
    assert(first_named(request, m as int));
    assert forall|j: int|
        0 <= j < m + 1 && in_force(state, #[trigger] request.credential_ids[j]) implies more.contains(
        request.credential_ids[j],
    ) by {
        if j < m {
            let k = choose|k: int|
                0 <= k < revoked.len() && revoked[k] == request.credential_ids[j];
            assert(more[k] == request.credential_ids[j]);
        }
    }
    assert forall|k: int| 0 <= k < more.len() implies in_force(state, #[trigger] more[k])
        && exists|j: int| 0 <= j < m + 1 && #[trigger] request.credential_ids[j] == more[k] by {
        if k < revoked.len() {
            assert(more[k] == revoked[k]);
            let j = choose|j: int|
                0 <= j < m && #[trigger] request.credential_ids[j] == revoked[k];
            assert(0 <= j < m + 1 && request.credential_ids[j] == more[k]);
        } else {
            assert(request.credential_ids[m as int] == more[k]);
        }
    }
    assert forall|k: int, l: int, j: int|
        0 <= k < l < more.len() && 0 <= j < m + 1 && #[trigger] request.credential_ids[j]
            == #[trigger] more[l] implies #[trigger] named_before(request, more[k], j) by {
        assert(more[k] == revoked[k]);
        if l < revoked.len() {
            assert(more[l] == revoked[l]);
            assert(j < m);
            assert(named_before(request, revoked[k], j));
        } else {
            if j < m {
                assert(in_force(state, request.credential_ids[j]));
            }
            let i = choose|i: int|
                0 <= i < m && #[trigger] request.credential_ids[i] == revoked[k];
            assert(i < j && request.credential_ids[i] == more[k]);
        }
    }
    assert forall|k: int| 0 <= k < more.len() implies revoked_in_batch(
        state,
        after,
        request,
        nonces,
        #[trigger] more[k],
    ) by {
        if k < revoked.len() {
            assert(more[k] == revoked[k]);
            assert(revoked_in_batch(state, before, request, nonces, revoked[k]));
        } else {
            assert(request.credential_ids[m as int] == more[k]);
        }
    }
    assert forall|x: Seq<u8>| !more.contains(x) implies #[trigger] untouched(state, after, x) by {
        if revoked.contains(x) {
            let k = choose|k: int| 0 <= k < revoked.len() && revoked[k] == x;
            assert(more[k] == x);
        }
        assert(untouched(state, before, x));
    }
}

/// How far a batch goes: up to the first credential that is unknown or not the
/// requester's, which gives the error, or to its end.
proof fn lemma_batch_reaches(
    state: CredentialState,
    request: BatchRequest,
    nonces: Seq<Seq<u8>>,
    n: nat,
) -> (m: nat)
    requires
        n <= request.credential_ids.len(),
    ensures
        m <= n,
        stops_at(
            state,
            request,
            n,
            m,
            batch_revocation::batch_progress(state, request, nonces, n).error,
        ),
        revocable(
            state,
            request,
            m,
            batch_revocation::batch_progress(state, request, nonces, n).revoked,
        ),
        revoked_exactly(
            state,
            batch_revocation::batch_progress(state, request, nonces, n).state,
            request,
            nonces,
            batch_revocation::batch_progress(state, request, nonces, n).revoked,
        ),
    decreases n,
{
    if n == 0 {
        0
    } else {
        let before = batch_revocation::batch_progress(state, request, nonces, (n - 1) as nat);
        let after = batch_revocation::batch_progress(state, request, nonces, n);
        let m = lemma_batch_reaches(state, request, nonces, (n - 1) as nat);
        let id = request.credential_ids[n - 1];
        if m < n - 1 {
            m
        } else {
            if before.revoked.contains(id) {
                let k = choose|k: int| 0 <= k < before.revoked.len() && before.revoked[k] == id;
                assert(revoked_in_batch(state, before.state, request, nonces, before.revoked[k]));
                let j = choose|j: int|
                    0 <= j < m && #[trigger] request.credential_ids[j] == before.revoked[k];
                assert(state.credentials.contains_key(request.credential_ids[j]));
            } else {
                assert(untouched(state, before.state, id));
            }
            if !state.credentials.contains_key(id) || state.credentials[id].issuer
                != request.issuer {
                m
            } else {
                if in_force(before.state, id) {
                    lemma_one_more(
                        state,
                        before.state,
                        after.state,
                        request,
                        nonces,
                        m,
                        before.revoked,
                    );
                } else {
                    lemma_passed_over(state, before.state, request, nonces, m, before.revoked);
                }
                n
            }
        }
    }
}

/// A batch of `n` credentials ends behind the first `m`, all of them known and
/// the requester's: at its end, or at one that is unknown or not the requester's.
pub open spec fn ends_behind(state: CredentialState, request: BatchRequest, n: nat, m: nat) -> bool {
    let stop = request.credential_ids[m as int];
    &&& all_own(state, request, m)
    &&& m < n ==> !(state.credentials.contains_key(stop) && state.credentials[stop].issuer
        == request.issuer)
}

/// The batch ends there with this error: none at its end, and otherwise one that
/// tells whether the credential is unknown or another's.
pub open spec fn stops_at(
    state: CredentialState,
    request: BatchRequest,
    n: nat,
    m: nat,
    error: Option<CredentialIssuerError>,
) -> bool {
    &&& ends_behind(state, request, n, m)
    &&& m == n ==> error is None
    &&& m < n ==> error == if state.credentials.contains_key(request.credential_ids[m as int]) {
        Some(CredentialIssuerError::Unauthorized)
    } else {
        Some(CredentialIssuerError::NotFound)
    }
}

/// A batch for a registry that is missing or another's is refused and changes
/// nothing. Otherwise it goes through its credentials up to the first that is
/// unknown or not the requester's, or to its end, and revokes exactly those in
/// force among them. Each gets the reason and a proof. Where the batch stopped,
/// registries, batch records and announcements are as they were. Where it came to
/// its end, the registry has the revoked credentials last, in order, counts them
/// and takes its nonce, the batch is on record, and it is announced.
pub proof fn law_batches_revoke_what_was_asked(
    state: CredentialState,
    request: BatchRequest,
    sequence: u32,
    nonces: Seq<Seq<u8>>,
    nonce: Seq<u8>,
) -> (reached: (nat, Seq<Seq<u8>>))
    requires
        batch_revocation::batch_has_room(state, request),
    ensures
        ({
            let (after, result) = batch_revocation::batch_outcome(
                state,
                request,
                sequence,
                nonces,
                nonce,
            );
            let (m, revoked) = reached;
            let total = request.credential_ids.len();
            let registry = state.registries[request.registry_id];
            let registry_after = after.registries[request.registry_id];
            let id = ids::batch_id(request.now, sequence);
            let record = after.batch_revocations[id];
            if !state.registries.contains_key(request.registry_id) {
                result == Err::<Seq<u8>, CredentialIssuerError>(
                    CredentialIssuerError::RegistryNotFound,
                ) && after == state
            } else if registry.issuer != request.issuer {
                result == Err::<Seq<u8>, CredentialIssuerError>(CredentialIssuerError::Unauthorized)
                    && after == state
            } else {
                &&& m <= total
                &&& stops_at(
                    state,
                    request,
                    total,
                    m,
                    match result {
                        Ok(_) => None,
                        Err(error) => Some(error),
                    },
                )
                &&& revocable(state, request, m, revoked)
                &&& revoked_exactly(state, after, request, nonces, revoked)
                &&& result is Err ==> {
                    &&& after.registries == state.registries
                    &&& after.batch_revocations == state.batch_revocations
                    &&& after.events == state.events
                }
                &&& result is Ok ==> {
                    &&& m == total
                    &&& result == Ok::<Seq<u8>, CredentialIssuerError>(id)
                    &&& after.registries.contains_key(request.registry_id)
                    &&& registry_after.id == registry.id
                    &&& registry_after.issuer == registry.issuer
                    &&& registry_after.credential_ids == registry.credential_ids + revoked
                    &&& registry_after.nonce == nonce
                    &&& registry_after.created == registry.created
                    &&& registry_after.revoked_count == registry.revoked_count + revoked.len()
                    &&& credential_effects::same_but_for(
                        state.registries,
                        after.registries,
                        request.registry_id,
                    )
                    &&& after.batch_revocations.contains_key(id)
                    &&& record.batch_id == id
                    &&& record.issuer == request.issuer
                    &&& record.credential_ids == request.credential_ids
                    &&& record.reason == request.reason
                    &&& record.timestamp == request.now
                    &&& credential_effects::same_but_for(
                        state.batch_revocations,
                        after.batch_revocations,
                        id,
                    )
                    &&& after.events == state.events.push(
                        EventModel::BatchRevocationExecuted {
                            batch_id: id,
                            registry_id: request.registry_id,
                            issuer: request.issuer,
                        },
                    )
                }
            }
        }),
{
    let total = request.credential_ids.len();
    let m = lemma_batch_reaches(state, request, nonces, total);
    batch_revocation::lemma_progress_frame(state, request, nonces, total);
    let done = batch_revocation::batch_progress(state, request, nonces, total);
    let after = batch_revocation::batch_outcome(state, request, sequence, nonces, nonce).0;
    if revocation::registry_refusal(state, request.issuer, request.registry_id) is None {
        assert forall|k: int| 0 <= k < done.revoked.len() implies revoked_in_batch(
            state,
            after,
            request,
            nonces,
            #[trigger] done.revoked[k],
        ) by {
            assert(revoked_in_batch(state, done.state, request, nonces, done.revoked[k]));
        }
        assert forall|x: Seq<u8>| !done.revoked.contains(x) implies #[trigger] untouched(
            state,
            after,
            x,
        ) by {
            assert(untouched(state, done.state, x));
        }
    }
    (m, done.revoked)
}

proof fn lemma_same_whatever_the_nonces(
    state: CredentialState,
    request: BatchRequest,
    a: Seq<Seq<u8>>,
    b: Seq<Seq<u8>>,
    n: nat,
)
    requires
        n <= request.credential_ids.len(),
    ensures
        batch_revocation::batch_progress(state, request, a, n).revoked
            == batch_revocation::batch_progress(state, request, b, n).revoked,
        batch_revocation::batch_progress(state, request, a, n).error
            == batch_revocation::batch_progress(state, request, b, n).error,
        batch_revocation::batch_progress(state, request, a, n).state.credentials
            == batch_revocation::batch_progress(state, request, b, n).state.credentials,
        batch_revocation::batch_progress(state, request, a, n).state.statuses
            == batch_revocation::batch_progress(state, request, b, n).state.statuses,
    decreases n,
{
    if n > 0 {
        lemma_same_whatever_the_nonces(state, request, a, b, (n - 1) as nat);
    }
}

/// The registry of the batch is there, and the requester's.
pub open spec fn registry_granted(state: CredentialState, request: BatchRequest) -> bool {
    state.registries.contains_key(request.registry_id)
        && state.registries[request.registry_id].issuer == request.issuer
}

/// The time followed by any of the identifiers is no longer than a byte string of
/// the host may be.
pub open spec fn all_hashable(credential_ids: Seq<Seq<u8>>, now: u64) -> bool {
    forall|k: int|
        0 <= k < credential_ids.len() ==> (#[trigger] credential_ids[k]).len() + decimal::digits(
            now as nat,
        ).len() <= u32::MAX
}

/// Whether a batch can be asked for rests on the credentials in force that it
/// would revoke before it ends: the registry has to count them, and the host has
/// to hash the time followed by the identifier of each.
pub proof fn law_batches_have_room_for_what_they_revoke(
    state: CredentialState,
    request: BatchRequest,
) -> (reached: (nat, Seq<Seq<u8>>))
    ensures
        reached.0 <= request.credential_ids.len(),
        ends_behind(state, request, request.credential_ids.len(), reached.0),
        revocable(state, request, reached.0, reached.1),
        batch_revocation::batch_has_room(state, request) <==> (registry_granted(state, request)
            ==> state.registries[request.registry_id].revoked_count + reached.1.len() <= u32::MAX),
        batch_revocation::batch_hashable(state, request) <==> (registry_granted(state, request)
            ==> all_hashable(reached.1, request.now)),
{
    let total = request.credential_ids.len();
    let some_nonces: Seq<Seq<u8>> = Seq::empty();
    let m = lemma_batch_reaches(state, request, some_nonces, total);
    let done = batch_revocation::batch_progress(state, request, some_nonces, total);
    assert forall|nonces: Seq<Seq<u8>>|
        (#[trigger] batch_revocation::batch_progress(state, request, nonces, total)).revoked
            == done.revoked by {
        lemma_same_whatever_the_nonces(state, request, nonces, some_nonces, total);
    }
    let length = decimal::digits(request.now as nat).len();
    if revocation::registry_refusal(state, request.issuer, request.registry_id) is None {
        if batch_revocation::batch_has_room(state, request) {
            assert(state.registries[request.registry_id].revoked_count
                + batch_revocation::batch_progress(
                state,
                request,
                some_nonces,
                total,
            ).revoked.len() <= u32::MAX);
        }
        if batch_revocation::batch_hashable(state, request) {
            assert forall|k: int| 0 <= k < done.revoked.len() implies (
            #[trigger] done.revoked[k]).len() + length <= u32::MAX by {
                assert(batch_revocation::batch_progress(
                    state,
                    request,
                    some_nonces,
                    total,
                ).revoked[k].len() + length <= u32::MAX);
            }
        }
        if all_hashable(done.revoked, request.now) {
            assert forall|nonces: Seq<Seq<u8>>, k: int|
                0 <= k < batch_revocation::batch_progress(
                    state,
                    request,
                    nonces,
                    total,
                ).revoked.len() implies (#[trigger] batch_revocation::batch_progress(
                state,
                request,
                nonces,
                total,
            ).revoked[k]).len() + length <= u32::MAX by {
                assert(batch_revocation::batch_progress(state, request, nonces, total).revoked
                    == done.revoked);
                assert(done.revoked[k].len() + length <= u32::MAX);
            }
        }
    }
    (m, done.revoked)
}

} // verus!
