//! Revoking many credentials at once.

use vstd::prelude::*;

use crate::credential;
use crate::credential::{
    BatchModel, BatchRevocationRecord, CredentialEvent, CredentialIssuerError, EventModel,
    ProofModel, RegistryModel, RevocationProof, RevocationRegistryEntry, VerifiableCredential,
};
use crate::credential_issuer::CredentialIssuer;
use crate::credential_laws;
use crate::credential_store::{
    CredentialState, CredentialStore, STATUS_ACTIVE, STATUS_REVOKED,
};
use crate::decimal;
use crate::decimal::to_decimal;
use crate::digest::sha256;
use crate::ids;
use crate::ids::generate_batch_id;
use crate::ledger::{Address, Invocation};
use crate::model::{list_contains, Bytes, Modeled};
use crate::revocation;

verus! {

/// A revocation of many credentials: who asks for it and when, which
/// credentials in which order, the registry to enter them in, and the reason.
#[verifier::ext_equal]
pub struct BatchRequest {
    pub issuer: Seq<u8>,
    pub now: u64,
    pub credential_ids: Seq<Seq<u8>>,
    pub registry_id: Seq<u8>,
    pub reason: Option<Seq<u8>>,
}

/// How far a batch has come: the ledger, the credentials that it has revoked,
/// in order, and why it stopped, if it did.
#[verifier::ext_equal]
pub struct BatchProgress {
    pub state: CredentialState,
    pub revoked: Seq<Seq<u8>>,
    pub error: Option<CredentialIssuerError>,
}

/// The progress with one more credential taken up. An unknown credential, or
/// one of another issuer, stops the batch; one that is not in force is passed
/// over; one in force is revoked and gets a proof with the given nonce.
pub open spec fn batch_step(
    progress: BatchProgress,
    request: BatchRequest,
    id: Seq<u8>,
    nonce: Seq<u8>,
) -> BatchProgress {
    let state = progress.state;
    if !state.credentials.contains_key(id) {
        BatchProgress { error: Some(CredentialIssuerError::NotFound), ..progress }
    } else if state.credentials[id].issuer != request.issuer {
        BatchProgress { error: Some(CredentialIssuerError::Unauthorized), ..progress }
    } else if state.status(id, STATUS_ACTIVE) != STATUS_ACTIVE {
        progress
    } else {
        BatchProgress {
            state: state.revoke(id, request.now, request.reason).attach_proof(
                ProofModel {
                    registry_id: request.registry_id,
                    credential_id: id,
                    nonce,
                    timestamp: request.now,
                },
            ),
            revoked: progress.revoked.push(id),
            ..progress
        }
    }
}

/// The progress after the first `n` credentials of the batch, or at the point
/// where it stopped before.
pub open spec fn batch_progress(
    state: CredentialState,
    request: BatchRequest,
    nonces: Seq<Seq<u8>>,
    n: nat,
) -> BatchProgress
    decreases n,
{
    if n == 0 {
        BatchProgress { state, revoked: Seq::empty(), error: None }
    } else {
        let before = batch_progress(state, request, nonces, (n - 1) as nat);
        if before.error is Some {
            before
        } else {
            batch_step(before, request, request.credential_ids[n - 1], nonces[n - 1])
        }
    }
}

/// The ledger after a batch in the ledger number `sequence`, with the given
/// nonces, and the batch's result. Where the batch stops, what it has revoked
/// stays revoked, and neither the registry nor a record tells of it.
pub open spec fn batch_outcome(
    state: CredentialState,
    request: BatchRequest,
    sequence: u32,
    nonces: Seq<Seq<u8>>,
    registry_nonce: Seq<u8>,
) -> (CredentialState, Result<Seq<u8>, CredentialIssuerError>) {
    match revocation::registry_refusal(state, request.issuer, request.registry_id) {
        Some(error) => (state, Err(error)),
        None => {
            let done = batch_progress(state, request, nonces, request.credential_ids.len());
            match done.error {
                Some(error) => (done.state, Err(error)),
                None => {
                    let id = ids::batch_id(request.now, sequence);
                    (
                        done.state.enter_in_registry(
                            request.registry_id,
                            done.revoked,
                            registry_nonce,
                        ).record_batch(
                            BatchModel {
                                batch_id: id,
                                issuer: request.issuer,
                                credential_ids: request.credential_ids,
                                reason: request.reason,
                                timestamp: request.now,
                            },
                        ).announce(
                            EventModel::BatchRevocationExecuted {
                                batch_id: id,
                                registry_id: request.registry_id,
                                issuer: request.issuer,
                            },
                        ),
                        Ok(id),
                    )
                },
            }
        },
    }
}

/// The registry can count the credentials that the batch revokes, which are the
/// same whatever the nonces.
pub open spec fn batch_has_room(state: CredentialState, request: BatchRequest) -> bool {
    revocation::registry_refusal(state, request.issuer, request.registry_id) is None ==> (forall|
        nonces: Seq<Seq<u8>>,
    |
        state.registries[request.registry_id].revoked_count + (#[trigger] batch_progress(
            state,
            request,
            nonces,
            request.credential_ids.len(),
        )).revoked.len() <= u32::MAX)
}

/// The host can hash the time of the batch followed by the identifier of any of
/// the credentials that the batch revokes.
pub open spec fn batch_hashable(state: CredentialState, request: BatchRequest) -> bool {
    revocation::registry_refusal(state, request.issuer, request.registry_id) is None ==> (forall|
        nonces: Seq<Seq<u8>>,
        i: int,
    |
        0 <= i < batch_progress(state, request, nonces, request.credential_ids.len()).revoked.len()
            ==> (#[trigger] batch_progress(
            state,
            request,
            nonces,
            request.credential_ids.len(),
        ).revoked[i]).len() + decimal::digits(request.now as nat).len() <= u32::MAX)
}

impl CredentialState {
    /// The ledger with the record of a batch.
    pub open spec fn record_batch(self, batch: BatchModel) -> CredentialState {
        CredentialState {
            batch_revocations: self.batch_revocations.insert(batch.batch_id, batch),
            ..self
        }
    }
}

/// A batch only ever adds to what it has revoked, and stays where it stopped.
pub proof fn lemma_progress_grows(
    state: CredentialState,
    request: BatchRequest,
    nonces: Seq<Seq<u8>>,
    m: nat,
    n: nat,
)
    requires
        m <= n,
    ensures
        batch_progress(state, request, nonces, m).revoked.is_prefix_of(
            batch_progress(state, request, nonces, n).revoked,
        ),
        batch_progress(state, request, nonces, m).error is Some ==> batch_progress(
            state,
            request,
            nonces,
            n,
        ) == batch_progress(state, request, nonces, m),
    decreases n,
{
    if m < n {
        lemma_progress_grows(state, request, nonces, m, (n - 1) as nat);
        assert(batch_progress(state, request, nonces, m).revoked.is_prefix_of(
            batch_progress(state, request, nonces, n).revoked,
        ));
    }
}

/// A batch changes neither registries nor batch records, nor anything that has
/// nothing to do with revocation, while it goes through the credentials.
pub proof fn lemma_progress_frame(
    state: CredentialState,
    request: BatchRequest,
    nonces: Seq<Seq<u8>>,
    n: nat,
)
    ensures
        ({
            let after = batch_progress(state, request, nonces, n).state;
            &&& after.registries == state.registries
            &&& after.batch_revocations == state.batch_revocations
            &&& after.issuer_creds == state.issuer_creds
            &&& after.subject_creds == state.subject_creds
            &&& after.delegations == state.delegations
            &&& after.delegate_auths == state.delegate_auths
            &&& after.delegator_auths == state.delegator_auths
            &&& after.events == state.events
        }),
    decreases n,
{
    if n > 0 {
        lemma_progress_frame(state, request, nonces, (n - 1) as nat);
    }
}

/// Where the nonces of a batch come from.
enum NonceSource<'a> {
    /// They are given: one for the proof of each credential, and the registry's.
    Given { proofs: &'a Vec<Bytes>, registry: &'a Bytes },
    /// They are digests that the host computes.
    Host(&'a soroban_sdk::Env),
}

impl<'a> NonceSource<'a> {
    spec fn proof_nonces(self, now: u64, credential_ids: Seq<Seq<u8>>) -> Seq<Seq<u8>> {
        match self {
            NonceSource::Given { proofs, .. } => proofs.model(),
            NonceSource::Host(_) => revocation::batch_nonces(now, credential_ids),
        }
    }

    spec fn registry_nonce(self, now: u64) -> Seq<u8> {
        match self {
            NonceSource::Given { registry, .. } => registry@,
            NonceSource::Host(_) => revocation::registry_nonce(now),
        }
    }

    /// There is a nonce for each credential that the batch revokes.
    spec fn fits(self, state: CredentialState, request: BatchRequest) -> bool {
        match self {
            NonceSource::Given { proofs, .. } => proofs@.len() == request.credential_ids.len(),
            NonceSource::Host(_) => batch_hashable(state, request),
        }
    }

    fn proof_nonce(&self, now: u64, credential_ids: &Vec<Bytes>, i: usize) -> (nonce: Bytes)
        requires
            i < credential_ids@.len(),
            match *self {
                NonceSource::Given { proofs, .. } => proofs@.len() == credential_ids@.len(),
                NonceSource::Host(_) => credential_ids.model()[i as int].len() + decimal::digits(
                    now as nat,
                ).len() <= u32::MAX,
            },
        ensures
            nonce@ == self.proof_nonces(now, credential_ids.model())[i as int],
    {
        match self {
            NonceSource::Given { proofs, .. } => proofs[i].copied(),
            NonceSource::Host(host) => {
                let mut text: Bytes = to_decimal(now);
                let mut id: Bytes = credential_ids[i].copied();
                text.append(&mut id);
                assert(text@ =~= decimal::digits(now as nat) + credential_ids.model()[i as int]);
                sha256(host, &text)
            },
        }
    }

    fn new_registry_nonce(&self, now: u64) -> (nonce: Bytes)
        ensures
            nonce@ == self.registry_nonce(now),
    {
        match self {
            NonceSource::Given { registry, .. } => registry.copied(),
            NonceSource::Host(host) => {
                proof {
                    decimal::lemma_digits_len_u64(now);
                }
                sha256(host, &to_decimal(now))
            },
        }
    }
}

impl CredentialIssuer {
    /// Revokes the credentials that are in force among those given, at the word
    /// of `issuer`, who has authorized the call, and enters them in a registry.
    /// The nonce of each proof is the digest of the time of the call followed
    /// by the credential's identifier; the new nonce of the registry is the
    /// digest of the time of the call.
    pub fn batch_revoke_credentials(
        store: &mut CredentialStore,
        call: &Invocation,
        host: &soroban_sdk::Env,
        issuer: Address,
        credential_ids: Vec<Bytes>,
        registry_id: Bytes,
        reason: Option<Bytes>,
    ) -> (batch: Result<Bytes, CredentialIssuerError>)
        requires
            call.signed_by(issuer.model()),
            batch_hashable(
                old(store)@,
                (BatchRequest {
                    issuer: issuer.model(),
                    now: call.timestamp,
                    credential_ids: credential_ids.model(),
                    registry_id: registry_id@,
                    reason: reason.model(),
                }),
            ),
            batch_has_room(
                old(store)@,
                (BatchRequest {
                    issuer: issuer.model(),
                    now: call.timestamp,
                    credential_ids: credential_ids.model(),
                    registry_id: registry_id@,
                    reason: reason.model(),
                }),
            ),
        ensures
            (final(store)@, credential::made(batch)) == batch_outcome(
                old(store)@,
                (BatchRequest {
                    issuer: issuer.model(),
                    now: call.timestamp,
                    credential_ids: credential_ids.model(),
                    registry_id: registry_id@,
                    reason: reason.model(),
                }),
                call.sequence,
                revocation::batch_nonces(call.timestamp, credential_ids.model()),
                revocation::registry_nonce(call.timestamp),
            ),
    {
        Self::revoke_batch(
            store,
            call,
            issuer,
            credential_ids,
            registry_id,
            reason,
            NonceSource::Host(host),
        )
    }

    /// Revokes the credentials that are in force among those given and enters
    /// them in a registry, with the given nonces for the proofs, one for each
    /// of the credentials, and for the registry.
    pub fn batch_revoke_credentials_with_nonces(
        store: &mut CredentialStore,
        call: &Invocation,
        issuer: Address,
        credential_ids: Vec<Bytes>,
        registry_id: Bytes,
        reason: Option<Bytes>,
        proof_nonces: &Vec<Bytes>,
        registry_nonce: Bytes,
    ) -> (batch: Result<Bytes, CredentialIssuerError>)
        requires
            call.signed_by(issuer.model()),
            proof_nonces@.len() == credential_ids@.len(),
            batch_has_room(
                old(store)@,
                (BatchRequest {
                    issuer: issuer.model(),
                    now: call.timestamp,
                    credential_ids: credential_ids.model(),
                    registry_id: registry_id@,
                    reason: reason.model(),
                }),
            ),
        ensures
            (final(store)@, credential::made(batch)) == batch_outcome(
                old(store)@,
                (BatchRequest {
                    issuer: issuer.model(),
                    now: call.timestamp,
                    credential_ids: credential_ids.model(),
                    registry_id: registry_id@,
                    reason: reason.model(),
                }),
                call.sequence,
                proof_nonces.model(),
                registry_nonce@,
            ),
    {
        Self::revoke_batch(
            store,
            call,
            issuer,
            credential_ids,
            registry_id,
            reason,
            NonceSource::Given { proofs: proof_nonces, registry: &registry_nonce },
        )
    }

    fn revoke_batch(
        store: &mut CredentialStore,
        call: &Invocation,
        issuer: Address,
        credential_ids: Vec<Bytes>,
        registry_id: Bytes,
        reason: Option<Bytes>,
        source: NonceSource<'_>,
    ) -> (batch: Result<Bytes, CredentialIssuerError>)
        requires
            source.fits(
                old(store)@,
                (BatchRequest {
                    issuer: issuer.model(),
                    now: call.timestamp,
                    credential_ids: credential_ids.model(),
                    registry_id: registry_id@,
                    reason: reason.model(),
                }),
            ),
            batch_has_room(
                old(store)@,
                (BatchRequest {
                    issuer: issuer.model(),
                    now: call.timestamp,
                    credential_ids: credential_ids.model(),
                    registry_id: registry_id@,
                    reason: reason.model(),
                }),
            ),
        ensures
            (final(store)@, credential::made(batch)) == batch_outcome(
                old(store)@,
                (BatchRequest {
                    issuer: issuer.model(),
                    now: call.timestamp,
                    credential_ids: credential_ids.model(),
                    registry_id: registry_id@,
                    reason: reason.model(),
                }),
                call.sequence,
                source.proof_nonces(call.timestamp, credential_ids.model()),
                source.registry_nonce(call.timestamp),
            ),
    {
        let ghost start: CredentialState = store@;
        let ghost request: BatchRequest = BatchRequest {
            issuer: issuer.model(),
            now: call.timestamp,
            credential_ids: credential_ids.model(),
            registry_id: registry_id@,
            reason: reason.model(),
        };
        let ghost nonces: Seq<Seq<u8>> = source.proof_nonces(call.timestamp, credential_ids.model());
        let ghost total: nat = credential_ids@.len();
        let mut registry: RevocationRegistryEntry = match store.registries.get(&registry_id) {
            Some(registry) => registry.copied(),
            None => {
                return Err(CredentialIssuerError::RegistryNotFound);
            },
        };
        if !registry.issuer.same(&issuer) {
            return Err(CredentialIssuerError::Unauthorized);
        }
        let ghost first: RegistryModel = registry.model();
        assert(first.credential_ids + Seq::<Seq<u8>>::empty() =~= first.credential_ids);
        let mut i: usize = 0;
        while i < credential_ids.len()
            invariant
                i <= credential_ids@.len(),
                total == credential_ids@.len(),
                start == old(store)@,
                nonces == source.proof_nonces(call.timestamp, credential_ids.model()),
                source.fits(start, request),
                request == (BatchRequest {
                    issuer: issuer.model(),
                    now: call.timestamp,
                    credential_ids: credential_ids.model(),
                    registry_id: registry_id@,
                    reason: reason.model(),
                }),
                store@ == batch_progress(start, request, nonces, i as nat).state,
                batch_progress(start, request, nonces, i as nat).error is None,
                registry.model() == (RegistryModel {
                    credential_ids: first.credential_ids + batch_progress(
                        start,
                        request,
                        nonces,
                        i as nat,
                    ).revoked,
                    revoked_count: (first.revoked_count + batch_progress(
                        start,
                        request,
                        nonces,
                        i as nat,
                    ).revoked.len()) as u32,
                    ..first
                }),
                first.revoked_count + batch_progress(start, request, nonces, total).revoked.len()
                    <= u32::MAX,
                revocation::registry_refusal(start, request.issuer, request.registry_id) is None,
            ensures
                i == total,
            decreases credential_ids@.len() - i,
        {
            let ghost progress: BatchProgress = batch_progress(start, request, nonces, i as nat);
            let ghost next: BatchProgress = batch_progress(
                start,
                request,
                nonces,
                (i + 1) as nat,
            );
            proof {
                lemma_progress_grows(start, request, nonces, (i + 1) as nat, total);
                assert(next == batch_step(
                    progress,
                    request,
                    credential_ids.model()[i as int],
                    nonces[i as int],
                ));
            }
            let credential_id: &Bytes = &credential_ids[i];
            let credential: VerifiableCredential = match store.credentials.get(credential_id) {
                Some(credential) => credential.copied(),
                None => {
                    return Err(CredentialIssuerError::NotFound);
                },
            };
            if !credential.issuer.same(&issuer) {
                return Err(CredentialIssuerError::Unauthorized);
            }
            if store.status_or(credential_id, STATUS_ACTIVE) == STATUS_ACTIVE {
                store.mark_revoked(credential, credential_id, call.timestamp, &reason);
                let ghost marked: CredentialState = store@;
                assert(next.revoked == progress.revoked.push(credential_id@));
                assert(next.revoked.last() == batch_progress(
                    start,
                    request,
                    nonces,
                    total,
                ).revoked[progress.revoked.len() as int]);
                let evidence = RevocationProof {
                    registry_id: registry_id.copied(),
                    credential_id: credential_id.copied(),
                    nonce: source.proof_nonce(call.timestamp, &credential_ids, i),
                    timestamp: call.timestamp,
                };
                store.revocation_proofs.set(credential_id, evidence);
                assert(store@ =~= marked.attach_proof(evidence.model()));
                let ghost before: Seq<Seq<u8>> = registry.credential_ids.model();
                registry.credential_ids.push(credential_id.copied());
                assert(registry.credential_ids.model() =~= before.push(credential_id@));
                assert(registry.credential_ids.model() =~= first.credential_ids + next.revoked);
                registry.revoked_count = registry.revoked_count + 1;
            }
            i += 1;
        }
        proof {
            lemma_progress_frame(start, request, nonces, total);
        }
        let ghost done: BatchProgress = batch_progress(start, request, nonces, total);
        registry.nonce = source.new_registry_nonce(call.timestamp);
        let ghost registry_nonce: Seq<u8> = registry.nonce@;
        store.registries.set(&registry_id, registry);
        let ghost entered: CredentialState = done.state.enter_in_registry(
            registry_id@,
            done.revoked,
            registry_nonce,
        );
        assert(store@ =~= entered);
        let batch_id: Bytes = generate_batch_id(call.timestamp, call.sequence);
        let record = BatchRevocationRecord {
            batch_id: batch_id.copied(),
            issuer: issuer.copied(),
            credential_ids,
            reason,
            timestamp: call.timestamp,
        };
        store.batch_revocations.set(&batch_id, record);
        assert(store@ =~= entered.record_batch(record.model()));
        store.publish(
            CredentialEvent::BatchRevocationExecuted {
                batch_id: batch_id.copied(),
                registry_id,
                issuer,
            },
        );
        Ok(batch_id)
    }
}

/// Every batch of `issuer` with these credentials has revoked the credentials
/// `revoked` after the first `n`, and has stopped there or not.
spec fn stands_at(
    state: CredentialState,
    issuer: Seq<u8>,
    credential_ids: Seq<Seq<u8>>,
    n: nat,
    revoked: Seq<Seq<u8>>,
    stopped: bool,
) -> bool {
    forall|request: BatchRequest, nonces: Seq<Seq<u8>>|
        request.issuer == issuer && request.credential_ids == credential_ids ==> (
        #[trigger] batch_progress(state, request, nonces, n)).revoked == revoked && (
        batch_progress(state, request, nonces, n).error is Some) == stopped
}

proof fn lemma_next_standing(
    state: CredentialState,
    issuer: Seq<u8>,
    credential_ids: Seq<Seq<u8>>,
    n: nat,
    revoked: Seq<Seq<u8>>,
)
    requires
        n < credential_ids.len(),
        stands_at(state, issuer, credential_ids, n, revoked, false),
    ensures
        ({
            let id = credential_ids[n as int];
            let refused = !state.credentials.contains_key(id) || state.credentials[id].issuer
                != issuer;
            let idle = state.status(id, STATUS_ACTIVE) != STATUS_ACTIVE || revoked.contains(id);
            stands_at(
                state,
                issuer,
                credential_ids,
                n + 1,
                if refused || idle {
                    revoked
                } else {
                    revoked.push(id)
                },
                refused,
            )
        }),
{
    let id = credential_ids[n as int];
    assert forall|request: BatchRequest, nonces: Seq<Seq<u8>>|
        request.issuer == issuer && request.credential_ids == credential_ids implies ({
        let refused = !state.credentials.contains_key(id) || state.credentials[id].issuer != issuer;
        let idle = state.status(id, STATUS_ACTIVE) != STATUS_ACTIVE || revoked.contains(id);
        let next = #[trigger] batch_progress(state, request, nonces, n + 1);
        &&& next.revoked == if refused || idle {
            revoked
        } else {
            revoked.push(id)
        }
        &&& (next.error is Some) == refused
    }) by {
        let progress = batch_progress(state, request, nonces, n);
        credential_laws::lemma_progress_statuses(state, request, nonces, n);
        assert(progress.state.credentials.contains_key(id) == state.credentials.contains_key(id));
        if state.credentials.contains_key(id) {
            assert(credential_laws::same_contents(
                state.credentials[id],
                progress.state.credentials[id],
            ));
        }
        assert(progress.state.status(id, STATUS_ACTIVE) == if revoked.contains(id) {
            STATUS_REVOKED
        } else {
            state.status(id, STATUS_ACTIVE)
        });
    }
}

proof fn lemma_stays_stopped(
    state: CredentialState,
    issuer: Seq<u8>,
    credential_ids: Seq<Seq<u8>>,
    n: nat,
    revoked: Seq<Seq<u8>>,
)
    requires
        n <= credential_ids.len(),
        stands_at(state, issuer, credential_ids, n, revoked, true),
    ensures
        stands_at(state, issuer, credential_ids, credential_ids.len(), revoked, true),
{
    assert forall|request: BatchRequest, nonces: Seq<Seq<u8>>|
        request.issuer == issuer && request.credential_ids == credential_ids implies (
    #[trigger] batch_progress(state, request, nonces, credential_ids.len())).revoked == revoked && (
    batch_progress(state, request, nonces, credential_ids.len()).error is Some) == true by {
        lemma_progress_grows(state, request, nonces, n, credential_ids.len());
        assert(batch_progress(state, request, nonces, n).error is Some);
    }
}

/// The credentials that a batch would revoke, in order.
fn preview(store: &CredentialStore, issuer: &Address, credential_ids: &Vec<Bytes>) -> (revoked: Vec<
    Bytes,
>)
    ensures
        exists|stopped: bool| #[trigger]
            stands_at(
                store@,
                issuer.model(),
                credential_ids.model(),
                credential_ids@.len(),
                revoked.model(),
                stopped,
            ),
{
    let ghost ids: Seq<Seq<u8>> = credential_ids.model();
    let mut revoked: Vec<Bytes> = Vec::new();
    assert(revoked.model() =~= Seq::<Seq<u8>>::empty());
    let mut i: usize = 0;
    while i < credential_ids.len()
        invariant
            i <= credential_ids@.len(),
            ids == credential_ids.model(),
            stands_at(store@, issuer.model(), ids, i as nat, revoked.model(), false),
        decreases credential_ids@.len() - i,
    {
        let credential_id: &Bytes = &credential_ids[i];
        assert(ids[i as int] == credential_id@);
        proof {
            lemma_next_standing(store@, issuer.model(), ids, i as nat, revoked.model());
        }
        let known = match store.credentials.get(credential_id) {
            Some(credential) => credential.issuer.same(issuer),
            None => false,
        };
        if !known {
            proof {
                lemma_stays_stopped(store@, issuer.model(), ids, (i + 1) as nat, revoked.model());
            }
            return revoked;
        }
        if store.status_or(credential_id, STATUS_ACTIVE) == STATUS_ACTIVE && !list_contains(
            &revoked,
            credential_id,
        ) {
            let ghost before: Seq<Seq<u8>> = revoked.model();
            revoked.push(credential_id.copied());
            assert(revoked.model() =~= before.push(credential_id@));
        }
        i += 1;
    }
    revoked
}

impl CredentialIssuer {
    /// Whether a batch can be asked for: the host can hash what the batch
    /// hashes, and the registry can count what the batch revokes.
    pub fn batch_possible(
        store: &CredentialStore,
        call: &Invocation,
        issuer: &Address,
        credential_ids: &Vec<Bytes>,
        registry_id: &Bytes,
        reason: &Option<Bytes>,
    ) -> (possible: bool)
        ensures
            possible == ({
                let request = BatchRequest {
                    issuer: issuer.model(),
                    now: call.timestamp,
                    credential_ids: credential_ids.model(),
                    registry_id: registry_id@,
                    reason: reason.model(),
                };
                batch_hashable(store@, request) && batch_has_room(store@, request)
            }),
    {
        let ghost request: BatchRequest = BatchRequest {
            issuer: issuer.model(),
            now: call.timestamp,
            credential_ids: credential_ids.model(),
            registry_id: registry_id@,
            reason: reason.model(),
        };
        let count: u32 = match store.registries.get(registry_id) {
            Some(registry) => {
                if !registry.issuer.same(issuer) {
                    return true;
                }
                registry.revoked_count
            },
            None => {
                return true;
            },
        };
        let revoked: Vec<Bytes> = preview(store, issuer, credential_ids);
        let ghost total: nat = request.credential_ids.len();
        let ghost some_nonces: Seq<Seq<u8>> = Seq::empty();
        assert(forall|nonces: Seq<Seq<u8>>|
            (#[trigger] batch_progress(store@, request, nonces, total)).revoked == revoked.model());
        assert(batch_progress(store@, request, some_nonces, total).revoked == revoked.model());
        if revoked.len() > (u32::MAX - count) as usize {
            return false;
        }
        proof {
            decimal::lemma_digits_len_u64(call.timestamp);
        }
        let time_length: usize = to_decimal(call.timestamp).len();
        let mut i: usize = 0;
        while i < revoked.len()
            invariant
                i <= revoked@.len(),
                time_length == decimal::digits(call.timestamp as nat).len(),
                time_length <= 20,
                request == (BatchRequest {
                    issuer: issuer.model(),
                    now: call.timestamp,
                    credential_ids: credential_ids.model(),
                    registry_id: registry_id@,
                    reason: reason.model(),
                }),
                total == request.credential_ids.len(),
                revocation::registry_refusal(store@, request.issuer, request.registry_id) is None,
                batch_progress(store@, request, some_nonces, total).revoked == revoked.model(),
                forall|j: int|
                    0 <= j < i ==> (#[trigger] revoked.model()[j]).len() + time_length <= u32::MAX,
            decreases revoked@.len() - i,
        {
            if revoked[i].len() > u32::MAX as usize - time_length {
                assert(batch_progress(store@, request, some_nonces, total).revoked[i as int].len()
                    + time_length > u32::MAX);
                return false;
            }
            i += 1;
        }
        true
    }
}

proof fn lemma_revoked_among(
    state: CredentialState,
    request: BatchRequest,
    nonces: Seq<Seq<u8>>,
    n: nat,
)
    requires
        n <= request.credential_ids.len(),
    ensures
        batch_progress(state, request, nonces, n).revoked.len() <= n,
        forall|i: int|
            0 <= i < batch_progress(state, request, nonces, n).revoked.len()
                ==> request.credential_ids.contains(
                #[trigger] batch_progress(state, request, nonces, n).revoked[i],
            ),
    decreases n,
{
    if n > 0 {
        lemma_revoked_among(state, request, nonces, (n - 1) as nat);
        let before = batch_progress(state, request, nonces, (n - 1) as nat).revoked;
        let after = batch_progress(state, request, nonces, n).revoked;
        assert(request.credential_ids.contains(request.credential_ids[n - 1]));
        assert forall|i: int| 0 <= i < after.len() implies request.credential_ids.contains(
            #[trigger] after[i],
        ) by {
            if i < before.len() {
                assert(after[i] == before[i]);
            }
        }
    }
}

/// A registry that can count every credential of a batch has room for the
/// batch, and a host that can hash every identifier can hash what the batch
/// hashes.
pub proof fn law_room_for_all(state: CredentialState, request: BatchRequest)
    ensures
        state.registries[request.registry_id].revoked_count + request.credential_ids.len()
            <= u32::MAX ==> batch_has_room(state, request),
        (forall|i: int|
            0 <= i < request.credential_ids.len() ==> (#[trigger] request.credential_ids[i]).len()
                + decimal::digits(request.now as nat).len() <= u32::MAX) ==> batch_hashable(
            state,
            request,
        ),
{
    let total = request.credential_ids.len();
    assert forall|nonces: Seq<Seq<u8>>|
        (#[trigger] batch_progress(state, request, nonces, total)).revoked.len() <= total by {
        lemma_revoked_among(state, request, nonces, total);
    }
    assert forall|nonces: Seq<Seq<u8>>, i: int|
        0 <= i < batch_progress(
            state,
            request,
            nonces,
            total,
        ).revoked.len() implies request.credential_ids.contains(
        #[trigger] batch_progress(state, request, nonces, total).revoked[i],
    ) by {
        lemma_revoked_among(state, request, nonces, total);
    }
}

} // verus!
