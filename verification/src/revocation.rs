//! Revoking credentials one by one, and the registries that record it.

use vstd::prelude::*;

use crate::credential::{
    CredentialEvent, CredentialIssuerError, EventModel, ProofModel, RegistryModel,
    RevocationProof, RevocationRegistryEntry, VerifiableCredential,
};
use crate::credential_issuer::CredentialIssuer;
use crate::credential_store::{
    CredentialState, CredentialStore, STATUS_ACTIVE, STATUS_REVOKED,
};
use crate::decimal;
use crate::decimal::to_decimal;
use crate::digest;
use crate::digest::sha256;
use crate::ids;
use crate::ids::generate_registry_id;
use crate::ledger::{Address, Invocation};
use crate::model::{bytes_eq, Bytes, Modeled};

verus! {

/// Why the credential `id` is not revoked at the word of `issuer`; `None` where
/// it is.
pub open spec fn revocation_refusal(
    state: CredentialState,
    issuer: Seq<u8>,
    id: Seq<u8>,
) -> Option<CredentialIssuerError> {
    if !state.credentials.contains_key(id) {
        Some(CredentialIssuerError::NotFound)
    } else if state.credentials[id].issuer != issuer {
        Some(CredentialIssuerError::Unauthorized)
    } else if state.revoked(id) {
        Some(CredentialIssuerError::AlreadyRevoked)
    } else {
        None
    }
}

/// Why `issuer` may not enter anything in the registry `registry_id`; `None`
/// where that is allowed.
pub open spec fn registry_refusal(
    state: CredentialState,
    issuer: Seq<u8>,
    registry_id: Seq<u8>,
) -> Option<CredentialIssuerError> {
    if !state.registries.contains_key(registry_id) {
        Some(CredentialIssuerError::RegistryNotFound)
    } else if state.registries[registry_id].issuer != issuer {
        Some(CredentialIssuerError::Unauthorized)
    } else {
        None
    }
}

impl CredentialState {
    /// The ledger after the revocation of a single credential.
    pub open spec fn revoke_and_announce(
        self,
        issuer: Seq<u8>,
        id: Seq<u8>,
        now: u64,
        reason: Option<Seq<u8>>,
    ) -> CredentialState {
        self.revoke(id, now, reason).announce(
            EventModel::CredentialRevoked { credential_id: id, issuer, reason },
        )
    }

    /// The ledger with credentials entered in the registry `registry_id`, under
    /// a new nonce.
    pub open spec fn enter_in_registry(
        self,
        registry_id: Seq<u8>,
        credential_ids: Seq<Seq<u8>>,
        nonce: Seq<u8>,
    ) -> CredentialState {
        let registry = self.registries[registry_id];
        self.with_registry(
            registry_id,
            RegistryModel {
                credential_ids: registry.credential_ids + credential_ids,
                nonce,
                revoked_count: (registry.revoked_count + credential_ids.len()) as u32,
                ..registry
            },
        )
    }
}

/// The nonce of a registry as of the time `now`.
pub open spec fn registry_nonce(now: u64) -> Seq<u8> {
    digest::sha256_digest(decimal::digits(now as nat))
}

/// The nonce of the proof of a credential's revocation in a batch at the time
/// `now`.
pub open spec fn batch_nonce(now: u64, id: Seq<u8>) -> Seq<u8> {
    digest::sha256_digest(decimal::digits(now as nat) + id)
}

/// The nonces of the proofs of a batch, one for each credential.
pub open spec fn batch_nonces(now: u64, credential_ids: Seq<Seq<u8>>) -> Seq<Seq<u8>> {
    Seq::new(credential_ids.len(), |i: int| batch_nonce(now, credential_ids[i]))
}

/// The ledger after an attempt of `issuer` to revoke a credential at the time
/// `now`, and its result.
pub open spec fn revocation_outcome(
    state: CredentialState,
    issuer: Seq<u8>,
    id: Seq<u8>,
    now: u64,
    reason: Option<Seq<u8>>,
) -> (CredentialState, Result<(), CredentialIssuerError>) {
    match revocation_refusal(state, issuer, id) {
        Some(error) => (state, Err(error)),
        None => (state.revoke_and_announce(issuer, id, now, reason), Ok(())),
    }
}

/// A revocation of a single credential that is to be entered in a registry.
pub struct RegistryRequest {
    pub issuer: Seq<u8>,
    pub credential_id: Seq<u8>,
    pub registry_id: Seq<u8>,
    pub reason: Option<Seq<u8>>,
}

/// The ledger after such a revocation at the time `now`, with the nonce
/// `nonce`, and its result. The credential is revoked first, and stays so where
/// the registry then refuses the entry.
pub open spec fn registry_outcome(
    state: CredentialState,
    request: RegistryRequest,
    now: u64,
    nonce: Seq<u8>,
) -> (CredentialState, Result<(), CredentialIssuerError>) {
    match revocation_refusal(state, request.issuer, request.credential_id) {
        Some(error) => (state, Err(error)),
        None => {
            let revoked = state.revoke_and_announce(
                request.issuer,
                request.credential_id,
                now,
                request.reason,
            );
            match registry_refusal(state, request.issuer, request.registry_id) {
                Some(error) => (revoked, Err(error)),
                None => (
                    revoked.attach_proof(
                        ProofModel {
                            registry_id: request.registry_id,
                            credential_id: request.credential_id,
                            nonce,
                            timestamp: now,
                        },
                    ).enter_in_registry(request.registry_id, seq![request.credential_id], nonce),
                    Ok(()),
                ),
            }
        },
    }
}

/// The registry can count one more credential, where the request adds one.
pub open spec fn registry_has_room(state: CredentialState, request: RegistryRequest) -> bool {
    revocation_refusal(state, request.issuer, request.credential_id) is None && registry_refusal(
        state,
        request.issuer,
        request.registry_id,
    ) is None ==> state.registries[request.registry_id].revoked_count < u32::MAX
}

impl CredentialIssuer {
    /// Revokes a credential at the word of `issuer`, who has authorized the
    /// call.
    pub fn revoke_credential(
        store: &mut CredentialStore,
        call: &Invocation,
        issuer: Address,
        credential_id: Bytes,
        reason: Option<Bytes>,
    ) -> (revoked: Result<(), CredentialIssuerError>)
        requires
            call.signed_by(issuer.model()),
        ensures
            (final(store)@, revoked) == revocation_outcome(
                old(store)@,
                issuer.model(),
                credential_id@,
                call.timestamp,
                reason.model(),
            ),
    {
        let credential: VerifiableCredential = match store.credentials.get(&credential_id) {
            Some(credential) => credential.copied(),
            None => {
                return Err(CredentialIssuerError::NotFound);
            },
        };
        if !credential.issuer.same(&issuer) {
            return Err(CredentialIssuerError::Unauthorized);
        }
        if store.status_or(&credential_id, STATUS_ACTIVE) == STATUS_REVOKED {
            return Err(CredentialIssuerError::AlreadyRevoked);
        }
        store.mark_revoked(credential, &credential_id, call.timestamp, &reason);
        store.publish(CredentialEvent::CredentialRevoked { credential_id, issuer, reason });
        Ok(())
    }

    /// Creates a registry in which `issuer`, who has authorized the call, can
    /// record revocations. Its nonce is the digest of the time of the call.
    pub fn create_revocation_registry(
        store: &mut CredentialStore,
        call: &Invocation,
        host: &soroban_sdk::Env,
        issuer: Address,
    ) -> (created: Result<Bytes, CredentialIssuerError>)
        requires
            call.signed_by(issuer.model()),
        ensures
            created is Ok,
            created->Ok_0@ == ids::registry_id(call.timestamp, call.sequence),
            final(store)@ == registry_created(
                old(store)@,
                *call,
                issuer.model(),
                registry_nonce(call.timestamp),
            ),
    {
        proof {
            decimal::lemma_digits_len_u64(call.timestamp);
        }
        let nonce: Bytes = sha256(host, &to_decimal(call.timestamp));
        Self::create_revocation_registry_with_nonce(store, call, issuer, nonce)
    }

    /// Creates a registry with the given nonce.
    pub fn create_revocation_registry_with_nonce(
        store: &mut CredentialStore,
        call: &Invocation,
        issuer: Address,
        nonce: Bytes,
    ) -> (created: Result<Bytes, CredentialIssuerError>)
        requires
            call.signed_by(issuer.model()),
        ensures
            created is Ok,
            created->Ok_0@ == ids::registry_id(call.timestamp, call.sequence),
            final(store)@ == registry_created(old(store)@, *call, issuer.model(), nonce@),
    {
        let registry_id: Bytes = generate_registry_id(call.timestamp, call.sequence);
        let no_ids: Vec<Bytes> = Vec::new();
        assert(no_ids.model() =~= Seq::<Seq<u8>>::empty());
        let registry = RevocationRegistryEntry {
            id: registry_id.copied(),
            issuer: issuer.copied(),
            credential_ids: no_ids,
            nonce,
            created: call.timestamp,
            revoked_count: 0,
        };
        store.registries.set(&registry_id, registry);
        assert(store@ =~= old(store)@.with_registry(registry_id@, registry.model()));
        store.publish(
            CredentialEvent::RevocationRegistryCreated {
                registry_id: registry_id.copied(),
                issuer,
            },
        );
        Ok(registry_id)
    }

    /// Whether a revocation that is to be entered in a registry can be asked
    /// for: the registry can count what it adds.
    pub fn registry_revocation_possible(
        store: &CredentialStore,
        issuer: &Address,
        credential_id: &Bytes,
        registry_id: &Bytes,
        reason: &Option<Bytes>,
    ) -> (possible: bool)
        ensures
            possible == registry_has_room(
                store@,
                (RegistryRequest {
                    issuer: issuer.model(),
                    credential_id: credential_id@,
                    registry_id: registry_id@,
                    reason: reason.model(),
                }),
            ),
    {
        let refused = match store.credentials.get(credential_id) {
            Some(credential) => !credential.issuer.same(issuer) || store.status_or(
                credential_id,
                STATUS_ACTIVE,
            ) == STATUS_REVOKED,
            None => true,
        };
        match store.registries.get(registry_id) {
            Some(registry) => refused || !registry.issuer.same(issuer) || registry.revoked_count
                < u32::MAX,
            None => true,
        }
    }

    /// Revokes a credential at the word of `issuer`, who has authorized the
    /// call, and records it in a registry, whose nonce becomes the digest of
    /// the time of the call.
    pub fn revoke_credential_with_registry(
        store: &mut CredentialStore,
        call: &Invocation,
        host: &soroban_sdk::Env,
        issuer: Address,
        credential_id: Bytes,
        registry_id: Bytes,
        reason: Option<Bytes>,
    ) -> (revoked: Result<(), CredentialIssuerError>)
        requires
            call.signed_by(issuer.model()),
            registry_has_room(
                old(store)@,
                (RegistryRequest {
                    issuer: issuer.model(),
                    credential_id: credential_id@,
                    registry_id: registry_id@,
                    reason: reason.model(),
                }),
            ),
        ensures
            (final(store)@, revoked) == registry_outcome(
                old(store)@,
                (RegistryRequest {
                    issuer: issuer.model(),
                    credential_id: credential_id@,
                    registry_id: registry_id@,
                    reason: reason.model(),
                }),
                call.timestamp,
                registry_nonce(call.timestamp),
            ),
    {
        proof {
            decimal::lemma_digits_len_u64(call.timestamp);
        }
        let nonce: Bytes = sha256(host, &to_decimal(call.timestamp));
        Self::revoke_credential_with_registry_nonce(
            store,
            call,
            issuer,
            credential_id,
            registry_id,
            reason,
            nonce,
        )
    }

    /// Revokes a credential and records it in a registry under the given nonce.
    pub fn revoke_credential_with_registry_nonce(
        store: &mut CredentialStore,
        call: &Invocation,
        issuer: Address,
        credential_id: Bytes,
        registry_id: Bytes,
        reason: Option<Bytes>,
        nonce: Bytes,
    ) -> (revoked: Result<(), CredentialIssuerError>)
        requires
            call.signed_by(issuer.model()),
            registry_has_room(
                old(store)@,
                (RegistryRequest {
                    issuer: issuer.model(),
                    credential_id: credential_id@,
                    registry_id: registry_id@,
                    reason: reason.model(),
                }),
            ),
        ensures
            (final(store)@, revoked) == registry_outcome(
                old(store)@,
                (RegistryRequest {
                    issuer: issuer.model(),
                    credential_id: credential_id@,
                    registry_id: registry_id@,
                    reason: reason.model(),
                }),
                call.timestamp,
                nonce@,
            ),
    {
        match Self::revoke_credential(
            store,
            call,
            issuer.copied(),
            credential_id.copied(),
            reason,
        ) {
            Err(error) => {
                return Err(error);
            },
            Ok(()) => {},
        }
        let ghost revoked: CredentialState = store@;
        let mut registry: RevocationRegistryEntry = match store.registries.get(&registry_id) {
            Some(registry) => registry.copied(),
            None => {
                return Err(CredentialIssuerError::RegistryNotFound);
            },
        };
        if !registry.issuer.same(&issuer) {
            return Err(CredentialIssuerError::Unauthorized);
        }
        let evidence = RevocationProof {
            registry_id: registry_id.copied(),
            credential_id: credential_id.copied(),
            nonce: nonce.copied(),
            timestamp: call.timestamp,
        };
        store.revocation_proofs.set(&credential_id, evidence);
        let ghost proved: CredentialState = store@;
        assert(proved =~= revoked.attach_proof(evidence.model()));
        let ghost before: Seq<Seq<u8>> = registry.credential_ids.model();
        registry.credential_ids.push(credential_id);
        assert(registry.credential_ids.model() =~= before + seq![credential_id@]);
        registry.revoked_count = registry.revoked_count + 1;
        registry.nonce = nonce;
        store.registries.set(&registry_id, registry);
        assert(store@ =~= proved.enter_in_registry(registry_id@, seq![credential_id@], nonce@));
        Ok(())
    }
}

/// Whether `evidence` agrees with the proof on record, except for its time.
pub open spec fn proofs_agree(on_record: ProofModel, evidence: ProofModel) -> bool {
    &&& on_record.credential_id == evidence.credential_id
    &&& on_record.registry_id == evidence.registry_id
    &&& on_record.nonce == evidence.nonce
}

/// What comes of verifying `evidence` for the revocation of the credential `id`:
/// it holds where it agrees with the proof on record and the credential is
/// revoked; without a proof on record it is an error.
pub open spec fn proof_verification(
    state: CredentialState,
    id: Seq<u8>,
    evidence: ProofModel,
) -> Result<bool, CredentialIssuerError> {
    if state.revocation_proofs.contains_key(id) {
        Ok(proofs_agree(state.revocation_proofs[id], evidence) && state.revoked(id))
    } else {
        Err(CredentialIssuerError::RegistryNotFound)
    }
}

impl CredentialIssuer {
    /// Whether a credential is revoked.
    pub fn check_revocation_status(store: &CredentialStore, credential_id: &Bytes) -> (revoked:
        bool)
        ensures
            revoked == store@.revoked(credential_id@),
    {
        store.status_or(credential_id, STATUS_ACTIVE) == STATUS_REVOKED
    }

    /// The proof of a credential's revocation, if a registry has it.
    pub fn get_revocation_proof(store: &CredentialStore, credential_id: &Bytes) -> (found: Option<
        RevocationProof,
    >)
        ensures
            found.model() == if store@.revocation_proofs.contains_key(credential_id@) {
                Some(store@.revocation_proofs[credential_id@])
            } else {
                None
            },
    {
        match store.revocation_proofs.get(credential_id) {
            Some(evidence) => Some(evidence.copied()),
            None => None,
        }
    }

    /// Whether `evidence` proves the revocation of a credential: it agrees with
    /// the proof on record, and the credential is revoked.
    pub fn verify_revocation_proof(
        store: &CredentialStore,
        credential_id: &Bytes,
        evidence: &RevocationProof,
    ) -> (proved: Result<bool, CredentialIssuerError>)
        ensures
            proved == proof_verification(store@, credential_id@, evidence.model()),
            proved == if store@.revocation_proofs.contains_key(credential_id@) {
                Ok::<bool, CredentialIssuerError>(
                    proofs_agree(store@.revocation_proofs[credential_id@], evidence.model())
                        && store@.revoked(credential_id@),
                )
            } else {
                Err::<bool, CredentialIssuerError>(CredentialIssuerError::RegistryNotFound)
            },
    {
        let on_record = match store.revocation_proofs.get(credential_id) {
            Some(on_record) => on_record,
            None => {
                return Err(CredentialIssuerError::RegistryNotFound);
            },
        };
        if !bytes_eq(&on_record.credential_id, &evidence.credential_id) {
            return Ok(false);
        }
        if !bytes_eq(&on_record.registry_id, &evidence.registry_id) {
            return Ok(false);
        }
        if !bytes_eq(&on_record.nonce, &evidence.nonce) {
            return Ok(false);
        }
        Ok(store.status_or(credential_id, STATUS_ACTIVE) == STATUS_REVOKED)
    }

    /// The registry with the given identifier, if there is one.
    pub fn get_revocation_registry(store: &CredentialStore, registry_id: &Bytes) -> (found: Option<
        RevocationRegistryEntry,
    >)
        ensures
            found.model() == if store@.registries.contains_key(registry_id@) {
                Some(store@.registries[registry_id@])
            } else {
                None
            },
    {
        match store.registries.get(registry_id) {
            Some(registry) => Some(registry.copied()),
            None => None,
        }
    }
}

/// The ledger after the creation of a registry.
pub open spec fn registry_created(
    state: CredentialState,
    call: Invocation,
    issuer: Seq<u8>,
    nonce: Seq<u8>,
) -> CredentialState {
    let id = ids::registry_id(call.timestamp, call.sequence);
    state.with_registry(
        id,
        RegistryModel {
            id,
            issuer,
            credential_ids: Seq::empty(),
            nonce,
            created: call.timestamp,
            revoked_count: 0,
        },
    ).announce(EventModel::RevocationRegistryCreated { registry_id: id, issuer })
}

} // verus!
