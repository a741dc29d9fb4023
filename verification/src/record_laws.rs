//! What the models of records and ledgers tell of them.

use vstd::prelude::*;

use crate::credential;
use crate::credential::{
    BatchRevocationRecord, CredentialEvent, CredentialIssuerError, DelegationAuthorization,
    EventModel, RevocationProof, RevocationRegistryEntry, VerifiableCredential,
};
use crate::credential_store::{CredentialState, CredentialStore};
use crate::ledger::{Address, Invocation};
use crate::model;
use crate::model::{Bytes, Modeled};
use crate::reputation::{
    DataKey, ReputationData, ReputationHistoryEntry, ReputationScoreError, TrustAttestation,
};
use crate::reputation_score;
use crate::reputation_store::{ReputationState, ReputationStore};

verus! {

/// Both are missing, or both are there and hold the same bytes.
pub open spec fn same_text(text: Option<Bytes>, meaning: Option<Seq<u8>>) -> bool {
    &&& text is Some <==> meaning is Some
    &&& text is Some ==> text->0@ == meaning->0
}

/// The lists hold the same byte strings in the same order.
pub open spec fn same_texts(texts: Vec<Bytes>, meaning: Seq<Seq<u8>>) -> bool {
    &&& texts@.len() == meaning.len()
    &&& forall|i: int| 0 <= i < meaning.len() ==> #[trigger] meaning[i] == texts@[i]@
}

/// A list means what its items mean, item by item.
pub proof fn law_lists_mean_their_items<T: Modeled>(items: Seq<T>)
    ensures
        model::models(items).len() == items.len(),
        forall|i: int|
            0 <= i < items.len() ==> #[trigger] model::models(items)[i] == items[i].model(),
{
}

/// Byte strings, addresses, and lists and options of them mean their bytes.
pub proof fn law_bytes_mean_themselves(
    number: u32,
    text: Bytes,
    texts: Vec<Bytes>,
    optional: Option<Bytes>,
    address: Address,
    addresses: Vec<Address>,
    someone: Option<Address>,
)
    ensures
        number.model() == number,
        text.model() == text@,
        same_texts(texts, texts.model()),
        same_text(optional, optional.model()),
        address.model() == address.key@,
        addresses.model().len() == addresses@.len(),
        forall|i: int|
            0 <= i < addresses@.len() ==> #[trigger] addresses.model()[i] == addresses@[i].key@,
        someone is Some <==> someone.model() is Some,
        someone is Some ==> someone.model()->0 == someone->0.key@,
{
}

/// A call is authorized by an address exactly where the address is among its
/// signers.
pub proof fn law_signers_authorize(call: Invocation, key: Seq<u8>)
    ensures
        call.signed_by(key) <==> exists|i: int|
            0 <= i < call.signers@.len() && (#[trigger] call.signers@[i]).key@ == key,
{
    if exists|i: int| 0 <= i < call.signers@.len() && (#[trigger] call.signers@[i]).key@ == key {
        let i = choose|i: int|
            0 <= i < call.signers@.len() && (#[trigger] call.signers@[i]).key@ == key;
        assert(call.signers.model()[i] == key);
    }
    if call.signed_by(key) {
        let i = choose|i: int|
            0 <= i < call.signers.model().len() && call.signers.model()[i] == key;
        assert(call.signers@[i].key@ == key);
    }
}

/// The model of a credential has each of its fields.
pub proof fn law_credentials_mean_their_fields(record: VerifiableCredential)
    ensures
        record.model().id == record.id@,
        record.model().issuer == record.issuer.key@,
        record.model().subject == record.subject.key@,
        same_texts(record.type_, record.model().type_),
        record.model().credential_data == record.credential_data@,
        record.model().issuance_date == record.issuance_date,
        record.model().expiration_date == record.expiration_date,
        same_text(record.schema_id, record.model().schema_id),
        same_text(record.revocation, record.model().revocation),
        same_text(record.proof, record.model().proof),
{
}

/// The model of a delegation has each of its fields.
pub proof fn law_delegations_mean_their_fields(record: DelegationAuthorization)
    ensures
        record.model().id == record.id@,
        record.model().delegator == record.delegator.key@,
        record.model().delegate == record.delegate.key@,
        same_texts(record.authorized_types, record.model().authorized_types),
        record.model().max_issuances == record.max_issuances,
        record.model().issued_count == record.issued_count,
        record.model().expires_at == record.expires_at,
        record.model().active == record.active,
{
}

/// The models of registries, of proofs and of batch records have each of their
/// fields.
pub proof fn law_revocation_records_mean_their_fields(
    registry: RevocationRegistryEntry,
    evidence: RevocationProof,
    batch: BatchRevocationRecord,
)
    ensures
        registry.model().id == registry.id@,
        registry.model().issuer == registry.issuer.key@,
        same_texts(registry.credential_ids, registry.model().credential_ids),
        registry.model().nonce == registry.nonce@,
        registry.model().created == registry.created,
        registry.model().revoked_count == registry.revoked_count,
        evidence.model().registry_id == evidence.registry_id@,
        evidence.model().credential_id == evidence.credential_id@,
        evidence.model().nonce == evidence.nonce@,
        evidence.model().timestamp == evidence.timestamp,
        batch.model().batch_id == batch.batch_id@,
        batch.model().issuer == batch.issuer.key@,
        same_texts(batch.credential_ids, batch.model().credential_ids),
        same_text(batch.reason, batch.model().reason),
        batch.model().timestamp == batch.timestamp,
{
}

/// The model of an announcement is of the same kind and has each of its fields.
pub proof fn law_announcements_mean_their_fields(event: CredentialEvent)
    ensures
        match event {
            CredentialEvent::CredentialIssued { credential_id, issuer } => event@ == (
            EventModel::CredentialIssued {
                credential_id: credential_id@,
                issuer: issuer.key@,
            }),
            CredentialEvent::CredentialRevoked { credential_id, issuer, reason } => {
                &&& event@ is CredentialRevoked
                &&& event@->CredentialRevoked_credential_id == credential_id@
                &&& event@->CredentialRevoked_issuer == issuer.key@
                &&& same_text(reason, event@->reason)
            },
            CredentialEvent::DelegationAuthorized { auth_id, delegator, delegate } => event@ == (
            EventModel::DelegationAuthorized {
                auth_id: auth_id@,
                delegator: delegator.key@,
                delegate: delegate.key@,
            }),
            CredentialEvent::DelegationRevoked { auth_id, delegator } => event@ == (
            EventModel::DelegationRevoked { auth_id: auth_id@, delegator: delegator.key@ }),
            CredentialEvent::DelegatedCredentialIssued { credential_id, delegate } => event@ == (
            EventModel::DelegatedCredentialIssued {
                credential_id: credential_id@,
                delegate: delegate.key@,
            }),
            CredentialEvent::RevocationRegistryCreated { registry_id, issuer } => event@ == (
            EventModel::RevocationRegistryCreated {
                registry_id: registry_id@,
                issuer: issuer.key@,
            }),
            CredentialEvent::BatchRevocationExecuted { batch_id, registry_id, issuer } => event@
                == (EventModel::BatchRevocationExecuted {
                batch_id: batch_id@,
                registry_id: registry_id@,
                issuer: issuer.key@,
            }),
        },
{
}

/// What a credential ledger means is what its tables hold, and its announcements
/// in order.
pub proof fn law_credential_ledgers_mean_their_tables(store: CredentialStore)
    ensures
        store@.credentials == store.credentials@,
        store@.statuses == store.statuses@,
        store@.reasons == store.reasons@,
        store@.issuer_creds == store.issuer_creds@,
        store@.subject_creds == store.subject_creds@,
        store@.delegations == store.delegations@,
        store@.delegate_auths == store.delegate_auths@,
        store@.delegator_auths == store.delegator_auths@,
        store@.registries == store.registries@,
        store@.revocation_proofs == store.revocation_proofs@,
        store@.batch_revocations == store.batch_revocations@,
        store@.events.len() == store.events@.len(),
        forall|i: int|
            0 <= i < store.events@.len() ==> #[trigger] store@.events[i] == store.events@[i]@,
{
}

/// The models of profiles, of histories and of attestations have each of their
/// fields.
pub proof fn law_reputation_records_mean_their_fields(
    profile: ReputationData,
    entry: ReputationHistoryEntry,
    entries: Vec<ReputationHistoryEntry>,
    attestation: TrustAttestation,
    attestations: Vec<TrustAttestation>,
)
    ensures
        profile.model() == profile,
        entry.model().timestamp == entry.timestamp,
        entry.model().score == entry.score,
        entry.model().event == entry.event@,
        entries.model().len() == entries@.len(),
        forall|i: int|
            0 <= i < entries@.len() ==> #[trigger] entries.model()[i] == entries@[i].model(),
        attestation.model().truster == attestation.truster.key@,
        attestation.model().subject == attestation.subject.key@,
        attestation.model().weight == attestation.weight,
        attestation.model().reason == attestation.reason@,
        attestation.model().timestamp == attestation.timestamp,
        attestations.model().len() == attestations@.len(),
        forall|i: int|
            0 <= i < attestations@.len() ==> #[trigger] attestations.model()[i]
                == attestations@[i].model(),
{
}

/// What a reputation ledger means is what its tables hold, its administrator, its
/// configuration and its population in order.
pub proof fn law_reputation_ledgers_mean_their_tables(store: ReputationStore)
    ensures
        store@.admin is Some <==> store.admin is Some,
        store.admin is Some ==> store@.admin->0 == store.admin->0.key@,
        store@.config == store.config,
        store@.scores == store.scores@,
        store@.profiles == store.profiles@,
        store@.working == store.working@,
        store@.histories == store.histories@,
        store@.trust == store.trust@,
        store@.population.len() == store.population@.len(),
        forall|i: int|
            0 <= i < store.population@.len() ==> #[trigger] store@.population[i]
                == store.population@[i].key@,
{
}

/// A place of the reputation ledger is occupied exactly where something was put
/// there.
pub proof fn law_places_hold_what_was_put_there(store: ReputationStore, address: Address)
    ensures
        store@.occupied(DataKey::Config) <==> store.config is Some,
        store@.occupied(DataKey::Admin) <==> store.admin is Some,
        store@.occupied(DataKey::Score(address)) <==> store.scores@.contains_key(address.key@),
        store@.occupied(DataKey::Profile(address)) <==> store.profiles@.contains_key(address.key@),
        store@.occupied(DataKey::Working(address)) <==> store.working@.contains_key(address.key@),
        store@.occupied(DataKey::History(address)) <==> store.histories@.contains_key(address.key@),
        store@.occupied(DataKey::Trust(address)) <==> store.trust@.contains_key(address.key@),
        store@.occupied(DataKey::Population) <==> store.population@.len() > 0,
{
}

/// A result that is modelled succeeds with the same bytes, or fails with the same
/// error.
pub proof fn law_results_mean_themselves(
    made: Result<Bytes, CredentialIssuerError>,
    attested: Result<TrustAttestation, ReputationScoreError>,
)
    ensures
        match made {
            Ok(id) => credential::made(made) == Ok::<Seq<u8>, CredentialIssuerError>(id@),
            Err(error) => credential::made(made) == Err::<Seq<u8>, CredentialIssuerError>(error),
        },
        match attested {
            Ok(attestation) => reputation_score::attested_model(attested) is Ok
                && reputation_score::attested_model(attested)->Ok_0 == attestation.model(),
            Err(error) => reputation_score::attested_model(attested) is Err
                && reputation_score::attested_model(attested)->Err_0 == error,
        },
{
}

/// Errors of one ledger have different numbers, counted from one in the order of
/// the errors.
pub proof fn law_errors_have_their_numbers(
    a: CredentialIssuerError,
    b: CredentialIssuerError,
    c: ReputationScoreError,
    d: ReputationScoreError,
)
    ensures
        a.number() == b.number() <==> a == b,
        1 <= a.number() <= 16,
        a is Unauthorized <==> a.number() == 1,
        a is NotFound <==> a.number() == 2,
        a is InvalidCredential <==> a.number() == 3,
        a is AlreadyRevoked <==> a.number() == 4,
        a is Expired <==> a.number() == 5,
        a is InvalidSignature <==> a.number() == 6,
        a is InvalidIssuer <==> a.number() == 7,
        a is SchemaValidationFailed <==> a.number() == 8,
        a is SchemaNotFound <==> a.number() == 9,
        a is DelegationNotFound <==> a.number() == 10,
        a is DelegationExpired <==> a.number() == 11,
        a is DelegationLimitExceeded <==> a.number() == 12,
        a is UnauthorizedCredentialType <==> a.number() == 13,
        a is DelegationRevoked <==> a.number() == 14,
        a is RegistryNotFound <==> a.number() == 15,
        a is InvalidNonce <==> a.number() == 16,
        c.number() == d.number() <==> c == d,
        1 <= c.number() <= 3,
        c is NotInitialized <==> c.number() == 1,
        c is NotAdmin <==> c.number() == 2,
        c is InvalidScore <==> c.number() == 3,
{
}

/// A ledger on which nothing has happened holds nothing and has announced nothing.
pub proof fn law_ledgers_begin_with_nothing(key: Seq<u8>)
    ensures
        !CredentialState::empty().credentials.contains_key(key),
        !CredentialState::empty().statuses.contains_key(key),
        !CredentialState::empty().reasons.contains_key(key),
        !CredentialState::empty().issuer_creds.contains_key(key),
        !CredentialState::empty().subject_creds.contains_key(key),
        !CredentialState::empty().delegations.contains_key(key),
        !CredentialState::empty().delegate_auths.contains_key(key),
        !CredentialState::empty().delegator_auths.contains_key(key),
        !CredentialState::empty().registries.contains_key(key),
        !CredentialState::empty().revocation_proofs.contains_key(key),
        !CredentialState::empty().batch_revocations.contains_key(key),
        CredentialState::empty().events.len() == 0,
        ReputationState::empty().admin is None,
        ReputationState::empty().config is None,
        !ReputationState::empty().scores.contains_key(key),
        !ReputationState::empty().profiles.contains_key(key),
        !ReputationState::empty().working.contains_key(key),
        !ReputationState::empty().histories.contains_key(key),
        !ReputationState::empty().trust.contains_key(key),
        ReputationState::empty().population.len() == 0,
{
}

} // verus!
