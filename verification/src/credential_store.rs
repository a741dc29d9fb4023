//! What the credential ledger stores, and how its operations change it.

use vstd::prelude::*;

use crate::credential::{
    BatchModel, BatchRevocationRecord, CredentialEvent, CredentialModel, DelegationAuthorization,
    DelegationModel, EventModel, ProofModel, RegistryModel, RevocationProof,
    RevocationRegistryEntry, VerifiableCredential,
};
use crate::decimal;
use crate::decimal::to_decimal;
use crate::model::{Bytes, Modeled};
use crate::table::Table;

verus! {

/// The status of a credential in force.
pub const STATUS_ACTIVE: u32 = 0;

/// The status of a revoked credential.
pub const STATUS_REVOKED: u32 = 1;

/// Everything that the credential ledger stores, and what it has announced.
pub struct CredentialStore {
    pub credentials: Table<VerifiableCredential>,
    pub statuses: Table<u32>,
    pub reasons: Table<Bytes>,
    pub issuer_creds: Table<Vec<Bytes>>,
    pub subject_creds: Table<Vec<Bytes>>,
    pub delegations: Table<DelegationAuthorization>,
    pub delegate_auths: Table<Vec<Bytes>>,
    pub delegator_auths: Table<Vec<Bytes>>,
    pub registries: Table<RevocationRegistryEntry>,
    pub revocation_proofs: Table<RevocationProof>,
    pub batch_revocations: Table<BatchRevocationRecord>,
    pub events: Vec<CredentialEvent>,
}

/// What a credential ledger means. Credentials, their statuses, the reasons of
/// their revocation and their revocation proofs are found by the identifier of
/// the credential; delegations, registries and batch records by their own; the
/// lists of identifiers by an address.
#[verifier::ext_equal]
pub struct CredentialState {
    pub credentials: Map<Seq<u8>, CredentialModel>,
    pub statuses: Map<Seq<u8>, u32>,
    pub reasons: Map<Seq<u8>, Seq<u8>>,
    pub issuer_creds: Map<Seq<u8>, Seq<Seq<u8>>>,
    pub subject_creds: Map<Seq<u8>, Seq<Seq<u8>>>,
    pub delegations: Map<Seq<u8>, DelegationModel>,
    pub delegate_auths: Map<Seq<u8>, Seq<Seq<u8>>>,
    pub delegator_auths: Map<Seq<u8>, Seq<Seq<u8>>>,
    pub registries: Map<Seq<u8>, RegistryModel>,
    pub revocation_proofs: Map<Seq<u8>, ProofModel>,
    pub batch_revocations: Map<Seq<u8>, BatchModel>,
    pub events: Seq<EventModel>,
}

/// The list under `key`, empty where there is none.
pub open spec fn list_under(lists: Map<Seq<u8>, Seq<Seq<u8>>>, key: Seq<u8>) -> Seq<Seq<u8>> {
    if lists.contains_key(key) {
        lists[key]
    } else {
        Seq::empty()
    }
}

/// The lists with `id` added at the end of the one under `key`.
pub open spec fn listed(
    lists: Map<Seq<u8>, Seq<Seq<u8>>>,
    key: Seq<u8>,
    id: Seq<u8>,
) -> Map<Seq<u8>, Seq<Seq<u8>>> {
    lists.insert(key, list_under(lists, key).push(id))
}

impl CredentialState {
    /// A ledger on which nothing has happened.
    pub open spec fn empty() -> CredentialState {
        CredentialState {
            credentials: Map::empty(),
            statuses: Map::empty(),
            reasons: Map::empty(),
            issuer_creds: Map::empty(),
            subject_creds: Map::empty(),
            delegations: Map::empty(),
            delegate_auths: Map::empty(),
            delegator_auths: Map::empty(),
            registries: Map::empty(),
            revocation_proofs: Map::empty(),
            batch_revocations: Map::empty(),
            events: Seq::empty(),
        }
    }

    /// The status under an identifier; `fallback` where there is none.
    pub open spec fn status(self, id: Seq<u8>, fallback: u32) -> u32 {
        if self.statuses.contains_key(id) {
            self.statuses[id]
        } else {
            fallback
        }
    }

    /// Whether the credential with this identifier is revoked.
    pub open spec fn revoked(self, id: Seq<u8>) -> bool {
        self.status(id, STATUS_ACTIVE) == STATUS_REVOKED
    }

    /// The ledger with one more announcement.
    pub open spec fn announce(self, event: EventModel) -> CredentialState {
        CredentialState { events: self.events.push(event), ..self }
    }

    /// The ledger with a credential entered, in force, and listed under its
    /// issuer and its subject.
    pub open spec fn enroll(self, credential: CredentialModel) -> CredentialState {
        CredentialState {
            credentials: self.credentials.insert(credential.id, credential),
            statuses: self.statuses.insert(credential.id, STATUS_ACTIVE),
            issuer_creds: listed(self.issuer_creds, credential.issuer, credential.id),
            subject_creds: listed(self.subject_creds, credential.subject, credential.id),
            ..self
        }
    }

    /// The ledger with the credential `id` marked as revoked at `now`. The
    /// reason, where one is given, takes the place of an earlier one.
    pub open spec fn revoke(self, id: Seq<u8>, now: u64, reason: Option<Seq<u8>>) -> CredentialState {
        CredentialState {
            credentials: self.credentials.insert(
                id,
                CredentialModel {
                    revocation: Some(decimal::digits(now as nat)),
                    ..self.credentials[id]
                },
            ),
            statuses: self.statuses.insert(id, STATUS_REVOKED),
            reasons: match reason {
                Some(text) => self.reasons.insert(id, text),
                None => self.reasons,
            },
            ..self
        }
    }
}

impl View for CredentialStore {
    type V = CredentialState;

    open spec fn view(&self) -> CredentialState {
        CredentialState {
            credentials: self.credentials@,
            statuses: self.statuses@,
            reasons: self.reasons@,
            issuer_creds: self.issuer_creds@,
            subject_creds: self.subject_creds@,
            delegations: self.delegations@,
            delegate_auths: self.delegate_auths@,
            delegator_auths: self.delegator_auths@,
            registries: self.registries@,
            revocation_proofs: self.revocation_proofs@,
            batch_revocations: self.batch_revocations@,
            events: Seq::new(self.events@.len(), |i: int| self.events@[i]@),
        }
    }
}

/// Adds `id` at the end of the list under `key`.
fn append_id(lists: &mut Table<Vec<Bytes>>, key: &Bytes, id: &Bytes)
    ensures
        final(lists)@ == listed(old(lists)@, key@, id@),
{
    let mut list: Vec<Bytes> = read_list(lists, key);
    let ghost before: Seq<Seq<u8>> = list.model();
    list.push(id.copied());
    assert(list.model() =~= before.push(id@));
    lists.set(key, list);
}

/// The list under `key`, empty where there is none.
pub(crate) fn read_list(lists: &Table<Vec<Bytes>>, key: &Bytes) -> (list: Vec<Bytes>)
    ensures
        list.model() == list_under(lists@, key@),
{
    match lists.get(key) {
        Some(list) => list.copied(),
        None => {
            let list: Vec<Bytes> = Vec::new();
            assert(list.model() =~= Seq::<Seq<u8>>::empty());
            list
        },
    }
}

impl CredentialStore {
    /// A ledger on which nothing has happened.
    pub fn new() -> (store: CredentialStore)
        ensures
            store@ == CredentialState::empty(),
    {
        CredentialStore {
            credentials: Table::new(),
            statuses: Table::new(),
            reasons: Table::new(),
            issuer_creds: Table::new(),
            subject_creds: Table::new(),
            delegations: Table::new(),
            delegate_auths: Table::new(),
            delegator_auths: Table::new(),
            registries: Table::new(),
            revocation_proofs: Table::new(),
            batch_revocations: Table::new(),
            events: Vec::new(),
        }
    }

    /// The status under an identifier; `fallback` where there is none.
    pub(crate) fn status_or(&self, id: &Bytes, fallback: u32) -> (status: u32)
        ensures
            status == self@.status(id@, fallback),
    {
        match self.statuses.get(id) {
            Some(status) => *status,
            None => fallback,
        }
    }

    /// Announces an event.
    pub(crate) fn publish(&mut self, event: CredentialEvent)
        ensures
            final(self)@ == old(self)@.announce(event@),
    {
        self.events.push(event);
        assert(self@ =~= old(self)@.announce(event@));
    }

    /// Enters a credential.
    pub(crate) fn enter(&mut self, credential: VerifiableCredential)
        ensures
            final(self)@ == old(self)@.enroll(credential.model()),
    {
        let id: Bytes = credential.id.copied();
        append_id(&mut self.issuer_creds, &credential.issuer.key, &id);
        append_id(&mut self.subject_creds, &credential.subject.key, &id);
        self.credentials.set(&id, credential);
        self.statuses.set(&id, STATUS_ACTIVE);
        assert(self@ =~= old(self)@.enroll(credential.model()));
    }

    /// Enters a delegation and lists it under its two parties.
    pub(crate) fn enter_delegation(&mut self, auth: DelegationAuthorization)
        ensures
            final(self)@ == old(self)@.delegate(auth.model()),
    {
        let id: Bytes = auth.id.copied();
        append_id(&mut self.delegate_auths, &auth.delegate.key, &id);
        append_id(&mut self.delegator_auths, &auth.delegator.key, &id);
        self.delegations.set(&id, auth);
        assert(self@ =~= old(self)@.delegate(auth.model()));
    }

    /// Marks the credential as revoked.
    pub(crate) fn mark_revoked(
        &mut self,
        credential: VerifiableCredential,
        id: &Bytes,
        now: u64,
        reason: &Option<Bytes>,
    )
        requires
            old(self)@.credentials.contains_key(id@),
            old(self)@.credentials[id@] == credential.model(),
        ensures
            final(self)@ == old(self)@.revoke(id@, now, reason.model()),
    {
        let mut marked: VerifiableCredential = credential;
        marked.revocation = Some(to_decimal(now));
        self.credentials.set(id, marked);
        self.statuses.set(id, STATUS_REVOKED);
        match reason {
            Some(text) => {
                self.reasons.set(id, text.copied());
            },
            None => {},
        }
        assert(self@ =~= old(self)@.revoke(id@, now, reason.model()));
    }
}

impl CredentialState {
    /// The ledger with a delegation entered and listed under its two parties.
    pub open spec fn delegate(self, auth: DelegationModel) -> CredentialState {
        CredentialState {
            delegations: self.delegations.insert(auth.id, auth),
            delegate_auths: listed(self.delegate_auths, auth.delegate, auth.id),
            delegator_auths: listed(self.delegator_auths, auth.delegator, auth.id),
            ..self
        }
    }

    /// The ledger with a revocation proof in place of an earlier one for the
    /// same credential.
    pub open spec fn attach_proof(self, proof: ProofModel) -> CredentialState {
        CredentialState {
            revocation_proofs: self.revocation_proofs.insert(proof.credential_id, proof),
            ..self
        }
    }

    /// The ledger with a registry under the given identifier.
    pub open spec fn with_registry(self, id: Seq<u8>, registry: RegistryModel) -> CredentialState {
        CredentialState { registries: self.registries.insert(id, registry), ..self }
    }

    /// The ledger with a delegation under the given identifier.
    pub open spec fn with_delegation(self, id: Seq<u8>, auth: DelegationModel) -> CredentialState {
        CredentialState { delegations: self.delegations.insert(id, auth), ..self }
    }
}

} // verus!
