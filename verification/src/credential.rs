//! The records of the credential ledger.

use vstd::prelude::*;

use crate::ledger::Address;
use crate::model::{Bytes, Modeled};

verus! {

/// A credential that an issuer vouches for.
#[derive(Debug, Clone, PartialEq, Eq)]
pub struct VerifiableCredential {
    pub id: Bytes,
    pub issuer: Address,
    pub subject: Address,
    pub type_: Vec<Bytes>,
    pub credential_data: Bytes,
    pub issuance_date: u64,
    pub expiration_date: Option<u64>,
    pub schema_id: Option<Bytes>,
    pub revocation: Option<Bytes>,
    pub proof: Option<Bytes>,
}

/// What a credential means.
#[verifier::ext_equal]
pub struct CredentialModel {
    pub id: Seq<u8>,
    pub issuer: Seq<u8>,
    pub subject: Seq<u8>,
    pub type_: Seq<Seq<u8>>,
    pub credential_data: Seq<u8>,
    pub issuance_date: u64,
    pub expiration_date: Option<u64>,
    pub schema_id: Option<Seq<u8>>,
    pub revocation: Option<Seq<u8>>,
    pub proof: Option<Seq<u8>>,
}

impl Modeled for VerifiableCredential {
    type M = CredentialModel;

    open spec fn model(&self) -> CredentialModel {
        CredentialModel {
            id: self.id.model(),
            issuer: self.issuer.model(),
            subject: self.subject.model(),
            type_: self.type_.model(),
            credential_data: self.credential_data.model(),
            issuance_date: self.issuance_date,
            expiration_date: self.expiration_date,
            schema_id: self.schema_id.model(),
            revocation: self.revocation.model(),
            proof: self.proof.model(),
        }
    }

    fn copied(&self) -> (copy: VerifiableCredential) {
        VerifiableCredential {
            id: self.id.copied(),
            issuer: self.issuer.copied(),
            subject: self.subject.copied(),
            type_: self.type_.copied(),
            credential_data: self.credential_data.copied(),
            issuance_date: self.issuance_date,
            expiration_date: self.expiration_date,
            schema_id: self.schema_id.copied(),
            revocation: self.revocation.copied(),
            proof: self.proof.copied(),
        }
    }
}

/// The right of a delegate to issue credentials in the name of a delegator.
#[derive(Debug, Clone, PartialEq, Eq)]
pub struct DelegationAuthorization {
    pub id: Bytes,
    pub delegator: Address,
    pub delegate: Address,
    pub authorized_types: Vec<Bytes>,
    pub max_issuances: u32,
    pub issued_count: u32,
    pub expires_at: u64,
    pub active: bool,
}

/// What a delegation means.
#[verifier::ext_equal]
pub struct DelegationModel {
    pub id: Seq<u8>,
    pub delegator: Seq<u8>,
    pub delegate: Seq<u8>,
    pub authorized_types: Seq<Seq<u8>>,
    pub max_issuances: u32,
    pub issued_count: u32,
    pub expires_at: u64,
    pub active: bool,
}

impl Modeled for DelegationAuthorization {
    type M = DelegationModel;

    open spec fn model(&self) -> DelegationModel {
        DelegationModel {
            id: self.id.model(),
            delegator: self.delegator.model(),
            delegate: self.delegate.model(),
            authorized_types: self.authorized_types.model(),
            max_issuances: self.max_issuances,
            issued_count: self.issued_count,
            expires_at: self.expires_at,
            active: self.active,
        }
    }

    fn copied(&self) -> (copy: DelegationAuthorization) {
        DelegationAuthorization {
            id: self.id.copied(),
            delegator: self.delegator.copied(),
            delegate: self.delegate.copied(),
            authorized_types: self.authorized_types.copied(),
            max_issuances: self.max_issuances,
            issued_count: self.issued_count,
            expires_at: self.expires_at,
            active: self.active,
        }
    }
}

/// One link in a chain of delegations.
#[derive(Debug, Clone, PartialEq, Eq)]
pub struct DelegationChainEntry {
    pub delegator: Address,
    pub delegate: Address,
    pub authorized_types: Vec<Bytes>,
    pub timestamp: u64,
    pub revoked: bool,
}

/// An issuer's list of revoked credentials.
#[derive(Debug, Clone, PartialEq, Eq)]
pub struct RevocationRegistryEntry {
    pub id: Bytes,
    pub issuer: Address,
    pub credential_ids: Vec<Bytes>,
    pub nonce: Bytes,
    pub created: u64,
    pub revoked_count: u32,
}

/// What a revocation registry means.
#[verifier::ext_equal]
pub struct RegistryModel {
    pub id: Seq<u8>,
    pub issuer: Seq<u8>,
    pub credential_ids: Seq<Seq<u8>>,
    pub nonce: Seq<u8>,
    pub created: u64,
    pub revoked_count: u32,
}

impl Modeled for RevocationRegistryEntry {
    type M = RegistryModel;

    open spec fn model(&self) -> RegistryModel {
        RegistryModel {
            id: self.id.model(),
            issuer: self.issuer.model(),
            credential_ids: self.credential_ids.model(),
            nonce: self.nonce.model(),
            created: self.created,
            revoked_count: self.revoked_count,
        }
    }

    fn copied(&self) -> (copy: RevocationRegistryEntry) {
        RevocationRegistryEntry {
            id: self.id.copied(),
            issuer: self.issuer.copied(),
            credential_ids: self.credential_ids.copied(),
            nonce: self.nonce.copied(),
            created: self.created,
            revoked_count: self.revoked_count,
        }
    }
}

/// Evidence that a credential was entered in a registry.
#[derive(Debug, Clone, PartialEq, Eq)]
pub struct RevocationProof {
    pub registry_id: Bytes,
    pub credential_id: Bytes,
    pub nonce: Bytes,
    pub timestamp: u64,
}

/// What a revocation proof means.
#[verifier::ext_equal]
pub struct ProofModel {
    pub registry_id: Seq<u8>,
    pub credential_id: Seq<u8>,
    pub nonce: Seq<u8>,
    pub timestamp: u64,
}

impl Modeled for RevocationProof {
    type M = ProofModel;

    open spec fn model(&self) -> ProofModel {
        ProofModel {
            registry_id: self.registry_id.model(),
            credential_id: self.credential_id.model(),
            nonce: self.nonce.model(),
            timestamp: self.timestamp,
        }
    }

    fn copied(&self) -> (copy: RevocationProof) {
        RevocationProof {
            registry_id: self.registry_id.copied(),
            credential_id: self.credential_id.copied(),
            nonce: self.nonce.copied(),
            timestamp: self.timestamp,
        }
    }
}

/// The record of a revocation of many credentials at once.
#[derive(Debug, Clone, PartialEq, Eq)]
pub struct BatchRevocationRecord {
    pub batch_id: Bytes,
    pub issuer: Address,
    pub credential_ids: Vec<Bytes>,
    pub reason: Option<Bytes>,
    pub timestamp: u64,
}

/// What a batch record means.
#[verifier::ext_equal]
pub struct BatchModel {
    pub batch_id: Seq<u8>,
    pub issuer: Seq<u8>,
    pub credential_ids: Seq<Seq<u8>>,
    pub reason: Option<Seq<u8>>,
    pub timestamp: u64,
}

impl Modeled for BatchRevocationRecord {
    type M = BatchModel;

    open spec fn model(&self) -> BatchModel {
        BatchModel {
            batch_id: self.batch_id.model(),
            issuer: self.issuer.model(),
            credential_ids: self.credential_ids.model(),
            reason: self.reason.model(),
            timestamp: self.timestamp,
        }
    }

    fn copied(&self) -> (copy: BatchRevocationRecord) {
        BatchRevocationRecord {
            batch_id: self.batch_id.copied(),
            issuer: self.issuer.copied(),
            credential_ids: self.credential_ids.copied(),
            reason: self.reason.copied(),
            timestamp: self.timestamp,
        }
    }
}

/// One page of a list of credential identifiers.
#[derive(Debug, Clone, PartialEq, Eq)]
pub struct PaginatedCredentials {
    pub data: Vec<Bytes>,
    pub page: u32,
    pub total: u32,
    pub has_more: bool,
}

/// Why a request was refused.
#[derive(Copy, Clone, Debug, PartialEq, Eq, PartialOrd, Ord, Structural)]
pub enum CredentialIssuerError {
    Unauthorized,
    NotFound,
    InvalidCredential,
    AlreadyRevoked,
    Expired,
    InvalidSignature,
    InvalidIssuer,
    SchemaValidationFailed,
    SchemaNotFound,
    DelegationNotFound,
    DelegationExpired,
    DelegationLimitExceeded,
    UnauthorizedCredentialType,
    DelegationRevoked,
    RegistryNotFound,
    InvalidNonce,
}

impl CredentialIssuerError {
    /// The number under which callers know the error.
    pub open spec fn number(self) -> u32 {
        match self {
            CredentialIssuerError::Unauthorized => 1,
            CredentialIssuerError::NotFound => 2,
            CredentialIssuerError::InvalidCredential => 3,
            CredentialIssuerError::AlreadyRevoked => 4,
            CredentialIssuerError::Expired => 5,
            CredentialIssuerError::InvalidSignature => 6,
            CredentialIssuerError::InvalidIssuer => 7,
            CredentialIssuerError::SchemaValidationFailed => 8,
            CredentialIssuerError::SchemaNotFound => 9,
            CredentialIssuerError::DelegationNotFound => 10,
            CredentialIssuerError::DelegationExpired => 11,
            CredentialIssuerError::DelegationLimitExceeded => 12,
            CredentialIssuerError::UnauthorizedCredentialType => 13,
            CredentialIssuerError::DelegationRevoked => 14,
            CredentialIssuerError::RegistryNotFound => 15,
            CredentialIssuerError::InvalidNonce => 16,
        }
    }

    /// The number under which callers know the error.
    pub fn code(self) -> (code: u32)
        ensures
            code == self.number(),
    {
        match self {
            CredentialIssuerError::Unauthorized => 1,
            CredentialIssuerError::NotFound => 2,
            CredentialIssuerError::InvalidCredential => 3,
            CredentialIssuerError::AlreadyRevoked => 4,
            CredentialIssuerError::Expired => 5,
            CredentialIssuerError::InvalidSignature => 6,
            CredentialIssuerError::InvalidIssuer => 7,
            CredentialIssuerError::SchemaValidationFailed => 8,
            CredentialIssuerError::SchemaNotFound => 9,
            CredentialIssuerError::DelegationNotFound => 10,
            CredentialIssuerError::DelegationExpired => 11,
            CredentialIssuerError::DelegationLimitExceeded => 12,
            CredentialIssuerError::UnauthorizedCredentialType => 13,
            CredentialIssuerError::DelegationRevoked => 14,
            CredentialIssuerError::RegistryNotFound => 15,
            CredentialIssuerError::InvalidNonce => 16,
        }
    }
}

/// The identifier of what was made, or why nothing was.
pub open spec fn made(result: Result<Bytes, CredentialIssuerError>) -> Result<
    Seq<u8>,
    CredentialIssuerError,
> {
    match result {
        Ok(id) => Ok(id@),
        Err(error) => Err(error),
    }
}

/// What the ledger announces.
#[derive(Debug, Clone, PartialEq, Eq)]
pub enum CredentialEvent {
    CredentialIssued { credential_id: Bytes, issuer: Address },
    CredentialRevoked { credential_id: Bytes, issuer: Address, reason: Option<Bytes> },
    DelegationAuthorized { auth_id: Bytes, delegator: Address, delegate: Address },
    DelegationRevoked { auth_id: Bytes, delegator: Address },
    DelegatedCredentialIssued { credential_id: Bytes, delegate: Address },
    RevocationRegistryCreated { registry_id: Bytes, issuer: Address },
    BatchRevocationExecuted { batch_id: Bytes, registry_id: Bytes, issuer: Address },
}

/// What an announcement means.
#[verifier::ext_equal]
pub enum EventModel {
    CredentialIssued { credential_id: Seq<u8>, issuer: Seq<u8> },
    CredentialRevoked { credential_id: Seq<u8>, issuer: Seq<u8>, reason: Option<Seq<u8>> },
    DelegationAuthorized { auth_id: Seq<u8>, delegator: Seq<u8>, delegate: Seq<u8> },
    DelegationRevoked { auth_id: Seq<u8>, delegator: Seq<u8> },
    DelegatedCredentialIssued { credential_id: Seq<u8>, delegate: Seq<u8> },
    RevocationRegistryCreated { registry_id: Seq<u8>, issuer: Seq<u8> },
    BatchRevocationExecuted { batch_id: Seq<u8>, registry_id: Seq<u8>, issuer: Seq<u8> },
}

impl CredentialEvent {
    pub open spec fn view(&self) -> EventModel {
        match *self {
            CredentialEvent::CredentialIssued { credential_id, issuer } =>
                EventModel::CredentialIssued {
                credential_id: credential_id@,
                issuer: issuer.model(),
            },
            CredentialEvent::CredentialRevoked { credential_id, issuer, reason } =>
                EventModel::CredentialRevoked {
                credential_id: credential_id@,
                issuer: issuer.model(),
                reason: reason.model(),
            },
            CredentialEvent::DelegationAuthorized { auth_id, delegator, delegate } =>
                EventModel::DelegationAuthorized {
                auth_id: auth_id@,
                delegator: delegator.model(),
                delegate: delegate.model(),
            },
            CredentialEvent::DelegationRevoked { auth_id, delegator } =>
                EventModel::DelegationRevoked { auth_id: auth_id@, delegator: delegator.model() },
            CredentialEvent::DelegatedCredentialIssued { credential_id, delegate } =>
                EventModel::DelegatedCredentialIssued {
                credential_id: credential_id@,
                delegate: delegate.model(),
            },
            CredentialEvent::RevocationRegistryCreated { registry_id, issuer } =>
                EventModel::RevocationRegistryCreated {
                registry_id: registry_id@,
                issuer: issuer.model(),
            },
            CredentialEvent::BatchRevocationExecuted { batch_id, registry_id, issuer } =>
                EventModel::BatchRevocationExecuted {
                batch_id: batch_id@,
                registry_id: registry_id@,
                issuer: issuer.model(),
            },
        }
    }
}

} // verus!
