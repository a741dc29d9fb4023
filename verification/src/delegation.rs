//! Issuing credentials in the name of somebody else.

use vstd::prelude::*;

use crate::credential;
use crate::credential::{
    CredentialEvent, CredentialIssuerError, CredentialModel, DelegationAuthorization,
    DelegationModel, EventModel, VerifiableCredential,
};
use crate::credential_issuer;
use crate::credential_issuer::{
    contents_fit, validate_credential, CredentialIssuer, IssueRequest,
};
use crate::credential_store;
use crate::credential_store::{read_list, CredentialState, CredentialStore};
use crate::ids;
use crate::ids::{generate_credential_id, generate_delegation_id};
use crate::ledger::{Address, Invocation};
use crate::model::{list_contains, Bytes, Modeled};

verus! {

/// Why a delegation on these terms is not authorized; `None` where it is.
pub open spec fn delegation_refusal(request: DelegationRequest, now: u64) -> Option<
    CredentialIssuerError,
> {
    if request.types.len() == 0 || request.max_issuances == 0 {
        Some(CredentialIssuerError::InvalidCredential)
    } else if request.expires_at <= now {
        Some(CredentialIssuerError::DelegationExpired)
    } else {
        None
    }
}

/// Why the delegation `auth_id` is not withdrawn at the word of `delegator`;
/// `None` where it is.
pub open spec fn withdrawal_refusal(
    state: CredentialState,
    delegator: Seq<u8>,
    auth_id: Seq<u8>,
) -> Option<CredentialIssuerError> {
    if !state.delegations.contains_key(auth_id) {
        Some(CredentialIssuerError::DelegationNotFound)
    } else if state.delegations[auth_id].delegator != delegator {
        Some(CredentialIssuerError::Unauthorized)
    } else if !state.delegations[auth_id].active {
        Some(CredentialIssuerError::DelegationRevoked)
    } else {
        None
    }
}

/// Every one of the types is authorized.
pub open spec fn types_authorized(types: Seq<Seq<u8>>, authorized: Seq<Seq<u8>>) -> bool {
    forall|i: int| 0 <= i < types.len() ==> authorized.contains(#[trigger] types[i])
}

/// Why `delegate` may not use the delegation `auth_id` for these types at the
/// time `now`; `None` where it may.
pub open spec fn use_refusal(
    state: CredentialState,
    delegate: Seq<u8>,
    auth_id: Seq<u8>,
    types: Seq<Seq<u8>>,
    now: u64,
) -> Option<CredentialIssuerError> {
    let auth = state.delegations[auth_id];
    if !state.delegations.contains_key(auth_id) {
        Some(CredentialIssuerError::DelegationNotFound)
    } else if !auth.active {
        Some(CredentialIssuerError::DelegationRevoked)
    } else if auth.delegate != delegate {
        Some(CredentialIssuerError::Unauthorized)
    } else if now > auth.expires_at {
        Some(CredentialIssuerError::DelegationExpired)
    } else if auth.issued_count >= auth.max_issuances {
        Some(CredentialIssuerError::DelegationLimitExceeded)
    } else if !types_authorized(types, auth.authorized_types) {
        Some(CredentialIssuerError::UnauthorizedCredentialType)
    } else {
        None
    }
}

/// Why a delegated credential is not issued; `None` where it is.
pub open spec fn delegated_refusal(
    state: CredentialState,
    request: DelegatedRequest,
    now: u64,
) -> Option<CredentialIssuerError> {
    match use_refusal(state, request.delegate, request.auth_id, request.types, now) {
        Some(error) => Some(error),
        None => credential_issuer::issue_refusal(request.types, request.data, request.proof),
    }
}

impl CredentialState {
    /// The ledger with the delegation `auth_id` out of force.
    pub open spec fn deactivate(self, auth_id: Seq<u8>) -> CredentialState {
        self.with_delegation(
            auth_id,
            DelegationModel { active: false, ..self.delegations[auth_id] },
        )
    }

    /// The ledger with one more credential counted against the delegation
    /// `auth_id`.
    pub open spec fn count_issuance(self, auth_id: Seq<u8>) -> CredentialState {
        self.with_delegation(
            auth_id,
            DelegationModel {
                issued_count: (self.delegations[auth_id].issued_count + 1) as u32,
                ..self.delegations[auth_id]
            },
        )
    }
}

/// A credential that a delegate is to issue under a delegation.
pub struct DelegatedRequest {
    pub delegate: Seq<u8>,
    pub auth_id: Seq<u8>,
    pub subject: Seq<u8>,
    pub types: Seq<Seq<u8>>,
    pub data: Seq<u8>,
    pub expiration_date: Option<u64>,
    pub proof: Seq<u8>,
}

/// The credential that the request leads to: one in the name of the delegator.
pub open spec fn delegated_credential(
    state: CredentialState,
    call: Invocation,
    request: DelegatedRequest,
) -> CredentialModel {
    credential_issuer::new_credential(
        call,
        IssueRequest {
            issuer: state.delegations[request.auth_id].delegator,
            subject: request.subject,
            types: request.types,
            data: request.data,
            expiration_date: request.expiration_date,
            schema_id: None,
            proof: request.proof,
        },
    )
}

/// The ledger after a delegate's request to issue a credential, and its result.
/// A delegation found to have expired goes out of force.
pub open spec fn delegated_outcome(
    state: CredentialState,
    call: Invocation,
    request: DelegatedRequest,
) -> (CredentialState, Result<Seq<u8>, CredentialIssuerError>) {
    match delegated_refusal(state, request, call.timestamp) {
        Some(CredentialIssuerError::DelegationExpired) => (
            state.deactivate(request.auth_id),
            Err(CredentialIssuerError::DelegationExpired),
        ),
        Some(error) => (state, Err(error)),
        None => {
            let credential = delegated_credential(state, call, request);
            (
                state.enroll(credential).count_issuance(request.auth_id).announce(
                    EventModel::DelegatedCredentialIssued {
                        credential_id: credential.id,
                        delegate: request.delegate,
                    },
                ),
                Ok(credential.id),
            )
        },
    }
}

/// The terms of a delegation.
pub struct DelegationRequest {
    pub delegator: Seq<u8>,
    pub delegate: Seq<u8>,
    pub types: Seq<Seq<u8>>,
    pub max_issuances: u32,
    pub expires_at: u64,
}

/// The delegation that the request leads to in the ledger of the call.
pub open spec fn new_delegation(call: Invocation, request: DelegationRequest) -> DelegationModel {
    DelegationModel {
        id: ids::delegation_id(call.timestamp, call.sequence),
        delegator: request.delegator,
        delegate: request.delegate,
        authorized_types: request.types,
        max_issuances: request.max_issuances,
        issued_count: 0,
        expires_at: request.expires_at,
        active: true,
    }
}

/// The ledger after a request to authorize a delegation, and its result.
pub open spec fn authorization_outcome(
    state: CredentialState,
    call: Invocation,
    request: DelegationRequest,
) -> (CredentialState, Result<Seq<u8>, CredentialIssuerError>) {
    match delegation_refusal(request, call.timestamp) {
        Some(error) => (state, Err(error)),
        None => {
            let auth = new_delegation(call, request);
            (
                state.delegate(auth).announce(
                    EventModel::DelegationAuthorized {
                        auth_id: auth.id,
                        delegator: auth.delegator,
                        delegate: auth.delegate,
                    },
                ),
                Ok(auth.id),
            )
        },
    }
}

/// The ledger after an attempt of `delegator` to withdraw a delegation, and its
/// result.
pub open spec fn withdrawal_outcome(
    state: CredentialState,
    delegator: Seq<u8>,
    auth_id: Seq<u8>,
) -> (CredentialState, Result<(), CredentialIssuerError>) {
    match withdrawal_refusal(state, delegator, auth_id) {
        Some(error) => (state, Err(error)),
        None => (
            state.deactivate(auth_id).announce(
                EventModel::DelegationRevoked { auth_id, delegator },
            ),
            Ok(()),
        ),
    }
}

fn all_authorized(types: &Vec<Bytes>, authorized: &Vec<Bytes>) -> (all: bool)
    ensures
        all == types_authorized(types.model(), authorized.model()),
{
    let mut i: usize = 0;
    while i < types.len()
        invariant
            i <= types.len(),
            forall|j: int|
                0 <= j < i ==> authorized.model().contains(#[trigger] types.model()[j]),
        decreases types.len() - i,
    {
        if !list_contains(authorized, &types[i]) {
            assert(!authorized.model().contains(types.model()[i as int]));
            return false;
        }
        i += 1;
    }
    true
}

impl CredentialIssuer {
    /// Authorizes `delegate` to issue up to `max_issuances` credentials of the
    /// given types in the name of `delegator`, who has authorized the call.
    pub fn authorize_delegation(
        store: &mut CredentialStore,
        call: &Invocation,
        delegator: Address,
        delegate: Address,
        authorized_types: Vec<Bytes>,
        max_issuances: u32,
        expires_at: u64,
    ) -> (authorized: Result<Bytes, CredentialIssuerError>)
        requires
            call.signed_by(delegator.model()),
        ensures
            (final(store)@, credential::made(authorized)) == authorization_outcome(
                old(store)@,
                *call,
                (DelegationRequest {
                    delegator: delegator.model(),
                    delegate: delegate.model(),
                    types: authorized_types.model(),
                    max_issuances,
                    expires_at,
                }),
            ),
    {
        if authorized_types.len() == 0 {
            return Err(CredentialIssuerError::InvalidCredential);
        }
        if max_issuances == 0 {
            return Err(CredentialIssuerError::InvalidCredential);
        }
        if expires_at <= call.timestamp {
            return Err(CredentialIssuerError::DelegationExpired);
        }
        let auth_id: Bytes = generate_delegation_id(call.timestamp, call.sequence);
        let auth = DelegationAuthorization {
            id: auth_id.copied(),
            delegator: delegator.copied(),
            delegate: delegate.copied(),
            authorized_types,
            max_issuances,
            issued_count: 0,
            expires_at,
            active: true,
        };
        store.enter_delegation(auth);
        store.publish(
            CredentialEvent::DelegationAuthorized {
                auth_id: auth_id.copied(),
                delegator,
                delegate,
            },
        );
        Ok(auth_id)
    }

    /// Withdraws a delegation at the word of `delegator`, who has authorized
    /// the call.
    pub fn revoke_delegation(
        store: &mut CredentialStore,
        call: &Invocation,
        delegator: Address,
        auth_id: Bytes,
    ) -> (withdrawn: Result<(), CredentialIssuerError>)
        requires
            call.signed_by(delegator.model()),
        ensures
            (final(store)@, withdrawn) == withdrawal_outcome(
                old(store)@,
                delegator.model(),
                auth_id@,
            ),
    {
        let mut auth: DelegationAuthorization = match store.delegations.get(&auth_id) {
            Some(auth) => auth.copied(),
            None => {
                return Err(CredentialIssuerError::DelegationNotFound);
            },
        };
        if !auth.delegator.same(&delegator) {
            return Err(CredentialIssuerError::Unauthorized);
        }
        if !auth.active {
            return Err(CredentialIssuerError::DelegationRevoked);
        }
        auth.active = false;
        store.delegations.set(&auth_id, auth);
        assert(store@ =~= old(store)@.deactivate(auth_id@));
        store.publish(CredentialEvent::DelegationRevoked { auth_id, delegator });
        Ok(())
    }

    /// Issues a credential in the name of the delegator, at the word of
    /// `delegate`, who has authorized the call. A delegation found to have
    /// expired goes out of force.
    pub fn issue_delegated_credential(
        store: &mut CredentialStore,
        call: &Invocation,
        delegate: Address,
        auth_id: Bytes,
        subject: Address,
        credential_type: Vec<Bytes>,
        credential_data: Bytes,
        expiration_date: Option<u64>,
        proof: Bytes,
    ) -> (issued: Result<Bytes, CredentialIssuerError>)
        requires
            call.signed_by(delegate.model()),
        ensures
            (final(store)@, credential::made(issued)) == delegated_outcome(
                old(store)@,
                *call,
                (DelegatedRequest {
                    delegate: delegate.model(),
                    auth_id: auth_id@,
                    subject: subject.model(),
                    types: credential_type.model(),
                    data: credential_data@,
                    expiration_date,
                    proof: proof@,
                }),
            ),
    {
        let mut auth: DelegationAuthorization = match store.delegations.get(&auth_id) {
            Some(auth) => auth.copied(),
            None => {
                return Err(CredentialIssuerError::DelegationNotFound);
            },
        };
        if !auth.active {
            return Err(CredentialIssuerError::DelegationRevoked);
        }
        if !auth.delegate.same(&delegate) {
            return Err(CredentialIssuerError::Unauthorized);
        }
        if call.timestamp > auth.expires_at {
            auth.active = false;
            store.delegations.set(&auth_id, auth);
            assert(store@ =~= old(store)@.deactivate(auth_id@));
            return Err(CredentialIssuerError::DelegationExpired);
        }
        if auth.issued_count >= auth.max_issuances {
            return Err(CredentialIssuerError::DelegationLimitExceeded);
        }
        if !all_authorized(&credential_type, &auth.authorized_types) {
            return Err(CredentialIssuerError::UnauthorizedCredentialType);
        }
        if !contents_fit(&credential_type, &credential_data) {
            return Err(CredentialIssuerError::InvalidCredential);
        }
        let credential_id: Bytes = generate_credential_id(call.timestamp, call.sequence);
        let credential = VerifiableCredential {
            id: credential_id.copied(),
            issuer: auth.delegator.copied(),
            subject,
            type_: credential_type,
            credential_data,
            issuance_date: call.timestamp,
            expiration_date,
            schema_id: None,
            revocation: None,
            proof: Some(proof),
        };
        match validate_credential(&credential) {
            Err(error) => {
                return Err(error);
            },
            Ok(()) => {},
        }
        store.enter(credential);
        let ghost entered: CredentialState = store@;
        auth.issued_count = auth.issued_count + 1;
        store.delegations.set(&auth_id, auth);
        assert(store@ =~= entered.count_issuance(auth_id@));
        store.publish(
            CredentialEvent::DelegatedCredentialIssued {
                credential_id: credential_id.copied(),
                delegate,
            },
        );
        Ok(credential_id)
    }

    /// The delegation with the given identifier, if there is one.
    pub fn get_delegation(store: &CredentialStore, auth_id: &Bytes) -> (found: Option<
        DelegationAuthorization,
    >)
        ensures
            found.model() == if store@.delegations.contains_key(auth_id@) {
                Some(store@.delegations[auth_id@])
            } else {
                None
            },
    {
        match store.delegations.get(auth_id) {
            Some(auth) => Some(auth.copied()),
            None => None,
        }
    }

    /// The identifiers of the delegations to `delegate`, in the order of their
    /// authorization.
    pub fn get_delegate_authorizations(store: &CredentialStore, delegate: &Address) -> (list: Vec<
        Bytes,
    >)
        ensures
            list.model() == credential_store::list_under(store@.delegate_auths, delegate.model()),
    {
        read_list(&store.delegate_auths, &delegate.key)
    }

    /// The identifiers of the delegations by `delegator`, in the order of their
    /// authorization.
    pub fn get_delegator_authorizations(store: &CredentialStore, delegator: &Address) -> (list: Vec<
        Bytes,
    >)
        ensures
            list.model() == credential_store::list_under(store@.delegator_auths, delegator.model()),
    {
        read_list(&store.delegator_auths, &delegator.key)
    }
}

} // verus!
