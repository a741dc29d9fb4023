//! Issuing credentials, and looking them up.

use vstd::prelude::*;

use crate::credential;
use crate::credential::{
    CredentialEvent, CredentialIssuerError, CredentialModel, EventModel, PaginatedCredentials,
    VerifiableCredential,
};
use crate::credential_store;
use crate::credential_store::{
    read_list, CredentialState, CredentialStore, STATUS_ACTIVE, STATUS_REVOKED,
};
use crate::ids;
use crate::ids::generate_credential_id;
use crate::ledger::{Address, Invocation};
use crate::model::{Bytes, Modeled};
use crate::paging;
use crate::paging::page_of;

verus! {

/// The longest name that a credential type may have.
pub const MAX_CREDENTIAL_TYPE_LENGTH: usize = 128;

/// The most data that a credential may carry.
pub const MAX_CREDENTIAL_DATA_LENGTH: usize = 10240;

/// The operations of the credential ledger.
#[derive(Debug, Clone, Copy, PartialEq, Eq)]
pub struct CredentialIssuer;

/// What is known of the schema that a credential refers to, and of the
/// credential's data under it.
#[derive(Debug, Clone, Copy, PartialEq, Eq, Structural)]
pub enum SchemaVerdict {
    /// There is no such schema.
    Missing,
    /// The data does not conform to the schema.
    Rejected,
    /// The data conforms to the schema.
    Accepted,
}

/// Why a credential with these contents is not issued; `None` where it is.
pub open spec fn issue_refusal(
    types: Seq<Seq<u8>>,
    data: Seq<u8>,
    proof: Seq<u8>,
) -> Option<CredentialIssuerError> {
    if types.len() == 0 || !types_fit(types) || data.len() == 0 || data.len()
        > MAX_CREDENTIAL_DATA_LENGTH {
        Some(CredentialIssuerError::InvalidCredential)
    } else if proof.len() == 0 {
        Some(CredentialIssuerError::InvalidSignature)
    } else {
        None
    }
}

/// No type's name is too long.
pub open spec fn types_fit(types: Seq<Seq<u8>>) -> bool {
    forall|i: int|
        0 <= i < types.len() ==> (#[trigger] types[i]).len() <= MAX_CREDENTIAL_TYPE_LENGTH
}

/// A credential that is to be issued: in whose name and to whom, its contents,
/// and the schema that it refers to, if any.
pub struct IssueRequest {
    pub issuer: Seq<u8>,
    pub subject: Seq<u8>,
    pub types: Seq<Seq<u8>>,
    pub data: Seq<u8>,
    pub expiration_date: Option<u64>,
    pub schema_id: Option<Seq<u8>>,
    pub proof: Seq<u8>,
}

/// The credential that the request leads to in the ledger of the call.
pub open spec fn new_credential(call: Invocation, request: IssueRequest) -> CredentialModel {
    CredentialModel {
        id: ids::credential_id(call.timestamp, call.sequence),
        issuer: request.issuer,
        subject: request.subject,
        type_: request.types,
        credential_data: request.data,
        issuance_date: call.timestamp,
        expiration_date: request.expiration_date,
        schema_id: request.schema_id,
        revocation: None,
        proof: Some(request.proof),
    }
}

/// The ledger after a request to issue a credential, and its result.
pub open spec fn issue_outcome(
    state: CredentialState,
    call: Invocation,
    request: IssueRequest,
) -> (CredentialState, Result<Seq<u8>, CredentialIssuerError>) {
    match issue_refusal(request.types, request.data, request.proof) {
        Some(error) => (state, Err(error)),
        None => {
            let credential = new_credential(call, request);
            (
                state.enroll(credential).announce(
                    EventModel::CredentialIssued {
                        credential_id: credential.id,
                        issuer: credential.issuer,
                    },
                ),
                Ok(credential.id),
            )
        },
    }
}

/// The ledger after a request to issue a credential that refers to a schema,
/// and its result. Such a credential is not announced.
pub open spec fn schema_outcome(
    state: CredentialState,
    call: Invocation,
    verdict: SchemaVerdict,
    request: IssueRequest,
) -> (CredentialState, Result<Seq<u8>, CredentialIssuerError>) {
    match schema_refusal(verdict, request.types, request.data, request.proof) {
        Some(error) => (state, Err(error)),
        None => {
            let credential = new_credential(call, request);
            (state.enroll(credential), Ok(credential.id))
        },
    }
}

fn all_types_fit(types: &Vec<Bytes>) -> (fit: bool)
    ensures
        fit == types_fit(types.model()),
{
    let mut i: usize = 0;
    while i < types.len()
        invariant
            i <= types.len(),
            forall|j: int|
                0 <= j < i ==> (#[trigger] types.model()[j]).len() <= MAX_CREDENTIAL_TYPE_LENGTH,
        decreases types.len() - i,
    {
        if types[i].len() > MAX_CREDENTIAL_TYPE_LENGTH {
            assert(types.model()[i as int].len() > MAX_CREDENTIAL_TYPE_LENGTH);
            return false;
        }
        i += 1;
    }
    true
}

/// Whether there is a type, no type's name is too long, and the data is neither
/// missing nor too long.
pub(crate) fn contents_fit(types: &Vec<Bytes>, data: &Bytes) -> (fit: bool)
    ensures
        fit == (types.model().len() > 0 && types_fit(types.model()) && 0 < data@.len()
            <= MAX_CREDENTIAL_DATA_LENGTH),
{
    types.len() > 0 && all_types_fit(types) && data.len() > 0 && data.len()
        <= MAX_CREDENTIAL_DATA_LENGTH
}

/// Whether the credential carries a proof that is empty.
pub open spec fn proof_empty(credential: CredentialModel) -> bool {
    match credential.proof {
        Some(text) => text.len() == 0,
        None => false,
    }
}

/// What is wrong with a credential as a whole; `None` where nothing is.
pub open spec fn defect(credential: CredentialModel) -> Option<CredentialIssuerError> {
    if credential.credential_data.len() == 0 || credential.type_.len() == 0 {
        Some(CredentialIssuerError::InvalidCredential)
    } else if proof_empty(credential) {
        Some(CredentialIssuerError::InvalidSignature)
    } else {
        None
    }
}

/// Checks a credential as a whole.
pub fn validate_credential(credential: &VerifiableCredential) -> (checked: Result<
    (),
    CredentialIssuerError,
>)
    ensures
        checked == match defect(credential.model()) {
            Some(error) => Err::<(), CredentialIssuerError>(error),
            None => Ok(()),
        },
{
    if credential.credential_data.len() == 0 {
        return Err(CredentialIssuerError::InvalidCredential);
    }
    if credential.type_.len() == 0 {
        return Err(CredentialIssuerError::InvalidCredential);
    }
    let attached = &credential.proof;
    match attached {
        Some(text) => {
            if text.len() == 0 {
                return Err(CredentialIssuerError::InvalidSignature);
            }
        },
        None => {},
    }
    Ok(())
}

/// Checks a proof: there has to be one.
pub fn verify_proof(proof: &Bytes) -> (checked: Result<(), CredentialIssuerError>)
    ensures
        checked == if proof@.len() == 0 {
            Err::<(), CredentialIssuerError>(CredentialIssuerError::InvalidSignature)
        } else {
            Ok(())
        },
{
    if proof.len() == 0 {
        return Err(CredentialIssuerError::InvalidSignature);
    }
    Ok(())
}

/// What comes of verifying the credential `id` at the time `now`: an unknown
/// credential is an error; a revoked or an expired one is not valid; one whose
/// proof is empty is an error; any other is valid.
pub open spec fn verification(
    state: CredentialState,
    now: u64,
    id: Seq<u8>,
) -> Result<bool, CredentialIssuerError> {
    if !state.credentials.contains_key(id) {
        Err(CredentialIssuerError::NotFound)
    } else if state.revoked(id) || expired(state.credentials[id], now) {
        Ok(false)
    } else if proof_empty(state.credentials[id]) {
        Err(CredentialIssuerError::InvalidSignature)
    } else {
        Ok(true)
    }
}

/// Whether the credential's expiration date has passed.
pub open spec fn expired(credential: CredentialModel, now: u64) -> bool {
    match credential.expiration_date {
        Some(date) => now > date,
        None => false,
    }
}

/// `active`, as text.
pub open spec fn active_text() -> Seq<u8> {
    seq![97u8, 99u8, 116u8, 105u8, 118u8, 101u8]
}

/// `revoked`, as text.
pub open spec fn revoked_text() -> Seq<u8> {
    seq![114u8, 101u8, 118u8, 111u8, 107u8, 101u8, 100u8]
}

/// `unknown`, as text.
pub open spec fn unknown_text() -> Seq<u8> {
    seq![117u8, 110u8, 107u8, 110u8, 111u8, 119u8, 110u8]
}

/// The name of a status.
pub open spec fn status_text(status: u32) -> Seq<u8> {
    if status == STATUS_ACTIVE {
        active_text()
    } else if status == STATUS_REVOKED {
        revoked_text()
    } else {
        unknown_text()
    }
}

impl CredentialIssuer {
    /// Issues a credential in the name of `issuer`, who has authorized the call.
    pub fn issue_credential(
        store: &mut CredentialStore,
        call: &Invocation,
        issuer: Address,
        subject: Address,
        credential_type: Vec<Bytes>,
        credential_data: Bytes,
        expiration_date: Option<u64>,
        proof: Bytes,
    ) -> (issued: Result<Bytes, CredentialIssuerError>)
        requires
            call.signed_by(issuer.model()),
        ensures
            (final(store)@, credential::made(issued)) == issue_outcome(
                old(store)@,
                *call,
                (IssueRequest {
                    issuer: issuer.model(),
                    subject: subject.model(),
                    types: credential_type.model(),
                    data: credential_data@,
                    expiration_date,
                    schema_id: None,
                    proof: proof@,
                }),
            ),
    {
        if !contents_fit(&credential_type, &credential_data) {
            return Err(CredentialIssuerError::InvalidCredential);
        }
        let credential_id: Bytes = generate_credential_id(call.timestamp, call.sequence);
        let credential = VerifiableCredential {
            id: credential_id.copied(),
            issuer: issuer.copied(),
            subject,
            type_: credential_type,
            credential_data,
            issuance_date: call.timestamp,
            expiration_date,
            schema_id: None,
            revocation: None,
            proof: Some(proof),
        };
        match validate_credential(&credential) {
            Err(error) => {
                return Err(error);
            },
            Ok(()) => {},
        }
        store.enter(credential);
        store.publish(
            CredentialEvent::CredentialIssued { credential_id: credential_id.copied(), issuer },
        );
        Ok(credential_id)
    }

    /// Issues a credential that refers to a schema, in the name of `issuer`,
    /// who has authorized the call. `verdict` is what is known of the schema
    /// and of the data under it.
    pub fn issue_credential_with_schema(
        store: &mut CredentialStore,
        call: &Invocation,
        issuer: Address,
        subject: Address,
        credential_type: Vec<Bytes>,
        credential_data: Bytes,
        schema_id: Bytes,
        verdict: SchemaVerdict,
        expiration_date: Option<u64>,
        proof: Bytes,
    ) -> (issued: Result<Bytes, CredentialIssuerError>)
        requires
            call.signed_by(issuer.model()),
        ensures
            (final(store)@, credential::made(issued)) == schema_outcome(
                old(store)@,
                *call,
                verdict,
                (IssueRequest {
                    issuer: issuer.model(),
                    subject: subject.model(),
                    types: credential_type.model(),
                    data: credential_data@,
                    expiration_date,
                    schema_id: Some(schema_id@),
                    proof: proof@,
                }),
            ),
    {
        match verdict {
            SchemaVerdict::Missing => {
                return Err(CredentialIssuerError::SchemaNotFound);
            },
            SchemaVerdict::Rejected => {
                return Err(CredentialIssuerError::SchemaValidationFailed);
            },
            SchemaVerdict::Accepted => {},
        }
        if !contents_fit(&credential_type, &credential_data) {
            return Err(CredentialIssuerError::InvalidCredential);
        }
        let credential_id: Bytes = generate_credential_id(call.timestamp, call.sequence);
        let credential = VerifiableCredential {
            id: credential_id.copied(),
            issuer,
            subject,
            type_: credential_type,
            credential_data,
            issuance_date: call.timestamp,
            expiration_date,
            schema_id: Some(schema_id),
            revocation: None,
            proof: Some(proof),
        };
        match validate_credential(&credential) {
            Err(error) => {
                return Err(error);
            },
            Ok(()) => {},
        }
        store.enter(credential);
        Ok(credential_id)
    }

    /// Whether a credential holds: it is neither revoked nor expired, and it
    /// does not carry an empty proof.
    pub fn verify_credential(
        store: &CredentialStore,
        call: &Invocation,
        credential_id: &Bytes,
    ) -> (valid: Result<bool, CredentialIssuerError>)
        ensures
            valid == verification(store@, call.timestamp, credential_id@),
    {
        let credential = match store.credentials.get(credential_id) {
            Some(credential) => credential,
            None => {
                return Err(CredentialIssuerError::NotFound);
            },
        };
        if store.status_or(credential_id, STATUS_ACTIVE) == STATUS_REVOKED {
            return Ok(false);
        }
        match credential.expiration_date {
            Some(expiration) => {
                if call.timestamp > expiration {
                    return Ok(false);
                }
            },
            None => {},
        }
        let attached = &credential.proof;
        match attached {
            Some(text) => {
                match verify_proof(text) {
                    Err(error) => {
                        return Err(error);
                    },
                    Ok(()) => {},
                }
            },
            None => {},
        }
        Ok(true)
    }

    /// The credential with the given identifier.
    pub fn get_credential(store: &CredentialStore, credential_id: &Bytes) -> (found: Result<
        VerifiableCredential,
        CredentialIssuerError,
    >)
        ensures
            match found {
                Ok(credential) => store@.credentials.contains_key(credential_id@)
                    && store@.credentials[credential_id@] == credential.model(),
                Err(error) => !store@.credentials.contains_key(credential_id@) && error
                    == CredentialIssuerError::NotFound,
            },
    {
        match store.credentials.get(credential_id) {
            Some(credential) => Ok(credential.copied()),
            None => Err(CredentialIssuerError::NotFound),
        }
    }

    /// The identifiers of the credentials issued in the name of `issuer`, in
    /// the order of their issuance.
    pub fn get_issuer_credentials(store: &CredentialStore, issuer: &Address) -> (list: Vec<Bytes>)
        ensures
            list.model() == credential_store::list_under(store@.issuer_creds, issuer.model()),
    {
        read_list(&store.issuer_creds, &issuer.key)
    }

    /// The identifiers of the credentials issued to `subject`, in the order of
    /// their issuance.
    pub fn get_subject_credentials(store: &CredentialStore, subject: &Address) -> (list: Vec<Bytes>)
        ensures
            list.model() == credential_store::list_under(store@.subject_creds, subject.model()),
    {
        read_list(&store.subject_creds, &subject.key)
    }

    /// One page of the credentials issued to `subject`, `page_size` to a page.
    pub fn get_credentials_by_subject(
        store: &CredentialStore,
        subject: &Address,
        page: u32,
        page_size: u32,
    ) -> (result: PaginatedCredentials)
        requires
            credential_store::list_under(store@.subject_creds, subject.model()).len() <= u32::MAX,
            page * page_size + page_size <= u32::MAX,
        ensures
            is_page(
                result,
                credential_store::list_under(store@.subject_creds, subject.model()),
                page,
                page_size,
            ),
    {
        let all: Vec<Bytes> = read_list(&store.subject_creds, &subject.key);
        paginate_bytes(&all, page, page_size)
    }

    /// One page of the credentials issued in the name of `issuer`, `page_size`
    /// to a page.
    pub fn get_credentials_by_issuer(
        store: &CredentialStore,
        issuer: &Address,
        page: u32,
        page_size: u32,
    ) -> (result: PaginatedCredentials)
        requires
            credential_store::list_under(store@.issuer_creds, issuer.model()).len() <= u32::MAX,
            page * page_size + page_size <= u32::MAX,
        ensures
            is_page(
                result,
                credential_store::list_under(store@.issuer_creds, issuer.model()),
                page,
                page_size,
            ),
    {
        let all: Vec<Bytes> = read_list(&store.issuer_creds, &issuer.key);
        paginate_bytes(&all, page, page_size)
    }

    /// The name of a credential's status: active, revoked or unknown.
    pub fn get_credential_status(store: &CredentialStore, credential_id: &Bytes) -> (text: Bytes)
        ensures
            text@ == status_text(store@.status(credential_id@, 255)),
    {
        let status: u32 = store.status_or(credential_id, 255);
        let text: Bytes = if status == STATUS_ACTIVE {
            vec![97, 99, 116, 105, 118, 101]
        } else if status == STATUS_REVOKED {
            vec![114, 101, 118, 111, 107, 101, 100]
        } else {
            vec![117, 110, 107, 110, 111, 119, 110]
        };
        assert(text@ =~= status_text(status));
        text
    }

    /// For each of the credentials, whether it is known and holds.
    pub fn batch_verify_credentials(
        store: &CredentialStore,
        call: &Invocation,
        credential_ids: &Vec<Bytes>,
    ) -> (results: Vec<bool>)
        ensures
            results@.len() == credential_ids@.len(),
            forall|i: int|
                0 <= i < results@.len() ==> #[trigger] results@[i] == (verification(
                    store@,
                    call.timestamp,
                    credential_ids.model()[i],
                ) == Ok::<bool, CredentialIssuerError>(true)),
    {
        let mut results: Vec<bool> = Vec::new();
        let mut i: usize = 0;
        while i < credential_ids.len()
            invariant
                i <= credential_ids@.len(),
                results@.len() == i,
                forall|j: int|
                    0 <= j < i ==> #[trigger] results@[j] == (verification(
                        store@,
                        call.timestamp,
                        credential_ids.model()[j],
                    ) == Ok::<bool, CredentialIssuerError>(true)),
            decreases credential_ids@.len() - i,
        {
            let valid = match Self::verify_credential(store, call, &credential_ids[i]) {
                Ok(valid) => valid,
                Err(_) => false,
            };
            results.push(valid);
            i += 1;
        }
        results
    }

    /// The reason given for the revocation of a credential, if any.
    pub fn get_revocation_reason(store: &CredentialStore, credential_id: &Bytes) -> (reason: Option<
        Bytes,
    >)
        ensures
            reason.model() == if store@.reasons.contains_key(credential_id@) {
                Some(store@.reasons[credential_id@])
            } else {
                None
            },
    {
        match store.reasons.get(credential_id) {
            Some(reason) => Some(reason.copied()),
            None => None,
        }
    }

    /// Credentials are not indexed by type: the search finds none.
    pub fn search_credentials_by_type(
        _store: &CredentialStore,
        _credential_type: &Bytes,
        _max_results: u32,
    ) -> (found: Vec<Bytes>)
        ensures
            found.model() == Seq::<Seq<u8>>::empty(),
    {
        let found: Vec<Bytes> = Vec::new();
        assert(found.model() =~= Seq::<Seq<u8>>::empty());
        found
    }
}

/// Why a credential that refers to a schema is not issued; `None` where it is.
pub open spec fn schema_refusal(
    verdict: SchemaVerdict,
    types: Seq<Seq<u8>>,
    data: Seq<u8>,
    proof: Seq<u8>,
) -> Option<CredentialIssuerError> {
    match verdict {
        SchemaVerdict::Missing => Some(CredentialIssuerError::SchemaNotFound),
        SchemaVerdict::Rejected => Some(CredentialIssuerError::SchemaValidationFailed),
        SchemaVerdict::Accepted => issue_refusal(types, data, proof),
    }
}

/// Whether `result` is page number `page` of the list.
pub open spec fn is_page(
    result: PaginatedCredentials,
    items: Seq<Seq<u8>>,
    page: u32,
    size: u32,
) -> bool {
    &&& result.data.model() == paging::page_items(items, page, size)
    &&& result.page == page
    &&& result.total == items.len()
    &&& result.has_more == paging::items_follow(items.len(), page, size)
}

/// Page number `page` of a list of identifiers.
pub fn paginate_bytes(items: &Vec<Bytes>, page: u32, size: u32) -> (result: PaginatedCredentials)
    requires
        items@.len() <= u32::MAX,
        page * size + size <= u32::MAX,
    ensures
        is_page(result, items.model(), page, size),
{
    proof {
        assert(0 <= page * size) by (nonlinear_arith);
    }
    let total: u32 = items.len() as u32;
    let data: Vec<Bytes> = page_of(items, page, size);
    PaginatedCredentials { data, page, total, has_more: page * size + size < total }
}

} // verus!
