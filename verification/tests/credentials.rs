use soroban_sdk::Env;
use trust_ledger::credential::{CredentialEvent, CredentialIssuerError, RevocationProof};
use trust_ledger::credential_issuer::{
    paginate_bytes, validate_credential, verify_proof, CredentialIssuer, SchemaVerdict,
};
use trust_ledger::credential_store::CredentialStore;
use trust_ledger::decimal::to_decimal;
use trust_ledger::ids::{
    generate_batch_id, generate_credential_id, generate_delegation_id, generate_registry_id,
};
use trust_ledger::ledger::{Address, Invocation};
use trust_ledger::table::Table;

fn person(name: &str) -> Address {
    Address { key: name.as_bytes().to_vec() }
}

fn text(value: &str) -> Vec<u8> {
    value.as_bytes().to_vec()
}

fn texts(values: &[&str]) -> Vec<Vec<u8>> {
    values.iter().map(|v| text(v)).collect()
}

fn call(timestamp: u64, sequence: u32, signer: &str) -> Invocation {
    Invocation { timestamp, sequence, signers: vec![person(signer)] }
}

fn issue(store: &mut CredentialStore, timestamp: u64, sequence: u32, issuer: &str, subject: &str) -> Vec<u8> {
    CredentialIssuer::issue_credential(
        store,
        &call(timestamp, sequence, issuer),
        person(issuer),
        person(subject),
        texts(&["degree"]),
        text("data"),
        None,
        text("proof"),
    )
    .unwrap()
}

fn issue_with(types: Vec<Vec<u8>>, data: Vec<u8>, proof: Vec<u8>) -> Result<Vec<u8>, CredentialIssuerError> {
    let mut store = CredentialStore::new();
    let issued = CredentialIssuer::issue_credential(
        &mut store,
        &call(1, 1, "uni"),
        person("uni"),
        person("ann"),
        types,
        data,
        None,
        proof,
    );
    if issued.is_err() {
        assert_eq!(store.events.len(), 0);
        assert_eq!(CredentialIssuer::get_issuer_credentials(&store, &person("uni")).len(), 0);
    }
    issued
}

#[test]
fn a_table_keeps_the_last_value_under_each_key() {
    let mut table: Table<u32> = Table::new();
    assert!(table.keys().is_empty());
    table.set(&text("a"), 1);
    table.set(&text("b"), 2);
    table.set(&text("a"), 3);
    assert_eq!(table.get(&text("a")), Some(&3));
    assert_eq!(table.get(&text("b")), Some(&2));
    assert_eq!(table.get(&text("c")), None);
    assert!(table.has(&text("b")));
    assert!(!table.has(&text("c")));
    let mut keys = table.keys();
    keys.sort();
    assert_eq!(keys, texts(&["a", "b"]));
}

#[test]
fn numbers_in_decimal() {
    assert_eq!(to_decimal(0), text("0"));
    assert_eq!(to_decimal(9), text("9"));
    assert_eq!(to_decimal(10), text("10"));
    assert_eq!(to_decimal(u64::MAX), text("18446744073709551615"));
}

#[test]
fn identifiers_spell_the_ledger() {
    assert_eq!(generate_credential_id(1000, 7), text("vc:1000:7"));
    assert_eq!(generate_delegation_id(1000, 7), text("del:1000:7"));
    assert_eq!(generate_registry_id(0, 0), text("reg:0:0"));
    assert_eq!(generate_batch_id(5, 4294967295), text("batch:5:4294967295"));
}

#[test]
fn an_issued_credential_is_found_and_holds() {
    let mut store = CredentialStore::new();
    let id = CredentialIssuer::issue_credential(
        &mut store,
        &call(1000, 7, "uni"),
        person("uni"),
        person("ann"),
        texts(&["degree", "bsc"]),
        text("data"),
        Some(2000),
        text("proof"),
    )
    .unwrap();
    assert_eq!(id, text("vc:1000:7"));
    let credential = CredentialIssuer::get_credential(&store, &id).unwrap();
    assert_eq!(credential.id, id);
    assert_eq!(credential.issuer, person("uni"));
    assert_eq!(credential.subject, person("ann"));
    assert_eq!(credential.type_, texts(&["degree", "bsc"]));
    assert_eq!(credential.credential_data, text("data"));
    assert_eq!(credential.issuance_date, 1000);
    assert_eq!(credential.expiration_date, Some(2000));
    assert_eq!(credential.schema_id, None);
    assert_eq!(credential.revocation, None);
    assert_eq!(credential.proof, Some(text("proof")));
    assert_eq!(CredentialIssuer::verify_credential(&store, &call(2000, 8, "x"), &id), Ok(true));
    assert_eq!(CredentialIssuer::verify_credential(&store, &call(2001, 8, "x"), &id), Ok(false));
    assert_eq!(CredentialIssuer::get_credential_status(&store, &id), text("active"));
    assert!(!CredentialIssuer::check_revocation_status(&store, &id));
    assert_eq!(CredentialIssuer::get_issuer_credentials(&store, &person("uni")), vec![id.clone()]);
    assert_eq!(CredentialIssuer::get_subject_credentials(&store, &person("ann")), vec![id.clone()]);
    assert_eq!(CredentialIssuer::get_subject_credentials(&store, &person("uni")).len(), 0);
    assert_eq!(
        store.events,
        vec![CredentialEvent::CredentialIssued { credential_id: id, issuer: person("uni") }]
    );
}

#[test]
fn unknown_credentials() {
    let store = CredentialStore::new();
    let id = text("vc:1:1");
    assert_eq!(CredentialIssuer::get_credential(&store, &id), Err(CredentialIssuerError::NotFound));
    assert_eq!(
        CredentialIssuer::verify_credential(&store, &call(1, 1, "x"), &id),
        Err(CredentialIssuerError::NotFound)
    );
    assert_eq!(CredentialIssuer::get_credential_status(&store, &id), text("unknown"));
    assert_eq!(CredentialIssuer::get_revocation_reason(&store, &id), None);
    assert_eq!(CredentialIssuer::get_revocation_proof(&store, &id), None);
    assert_eq!(CredentialIssuer::get_revocation_registry(&store, &id), None);
    assert_eq!(CredentialIssuer::get_delegation(&store, &id), None);
    assert!(!CredentialIssuer::check_revocation_status(&store, &id));
    assert_eq!(CredentialIssuer::search_credentials_by_type(&store, &text("degree"), 5).len(), 0);
}

#[test]
fn contents_have_limits() {
    assert!(issue_with(vec![vec![1; 128]], vec![2; 10240], vec![3]).is_ok());
    assert_eq!(issue_with(vec![], vec![2], vec![3]), Err(CredentialIssuerError::InvalidCredential));
    assert_eq!(issue_with(vec![vec![1], vec![1; 129]], vec![2], vec![3]), Err(CredentialIssuerError::InvalidCredential));
    assert_eq!(issue_with(vec![vec![1]], vec![], vec![3]), Err(CredentialIssuerError::InvalidCredential));
    assert_eq!(issue_with(vec![vec![1]], vec![2; 10241], vec![3]), Err(CredentialIssuerError::InvalidCredential));
    assert_eq!(issue_with(vec![vec![1]], vec![2], vec![]), Err(CredentialIssuerError::InvalidSignature));
    assert_eq!(issue_with(vec![], vec![2], vec![]), Err(CredentialIssuerError::InvalidCredential));
}

#[test]
fn whole_credentials_are_checked() {
    let mut store = CredentialStore::new();
    let id = issue(&mut store, 1, 1, "uni", "ann");
    let mut credential = CredentialIssuer::get_credential(&store, &id).unwrap();
    assert_eq!(validate_credential(&credential), Ok(()));
    credential.proof = None;
    assert_eq!(validate_credential(&credential), Ok(()));
    credential.proof = Some(vec![]);
    assert_eq!(validate_credential(&credential), Err(CredentialIssuerError::InvalidSignature));
    credential.type_ = vec![];
    assert_eq!(validate_credential(&credential), Err(CredentialIssuerError::InvalidCredential));
    assert_eq!(verify_proof(&vec![]), Err(CredentialIssuerError::InvalidSignature));
    assert_eq!(verify_proof(&vec![0]), Ok(()));
    let mut broken = CredentialIssuer::get_credential(&store, &id).unwrap();
    broken.proof = Some(vec![]);
    store.credentials.set(&id, broken);
    assert_eq!(
        CredentialIssuer::verify_credential(&store, &call(1, 1, "x"), &id),
        Err(CredentialIssuerError::InvalidSignature)
    );
    assert_eq!(CredentialIssuer::batch_verify_credentials(&store, &call(1, 1, "x"), &vec![id]), vec![false]);
}

#[test]
fn schemas_decide_first() {
    let mut store = CredentialStore::new();
    let verdicts = [
        (SchemaVerdict::Missing, vec![], Err(CredentialIssuerError::SchemaNotFound)),
        (SchemaVerdict::Rejected, vec![], Err(CredentialIssuerError::SchemaValidationFailed)),
        (SchemaVerdict::Accepted, vec![], Err(CredentialIssuerError::InvalidCredential)),
        (SchemaVerdict::Accepted, texts(&["degree"]), Ok(text("vc:9:2"))),
    ];
    for (verdict, types, expected) in verdicts {
        let issued = CredentialIssuer::issue_credential_with_schema(
            &mut store,
            &call(9, 2, "uni"),
            person("uni"),
            person("ann"),
            types,
            text("data"),
            text("schema-1"),
            verdict,
            None,
            text("proof"),
        );
        assert_eq!(issued, expected);
    }
    let credential = CredentialIssuer::get_credential(&store, &text("vc:9:2")).unwrap();
    assert_eq!(credential.schema_id, Some(text("schema-1")));
    assert_eq!(CredentialIssuer::verify_credential(&store, &call(9, 2, "x"), &text("vc:9:2")), Ok(true));
    assert_eq!(store.events.len(), 0);
}

#[test]
fn a_revoked_credential_stays_revoked() {
    let mut store = CredentialStore::new();
    let id = issue(&mut store, 1000, 7, "uni", "ann");
    let revoked = CredentialIssuer::revoke_credential(
        &mut store,
        &call(1500, 9, "uni"),
        person("uni"),
        id.clone(),
        Some(text("fraud")),
    );
    assert_eq!(revoked, Ok(()));
    assert_eq!(CredentialIssuer::verify_credential(&store, &call(1600, 10, "x"), &id), Ok(false));
    assert!(CredentialIssuer::check_revocation_status(&store, &id));
    assert_eq!(CredentialIssuer::get_credential_status(&store, &id), text("revoked"));
    assert_eq!(CredentialIssuer::get_revocation_reason(&store, &id), Some(text("fraud")));
    assert_eq!(CredentialIssuer::get_credential(&store, &id).unwrap().revocation, Some(text("1500")));
    assert_eq!(
        CredentialIssuer::revoke_credential(&mut store, &call(1700, 11, "uni"), person("uni"), id.clone(), None),
        Err(CredentialIssuerError::AlreadyRevoked)
    );
    issue(&mut store, 1800, 12, "uni", "ann");
    assert!(CredentialIssuer::check_revocation_status(&store, &id));
    assert_eq!(
        store.events[1],
        CredentialEvent::CredentialRevoked {
            credential_id: id,
            issuer: person("uni"),
            reason: Some(text("fraud")),
        }
    );
    assert_eq!(store.events.len(), 3);
}

#[test]
fn only_the_issuer_revokes() {
    let mut store = CredentialStore::new();
    let id = issue(&mut store, 1000, 7, "uni", "ann");
    assert_eq!(
        CredentialIssuer::revoke_credential(&mut store, &call(2, 2, "ann"), person("ann"), id.clone(), None),
        Err(CredentialIssuerError::Unauthorized)
    );
    assert_eq!(
        CredentialIssuer::revoke_credential(&mut store, &call(2, 2, "uni"), person("uni"), text("vc:0:0"), None),
        Err(CredentialIssuerError::NotFound)
    );
    assert_eq!(CredentialIssuer::verify_credential(&store, &call(2, 2, "x"), &id), Ok(true));
}

#[test]
fn many_are_verified_at_once() {
    let mut store = CredentialStore::new();
    let first = issue(&mut store, 1, 1, "uni", "ann");
    let second = issue(&mut store, 2, 2, "uni", "bob");
    CredentialIssuer::revoke_credential(&mut store, &call(3, 3, "uni"), person("uni"), first.clone(), None).unwrap();
    assert_eq!(
        CredentialIssuer::batch_verify_credentials(
            &store,
            &call(4, 4, "x"),
            &vec![first, second.clone(), text("nothing"), second],
        ),
        vec![false, true, false, true]
    );
}

#[test]
fn credentials_come_in_pages() {
    let mut store = CredentialStore::new();
    let mut ids = vec![];
    for sequence in 1..=5u32 {
        ids.push(issue(&mut store, 100, sequence, "uni", "ann"));
    }
    let first = CredentialIssuer::get_credentials_by_issuer(&store, &person("uni"), 0, 2);
    assert_eq!(first.data, ids[0..2].to_vec());
    assert_eq!(first.page, 0);
    assert_eq!(first.total, 5);
    assert!(first.has_more);
    let last = CredentialIssuer::get_credentials_by_subject(&store, &person("ann"), 2, 2);
    assert_eq!(last.data, ids[4..5].to_vec());
    assert!(!last.has_more);
    let beyond = CredentialIssuer::get_credentials_by_subject(&store, &person("ann"), 3, 2);
    assert_eq!(beyond.data.len(), 0);
    assert_eq!(beyond.total, 5);
    assert!(!beyond.has_more);
    let exact = paginate_bytes(&ids, 0, 5);
    assert_eq!(exact.data, ids);
    assert!(!exact.has_more);
    let nobody = CredentialIssuer::get_credentials_by_issuer(&store, &person("ann"), 0, 2);
    assert_eq!(nobody.total, 0);
}

fn authorize(store: &mut CredentialStore, limit: u32, expires_at: u64) -> Vec<u8> {
    CredentialIssuer::authorize_delegation(
        store,
        &call(100, 3, "uni"),
        person("uni"),
        person("dean"),
        texts(&["degree", "diploma"]),
        limit,
        expires_at,
    )
    .unwrap()
}

fn delegated(
    store: &mut CredentialStore,
    time: u64,
    delegate: &str,
    auth_id: &Vec<u8>,
    types: &[&str],
    data: &str,
    proof: &str,
) -> Result<Vec<u8>, CredentialIssuerError> {
    CredentialIssuer::issue_delegated_credential(
        store,
        &call(time, 5, delegate),
        person(delegate),
        auth_id.clone(),
        person("ann"),
        texts(types),
        text(data),
        Some(9999),
        text(proof),
    )
}

#[test]
fn a_delegate_issues_for_the_delegator() {
    let mut store = CredentialStore::new();
    let auth_id = authorize(&mut store, 2, 500);
    assert_eq!(auth_id, text("del:100:3"));
    let id = delegated(&mut store, 200, "dean", &auth_id, &["diploma"], "data", "proof").unwrap();
    let credential = CredentialIssuer::get_credential(&store, &id).unwrap();
    assert_eq!(credential.issuer, person("uni"));
    assert_eq!(credential.expiration_date, Some(9999));
    assert_eq!(CredentialIssuer::get_issuer_credentials(&store, &person("uni")), vec![id.clone()]);
    assert_eq!(CredentialIssuer::get_delegation(&store, &auth_id).unwrap().issued_count, 1);
    assert!(delegated(&mut store, 500, "dean", &auth_id, &["degree"], "data", "proof").is_ok());
    assert_eq!(
        delegated(&mut store, 500, "dean", &auth_id, &["degree"], "data", "proof"),
        Err(CredentialIssuerError::DelegationLimitExceeded)
    );
    assert_eq!(CredentialIssuer::get_delegation(&store, &auth_id).unwrap().issued_count, 2);
    assert_eq!(CredentialIssuer::get_delegate_authorizations(&store, &person("dean")), vec![auth_id.clone()]);
    assert_eq!(CredentialIssuer::get_delegator_authorizations(&store, &person("uni")), vec![auth_id.clone()]);
    assert_eq!(
        store.events[0],
        CredentialEvent::DelegationAuthorized { auth_id, delegator: person("uni"), delegate: person("dean") }
    );
    assert_eq!(
        store.events[1],
        CredentialEvent::DelegatedCredentialIssued { credential_id: id, delegate: person("dean") }
    );
}

#[test]
fn delegations_need_terms() {
    let mut store = CredentialStore::new();
    let mut ask = |types: &[&str], limit: u32, expires_at: u64| {
        CredentialIssuer::authorize_delegation(
            &mut store,
            &call(100, 3, "uni"),
            person("uni"),
            person("dean"),
            texts(types),
            limit,
            expires_at,
        )
    };
    assert_eq!(ask(&[], 1, 200), Err(CredentialIssuerError::InvalidCredential));
    assert_eq!(ask(&["degree"], 0, 200), Err(CredentialIssuerError::InvalidCredential));
    assert_eq!(ask(&["degree"], 1, 100), Err(CredentialIssuerError::DelegationExpired));
    assert!(ask(&["degree"], 1, 101).is_ok());
}

#[test]
fn delegated_requests_are_refused() {
    let mut store = CredentialStore::new();
    let auth_id = authorize(&mut store, 5, 500);
    assert_eq!(
        delegated(&mut store, 200, "dean", &text("del:0:0"), &["degree"], "data", "proof"),
        Err(CredentialIssuerError::DelegationNotFound)
    );
    assert_eq!(
        delegated(&mut store, 200, "eve", &auth_id, &["degree"], "data", "proof"),
        Err(CredentialIssuerError::Unauthorized)
    );
    assert_eq!(
        delegated(&mut store, 200, "dean", &auth_id, &["degree", "medal"], "data", "proof"),
        Err(CredentialIssuerError::UnauthorizedCredentialType)
    );
    assert_eq!(
        delegated(&mut store, 200, "dean", &auth_id, &[], "data", "proof"),
        Err(CredentialIssuerError::InvalidCredential)
    );
    assert_eq!(
        delegated(&mut store, 200, "dean", &auth_id, &["degree"], "", "proof"),
        Err(CredentialIssuerError::InvalidCredential)
    );
    assert_eq!(
        delegated(&mut store, 200, "dean", &auth_id, &["degree"], "data", ""),
        Err(CredentialIssuerError::InvalidSignature)
    );
    assert_eq!(CredentialIssuer::get_delegation(&store, &auth_id).unwrap().issued_count, 0);
    assert_eq!(
        delegated(&mut store, 501, "dean", &auth_id, &["degree"], "data", "proof"),
        Err(CredentialIssuerError::DelegationExpired)
    );
    assert!(!CredentialIssuer::get_delegation(&store, &auth_id).unwrap().active);
    assert_eq!(
        delegated(&mut store, 200, "dean", &auth_id, &["degree"], "data", "proof"),
        Err(CredentialIssuerError::DelegationRevoked)
    );
    assert_eq!(CredentialIssuer::get_issuer_credentials(&store, &person("uni")).len(), 0);
}

#[test]
fn a_withdrawn_delegation_is_over() {
    let mut store = CredentialStore::new();
    let auth_id = authorize(&mut store, 5, 500);
    let mut withdraw = |who: &str, id: &Vec<u8>| {
        CredentialIssuer::revoke_delegation(&mut store, &call(200, 4, who), person(who), id.clone())
    };
    assert_eq!(withdraw("uni", &text("del:0:0")), Err(CredentialIssuerError::DelegationNotFound));
    assert_eq!(withdraw("dean", &auth_id), Err(CredentialIssuerError::Unauthorized));
    assert_eq!(withdraw("uni", &auth_id), Ok(()));
    assert_eq!(withdraw("uni", &auth_id), Err(CredentialIssuerError::DelegationRevoked));
    assert_eq!(
        delegated(&mut store, 201, "dean", &auth_id, &["degree"], "data", "proof"),
        Err(CredentialIssuerError::DelegationRevoked)
    );
    assert_eq!(
        store.events[1],
        CredentialEvent::DelegationRevoked { auth_id, delegator: person("uni") }
    );
}

const DIGEST_OF_1000: [u8; 32] = [
    64, 81, 1, 117, 132, 89, 136, 241, 63, 97, 98, 237, 133, 38, 240, 176, 159, 115, 56, 68, 103,
    250, 133, 94, 30, 121, 180, 74, 86, 86, 42, 88,
];

const DIGEST_OF_2000: [u8; 32] = [
    129, 168, 53, 68, 207, 147, 194, 69, 23, 140, 188, 22, 32, 3, 15, 17, 35, 244, 53, 175, 134,
    124, 121, 216, 113, 53, 152, 60, 82, 171, 57, 217,
];

const DIGEST_OF_2000_FIRST: [u8; 32] = [
    250, 66, 178, 173, 250, 174, 181, 28, 139, 210, 130, 180, 166, 60, 165, 183, 71, 154, 36, 205,
    5, 88, 155, 52, 187, 141, 114, 123, 68, 11, 159, 173,
];

const DIGEST_OF_2000_SECOND: [u8; 32] = [
    246, 28, 249, 219, 68, 240, 157, 122, 117, 226, 237, 238, 168, 69, 255, 234, 187, 218, 91, 42,
    58, 12, 103, 234, 131, 245, 92, 215, 24, 22, 33, 49,
];

#[test]
fn a_registry_starts_empty() {
    let mut store = CredentialStore::new();
    let id = CredentialIssuer::create_revocation_registry(
        &mut store,
        &call(1000, 6, "uni"),
        &Env::default(),
        person("uni"),
    )
    .unwrap();
    assert_eq!(id, text("reg:1000:6"));
    let registry = CredentialIssuer::get_revocation_registry(&store, &id).unwrap();
    assert_eq!(registry.id, id);
    assert_eq!(registry.issuer, person("uni"));
    assert_eq!(registry.credential_ids.len(), 0);
    assert_eq!(registry.nonce, DIGEST_OF_1000.to_vec());
    assert_eq!(registry.created, 1000);
    assert_eq!(registry.revoked_count, 0);
    assert_eq!(
        store.events,
        vec![CredentialEvent::RevocationRegistryCreated { registry_id: id, issuer: person("uni") }]
    );
}

fn registry(store: &mut CredentialStore, issuer: &str) -> Vec<u8> {
    CredentialIssuer::create_revocation_registry_with_nonce(
        store,
        &call(900, 6, issuer),
        person(issuer),
        text("start"),
    )
    .unwrap()
}

#[test]
fn a_registry_records_a_revocation() {
    let mut store = CredentialStore::new();
    let id = issue(&mut store, 1000, 7, "uni", "ann");
    let registry_id = registry(&mut store, "uni");
    let revoked = CredentialIssuer::revoke_credential_with_registry(
        &mut store,
        &call(2000, 9, "uni"),
        &Env::default(),
        person("uni"),
        id.clone(),
        registry_id.clone(),
        Some(text("lapse")),
    );
    assert_eq!(revoked, Ok(()));
    let entry = CredentialIssuer::get_revocation_registry(&store, &registry_id).unwrap();
    assert_eq!(entry.credential_ids, vec![id.clone()]);
    assert_eq!(entry.revoked_count, 1);
    assert_eq!(entry.nonce, DIGEST_OF_2000.to_vec());
    let mut evidence = CredentialIssuer::get_revocation_proof(&store, &id).unwrap();
    assert_eq!(
        evidence,
        RevocationProof {
            registry_id: registry_id.clone(),
            credential_id: id.clone(),
            nonce: DIGEST_OF_2000.to_vec(),
            timestamp: 2000,
        }
    );
    assert_eq!(CredentialIssuer::verify_revocation_proof(&store, &id, &evidence), Ok(true));
    evidence.timestamp = 1;
    assert_eq!(CredentialIssuer::verify_revocation_proof(&store, &id, &evidence), Ok(true));
    let mut other = evidence.clone();
    other.nonce = text("other");
    assert_eq!(CredentialIssuer::verify_revocation_proof(&store, &id, &other), Ok(false));
    let mut other = evidence.clone();
    other.registry_id = text("other");
    assert_eq!(CredentialIssuer::verify_revocation_proof(&store, &id, &other), Ok(false));
    let mut other = evidence.clone();
    other.credential_id = text("other");
    assert_eq!(CredentialIssuer::verify_revocation_proof(&store, &id, &other), Ok(false));
    assert_eq!(
        CredentialIssuer::verify_revocation_proof(&store, &text("other"), &evidence),
        Err(CredentialIssuerError::RegistryNotFound)
    );
    assert_eq!(CredentialIssuer::get_revocation_reason(&store, &id), Some(text("lapse")));
}

#[test]
fn a_registry_may_refuse() {
    let mut store = CredentialStore::new();
    let first = issue(&mut store, 1000, 7, "uni", "ann");
    let second = issue(&mut store, 1000, 8, "uni", "ann");
    let foreign = registry(&mut store, "school");
    let mut ask = |id: &Vec<u8>, registry_id: &Vec<u8>| {
        CredentialIssuer::revoke_credential_with_registry_nonce(
            &mut store,
            &call(2000, 9, "uni"),
            person("uni"),
            id.clone(),
            registry_id.clone(),
            None,
            text("nonce"),
        )
    };
    assert_eq!(ask(&text("vc:0:0"), &foreign), Err(CredentialIssuerError::NotFound));
    assert_eq!(ask(&first, &text("reg:0:0")), Err(CredentialIssuerError::RegistryNotFound));
    assert_eq!(ask(&first, &foreign), Err(CredentialIssuerError::AlreadyRevoked));
    assert_eq!(ask(&second, &foreign), Err(CredentialIssuerError::Unauthorized));
    assert!(CredentialIssuer::check_revocation_status(&store, &first));
    assert!(CredentialIssuer::check_revocation_status(&store, &second));
    assert_eq!(CredentialIssuer::get_revocation_proof(&store, &second), None);
    assert_eq!(CredentialIssuer::get_revocation_registry(&store, &foreign).unwrap().revoked_count, 0);
}

#[test]
fn a_batch_revokes_what_is_active() {
    let mut store = CredentialStore::new();
    let first = issue(&mut store, 1000, 7, "uni", "ann");
    let second = issue(&mut store, 1100, 8, "uni", "bob");
    let third = issue(&mut store, 1200, 9, "uni", "cleo");
    let registry_id = registry(&mut store, "uni");
    CredentialIssuer::revoke_credential(&mut store, &call(1500, 10, "uni"), person("uni"), third.clone(), None).unwrap();
    let ids = vec![first.clone(), third.clone(), second.clone(), first.clone()];
    let batch_id = CredentialIssuer::batch_revoke_credentials(
        &mut store,
        &call(2000, 11, "uni"),
        &Env::default(),
        person("uni"),
        ids.clone(),
        registry_id.clone(),
        Some(text("recall")),
    )
    .unwrap();
    assert_eq!(batch_id, text("batch:2000:11"));
    assert_eq!(
        CredentialIssuer::batch_verify_credentials(&store, &call(2001, 12, "x"), &ids),
        vec![false, false, false, false]
    );
    let entry = CredentialIssuer::get_revocation_registry(&store, &registry_id).unwrap();
    assert_eq!(entry.credential_ids, vec![first.clone(), second.clone()]);
    assert_eq!(entry.revoked_count, 2);
    assert_eq!(entry.nonce, DIGEST_OF_2000.to_vec());
    let evidence = CredentialIssuer::get_revocation_proof(&store, &first).unwrap();
    assert_eq!(evidence.nonce, DIGEST_OF_2000_FIRST.to_vec());
    assert_eq!(CredentialIssuer::verify_revocation_proof(&store, &first, &evidence), Ok(true));
    assert_eq!(
        CredentialIssuer::get_revocation_proof(&store, &second).unwrap().nonce,
        DIGEST_OF_2000_SECOND.to_vec()
    );
    assert_eq!(CredentialIssuer::get_revocation_proof(&store, &third), None);
    assert_eq!(CredentialIssuer::get_revocation_reason(&store, &first), Some(text("recall")));
    assert_eq!(CredentialIssuer::get_revocation_reason(&store, &third), None);
    assert_eq!(CredentialIssuer::get_credential(&store, &second).unwrap().revocation, Some(text("2000")));
    assert_eq!(CredentialIssuer::get_credential(&store, &third).unwrap().revocation, Some(text("1500")));
    let record = store.batch_revocations.get(&batch_id).unwrap().clone();
    assert_eq!(record.batch_id, batch_id);
    assert_eq!(record.issuer, person("uni"));
    assert_eq!(record.credential_ids, ids);
    assert_eq!(record.reason, Some(text("recall")));
    assert_eq!(record.timestamp, 2000);
    assert_eq!(
        store.events.last(),
        Some(&CredentialEvent::BatchRevocationExecuted { batch_id, registry_id, issuer: person("uni") })
    );
}

#[test]
fn a_batch_stops_at_a_stranger() {
    let mut store = CredentialStore::new();
    let first = issue(&mut store, 1000, 7, "uni", "ann");
    let second = issue(&mut store, 1100, 8, "uni", "bob");
    let theirs = issue(&mut store, 1200, 9, "school", "cleo");
    let registry_id = registry(&mut store, "uni");
    let mut ask = |who: &str, ids: Vec<Vec<u8>>, registry_id: &Vec<u8>| {
        let nonces = ids.clone();
        CredentialIssuer::batch_revoke_credentials_with_nonces(
            &mut store,
            &call(2000, 11, who),
            person(who),
            ids,
            registry_id.clone(),
            None,
            &nonces,
            text("end"),
        )
    };
    assert_eq!(
        ask("uni", vec![first.clone()], &text("reg:0:0")),
        Err(CredentialIssuerError::RegistryNotFound)
    );
    assert_eq!(ask("school", vec![theirs.clone()], &registry_id), Err(CredentialIssuerError::Unauthorized));
    assert_eq!(
        ask("uni", vec![first.clone(), theirs.clone(), second.clone()], &registry_id),
        Err(CredentialIssuerError::Unauthorized)
    );
    assert_eq!(ask("uni", vec![text("vc:0:0")], &registry_id), Err(CredentialIssuerError::NotFound));
    assert_eq!(ask("uni", vec![], &registry_id), Ok(text("batch:2000:11")));
    assert!(CredentialIssuer::check_revocation_status(&store, &first));
    assert!(!CredentialIssuer::check_revocation_status(&store, &second));
    assert!(!CredentialIssuer::check_revocation_status(&store, &theirs));
    assert_eq!(CredentialIssuer::get_revocation_proof(&store, &first).unwrap().nonce, first);
    let entry = CredentialIssuer::get_revocation_registry(&store, &registry_id).unwrap();
    assert_eq!(entry.credential_ids.len(), 0);
    assert_eq!(entry.nonce, text("end"));
}

fn full_registry(store: &mut CredentialStore, count: u32) -> Vec<u8> {
    let id = registry(store, "uni");
    let mut entry = CredentialIssuer::get_revocation_registry(store, &id).unwrap();
    entry.revoked_count = count;
    store.registries.set(&id, entry);
    id
}

#[test]
fn a_full_registry_takes_no_more() {
    let mut store = CredentialStore::new();
    let a = issue(&mut store, 1, 1, "uni", "ann");
    let b = issue(&mut store, 2, 2, "uni", "bob");
    let id = full_registry(&mut store, u32::MAX - 1);
    let now = call(9, 9, "uni");
    let uni = person("uni");
    let single = |store: &CredentialStore, credential: &Vec<u8>, registry: &Vec<u8>| {
        CredentialIssuer::registry_revocation_possible(store, &uni, credential, registry, &None)
    };
    let batch = |store: &CredentialStore, ids: &[&Vec<u8>], registry: &Vec<u8>| {
        let ids: Vec<Vec<u8>> = ids.iter().map(|id| id.to_vec()).collect();
        CredentialIssuer::batch_possible(store, &now, &uni, &ids, registry, &None)
    };
    assert!(single(&store, &a, &id));
    assert!(batch(&store, &[&a, &a], &id));
    assert!(!batch(&store, &[&a, &b], &id));
    assert!(batch(&store, &[&a, &text("nobody"), &b], &id));
    assert!(batch(&store, &[&a, &b], &text("no registry")));

    CredentialIssuer::batch_revoke_credentials(
        &mut store,
        &now,
        &Env::default(),
        person("uni"),
        vec![a.clone(), a.clone()],
        id.clone(),
        None,
    )
    .unwrap();
    let full = CredentialIssuer::get_revocation_registry(&store, &id).unwrap();
    assert_eq!(full.revoked_count, u32::MAX);
    assert_eq!(full.credential_ids, vec![a.clone()]);
    assert!(!single(&store, &b, &id));
    assert!(single(&store, &a, &id));
    assert!(single(&store, &text("nobody"), &id));
    assert!(batch(&store, &[&a], &id));
    assert!(!batch(&store, &[&b], &id));
    let refused = CredentialIssuer::revoke_credential_with_registry(
        &mut store,
        &now,
        &Env::default(),
        person("uni"),
        text("nobody"),
        id,
        None,
    );
    assert_eq!(refused, Err(CredentialIssuerError::NotFound));
}

#[test]
fn a_delegation_counts_its_issuances() {
    let mut store = CredentialStore::new();
    let auth = authorize(&mut store, 3, 500);
    for time in 120..122 {
        assert!(delegated(&mut store, time, "dean", &auth, &["degree"], "data", "proof").is_ok());
    }
    assert!(delegated(&mut store, 122, "dean", &auth, &["other"], "data", "proof").is_err());
    assert!(CredentialIssuer::revoke_credential(
        &mut store,
        &call(130, 30, "uni"),
        person("uni"),
        generate_credential_id(120, 5),
        None,
    )
    .is_ok());
    assert_eq!(CredentialIssuer::get_delegation(&store, &auth).unwrap().issued_count, 2);
}

#[test]
fn nothing_that_follows_touches_a_revocation() {
    let mut store = CredentialStore::new();
    let host = Env::default();
    let a = issue(&mut store, 1, 1, "uni", "ann");
    let b = issue(&mut store, 2, 2, "uni", "bob");
    let id = registry(&mut store, "uni");
    CredentialIssuer::revoke_credential_with_registry(
        &mut store,
        &call(10, 10, "uni"),
        &host,
        person("uni"),
        a.clone(),
        id.clone(),
        Some(text("fraud")),
    )
    .unwrap();
    let record = CredentialIssuer::get_credential(&store, &a).unwrap();
    let evidence = CredentialIssuer::get_revocation_proof(&store, &a).unwrap();

    // A request in the ledger of its issuance that is refused, and a batch that
    // names it again.
    let refused = CredentialIssuer::issue_credential(
        &mut store,
        &call(1, 1, "uni"),
        person("uni"),
        person("eve"),
        texts(&["degree"]),
        text(""),
        None,
        text("proof"),
    );
    assert_eq!(refused, Err(CredentialIssuerError::InvalidCredential));
    CredentialIssuer::batch_revoke_credentials(
        &mut store,
        &call(20, 20, "uni"),
        &host,
        person("uni"),
        vec![a.clone(), b.clone()],
        id.clone(),
        Some(text("other")),
    )
    .unwrap();
    let again = CredentialIssuer::revoke_credential(
        &mut store,
        &call(21, 21, "uni"),
        person("uni"),
        a.clone(),
        Some(text("third")),
    );
    assert_eq!(again, Err(CredentialIssuerError::AlreadyRevoked));

    let after = CredentialIssuer::get_credential(&store, &a).unwrap();
    assert_eq!(after.revocation, record.revocation);
    assert_eq!(after.subject.key, record.subject.key);
    assert_eq!(CredentialIssuer::get_revocation_reason(&store, &a), Some(text("fraud")));
    assert_eq!(CredentialIssuer::verify_revocation_proof(&store, &a, &evidence), Ok(true));
    assert_eq!(CredentialIssuer::verify_credential(&store, &call(99, 99, "x"), &a), Ok(false));
    let entry = CredentialIssuer::get_revocation_registry(&store, &id).unwrap();
    assert_eq!(entry.credential_ids, vec![a, b]);
}

#[test]
fn an_expired_credential_stays_so() {
    let mut store = CredentialStore::new();
    let id = CredentialIssuer::issue_credential(
        &mut store,
        &call(1, 1, "uni"),
        person("uni"),
        person("ann"),
        texts(&["degree"]),
        text("data"),
        Some(50),
        text("proof"),
    )
    .unwrap();
    let at = |store: &CredentialStore, time: u64| {
        CredentialIssuer::verify_credential(store, &call(time, 7, "x"), &id)
    };
    assert_eq!(at(&store, 50), Ok(true));
    assert_eq!(at(&store, 51), Ok(false));
    issue(&mut store, 52, 8, "uni", "ann");
    assert_eq!(at(&store, 53), Ok(false));
    assert_eq!(at(&store, u64::MAX), Ok(false));
}

#[test]
fn a_refused_authorization_leaves_the_one_before() {
    let mut store = CredentialStore::new();
    let auth = authorize(&mut store, 3, 500);
    assert!(delegated(&mut store, 120, "dean", &auth, &["degree"], "data", "proof").is_ok());
    let refused = CredentialIssuer::authorize_delegation(
        &mut store,
        &call(100, 3, "other"),
        person("other"),
        person("dean"),
        texts(&["degree"]),
        9,
        100,
    );
    assert_eq!(refused, Err(CredentialIssuerError::DelegationExpired));
    let kept = CredentialIssuer::get_delegation(&store, &auth).unwrap();
    assert_eq!(kept.id, auth);
    assert_eq!(kept.delegator.key, text("uni"));
    assert_eq!((kept.issued_count, kept.max_issuances, kept.expires_at), (1, 3, 500));
    assert!(kept.active);
}

#[test]
fn errors_are_ordered_by_their_numbers() {
    assert!(CredentialIssuerError::Unauthorized < CredentialIssuerError::NotFound);
    assert!(CredentialIssuerError::InvalidNonce > CredentialIssuerError::RegistryNotFound);
}

#[test]
fn credential_errors_have_their_numbers() {
    let errors = [
        CredentialIssuerError::Unauthorized,
        CredentialIssuerError::NotFound,
        CredentialIssuerError::InvalidCredential,
        CredentialIssuerError::AlreadyRevoked,
        CredentialIssuerError::Expired,
        CredentialIssuerError::InvalidSignature,
        CredentialIssuerError::InvalidIssuer,
        CredentialIssuerError::SchemaValidationFailed,
        CredentialIssuerError::SchemaNotFound,
        CredentialIssuerError::DelegationNotFound,
        CredentialIssuerError::DelegationExpired,
        CredentialIssuerError::DelegationLimitExceeded,
        CredentialIssuerError::UnauthorizedCredentialType,
        CredentialIssuerError::DelegationRevoked,
        CredentialIssuerError::RegistryNotFound,
        CredentialIssuerError::InvalidNonce,
    ];
    for (i, error) in errors.iter().enumerate() {
        assert_eq!(error.code() as usize, i + 1);
    }
}
