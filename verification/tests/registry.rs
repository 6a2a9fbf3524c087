use casper_credentials::registry::CasperCreds;
use casper_credentials::scripts::CasperCredsDeployScript;
use casper_credentials::scripts::RegisterIssuerScenario;
use casper_credentials::scripts::TotalScenario;
use casper_credentials::types::Error;
use casper_credentials::types::VerifyStatus;

const OWNER: u64 = 0;
const UNI: u64 = 1;
const STUDENT: u64 = 2;

fn registry_with_uni(allow_self_issuance: bool) -> CasperCreds {
    let mut c = CasperCreds::init(OWNER, allow_self_issuance);
    c.register_issuer(OWNER, UNI, "MIT".to_string()).unwrap();
    c
}

fn issue_degree(c: &mut CasperCreds, caller: u64, now: u64, holder: u64, expires_at: u64) -> u64 {
    c.issue(
        caller,
        now,
        holder,
        "degree".to_string(),
        "BSc CS".to_string(),
        expires_at,
        "".to_string(),
    )
    .unwrap()
}

#[test]
fn full_flow() {
    let mut c = registry_with_uni(false);
    let id = issue_degree(&mut c, UNI, 0, STUDENT, 0);
    let rep = c.verify(id, 0).unwrap();
    assert!(rep.status == VerifyStatus::Valid);
    assert_eq!(rep.credential.title, "BSc CS");
    c.revoke(UNI, 0, id, "".to_string()).unwrap();
    let rep = c.verify(id, 0).unwrap();
    assert!(rep.status != VerifyStatus::Valid);
}

#[test]
fn ids_are_dense_and_total_grows_by_one() {
    let mut c = registry_with_uni(false);
    for expected in 0..5u64 {
        assert_eq!(c.total(), expected);
        let id = issue_degree(&mut c, UNI, 10, STUDENT, 0);
        assert_eq!(id, expected);
        assert_eq!(c.total(), expected + 1);
    }
}

#[test]
fn batch_issue_ids_and_total() {
    let mut c = registry_with_uni(false);
    let before = c.total();
    let ids = c
        .batch_issue(
            UNI,
            5,
            vec![STUDENT, 7, 8],
            "degree".to_string(),
            "MSc".to_string(),
            0,
            "m".to_string(),
        )
        .unwrap();
    assert_eq!(ids, vec![0, 1, 2]);
    assert_eq!(c.total(), before + 3);
    for (k, id) in ids.iter().enumerate() {
        let cred = c.get_credential(*id).unwrap();
        assert_eq!(cred.holder, [STUDENT, 7, 8][k]);
        assert_eq!(cred.title, "MSc");
        assert_eq!(cred.issued_at, 5);
    }
}

#[test]
fn batch_limit_exceeded_creates_nothing() {
    let mut c = registry_with_uni(false);
    let eleven: Vec<u64> = (100..111).collect();
    assert_eq!(eleven.len(), 11);
    let r = c.batch_issue(
        UNI,
        5,
        eleven,
        "degree".to_string(),
        "MSc".to_string(),
        0,
        "".to_string(),
    );
    assert_eq!(r, Err(Error::BatchLimitExceeded));
    assert_eq!(c.total(), 0);
}

#[test]
fn batch_of_exactly_ten_is_accepted() {
    let mut c = registry_with_uni(false);
    let ten: Vec<u64> = (100..110).collect();
    let ids = c
        .batch_issue(UNI, 5, ten, "degree".to_string(), "MSc".to_string(), 0, "".to_string())
        .unwrap();
    assert_eq!(ids.len(), 10);
    assert_eq!(c.total(), 10);
}

#[test]
fn holder_and_issuer_indexes_match_store() {
    let mut c = registry_with_uni(true);
    let a = issue_degree(&mut c, UNI, 1, STUDENT, 0);
    let b = issue_degree(&mut c, UNI, 2, 7, 0);
    let d = issue_degree(&mut c, UNI, 3, STUDENT, 0);
    let e = issue_degree(&mut c, 9, 4, STUDENT, 0); // self-issued by 9
    assert_eq!(c.get_holder_creds(STUDENT), vec![a, d, e]);
    assert_eq!(c.get_holder_creds(7), vec![b]);
    assert_eq!(c.get_holder_creds(42), Vec::<u64>::new());
    assert_eq!(c.get_issuer_creds(UNI), vec![a, b, d]);
    assert_eq!(c.get_issuer_creds(9), vec![e]);
    for id in [a, b, d, e] {
        let cred = c.get_credential(id).unwrap();
        assert!(c.get_holder_creds(cred.holder).contains(&id));
        assert!(c.get_issuer_creds(cred.issuer).contains(&id));
    }
}

#[test]
fn revoke_twice_fails_already_revoked_and_changes_nothing() {
    let mut c = registry_with_uni(false);
    let id = issue_degree(&mut c, UNI, 1, STUDENT, 0);
    c.revoke(UNI, 2, id, "fraud".to_string()).unwrap();
    let total_before = c.total();
    let reason_before = c.get_revocation(id).unwrap().reason.clone();
    let r = c.revoke(UNI, 3, id, "again".to_string());
    assert_eq!(r, Err(Error::AlreadyRevoked));
    assert_eq!(c.total(), total_before);
    assert_eq!(c.get_revocation(id).unwrap().reason, reason_before);
    assert!(c.get_credential(id).unwrap().revoked);
}

#[test]
fn owner_cannot_revoke_someone_elses_credential() {
    let mut c = registry_with_uni(false);
    let id = issue_degree(&mut c, UNI, 1, STUDENT, 0);
    let r = c.revoke(OWNER, 2, id, "abuse".to_string());
    assert_eq!(r, Err(Error::NotCredIssuer));
    assert!(!c.get_credential(id).unwrap().revoked);
    assert!(c.get_revocation(id).is_none());
}

#[test]
fn revoke_unknown_id_fails_not_found() {
    let mut c = registry_with_uni(false);
    let r = c.revoke(UNI, 1, 99, "x".to_string());
    assert_eq!(r, Err(Error::NotFound));
}

#[test]
fn expiry_is_purely_time_driven() {
    let mut c = registry_with_uni(false);
    let id = issue_degree(&mut c, UNI, 100, STUDENT, 200);
    assert!(c.is_valid(id, 150));
    assert_eq!(c.verify(id, 150).unwrap().status, VerifyStatus::Valid);
    // expiry is inclusive: at the boundary the credential is still valid
    assert!(c.is_valid(id, 200));
    // no mutation between the two reads; only the clock advanced
    assert!(!c.is_valid(id, 201));
    assert_eq!(c.verify(id, 201).unwrap().status, VerifyStatus::Expired);
}

#[test]
fn expires_at_zero_never_expires() {
    let mut c = registry_with_uni(false);
    let id = issue_degree(&mut c, UNI, 100, STUDENT, 0);
    assert!(c.is_valid(id, u64::MAX));
    assert_eq!(c.verify(id, u64::MAX).unwrap().status, VerifyStatus::Valid);
}

#[test]
fn mit_revocation_scenario() {
    let mut c = CasperCreds::init(OWNER, false);
    c.register_issuer(OWNER, UNI, "MIT".to_string()).unwrap();
    let id = issue_degree(&mut c, UNI, 10, STUDENT, 0);
    let rep = c.verify(id, 11).unwrap();
    assert_eq!(rep.status, VerifyStatus::Valid);
    assert_eq!(rep.issuer_name, "MIT");
    c.revoke(UNI, 12, id, "fraud".to_string()).unwrap();
    let rep = c.verify(id, 13).unwrap();
    assert_eq!(rep.status, VerifyStatus::Revoked);
    let rr = c.get_revocation(id).unwrap();
    assert_eq!(rr.reason, "fraud");
    assert_eq!(rr.revoked_by, UNI);
    // the revoked check precedes the issuer-active check
    c.deactivate_issuer(OWNER, UNI).unwrap();
    assert_eq!(c.verify(id, 14).unwrap().status, VerifyStatus::Revoked);
}

#[test]
fn self_issuance_snapshot_is_permanent() {
    let caller = 33u64;
    let mut c = CasperCreds::init(OWNER, true);
    let id = issue_degree(&mut c, caller, 10, STUDENT, 0);
    assert!(c.get_issuer(caller).is_none());
    assert_eq!(c.get_credential(id).unwrap().institution, "Self-Issued");
    let rep = c.verify(id, 11).unwrap();
    assert_eq!(rep.status, VerifyStatus::Valid);
    assert_eq!(rep.issuer_name, "Unknown");
    // registering the caller later does not rewrite the snapshot
    c.register_issuer(OWNER, caller, "Night School".to_string()).unwrap();
    assert_eq!(c.get_credential(id).unwrap().institution, "Self-Issued");
    assert_eq!(c.verify(id, 12).unwrap().issuer_name, "Night School");
}

#[test]
fn gated_variant_rejects_unregistered_issuer() {
    let mut c = CasperCreds::init(OWNER, false);
    let r = c.issue(
        33,
        10,
        STUDENT,
        "degree".to_string(),
        "BSc".to_string(),
        0,
        "".to_string(),
    );
    assert_eq!(r, Err(Error::NotIssuer));
    assert_eq!(c.total(), 0);
}

#[test]
fn deactivated_issuer_cannot_issue() {
    let mut c = registry_with_uni(false);
    c.deactivate_issuer(OWNER, UNI).unwrap();
    let r = c.issue(
        UNI,
        10,
        STUDENT,
        "degree".to_string(),
        "BSc".to_string(),
        0,
        "".to_string(),
    );
    assert_eq!(r, Err(Error::NotIssuer));
    c.reactivate_issuer(OWNER, UNI).unwrap();
    let id = issue_degree(&mut c, UNI, 11, STUDENT, 0);
    assert_eq!(id, 0);
}

#[test]
fn inactive_issuer_status_and_is_valid_asymmetry() {
    let mut c = registry_with_uni(false);
    let id = issue_degree(&mut c, UNI, 10, STUDENT, 0);
    c.deactivate_issuer(OWNER, UNI).unwrap();
    let rep = c.verify(id, 11).unwrap();
    assert_eq!(rep.status, VerifyStatus::IssuerInactive);
    assert!(!rep.issuer_active);
    // is_valid deliberately omits the issuer-inactive check
    assert!(c.is_valid(id, 11));
}

#[test]
fn register_issuer_requires_owner() {
    let mut c = CasperCreds::init(OWNER, false);
    let r = c.register_issuer(UNI, UNI, "MIT".to_string());
    assert_eq!(r, Err(Error::NotOwner));
    assert!(c.get_issuer(UNI).is_none());
}

#[test]
fn duplicate_issuer_is_rejected() {
    let mut c = registry_with_uni(false);
    let r = c.register_issuer(OWNER, UNI, "MIT again".to_string());
    assert_eq!(r, Err(Error::IssuerExists));
    assert_eq!(c.get_issuer(UNI).unwrap().0, "MIT");
}

#[test]
fn deactivate_unknown_issuer_is_a_noop() {
    let mut c = CasperCreds::init(OWNER, false);
    assert_eq!(c.deactivate_issuer(OWNER, 77), Ok(()));
    assert!(c.get_issuer(77).is_none());
}

#[test]
fn transfer_ownership_moves_the_gate() {
    let mut c = CasperCreds::init(OWNER, false);
    c.transfer_ownership(OWNER, 50).unwrap();
    assert_eq!(c.owner(), 50);
    assert_eq!(c.register_issuer(OWNER, UNI, "MIT".to_string()), Err(Error::NotOwner));
    assert_eq!(c.register_issuer(50, UNI, "MIT".to_string()), Ok(()));
    assert_eq!(c.transfer_ownership(OWNER, OWNER), Err(Error::NotOwner));
}

#[test]
fn verify_unknown_id_fails_not_found() {
    let c = CasperCreds::init(OWNER, false);
    assert!(c.verify(0, 1).is_err());
    assert!(!c.is_valid(0, 1));
    assert!(c.get_credential(0).is_none());
    assert!(c.get_revocation(0).is_none());
}

#[test]
fn issued_credential_records_every_field() {
    let mut c = registry_with_uni(false);
    let id = c
        .issue(
            UNI,
            1234,
            STUDENT,
            "certificate".to_string(),
            "Welding".to_string(),
            9999,
            "bafyhash".to_string(),
        )
        .unwrap();
    let cred = c.get_credential(id).unwrap();
    assert_eq!(cred.issuer, UNI);
    assert_eq!(cred.holder, STUDENT);
    assert_eq!(cred.cred_type, "certificate");
    assert_eq!(cred.title, "Welding");
    assert_eq!(cred.institution, "MIT");
    assert_eq!(cred.issued_at, 1234);
    assert_eq!(cred.expires_at, 9999);
    assert!(!cred.revoked);
    assert_eq!(cred.metadata_hash, "bafyhash");
    assert_eq!(cred.schema_version, 1);
    assert_eq!(c.schema_version(), 1);
}

#[test]
fn deploy_script_and_scenarios() {
    let mut reg = CasperCredsDeployScript.deploy(OWNER, false);
    assert_eq!(reg.owner(), OWNER);
    assert_eq!(TotalScenario.run(&reg), 0);
    RegisterIssuerScenario
        .run(&mut reg, OWNER, UNI, "MIT".to_string())
        .unwrap();
    assert_eq!(reg.get_issuer(UNI).unwrap().0, "MIT");
    let id = issue_degree(&mut reg, UNI, 1, STUDENT, 0);
    assert_eq!(TotalScenario.run(&reg), id + 1);
}
