use divine_sky::pds_accounts::{
    account_email, after_create_attempt, attempts_at_least_one, basic_auth_header, check_existing_repo,
    check_invite_code, create_account_request, is_existing_account_conflict, retry_delay, CreateAccountStep,
    CreateAttempt, DEFAULT_MAX_ATTEMPTS,
};
use divine_sky::plc::{
    after_plc_attempt, backfill_target_did, plc_create_endpoint, plc_did_endpoint, rewrite_pds_endpoint, PlcAttempt,
    PlcStep, PRODUCTION_PDS_ORIGIN,
};
use divine_sky::provisioner::{build_plc_operation, AccountLinkRecord, PlcService, ProvisioningState};

#[test]
fn create_account_posts_rsky_native_payload() {
    let email = account_email("alice.divine.video", "divine.video");
    assert_eq!(email, "noreply+alice.divine.video@divine.video");
    let req = create_account_request(
        "alice.divine.video",
        email,
        "pw".into(),
        "divine-invite-1".into(),
        &vec!["did:key:zRecovery".into(), "did:key:zSecond".into()],
    );
    assert_eq!(req.handle, "alice.divine.video");
    assert_eq!(req.invite_code, "divine-invite-1");
    assert_eq!(req.recovery_key.as_deref(), Some("did:key:zRecovery"));
    match after_create_attempt(
        0,
        3,
        CreateAttempt::Created {
            did: "did:plc:minted".into(),
            access_jwt: Some("access-jwt".into()),
            refresh_jwt: Some("refresh-jwt".into()),
        },
    ) {
        CreateAccountStep::Finish { result: Ok(created) } => {
            assert_eq!(created.did, "did:plc:minted");
            let session = created.session.unwrap();
            assert_eq!(session.access_jwt, "access-jwt");
            assert_eq!(session.refresh_jwt, "refresh-jwt");
        }
        _ => panic!("expected the created account"),
    }
    assert_eq!(check_invite_code("divine-invite-1".into()), Ok("divine-invite-1".into()));
    assert!(check_invite_code(String::new()).is_err());
}

#[test]
fn create_account_without_recovery_key_omits_recovery_field() {
    let req = create_account_request("alice.divine.video", "e".into(), "p".into(), "i".into(), &vec![]);
    assert!(req.recovery_key.is_none());
    match after_create_attempt(0, 3, CreateAttempt::Created { did: "did:plc:minted".into(), access_jwt: Some("a".into()), refresh_jwt: None }) {
        CreateAccountStep::Finish { result: Ok(created) } => {
            assert_eq!(created.did, "did:plc:minted");
            assert!(created.session.is_none());
        }
        _ => panic!("expected the created account"),
    }
}

#[test]
fn create_account_conflict_recovers_did_from_handle() {
    assert!(is_existing_account_conflict(400, "Handle already taken"));
    assert!(is_existing_account_conflict(409, ""));
    assert!(is_existing_account_conflict(400, "Account EXISTS"));
    assert!(!is_existing_account_conflict(400, "bad request"));
    assert!(!is_existing_account_conflict(500, "already"));
    let step = after_create_attempt(0, 3, CreateAttempt::Rejected { status: 400, body: "Handle already taken".into() });
    assert!(matches!(step, CreateAccountStep::ResolveExistingDid));
    assert_eq!(check_existing_repo("alice.divine.video", "did:plc:existing".into(), Some("Alice.Divine.Video".into())), Ok("did:plc:existing".into()));
    assert_eq!(check_existing_repo("alice.divine.video", "did:plc:existing".into(), None), Ok("did:plc:existing".into()));
    assert!(check_existing_repo("alice.divine.video", "did:plc:other".into(), Some("bob.divine.video".into())).is_err());
}

#[test]
fn create_account_retries_server_error() {
    assert!(matches!(
        after_create_attempt(0, 3, CreateAttempt::Rejected { status: 503, body: "temporary".into() }),
        CreateAccountStep::RetryAfter { millis: 50 }
    ));
    assert!(matches!(
        after_create_attempt(1, 3, CreateAttempt::SendFailed { retryable: true, error: "timeout".into() }),
        CreateAccountStep::RetryAfter { millis: 100 }
    ));
    match after_create_attempt(2, 3, CreateAttempt::Rejected { status: 503, body: r#"{"error":"Unavailable"}"#.into() }) {
        CreateAccountStep::Finish { result: Err(m) } => assert_eq!(m, "createAccount failed (503): Unavailable"),
        _ => panic!("expected the last attempt to fail"),
    }
    match after_create_attempt(0, 3, CreateAttempt::SendFailed { retryable: false, error: "bad url".into() }) {
        CreateAccountStep::Finish { result: Err(m) } => assert_eq!(m, "sending PDS createAccount request: bad url"),
        _ => panic!("expected a failure"),
    }
    assert_eq!(retry_delay(0), 50);
    assert_eq!(attempts_at_least_one(0), 1);
    assert_eq!(attempts_at_least_one(DEFAULT_MAX_ATTEMPTS), 3);
    assert_eq!(basic_auth_header("secret"), format!("Basic {}", data_encoding::BASE64.encode(b"admin:secret")));
}

#[test]
fn create_did_returns_did_from_response() {
    assert_eq!(plc_create_endpoint("https://plc.directory//"), "https://plc.directory/");
    assert_eq!(plc_did_endpoint("https://plc.directory/", "did:plc:abc"), "https://plc.directory/did:plc:abc");
    match after_plc_attempt(true, "did:plc:derived", 0, 3, PlcAttempt::Succeeded { did: Some("did:plc:from-directory".into()) }) {
        PlcStep::Finish { result: Ok(did) } => assert_eq!(did, "did:plc:from-directory"),
        _ => panic!("expected the directory's DID"),
    }
    match after_plc_attempt(true, "did:plc:derived", 0, 3, PlcAttempt::Succeeded { did: None }) {
        PlcStep::Finish { result: Ok(did) } => assert_eq!(did, "did:plc:derived"),
        _ => panic!("expected the derived DID"),
    }
}

#[test]
fn create_did_retries_server_errors() {
    let attempt = |a| {
        after_plc_attempt(
            true,
            "did:plc:derived",
            a,
            3,
            PlcAttempt::Rejected { status: 503, status_text: "503 Service Unavailable".into(), body: "temporary".into() },
        )
    };
    assert!(matches!(attempt(0), PlcStep::RetryAfter { millis: 50 }));
    match attempt(2) {
        PlcStep::Finish { result: Err(m) } => assert_eq!(m, "PLC directory create failed (503 Service Unavailable): temporary"),
        _ => panic!("expected failure"),
    }
}

#[test]
fn create_did_conflict_returns_derived_did() {
    let conflict = PlcAttempt::Rejected { status: 409, status_text: "409 Conflict".into(), body: "exists".into() };
    match after_plc_attempt(true, "did:plc:derived", 0, 3, conflict) {
        PlcStep::Finish { result: Ok(did) } => assert_eq!(did, "did:plc:derived"),
        _ => panic!("expected the derived DID"),
    }
    let update_conflict = PlcAttempt::Rejected { status: 409, status_text: "409 Conflict".into(), body: r#"{"message":"stale prev"}"#.into() };
    match after_plc_attempt(false, "", 0, 3, update_conflict) {
        PlcStep::Finish { result: Err(m) } => assert_eq!(m, "PLC directory update failed (409 Conflict): stale prev"),
        _ => panic!("expected failure"),
    }
}

#[test]
fn pds_endpoint_is_rewritten_in_place() {
    let mut op = build_plc_operation("a.divine.video", "did:key:zS".into(), "did:key:zR".into(), "https://old.pds");
    rewrite_pds_endpoint(&mut op);
    assert_eq!(op.services.len(), 1);
    assert_eq!(op.services[0].1.endpoint, PRODUCTION_PDS_ORIGIN);
    assert_eq!(op.services[0].1.service_type, "AtprotoPersonalDataServer");
    op.services = vec![(
        "labeler".into(),
        PlcService { service_type: "AtprotoLabeler".into(), endpoint: "https://l".into() },
    )];
    rewrite_pds_endpoint(&mut op);
    let names: Vec<&str> = op.services.iter().map(|(k, _)| k.as_str()).collect();
    assert_eq!(names, vec!["atproto_pds", "labeler"]);
    assert_eq!(op.services[1].1.endpoint, "https://l");
    op.services[0].1.service_type = "CustomPds".into();
    op.services[0].1.endpoint = "https://old".into();
    rewrite_pds_endpoint(&mut op);
    assert_eq!(op.services.len(), 2);
    assert_eq!(op.services[0].1.service_type, "CustomPds");
    assert_eq!(op.services[0].1.endpoint, PRODUCTION_PDS_ORIGIN);
}

#[test]
fn only_ready_accounts_with_a_did_are_backfilled() {
    let mut acct = AccountLinkRecord {
        nostr_pubkey: "pk".into(),
        did: Some("did:plc:x".into()),
        handle: "a.divine.video".into(),
        crosspost_enabled: true,
        signing_key_id: "s".into(),
        plc_rotation_key_ref: "r".into(),
        provisioning_state: ProvisioningState::Ready,
        provisioning_error: None,
        disabled_at: None,
        created_at: 0,
        updated_at: 0,
    };
    assert_eq!(backfill_target_did(&acct), Ok("did:plc:x".into()));
    acct.did = None;
    assert_eq!(backfill_target_did(&acct), Err("ready account is missing a DID".into()));
    acct.provisioning_state = ProvisioningState::Pending;
    assert_eq!(backfill_target_did(&acct), Err("backfill only applies to ready accounts".into()));
}
