use divine_sky::health::{readiness_status, require_internal_auth, STATUS_UNAUTHORIZED};
use divine_sky::legacy_repair::BADJWT_SIGNATURE_ERROR;
use divine_sky::pds_accounts::generate_password;
use divine_sky::repair_cli::{parse_args, repair_command, wants_help, RepairCommand};

fn args(list: &[&str]) -> Vec<String> {
    list.iter().map(|s| s.to_string()).collect()
}

#[test]
fn preview_options_parse_into_a_filter() {
    let a = parse_args(&args(&[
        "--actor", "ops", "--nostr-pubkey", "pk", "--event-id", "e1", "--event-id", "e2", "--after-event-id", "e0",
        "--max-rows", "7",
    ]))
    .unwrap();
    assert_eq!(a.event_ids, vec!["e1".to_string(), "e2".to_string()]);
    assert_eq!(a.max_rows, 7);
    match repair_command(a).unwrap() {
        RepairCommand::Preview { actor, filter } => {
            assert_eq!(actor, "ops");
            assert_eq!(filter.nostr_pubkey, "pk");
            assert_eq!(filter.limit, 7);
            assert_eq!(filter.after_event_id.as_deref(), Some("e0"));
            assert!(filter.exact_error.is_none());
        }
        other => panic!("expected a preview, got {:?}", other),
    }
    let class = parse_args(&args(&["--exact-badjwt", "--actor", "ops", "--nostr-pubkey", "pk"])).unwrap();
    assert_eq!(class.max_rows, 100);
    match repair_command(class).unwrap() {
        RepairCommand::Preview { filter, .. } => assert_eq!(filter.exact_error.as_deref(), Some(BADJWT_SIGNATURE_ERROR)),
        other => panic!("expected a preview, got {:?}", other),
    }
}

#[test]
fn option_errors_are_reported() {
    assert_eq!(parse_args(&args(&["--actor"])).unwrap_err(), "missing value for option");
    assert_eq!(parse_args(&args(&["--bogus", "x"])).unwrap_err(), "unknown option");
    assert_eq!(parse_args(&args(&["--max-rows", "lots"])).unwrap_err(), "--max-rows must be an integer");
    assert!(wants_help(&args(&["--actor", "x", "-h"])));
    assert!(wants_help(&args(&["--help"])));
    assert!(!wants_help(&args(&["--actor", "x"])));
}

#[test]
fn confirm_and_rollback_modes() {
    assert_eq!(
        repair_command(parse_args(&args(&["--operation-id", "op", "--confirm-digest", "d"])).unwrap()),
        Ok(RepairCommand::Confirm { operation_id: "op".into(), digest: "d".into() })
    );
    assert_eq!(
        repair_command(parse_args(&args(&["--rollback-operation-id", "op"])).unwrap()),
        Ok(RepairCommand::Rollback { operation_id: "op".into() })
    );
    assert_eq!(
        repair_command(parse_args(&args(&["--rollback-operation-id", "op", "--confirm-digest", "d"])).unwrap()),
        Err("rollback cannot be combined with confirmation".into())
    );
    assert_eq!(
        repair_command(parse_args(&args(&["--operation-id", "op"])).unwrap()),
        Err("--operation-id and --confirm-digest must be supplied together".into())
    );
    assert_eq!(repair_command(parse_args(&args(&[])).unwrap()), Err("--actor is required".into()));
    assert_eq!(
        repair_command(parse_args(&args(&["--actor", "ops"])).unwrap()),
        Err("--nostr-pubkey is required".into())
    );
}

#[test]
fn internal_api_needs_provisioning_and_the_bearer_token() {
    assert_eq!(require_internal_auth(false, None, None), Err(STATUS_UNAUTHORIZED));
    assert_eq!(require_internal_auth(true, None, None), Ok(()));
    assert_eq!(require_internal_auth(true, Some("s3cret"), Some("Bearer s3cret")), Ok(()));
    assert_eq!(require_internal_auth(true, Some("s3cret"), Some("Bearer wrong")), Err(401));
    assert_eq!(require_internal_auth(true, Some("s3cret"), None), Err(401));
    assert_eq!(require_internal_auth(true, Some(""), Some("Bearer ")), Ok(()));
    assert_eq!(readiness_status(true), 200);
    assert_eq!(readiness_status(false), 503);
}

#[test]
fn passwords_are_sixty_four_lowercase_hex_digits() {
    let p = generate_password();
    assert_eq!(p.len(), 64);
    assert!(p.chars().all(|c| c.is_ascii_digit() || ('a'..='f').contains(&c)));
    assert_ne!(p, generate_password());
}
