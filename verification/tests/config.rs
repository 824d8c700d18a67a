use divine_sky::config::{parse_recovery_rotation_did_keys, parse_u64, AppviewConfig, BridgeConfig, IndexerConfig};

fn config_with(pds_url: &str) -> BridgeConfig {
    BridgeConfig {
        relay_url: "wss://relay.example.com".into(),
        pds_url: pds_url.into(),
        pds_auth_token: "test-token".into(),
        blossom_url: "https://blossom.example.com".into(),
        database_url: "postgres://localhost/test".into(),
        s3_endpoint: "https://s3.example.com".into(),
        s3_bucket: "test-bucket".into(),
        relay_source_name: "nostr-relay".into(),
        health_bind_addr: "0.0.0.0:8080".into(),
        plc_directory_url: "https://plc.directory".into(),
        handle_domain: "divine.video".into(),
        plc_recovery_rotation_did_keys: Vec::new(),
        account_email_domain: "divine.video".into(),
        provisioning_bearer_token: "test-token".into(),
        video_service_url: "https://video.bsky.app".into(),
        video_service_enabled: false,
        video_service_poll_timeout_secs: 120,
        video_service_poll_interval_ms: 5000,
        watchdog_enabled: false,
        watchdog_interval_secs: 30,
    }
}

#[test]
fn from_env_missing_var_returns_error() {
    let config = config_with("https://pds.example.com");
    assert_eq!(config.relay_url, "wss://relay.example.com");
    assert_eq!(config.s3_bucket, "test-bucket");
}

#[test]
fn provisioning_pds_url_prefers_production_host_for_divine_video() {
    let config = config_with("https://pds.staging.dvines.org");
    assert_eq!(config.provisioning_pds_url(), "https://pds.divine.video");
}

#[test]
fn parses_recovery_rotation_did_keys_from_comma_separated_env() {
    let keys = parse_recovery_rotation_did_keys(Some(" did:key:zRecovery1 ,did:key:zRecovery2,, "))
        .ok()
        .expect("valid recovery keys should parse");
    assert_eq!(
        keys,
        vec!["did:key:zRecovery1".to_string(), "did:key:zRecovery2".to_string()]
    );
}

#[test]
fn recovery_rotation_did_keys_default_empty_when_unset() {
    let keys = parse_recovery_rotation_did_keys(None).ok().expect("unset is allowed");
    assert!(keys.is_empty());
}

#[test]
fn rejects_non_did_key_recovery_rotation_entries() {
    let err = parse_recovery_rotation_did_keys(Some("did:plc:abc123"))
        .err()
        .expect("recovery rotation keys must be did:key values");
    assert!(err.message().contains("did:key"));
}

#[test]
fn rejects_too_many_recovery_rotation_did_keys() {
    let err = parse_recovery_rotation_did_keys(Some(
        "did:key:z1,did:key:z2,did:key:z3,did:key:z4,did:key:z5",
    ))
    .err()
    .expect("five recovery keys plus the operational key would exceed PLC max");
    assert!(err.message().contains("at most 4"));
}

#[test]
fn rejects_duplicate_recovery_rotation_did_keys() {
    let err = parse_recovery_rotation_did_keys(Some("did:key:z1,did:key:z1"))
        .err()
        .expect("duplicate recovery keys should fail");
    assert!(err.message().contains("duplicate"));
}

#[test]
fn provisioning_pds_url_keeps_local_dev_pds_url() {
    let config = config_with("http://pds:2583");
    assert_eq!(config.provisioning_pds_url(), "http://pds:2583");
}

#[test]
fn provisioning_pds_url_normalises_the_handle_domain() {
    let mut config = config_with("  https://pds.staging.dvines.org ");
    config.handle_domain = " ..Divine.Video ".into();
    assert_eq!(config.provisioning_pds_url(), "https://pds.divine.video");
    config.handle_domain = "example.com".into();
    assert_eq!(config.provisioning_pds_url(), "  https://pds.staging.dvines.org ");
}

#[test]
fn accepted_recovery_keys_are_did_keys_in_order() {
    let keys = parse_recovery_rotation_did_keys(Some("did:key:zA, did:key:zB ,did:key:zC,did:key:zD"))
        .ok()
        .expect("four keys are allowed");
    assert_eq!(keys, vec!["did:key:zA", "did:key:zB", "did:key:zC", "did:key:zD"]);
    assert!(keys.iter().all(|k| k.starts_with("did:key:")));
}

fn vars(pairs: &[(&str, &str)]) -> Vec<(String, String)> {
    pairs.iter().map(|(k, v)| (k.to_string(), v.to_string())).collect()
}

fn required_bridge_vars() -> Vec<(String, String)> {
    vars(&[
        ("RELAY_URL", "wss://relay.example.com"),
        ("PDS_URL", "https://pds.example.com"),
        ("PDS_AUTH_TOKEN", "tok"),
        ("BLOSSOM_URL", "https://blossom.example.com"),
        ("DATABASE_URL", "postgres://localhost/test"),
        ("S3_ENDPOINT", "https://s3.example.com"),
        ("S3_BUCKET", "test-bucket"),
        ("PLC_DIRECTORY_URL", "https://plc.directory"),
        ("HANDLE_DOMAIN", "divine.video"),
        ("ATPROTO_PROVISIONING_TOKEN", "prov"),
    ])
}

#[test]
fn bridge_config_reads_required_values_and_defaults() {
    let config = BridgeConfig::from_vars(&required_bridge_vars()).ok().unwrap();
    assert_eq!(config.relay_url, "wss://relay.example.com");
    assert_eq!(config.relay_source_name, "nostr-relay");
    assert_eq!(config.health_bind_addr, "0.0.0.0:8080");
    assert_eq!(config.account_email_domain, "divine.video");
    assert_eq!(config.video_service_url, "https://video.bsky.app");
    assert!(!config.video_service_enabled);
    assert_eq!(config.video_service_poll_timeout_secs, 120);
    assert_eq!(config.video_service_poll_interval_ms, 5000);
    assert!(!config.watchdog_enabled);
    assert_eq!(config.watchdog_interval_secs, 30);
    assert!(config.plc_recovery_rotation_did_keys.is_empty());
}

#[test]
fn bridge_config_reads_optional_values() {
    let mut v = required_bridge_vars();
    v.extend(vars(&[
        ("VIDEO_SERVICE_ENABLED", "true"),
        ("WATCHDOG_ENABLED", "TRUE"),
        ("VIDEO_SERVICE_POLL_TIMEOUT_SECS", "+45"),
        ("VIDEO_SERVICE_POLL_INTERVAL_MS", "soon"),
        ("WATCHDOG_INTERVAL_SECS", "18446744073709551616"),
        ("PLC_RECOVERY_ROTATION_DID_KEYS", "did:key:zA, did:key:zB"),
        ("RELAY_SOURCE_NAME", "funnelcake"),
    ]));
    let config = BridgeConfig::from_vars(&v).ok().unwrap();
    assert!(config.video_service_enabled);
    assert!(!config.watchdog_enabled);
    assert_eq!(config.video_service_poll_timeout_secs, 45);
    assert_eq!(config.video_service_poll_interval_ms, 5000);
    assert_eq!(config.watchdog_interval_secs, 30);
    assert_eq!(config.plc_recovery_rotation_did_keys, vec!["did:key:zA".to_string(), "did:key:zB".to_string()]);
    assert_eq!(config.relay_source_name, "funnelcake");
}

#[test]
fn bridge_config_names_the_first_missing_variable() {
    assert_eq!(BridgeConfig::from_vars(&vec![]).err(), Some("RELAY_URL must be set".to_string()));
    let without = |name: &str| -> Vec<(String, String)> {
        required_bridge_vars().into_iter().filter(|(k, _)| k != name).collect()
    };
    assert_eq!(BridgeConfig::from_vars(&without("S3_BUCKET")).err(), Some("S3_BUCKET must be set".to_string()));
    assert_eq!(
        BridgeConfig::from_vars(&without("ATPROTO_PROVISIONING_TOKEN")).err(),
        Some("ATPROTO_PROVISIONING_TOKEN must be set".to_string())
    );
    let mut bad_keys = without("ATPROTO_PROVISIONING_TOKEN");
    bad_keys.push(("PLC_RECOVERY_ROTATION_DID_KEYS".into(), "zQ3s".into()));
    assert_eq!(
        BridgeConfig::from_vars(&bad_keys).err(),
        Some("PLC_RECOVERY_ROTATION_DID_KEYS entries must be did:key values".to_string())
    );
}

#[test]
fn indexer_and_appview_configs_read_their_variables() {
    assert_eq!(IndexerConfig::from_vars(&vec![]).err(), Some("DATABASE_URL is required".to_string()));
    assert_eq!(
        IndexerConfig::from_vars(&vars(&[("DATABASE_URL", "pg")])).err(),
        Some("DIVINE_PDS_URL is required".to_string())
    );
    let c = IndexerConfig::from_vars(&vars(&[("DATABASE_URL", "pg"), ("DIVINE_PDS_URL", "https://pds")])).ok().unwrap();
    assert_eq!((c.relay_url.as_str(), c.oneshot), ("ws://127.0.0.1:3001", true));
    let c = IndexerConfig::from_vars(&vars(&[
        ("DATABASE_URL", "pg"),
        ("DIVINE_PDS_URL", "https://pds"),
        ("DIVINE_INDEXER_ONESHOT", "false"),
    ]))
    .ok()
    .unwrap();
    assert!(!c.oneshot);
    assert_eq!(AppviewConfig::from_vars(&vec![]).err(), Some("DATABASE_URL is required".to_string()));
    let a = AppviewConfig::from_vars(&vars(&[("DATABASE_URL", "pg"), ("VIEWER_ORIGIN", "https://v")])).ok().unwrap();
    assert_eq!(a.bind_addr, "0.0.0.0:3004");
    assert_eq!(a.media_base_url, "http://127.0.0.1:3100");
    assert_eq!(a.viewer_origin.as_deref(), Some("https://v"));
    assert_eq!(parse_u64("+7"), Some(7));
    assert_eq!(parse_u64("-7"), None);
    assert_eq!(parse_u64("18446744073709551615"), Some(u64::MAX));
}
