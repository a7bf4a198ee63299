use smos::config::{ConfigError, ConfigUpdate, LogSource, SmosConfig, SmosConfigFile};

#[test]
fn default_config_validates() {
    let cfg = SmosConfig::default();
    cfg.validate().unwrap();
}

#[test]
fn rejects_empty_host_label() {
    let mut cfg = SmosConfig::default();
    cfg.host_label = "  ".into();
    assert!(cfg.validate().is_err());
}

#[test]
fn rejects_bad_bind() {
    let mut cfg = SmosConfig::default();
    cfg.bind = "not-an-address".into();
    assert!(cfg.validate().is_err());
}

#[test]
fn apply_update_validates() {
    let mut cfg = SmosConfig::default();
    let err = cfg
        .apply_update(ConfigUpdate {
            log_tail_lines: Some(0),
            ..Default::default()
        })
        .unwrap_err();
    assert!(err.message().contains("log_tail_lines"));
}

#[test]
fn history_retention_defaults_and_validates() {
    let cfg = SmosConfig::default();
    assert_eq!(cfg.history_retention_days, 30);
    assert_eq!(cfg.metrics_history_interval_secs, 60);
    cfg.validate().unwrap();

    let mut bad = SmosConfig::default();
    bad.history_retention_days = 0;
    assert!(bad.validate().is_err());
    bad.history_retention_days = 30;
    bad.metrics_history_interval_secs = 5;
    assert!(bad.validate().is_err());
}

#[test]
fn apply_update_is_atomic_on_validation_failure() {
    let mut cfg = SmosConfig::default();
    let before = cfg.clone();
    cfg.host_label = "original-label".into();
    cfg.log_tail_lines = 200;
    let snapshot = cfg.clone();

    let err = cfg
        .apply_update(ConfigUpdate {
            host_label: Some("would-be-changed".into()),
            log_tail_lines: Some(0), // invalid
            ..Default::default()
        })
        .unwrap_err();
    assert!(err.message().contains("log_tail_lines"));
    // No field from the rejected update may stick.
    assert_eq!(cfg.host_label, snapshot.host_label);
    assert_eq!(cfg.log_tail_lines, snapshot.log_tail_lines);
    assert_eq!(cfg, snapshot);
    assert_ne!(cfg.host_label, "would-be-changed");
    let _ = before;
}

#[test]
fn apply_update_changes_only_given_fields() {
    let mut cfg = SmosConfig::default();
    cfg.apply_update(ConfigUpdate {
        host_label: Some("edge-1".into()),
        history_retention_days: Some(90),
        ..Default::default()
    })
    .unwrap();
    assert_eq!(cfg.host_label, "edge-1");
    assert_eq!(cfg.history_retention_days, 90);
    assert_eq!(cfg.bind, "127.0.0.1:9090");
    assert_eq!(cfg.log_tail_lines, 200);
    assert_eq!(cfg.data_dir, "smos-data");
}

#[test]
fn apply_update_can_clear_and_set_token() {
    let mut cfg = SmosConfig::default();
    cfg.apply_update(ConfigUpdate {
        auth_token: Some(Some("secret".into())),
        ..Default::default()
    })
    .unwrap();
    assert_eq!(cfg.auth_token.as_deref(), Some("secret"));
    assert!(cfg.public_view().auth_token_set);
    cfg.apply_update(ConfigUpdate {
        auth_token: Some(None),
        ..Default::default()
    })
    .unwrap();
    assert!(cfg.auth_token.is_none());
    assert!(!cfg.public_view().auth_token_set);
}

#[test]
fn each_rule_has_its_error() {
    let check = |f: &dyn Fn(&mut SmosConfig), expected: ConfigError| {
        let mut c = SmosConfig::default();
        f(&mut c);
        assert_eq!(c.validate().unwrap_err(), expected);
    };
    check(&|c| c.bind = " \t".into(), ConfigError::EmptyBind);
    check(&|c| c.bind = "host:99999".into(), ConfigError::InvalidBind("host:99999".into()));
    check(&|c| c.bind = ":9090".into(), ConfigError::InvalidBind(":9090".into()));
    check(&|c| c.bind = "host:-1".into(), ConfigError::InvalidBind("host:-1".into()));
    check(&|c| c.log_tail_lines = 50_001, ConfigError::LogTailLines);
    check(&|c| c.host_label = "x".repeat(129), ConfigError::HostLabel);
    check(&|c| c.metrics_poll_secs = 0, ConfigError::MetricsPollSecs);
    check(&|c| c.metrics_poll_secs = 3601, ConfigError::MetricsPollSecs);
    check(&|c| c.history_retention_days = 3651, ConfigError::HistoryRetentionDays);
    check(&|c| c.metrics_history_interval_secs = 3601, ConfigError::MetricsHistoryInterval);
    check(
        &|c| {
            c.log_sources = vec![LogSource { id: " ".into(), label: "l".into(), path: "/p".into() }]
        },
        ConfigError::EmptyLogSourceId,
    );
    check(
        &|c| {
            c.log_sources = vec![LogSource { id: "a".into(), label: "".into(), path: "/p".into() }]
        },
        ConfigError::EmptyLogSourceLabel,
    );
    check(&|c| c.auth_token = Some(String::new()), ConfigError::EmptyAuthToken);
}

#[test]
fn bind_forms_accepted() {
    for b in ["127.0.0.1:9090", "localhost:80", "[::1]:8080", "host:+80", "0.0.0.0:0065535"] {
        let mut c = SmosConfig::default();
        c.bind = b.into();
        assert!(c.validate().is_ok(), "{b}");
    }
}

#[test]
fn host_label_length_is_in_bytes() {
    let mut c = SmosConfig::default();
    c.host_label = "é".repeat(64); // 128 bytes
    assert!(c.validate().is_ok());
    c.host_label = "é".repeat(65); // 130 bytes, 65 chars
    assert_eq!(c.validate().unwrap_err(), ConfigError::HostLabel);
}

#[test]
fn invalid_bind_message_names_the_address() {
    let e = ConfigError::InvalidBind("not-an-address".into());
    assert_eq!(e.message(), "invalid bind address 'not-an-address'; expected host:port");
}

#[test]
fn public_view_hides_token_value() {
    let mut c = SmosConfig::default();
    c.auth_token = Some("super-secret".into());
    let v = c.public_view();
    assert!(v.auth_token_set);
    assert_eq!(v.bind, c.bind);
    assert_eq!(v.data_dir, "smos-data");
    assert!(!format!("{v:?}").contains("super-secret"));
}

#[test]
fn config_file_roundtrip_keeps_fields() {
    let mut c = SmosConfig::default();
    c.host_label = "vps-alpha".into();
    c.log_tail_lines = 500;
    let file = SmosConfigFile::from_config(c.clone());
    let back = SmosConfig::from_file(file);
    assert_eq!(back, c);
}

#[test]
fn config_paths_join_data_dir() {
    assert_eq!(SmosConfig::config_path("/var/lib/smos"), "/var/lib/smos/config.json");
    assert_eq!(SmosConfig::audit_path("data"), "data/audit.jsonl");
    assert_eq!(smos::config::default_history_retention_days(), 30);
    assert_eq!(smos::config::default_metrics_history_interval_secs(), 60);
}
