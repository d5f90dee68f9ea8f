use microtak_server::app::{ca_start, AppConfig, CaStart, EnrollmentMode, Interval};
use microtak_server::config::{Config, ConfigError, SettingsFile};

#[test]
fn invalid_bind_host_is_rejected_eagerly() {
    let config = Config {
        bind_host: "not-an-ip".to_string(),
        ..Config::default()
    };
    let result = config.to_app_config(None);
    assert!(matches!(
        result,
        Err(ConfigError::InvalidBindHost(_))
    ));
    assert_eq!(
        result.unwrap_err().message(),
        "invalid bind_host 'not-an-ip': not a valid IP address"
    );
}

#[test]
fn non_positive_cert_validity_is_rejected_eagerly() {
    let config = Config {
        cert_validity_days: 0,
        ..Config::default()
    };
    assert!(matches!(
        config.to_app_config(Some("0.0.0.0".to_string())),
        Err(ConfigError::InvalidCertValidity(0))
    ));
    let config = Config { cert_validity_days: -12, ..Config::default() };
    let error = config.to_app_config(Some("0.0.0.0".to_string())).unwrap_err();
    assert_eq!(error.message(), "invalid cert_validity_days -12: must be positive");
}

#[test]
fn valid_config_converts_cleanly() {
    let config = Config::default();
    let app_config = config.to_app_config(Some("0.0.0.0".to_string())).unwrap();
    assert_eq!(app_config.enrollment_addr.port, 8446);
    assert_eq!(app_config.cert_validity_seconds, 365 * 24 * 60 * 60);
    assert!(!app_config.backup.enabled, "backup is off by default");
    assert_eq!(app_config, AppConfig::default());
}

#[test]
fn missing_file_falls_back_to_defaults() {
    let config = Config::load_or_default("microtak.toml", SettingsFile::Missing).unwrap();
    assert_eq!(config, Config::default());
    assert_eq!(config.bind_host, "0.0.0.0");
    assert_eq!(config.enrollment_port, 8446);
    assert_eq!(config.marti_api_port, 8443);
    assert_eq!(config.plain_tcp_port, 8087);
    assert_eq!(config.mtls_port, 8089);
    assert_eq!(config.backup_interval_seconds, 3600);
}

#[test]
fn backup_settings_round_trip_from_toml() {
    let config = Config {
        backup_enabled: true,
        backup_interval_seconds: 900,
        backup_dir: "/var/backups/microtak".to_string(),
        backup_offsite_command: vec![
            "rsync".to_string(),
            "-a".to_string(),
            "{src}/".to_string(),
            "user@host:/backups/".to_string(),
        ],
        ..Config::default()
    };
    let app_config = config.to_app_config(Some("127.0.0.1".to_string())).unwrap();
    assert!(app_config.backup.enabled);
    assert_eq!(app_config.backup.interval, Interval { seconds: 900, nanoseconds: 0 });
    assert_eq!(app_config.backup.backup_dir, "/var/backups/microtak");
    assert_eq!(
        app_config.backup.offsite_command,
        vec!["rsync", "-a", "{src}/", "user@host:/backups/"]
    );
    let runner = app_config.backup_runner().unwrap();
    assert_eq!(
        runner.shipping().unwrap(),
        vec!["rsync", "-a", "/var/backups/microtak/", "user@host:/backups/"]
    );
    assert_eq!(runner.data_dir(), "./data");
}

#[test]
fn an_interval_of_zero_becomes_a_second() {
    let config = Config { backup_interval_seconds: 0, ..Config::default() };
    let app_config = config.to_app_config(Some("::1".to_string())).unwrap();
    assert_eq!(app_config.backup.interval.seconds, 1);
    assert_eq!(app_config.mtls_addr.host, "::1");
    assert!(app_config.backup_runner().is_none());
}

#[test]
fn a_bad_host_is_reported_before_a_bad_validity() {
    let config = Config { cert_validity_days: 0, ..Config::default() };
    assert!(matches!(config.to_app_config(None), Err(ConfigError::InvalidBindHost(_))));
}

#[test]
fn invalid_toml_syntax_is_a_hard_error() {
    let file = SettingsFile::Read(Err("TOML parse error at line 1".to_string()));
    let result = Config::load_or_default("m.toml", file);
    assert!(matches!(result, Err(ConfigError::Parse { .. })));
    assert_eq!(
        result.unwrap_err().message(),
        "failed to parse config file m.toml: TOML parse error at line 1"
    );
}

#[test]
fn a_file_that_cannot_be_read_is_a_hard_error() {
    let file = SettingsFile::Unreadable("denied".to_string());
    let error = Config::load_or_default("m.toml", file).unwrap_err();
    assert_eq!(error.message(), "failed to read config file m.toml: denied");
}

#[test]
fn partial_toml_overrides_only_named_fields() {
    let named = Config {
        data_dir: "/var/lib/microtak".to_string(),
        mtls_port: 9999,
        ..Config::default()
    };
    let config = Config::load_or_default("m.toml", SettingsFile::Read(Ok(named))).unwrap();
    assert_eq!(config.data_dir, "/var/lib/microtak");
    assert_eq!(config.mtls_port, 9999);
    // Untouched fields keep their defaults.
    assert_eq!(config.bind_host, "0.0.0.0");
    assert_eq!(config.enrollment_port, 8446);
}

#[test]
fn enrollment_is_automatic_by_default() {
    assert_eq!(EnrollmentMode::default(), EnrollmentMode::Auto);
    assert_eq!(AppConfig::default().admin_common_name, None);
}

#[test]
fn an_authority_is_loaded_only_where_both_its_files_are() {
    let cert = || Some("cert".to_string());
    let key = || Some("key".to_string());
    assert_eq!(
        ca_start(cert(), key()),
        CaStart::Load { cert_pem: "cert".to_string(), key_pem: "key".to_string() }
    );
    assert_eq!(ca_start(cert(), None), CaStart::Generate);
    assert_eq!(ca_start(None, key()), CaStart::Generate);
    assert_eq!(ca_start(None, None), CaStart::Generate);
}

#[test]
fn state_is_kept_in_the_data_directory() {
    let paths = AppConfig::default().data_paths();
    assert_eq!(paths.ca_cert, "./data/ca-cert.pem");
    assert_eq!(paths.ca_key, "./data/ca-key.pem");
    assert_eq!(paths.devices_log, "./data/devices.log");
    assert_eq!(paths.missions_log, "./data/missions.log");
    assert_eq!(paths.tokens_log, "./data/enrollment_tokens.log");
    assert_eq!(paths.users_log, "./data/users.log");
    assert_eq!(paths.content_dir, "./data/content");
}
