use oproxy::config::{Config, PathStatus};
use oproxy::env::{EnvErrorKind, EnvVars};
use std::path::Path;

fn path_status(cfg: &Config) -> PathStatus {
    PathStatus {
        storage_exists: Path::new(&cfg.storage_path).exists(),
        storage_readonly: false,
        root_ca_exists: Path::new(&cfg.mitm.root_ca_path).exists(),
        map_local_exists: cfg
            .map_local_base_path
            .as_ref()
            .map(|p| Path::new(p).exists())
            .unwrap_or(false),
    }
}

fn validate(cfg: &Config) -> Vec<String> {
    cfg.validate(&path_status(cfg))
}

fn env(pairs: &[(&str, &str)]) -> EnvVars {
    EnvVars {
        vars: pairs
            .iter()
            .map(|(k, v)| (k.to_string(), v.to_string()))
            .collect(),
    }
}

#[test]
fn default_values() {
    let cfg = Config::default();
    assert_eq!(cfg.port, 8080);
    assert_eq!(cfg.bind_host, "127.0.0.1");
    assert!(!cfg.mitm.enabled);
    assert_eq!(cfg.mitm.root_ca_path, "./certs");
    assert_eq!(cfg.storage_path, "./storage");
    assert_eq!(cfg.timeout_secs, 30);
    assert_eq!(cfg.connect_timeout_secs, 10);
    assert_eq!(cfg.handshake_timeout_secs, 10);
    assert_eq!(cfg.shutdown_grace_secs, 10);
    assert_eq!(cfg.max_body_bytes, 10 * 1024 * 1024);
    assert_eq!(cfg.max_retained_body_bytes, 64 * 1024 * 1024);
    assert_eq!(cfg.pool_max_idle_per_host, 10);
    assert_eq!(cfg.pool_idle_timeout_secs, 30);
    assert_eq!(cfg.max_sessions, 10_000);
    assert_eq!(cfg.max_connections, 1024);
    assert_eq!(cfg.log.level, "info");
    assert_eq!(cfg.log.dir, ".");
    assert_eq!(cfg.log.file, "server.log");
    assert!(!cfg.allow_remote_admin);
    assert_eq!(cfg.admin_token, None);
    assert!(!cfg.allow_private_admin_egress);
}

#[test]
fn http3_enabled_without_port_warns() {
    let cfg = Config {
        http3_enabled: true,
        http3_port: None,
        ..Default::default()
    };
    assert!(
        validate(&cfg).iter().any(|w| w.contains("http3_port is not set")),
        "must warn when h3 is enabled without a port"
    );
}

#[test]
fn http3_disabled_by_default() {
    let cfg = Config::default();
    assert!(!cfg.http3_enabled);
    assert_eq!(cfg.http3_port, None);
}

#[test]
fn otel_enabled_without_endpoint_warns() {
    let cfg = Config {
        otel_enabled: true,
        otel_endpoint: None,
        ..Default::default()
    };
    assert!(
        validate(&cfg).iter().any(|w| w.contains("otel_endpoint is not set")),
        "must warn when otel is enabled without an endpoint"
    );
}

#[test]
fn otel_disabled_by_default() {
    let cfg = Config::default();
    assert!(!cfg.otel_enabled);
    assert_eq!(cfg.otel_endpoint, None);
}

#[test]
fn wildcard_bind_without_admin_token_warns() {
    let cfg = Config {
        bind_host: "0.0.0.0".to_string(),
        ..Config::default()
    };
    assert!(validate(&cfg)
        .iter()
        .any(|warning| warning.contains("wildcard without admin_token")));
}

#[test]
fn private_admin_egress_with_remote_admin_warns() {
    let cfg = Config {
        allow_remote_admin: true,
        admin_token: Some("secret".to_string()),
        allow_private_admin_egress: true,
        ..Config::default()
    };
    assert!(validate(&cfg)
        .iter()
        .any(|warning| warning.contains("allow_private_admin_egress")));
}

#[test]
fn map_local_base_path_nonexistent_warns() {
    let cfg = Config {
        map_local_base_path: Some("/nonexistent/fixtures".to_string()),
        ..Config::default()
    };
    let warnings = validate(&cfg);
    assert!(warnings
        .iter()
        .any(|w| w.contains("map_local_base_path") && w.contains("does not exist")));
}

#[test]
fn limits_at_zero_warn_in_order() {
    let cfg = Config {
        port: 0,
        max_connections: 0,
        ..Config::default()
    };
    let status = PathStatus {
        storage_exists: true,
        storage_readonly: false,
        root_ca_exists: true,
        map_local_exists: true,
    };
    let warnings = cfg.validate(&status);
    assert_eq!(
        warnings,
        vec![
            "port is 0 - OS will assign an ephemeral port".to_string(),
            "max_connections is 0 - all downstream connections will be rejected".to_string(),
        ]
    );
}

#[test]
fn storage_path_problems_are_reported() {
    let cfg = Config::default();
    let missing = PathStatus {
        storage_exists: false,
        storage_readonly: false,
        root_ca_exists: true,
        map_local_exists: true,
    };
    assert_eq!(
        cfg.validate(&missing),
        vec!["storage_path './storage' does not exist - it will be created on startup".to_string()]
    );
    let readonly = PathStatus {
        storage_exists: true,
        storage_readonly: true,
        root_ca_exists: true,
        map_local_exists: true,
    };
    assert_eq!(
        cfg.validate(&readonly),
        vec!["storage_path './storage' appears to be read-only".to_string()]
    );
}

#[test]
fn safe_defaults_produce_no_warnings() {
    let status = PathStatus {
        storage_exists: true,
        storage_readonly: false,
        root_ca_exists: false,
        map_local_exists: false,
    };
    assert!(Config::default().validate(&status).is_empty());
}

#[test]
fn oproxy_port_env_var_overrides_port() {
    let mut cfg = Config::default();
    cfg.apply_env_overrides(&env(&[("OPROXY_PORT", "9090")])).unwrap();
    assert_eq!(cfg.port, 9090);
}

#[test]
fn http3_env_vars_override_enabled_and_port() {
    let mut cfg = Config::default();
    cfg.apply_env_overrides(&env(&[
        ("OPROXY_HTTP3_ENABLED", "true"),
        ("OPROXY_HTTP3_PORT", "8443"),
    ]))
    .unwrap();
    assert!(cfg.http3_enabled);
    assert_eq!(cfg.http3_port, Some(8443));
}

#[test]
fn otel_env_vars_override_enabled_and_endpoint() {
    let mut cfg = Config::default();
    cfg.apply_env_overrides(&env(&[
        ("OPROXY_OTEL_ENABLED", "true"),
        ("OPROXY_OTEL_ENDPOINT", "http://localhost:4317"),
    ]))
    .unwrap();
    assert!(cfg.otel_enabled);
    assert_eq!(cfg.otel_endpoint.as_deref(), Some("http://localhost:4317"));
}

#[test]
fn invalid_oproxy_port_panics() {
    let mut cfg = Config::default();
    let err = cfg
        .apply_env_overrides(&env(&[("OPROXY_PORT", "not_a_number")]))
        .expect_err("invalid environment variable must be rejected");
    assert_eq!(err.name, "OPROXY_PORT");
    assert_eq!(err.value, "not_a_number");
    assert_eq!(err.kind, EnvErrorKind::Number);
    assert_eq!(cfg.port, 8080);
}

#[test]
fn invalid_boolean_env_var_panics() {
    let mut cfg = Config::default();
    let err = cfg
        .apply_env_overrides(&env(&[("OPROXY_MITM_ENABLED", "sometimes")]))
        .expect_err("invalid boolean must be rejected");
    assert_eq!(err.name, "OPROXY_MITM_ENABLED");
    assert_eq!(err.value, "sometimes");
    assert_eq!(err.kind, EnvErrorKind::Boolean);
}

#[test]
fn oproxy_mitm_enabled_env_var() {
    for val in ["1", "true", "yes", "TRUE", "YES"] {
        let mut cfg = Config::default();
        cfg.apply_env_overrides(&env(&[("OPROXY_MITM_ENABLED", val)])).unwrap();
        assert!(cfg.mitm.enabled, "expected mitm enabled for value '{val}'");
    }
}

#[test]
fn oproxy_storage_path_env_var() {
    let mut cfg = Config::default();
    cfg.apply_env_overrides(&env(&[("OPROXY_STORAGE_PATH", "/tmp/my_storage")]))
        .unwrap();
    assert_eq!(cfg.storage_path, "/tmp/my_storage");
}

#[test]
fn oproxy_bind_host_env_var() {
    let mut cfg = Config::default();
    cfg.apply_env_overrides(&env(&[("OPROXY_BIND_HOST", "127.0.0.1")])).unwrap();
    assert_eq!(cfg.bind_host, "127.0.0.1");
}

#[test]
fn admin_security_env_vars_override_defaults() {
    let mut cfg = Config::default();
    cfg.apply_env_overrides(&env(&[
        ("OPROXY_ALLOW_REMOTE_ADMIN", "true"),
        ("OPROXY_ADMIN_TOKEN", "secret-token"),
        ("OPROXY_ALLOW_PRIVATE_ADMIN_EGRESS", "true"),
    ]))
    .unwrap();
    assert!(cfg.allow_remote_admin);
    assert_eq!(cfg.admin_token.as_deref(), Some("secret-token"));
    assert!(cfg.allow_private_admin_egress);
}

#[test]
fn capture_limit_env_vars_override_defaults() {
    let mut cfg = Config::default();
    cfg.apply_env_overrides(&env(&[
        ("OPROXY_MAX_BODY_BYTES", "4096"),
        ("OPROXY_MAX_SESSIONS", "123"),
        ("OPROXY_MAX_RETAINED_BODY_BYTES", "8192"),
        ("OPROXY_MAX_CONNECTIONS", "44"),
        ("OPROXY_CONNECT_TIMEOUT_SECS", "3"),
        ("OPROXY_HANDSHAKE_TIMEOUT_SECS", "4"),
        ("OPROXY_SHUTDOWN_GRACE_SECS", "5"),
    ]))
    .unwrap();
    assert_eq!(cfg.max_body_bytes, 4096);
    assert_eq!(cfg.max_sessions, 123);
    assert_eq!(cfg.max_retained_body_bytes, 8192);
    assert_eq!(cfg.max_connections, 44);
    assert_eq!(cfg.connect_timeout_secs, 3);
    assert_eq!(cfg.handshake_timeout_secs, 4);
    assert_eq!(cfg.shutdown_grace_secs, 5);
}

#[test]
fn oproxy_log_level_env_var() {
    let mut cfg = Config::default();
    cfg.apply_env_overrides(&env(&[("OPROXY_LOG_LEVEL", "debug")])).unwrap();
    assert_eq!(cfg.log.level, "debug");
}

#[test]
fn oproxy_log_dir_env_var() {
    let mut cfg = Config::default();
    cfg.apply_env_overrides(&env(&[("OPROXY_LOG_DIR", "/var/log/oproxy")])).unwrap();
    assert_eq!(cfg.log.dir, "/var/log/oproxy");
}

#[test]
fn oproxy_map_local_base_path_env_var() {
    let mut cfg = Config::default();
    cfg.apply_env_overrides(&env(&[("OPROXY_MAP_LOCAL_BASE_PATH", "/fixtures")]))
        .unwrap();
    assert_eq!(cfg.map_local_base_path.as_deref(), Some("/fixtures"));
}

#[test]
fn env_port_parsing_follows_from_str_rules() {
    let mut cfg = Config::default();
    cfg.apply_env_overrides(&env(&[("OPROXY_PORT", "+7")])).unwrap();
    assert_eq!(cfg.port, 7);
    let mut cfg = Config::default();
    assert!(cfg.apply_env_overrides(&env(&[("OPROXY_PORT", "65536")])).is_err());
    assert!(cfg.apply_env_overrides(&env(&[("OPROXY_PORT", " 80")])).is_err());
    assert!(cfg.apply_env_overrides(&env(&[("OPROXY_PORT", "")])).is_err());
}

#[test]
fn env_socks5_port_blank_or_zero_disables() {
    let mut cfg = Config {
        socks5_port: Some(1080),
        ..Config::default()
    };
    cfg.apply_env_overrides(&env(&[("OPROXY_SOCKS5_PORT", " 0 ")])).unwrap();
    assert_eq!(cfg.socks5_port, None);
    cfg.apply_env_overrides(&env(&[("OPROXY_SOCKS5_PORT", " 1081 ")])).unwrap();
    assert_eq!(cfg.socks5_port, Some(1081));
    let mut cfg = Config::default();
    cfg.apply_env_overrides(&env(&[("OPROXY_ADMIN_TOKEN", "   ")])).unwrap();
    assert_eq!(cfg.admin_token, None);
}

#[test]
fn env_first_invalid_variable_is_reported() {
    let mut cfg = Config::default();
    let err = cfg
        .apply_env_overrides(&env(&[
            ("OPROXY_UPDATE_CHECK", "maybe"),
            ("OPROXY_MAX_SESSIONS", "-1"),
            ("OPROXY_PORT", "9000"),
        ]))
        .unwrap_err();
    assert_eq!(err.name, "OPROXY_MAX_SESSIONS");
    assert_eq!(cfg.port, 8080, "nothing is applied when a value is invalid");
}
