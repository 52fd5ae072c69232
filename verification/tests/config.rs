use std::time::Duration;

use agent_sidecar::config::env::EnvVars;
use agent_sidecar::config::{
    env_or, optional_env, parse_decimal, parse_env_u16, parse_ssl_mode, path_env_or,
    reject_api_billing_env, required_env, split_paths, split_values, CodexConfig, ConfigError,
    IntParseError, PostgresConfig, SecretFilterConfig, SslMode,
};

fn env_of(pairs: &[(&str, &str)]) -> EnvVars {
    let mut env = EnvVars::new();
    for (k, v) in pairs {
        env.set(k.to_string(), v.to_string());
    }
    env
}

#[test]
fn env_set_then_read_gives_last_value() {
    let mut env = EnvVars::new();
    env.set("A".to_owned(), "1".to_owned());
    env.set("B".to_owned(), "2".to_owned());
    env.set("A".to_owned(), "3".to_owned());
    assert_eq!(env.var("A").as_deref(), Some("3"));
    assert_eq!(env.var("B").as_deref(), Some("2"));
    assert_eq!(env.var("C"), None);
}

#[test]
fn blank_values_count_as_unset() {
    let env = env_of(&[("X", "   "), ("Y", "value")]);
    assert_eq!(optional_env(&env, "X"), None);
    assert_eq!(optional_env(&env, "Y").as_deref(), Some("value"));
    assert_eq!(env_or(&env, "X", "fallback"), "fallback");
    assert_eq!(path_env_or(&env, "Z", "/opt/x"), "/opt/x");
    match required_env(&env, "X") {
        Err(ConfigError::MissingEnv(k)) => assert_eq!(k, "X"),
        other => panic!("unexpected {other:?}"),
    }
}

#[test]
fn lists_are_split_trimmed_and_filtered() {
    let env = env_of(&[("L", " a, ,b ,,c "), ("E", "")]);
    assert_eq!(split_values(&env, "L"), vec!["a", "b", "c"]);
    assert!(split_values(&env, "E").is_empty());
    assert!(split_paths(&env, "missing").is_empty());
}

#[test]
fn decimal_parsing_matches_from_str() {
    assert_eq!(parse_decimal("5432", u16::MAX as u64), Ok(5432));
    assert_eq!(parse_decimal("+7", u16::MAX as u64), Ok(7));
    assert_eq!(parse_decimal("", u16::MAX as u64), Err(IntParseError::Empty));
    assert_eq!(parse_decimal("+", u16::MAX as u64), Err(IntParseError::InvalidDigit));
    assert_eq!(parse_decimal("-1", u16::MAX as u64), Err(IntParseError::InvalidDigit));
    assert_eq!(parse_decimal("12a", u16::MAX as u64), Err(IntParseError::InvalidDigit));
    assert_eq!(parse_decimal("65536", u16::MAX as u64), Err(IntParseError::PosOverflow));
    assert_eq!(parse_decimal("18446744073709551615", u64::MAX), Ok(u64::MAX));
    assert_eq!(parse_decimal("18446744073709551616", u64::MAX), Err(IntParseError::PosOverflow));
    for text in ["0", "00012", "+65535", "65536", "x", "", "+", "9a9"] {
        let ours = parse_decimal(text, u16::MAX as u64).map(|v| v as u16).map_err(|_| ());
        let std_result = text.parse::<u16>().map_err(|_| ());
        assert_eq!(ours, std_result, "{text}");
    }
}

#[test]
fn bad_port_reports_parse_error_text() {
    let env = env_of(&[("PGPORT", "abc")]);
    match parse_env_u16(&env, "PGPORT", "5432") {
        Err(error) => {
            assert_eq!(error.message(), "invalid PGPORT: invalid digit found in string");
            assert_eq!(
                "abc".parse::<u16>().unwrap_err().to_string(),
                "invalid digit found in string"
            );
        }
        Ok(v) => panic!("unexpected {v}"),
    }
    let env = env_of(&[]);
    assert_eq!(parse_env_u16(&env, "PGPORT", "5432").unwrap(), 5432);
}

#[test]
fn api_billing_variables_are_refused_in_order() {
    let env = env_of(&[("CLAUDE_API_KEY", "x"), ("ANTHROPIC_API_KEY", "y")]);
    match reject_api_billing_env(&env) {
        Err(ConfigError::ApiBillingEnvPresent(k)) => assert_eq!(k, "ANTHROPIC_API_KEY"),
        other => panic!("unexpected {other:?}"),
    }
    let env = env_of(&[("OPENAI_API_KEY", "  ")]);
    assert!(reject_api_billing_env(&env).is_ok());
    let error = ConfigError::ApiBillingEnvPresent("OPENAI_API_KEY");
    assert_eq!(
        error.message(),
        "API-billed model usage is outside this project scope; unset OPENAI_API_KEY and use subscription CLI auth"
    );
    assert_eq!(
        ConfigError::MissingEnv("PGHOST").message(),
        "missing required environment variable PGHOST"
    );
}

#[test]
fn postgres_settings_are_read_in_order() {
    let env = env_of(&[
        ("PGHOST", "db"),
        ("PGDATABASE", "public_data"),
        ("PGUSER", "ai_readonly"),
        ("PGPASSWORD", "pw-123456789"),
        ("PGSSLMODE", "require"),
    ]);
    let config = PostgresConfig::from_env(&env).expect("config");
    assert_eq!(config.port, 5432);
    assert_eq!(config.sslmode.as_deref(), Some("require"));
    assert_eq!(config.ssl_mode().unwrap(), Some(SslMode::Require));
    let pairs = config.codex_env();
    assert_eq!(
        pairs,
        vec![
            ("PGHOST".to_owned(), "db".to_owned()),
            ("PGPORT".to_owned(), "5432".to_owned()),
            ("PGDATABASE".to_owned(), "public_data".to_owned()),
            ("PGUSER".to_owned(), "ai_readonly".to_owned()),
            ("PGPASSWORD".to_owned(), "pw-123456789".to_owned()),
            ("PGSSLMODE".to_owned(), "require".to_owned()),
        ]
    );
    let shown = config.redacted_debug();
    assert_eq!(
        shown,
        "PostgresConfig { host: \"db\", port: 5432, database: \"public_data\", user: \"ai_readonly\", password: \"<redacted>\", sslmode: Some(\"require\") }"
    );
    assert!(!shown.contains("pw-123456789"));

    let env = env_of(&[("PGHOST", "db"), ("PGPORT", "99999")]);
    match PostgresConfig::from_env(&env) {
        Err(ConfigError::InvalidValue { key, message }) => {
            assert_eq!(key, "PGPORT");
            assert_eq!(message, "number too large to fit in target type");
        }
        _ => panic!("expected invalid port"),
    }
    let env = env_of(&[("PGHOST", "db"), ("PGDATABASE", "d")]);
    match PostgresConfig::from_env(&env) {
        Err(ConfigError::MissingEnv(k)) => assert_eq!(k, "PGUSER"),
        _ => panic!("expected missing user"),
    }
}

#[test]
fn ssl_modes() {
    assert_eq!(parse_ssl_mode("disable").unwrap(), SslMode::Disable);
    assert_eq!(parse_ssl_mode("verify-full").unwrap(), SslMode::VerifyFull);
    match parse_ssl_mode("sometimes") {
        Err(ConfigError::InvalidValue { key, message }) => {
            assert_eq!(key, "PGSSLMODE");
            assert_eq!(message, "unsupported sslmode \"sometimes\"");
        }
        _ => panic!("expected error"),
    }
}

#[test]
fn codex_settings_defaults() {
    let env = env_of(&[]);
    let config = CodexConfig::from_env(&env).expect("config");
    assert_eq!(config.command, "codex");
    assert_eq!(config.model, None);
    assert_eq!(config.timeout, Duration::from_secs(120));
    assert_eq!(config.policy_workspace, "/opt/agent-sidecar/policy");
    assert_eq!(config.response_schema_path, "/opt/agent-sidecar/policy/response.schema.json");
    assert_eq!(config.sandbox, "read-only");
    assert_eq!(config.path_env, "/usr/local/bin:/usr/bin:/bin");

    let env = env_of(&[
        ("SIDECAR_POLICY_WORKSPACE", "/w/"),
        ("SIDECAR_PROVIDER_TIMEOUT_SECONDS", "5"),
        ("SIDECAR_CODEX_MODEL", "m1"),
    ]);
    let config = CodexConfig::from_env(&env).expect("config");
    assert_eq!(config.response_schema_path, "/w/response.schema.json");
    assert_eq!(config.timeout, Duration::from_secs(5));
    assert_eq!(config.model.as_deref(), Some("m1"));

    let env = env_of(&[("SIDECAR_PROVIDER_TIMEOUT_SECONDS", "")]);
    assert!(CodexConfig::from_env(&env).is_err());
}

#[test]
fn secret_filter_settings() {
    let env = env_of(&[
        ("SIDECAR_SECRET_FILE_PATHS", "/a, /b"),
        ("SIDECAR_CANARY_SECRETS", "c1,c2"),
    ]);
    let config = SecretFilterConfig::from_env(&env);
    assert_eq!(config.secret_file_paths, vec!["/a", "/b"]);
    assert_eq!(config.canary_secrets, vec!["c1", "c2"]);
}

#[test]
fn unknown_ssl_mode_is_reported_for_pgsslmode() {
    let mut config = PostgresConfig {
        host: "db".to_owned(),
        port: 5432,
        database: "public_data".to_owned(),
        user: "ai_readonly".to_owned(),
        password: "pw".to_owned(),
        sslmode: Some("Require".to_owned()),
    };
    match config.ssl_mode() {
        Err(ConfigError::InvalidValue { key, message }) => {
            assert_eq!(key, "PGSSLMODE");
            assert_eq!(message, "unsupported sslmode \"Require\"");
        }
        _ => panic!("expected error"),
    }
    config.sslmode = Some("verify-ca".to_owned());
    assert_eq!(config.ssl_mode().unwrap(), Some(SslMode::VerifyCa));
    config.sslmode = None;
    assert_eq!(config.ssl_mode().unwrap(), None);
}
