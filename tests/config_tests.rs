use fitness_progress_tracker::config::{parse_unsigned, AppConfig, ConfigError};

fn some(s: &str) -> Option<String> {
    Some(s.to_string())
}

#[test]
fn server_addr_joins_host_and_port() {
    let config = AppConfig::from_vars(None, None, some("postgres://db"), some("k"), None).unwrap();
    assert_eq!(config.server_addr(), "127.0.0.1:8080");
    let config = AppConfig::from_vars(some("0.0.0.0"), some("0"), some("u"), some("k"), some("5")).unwrap();
    assert_eq!(config.server_addr(), "0.0.0.0:0");
    let config = AppConfig::from_vars(some("h"), some("65535"), some("u"), some("k"), None).unwrap();
    assert_eq!(config.server_addr(), "h:65535");
}

#[test]
fn config_defaults_and_values() {
    let config = AppConfig::from_vars(None, None, some("postgres://db"), some("k"), None).unwrap();
    assert_eq!(config.host, "127.0.0.1");
    assert_eq!(config.port, 8080);
    assert_eq!(config.database_url, "postgres://db");
    assert_eq!(config.jwt_secret, "k");
    assert_eq!(config.jwt_expiration, 86400);
    let config = AppConfig::from_vars(some("example.org"), some("+443"), some("u"), some("k"), some("60")).unwrap();
    assert_eq!(config.host, "example.org");
    assert_eq!(config.port, 443);
    assert_eq!(config.jwt_expiration, 60);
}

#[test]
fn config_errors_in_order() {
    assert_eq!(AppConfig::from_vars(None, some("70000"), None, None, None).unwrap_err(), ConfigError::InvalidPort);
    assert_eq!(AppConfig::from_vars(None, some("80x"), some("u"), some("k"), None).unwrap_err(), ConfigError::InvalidPort);
    assert_eq!(AppConfig::from_vars(None, None, None, None, None).unwrap_err(), ConfigError::MissingDatabaseUrl);
    assert_eq!(AppConfig::from_vars(None, None, some("u"), None, some("x")).unwrap_err(), ConfigError::MissingJwtSecret);
    assert_eq!(AppConfig::from_vars(None, None, some("u"), some("k"), some("-1")).unwrap_err(), ConfigError::InvalidJwtExpiration);
    assert_eq!(AppConfig::from_vars(None, None, some("u"), some("k"), some("0")).unwrap_err(), ConfigError::InvalidJwtExpiration);
    assert_eq!(AppConfig::from_vars(None, None, some("u"), some("k"), some("1")).unwrap().jwt_expiration, 1);
}

#[test]
fn unsigned_numbers_parse_like_std() {
    assert_eq!(parse_unsigned("0", 10), Some(0));
    assert_eq!(parse_unsigned("+12", 100), Some(12));
    assert_eq!(parse_unsigned("007", 100), Some(7));
    assert_eq!(parse_unsigned("18446744073709551615", u64::MAX), Some(u64::MAX));
    assert_eq!(parse_unsigned("18446744073709551616", u64::MAX), None);
    assert_eq!(parse_unsigned("65536", 65535), None);
    assert_eq!(parse_unsigned("", 10), None);
    assert_eq!(parse_unsigned("+", 10), None);
    assert_eq!(parse_unsigned(" 1", 10), None);
    assert_eq!(parse_unsigned("1a", 10), None);
    for s in ["1", "+9", "123", "65535", "99999"] {
        assert_eq!(parse_unsigned(s, 65535), s.parse::<u16>().ok().map(u64::from));
    }
}
