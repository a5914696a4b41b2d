use payment_gateway::config::Config;
use payment_gateway::config::ConfigError;
use payment_gateway::config::parse_u16;

#[test]
fn port_parse_accepts_plain_and_signed_decimals() {
    assert_eq!(parse_u16("3000"), Some(3000));
    assert_eq!(parse_u16("0"), Some(0));
    assert_eq!(parse_u16("+80"), Some(80));
    assert_eq!(parse_u16("65535"), Some(65535));
}

#[test]
fn port_parse_rejects_garbage_and_overflow() {
    assert_eq!(parse_u16(""), None);
    assert_eq!(parse_u16("+"), None);
    assert_eq!(parse_u16("12a"), None);
    assert_eq!(parse_u16("-1"), None);
    assert_eq!(parse_u16("65536"), None);
    assert_eq!(parse_u16("99999999999999999999"), None);
    assert_eq!(parse_u16(" 80"), None);
}

#[test]
fn config_defaults_are_filled_in() {
    let c = Config::from_values(
        None,
        None,
        Some("postgres://db".to_string()),
        None,
        None,
        Some("SECRET-REDACTED".to_string()),
    )
    .unwrap();
    assert_eq!(c.server_host, "0.0.0.0");
    assert_eq!(c.server_port, 3000);
    assert_eq!(c.database_url, "postgres://db");
    assert_eq!(c.redis_url, "redis://127.0.0.1:6379");
    assert_eq!(c.solana_rpc_url, "https://api.mainnet-beta.solana.com");
}

#[test]
fn config_given_values_are_kept() {
    let c = Config::from_values(
        Some("127.0.0.1".to_string()),
        Some("8080".to_string()),
        Some("postgres://db".to_string()),
        Some("redis://queue:6379".to_string()),
        Some("https://api.devnet.solana.com".to_string()),
        Some("SECRET-REDACTED".to_string()),
    )
    .unwrap();
    assert_eq!(c.server_host, "127.0.0.1");
    assert_eq!(c.server_port, 8080);
    assert_eq!(c.redis_url, "redis://queue:6379");
    assert_eq!(c.solana_rpc_url, "https://api.devnet.solana.com");
}

#[test]
fn config_refuses_bad_port_and_missing_requirements() {
    let r = Config::from_values(
        None,
        Some("eighty".to_string()),
        Some("postgres://db".to_string()),
        None,
        None,
        Some("s".to_string()),
    );
    assert!(matches!(r, Err(ConfigError::InvalidPort)));

    let r = Config::from_values(None, None, None, None, None, Some("s".to_string()));
    assert!(matches!(r, Err(ConfigError::MissingDatabaseUrl)));

    let r = Config::from_values(None, None, Some("postgres://db".to_string()), None, None, None);
    assert!(matches!(r, Err(ConfigError::MissingJwtSecret)));
}
