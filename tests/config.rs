use cpu_fingerprint::config::{
    find_entry, parse_decimal, read_config, ConfigError, ConfigKey,
};

fn entries(pairs: &[(&str, &str)]) -> Vec<(String, String)> {
    pairs.iter().map(|(k, v)| (k.to_string(), v.to_string())).collect()
}

/// The entries of the development configuration file.
fn development_file() -> Vec<(String, String)> {
    entries(&[
        ("bind_address", "127.0.0.1"),
        ("port", "8080"),
        ("database_connection_count", "5"),
        ("database_url", "postgres://localhost:5432/benchmarks"),
    ])
}

#[test]
fn development_config_parses() {
    // execute
    let config = read_config(Some(&development_file()), &Vec::new()).unwrap();

    // assert
    assert_eq!(config.bind_address, "127.0.0.1")
}

#[test]
fn development_file_values() {
    let config = read_config(Some(&development_file()), &Vec::new()).unwrap();
    assert_eq!(config.port, 8080);
    assert_eq!(config.database_connection_count, 5);
    assert_eq!(config.database_url, "postgres://localhost:5432/benchmarks");
}

#[test]
fn no_file_and_no_environment_is_missing_keys() {
    let r = read_config(None, &Vec::new());
    assert!(matches!(r, Err(ConfigError::Missing(ConfigKey::BindAddress))));
}

#[test]
fn environment_alone_suffices() {
    let env = entries(&[
        ("BACKEND_BIND_ADDRESS", "0.0.0.0"),
        ("BACKEND_PORT", "443"),
        ("BACKEND_DATABASE_CONNECTION_COUNT", "2"),
        ("BACKEND_DATABASE_URL", "postgres://env"),
    ]);
    let config = read_config(None, &env).unwrap();
    assert_eq!(config.bind_address, "0.0.0.0");
    assert_eq!(config.port, 443);
}

#[test]
fn malformed_config_is_rejected() {
    let file = entries(&[("bind_address", "1234"), ("port", "0.0.0.0")]);
    let r = read_config(Some(&file), &Vec::new());
    assert!(matches!(r, Err(ConfigError::Invalid(ConfigKey::Port))));
}

#[test]
#[should_panic]
fn malformed_config_panics() {
    // prepare
    let config = entries(&[("bind_address", "1234"), ("port", "0.0.0.0")]);

    // execute (should panic)
    read_config(Some(&config), &Vec::new()).unwrap();
}

#[test]
fn missing_key_is_reported_in_field_order() {
    let file = entries(&[("port", "80"), ("database_url", "postgres://db")]);
    let r = read_config(Some(&file), &Vec::new());
    assert!(matches!(r, Err(ConfigError::Missing(ConfigKey::BindAddress))));
    let file = entries(&[("bind_address", "0.0.0.0"), ("port", "80"), ("database_url", "x")]);
    let r = read_config(Some(&file), &Vec::new());
    assert!(matches!(r, Err(ConfigError::Missing(ConfigKey::DatabaseConnectionCount))));
}

#[test]
fn environment_overrides_file() {
    let file = entries(&[
        ("bind_address", "0.0.0.0"),
        ("port", "80"),
        ("database_connection_count", "3"),
        ("database_url", "postgres://file"),
    ]);
    let env = entries(&[("BACKEND_PORT", "9000"), ("HOME", "/root"), ("port", "1")]);
    let config = read_config(Some(&file), &env).unwrap();
    assert_eq!(config.bind_address, "0.0.0.0");
    assert_eq!(config.port, 9000);
    assert_eq!(config.database_connection_count, 3);
    assert_eq!(config.database_url, "postgres://file");
}

#[test]
fn out_of_range_numbers_are_invalid() {
    let file = development_file();
    let env = entries(&[("BACKEND_PORT", "65536")]);
    assert!(matches!(read_config(Some(&file), &env), Err(ConfigError::Invalid(ConfigKey::Port))));
    let env = entries(&[("BACKEND_DATABASE_CONNECTION_COUNT", "4294967296")]);
    assert!(matches!(
        read_config(Some(&file), &env),
        Err(ConfigError::Invalid(ConfigKey::DatabaseConnectionCount))
    ));
    let env = entries(&[("BACKEND_PORT", "65535")]);
    assert_eq!(read_config(Some(&file), &env).unwrap().port, 65535);
}

#[test]
fn decimal_parsing() {
    assert_eq!(parse_decimal(&"0".to_string(), 10), Some(0));
    assert_eq!(parse_decimal(&"007".to_string(), 10), Some(7));
    assert_eq!(parse_decimal(&"10".to_string(), 10), Some(10));
    assert_eq!(parse_decimal(&"11".to_string(), 10), None);
    assert_eq!(parse_decimal(&"".to_string(), 10), None);
    assert_eq!(parse_decimal(&"1a".to_string(), 10), None);
    assert_eq!(parse_decimal(&"-1".to_string(), 10), None);
    assert_eq!(parse_decimal(&"18446744073709551615".to_string(), u64::MAX), Some(u64::MAX));
    assert_eq!(parse_decimal(&"18446744073709551616".to_string(), u64::MAX), None);
}

#[test]
fn last_entry_wins() {
    let e = entries(&[("a", "1"), ("b", "2"), ("a", "3")]);
    assert_eq!(find_entry(&e, &"a".to_string()), Some("3".to_string()));
    assert_eq!(find_entry(&e, &"c".to_string()), None);
}
