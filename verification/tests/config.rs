use flyweight_http_server::config::{
    is_server_heading, parse_pool_size, split_key_value, Builder, ConfigError, Setting,
    DEFAULT_POOL_SIZE,
};
use flyweight_http_server::decimal::LengthError;

#[test]
fn flags_name_their_settings() {
    assert_eq!(Setting::from_flag("--address").unwrap(), Setting::Address);
    assert_eq!(Setting::from_flag("-a").unwrap(), Setting::Address);
    assert_eq!(Setting::from_flag("--pool-size").unwrap(), Setting::PoolSize);
    assert_eq!(Setting::from_flag("-s").unwrap(), Setting::PoolSize);
    assert_eq!(Setting::from_flag("--data-dir").unwrap(), Setting::DataDir);
    assert_eq!(Setting::from_flag("--directory").unwrap(), Setting::DataDir);
    assert_eq!(Setting::from_flag("-d").unwrap(), Setting::DataDir);
}

#[test]
fn unknown_flag_is_named_in_the_error() {
    match Setting::from_flag("--verbose") {
        Err(ConfigError::UnknownFlag(text)) => {
            assert_eq!(text, "Unknown CLI argument flag: --verbose")
        }
        other => panic!("{:?}", other),
    }
    assert!(matches!(Setting::from_flag(""), Err(ConfigError::UnknownFlag(_))));
    assert!(matches!(Setting::from_flag("--Address"), Err(ConfigError::UnknownFlag(_))));
    assert!(matches!(Setting::from_flag("address"), Err(ConfigError::UnknownFlag(_))));
}

#[test]
fn file_keys_name_their_settings() {
    assert_eq!(Setting::from_key("address"), Some(Setting::Address));
    assert_eq!(Setting::from_key("pool_size"), Some(Setting::PoolSize));
    assert_eq!(Setting::from_key("data_dir"), Some(Setting::DataDir));
    assert_eq!(Setting::from_key("pool-size"), None);
    assert_eq!(Setting::from_key(""), None);
    assert_eq!(Setting::from_key("Address"), None);
}

#[test]
fn environment_names() {
    assert_eq!(Setting::Address.env_name(), "ADDRESS");
    assert_eq!(Setting::PoolSize.env_name(), "POOL_SIZE");
    assert_eq!(Setting::DataDir.env_name(), "DATA_DIR");
}

#[test]
fn missing_value_names_the_flag() {
    match Setting::Address.missing_value() {
        ConfigError::MissingValue(flag) => assert_eq!(flag, "--address"),
        other => panic!("{:?}", other),
    }
    match Setting::PoolSize.missing_value() {
        ConfigError::MissingValue(flag) => assert_eq!(flag, "--pool-size"),
        other => panic!("{:?}", other),
    }
    match Setting::DataDir.missing_value() {
        ConfigError::MissingValue(flag) => assert_eq!(flag, "--data-dir"),
        other => panic!("{:?}", other),
    }
}

#[test]
fn pool_size_must_be_a_number_and_not_zero() {
    assert_eq!(parse_pool_size("1").unwrap(), 1);
    assert_eq!(parse_pool_size("10").unwrap(), 10);
    assert_eq!(parse_pool_size("+4").unwrap(), 4);
    assert!(matches!(parse_pool_size("0"), Err(ConfigError::PoolSizeZero)));
    assert!(matches!(parse_pool_size("000"), Err(ConfigError::PoolSizeZero)));
    assert!(matches!(
        parse_pool_size(""),
        Err(ConfigError::PoolSizeParseError(LengthError::Empty))
    ));
    assert!(matches!(
        parse_pool_size("four"),
        Err(ConfigError::PoolSizeParseError(LengthError::InvalidDigit))
    ));
    assert!(matches!(
        parse_pool_size("-1"),
        Err(ConfigError::PoolSizeParseError(LengthError::InvalidDigit))
    ));
    assert!(matches!(
        parse_pool_size("99999999999999999999999999"),
        Err(ConfigError::PoolSizeParseError(LengthError::Overflow))
    ));
}

#[test]
fn server_heading() {
    assert!(is_server_heading("[server]"));
    assert!(is_server_heading("[my.server.section]"));
    assert!(is_server_heading("[ server ]"));
    assert!(!is_server_heading("[client]"));
    assert!(!is_server_heading("server"));
    assert!(!is_server_heading("[server] "));
    assert!(!is_server_heading(" [server]"));
    assert!(!is_server_heading("[Server]"));
    assert!(!is_server_heading("[serve]"));
    assert!(!is_server_heading(""));
    assert!(!is_server_heading("["));
    assert!(!is_server_heading("[]"));
}

#[test]
fn key_value_lines() {
    assert_eq!(split_key_value("pool_size = 4"), Some(("pool_size", "4")));
    assert_eq!(split_key_value("address=127.0.0.1:80"), Some(("address", "127.0.0.1:80")));
    assert_eq!(split_key_value("  data_dir =  /srv/www  "), Some(("data_dir", "/srv/www")));
    assert_eq!(split_key_value("a = b = c"), Some(("a", "b = c")));
    assert_eq!(split_key_value("="), Some(("", "")));
    assert_eq!(split_key_value("key ="), Some(("key", "")));
    assert_eq!(split_key_value("[server]"), None);
    assert_eq!(split_key_value(""), None);
    assert_eq!(split_key_value("# comment"), None);
}

#[test]
fn build_fills_in_the_defaults() {
    assert_eq!(DEFAULT_POOL_SIZE, 10);
    let config = Builder::new().build();
    assert_eq!(config.server_addr, "127.0.0.1:4221");
    assert_eq!(config.pool_size, 10);
    assert_eq!(config.data_dir, ".");

    let config = Builder {
        server_addr: Some("0.0.0.0:8080".to_string()),
        pool_size: Some(3),
        data_dir: Some("/srv".to_string()),
    }
    .build();
    assert_eq!(config.server_addr, "0.0.0.0:8080");
    assert_eq!(config.pool_size, 3);
    assert_eq!(config.data_dir, "/srv");
}

#[test]
fn merge_prefers_what_is_set_first() {
    let cli = Builder {
        server_addr: Some("1.1.1.1:1".to_string()),
        pool_size: None,
        data_dir: None,
    };
    let file = Builder {
        server_addr: Some("2.2.2.2:2".to_string()),
        pool_size: Some(2),
        data_dir: None,
    };
    let env = Builder {
        server_addr: None,
        pool_size: Some(3),
        data_dir: Some("/env".to_string()),
    };
    let merged = cli.merge(&file).merge(&env);
    assert_eq!(merged.server_addr.as_deref(), Some("1.1.1.1:1"));
    assert_eq!(merged.pool_size, Some(2));
    assert_eq!(merged.data_dir.as_deref(), Some("/env"));
    let regrouped = cli.merge(&file.merge(&env));
    assert_eq!(regrouped.server_addr, merged.server_addr);
    assert_eq!(regrouped.pool_size, merged.pool_size);
    assert_eq!(regrouped.data_dir, merged.data_dir);
    let config = merged.build();
    assert_eq!(config.server_addr, "1.1.1.1:1");
    assert_eq!(config.pool_size, 2);
    assert_eq!(config.data_dir, "/env");
}
