use litekv::api::{error_chain_fmt, ApiError};
use litekv::config::{to_decimal, AppConfig, ConfigError};
use litekv::error::Cause;

#[test]
fn load_keeps_what_it_is_given() {
    let config =
        AppConfig::load("127.0.0.1".to_string(), 8088, Some("data.db".to_string()), true).unwrap();
    assert_eq!(config.db(), &Some("data.db".to_string()));
    assert!(config.readonly());
    assert_eq!(config.address(), "127.0.0.1:8088");
}

#[test]
fn load_accepts_a_writable_store_in_memory() {
    let config = AppConfig::load("localhost".to_string(), 80, None, false).unwrap();
    assert_eq!(config.db(), &None);
    assert!(!config.readonly());
    assert_eq!(config.address(), "localhost:80");
}

#[test]
fn load_turns_down_readonly_without_a_database() {
    let res = AppConfig::load("127.0.0.1".to_string(), 8088, None, true);
    assert_eq!(res.err(), Some(ConfigError::ReadonlyWithoutDatabase));
}

#[test]
fn config_error_message_names_both_flags() {
    assert_eq!(
        ConfigError::ReadonlyWithoutDatabase.message(),
        "Configuration error: --readonly requires --db to also be defined"
    );
}

#[test]
fn clone_of_a_config_is_the_same_config() {
    let config =
        AppConfig::load("::1".to_string(), 65535, Some("x.db".to_string()), false).unwrap();
    let copy = config.clone();
    assert_eq!(copy.db(), config.db());
    assert_eq!(copy.readonly(), config.readonly());
    assert_eq!(copy.address(), "::1:65535");
}

#[test]
fn to_decimal_writes_numbers_as_std_does() {
    for value in [0usize, 1, 9, 10, 11, 99, 100, 101, 8088, 65535, 1_000_000, usize::MAX] {
        assert_eq!(to_decimal(value), value.to_string());
    }
    assert_eq!(to_decimal(0), "0");
    assert_eq!(to_decimal(1050), "1050");
}

#[test]
fn address_with_port_zero() {
    let config = AppConfig::load("h".to_string(), 0, None, false).unwrap();
    assert_eq!(config.address(), "h:0");
}

#[test]
fn status_code_of_each_failure() {
    assert_eq!(ApiError::ReadonlyDataStore.status_code(), 403);
    assert_eq!(ApiError::ValueNotFound("k".to_string()).status_code(), 404);
    assert_eq!(
        ApiError::UnknownError(Cause::Database(rusqlite::Error::InvalidQuery)).status_code(),
        500
    );
    assert_eq!(ApiError::UnknownError(Cause::Clock).status_code(), 500);
}

#[test]
fn error_chain_without_causes() {
    assert_eq!(error_chain_fmt("it failed", &vec![]), "it failed\n\n");
}

#[test]
fn error_chain_names_each_cause_in_order() {
    let causes = vec!["disk full".to_string(), "device gone".to_string()];
    assert_eq!(
        error_chain_fmt("commit failed", &causes),
        "commit failed\n\nCaused by:\n\tdisk full\nCaused by:\n\tdevice gone\n"
    );
}
