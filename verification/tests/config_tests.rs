use loro::config::{Config, ModelConfig};
use loro::errors::LoroError;

fn base_config() -> Config {
    Config {
        host: "127.0.0.1".to_string(),
        port: 8000,
        log_level: "info".to_string(),
        small_model: ModelConfig {
            api_key: "valid-key".to_string(),
            base_url: "https://api.example.com/v1".to_string(),
            model_name: "test-model".to_string(),
        },
        large_model: ModelConfig {
            api_key: "valid-key".to_string(),
            base_url: "https://api.example.com/v1".to_string(),
            model_name: "test-model".to_string(),
        },
        http_timeout_secs: 30,
        small_model_timeout_secs: 5,
        max_retries: 3,
        stats_max_entries: 1000,
    }
}

#[test]
fn config_test_config_validation() {
    let mut config = base_config();

    // Valid config should pass
    assert!(config.validate().is_ok());

    // Empty API key
    config.small_model.api_key = "".to_string();
    assert!(config.validate().is_err());
    config.small_model.api_key = "valid-key".to_string();

    // Invalid URL
    config.large_model.base_url = "not-a-url".to_string();
    assert!(config.validate().is_err());
    config.large_model.base_url = "https://api.example.com/v1".to_string();

    // Invalid timeout
    config.http_timeout_secs = 400; // Too high
    assert!(config.validate().is_err());
    config.http_timeout_secs = 2; // Too low
    assert!(config.validate().is_err());
    config.http_timeout_secs = 30;

    // Invalid stats limit
    config.stats_max_entries = 50; // Too low
    assert!(config.validate().is_err());
    config.stats_max_entries = 200000; // Too high
    assert!(config.validate().is_err());
}

#[test]
fn test_config_clone() {
    let config = Config {
        host: "127.0.0.1".to_string(),
        port: 8080,
        log_level: "debug".to_string(),
        small_model: ModelConfig {
            api_key: "small-key".to_string(),
            base_url: "https://small.api.com/v1".to_string(),
            model_name: "small-model".to_string(),
        },
        large_model: ModelConfig {
            api_key: "large-key".to_string(),
            base_url: "https://large.api.com/v1".to_string(),
            model_name: "large-model".to_string(),
        },
        http_timeout_secs: 30,
        small_model_timeout_secs: 10,
        max_retries: 3,
        stats_max_entries: 1000,
    };

    let cloned_config = config.clone();
    assert_eq!(config.host, cloned_config.host);
    assert_eq!(config.port, cloned_config.port);
    assert_eq!(config.log_level, cloned_config.log_level);
}

#[test]
fn test_config_validation_empty_api_key() {
    let mut config = base_config();
    config.small_model.api_key = "".to_string();

    let result = config.validate();
    assert!(result.is_err());
}

#[test]
fn test_config_validation_invalid_url() {
    let mut config = base_config();
    config.small_model.base_url = "invalid-url".to_string();

    let result = config.validate();
    assert!(result.is_err());
}

#[test]
fn test_config_validation_timeout_ranges() {
    let mut config = base_config();
    config.small_model_timeout_secs = 10;

    // Invalid http timeout (too low)
    config.http_timeout_secs = 1;
    assert!(config.validate().is_err());

    // Invalid http timeout (too high)
    config.http_timeout_secs = 500;
    assert!(config.validate().is_err());

    // Valid timeout
    config.http_timeout_secs = 30;
    assert!(config.validate().is_ok());
}

#[test]
fn test_config_validation_error_texts() {
    let mut config = base_config();
    config.max_retries = 11;
    match config.validate() {
        Err(LoroError::Config(m)) => assert_eq!(m, "MAX_RETRIES must be <= 10"),
        other => panic!("expected a configuration error, got {:?}", other.is_ok()),
    }
    config.max_retries = 3;

    config.small_model.model_name = "   ".to_string();
    match config.validate() {
        Err(LoroError::Config(m)) => assert_eq!(m, "SMALL_MODEL_NAME cannot be empty"),
        other => panic!("expected a configuration error, got {:?}", other.is_ok()),
    }
}

#[test]
fn test_config_none_api_key_is_accepted() {
    // "none" marks a local, unauthenticated backend and passes validation
    let mut config = base_config();
    config.small_model.api_key = "none".to_string();
    config.small_model.base_url = "http://localhost:11434".to_string();
    assert!(config.validate().is_ok());
}
