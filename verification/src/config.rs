//! Service configuration and its validation rules. Loading from the
//! environment happens at the boundary; this module holds the validated
//! shape and says exactly which configurations are rejected.

use vstd::prelude::*;
use vstd::string::StringExecFns;

use crate::errors::LoroError;
use crate::text::{chars_start_with, chars_vec, is_blank_spec, starts_with_spec, str_is_blank};

verus! {

/// One upstream model endpoint: its key, base URL and model name. A key of
/// `"none"` marks a local, unauthenticated backend.
#[derive(Clone)]
pub struct ModelConfig {
    pub api_key: String,
    pub base_url: String,
    pub model_name: String,
}

/// The gateway's configuration.
#[derive(Clone)]
pub struct Config {
    pub host: String,
    pub port: u16,
    pub log_level: String,
    pub small_model: ModelConfig,
    pub large_model: ModelConfig,
    pub http_timeout_secs: u64,
    pub small_model_timeout_secs: u64,
    pub max_retries: u32,
    pub stats_max_entries: usize,
}

impl Config {
    /// What validation decides: `None` when acceptable, otherwise the exact
    /// error text, checks in order.
    pub open spec fn spec_validate(self) -> Option<Seq<char>> {
        if is_blank_spec(self.small_model.api_key@) {
            Some("SMALL_MODEL_API_KEY cannot be empty"@)
        } else if is_blank_spec(self.large_model.api_key@) {
            Some("LARGE_MODEL_API_KEY cannot be empty"@)
        } else if !starts_with_spec(self.small_model.base_url@, "http"@) {
            Some("SMALL_MODEL_BASE_URL must be a valid HTTP(S) URL"@)
        } else if !starts_with_spec(self.large_model.base_url@, "http"@) {
            Some("LARGE_MODEL_BASE_URL must be a valid HTTP(S) URL"@)
        } else if is_blank_spec(self.small_model.model_name@) {
            Some("SMALL_MODEL_NAME cannot be empty"@)
        } else if is_blank_spec(self.large_model.model_name@) {
            Some("LARGE_MODEL_NAME cannot be empty"@)
        } else if self.http_timeout_secs < 5 || self.http_timeout_secs > 300 {
            Some("HTTP_TIMEOUT_SECS must be between 5 and 300 seconds"@)
        } else if self.small_model_timeout_secs < 1 || self.small_model_timeout_secs > 30 {
            Some("SMALL_MODEL_TIMEOUT_SECS must be between 1 and 30 seconds"@)
        } else if self.max_retries > 10 {
            Some("MAX_RETRIES must be <= 10"@)
        } else if self.stats_max_entries < 100 || self.stats_max_entries > 100000 {
            Some("STATS_MAX_ENTRIES must be between 100 and 100000"@)
        } else {
            None
        }
    }

    /// Rejects a configuration exactly when a field breaks the rules: blank
    /// keys or model names, base URLs that are not HTTP(S), or limits outside
    /// their ranges (HTTP timeout 5..=300 s, small-model timeout 1..=30 s,
    /// at most 10 retries, 100..=100000 stored samples).
    pub fn validate(&self) -> (r: Result<(), LoroError>)
        ensures
            r is Ok <==> self.spec_validate() is None,
            r matches Err(e) ==> e matches LoroError::Config(m) && self.spec_validate()
                matches Some(s) && m@ == s,
    {
        if str_is_blank(self.small_model.api_key.as_str()) {
            return Err(LoroError::Config(String::from_str("SMALL_MODEL_API_KEY cannot be empty")));
        }
        if str_is_blank(self.large_model.api_key.as_str()) {
            return Err(LoroError::Config(String::from_str("LARGE_MODEL_API_KEY cannot be empty")));
        }
        let http = chars_vec("http");
        let small_url = chars_vec(self.small_model.base_url.as_str());
        if !chars_start_with(&small_url, &http) {
            return Err(
                LoroError::Config(
                    String::from_str("SMALL_MODEL_BASE_URL must be a valid HTTP(S) URL"),
                ),
            );
        }
        let large_url = chars_vec(self.large_model.base_url.as_str());
        if !chars_start_with(&large_url, &http) {
            return Err(
                LoroError::Config(
                    String::from_str("LARGE_MODEL_BASE_URL must be a valid HTTP(S) URL"),
                ),
            );
        }
        if str_is_blank(self.small_model.model_name.as_str()) {
            return Err(LoroError::Config(String::from_str("SMALL_MODEL_NAME cannot be empty")));
        }
        if str_is_blank(self.large_model.model_name.as_str()) {
            return Err(LoroError::Config(String::from_str("LARGE_MODEL_NAME cannot be empty")));
        }
        if self.http_timeout_secs < 5 || self.http_timeout_secs > 300 {
            return Err(
                LoroError::Config(
                    String::from_str("HTTP_TIMEOUT_SECS must be between 5 and 300 seconds"),
                ),
            );
        }
        if self.small_model_timeout_secs < 1 || self.small_model_timeout_secs > 30 {
            return Err(
                LoroError::Config(
                    String::from_str("SMALL_MODEL_TIMEOUT_SECS must be between 1 and 30 seconds"),
                ),
            );
        }
        if self.max_retries > 10 {
            return Err(LoroError::Config(String::from_str("MAX_RETRIES must be <= 10")));
        }
        if self.stats_max_entries < 100 || self.stats_max_entries > 100000 {
            return Err(
                LoroError::Config(
                    String::from_str("STATS_MAX_ENTRIES must be between 100 and 100000"),
                ),
            );
        }
        Ok(())
    }
}

} // verus!
