//! The error taxonomy of the gateway. Payloads are plain strings so that
//! every variant can be inspected and reasoned about directly.

use vstd::prelude::*;
use vstd::string::StringExecFns;

use crate::text::dec_digits;

verus! {

/// The displayed text of each error variant.
pub open spec fn spec_error_message(e: LoroError) -> Seq<char> {
    match e {
        LoroError::Config(m) => "Configuration error: "@ + m@,
        LoroError::Timeout { timeout_secs } => "HTTP request timeout: "@ + dec_digits(
            timeout_secs as int,
        ) + "s"@,
        LoroError::ApiError { provider, status, message } => "API error from "@ + provider@
            + ": "@ + dec_digits(status as int) + " - "@ + message@,
        LoroError::JsonParse(m) => "JSON parsing error: "@ + m@,
        LoroError::HttpClient(m) => "HTTP client error: "@ + m@,
        LoroError::Validation(m) => "Validation error: "@ + m@,
        LoroError::SmallModelFailed(m) => "Small model failed: "@ + m@,
        LoroError::LargeModelFailed(m) => "Large model failed: "@ + m@,
        LoroError::StreamProcessing(m) => "Stream processing error: "@ + m@,
        LoroError::Internal(m) => "Internal error: "@ + m@,
    }
}

/// Everything that can go wrong while serving one chat-completion request.
#[derive(Debug, Clone)]
pub enum LoroError {
    /// Configuration loading or validation failed.
    Config(String),
    /// An upstream call exceeded its time budget.
    Timeout { timeout_secs: u64 },
    /// An upstream answered with a non-success status.
    ApiError { provider: String, status: u16, message: String },
    /// A JSON document could not be parsed.
    JsonParse(String),
    /// The HTTP transport failed.
    HttpClient(String),
    /// The client's request was rejected before any upstream call.
    Validation(String),
    /// The small model could not produce a usable quick response.
    SmallModelFailed(String),
    /// The large model call failed; there is no fallback for it.
    LargeModelFailed(String),
    /// A frame could not be handled while decoding an upstream stream.
    StreamProcessing(String),
    /// An unexpected internal failure.
    Internal(String),
}

impl LoroError {
    /// Whether this is the timeout variant.
    pub fn is_timeout(&self) -> (r: bool)
        ensures
            r == (self is Timeout),
    {
        matches!(self, LoroError::Timeout { .. })
    }

    /// Whether this is the upstream-status variant.
    pub fn is_api_error(&self) -> (r: bool)
        ensures
            r == (self is ApiError),
    {
        matches!(self, LoroError::ApiError { .. })
    }

    /// Whether this is the request-validation variant.
    pub fn is_validation_error(&self) -> (r: bool)
        ensures
            r == (self is Validation),
    {
        matches!(self, LoroError::Validation(_))
    }

    /// The displayed text of the error.
    pub fn message(&self) -> (r: String)
        ensures
            r@ == spec_error_message(*self),
    {
        match self {
            LoroError::Config(m) => {
                let mut s = String::from_str("Configuration error: ");
                s.append(m.as_str());
                s
            }
            LoroError::Timeout { timeout_secs } => {
                let mut s = String::from_str("HTTP request timeout: ");
                s.append(crate::text::u64_to_string(*timeout_secs).as_str());
                s.append("s");
                s
            }
            LoroError::ApiError { provider, status, message } => {
                let mut s = String::from_str("API error from ");
                s.append(provider.as_str());
                s.append(": ");
                s.append(crate::text::u64_to_string(*status as u64).as_str());
                s.append(" - ");
                s.append(message.as_str());
                s
            }
            LoroError::JsonParse(m) => {
                let mut s = String::from_str("JSON parsing error: ");
                s.append(m.as_str());
                s
            }
            LoroError::HttpClient(m) => {
                let mut s = String::from_str("HTTP client error: ");
                s.append(m.as_str());
                s
            }
            LoroError::Validation(m) => {
                let mut s = String::from_str("Validation error: ");
                s.append(m.as_str());
                s
            }
            LoroError::SmallModelFailed(m) => {
                let mut s = String::from_str("Small model failed: ");
                s.append(m.as_str());
                s
            }
            LoroError::LargeModelFailed(m) => {
                let mut s = String::from_str("Large model failed: ");
                s.append(m.as_str());
                s
            }
            LoroError::StreamProcessing(m) => {
                let mut s = String::from_str("Stream processing error: ");
                s.append(m.as_str());
                s
            }
            LoroError::Internal(m) => {
                let mut s = String::from_str("Internal error: ");
                s.append(m.as_str());
                s
            }
        }
    }
}

} // verus!
