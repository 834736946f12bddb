//! Providers: the script and HTTP sources a watch reads its data from.

pub mod http;
pub mod script;

use vstd::prelude::*;
use crate::json::JsonValue;

verus! {

/// The result of a successful provider execution.
#[derive(Debug)]
pub struct ProviderResult {
    /// Parsed output data. Shape depends on the provider type.
    pub data: JsonValue,
    /// Exit code reported by the subprocess (script provider only).
    pub exit_code: Option<i32>,
    /// Round-trip latency in milliseconds (HTTP provider only).
    pub latency_ms: Option<u64>,
}

/// Errors that can occur during provider execution.
#[derive(Debug, Clone, PartialEq)]
pub enum ProviderError {
    /// The operation did not complete within the allowed time window.
    Timeout,
    /// The subprocess could not be spawned or returned an OS-level error.
    ExecutionFailed(String),
    /// The output could not be parsed into the expected format.
    ParseError(String),
    /// An HTTP-level error occurred (network failure, DNS, TLS, ...).
    HttpError(String),
}

/// The message a provider error is shown with.
pub open spec fn spec_provider_error_message(e: ProviderError) -> Seq<char> {
    match e {
        ProviderError::Timeout => "provider timed out"@,
        ProviderError::ExecutionFailed(m) => "execution failed: "@ + m@,
        ProviderError::ParseError(m) => "parse error: "@ + m@,
        ProviderError::HttpError(m) => "HTTP error: "@ + m@,
    }
}

impl ProviderError {
    /// The human-readable message for this error.
    pub fn message(&self) -> (r: String)
        ensures
            r@ == spec_provider_error_message(*self),
    {
        proof {
            reveal_strlit("");
        }
        match self {
            ProviderError::Timeout => "provider timed out".to_owned(),
            ProviderError::ExecutionFailed(m) => crate::text::concat3("execution failed: ", m.as_str(), ""),
            ProviderError::ParseError(m) => crate::text::concat3("parse error: ", m.as_str(), ""),
            ProviderError::HttpError(m) => crate::text::concat3("HTTP error: ", m.as_str(), ""),
        }
    }
}

} // verus!
