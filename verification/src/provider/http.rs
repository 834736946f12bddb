//! The HTTP provider: a GET request whose status code and latency become
//! the watch data.

use vstd::prelude::*;
use crate::json::{JsonNumber, JsonValue};
use crate::config::Watch;
use crate::provider::{ProviderError, ProviderResult};

verus! {

/// A status code in the success range `200..300` means the endpoint is up.
pub open spec fn spec_is_up(status: u16) -> bool {
    200 <= status && status < 300
}

/// Builds a [`ProviderResult`] from a raw HTTP status code and measured
/// latency: the data object holds `latency_ms`, `status` and `up`.
pub fn build_result(status: u16, latency_ms: u64) -> (r: ProviderResult)
    ensures
        r.data matches JsonValue::Object(fields) && fields@.len() == 3,
        crate::json::spec_get(r.data, "latency_ms"@) == Some(JsonValue::Number(JsonNumber::PosInt(latency_ms))),
        crate::json::spec_get(r.data, "status"@) == Some(JsonValue::Number(JsonNumber::PosInt(status as u64))),
        crate::json::spec_get(r.data, "up"@) == Some(JsonValue::Bool(spec_is_up(status))),
        r.exit_code is None,
        r.latency_ms == Some(latency_ms),
{
    proof {
        reveal_strlit("latency_ms");
        reveal_strlit("status");
        reveal_strlit("up");
        assert("latency_ms"@.len() != "status"@.len());
        assert("latency_ms"@.len() != "up"@.len());
        assert("status"@.len() != "up"@.len());
        reveal_with_fuel(crate::json::spec_lookup, 4);
    }
    let up = 200 <= status && status < 300;
    let mut fields: Vec<(String, JsonValue)> = Vec::new();
    fields.push(("latency_ms".to_owned(), JsonValue::Number(JsonNumber::PosInt(latency_ms))));
    fields.push(("status".to_owned(), JsonValue::Number(JsonNumber::PosInt(status as u64))));
    fields.push(("up".to_owned(), JsonValue::Bool(up)));
    ProviderResult { data: JsonValue::Object(fields), exit_code: None, latency_ms: Some(latency_ms) }
}

/// Default request timeout in seconds.
pub const DEFAULT_TIMEOUT_SECS: u64 = 10;

/// The URL an HTTP watch requests; a watch without one cannot run.
pub fn request_url(watch: &Watch) -> (r: Result<&str, ProviderError>)
    ensures
        match watch.url {
            Some(u) => r matches Ok(x) && x@ == u@,
            None => r matches Err(ProviderError::ExecutionFailed(m)) && m@ == "watch has no url field"@,
        },
{
    match &watch.url {
        Some(u) => Ok(u.as_str()),
        None => Err(ProviderError::ExecutionFailed("watch has no url field".to_owned())),
    }
}

} // verus!
