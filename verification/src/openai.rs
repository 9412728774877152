//! The OpenAI-compatible provider adapter. The canonical schema is
//! this provider's native one, so request translation is the identity
//! and its stream passes through byte for byte; what remains here is
//! the endpoint and the error for a failed call.

use vstd::prelude::*;
use crate::error::FeatherGateError;
use crate::text::{trimmed_base, trim_trailing_slashes, truncate_chars, truncated};

verus! {

/// The endpoint for the native call: the provider default when no base
/// URL is configured, otherwise the override with trailing slashes
/// trimmed, with the completions path appended.
pub fn openai_url(api_base: &str) -> (r: String)
    ensures
        r@ == (if api_base@.len() == 0 {
            "https://api.openai.com/v1"@
        } else {
            trimmed_base(api_base@)
        }) + "/chat/completions"@,
{
    let mut url = if api_base.is_empty() {
        String::from_str("https://api.openai.com/v1")
    } else {
        String::from_str(trim_trailing_slashes(api_base))
    };
    url.append("/chat/completions");
    url
}

/// The error reported for a non-success native status: the status code
/// with the response body, the body capped at 4096 characters.
pub fn upstream_error(status: u16, body: &str) -> (e: FeatherGateError)
    ensures
        e matches FeatherGateError::UpstreamError { status: st, message: m }
            && st == status
            && m@ == "OpenAI API 错误: "@ + truncated(body@, 4096),
{
    let mut m = String::from_str("OpenAI API 错误: ");
    m.append(truncate_chars(body, 4096));
    FeatherGateError::upstream(status, m)
}

} // verus!
