//! Requests to an OpenAI-compatible chat completion endpoint.

use vstd::prelude::*;
use crate::config::{AiConfig, strip_trailing_slashes, trim_trailing_slashes};
use crate::text::{owned, push_str, trim, trim_spec};

verus! {

/// The chat completion URL under the endpoint `base_url` (trailing
/// slashes of the endpoint dropped).
pub open spec fn completion_url_spec(base_url: Seq<char>) -> Seq<char> {
    trim_trailing_slashes(base_url) + "/chat/completions"@
}

/// The chat completion URL under the endpoint `base_url`.
pub fn completion_url(base_url: &str) -> (r: String)
    ensures
        r@ == completion_url_spec(base_url@),
{
    let mut url = strip_trailing_slashes(base_url);
    push_str(&mut url, "/chat/completions");
    url
}

/// The `Authorization` header for `ai`, given the `OPENAI_API_KEY`
/// environment value `env_key`: `Bearer` and the key, when there is one.
pub fn authorization(ai: &AiConfig, env_key: Option<&str>) -> (r: Option<String>)
    ensures
        trim_spec(ai.api_key@).len() > 0 ==> (r matches Some(h) && h@ == "Bearer "@ + trim_spec(
            ai.api_key@,
        )),
        trim_spec(ai.api_key@).len() == 0 ==> match env_key {
            Some(e) => if trim_spec(e@).len() > 0 {
                (r matches Some(h) && h@ == "Bearer "@ + e@)
            } else {
                r is None
            },
            None => r is None,
        },
{
    match ai.resolve_api_key(env_key) {
        Some(key) => {
            let mut h = owned("Bearer ");
            push_str(&mut h, key.as_str());
            Some(h)
        },
        None => None,
    }
}

/// The answer text of a completion: the message content, trimmed.
pub fn completion_text(content: Option<&str>) -> (r: Option<String>)
    ensures
        match content {
            Some(c) => (r matches Some(t) && t@ == trim_spec(c@)),
            None => r is None,
        },
{
    match content {
        Some(c) => Some(trim(c)),
        None => None,
    }
}

/// The message shown when a request fails.
pub fn failure_message(error: &str) -> (r: String)
    ensures
        r@ == "AI request failed: "@ + error@,
{
    let mut m = owned("AI request failed: ");
    push_str(&mut m, error);
    m
}

} // verus!
