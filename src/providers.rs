//! Backend client decisions that do not touch the network: endpoints,
//! the API key, the one-shot reshaping of a refused request, and the
//! local server's wire format.

use vstd::prelude::*;

use crate::error::{error_text, CoreError, CoreResult};
use crate::json::{get, get_member, get_text, text_at, JsonValue};
use crate::retry::{is_unsupported_param, names_unsupported_param};
use crate::text::{chars_of, decimal, push_all, push_decimal, string_of, strip_end, trim, trimmed};

verus! {

/// The base URL without trailing slashes, then `suffix`.
pub open spec fn endpoint(base_url: Seq<char>, suffix: Seq<char>) -> Seq<char> {
    strip_end(base_url, '/') + suffix
}

fn join_endpoint(base_url: &str, suffix: &str) -> (r: String)
    ensures
        r@ == endpoint(base_url@, suffix@),
{
    let b = chars_of(base_url);
    let mut end = b.len();
    assert(b@.take(end as int) =~= b@);
    while end > 0 && b[end - 1] == '/'
        invariant
            end <= b.len(),
            strip_end(b@, '/') == strip_end(b@.take(end as int), '/'),
        decreases end,
    {
        assert(b@.take(end as int).drop_last() =~= b@.take(end - 1));
        end -= 1;
    }
    let mut out = crate::text::copy_range(&b, 0, end);
    assert(out@ =~= b@.take(end as int));
    push_all(&mut out, &chars_of(suffix));
    string_of(&out)
}

/// The response-style endpoint under `base_url`.
pub fn responses_url(base_url: &str) -> (r: String)
    ensures
        r@ == endpoint(base_url@, "/responses"@),
{
    join_endpoint(base_url, "/responses")
}

/// The chat-style endpoint under `base_url`.
pub fn chat_url(base_url: &str) -> (r: String)
    ensures
        r@ == endpoint(base_url@, "/chat/completions"@),
{
    join_endpoint(base_url, "/chat/completions")
}

/// The key to authenticate with: the configured one, else the one the
/// environment gives; without either the provider cannot be used.
pub fn resolve_api_key(configured: Option<String>, from_env: Option<String>) -> (r: CoreResult<
    String,
>)
    ensures
        configured matches Some(k) ==> r == Ok::<String, CoreError>(k),
        configured is None && from_env is Some ==> r == Ok::<String, CoreError>(from_env->Some_0),
        configured is None && from_env is None ==> (r matches Err(CoreError::Provider(m)) && m@
            == "OpenAI API key is missing (run setup or set OPENAI_API_KEY)"@),
{
    match configured {
        Some(k) => Ok(k),
        None => match from_env {
            Some(k) => Ok(k),
            None => Err(
                CoreError::Provider(
                    String::from_str("OpenAI API key is missing (run setup or set OPENAI_API_KEY)"),
                ),
            ),
        },
    }
}

/// The field that carries the output token limit of a response-style
/// request.
#[derive(Debug, Clone, Copy, PartialEq, Eq, Structural)]
pub enum TokenLimitField {
    MaxOutputTokens,
    MaxCompletionTokens,
}

pub open spec fn limit_field_text(f: TokenLimitField) -> Seq<char> {
    match f {
        TokenLimitField::MaxOutputTokens => "max_output_tokens"@,
        TokenLimitField::MaxCompletionTokens => "max_completion_tokens"@,
    }
}

impl TokenLimitField {
    pub fn name(&self) -> (r: &'static str)
        ensures
            r@ == limit_field_text(*self),
    {
        match self {
            TokenLimitField::MaxOutputTokens => "max_output_tokens",
            TokenLimitField::MaxCompletionTokens => "max_completion_tokens",
        }
    }
}

/// How a request is shaped: whether it sends a temperature, and under
/// which field its token limit goes.
#[derive(Debug, Clone, Copy, PartialEq, Eq, Structural)]
pub struct RequestShape {
    pub temperature: bool,
    pub limit_field: TokenLimitField,
}

/// The first shape tried: temperature (unless the model is of the gpt-5
/// family, which takes none) and `max_output_tokens`.
pub fn initial_shape(gpt5: bool) -> (r: RequestShape)
    ensures
        r.temperature == !gpt5,
        r.limit_field == TokenLimitField::MaxOutputTokens,
{
    RequestShape { temperature: !gpt5, limit_field: TokenLimitField::MaxOutputTokens }
}

/// The next shape after a refused request: a refused `max_output_tokens`
/// becomes `max_completion_tokens`; otherwise a refused temperature is
/// dropped and the limit goes back to `max_output_tokens`. Any other
/// error, or a field already changed, ends the request.
pub open spec fn next_shape(shape: RequestShape, message: Seq<char>) -> Option<RequestShape> {
    if shape.limit_field == TokenLimitField::MaxOutputTokens && names_unsupported_param(
        message,
        "max_output_tokens"@,
    ) {
        Some(RequestShape { temperature: shape.temperature, limit_field: TokenLimitField::MaxCompletionTokens })
    } else if shape.temperature && names_unsupported_param(message, "temperature"@) {
        Some(RequestShape { temperature: false, limit_field: TokenLimitField::MaxOutputTokens })
    } else {
        None
    }
}

pub fn reshape_request(shape: RequestShape, err: &CoreError) -> (r: Option<RequestShape>)
    ensures
        r == next_shape(shape, error_text(*err)),
{
    if shape.limit_field == TokenLimitField::MaxOutputTokens && is_unsupported_param(
        err,
        "max_output_tokens",
    ) {
        Some(RequestShape { temperature: shape.temperature, limit_field: TokenLimitField::MaxCompletionTokens })
    } else if shape.temperature && is_unsupported_param(err, "temperature") {
        Some(RequestShape { temperature: false, limit_field: TokenLimitField::MaxOutputTokens })
    } else {
        None
    }
}

/// Whether a refused chat request is sent once more without its
/// temperature: only when it carried one and the refusal names the
/// temperature as an unsupported parameter. Any other error ends the
/// request.
pub fn resend_chat_without_temperature(temperature_sent: bool, err: &CoreError) -> (r: bool)
    ensures
        r == (temperature_sent && names_unsupported_param(error_text(*err), "temperature"@)),
{
    temperature_sent && is_unsupported_param(err, "temperature")
}

/// `message.content` of a local-server reply.
pub open spec fn ollama_content(json: JsonValue) -> Option<Seq<char>> {
    match get(json, "message"@) {
        Some(m) => text_at(m, "content"@),
        None => None,
    }
}

/// Reads the generated text of a local-server reply: the trimmed
/// `message.content`, which must not be empty.
pub fn parse_ollama_output(json: &JsonValue) -> (r: CoreResult<String>)
    ensures
        match ollama_content(*json) {
            Some(t) if trim(t).len() > 0 => r matches Ok(s) && s@ == trim(t),
            _ => r matches Err(CoreError::Provider(m)) && m@ == "ollama response missing content"@,
        },
{
    let content = match get_member(json, "message") {
        Some(m) => get_text(m, "content"),
        None => None,
    };
    if let Some(text) = content {
        let t = trimmed(&chars_of(text.as_str()));
        if t.len() > 0 {
            return Ok(string_of(&t));
        }
    }
    Err(CoreError::Provider(String::from_str("ollama response missing content")))
}

/// The error text of a local-server failure: its `error` string when the
/// reply has one, else the status.
pub fn ollama_error(json: &JsonValue, status: u16) -> (r: CoreError)
    ensures
        match text_at(*json, "error"@) {
            Some(t) => r matches CoreError::Provider(m) && m@ == "ollama error: "@ + t,
            None => r matches CoreError::Provider(m) && m@ == "ollama error: "@ + decimal(
                status as nat,
            ),
        },
{
    let mut m = chars_of("ollama error: ");
    match get_text(json, "error") {
        Some(t) => push_all(&mut m, &chars_of(t.as_str())),
        None => push_decimal(&mut m, status as u64),
    }
    CoreError::Provider(string_of(&m))
}

} // verus!
