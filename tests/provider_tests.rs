use goodcommit::json::ollama_payload;
use goodcommit::providers::{
    chat_url, initial_shape, ollama_error, parse_ollama_output, resend_chat_without_temperature,
    reshape_request, resolve_api_key,
    responses_url, TokenLimitField,
};
use goodcommit::error::CoreError;
use goodcommit::json::{
    chat_payload, parse_chat_output, parse_responses_output, responses_base_payload,
    with_token_limit, JsonValue,
};
use goodcommit::retry::{
    after_attempt, backoff_delay, backoff_delay_with, is_unsupported_param, should_retry,
    AttemptOutcome, RetryDecision,
};

fn get<'a>(v: &'a JsonValue, key: &str) -> Option<&'a JsonValue> {
    match v {
        JsonValue::Object(entries) => entries.iter().find(|(k, _)| k == key).map(|(_, v)| v),
        _ => None,
    }
}

fn as_array(v: Option<&JsonValue>) -> Option<&Vec<JsonValue>> {
    match v {
        Some(JsonValue::Array(items)) => Some(items),
        _ => None,
    }
}

fn as_str(v: Option<&JsonValue>) -> Option<&str> {
    match v {
        Some(JsonValue::Text(t)) => Some(t.as_str()),
        _ => None,
    }
}

fn text(s: &str) -> JsonValue {
    JsonValue::Text(s.to_string())
}

fn object(entries: Vec<(&str, JsonValue)>) -> JsonValue {
    JsonValue::Object(entries.into_iter().map(|(k, v)| (k.to_string(), v)).collect())
}

fn check_input_text_parts(payload: &JsonValue) {
    let input = as_array(get(payload, "input")).expect("input array");

    let system = as_array(get(&input[0], "content")).expect("system content");
    assert_eq!(as_str(get(&system[0], "type")), Some("input_text"));
    assert_eq!(as_str(get(&system[0], "text")), Some("system"));

    let user = as_array(get(&input[1], "content")).expect("user content");
    assert_eq!(as_str(get(&user[0], "type")), Some("input_text"));
    assert_eq!(as_str(get(&user[0], "text")), Some("user"));
}

#[test]
fn openai_responses_payload_uses_input_text_parts() {
    let payload = responses_base_payload(
        "gpt-5-nano-2025-08-07",
        "system",
        "user",
        Some(0.2f32.to_bits()),
        true,
    );
    check_input_text_parts(&payload);
}

#[test]
fn tests_responses_payload_uses_input_text_parts() {
    let payload = responses_base_payload(
        "gpt-5-nano-2025-08-07",
        "system",
        "user",
        Some(0.2f32.to_bits()),
        true,
    );
    check_input_text_parts(&payload);
}

#[test]
fn openai_responses_payload_omits_temperature_when_none() {
    let payload = responses_base_payload("gpt-5-nano-2025-08-07", "system", "user", None, true);
    assert!(get(&payload, "temperature").is_none());
}

#[test]
fn tests_responses_payload_omits_temperature_when_none() {
    let payload = responses_base_payload("gpt-5-nano-2025-08-07", "system", "user", None, true);
    assert!(get(&payload, "temperature").is_none());
}

#[test]
fn responses_payload_sets_reasoning_minimal_for_gpt5() {
    let payload = responses_base_payload("gpt-5-nano-2025-08-07", "system", "user", None, true);
    let effort = get(&payload, "reasoning").and_then(|v| as_str(get(v, "effort")));
    assert_eq!(effort, Some("minimal"));
    assert!(get(&payload, "text").is_some());
}

#[test]
fn responses_payload_skips_reasoning_for_non_gpt5() {
    let payload = responses_base_payload("gpt-4o-mini", "system", "user", None, false);
    assert!(get(&payload, "reasoning").is_none());
}

#[test]
fn openai_chat_payload_omits_temperature_when_none() {
    let payload = chat_payload("gpt-5-nano-2025-08-07", "system", "user", 100, None);
    assert!(get(&payload, "temperature").is_none());
}

#[test]
fn tests_chat_payload_omits_temperature_when_none() {
    let payload = chat_payload("gpt-5-nano-2025-08-07", "system", "user", 100, None);
    assert!(get(&payload, "temperature").is_none());
}

#[test]
fn chat_payload_carries_limit_and_temperature() {
    let payload = chat_payload("m", "s", "u", 100, Some(7));
    assert!(matches!(get(&payload, "max_tokens"), Some(JsonValue::Number(n)) if n == "100"));
    assert!(matches!(get(&payload, "temperature"), Some(JsonValue::Float(7))));
    let messages = as_array(get(&payload, "messages")).expect("messages");
    assert_eq!(as_str(get(&messages[1], "content")), Some("u"));
}

#[test]
fn token_limit_is_added_under_given_name() {
    let base = responses_base_payload("m", "s", "u", None, false);
    let body = with_token_limit(base, "max_completion_tokens", 42);
    assert!(matches!(get(&body, "max_completion_tokens"), Some(JsonValue::Number(n)) if n == "42"));
    assert!(get(&body, "max_output_tokens").is_none());
    assert_eq!(as_str(get(&body, "model")), Some("m"));
}

const UNSUPPORTED: &str = "openai error 400 Bad Request: {\"error\": {\"message\": \"Unsupported parameter: 'temperature' is not supported with this model.\", \"type\": \"invalid_request_error\", \"param\": \"temperature\", \"code\": null}}";

#[test]
fn openai_unsupported_param_matches_openai_message() {
    let err = CoreError::Provider(UNSUPPORTED.to_string());

    assert!(is_unsupported_param(&err, "temperature"));
}

#[test]
fn tests_unsupported_param_matches_openai_message() {
    let err = CoreError::Provider(UNSUPPORTED.to_string());

    assert!(is_unsupported_param(&err, "temperature"));
}

#[test]
fn unsupported_param_needs_the_field_name() {
    let err = CoreError::Provider(UNSUPPORTED.to_string());
    assert!(!is_unsupported_param(&err, "max_output_tokens"));
    let other = CoreError::Provider("rate limited: temperature".to_string());
    assert!(!is_unsupported_param(&other, "temperature"));
    assert!(is_unsupported_param(
        &CoreError::Provider("UNSUPPORTED_PARAMETER Max_Output_Tokens".to_string()),
        "max_output_tokens"
    ));
}

#[test]
fn chat_output_is_trimmed_content() {
    let json = object(vec![(
        "choices",
        JsonValue::Array(vec![object(vec![(
            "message",
            object(vec![("content", text("  feat: x \n"))]),
        )])]),
    )]);
    assert_eq!(parse_chat_output(&json), Ok("feat: x".to_string()));
    let blank = object(vec![(
        "choices",
        JsonValue::Array(vec![object(vec![("message", object(vec![("content", text("  "))]))])]),
    )]);
    assert_eq!(
        parse_chat_output(&blank),
        Err(CoreError::Provider("openai response missing content".to_string()))
    );
    assert!(parse_chat_output(&JsonValue::Null).is_err());
}

#[test]
fn responses_output_prefers_output_text() {
    let json = object(vec![("output_text", text(" fix: y "))]);
    assert_eq!(parse_responses_output(&json), Ok("fix: y".to_string()));
}

#[test]
fn responses_output_joins_parts() {
    let item = object(vec![(
        "content",
        JsonValue::Array(vec![
            object(vec![("type", text("output_text")), ("text", text("feat: "))]),
            object(vec![("text", text("add api "))]),
        ]),
    )]);
    let json = object(vec![
        ("output_text", text("   ")),
        ("output", JsonValue::Array(vec![JsonValue::Null, item])),
    ]);
    assert_eq!(parse_responses_output(&json), Ok("feat: add api".to_string()));
    let empty = object(vec![("output", JsonValue::Array(vec![]))]);
    assert_eq!(
        parse_responses_output(&empty),
        Err(CoreError::Provider("openai response missing output text".to_string()))
    );
}

#[test]
fn retryable_statuses() {
    assert!(should_retry(429));
    assert!(should_retry(408));
    assert!(should_retry(500));
    assert!(should_retry(503));
    assert!(!should_retry(400));
    assert!(!should_retry(404));
    assert!(!should_retry(200));
}

#[test]
fn backoff_doubles_and_caps() {
    assert_eq!(backoff_delay_with(0, 200, 2000, 0), 200);
    assert_eq!(backoff_delay_with(1, 200, 2000, 5), 405);
    assert_eq!(backoff_delay_with(3, 200, 2000, 0), 1600);
    assert_eq!(backoff_delay_with(4, 200, 2000, 0), 2000);
    assert_eq!(backoff_delay_with(60, 200, 2000, 200), 2200);
    assert_eq!(backoff_delay_with(2, 10, u64::MAX, u64::MAX), u64::MAX);
    for _ in 0..20 {
        let d = backoff_delay(1, 200, 2000);
        assert!((400..=600).contains(&d));
    }
}

#[test]
fn attempts_stop_after_three() {
    assert_eq!(after_attempt(0, AttemptOutcome::Success), RetryDecision::Accept);
    assert!(matches!(after_attempt(0, AttemptOutcome::Status(503)), RetryDecision::RetryAfter(d) if (200..=400).contains(&d)));
    assert!(matches!(after_attempt(1, AttemptOutcome::SendFailed), RetryDecision::RetryAfter(d) if (400..=600).contains(&d)));
    assert_eq!(after_attempt(2, AttemptOutcome::Status(503)), RetryDecision::GiveUp);
    assert_eq!(after_attempt(0, AttemptOutcome::Status(401)), RetryDecision::GiveUp);
}

#[test]
fn endpoints_drop_trailing_slashes() {
    assert_eq!(responses_url("https://api.openai.com/v1/"), "https://api.openai.com/v1/responses");
    assert_eq!(chat_url("http://h/v1"), "http://h/v1/chat/completions");
}

#[test]
fn refused_fields_are_reshaped_once() {
    let shape = initial_shape(false);
    assert!(shape.temperature);
    let limit_err = CoreError::Provider("Unsupported parameter: max_output_tokens".to_string());
    let next = reshape_request(shape, &limit_err).expect("reshaped");
    assert_eq!(next.limit_field, TokenLimitField::MaxCompletionTokens);
    assert!(next.temperature);
    assert_eq!(reshape_request(next, &limit_err), None);
    let temp_err = CoreError::Provider(UNSUPPORTED.to_string());
    let after = reshape_request(next, &temp_err).expect("reshaped");
    assert!(!after.temperature);
    assert_eq!(after.limit_field, TokenLimitField::MaxOutputTokens);
    assert_eq!(reshape_request(after, &temp_err), None);
    assert!(!initial_shape(true).temperature);
}

#[test]
fn api_key_is_required() {
    assert_eq!(resolve_api_key(Some("a".into()), Some("b".into())), Ok("a".to_string()));
    assert_eq!(resolve_api_key(None, Some("b".into())), Ok("b".to_string()));
    assert_eq!(
        resolve_api_key(None, None),
        Err(CoreError::Provider(
            "OpenAI API key is missing (run setup or set OPENAI_API_KEY)".to_string()
        ))
    );
}

#[test]
fn ollama_wire_format() {
    let body = ollama_payload("m", "s", "u", 9, 77);
    assert!(matches!(get(&body, "stream"), Some(JsonValue::Bool(false))));
    let options = get(&body, "options").expect("options");
    assert!(matches!(get(options, "num_predict"), Some(JsonValue::Number(n)) if n == "77"));
    let reply = object(vec![("message", object(vec![("content", text(" chore: x "))]))]);
    assert_eq!(parse_ollama_output(&reply), Ok("chore: x".to_string()));
    assert_eq!(
        parse_ollama_output(&JsonValue::Null),
        Err(CoreError::Provider("ollama response missing content".to_string()))
    );
    let err = object(vec![("error", text("model not found"))]);
    assert_eq!(
        ollama_error(&err, 404),
        CoreError::Provider("ollama error: model not found".to_string())
    );
    assert_eq!(
        ollama_error(&JsonValue::Null, 500),
        CoreError::Provider("ollama error: 500".to_string())
    );
}

#[test]
fn error_messages_read_as_text() {
    assert_eq!(CoreError::Timeout(12).message(), "timeout after 12 seconds");
    assert_eq!(CoreError::Git("x".into()).message(), "git error: x");
    assert_eq!(
        CoreError::GitCommand { command: "push".into(), stderr: "denied".into() }.message(),
        "git command failed: push: denied"
    );
    assert_eq!(CoreError::Cancelled.message(), "cancelled");
}

#[test]
fn chat_resends_once_without_temperature() {
    let both = CoreError::Provider(
        "Unsupported parameter: temperature (also max_output_tokens)".to_string(),
    );
    assert!(resend_chat_without_temperature(true, &both));
    assert!(!resend_chat_without_temperature(false, &both));
    let other = CoreError::Provider("openai error 500: boom".to_string());
    assert!(!resend_chat_without_temperature(true, &other));
}

#[test]
fn gpt5_payload_asks_for_plain_text() {
    let payload = responses_base_payload("gpt-5-mini", "s", "u", None, true);
    let format = get(&payload, "text").and_then(|t| get(t, "format"));
    assert_eq!(format.and_then(|f| as_str(get(f, "type"))), Some("text"));
}
