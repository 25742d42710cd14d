use m_claw::error::McError;
use m_claw::json::Json;
use m_claw::llm::{is_retryable, openai_parse_stream_chunks, RetryConfig};
use m_claw::message::{FunctionCall, Message, Role, ToolCall};
use m_claw::storage::{
    decode_tool_calls, encode_tool_calls, message_from_row, message_row, role_to_str, session_not_found, str_to_role,
};

fn to_json(v: &serde_json::Value) -> Json {
    match v {
        serde_json::Value::Null => Json::Null,
        serde_json::Value::Bool(b) => Json::Bool(*b),
        serde_json::Value::Number(n) => Json::Number(n.to_string()),
        serde_json::Value::String(s) => Json::Str(s.clone()),
        serde_json::Value::Array(a) => Json::Array(a.iter().map(to_json).collect()),
        serde_json::Value::Object(m) => Json::Object(m.iter().map(|(k, v)| (k.clone(), to_json(v))).collect()),
    }
}

fn parse(text: &str) -> Json {
    to_json(&serde_json::from_str::<serde_json::Value>(text).unwrap())
}

fn call(id: &str, name: &str, args: &str) -> ToolCall {
    ToolCall { id: id.to_string(), function: FunctionCall { name: name.to_string(), arguments: args.to_string() } }
}

#[test]
fn parse_single_tool_call() {
    let json = parse(
        r#"{"choices":[{"delta":{"tool_calls":[{"index":0,"id":"call_abc","function":{"name":"bash","arguments":"{\"cmd\":\"ls\"}"}}]}}]}"#,
    );
    let chunks = openai_parse_stream_chunks(&json).unwrap();
    assert_eq!(chunks.len(), 1);
    let tc = chunks[0].tool_call_delta.as_ref().unwrap();
    assert_eq!(tc.index, 0);
    assert_eq!(tc.id.as_deref(), Some("call_abc"));
    assert_eq!(tc.name.as_deref(), Some("bash"));
    assert_eq!(tc.arguments_delta.as_deref(), Some("{\"cmd\":\"ls\"}"));
}

#[test]
fn parse_multiple_tool_calls_in_one_event() {
    let json = parse(
        r#"{"choices":[{"delta":{"tool_calls":[
            {"index":0,"id":"call_1","function":{"name":"bash","arguments":"{\"command\":\"ls\"}"}},
            {"index":1,"id":"call_2","function":{"name":"read_file","arguments":"{\"path\":\"/tmp\"}"}}]}}]}"#,
    );
    let chunks = openai_parse_stream_chunks(&json).unwrap();
    assert_eq!(chunks.len(), 2);
    let tc0 = chunks[0].tool_call_delta.as_ref().unwrap();
    assert_eq!(tc0.index, 0);
    assert_eq!(tc0.id.as_deref(), Some("call_1"));
    assert_eq!(tc0.name.as_deref(), Some("bash"));
    let tc1 = chunks[1].tool_call_delta.as_ref().unwrap();
    assert_eq!(tc1.index, 1);
    assert_eq!(tc1.id.as_deref(), Some("call_2"));
    assert_eq!(tc1.name.as_deref(), Some("read_file"));
}

#[test]
fn parse_content_and_tool_calls_mixed() {
    let json = parse(
        r#"{"choices":[{"delta":{"content":"Let me check that","tool_calls":[{"index":0,"id":"call_xyz","function":{"name":"grep","arguments":"{}"}}]}}]}"#,
    );
    let chunks = openai_parse_stream_chunks(&json).unwrap();
    assert_eq!(chunks.len(), 1);
    assert_eq!(chunks[0].delta, "Let me check that");
    assert!(chunks[0].tool_call_delta.is_some());
}

#[test]
fn parse_argument_deltas_only() {
    let json = parse(
        r#"{"choices":[{"delta":{"tool_calls":[{"index":0,"function":{"arguments":" -la"}},{"index":1,"function":{"arguments":"/test"}}]}}]}"#,
    );
    let chunks = openai_parse_stream_chunks(&json).unwrap();
    assert_eq!(chunks.len(), 2);
    assert_eq!(chunks[0].tool_call_delta.as_ref().unwrap().arguments_delta.as_deref(), Some(" -la"));
    assert_eq!(chunks[1].tool_call_delta.as_ref().unwrap().arguments_delta.as_deref(), Some("/test"));
}

#[test]
fn parse_finish_reason_with_tool_calls() {
    let json = parse(r#"{"choices":[{"delta":{},"finish_reason":"tool_calls"}]}"#);
    let chunks = openai_parse_stream_chunks(&json).unwrap();
    assert_eq!(chunks.len(), 1);
    assert!(chunks[0].finish_reason.is_some());
}

#[test]
fn parse_empty_delta_returns_empty() {
    let json = parse(r#"{"choices":[{"delta":{}}]}"#);
    let chunks = openai_parse_stream_chunks(&json).unwrap();
    assert!(chunks.is_empty());
}

#[test]
fn parse_three_tool_calls() {
    let json = parse(
        r#"{"choices":[{"delta":{"tool_calls":[
            {"index":0,"id":"c1","function":{"name":"bash","arguments":"{}"}},
            {"index":1,"id":"c2","function":{"name":"glob","arguments":"{}"}},
            {"index":2,"id":"c3","function":{"name":"grep","arguments":"{}"}}]}}]}"#,
    );
    let chunks = openai_parse_stream_chunks(&json).unwrap();
    assert_eq!(chunks.len(), 3);
    assert_eq!(chunks[0].tool_call_delta.as_ref().unwrap().name.as_deref(), Some("bash"));
    assert_eq!(chunks[1].tool_call_delta.as_ref().unwrap().name.as_deref(), Some("glob"));
    assert_eq!(chunks[2].tool_call_delta.as_ref().unwrap().name.as_deref(), Some("grep"));
}

#[test]
fn is_retryable_classifies_errors() {
    assert!(is_retryable(&McError::Llm("HTTP request failed: connection reset".to_string())));
    assert!(is_retryable(&McError::Llm("API returned HTTP 429: rate limited".to_string())));
    assert!(is_retryable(&McError::Llm("API returned HTTP 503: service unavailable".to_string())));
    assert!(!is_retryable(&McError::Llm("API returned HTTP 400: bad request".to_string())));
    assert!(!is_retryable(&McError::Llm("API returned HTTP 401: unauthorized".to_string())));
    assert!(!is_retryable(&McError::Llm("Failed to parse response JSON: invalid".to_string())));
    assert!(is_retryable(&McError::Io("reset".to_string())));
    assert!(!is_retryable(&McError::Tool("tool failed".to_string())));
}

#[test]
fn backoff_doubles_until_cap() {
    let c = RetryConfig { max_retries: 3, base_delay_ms: 500, max_delay_ms: 30_000 };
    assert_eq!(c.backoff(0), 500);
    assert_eq!(c.backoff(1), 1000);
    assert_eq!(c.backoff(2), 2000);
    assert_eq!(c.backoff(10), 30_000);
    let d = c.delay_for_attempt(2);
    assert!((1500..=2500).contains(&d));
}

#[test]
fn role_names_round_trip() {
    for r in [Role::System, Role::User, Role::Assistant, Role::Tool] {
        assert_eq!(str_to_role(role_to_str(r)), r);
    }
    assert_eq!(role_to_str(Role::Assistant), "assistant");
    assert_eq!(str_to_role("unknown"), Role::User);
}

#[test]
fn save_and_load_tool_calls() {
    let calls = vec![call("c1", "bash", "{\"command\":\"ls\"}"), call("c2", "grep", "{}")];
    let text = encode_tool_calls(&calls);
    let back = decode_tool_calls(&text).unwrap();
    assert_eq!(back.len(), 2);
    assert_eq!(back[0].id, "c1");
    assert_eq!(back[0].function.name, "bash");
    assert_eq!(back[0].function.arguments, "{\"command\":\"ls\"}");
    assert_eq!(back[1].function.name, "grep");
}

#[test]
fn stored_tool_calls_json_shape() {
    let text = encode_tool_calls(&vec![call("c1", "bash", "{}")]);
    let v: serde_json::Value = serde_json::from_str(&text).unwrap();
    assert_eq!(v[0]["id"], "c1");
    assert_eq!(v[0]["function"]["name"], "bash");
    assert_eq!(v[0]["function"]["arguments"], "{}");
}

#[test]
fn stored_tool_calls_text_keeps_field_order() {
    let text = encode_tool_calls(&vec![call("c1", "bash", "{}")]);
    assert_eq!(text, "[{\"id\":\"c1\",\"function\":{\"name\":\"bash\",\"arguments\":\"{}\"}}]");
}

#[test]
fn malformed_tool_calls_json_reads_as_none() {
    assert!(decode_tool_calls("not json").is_none());
    assert!(decode_tool_calls("[{\"id\":\"x\"}]").is_none());
    assert!(decode_tool_calls("{}").is_none());
}

#[test]
fn message_row_round_trip() {
    let msg = Message {
        role: Role::Assistant,
        content: Some("Let me check".to_string()),
        tool_calls: Some(vec![call("id1", "bash", "{}")]),
        tool_call_id: None,
        name: None,
    };
    let row = message_row(&msg);
    assert_eq!(row.role, "assistant");
    let back = message_from_row(row.role, row.content, row.tool_calls_json, row.tool_call_id, row.name);
    assert_eq!(back.role, Role::Assistant);
    assert_eq!(back.content.as_deref(), Some("Let me check"));
    assert_eq!(back.tool_calls.unwrap()[0].id, "id1");
}

#[test]
fn append_to_nonexistent_session_errors() {
    let err = session_not_found("nope");
    assert_eq!(err.message(), "Storage error: session not found: nope");
}

#[test]
fn retry_state_gives_up_after_max_retries() {
    let cfg = m_claw::llm::RetryConfig { max_retries: 2, base_delay_ms: 10, max_delay_ms: 100 };
    let mut st = m_claw::llm::RetryState::new();
    let transient = m_claw::error::McError::Llm("HTTP request failed: timeout".to_string());
    assert!(matches!(st.after_failure(&transient, &cfg), m_claw::llm::RetryStep::RetryAfter(_)));
    assert!(matches!(st.after_failure(&transient, &cfg), m_claw::llm::RetryStep::RetryAfter(_)));
    assert_eq!(st.after_failure(&transient, &cfg), m_claw::llm::RetryStep::Stop);
    assert_eq!(st.attempt, 2);
    let mut fresh = m_claw::llm::RetryState::new();
    let fatal = m_claw::error::McError::Llm("API returned HTTP 400 Bad Request: bad".to_string());
    assert_eq!(fresh.after_failure(&fatal, &cfg), m_claw::llm::RetryStep::Stop);
}
