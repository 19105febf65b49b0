//! The protocol that is spoken with a model provider.
use serde_json::Value;
use tpi::ids::ToolCallId;
use tpi::message::ChatMessage;
use tpi::message::ToolCall;
use tpi::message::ToolDef;
use tpi::provider::openai_compat::backoff_delay;
use tpi::provider::openai_compat::message_to_json;
use tpi::provider::openai_compat::parse_finish_reason;
use tpi::provider::openai_compat::sse_transport_error_retryable;
use tpi::provider::openai_compat::OpenAiCompatClient;
use tpi::provider::openai_compat::INITIAL_BACKOFF;
use tpi::provider::request_replay::compare;
use tpi::provider::request_replay::RequestHeader;
use tpi::provider::request_replay::RequestManifest;
use tpi::provider::FinishReason;
use tpi::provider::ModelRequest;

/// No spread: a delay is what it is.
const JITTER: u32 = 100_000;

#[test]
fn finish_reason_mapping() {
    assert_eq!(parse_finish_reason("stop"), FinishReason::Stop);
    assert_eq!(parse_finish_reason("tool_calls"), FinishReason::ToolCalls);
    assert_eq!(parse_finish_reason("length"), FinishReason::Length);
    assert_eq!(
        parse_finish_reason("content_filter"),
        FinishReason::ContentFilter
    );
    assert_eq!(parse_finish_reason("weird"), FinishReason::Error);
}

#[test]
fn message_serialization_shape() {
    let message = ChatMessage::Tool {
        tool_call_id: "call_1".into(),
        name: "read".into(),
        content: "status: ok".into(),
    };
    let value = message_to_json(&message);
    assert_eq!(value["role"], "tool");
    assert_eq!(value["tool_call_id"], "call_1");
    assert_eq!(value["content"], "status: ok");
}

#[test]
fn assistant_without_tool_calls_omits_the_field() {
    let message = ChatMessage::Assistant {
        content: "done".into(),
        tool_calls: Vec::new(),
    };
    let value = message_to_json(&message);
    assert_eq!(value["role"], "assistant");
    assert!(
        value.get("tool_calls").is_none(),
        "空 tool_calls 必须省略: {value}"
    );

    let with_calls = ChatMessage::Assistant {
        content: "reading".into(),
        tool_calls: vec![ToolCall {
            call_id: ToolCallId::new_v7(),
            provider_id: "call_x".into(),
            name: "read".into(),
            arguments: "{}".into(),
        }],
    };
    let value = message_to_json(&with_calls);
    assert_eq!(value["tool_calls"][0]["id"], "call_x");
}

#[test]
fn body_contains_model_and_tools() {
    let client = OpenAiCompatClient::new(
        "https://example.invalid/v1".into(),
        "ignored-model".into(),
        "key".into(),
        None,
        None,
        None,
    );
    let parameters: Value = serde_json::from_str(r#"{"type": "object"}"#).unwrap();
    let request = ModelRequest {
        model: "test-model".into(),
        messages: vec![ChatMessage::User("hi".into())],
        tools: vec![ToolDef {
            name: "read".into(),
            description: "read".into(),
            parameters,
        }],
        max_output_tokens: Some(1024),
        reasoning: None,
        context_window: None,
    };
    let body = client.build_body(&request);
    assert_eq!(body["model"], "test-model");
    assert_eq!(body["stream"], true);
    assert_eq!(body["tools"][0]["function"]["name"], "read");
    assert_eq!(body["max_tokens"], 1024);
}

#[test]
fn client_config_never_leaks_into_body() {
    let client = OpenAiCompatClient::new(
        "https://example.invalid/v1".into(),
        "client-model".into(),
        "key".into(),
        Some("client-reasoning".into()),
        Some(999),
        None,
    );
    let request = ModelRequest {
        model: "request-model".into(),
        messages: vec![ChatMessage::User("hi".into())],
        tools: Vec::new(),
        max_output_tokens: None,
        reasoning: None,
        context_window: None,
    };
    let body = client.build_body(&request);
    assert_eq!(body["model"], "request-model");
    assert!(body.get("max_tokens").is_none(), "{body}");
    assert!(body.get("reasoning").is_none(), "{body}");
}

#[test]
fn sse_transport_error_retryable_only_before_any_event() {
    assert!(sse_transport_error_retryable(false), "未收到事件：可重试");
    assert!(
        !sse_transport_error_retryable(true),
        "已收到事件：不可重试（避免重复文本/工具调用）"
    );
}

#[test]
fn backoff_doubles_per_attempt() {
    let first = backoff_delay(0, None, JITTER);
    let second = backoff_delay(1, None, JITTER);
    let third = backoff_delay(2, None, JITTER);
    assert_eq!(first, INITIAL_BACKOFF, "attempt 0 = 初始退避");
    assert_eq!(second, INITIAL_BACKOFF * 2, "attempt 1 翻倍");
    assert_eq!(third, INITIAL_BACKOFF * 4, "attempt 2 再翻倍");
}

#[test]
fn retry_after_respected_when_larger() {
    let local = backoff_delay(0, None, JITTER);
    let server_longer: u128 = 30_000_000_000;
    assert_eq!(backoff_delay(0, Some(server_longer), JITTER), server_longer);
    let server_shorter: u128 = 10_000_000;
    assert_eq!(backoff_delay(0, Some(server_shorter), JITTER), local);
}

fn fingerprint(tools: &[&str]) -> String {
    tools.join("|")
}

#[test]
fn consistent_request_has_no_drift() {
    let request = ModelRequest {
        model: "gpt-4o".into(),
        messages: vec![
            ChatMessage::User("hi".into()),
            ChatMessage::Assistant {
                content: "hello".into(),
                tool_calls: vec![],
            },
        ],
        tools: Vec::new(),
        max_output_tokens: None,
        reasoning: None,
        context_window: None,
    };
    let header = RequestHeader::freeze(&request, &fingerprint(&["read"]));
    let manifest = RequestManifest::rebuild(
        "gpt-4o".into(),
        vec!["user".into(), "assistant".into()],
        fingerprint(&["read"]),
        2,
    );
    assert!(compare(&manifest, &header).is_empty(), "一致请求无 drift");
}

#[test]
fn drifts_are_field_localizable() {
    let request = ModelRequest {
        model: "gpt-4o".into(),
        messages: vec![ChatMessage::User("hi".into())],
        tools: Vec::new(),
        max_output_tokens: None,
        reasoning: None,
        context_window: None,
    };
    let header = RequestHeader::freeze(&request, &fingerprint(&["read", "bash"]));
    let manifest = RequestManifest::rebuild(
        "gpt-4o-mini".into(),
        vec!["user".into()],
        fingerprint(&["read"]),
        1,
    );
    let drifts = compare(&manifest, &header);
    let fields: Vec<&str> = drifts.iter().map(|d| d.field).collect();
    assert!(fields.contains(&"model"), "model drift 定位: {fields:?}");
    assert!(
        fields.contains(&"tool_schema_fingerprint"),
        "tool schema drift 定位: {fields:?}"
    );
    assert!(!fields.contains(&"role_sequence"));
    assert!(
        !header.role_sequence.iter().any(|r| r.contains("hi")),
        "无正文泄露"
    );
}
