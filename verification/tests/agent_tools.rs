//! Tool calls: what is refused, what is kept, and the summary of web pages.
use tpi::agent::tool_runtime::backup_cleanup_allowed;
use tpi::agent::tool_runtime::repeated_outcome;
use tpi::agent::web_summary::apply_web_summary;
use tpi::agent::web_summary::extract_external_content;
use tpi::agent::web_summary::web_summary_request;
use tpi::outcome::ModelPayload;
use tpi::outcome::StoredToolOutcome;
use tpi::outcome::ToolStatus;
use tpi::provider::FinishReason;
use tpi::session::Usage;

fn no_usage() -> Usage {
    Usage {
        input_tokens: 0,
        output_tokens: 0,
        cache_read_tokens: 0,
    }
}

#[test]
fn repeated_outcome_includes_suggestions() {
    let outcome = repeated_outcome("read", "read src/main.rs");
    let text = outcome.model_payload.output;
    assert!(text.contains("repeated_without_progress"), "{text}");
    assert!(text.contains("suggestions:"), "必须带下一步建议: {text}");
    assert!(text.contains("list 或 search"), "{text}");
}

#[test]
fn backup_cleanup_policy_keeps_recovery_on_failure() {
    assert!(backup_cleanup_allowed(ToolStatus::Succeeded));
    assert!(!backup_cleanup_allowed(ToolStatus::Failed));
    assert!(!backup_cleanup_allowed(ToolStatus::Rejected));
    assert!(!backup_cleanup_allowed(ToolStatus::Cancelled));
}

#[test]
fn extract_external_content_isolates_body() {
    let output = "status: succeeded\ntool: web_fetch\nurl: https://example.com\n\n<external_content source=\"https://example.com\">\n这是页面正文第一行\n第二行\n</external_content>\nartifact: @artifact/s/id\n";
    assert_eq!(
        extract_external_content(output).as_deref(),
        Some("这是页面正文第一行\n第二行")
    );
    assert_eq!(extract_external_content("status: failed\nerror: x"), None);
}

#[test]
fn summarize_skips_failed_outcomes() {
    let mut usage = no_usage();
    let mut outcome = StoredToolOutcome::failed(
        "web_fetch",
        ModelPayload {
            status: ToolStatus::Failed,
            program: None,
            exit_code: None,
            duration_ms: 0,
            output: "status: failed\nerror: ssrf_blocked".into(),
            effect: None,
            artifact: None,
        },
    );
    let request = web_summary_request(&outcome, "fake-model", &None, None, &None);
    assert!(request.is_none());
    apply_web_summary(&mut outcome, &mut usage, "fake-model", "", None);
    assert!(!outcome.model_payload.output.contains("summary: true"));
    assert_eq!(usage.input_tokens, 0);
}

#[test]
fn summarize_replaces_body_with_summary() {
    let mut usage = no_usage();
    let mut outcome = StoredToolOutcome::succeeded(
        "web_fetch",
        "status: succeeded\ntool: web_fetch\nurl: https://example.com\nhttp: 200\n\n<external_content source=\"https://example.com\">\n页面正文……\n</external_content>\nartifact: @artifact/s/id\n".into(),
    );
    let prompt = Some("这个页面讲什么？".to_string());
    let request = web_summary_request(&outcome, "fake-model", &None, None, &prompt);
    assert!(request.is_some());
    let response = Some((
        FinishReason::Stop,
        Usage {
            input_tokens: 10,
            output_tokens: 5,
            cache_read_tokens: 0,
        },
    ));
    apply_web_summary(&mut outcome, &mut usage, "fake-model", "页面摘要内容", response);
    let out = &outcome.model_payload.output;
    assert!(out.contains("summary: true"), "必须标记已摘要: {out}");
    assert!(out.contains("页面摘要内容"), "正文被摘要替换: {out}");
    assert!(
        out.contains("url: https://example.com"),
        "保留 url 元数据: {out}"
    );
    assert!(out.contains("@artifact/s/id"), "保留 artifact 引用: {out}");
    assert!(!out.contains("页面正文……"), "原文不应再进上下文: {out}");
    assert_eq!(usage.input_tokens, 10, "摘要 usage 必须累计");
}
