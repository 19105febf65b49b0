//! Estimates of tokens, pruned tool results, and summaries.
use serde_json::Value;
use tpi::context::estimate_messages;
use tpi::context::estimate_request;
use tpi::context::estimate_tokens;
use tpi::context::is_significant_shrink;
use tpi::context::parse_summary;
use tpi::context::prune_tool_output;
use tpi::message::ChatMessage;
use tpi::message::ToolDef;

fn bash_tool() -> ToolDef {
    let parameters: Value = serde_json::from_str(
        r#"{"type": "object", "properties": {"cmd": {"type": "string"}}}"#,
    )
    .unwrap();
    ToolDef {
        name: "bash".into(),
        description: "run a shell command".into(),
        parameters,
    }
}

#[test]
fn estimate_request_includes_system_and_tool_schemas() {
    let system = "s".repeat(3000);
    let messages = vec![ChatMessage::User("hello".into())];
    let one = vec![bash_tool()];
    let estimate = estimate_request(&system, &messages, &one);
    assert!(
        estimate > estimate_messages(&messages),
        "system prompt 必须计入: {estimate}"
    );
    assert!(estimate >= 1000, "system prompt 估算过低: {estimate}");
    let many_tools: Vec<ToolDef> = (0..20).map(|_| bash_tool()).collect();
    let with_many = estimate_request(&system, &messages, &many_tools);
    assert!(
        with_many > estimate,
        "tool schema 必须计入: {with_many} vs {estimate}"
    );
}

#[test]
fn prune_keeps_structured_key_lines() {
    let mut content = String::from(
        "status: succeeded\ntool: bash\nprogram: bash\nexit_code: 0\nartifact: @artifact/abc123\n\n",
    );
    content.push_str(&"line of filler content\n".repeat(200));
    content.push_str("final tail line\n");
    let pruned = prune_tool_output(&content);
    assert!(
        pruned.contains("artifact: @artifact/abc123"),
        "artifact 引用必须保留: {pruned}"
    );
    assert!(pruned.contains("status: succeeded"), "status 必须保留");
    assert!(pruned.contains("exit_code: 0"), "exit_code 必须保留");
    assert!(pruned.contains("final tail line"), "尾部诊断保留");
    assert!(
        pruned.matches("line of filler content").count() <= 7,
        "非关键内容只允许出现在 tail 8 行内（实际 {} 行）",
        pruned.matches("line of filler content").count()
    );
}

#[test]
fn prune_result_stays_bounded_with_key_line_flood_and_huge_tail_line() {
    let mut content = String::new();
    for index in 0..10_000 {
        content.push_str(&format!("error: repeated diagnostic {index}\n"));
    }
    content.push_str("artifact: @artifact/session/id\n");
    content.push_str(&"界".repeat(20_000));

    let pruned = prune_tool_output(&content);
    assert!(estimate_tokens(&pruned) <= 800, "裁剪结果仍超限");
    assert!(pruned.contains("artifact: @artifact/session/id"));
    assert!(pruned.contains("additional key lines omitted"));
    assert!(pruned.contains("line truncated"));
}

#[test]
fn significant_shrink_handles_extreme_token_counts_without_overflow() {
    assert!(!is_significant_shrink(u64::MAX, u64::MAX - 1));
    assert!(is_significant_shrink(u64::MAX, u64::MAX / 3));
}

#[test]
fn summary_parser_requires_each_schema_field_once_with_a_value() {
    let valid = "Goal: g\nConstraints: c\nDecisions: d\nCompleted: c\nIn progress: i\nNext exact action: n\nRelevant files and revisions: r\nVerification status: v\nFailed attempts and why: f";
    assert_eq!(parse_summary(valid), valid);
    assert!(parse_summary("Goal: only one field").is_empty());
    assert!(parse_summary(&format!("{valid}\nGoal: duplicate")).is_empty());
    assert!(parse_summary(&valid.replace("Constraints: c", "Constraints:")).is_empty());
    assert!(parse_summary(&format!("{valid}\nUnknown: x")).is_empty());
}
