//! What the model is sent: the prompt, the plan, and the state of things around it.
use tpi::agent::prompt::build_context;
use tpi::agent::prompt::ensure_plan_state_messages;
use tpi::agent::prompt::PromptParts;
use tpi::agent::recoverable_stream_interrupt;
use tpi::agent::recovery::recovery_overlap_bytes;
use tpi::message::ChatMessage;
use tpi::plan::Plan;
use tpi::plan::PlanItem;
use tpi::plan::PlanStatus;
use tpi::provider::ProviderError;

fn parts() -> PromptParts {
    PromptParts {
        base: "base prompt".into(),
        extra: None,
        skills: Vec::new(),
    }
}

#[test]
fn build_context_appends_current_plan_as_system_role() {
    let plan = Plan {
        explanation: Some("修复侧边栏".into()),
        items: vec![PlanItem {
            text: "加宽侧边栏".into(),
            status: PlanStatus::InProgress,
        }],
    };
    let messages = vec![ChatMessage::User("hello".into())];
    let ctx = build_context(&parts(), &messages, None, Some(&plan), None, None);
    assert!(
        matches!(&ctx[0], ChatMessage::System(_)),
        "首条是 system prompt"
    );
    assert!(matches!(&ctx[1], ChatMessage::User(_)), "中间是原消息");
    assert_eq!(ctx.len(), 3, "尾部追加一条 plan 快照");
    let tail = match &ctx[2] {
        ChatMessage::System(text) => text.clone(),
        other => panic!("尾部必须是 system 角色: {other:?}"),
    };
    assert!(
        tail.contains("[当前计划·唯一权威"),
        "必须带唯一权威标记: {tail}"
    );
    assert!(tail.contains("加宽侧边栏"), "快照含计划项: {tail}");
    assert!(
        !tail.contains("hello"),
        "注入不得污染原对话（不是 User 消息）: {tail}"
    );
}

#[test]
fn build_context_skips_injection_when_plan_fully_completed() {
    let plan = Plan {
        explanation: None,
        items: vec![PlanItem {
            text: "done".into(),
            status: PlanStatus::Completed,
        }],
    };
    let messages = vec![ChatMessage::User("hi".into())];
    let ctx = build_context(&parts(), &messages, None, Some(&plan), None, None);
    assert_eq!(ctx.len(), 2, "全部完成后的计划不再注入尾部");
}

#[test]
fn build_context_without_plan_injects_nothing() {
    let messages = vec![ChatMessage::User("hi".into())];
    let ctx = build_context(&parts(), &messages, None, None, None, None);
    assert_eq!(ctx.len(), 2, "无 plan 时只有 system + 原消息");
    assert!(matches!(&ctx[1], ChatMessage::User(_)));
}

#[test]
fn build_context_injects_managed_process_snapshot_as_system_role() {
    let messages = vec![ChatMessage::User("hi".into())];
    let snapshot = "p17 running   python server.py  42.8s\np18 exited 0  wget model.bin";
    let ctx = build_context(&parts(), &messages, None, None, None, Some(snapshot));
    assert_eq!(ctx.len(), 3, "system + 原消息 + process snapshot");
    let tail = match &ctx[2] {
        ChatMessage::System(text) => text.clone(),
        other => panic!("process snapshot 必须是 system 角色: {other:?}"),
    };
    assert!(tail.contains("[Managed processes]"), "{tail}");
    assert!(tail.contains("p17 running"), "{tail}");
    assert!(tail.contains("p18 exited 0"), "{tail}");
    assert!(
        !tail.contains("hi"),
        "注入不得伪装成 User 消息: {tail}"
    );
}

#[test]
fn build_context_skips_process_snapshot_when_none() {
    let messages = vec![ChatMessage::User("hi".into())];
    let ctx = build_context(&parts(), &messages, None, None, None, None);
    assert_eq!(ctx.len(), 2, "无进程快照时不注入");
}

#[test]
fn restored_plan_uses_tool_protocol_instead_of_fake_user_message() {
    let plan = Plan {
        explanation: None,
        items: vec![PlanItem {
            text: "检查 gcodes".into(),
            status: PlanStatus::InProgress,
        }],
    };
    let mut messages = Vec::new();
    ensure_plan_state_messages(&mut messages, Some(&plan));
    messages.push(ChatMessage::User("继续审查".into()));

    assert_eq!(messages.len(), 3);
    assert!(
        matches!(&messages[0], ChatMessage::Assistant { content, tool_calls }
        if content.is_empty() && tool_calls.len() == 1 && tool_calls[0].name == "update_plan")
    );
    assert!(
        matches!(&messages[1], ChatMessage::Tool { name, content, .. }
        if name == "update_plan" && content.contains("检查 gcodes"))
    );
    assert!(matches!(messages.last(), Some(ChatMessage::User(text)) if text == "继续审查"));
}

#[test]
fn restored_plan_is_inserted_only_once() {
    let plan = Plan {
        explanation: None,
        items: vec![PlanItem {
            text: "检查 gcodes".into(),
            status: PlanStatus::InProgress,
        }],
    };
    let mut messages = Vec::new();
    ensure_plan_state_messages(&mut messages, Some(&plan));
    ensure_plan_state_messages(&mut messages, Some(&plan));
    assert_eq!(messages.len(), 2, "恢复态不能在每次请求尾部重复注入");
}

#[test]
fn recoverable_stream_interrupt_distinguishes_truncation_from_connect_failure() {
    assert!(
        recoverable_stream_interrupt(&ProviderError::StreamInterrupted(
            "stream ended before [DONE]".into()
        )),
        "已收内容后截断必须可恢复（续写/重生成）"
    );
    assert!(
        !recoverable_stream_interrupt(&ProviderError::Connection(
            "attempt 3: connect timeout".into()
        )),
        "未收内容的连接失败不得自动续写（provider 已重试耗尽）"
    );
    assert!(
        !recoverable_stream_interrupt(&ProviderError::Protocol("x".into())),
        "协议错误不可恢复"
    );
}

#[test]
fn recovery_overlap_handles_full_replay_suffix_and_utf8() {
    let existing = "第一段\n第二段已经输出";
    let full_replay = "第一段\n第二段已经输出，继续内容";
    assert_eq!(
        recovery_overlap_bytes(existing, full_replay),
        existing.len()
    );

    let suffix_replay = "第二段已经输出，继续内容";
    assert_eq!(
        recovery_overlap_bytes(existing, suffix_replay),
        "第二段已经输出".len()
    );
    assert_eq!(recovery_overlap_bytes(existing, "完全不同的新内容"), 0);
}
