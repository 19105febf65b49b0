//! The parts that conversations, prompts and effects are made of.
use tpi::agent::compaction::compaction_request;
use tpi::agent::compaction::finish_name;
use tpi::agent::compaction::rebuild_messages;
use tpi::agent::compaction::split_point;
use tpi::agent::prompt::interrupted_as_messages;
use tpi::agent::prompt::processes_snapshot;
use tpi::agent::prompt::restore_plan;
use tpi::agent::prompt::system_prompt_text;
use tpi::agent::prompt::tool_result_succeeded;
use tpi::agent::prompt::PromptParts;
use tpi::agent::prompt::SkillMeta;
use tpi::agent::session_file_name;
use tpi::agent::tool_runtime::budget_outcome;
use tpi::agent::tool_runtime::invalid_arguments_outcome;
use tpi::agent::tool_runtime::tool_result_message;
use tpi::agent::tool_runtime::unknown_tool_outcome;
use tpi::agent::web_summary::summary_model;
use tpi::agent::AwaitingInput;
use tpi::app::effects::apply_effect;
use tpi::app::effects::may_open;
use tpi::app::effects::PlatformEffects;
use tpi::app::intent::AppEffect;
use tpi::app::slash::help_lines;
use tpi::app::slash::slash_commands;
use tpi::app::turn::run_failure_line;
use tpi::app::turn::Dialogue;
use tpi::context::estimate_message;
use tpi::context::keep_count;
use tpi::context::prune_messages;
use tpi::eval::verify::VerifyStep;
use tpi::ids::SessionId;
use tpi::ids::ToolCallId;
use tpi::message::ChatMessage;
use tpi::message::ToolCall;
use tpi::outcome::status_str;
use tpi::outcome::StoredToolOutcome;
use tpi::outcome::ToolStatus;
use tpi::plan::plan_status_name;
use tpi::plan::Plan;
use tpi::plan::PlanItem;
use tpi::plan::PlanStatus;
use tpi::process::host::terminal_without_start;
use tpi::process::host::EndReason;
use tpi::provider::FinishReason;
use tpi::remote::executor::capture_script;
use tpi::remote::executor::rejected;
use tpi::session::CompletionReason;
use tpi::text::ahead;
use tpi::text::behind;
use tpi::text::lower;
use tpi::text::skip;
use tpi::text::strip_prefix;
use tpi::text::take;
use tpi::text::trim_end;
use tpi::text::trim_start;
use tpi::tool::BuiltinTool;

#[test]
fn prompts_are_put_together() {
    let mut parts = PromptParts {
        base: "base".into(),
        extra: Some("rules".into()),
        skills: Vec::new(),
    };
    assert_eq!(system_prompt_text(&parts, None), "base\n\nrules");
    assert_eq!(
        system_prompt_text(&parts, Some("now")),
        "base\n\nrules\n\nnow"
    );
    parts.extra = None;
    parts.skills.push(SkillMeta {
        name: "s".into(),
        description: "d".into(),
    });
    let prompt = system_prompt_text(&parts, None);
    assert!(prompt.starts_with("base\n\n[Available skills]"));
    assert!(prompt.contains("：\n  s — d\n\nSkill 是"));
    assert_eq!(processes_snapshot(&Vec::new()), None);
    assert_eq!(
        processes_snapshot(&vec!["a".into(), "b".into()]).as_deref(),
        Some("Managed processes:\na\nb\n（仅 active + 近期状态变化；用 `process` 查看/等待/取消，不要高频轮询）")
    );
}

#[test]
fn a_plan_is_restored_as_a_call() {
    assert!(tool_result_succeeded("x\n status: succeeded \ny"));
    assert!(!tool_result_succeeded("status: succeeded?"));
    let plan = Plan {
        explanation: None,
        items: vec![PlanItem {
            text: "one".into(),
            status: PlanStatus::InProgress,
        }],
    };
    let mut messages = vec![ChatMessage::User("hi".into())];
    restore_plan(&mut messages, Some(&plan), ToolCallId(3));
    assert_eq!(messages.len(), 3);
    match (&messages[1], &messages[2]) {
        (
            ChatMessage::Assistant {
                content,
                tool_calls,
            },
            ChatMessage::Tool {
                tool_call_id,
                name,
                content: result,
            },
        ) => {
            assert_eq!(content, "");
            assert_eq!(tool_calls[0].call_id, ToolCallId(3));
            assert_eq!(tool_calls[0].provider_id, "tpi-restored-plan");
            assert!(tool_calls[0].arguments.contains("\"one\""));
            assert_eq!(tool_call_id, "tpi-restored-plan");
            assert_eq!(name, "update_plan");
            assert!(tool_result_succeeded(result));
        }
        other => panic!("no round: {other:?}"),
    }
    assert_eq!(plan_status_name(PlanStatus::InProgress), "in_progress");
}

#[test]
fn results_and_refusals_are_told() {
    let call = ToolCall {
        call_id: ToolCallId(1),
        provider_id: "p".into(),
        name: "bash".into(),
        arguments: "{}".into(),
    };
    let outcome = StoredToolOutcome::succeeded("bash", "out".into());
    assert_eq!(
        tool_result_message(&call, &outcome),
        ChatMessage::Tool {
            tool_call_id: "p".into(),
            name: "bash".into(),
            content: "out".into()
        }
    );
    assert_eq!(
        unknown_tool_outcome("x").model_payload.output,
        "status: rejected\ntool: x\nerror: unknown_tool"
    );
    assert_eq!(
        invalid_arguments_outcome(BuiltinTool::Read, "no path")
            .model_payload
            .output,
        "status: rejected\ntool: read\nerror: invalid_arguments\n\nno path"
    );
    assert_eq!(budget_outcome("x").status, ToolStatus::Rejected);
    assert_eq!(status_str(ToolStatus::TimedOut), "timed_out");
    let interrupted = vec![(
        "own".to_string(),
        "p2".to_string(),
        StoredToolOutcome::plain("edit", ToolStatus::Interrupted, "cut".into()),
    )];
    assert_eq!(
        interrupted_as_messages(&interrupted),
        vec![ChatMessage::Tool {
            tool_call_id: "p2".into(),
            name: "edit".into(),
            content: "cut".into()
        }]
    );
}

#[test]
fn summaries_are_asked_for_and_put_in_front() {
    let history = vec![ChatMessage::User("a".into())];
    let request = compaction_request(&history, "m", &None, Some(9));
    assert_eq!(request.model, "m");
    assert_eq!(request.max_output_tokens, Some(2048));
    assert!(request.tools.is_empty());
    assert!(matches!(&request.messages[0], ChatMessage::System(text) if text.contains("Next exact action")));
    assert_eq!(request.messages[1], ChatMessage::User("a".into()));
    let rebuilt = rebuild_messages("s", &history);
    assert_eq!(
        rebuilt,
        vec![
            ChatMessage::User("（此前会话的压缩摘要，见 CompactionCommitted）\ns".into()),
            ChatMessage::User("a".into()),
        ]
    );
    assert_eq!(finish_name(FinishReason::ContentFilter), "ContentFilter");
    assert_eq!(keep_count(100), 25);
    assert_eq!(keep_count(3), 1);
    let many: Vec<ChatMessage> = (0..8).map(|i| ChatMessage::User(format!("{i}"))).collect();
    assert_eq!(split_point(&many), 6);
    assert_eq!(split_point(&many[..3].to_vec()), 1);
    assert_eq!(split_point(&many[..2].to_vec()), 0);
    assert_eq!(summary_model("none", "usual"), "usual");
    assert_eq!(summary_model("small", "usual"), "small");
}

#[test]
fn a_compaction_keeps_two_complete_turns() {
    let mut messages = vec![ChatMessage::User("q".into())];
    for i in 0..3 {
        messages.push(ChatMessage::Assistant {
            content: format!("a{i}"),
            tool_calls: Vec::new(),
        });
        messages.push(ChatMessage::Tool {
            tool_call_id: format!("p{i}"),
            name: "bash".into(),
            content: "r".into(),
        });
    }
    assert_eq!(split_point(&messages), 3);
    assert_eq!(split_point(&messages[..5].to_vec()), 1);
    assert_eq!(split_point(&messages[..3].to_vec()), 0);
}

#[test]
fn only_large_outputs_are_pruned() {
    let large = "word ".repeat(4000);
    let messages = prune_messages(vec![
        ChatMessage::User(large.clone()),
        ChatMessage::Tool {
            tool_call_id: "p".into(),
            name: "bash".into(),
            content: large.clone(),
        },
        ChatMessage::Tool {
            tool_call_id: "q".into(),
            name: "bash".into(),
            content: "small".into(),
        },
    ]);
    assert_eq!(messages[0], ChatMessage::User(large.clone()));
    assert!(matches!(&messages[1], ChatMessage::Tool { content, .. } if content.len() < large.len()));
    assert!(estimate_message(&messages[1]) <= 808);
    assert!(matches!(&messages[2], ChatMessage::Tool { content, .. } if content == "small"));
}

struct Recorder {
    fails: bool,
}

impl PlatformEffects for Recorder {
    fn copy_to_clipboard(&self, text: &str) -> Result<(), String> {
        if self.fails {
            Err(format!("no clipboard for {text}"))
        } else {
            Ok(())
        }
    }

    fn open_url(&self, url: &str) -> Result<(), String> {
        Err(format!("opened {url}"))
    }

    fn set_terminal_title(&self, title: &str) -> Result<(), String> {
        Err(format!("titled {title}"))
    }

    fn notify(&self, message: &str) {
        assert_eq!(message, "told");
    }
}

#[test]
fn effects_reach_the_platform() {
    let platform = Recorder { fails: true };
    let apply = |effect: AppEffect| apply_effect(&platform, &effect);
    assert_eq!(apply(AppEffect::Draw), Ok(()));
    assert_eq!(
        apply(AppEffect::CopyToClipboard("t".into())),
        Err("no clipboard for t".into())
    );
    assert_eq!(
        apply(AppEffect::OpenUrl("HTTPS://x".into())),
        Err("opened HTTPS://x".into())
    );
    assert_eq!(
        apply(AppEffect::OpenUrl("file:///x".into())),
        Err("仅支持 http/https 链接，已拒绝打开：file:///x".into())
    );
    assert_eq!(
        apply(AppEffect::SetTerminalTitle("t".into())),
        Err("titled t".into())
    );
    assert!(apply(AppEffect::OpenFilePicker { filter: None }).is_err());
    assert_eq!(apply(AppEffect::Notify("told".into())), Ok(()));
    assert_eq!(
        apply_effect(
            &Recorder { fails: false },
            &AppEffect::CopyToClipboard("t".into())
        ),
        Ok(())
    );
    assert!(may_open(" http://x"));
    assert!(!may_open("ftp://x"));
}

#[test]
fn a_dialogue_remembers_what_failed_and_what_was_asked() {
    let mut dialogue = Dialogue::new();
    assert!(!dialogue.submit());
    let asked = Some(AwaitingInput {
        text: "which?".into(),
        questions: Vec::new(),
    });
    dialogue.run_ended("m", CompletionReason::AwaitingUserInput, &asked);
    assert!(dialogue.last_failed.is_none());
    assert!(dialogue.submit());
    assert!(!dialogue.submit());
    dialogue.run_ended("m", CompletionReason::ProviderInterrupted, &None);
    assert!(dialogue.discards_before_retry());
    assert_eq!(
        dialogue
            .retry_ended("m", CompletionReason::ProviderUnavailable)
            .as_deref(),
        Some("⚠ 重试未成功（模型不可用）；可再次 /retry 或重新发送")
    );
    assert!(!dialogue.discards_before_retry());
    assert_eq!(dialogue.retry_ended("m", CompletionReason::Stop), None);
    assert!(dialogue.last_failed.is_none());
    dialogue.run_failed("n");
    assert_eq!(dialogue.last_failed.as_ref().unwrap().message, "n");
    dialogue.session_changed();
    assert!(dialogue.last_failed.is_none());
    assert!(run_failure_line("boom").ends_with("boom"));
}

#[test]
fn names_and_texts_are_taken_apart() {
    assert_eq!(
        session_file_name(SessionId(0)),
        "00000000-0000-0000-0000-000000000000.jsonl"
    );
    assert_eq!(help_lines().len(), slash_commands().len());
    assert_eq!(help_lines()[0].0, slash_commands()[0].name);
    assert_eq!(behind("a: b: c", ": ").as_deref(), Some("b: c"));
    assert_eq!(ahead("a: b: c", ": ").as_deref(), Some("a"));
    assert_eq!(strip_prefix("/help", "/").as_deref(), Some("help"));
    assert_eq!(strip_prefix("help", "/"), None);
    assert_eq!(trim_start(" \u{3000}a "), "a ");
    assert_eq!(trim_end(" a\t"), " a");
    assert_eq!(lower("ABCÄ"), "abcÄ");
    assert_eq!(take("中文字", 2), "中文");
    assert_eq!(skip("..exe", '.'), "exe");
    assert_eq!(
        capture_script("n"),
        "printf '\\n__TPI_CAPTURE_BEGIN_n__\\n'; printf '%s\\n' \"$PWD\"; env; printf '__TPI_CAPTURE_END_n__\\n'"
    );
    assert_eq!(
        rejected("c", "d").model_payload.output,
        "status: rejected\ntool: bash\nerror: c\n\nd"
    );
    let step = VerifyStep::FileExists { path: "a".into() };
    assert_eq!(step.describe(), "file_exists: a");
    let ended = terminal_without_start(EndReason::Cancelled, Some("cmd-script"));
    assert_eq!(ended.exit_code, None);
    assert_eq!(ended.ended_by, EndReason::Cancelled);
    assert_eq!(ended.launcher, Some("cmd-script"));
}
