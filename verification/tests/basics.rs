//! Texts, bytes, times, names and documents.
use tpi::agent::accumulate_usage;
use tpi::agent::compaction::covered_range;
use tpi::agent::compaction::plan_compaction;
use tpi::agent::compaction::read_summary;
use tpi::agent::compaction::CompactionFailure;
use tpi::agent::interrupt_cause;
use tpi::agent::is_transient_transport_error;
use tpi::agent::limits::run_wall_seconds;
use tpi::agent::limits::warn_after;
use tpi::agent::limits::watchdog_seconds;
use tpi::agent::project::project_live_event;
use tpi::agent::project::tool_target;
use tpi::agent::AgentOutcome;
use tpi::agent::AwaitingInput;
use tpi::agent::LiveEvent;
use tpi::agent::RuntimeEvent;
use tpi::app::headless::exit_code_for;
use tpi::app::headless::final_json;
use tpi::app::headless::headless_output;
use tpi::app::headless::json_event;
use tpi::bytes::cut;
use tpi::bytes::from_le;
use tpi::bytes::size;
use tpi::bytes::to_le;
use tpi::clock::fmt_session_datetime;
use tpi::clock::fmt_time_short;
use tpi::config::LimitsConfig;
use tpi::context::should_compact;
use tpi::context::truncate_line;
use tpi::context::usable_input;
use tpi::digest::digest;
use tpi::digest::digest_bytes;
use tpi::ids::fresh_nonce;
use tpi::ids::EventId;
use tpi::ids::RunId;
use tpi::ids::SessionId;
use tpi::ids::ToolCallId;
use tpi::json::canonical;
use tpi::json::is_json;
use tpi::json::text_field;
use tpi::message::first_text;
use tpi::message::ChatMessage;
use tpi::message::DomainContentBlock;
use tpi::message::DomainMessage;
use tpi::message::DomainRole;
use tpi::order::at_most;
use tpi::order::sort;
use tpi::plan::plan_snapshot;
use tpi::provider::trace::enabled;
use tpi::provider::trace::include_body;
use tpi::provider::trace::trace_line;
use tpi::provider::FinishReason;
use tpi::provider::ProviderError;
use tpi::session::CompletionReason;
use tpi::session::InterruptCause;
use tpi::session::Usage;
use tpi::text::decimal;
use tpi::text::join;
use tpi::text::lines;
use tpi::text::parse_unsigned;
use tpi::text::replace;
use tpi::text::signed;
use tpi::text::split;
use tpi::text::split_once;
use tpi::text::trim;
use tpi::text::words;
use tpi::tool::BuiltinTool;

#[test]
fn texts_are_taken_apart_as_std_does() {
    for text in ["", "a", "a\n", "a\r\nb", "\n\n", "a\rb\n", "界\n面"] {
        let expected: Vec<&str> = text.lines().collect();
        assert_eq!(lines(text), expected, "{text:?}");
    }
    for text in ["", "  a  b ", "\u{3000}x\u{85}y", "a\tb\nc"] {
        let expected: Vec<&str> = text.split_whitespace().collect();
        assert_eq!(words(text), expected, "{text:?}");
        assert_eq!(trim(text), text.trim(), "{text:?}");
    }
    for text in ["", ":", "a:b:c", "::"] {
        let expected: Vec<&str> = text.split(':').collect();
        assert_eq!(split(text, ':'), expected, "{text:?}");
    }
    assert_eq!(
        split_once("a=b=c", '='),
        Some(("a".to_string(), "b=c".to_string()))
    );
    assert_eq!(split_once("abc", '='), None);
    assert_eq!(replace("aXbX", "X", "--"), "a--b--");
    assert_eq!(join(&vec!["a".into(), "b".into()], ", "), "a, b");
}

#[test]
fn numbers_are_written_and_read() {
    for n in [0u128, 7, 10, 12345, u128::MAX] {
        assert_eq!(decimal(n), n.to_string());
    }
    for n in [0i64, -1, i64::MIN, i64::MAX] {
        assert_eq!(signed(n), n.to_string());
    }
    for text in ["", "0", "+7", "-1", "18446744073709551615", "18446744073709551616", "1x"] {
        assert_eq!(parse_unsigned(text, u64::MAX), text.parse::<u64>().ok(), "{text}");
    }
}

#[test]
fn bytes_are_cut_between_characters() {
    assert_eq!(size("a界"), 4);
    assert_eq!(cut("a界b", 3), "a");
    assert_eq!(cut("a界b", 4), "a界");
    assert_eq!(to_le(0x0102_0304), vec![4, 3, 2, 1]);
    assert_eq!(from_le(&[9, 4, 3, 2, 1], 1), 0x0102_0304);
}

#[test]
fn texts_are_sorted() {
    let list = vec!["b".to_string(), "a".into(), "ab".into(), "a".into()];
    let mut expected = list.clone();
    expected.sort();
    assert_eq!(sort(list), expected);
    assert!(at_most("a", "a"));
    assert!(!at_most("b", "ab"));
}

#[test]
fn digests_are_those_of_blake3() {
    let hex = blake3::hash(b"abc").to_hex().to_string();
    assert_eq!(digest("abc", 16), &hex[..16]);
    assert_eq!(digest_bytes(&b"abc".to_vec()), hex);
}

#[test]
fn documents_are_read() {
    assert_eq!(text_field("{\"a\": \"x\"}", "a").as_deref(), Some("x"));
    assert_eq!(text_field("{\"a\": 1}", "a"), None);
    assert_eq!(text_field("nope", "a"), None);
    assert_eq!(canonical("{ \"b\":1, \"a\": [true] }"), "{\"a\":[true],\"b\":1}");
    assert_eq!(canonical("nope"), "nope");
    assert!(is_json("[]"));
    assert!(!is_json("["));
}

#[test]
fn identifiers_are_new_and_read_back() {
    let a = RunId::new_v7();
    let b = RunId::new_v7();
    assert_ne!(a, b);
    assert_eq!(RunId::parse(&a.to_text()), Some(a));
    assert_eq!(a.to_text().as_bytes()[14], b'7');
    assert_eq!(
        SessionId::from_u128(1).to_text(),
        "00000000-0000-0000-0000-000000000001"
    );
    assert_eq!(SessionId::parse("x"), None);
    let nonce = fresh_nonce();
    assert_eq!(nonce.len(), 32);
    assert!(!nonce.contains('-'));
    assert_ne!(nonce, fresh_nonce());
}

#[test]
fn times_are_shown_in_utc() {
    assert_eq!(fmt_time_short(0), "01-01 00:00");
    assert_eq!(fmt_session_datetime(1_700_000_000), "2023-11-14 22:13");
}

#[test]
fn messages_are_carried_over_and_back() {
    let messages = vec![
        ChatMessage::User("hi".into()),
        ChatMessage::System("s".into()),
        ChatMessage::Tool {
            tool_call_id: "c".into(),
            name: "read".into(),
            content: "x".into(),
        },
    ];
    for message in messages {
        let domain = DomainMessage::from(&message);
        assert_eq!(ChatMessage::from(&domain), message);
    }
    let text = DomainMessage::text(DomainRole::User, "t".into());
    assert_eq!(first_text(&text.content).as_deref(), Some("t"));
    assert_eq!(first_text(&Vec::<DomainContentBlock>::new()), None);
}

#[test]
fn contexts_leave_room() {
    assert_eq!(usable_input(1000, 200, 100), 700);
    assert_eq!(usable_input(100, 200, 100), 0);
    assert!(should_compact(11, 10));
    assert!(!should_compact(10, 10));
    let line = truncate_line(&"x".repeat(300), 256);
    assert!(line.contains("line truncated"));
    assert_eq!(truncate_line("short", 256), "short");
}

#[test]
fn compactions_keep_whole_turns() {
    let mut messages = Vec::new();
    for i in 0..10 {
        messages.push(ChatMessage::User(format!("q{i}")));
        messages.push(ChatMessage::Assistant {
            content: format!("a{i}"),
            tool_calls: Vec::new(),
        });
    }
    let plan = plan_compaction(&messages);
    assert!(plan.split > 0 && plan.split < messages.len());
    assert_eq!(plan.history.len() + plan.recent.len(), messages.len());
    assert_eq!(plan.recent[0], messages[plan.split]);
    let refused = read_summary(&plan.history, "nothing".into(), FinishReason::Stop, 0);
    assert!(matches!(
        refused,
        Err(CompactionFailure::SummaryInvalid { raw }) if raw.contains("nothing")
    ));
    let range = covered_range(10, 1, 2, &vec![1, 5]).unwrap();
    assert_eq!(range.start, EventId::from_u128(1));
    assert_eq!(range.end, EventId::from_u128(5));
    let all = covered_range(10, 0, 5, &vec![1, 5]).unwrap();
    assert_eq!(all.end, EventId::from_u128(11));
    assert!(matches!(
        covered_range(u64::MAX, 0, 0, &Vec::new()),
        Err(CompactionFailure::Session(text)) if text == "session seq 已耗尽"
    ));
}

#[test]
fn failures_are_told_apart() {
    assert_eq!(
        interrupt_cause(&ProviderError::Connection("x".into())),
        InterruptCause::Connection
    );
    assert_eq!(
        interrupt_cause(&ProviderError::RateLimited("x".into())),
        InterruptCause::RateLimited
    );
    assert!(is_transient_transport_error(&ProviderError::Connection(
        "x".into()
    )));
    assert!(!is_transient_transport_error(&ProviderError::Auth("x".into())));
}

#[test]
fn usage_is_added_up() {
    let usage = |n: u64| Usage {
        input_tokens: n,
        output_tokens: n,
        cache_read_tokens: n,
    };
    let mut total = usage(3);
    accumulate_usage(&mut total, usage(4));
    assert_eq!(total, usage(7));
    accumulate_usage(&mut total, usage(u64::MAX));
    assert_eq!(total, usage(u64::MAX));
}

#[test]
fn wall_time_is_limited() {
    let limits = LimitsConfig::default();
    assert_eq!(watchdog_seconds(&limits), 45 * 60);
    assert_eq!(run_wall_seconds(&limits), Some(45 * 60));
    let mut none = limits;
    none.max_wall_time_minutes = 0;
    assert_eq!(run_wall_seconds(&none), None);
    assert!(warn_after(100) < 100);
}

#[test]
fn events_are_shown_in_short() {
    let (target, command) = tool_target("bash", "{\"command\": \"ls -l\"}");
    assert!(target.contains("ls -l"));
    assert_eq!(command.as_deref(), Some("ls -l"));
    let shown = project_live_event(LiveEvent::ToolStarted {
        call_id: ToolCallId::from_u128(1),
        name: "read".into(),
        arguments: "{\"path\": \"a.rs\"}".into(),
    });
    assert!(matches!(
        shown,
        RuntimeEvent::ToolStarted { target, .. } if target == "read a.rs"
    ));
    let told = json_event(&LiveEvent::StepStarted { step: 2 });
    assert_eq!(told.kind, "step_started");
    assert_eq!(told.step, Some(2));
    assert_eq!(json_event(&LiveEvent::BudgetWarning).kind, "notice");
    assert_eq!(exit_code_for(&CompletionReason::Stop), 0);
    assert_eq!(exit_code_for(&CompletionReason::Cancelled), 130);
    assert_eq!(exit_code_for(&CompletionReason::MaxTurns), 1);
}

#[test]
fn runs_without_a_screen_are_told() {
    let outcome = |reason: CompletionReason| AgentOutcome {
        reason,
        usage: Usage {
            input_tokens: 0,
            output_tokens: 0,
            cache_read_tokens: 0,
        },
        messages: Vec::new(),
        assistant_text: "done".into(),
        awaiting_input: None,
    };
    let events = vec![LiveEvent::StepStarted { step: 1 }, LiveEvent::BudgetWarning];
    let output = headless_output(&events, outcome(CompletionReason::Stop), "s.jsonl").unwrap();
    let kinds: Vec<&str> = output.events.iter().map(|e| e.kind).collect();
    assert_eq!(kinds, vec!["step_started", "notice"]);
    let mut waiting = outcome(CompletionReason::AwaitingUserInput);
    waiting.awaiting_input = Some(AwaitingInput {
        text: "which?".into(),
        questions: Vec::new(),
    });
    let asked = headless_output(&events, waiting, "s.jsonl").unwrap();
    assert_eq!(asked.events.len(), 3);
    assert_eq!(asked.events[2].kind, "input_requested");
    assert_eq!(asked.events[2].delta.as_deref(), Some("which?"));
    let last = final_json(&output.outcome);
    assert_eq!(last.kind, "run_completed");
    assert_eq!(last.reason.as_deref(), Some("Stop"));
    assert_eq!(last.assistant_text.as_deref(), Some("done"));
    assert_eq!(
        headless_output(&events, outcome(CompletionReason::Error), "s.jsonl").unwrap_err(),
        "run 以 Error 结束（长度限制/内容过滤/协议错误）；session 记录: s.jsonl"
    );
}

#[test]
fn traces_are_asked_for() {
    assert!(!enabled(None));
    assert!(enabled(Some("1")));
    assert!(!include_body(Some("1")));
    assert!(include_body(Some("full")));
    assert!(include_body(Some("body")));
    assert!(!enabled(Some("0")));
}

#[test]
fn a_trace_is_a_line_of_json() {
    let fields = vec![
        ("status".to_string(), serde_json::Value::from(200u64)),
        ("kind".to_string(), serde_json::Value::Bool(true)),
    ];
    assert_eq!(
        trace_line("response_status", fields, 7),
        "{\"kind\":\"response_status\",\"status\":200,\"ts_ms\":7}\n"
    );
    assert_eq!(trace_line("x", Vec::new(), 0), "{\"kind\":\"x\",\"ts_ms\":0}\n");
}

#[test]
fn tools_have_names() {
    assert_eq!(BuiltinTool::from_name("read"), Some(BuiltinTool::Read));
    assert_eq!(BuiltinTool::from_name("nope"), None);
    assert_eq!(BuiltinTool::RequestInput.name(), "request_input");
    assert!(BuiltinTool::Edit.requires_write_ahead());
    assert!(!BuiltinTool::Read.requires_write_ahead());
    assert_eq!(plan_snapshot(None), "");
}
