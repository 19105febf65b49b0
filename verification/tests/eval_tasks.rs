//! Tasks by which the agent is evaluated.
use tpi::agent::BudgetKind;
use tpi::agent::RunFailure;
use tpi::clock::event_time_ms;
use tpi::clock::millis;
use tpi::eval::stats::stats_from_events;
use tpi::eval::stats::EvalStats;
use tpi::eval::task::check_task_name;
use tpi::eval::task::eval_verdict;
use tpi::eval::task::list_suites;
use tpi::eval::task::order_tasks;
use tpi::eval::task::render_summary;
use tpi::eval::task::select_tasks;
use tpi::eval::task::task_line;
use tpi::eval::task::task_result;
use tpi::eval::task::Expected;
use tpi::eval::task::TaskEntry;
use tpi::eval::task::TaskRun;
use tpi::eval::verify::bash_candidates;
use tpi::eval::verify::judge;
use tpi::eval::verify::locate_bash;
use tpi::eval::verify::verification_passed;
use tpi::eval::verify::Observation;
use tpi::eval::verify::VerifyStep;
use tpi::ids::EventId;
use tpi::ids::ToolCallId;
use tpi::message::ToolCall;
use tpi::outcome::ModelPayload;
use tpi::outcome::StoredToolOutcome;
use tpi::outcome::ToolMetadata;
use tpi::outcome::ToolStatus;
use tpi::session::AssistantMessage;
use tpi::session::CompactSummary;
use tpi::session::CompletionReason;
use tpi::session::EventRange;
use tpi::session::ModelRef;
use tpi::session::RecoveryMetadata;
use tpi::session::RunLimits;
use tpi::session::SessionEvent;
use tpi::session::Usage;

fn failed(output: &str) -> StoredToolOutcome {
    StoredToolOutcome {
        status: ToolStatus::Failed,
        model_payload: ModelPayload {
            status: ToolStatus::Failed,
            program: None,
            exit_code: None,
            duration_ms: 0,
            output: output.into(),
            effect: None,
            artifact: None,
        },
        session_metadata: ToolMetadata::default(),
    }
}

#[test]
fn stats_count_events() {
    let mut events: Vec<(i128, SessionEvent)> = Vec::new();
    let mut ts = 1_000_000i128;
    let mut push = |event: SessionEvent| {
        ts += 1000;
        events.push((ts, event));
    };
    push(SessionEvent::UserSubmitted {
        content: "task".into(),
    });
    push(SessionEvent::RunStarted {
        model: ModelRef {
            name: "m".into(),
            provider: "p".into(),
        },
        limits: RunLimits {
            max_turns: 10,
            max_tool_calls: 20,
        },
    });
    let call = ToolCall {
        call_id: ToolCallId::new_v7(),
        provider_id: "p1".into(),
        name: "bash".into(),
        arguments: "{}".into(),
    };
    push(SessionEvent::ToolRequested { call: call.clone() });
    let edit_call = ToolCall {
        call_id: ToolCallId::new_v7(),
        provider_id: "p2".into(),
        name: "edit".into(),
        arguments: "{}".into(),
    };
    push(SessionEvent::ToolRequested {
        call: edit_call.clone(),
    });
    push(SessionEvent::ToolStarted {
        call_id: edit_call.call_id,
        recovery: Some(RecoveryMetadata {
            tool: "edit".into(),
            target_path: "a.rs".into(),
            expected_revision: String::new(),
            candidate_revision: None,
            temp_path: String::new(),
            backup_path: Some(String::new()),
        }),
    });
    push(SessionEvent::ToolCompleted {
        call_id: edit_call.call_id,
        outcome: failed("status: failed\nstale revision: x expected y"),
    });
    push(SessionEvent::ToolCompleted {
        call_id: call.call_id,
        outcome: failed("error: repeated_without_progress\n"),
    });
    push(SessionEvent::AssistantMessageCommitted {
        message: AssistantMessage {
            content: "ok".into(),
            tool_calls: vec![],
        },
    });
    push(SessionEvent::CompactionCommitted {
        covered: EventRange {
            start: EventId::new_v7(),
            end: EventId::new_v7(),
        },
        summary: CompactSummary { text: "s".into() },
    });
    push(SessionEvent::RunCompleted {
        reason: CompletionReason::Stop,
        usage: Usage {
            input_tokens: 100,
            output_tokens: 50,
            cache_read_tokens: 0,
        },
    });

    let stats = stats_from_events(&events);
    assert_eq!(stats.turns, 1);
    assert_eq!(stats.tool_calls, 2);
    assert_eq!(stats.bash_calls, 1);
    assert_eq!(stats.edit_calls, 1);
    assert_eq!(stats.repeated_actions, 1);
    assert_eq!(stats.edit_failures, 1);
    assert_eq!(stats.stale_failures, 1);
    assert_eq!(stats.compaction_count, 1);
    assert_eq!(stats.input_tokens, 100);
    assert_eq!(stats.output_tokens, 50);
    assert_eq!(stats.first_edit_time_ms, Some(4000));
}

#[test]
fn every_call_counts_as_one_thing() {
    let names = [
        "bash", "read", "list", "search", "edit", "write", "web_search", "web_fetch", "other",
    ];
    let mut events: Vec<(i128, SessionEvent)> = Vec::new();
    for name in names {
        events.push((
            0,
            SessionEvent::ToolRequested {
                call: ToolCall {
                    call_id: ToolCallId::new_v7(),
                    provider_id: "p".into(),
                    name: name.into(),
                    arguments: "{}".into(),
                },
            },
        ));
    }
    let stats = stats_from_events(&events);
    assert_eq!(stats.tool_calls, 9);
    assert_eq!(stats.search_calls, 2);
    assert_eq!(stats.other_calls, 1);
    assert_eq!(stats.web_search_calls, 1);
    assert_eq!(stats.web_fetch_calls, 1);
    assert_eq!(stats.first_edit_time_ms, None);
}

fn no_stats() -> EvalStats {
    stats_from_events(&Vec::new())
}

fn task(id: &str, suite: &str) -> TaskEntry {
    TaskEntry {
        id: id.into(),
        dir: format!("evals/{id}"),
        repo_dir: format!("evals/{id}/repo"),
        task_md: "do it".into(),
        expected: Expected {
            name: id.into(),
            suite: suite.into(),
            title: None,
            base_commit: None,
            timeout_sec: 900,
            verify: Vec::new(),
        },
    }
}

fn ids(tasks: &[TaskEntry]) -> Vec<&str> {
    tasks.iter().map(|t| t.id.as_str()).collect()
}

#[test]
fn tasks_are_ordered_and_suites_listed_once() {
    let tasks = order_tasks(vec![
        task("bbb-001", "ext"),
        task("aaa-001", "core"),
        task("ccc-001", ""),
        task("aaa-002", "core"),
    ]);
    assert_eq!(ids(&tasks), vec!["aaa-001", "aaa-002", "bbb-001", "ccc-001"]);
    assert_eq!(list_suites(&tasks), vec!["core", "ext"]);
    assert_eq!(task_line(&tasks[0]), "aaa-001 [core] (no title)");
    assert_eq!(task_line(&tasks[3]), "ccc-001 [-] (no title)");
}

#[test]
fn tasks_are_selected_by_name_or_suite() {
    let all = || vec![task("a", "core"), task("b", "ext"), task("c", "core")];
    let by_name = select_tasks(all(), &Some("b".into()), &None).unwrap();
    assert_eq!(ids(&by_name), vec!["b"]);
    let by_suite = select_tasks(all(), &None, &Some("core".into())).unwrap();
    assert_eq!(ids(&by_suite), vec!["a", "c"]);
    assert_eq!(
        select_tasks(all(), &Some("x".into()), &None).unwrap_err(),
        "任务 x 不存在（--list 查看）"
    );
    assert_eq!(
        select_tasks(all(), &None, &Some("x".into())).unwrap_err(),
        "套件 x 不存在（--list 查看）"
    );
    assert_eq!(
        select_tasks(all(), &None, &None).unwrap_err(),
        "请指定任务 ID 或 --suite（或 --list 查看全部任务）"
    );
}

#[test]
fn a_task_bears_the_name_of_its_directory() {
    assert!(check_task_name("a", "a", "p").is_ok());
    assert_eq!(
        check_task_name("a", "b", "p").unwrap_err(),
        "p: expected.toml 的 name 必须等于目录名（b）"
    );
}

fn bash(expect_exit: Option<i32>, out: &[&str], err: &[&str]) -> VerifyStep {
    VerifyStep::Bash {
        command: "cargo test".into(),
        expect_exit,
        expect_stdout_contains: out.iter().map(|s| s.to_string()).collect(),
        expect_stderr_contains: err.iter().map(|s| s.to_string()).collect(),
    }
}

fn ended(code: Option<i32>, stdout: &str, stderr: &str) -> Observation {
    Observation::Ended {
        code,
        stdout: stdout.into(),
        stderr: stderr.into(),
    }
}

#[test]
fn commands_are_judged_by_code_and_output() {
    let step = bash(None, &["ok"], &[]);
    let passed = judge(&step, &ended(Some(0), "all ok", ""));
    assert!(passed.passed);
    assert_eq!(passed.step, "bash: cargo test");
    assert_eq!(passed.detail, None);
    let failed = judge(&bash(Some(2), &["a\"b"], &["warn"]), &ended(Some(-1), "", ""));
    assert!(!failed.passed);
    assert_eq!(
        failed.detail.as_deref(),
        Some("exit code -1 != 2；stdout 缺少: \"a\\\"b\"；stderr 缺少: \"warn\"")
    );
    let unknown = judge(&step, &ended(None, "ok", ""));
    assert_eq!(unknown.detail.as_deref(), Some("未知错误"));
    let late = judge(&step, &Observation::TimedOut);
    assert_eq!(late.detail.as_deref(), Some("超时（>60s）"));
    let broken = judge(&step, &Observation::NotRun("启动失败: x".into()));
    assert_eq!(broken.detail.as_deref(), Some("启动失败: x"));
}

#[test]
fn files_are_judged_by_what_they_hold() {
    let exists = VerifyStep::FileExists {
        path: "src/main.rs".into(),
    };
    assert!(judge(&exists, &Observation::File(true)).passed);
    let missing = judge(&exists, &Observation::File(false));
    assert_eq!(missing.step, "file_exists: src/main.rs");
    assert_eq!(missing.detail.as_deref(), Some("文件不存在"));
    let holds = VerifyStep::FileContains {
        path: "src/main.rs".into(),
        contains: "fn main".into(),
    };
    assert!(judge(&holds, &Observation::Text("pub fn main() {}".into())).passed);
    let lacks = judge(&holds, &Observation::Text("".into()));
    assert_eq!(lacks.step, "file_contains: src/main.rs");
    assert_eq!(lacks.detail.as_deref(), Some("文件缺少内容: \"fn main\""));
    let unreadable = judge(&holds, &Observation::Unreadable("no".into()));
    assert_eq!(unreadable.detail.as_deref(), Some("读取失败: no"));
}

#[test]
fn results_are_summed_up() {
    let verify = vec![
        judge(
            &VerifyStep::FileExists { path: "a".into() },
            &Observation::File(true),
        ),
        judge(
            &VerifyStep::FileExists { path: "b".into() },
            &Observation::File(false),
        ),
    ];
    assert!(!verification_passed(&verify));
    assert!(verification_passed(&Vec::new()));
    let result = task_result(
        &task("t", ""),
        &TaskRun::Ended(CompletionReason::Stop),
        no_stats(),
        verify,
        1500,
        "s.jsonl".into(),
    );
    assert!(result.success);
    assert!(!result.verification_passed);
    assert_eq!(
        render_summary(&result),
        "task: t [-]\nrun:   SUCCESS (Stop)\nverify: FAILED (1/2)\n  [PASS] file_exists: a\n  [FAIL] file_exists: b — 文件不存在\nmetrics: turns=0 tools=0 bash=0 read=0 search=0 edit=0 write=0 web=0/0 repeats=0 edit_fail=0 stale=0 compact=0 first_edit=Nonems tokens=0/0 wall=1500ms\n"
    );
}

#[test]
fn runs_that_do_not_end_well_say_why() {
    let late = task_result(
        &task("t", "core"),
        &TaskRun::TimedOut,
        no_stats(),
        Vec::new(),
        0,
        String::new(),
    );
    assert!(!late.success);
    assert_eq!(late.reason, "timeout");
    assert_eq!(late.error.as_deref(), Some("评测超时"));
    assert!(render_summary(&late).ends_with("error: 评测超时\n"));
    let failed = task_result(
        &task("t", "core"),
        &TaskRun::Failed(RunFailure::BudgetExceeded(BudgetKind::MaxTurns)),
        no_stats(),
        Vec::new(),
        0,
        String::new(),
    );
    assert_eq!(failed.reason, "error:budget exceeded: max_turns");
    assert_eq!(failed.error.as_deref(), Some("budget exceeded: max_turns"));
    let stopped = task_result(
        &task("t", "core"),
        &TaskRun::Ended(CompletionReason::MaxTurns),
        no_stats(),
        Vec::new(),
        0,
        String::new(),
    );
    assert!(!stopped.success);
    assert_eq!(stopped.reason, "MaxTurns");
    assert_eq!(stopped.error, None);
}

#[test]
fn a_verdict_complains_only_of_failures() {
    let (line, verdict) = eval_verdict(2, 0);
    assert_eq!(line, "==== 汇总: pass=2 fail=0 ====");
    assert!(verdict.is_ok());
    let (_, verdict) = eval_verdict(0, 3);
    assert_eq!(verdict.unwrap_err(), "3 个 eval 任务失败");
}

#[test]
fn bash_is_looked_for_in_order() {
    let places = bash_candidates(&vec!["/usr/bin".to_string()]);
    assert_eq!(places.len(), 3);
    assert_eq!(places[0], "C:\\Program Files\\Git\\bin\\bash.exe");
    assert!(places[2].ends_with("bash.exe") && places[2].starts_with("/usr/bin"));
    assert_eq!(locate_bash(&places, &vec![false, true, true]), places[1]);
    assert_eq!(locate_bash(&places, &vec![false, false, false]), "bash");
}

#[test]
fn times_are_read_in_milliseconds() {
    assert_eq!(event_time_ms("1970-01-01T00:00:01.5Z"), 1500);
    assert_eq!(event_time_ms("1970-01-01T01:00:00+01:00"), 0);
    assert_eq!(event_time_ms("yesterday"), 0);
    assert_eq!(millis(Some(-1_999_999)), -1);
    assert_eq!(millis(Some(i128::MIN)), i128::MIN / 1_000_000);
    assert_eq!(millis(None), 0);
}
