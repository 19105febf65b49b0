//! Streams of a provider, hosts of processes, tool servers and remote shells.
use tpi::config::load;
use tpi::config::read_api_key;
use tpi::config::system_rules;
use tpi::config::tpi_home;
use tpi::config::ConfigFile;
use tpi::config::ConfigPaths;
use tpi::config::HomeChoice;
use tpi::config::PrimaryModelFile;
use tpi::config::ViewMode;
use tpi::mcp::config::load as load_servers;
use tpi::mcp::config::load_enabled;
use tpi::mcp::config::ServerEntry;
use tpi::mcp::error::McpError;
use tpi::mcp::manager::find_server;
use tpi::mcp::manager::internal_tool_name;
use tpi::mcp::manager::render_mcp_status;
use tpi::mcp::manager::started_notice;
use tpi::mcp::manager::tools_to_register;
use tpi::mcp::manager::Attempt;
use tpi::mcp::manager::McpManager;
use tpi::mcp::manager::McpServerStatus;
use tpi::mcp::manager::ServerState;
use tpi::outcome::ToolStatus;
use tpi::process::frame::check_start;
use tpi::process::frame::encode_frame;
use tpi::process::frame::read_frame;
use tpi::process::frame::FrameRead;
use tpi::process::frame::MSG_EXIT;
use tpi::process::frame::MSG_OUTPUT;
use tpi::process::frame::MSG_START;
use tpi::process::host::append_bounded;
use tpi::process::host::exit_frame_payload;
use tpi::process::host::may_start;
use tpi::process::host::EndReason;
use tpi::process::host::HostRun;
use tpi::process::host::IsolationError;
use tpi::process::host::OUTPUT_BUDGET;
use tpi::process::resolver::is_explicit;
use tpi::process::resolver::program_extensions;
use tpi::process::resolver::quote_cmd_arg;
use tpi::process::resolver::resolve;
use tpi::process::resolver::unix_candidates;
use tpi::process::resolver::windows_candidates;
use tpi::provider::openai_compat::classify_error;
use tpi::provider::openai_compat::classify_response;
use tpi::provider::openai_compat::classify_sse;
use tpi::provider::openai_compat::jitter_at;
use tpi::provider::openai_compat::Attempts;
use tpi::provider::openai_compat::ConsumeResult;
use tpi::provider::openai_compat::OpenAiCompatClient;
use tpi::provider::openai_compat::PromptTokensDetails;
use tpi::provider::openai_compat::RetryDecision;
use tpi::provider::openai_compat::SendOutcome;
use tpi::provider::openai_compat::SseAction;
use tpi::provider::openai_compat::SseChoice;
use tpi::provider::openai_compat::SseChunk;
use tpi::provider::openai_compat::SseDelta;
use tpi::provider::openai_compat::SseFunctionDelta;
use tpi::provider::openai_compat::SseToolCallDelta;
use tpi::provider::openai_compat::SseUsage;
use tpi::provider::openai_compat::StreamState;
use tpi::provider::request_replay::compare;
use tpi::provider::request_replay::RequestHeader;
use tpi::provider::request_replay::RequestManifest;
use tpi::provider::FinishReason;
use tpi::provider::ProviderError;
use tpi::provider::ProviderEvent;
use tpi::remote::command::Executed;
use tpi::remote::command::Meeting;
use tpi::remote::command::RemoteAction;
use tpi::remote::command::RemoteCommand;
use tpi::remote::command::RemoteRequest;
use tpi::remote::command::Stage;
use tpi::remote::executor::capture_script;
use tpi::remote::executor::check_command;
use tpi::remote::executor::remote_done;
use tpi::remote::executor::remote_failure;
use tpi::remote::executor::remote_script;
use tpi::remote::executor::Environment;
use tpi::remote::executor::RemoteFailure;
use tpi::remote::executor::RemoteResult;
use tpi::remote::executor::ShellState;

#[test]
fn read_frame_parses_tiny_output_frames() {
    let wire = [2u8, 0, 0, 0, MSG_OUTPUT, 0, b'x'];
    match read_frame(&wire, true) {
        FrameRead::Frame {
            kind,
            payload,
            used,
        } => {
            assert_eq!(kind, MSG_OUTPUT, "小帧 kind 必须保持 MSG_OUTPUT");
            assert_eq!(payload, vec![0, b'x'], "小帧 payload 不得丢失");
            assert_eq!(used, 7);
        }
        other => panic!("no frame: {other:?}"),
    }
}

#[test]
fn read_frame_rejects_truncated_header_but_accepts_clean_eof() {
    assert!(matches!(
        read_frame(&[1, 0], true),
        FrameRead::Broken(error) if error.contains("header truncated")
    ));
    assert!(matches!(read_frame(&[], true), FrameRead::Closed));
    assert!(matches!(read_frame(&[1, 0], false), FrameRead::More));
}

#[test]
fn frames_come_back_as_they_were_sent() {
    let bytes = encode_frame(MSG_EXIT, &[1, 2, 3, 4]).unwrap();
    for end in 0..bytes.len() {
        assert!(matches!(read_frame(&bytes[..end], false), FrameRead::More));
    }
    assert!(matches!(
        read_frame(&bytes, false),
        FrameRead::Frame { kind: MSG_EXIT, payload, used: 9 } if payload == vec![1, 2, 3, 4]
    ));
    assert!(check_start(MSG_START, 10).is_ok());
    assert!(check_start(MSG_EXIT, 10).is_err());
    assert_eq!(
        check_start(MSG_START, u32::MAX).unwrap_err(),
        "process-host: spec too large"
    );
}

#[test]
fn a_host_tells_output_and_end() {
    let mut run = HostRun::new(None);
    run.frame(MSG_OUTPUT, &[0, b'o', b'k']).unwrap();
    run.frame(MSG_OUTPUT, &[1, b'e']).unwrap();
    assert_eq!(
        run.frame(MSG_OUTPUT, &[9, b'e']).unwrap_err(),
        "invalid process-host stream id 9"
    );
    assert!(run.frame(MSG_OUTPUT, &[]).is_err());
    assert!(run.frame(MSG_EXIT, &[1]).is_err());
    assert!(run.frame(200, &[]).is_err());
    run.frame(MSG_EXIT, &exit_frame_payload(-3)).unwrap();
    let output = run.finish().unwrap();
    assert_eq!(output.exit_code, Some(-3));
    assert_eq!(output.stdout, b"ok");
    assert_eq!(output.stderr_total, 1);
    assert_eq!(output.ended_by, EndReason::Exited);
    assert_eq!(
        HostRun::new(None).finish().unwrap_err(),
        "process-host exited without an Exit frame"
    );
    let mut stopped = HostRun::new(None);
    assert!(stopped.stop(EndReason::TimedOut));
    assert!(!stopped.stop(EndReason::Cancelled));
    assert_eq!(stopped.finish().unwrap().ended_by, EndReason::TimedOut);
}

#[test]
fn only_the_end_of_an_output_is_kept() {
    let mut long = vec![b'a'; OUTPUT_BUDGET + 5];
    append_bounded(&mut long, b"");
    assert_eq!(long.len(), OUTPUT_BUDGET);
    let mut buffer = vec![b'a'; OUTPUT_BUDGET];
    append_bounded(&mut buffer, b"xyz");
    assert_eq!(buffer.len(), OUTPUT_BUDGET);
    assert!(buffer.ends_with(b"axyz"));
    assert!(may_start(false, true, None).is_ok());
    assert!(may_start(true, true, None).is_err());
    assert!(may_start(false, false, None).is_err());
    assert_eq!(
        IsolationError("x".into()).to_text(),
        "process isolation unavailable: x"
    );
}

#[test]
fn programs_are_looked_for() {
    assert_eq!(
        program_extensions(&Some(".EXE;;.Bat".into())),
        vec![".exe", ".bat"]
    );
    assert_eq!(program_extensions(&None).len(), 4);
    assert!(is_explicit("./a"));
    assert!(is_explicit("/bin/a"));
    assert!(!is_explicit("a"));
    let dirs = vec!["/usr/bin".to_string(), "/bin".to_string()];
    assert_eq!(unix_candidates("ls", &dirs), vec!["/usr/bin/ls", "/bin/ls"]);
    assert!(unix_candidates("/bin/ls", &dirs).is_empty());
    let windows = windows_candidates("tool", &vec![".exe".into()], &vec!["/d".into()]);
    assert_eq!(windows[0], "/d/tool.exe");
    let candidates = vec!["/d/tool.CMD".to_string(), "/e/tool".to_string()];
    let script = resolve("tool", &candidates, &vec![true, true], true);
    assert_eq!(script.path, "/d/tool.CMD");
    assert_eq!(script.launcher, Some("cmd-script"));
    let plain = resolve("tool", &candidates, &vec![false, true], true);
    assert_eq!(plain.path, "/e/tool");
    assert_eq!(plain.launcher, None);
    let unknown = resolve("tool", &candidates, &vec![false, false], true);
    assert_eq!(unknown.path, "tool");
    assert_eq!(quote_cmd_arg("a b"), "\"a b\"");
    assert_eq!(quote_cmd_arg("a\"b"), "\"a\\\"b\"");
    assert_eq!(quote_cmd_arg("ab"), "ab");
    assert_eq!(quote_cmd_arg(""), "\"\"");
}

fn delta(content: Option<&str>, tool_calls: Vec<SseToolCallDelta>) -> SseChunk {
    SseChunk {
        choices: vec![SseChoice {
            delta: SseDelta {
                content: content.map(|s| s.to_string()),
                reasoning_content: None,
                tool_calls,
            },
            finish_reason: None,
        }],
        usage: None,
    }
}

fn ending(reason: &str) -> SseChunk {
    SseChunk {
        choices: vec![SseChoice {
            delta: SseDelta {
                content: None,
                reasoning_content: None,
                tool_calls: Vec::new(),
            },
            finish_reason: Some(reason.into()),
        }],
        usage: Some(SseUsage {
            prompt_tokens: Some(100),
            completion_tokens: Some(50),
            prompt_tokens_details: Some(PromptTokensDetails {
                cached_tokens: Some(40),
            }),
        }),
    }
}

fn tool_part(id: Option<&str>, name: Option<&str>, arguments: &str) -> SseToolCallDelta {
    SseToolCallDelta {
        index: Some(0),
        id: id.map(|s| s.to_string()),
        function: Some(SseFunctionDelta {
            name: name.map(|s| s.to_string()),
            arguments: Some(arguments.into()),
        }),
    }
}

#[test]
fn a_stream_comes_to_a_response() {
    let mut state = StreamState::new();
    assert_eq!(
        state.apply_chunk(&delta(Some("hi"), Vec::new())),
        vec![ProviderEvent::TextDelta("hi".into())]
    );
    state.apply_chunk(&delta(
        None,
        vec![tool_part(Some("c1"), Some("read"), "{\"path\"")],
    ));
    state.apply_chunk(&delta(None, vec![tool_part(None, None, ": \"a\"}")]));
    state.apply_chunk(&ending("tool_calls"));
    match state.finish(true) {
        ConsumeResult::Complete(response) => {
            assert_eq!(response.finish_reason, FinishReason::ToolCalls);
            assert_eq!(response.usage.input_tokens, 100);
            assert_eq!(response.usage.output_tokens, 50);
            assert_eq!(response.usage.cache_read_tokens, 40);
            assert_eq!(response.tool_calls.len(), 1);
            assert_eq!(response.tool_calls[0].provider_id, "c1");
            assert_eq!(response.tool_calls[0].arguments, "{\"path\": \"a\"}");
        }
        other => panic!("no response: {other:?}"),
    }
}

#[test]
fn a_stream_that_brought_nothing_may_be_asked_for_again() {
    let state = StreamState::new();
    assert!(matches!(
        state.transport_failed("cut".into()),
        ConsumeResult::Failed {
            error: ProviderError::Connection(_),
            retryable: true
        }
    ));
    let mut state = StreamState::new();
    state.apply_chunk(&delta(Some("x"), Vec::new()));
    assert!(matches!(
        state.transport_failed("cut".into()),
        ConsumeResult::Failed {
            error: ProviderError::StreamInterrupted(_),
            retryable: false
        }
    ));
    assert!(matches!(
        state.finish(false),
        ConsumeResult::Failed { .. }
    ));
}

#[test]
fn events_and_answers_are_classified() {
    assert_eq!(classify_sse("ping", "x"), SseAction::Skip);
    assert_eq!(classify_sse("message", "  "), SseAction::Skip);
    assert_eq!(classify_sse("message", " [DONE] "), SseAction::Done);
    assert_eq!(classify_sse("message", "{}"), SseAction::Chunk);
    assert_eq!(
        classify_sse("error", "x"),
        SseAction::Fail(ProviderError::Protocol("x".into()))
    );
    assert_eq!(classify_response(200, None, ""), SendOutcome::Stream);
    assert_eq!(
        classify_response(429, Some("7"), ""),
        SendOutcome::Retryable {
            retry_after: Some(7)
        }
    );
    assert_eq!(
        classify_response(503, Some("soon"), ""),
        SendOutcome::Retryable { retry_after: None }
    );
    assert_eq!(
        classify_response(401, None, "secret"),
        SendOutcome::Refused("auth (401)".into())
    );
    assert_eq!(
        classify_response(404, None, "gone"),
        SendOutcome::Refused("http 404: gone".into())
    );
    assert_eq!(
        classify_error("cancelled".into(), 1),
        ProviderError::Cancelled
    );
    assert_eq!(
        classify_error("http 429: x".into(), 2),
        ProviderError::RateLimited("attempt 2: http 429: x".into())
    );
    assert_eq!(
        classify_error("x".into(), 0),
        ProviderError::Connection("attempt 0: x".into())
    );
    assert_eq!(
        ProviderError::Connection("x".into()).to_text(),
        "connection failed: x"
    );
    let client = OpenAiCompatClient::new(
        "https://example.invalid/v1/".into(),
        String::new(),
        "k".into(),
        None,
        None,
        None,
    );
    assert_eq!(client.url(), "https://example.invalid/v1/chat/completions");
}

#[test]
fn attempts_are_limited() {
    let jitter = jitter_at(5_000);
    assert_eq!(jitter, 100_000);
    assert_eq!(jitter_at(0), 60_000);
    let mut attempts = Attempts::new();
    let mut waits = Vec::new();
    loop {
        match attempts.send_failed("x".into(), jitter) {
            RetryDecision::Wait(wait) => waits.push(wait),
            RetryDecision::GiveUp(error) => {
                assert!(matches!(error, ProviderError::Connection(_)));
                break;
            }
        }
    }
    assert_eq!(waits[0], 500_000_000);
    assert_eq!(waits[1], 1_000_000_000);
    let mut attempts = Attempts::new();
    assert_eq!(
        attempts.send_failed("cancelled".into(), jitter),
        RetryDecision::GiveUp(ProviderError::Cancelled)
    );
    assert_eq!(
        attempts.asked_to_retry(Some(90), jitter),
        RetryDecision::Wait(90_000_000_000)
    );
    assert!(matches!(
        attempts.asked_to_retry(None, jitter),
        RetryDecision::GiveUp(ProviderError::RateLimited(_))
    ));
    let mut attempts = Attempts::new();
    assert!(matches!(
        attempts.stream_failed(ProviderError::Connection("x".into()), false, jitter),
        RetryDecision::GiveUp(_)
    ));
}

#[test]
fn drifts_show_both_sides() {
    let header = RequestHeader {
        model: "m".into(),
        role_sequence: vec!["user".into()],
        tool_schema_fingerprint: "f".into(),
        message_count: 1,
    };
    let manifest = RequestManifest::rebuild("m".into(), vec!["tool".into()], "f".into(), 2);
    let drifts = compare(&manifest, &header);
    assert_eq!(drifts.len(), 2);
    assert_eq!(drifts[0].field, "role_sequence");
    assert_eq!(drifts[0].expected, "[\"tool\"]");
    assert_eq!(drifts[0].actual, "[\"user\"]");
    assert_eq!(drifts[1].field, "message_count");
    assert_eq!(drifts[1].expected, "2");
    let roles = vec!["user".to_string(), "a\"b\n".to_string()];
    let several = RequestManifest::rebuild("m".into(), roles.clone(), "f".into(), 1);
    assert_eq!(compare(&several, &header)[0].expected, format!("{roles:?}"));
    let none = RequestManifest::rebuild("m".into(), Vec::new(), "f".into(), 1);
    assert_eq!(compare(&none, &header)[0].expected, "[]");
}

fn entry(name: &str, command: Option<&str>) -> ServerEntry {
    ServerEntry {
        name: name.into(),
        command: command.map(|s| s.to_string()),
        args: None,
        env: None,
        enabled: None,
        timeout_ms: None,
    }
}

#[test]
fn parses_servers_with_env_and_timeout() {
    let mut bevy = entry("bevy", Some("bevy_brp_mcp"));
    bevy.args = Some(vec!["--port".into(), "1234".into()]);
    bevy.enabled = Some(true);
    bevy.timeout_ms = Some(5000);
    let mut example = entry("example", None);
    example.env = Some(vec![("FOO".into(), "bar".into())]);
    let servers = load_servers(vec![example, bevy]);
    assert_eq!(servers.len(), 1, "example 缺 command 应跳过");
    let bevy = &servers[0];
    assert_eq!(bevy.name, "bevy");
    assert_eq!(bevy.command, "bevy_brp_mcp");
    assert_eq!(bevy.args, vec!["--port", "1234"]);
    assert!(bevy.enabled);
    assert_eq!(bevy.timeout_ms, 5000);
}

#[test]
fn disabled_server_filtered_by_load_enabled() {
    let entries = || {
        let mut b = entry("b", Some("cmd-b"));
        b.enabled = Some(false);
        vec![b, entry("a", Some("cmd-a"))]
    };
    let all = load_servers(entries());
    assert_eq!(all.len(), 2);
    let enabled = all.iter().filter(|s| s.enabled).count();
    assert_eq!(enabled, 1);
    assert_eq!(all[0].name, "a");
    let kept = load_enabled(entries());
    assert_eq!(kept.len(), 1);
    assert_eq!(kept[0].name, "a");
}

#[test]
fn missing_file_returns_empty() {
    assert!(load_servers(Vec::new()).is_empty());
}

#[test]
fn servers_are_shown_in_order() {
    let state = |name: &str, status: McpServerStatus| ServerState {
        name: name.into(),
        status,
    };
    let states = vec![
        state("a", McpServerStatus::Connected { tool_count: 3 }),
        state("b", McpServerStatus::Stopped),
        state("c", McpServerStatus::Failed("no".into())),
    ];
    assert_eq!(
        render_mcp_status(&states),
        "Server     Status            Tools\n---------  ----------------  -----\na          connected         3\nb          stopped           0\nc          failed            -\n  no\n"
    );
    assert!(render_mcp_status(&Vec::new()).starts_with("未配置 MCP server。"));
    assert_eq!(internal_tool_name("s", "t").as_deref(), Some("mcp::s::t"));
    assert_eq!(internal_tool_name("s", ""), None);
    assert_eq!(started_notice(0), None);
    assert_eq!(
        started_notice(2).as_deref(),
        Some("MCP: 2 个 server 已启动（/mcp 查看状态）")
    );
    let configs = load_servers(vec![entry("a", Some("x"))]);
    assert_eq!(find_server(&configs, "a").unwrap(), 0);
    assert!(matches!(
        find_server(&configs, "z"),
        Err(McpError::Protocol(text)) if text == "server z 未配置"
    ));
    assert_eq!(
        McpError::ServerError {
            code: -32602,
            message: "bad".into()
        }
        .to_text(),
        "MCP server 错误 (-32602): bad"
    );
}

#[test]
fn servers_are_started_and_ended() {
    let mut manager = McpManager::new();
    assert!(manager.statuses().is_empty());
    let names = tools_to_register("b", &vec!["x".into(), "".into(), "y".into()]);
    assert_eq!(names, vec!["mcp::b::x", "mcp::b::y"]);
    assert_eq!(
        manager
            .start_server("b".into(), Attempt::Registered(2))
            .unwrap(),
        2
    );
    assert_eq!(
        manager
            .start_server("a".into(), Attempt::Registered(1))
            .unwrap(),
        1
    );
    assert!(matches!(
        manager.start_server("c".into(), Attempt::Failed(McpError::Timeout)),
        Err(McpError::Timeout)
    ));
    assert!(matches!(
        manager.start_server("c".into(), Attempt::Refused("taken".into())),
        Err(McpError::Protocol(text)) if text == "taken"
    ));
    let running = |manager: &McpManager| -> Vec<(String, McpServerStatus)> {
        manager
            .statuses()
            .into_iter()
            .map(|s| (s.name, s.status))
            .collect()
    };
    assert_eq!(
        running(&manager),
        vec![
            ("a".into(), McpServerStatus::Connected { tool_count: 1 }),
            ("b".into(), McpServerStatus::Connected { tool_count: 2 }),
        ]
    );
    // A second start of the same server takes the place of the first.
    manager
        .start_server("b".into(), Attempt::Registered(5))
        .unwrap();
    assert_eq!(
        running(&manager)[1].1,
        McpServerStatus::Connected { tool_count: 5 }
    );
    let configs = load_servers(vec![entry("b", Some("x"))]);
    assert_eq!(manager.restart_server("b", &configs).unwrap(), 0);
    assert!(manager.restart_server("a", &configs).is_err());
    assert!(running(&manager).is_empty());
    manager
        .start_server("b".into(), Attempt::Registered(0))
        .unwrap();
    assert_eq!(manager.shutdown_all().len(), 1);
    assert!(manager.statuses().is_empty());
}

#[test]
fn remote_commands_are_framed() {
    let script = remote_script(
        &vec![("A".into(), "x y".into())],
        &vec!["B".into()],
        "/w",
        "ls",
        "n",
    );
    assert!(script.starts_with("export A='x y'; unset B; cd '/w'; ls\n__tpi_s=$?\n"));
    assert!(script.ends_with("\nexit $__tpi_s"));
    assert!(check_command("ls", 10, 100).is_none());
    assert!(check_command(" ", 10, 100)
        .unwrap()
        .model_payload
        .output
        .contains("empty_command"));
    assert!(check_command("ls", 0, 100)
        .unwrap()
        .model_payload
        .output
        .contains("timeout_ms 必须在 1..=100 范围内。"));
    assert_eq!(
        remote_failure(&RemoteFailure::TimedOut).status,
        ToolStatus::TimedOut
    );
    assert!(remote_failure(&RemoteFailure::Connect("no".into()))
        .model_payload
        .output
        .contains("ssh_connect_failed\n\nno"));
}

#[test]
fn remote_results_are_told() {
    let result = RemoteResult {
        stdout: b"caf\xc3".to_vec(),
        stderr: Vec::new(),
        exit_code: Some(0),
        duration_ms: 5,
    };
    let outcome = remote_done(&result, 100);
    assert_eq!(outcome.status, ToolStatus::Succeeded);
    assert!(outcome
        .model_payload
        .output
        .starts_with("status: succeeded\nprogram: ssh\nexit_code: 0\nduration_ms: 5\noutput: 4 bytes\n"));
    assert!(outcome.model_payload.output.contains("caf\u{fffd}"));
    let mut shell = remote_shell(false);
    shell.commit(&None, "/w", vec![("A".into(), "1".into())], Vec::new());
    assert_eq!(shell.version, 0);
    shell.commit(
        &Some("/v".into()),
        "/w",
        vec![("A".into(), "1".into())],
        Vec::new(),
    );
    assert_eq!(shell.cwd, "/v");
    assert_eq!(shell.version, 1);
    // Without the variables that the machine began with, there is nothing to tell them from.
    assert!(shell.set.is_empty());
    shell.begin_with(Environment::new());
    for _ in 0..2 {
        shell.commit(
            &Some("/v".into()),
            "/v",
            vec![("A".into(), "1".into())],
            vec!["B".into()],
        );
        assert_eq!(shell.version, 2);
        assert_eq!(shell.set, vec![("A".to_string(), "1".to_string())]);
        assert_eq!(shell.unset, vec!["B".to_string()]);
    }
    shell.commit(&Some("/v".into()), "/v", Vec::new(), Vec::new());
    assert_eq!(shell.version, 3);
    assert!(shell.set.is_empty());
    let mut env = Environment::new();
    env.insert("A".into(), "1".into());
    env.insert("A".into(), "2".into());
    assert_eq!(env.get("A"), Some("2"));
    assert_eq!(env.get("B"), None);
}

fn remote_request(cwd: Option<String>) -> RemoteRequest {
    RemoteRequest {
        command: "ls".into(),
        cwd,
        timeout_ms: 10,
    }
}

fn remote_shell(has_baseline: bool) -> ShellState {
    ShellState {
        cwd: "/w".into(),
        set: Vec::new(),
        unset: Vec::new(),
        baseline: if has_baseline {
            Some(Environment::new())
        } else {
            None
        },
        version: 0,
    }
}

fn remote_success() -> RemoteResult {
    RemoteResult {
        stdout: b"a".to_vec(),
        stderr: Vec::new(),
        exit_code: Some(0),
        duration_ms: 5,
    }
}

#[test]
fn a_remote_command_asks_for_the_variables_first() {
    let (mut command, action) = RemoteCommand::start(
        &remote_request(None),
        &remote_shell(false),
        false,
        100,
        "n",
        "m",
    )
    .unwrap();
    assert!(matches!(action, RemoteAction::Connect));
    assert_eq!(command.stage, Stage::MeetingFirst);
    match command.connection(Meeting::Accepted, true) {
        RemoteAction::Exec { script, timeout_ms } => {
            assert_eq!(script, capture_script("m"));
            assert_eq!(timeout_ms, None);
        }
        other => panic!("{:?}", other),
    }
    let asked = Executed::Done {
        result: remote_success(),
        capture: Some(b"/w\nA=1\n".to_vec()),
    };
    let (action, captured) = command.shell_answered(&asked, 100, true);
    let (cwd, variables) = captured.unwrap();
    assert_eq!(cwd, Some("/w".into()));
    assert_eq!(variables.get("A"), Some("1"));
    match action {
        RemoteAction::Exec { script, timeout_ms } => {
            assert!(script.starts_with("cd '/w'; ls\n__tpi_s=$?\n"));
            assert_eq!(timeout_ms, Some(10));
        }
        other => panic!("{:?}", other),
    }
    let done = Executed::Done {
        result: remote_success(),
        capture: None,
    };
    let (action, captured) = command.shell_answered(&done, 100, true);
    assert!(captured.is_none());
    assert_eq!(command.stage, Stage::Over);
    match action {
        RemoteAction::Finish(outcome) => assert_eq!(outcome.status, ToolStatus::Succeeded),
        other => panic!("{:?}", other),
    }
}

#[test]
fn a_remote_command_that_cannot_connect_fails() {
    let request = remote_request(Some("/v".into()));
    let (mut command, _) =
        RemoteCommand::start(&request, &remote_shell(false), false, 100, "n", "m").unwrap();
    assert_eq!(command.directory, "/v");
    let again = command.connection(Meeting::Failed("no".into()), false);
    assert!(matches!(again, RemoteAction::Connect));
    assert_eq!(command.stage, Stage::Meeting);
    match command.connection(Meeting::Undecided("Unknown".into()), false) {
        RemoteAction::Finish(outcome) => {
            assert_eq!(outcome.status, ToolStatus::Failed);
            assert!(outcome.model_payload.output.contains("ssh_host_key"));
            assert!(outcome.model_payload.output.contains("Unknown"));
        }
        other => panic!("{:?}", other),
    }
    let (mut command, action) =
        RemoteCommand::start(&request, &remote_shell(true), true, 100, "n", "m").unwrap();
    assert!(matches!(action, RemoteAction::Exec { .. }));
    let (action, _) = command.shell_answered(&Executed::Failed(RemoteFailure::Cancelled), 100, true);
    match action {
        RemoteAction::Finish(outcome) => assert_eq!(outcome.status, ToolStatus::Cancelled),
        other => panic!("{:?}", other),
    }
    assert!(RemoteCommand::start(&request, &remote_shell(true), true, 9, "n", "m").is_err());
}

fn paths() -> ConfigPaths {
    ConfigPaths {
        home_file: "home/config.toml".into(),
        workspace_file: "w/.tpi/config.toml".into(),
        workspace_root: "w".into(),
        sessions_root: "s".into(),
        artifacts_root: "a".into(),
    }
}

fn with_model(name: &str) -> ConfigFile {
    let mut file = ConfigFile::default();
    file.model.primary = Some(PrimaryModelFile {
        provider: "test".into(),
        name: name.into(),
        base_url: "https://example.invalid/v1".into(),
        reasoning: None,
        max_output_tokens: None,
        context_window: None,
        api_key_env: None,
        api_key: None,
    });
    file
}

#[test]
fn workspace_agents_md_is_injected() {
    let config = load(
        with_model("m"),
        ConfigFile::default(),
        None,
        paths(),
        None,
        Some("永远使用 LF 换行\n".into()),
    )
    .expect("load");
    let extra = config.system_prompt_extra.expect("AGENTS.md 必须注入");
    assert!(extra.contains("[project rule: AGENTS.md]"), "{extra}");
    assert!(extra.contains("LF 换行"), "{extra}");
}

#[test]
fn a_configuration_needs_a_model() {
    let none = load(
        ConfigFile::default(),
        ConfigFile::default(),
        None,
        paths(),
        None,
        None,
    );
    assert!(none.unwrap_err().starts_with("未配置模型：请在 home/config.toml 或 "));
    let mut workspace = with_model("w");
    workspace.ui.mode = Some("inline".into());
    let config = load(with_model("h"), workspace, None, paths(), None, None).unwrap();
    assert_eq!(config.model.name, "w");
    assert_eq!(config.source, "workspace w/.tpi/config.toml");
    assert_eq!(config.ui_mode, ViewMode::Inline);
    assert_eq!(config.safety_reserve_tokens, 8192);
    assert_eq!(config.model.api_key_env, "TPI_API_KEY");
    let chosen = load(
        with_model("h"),
        ConfigFile::default(),
        Some("x"),
        paths(),
        None,
        None,
    )
    .unwrap();
    assert_eq!(chosen.model.name, "x");
    assert_eq!(chosen.source, "cli --model");
}

#[test]
fn keys_and_homes_are_looked_for_in_order() {
    let config = load(
        with_model("h"),
        ConfigFile::default(),
        None,
        paths(),
        None,
        None,
    )
    .unwrap();
    let key = |env: Option<&str>, stored: Option<&str>| {
        read_api_key(
            &config.model,
            env.map(|s| s.to_string()),
            stored.map(|s| s.to_string()),
        )
    };
    assert_eq!(key(Some("e"), Some("s")).unwrap(), "e");
    assert_eq!(key(Some(""), Some("s")).unwrap(), "s");
    assert!(key(None, None).unwrap_err().contains("TPI_API_KEY"));
    assert_eq!(
        tpi_home(None, Some("u".into()), Some("h".into())),
        HomeChoice::Under("u".into())
    );
    assert_eq!(
        tpi_home(Some("g".into()), None, None),
        HomeChoice::Given("g".into())
    );
    assert_eq!(tpi_home(None, None, None), HomeChoice::Here);
    assert_eq!(
        system_rules(Some("g".into()), Some("p".into())).as_deref(),
        Some("g\n\n[project rule: AGENTS.md]\np")
    );
    assert_eq!(system_rules(Some(" ".into()), None), None);
}
