//! Processes: frames, launchers, tool servers and remote commands.
use tpi::mcp::error::error_code;
use tpi::mcp::error::McpError;
use tpi::mcp::error::McpErrorKind;
use tpi::process::resolver::build_cmd_launcher;
use tpi::remote::executor::parse_capture;
use tpi::remote::executor::push_tail;
use tpi::remote::executor::shell_quote;

#[test]
fn error_kinds_map_correctly() {
    assert_eq!(
        McpError::InvalidSchema("x".into()).kind(),
        McpErrorKind::InvalidArguments
    );
    assert_eq!(McpError::Timeout.kind(), McpErrorKind::Timeout);
    assert_eq!(
        McpError::ServerError {
            code: -32602,
            message: "bad".into()
        }
        .kind(),
        McpErrorKind::ExecutionFailed
    );
    assert_eq!(
        McpError::ProcessDied("crash".into()).kind(),
        McpErrorKind::Unavailable
    );
    assert_eq!(
        McpError::Transport("eof".into()).kind(),
        McpErrorKind::Unavailable
    );
    assert_eq!(
        McpError::Protocol("bad json".into()).kind(),
        McpErrorKind::Unavailable
    );
}

#[test]
fn error_codes_are_short_and_stable() {
    assert_eq!(error_code(&McpError::Timeout), "mcp_timeout");
    assert_eq!(
        error_code(&McpError::InvalidSchema("x".into())),
        "mcp_invalid_arguments"
    );
}

#[test]
fn cmd_launcher_keeps_arguments_individual() {
    let (program, args) = build_cmd_launcher(
        "C:\\tools\\script.cmd",
        &["a b".to_string(), "c".to_string()],
    );
    assert_eq!(program, "cmd.exe");
    assert_eq!(args[0], "/d");
    assert_eq!(args[2], "/c");
    assert!(args[3].contains("script.cmd"));
    assert!(args[3].contains("\"a b\""));
}

#[test]
fn a_script_is_started_with_one_quoted_line() {
    let (_, args) = build_cmd_launcher(
        "C:\\tools\\script.cmd",
        &["a b".to_string(), "c".to_string()],
    );
    assert_eq!(args[3], "\"\"C:\\tools\\script.cmd\" \"a b\" c\"");
    let (_, none) = build_cmd_launcher("s.cmd", &[]);
    assert_eq!(none[3], "\"\"s.cmd\"\"");
}

#[test]
fn parse_capture_splits_cwd_and_env() {
    let capture = b"/home/dev/project/src\nPATH=/usr/bin\nFOO=bar=baz\n";
    let (cwd, env) = parse_capture(capture);
    assert_eq!(cwd.as_deref(), Some("/home/dev/project/src"));
    assert_eq!(env.get("PATH"), Some("/usr/bin"));
    assert_eq!(env.get("FOO"), Some("bar=baz"), "值含 = 按第一个 = 分割");
}

#[test]
fn shell_quote_escapes_single_quotes() {
    assert_eq!(shell_quote("/home/dev/my dir"), "'/home/dev/my dir'");
    assert_eq!(shell_quote("a'b"), "'a'\\''b'");
}

#[test]
fn push_tail_keeps_tail_and_sets_truncated() {
    let mut body = String::new();
    let mut truncated = false;
    let big = vec![b'x'; 100];
    push_tail(&mut body, "stdout", &big, 10, &mut truncated);
    assert!(truncated);
    assert!(body.ends_with("xxxxxxxxxx"));
}
