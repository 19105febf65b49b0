//! Configuration files and what they come to together.
use tpi::config::merge;
use tpi::config::AgentFile;
use tpi::config::AgentLimitsFile;
use tpi::config::ConfigFile;
use tpi::config::ContextFile;
use tpi::config::ShellFile;

#[test]
fn merge_is_field_level_not_block_level() {
    let home = ConfigFile {
        agent: AgentFile {
            allow_outside_workspace: None,
            limits: Some(AgentLimitsFile {
                max_model_turns: Some(100),
                max_tool_calls: Some(200),
                max_wall_time_minutes: None,
                max_parallel_tools: None,
                max_identical_no_progress: None,
            }),
        },
        ..ConfigFile::default()
    };
    let workspace = ConfigFile {
        agent: AgentFile {
            allow_outside_workspace: None,
            limits: Some(AgentLimitsFile {
                max_model_turns: None,
                max_tool_calls: None,
                max_wall_time_minutes: None,
                max_parallel_tools: Some(2),
                max_identical_no_progress: None,
            }),
        },
        ..ConfigFile::default()
    };
    let merged = merge(home, workspace);
    let limits = merged.agent.limits.expect("limits present");
    assert_eq!(
        limits.max_model_turns,
        Some(100),
        "home 的 max_model_turns 不得被 workspace 的整块覆盖丢弃"
    );
    assert_eq!(limits.max_tool_calls, Some(200));
    assert_eq!(limits.max_parallel_tools, Some(2));
}

#[test]
fn shell_and_context_merge_field_level() {
    let home = ConfigFile {
        shell: ShellFile {
            kind: Some("git-bash".into()),
            path: Some(r"C:\git\bash.exe".into()),
        },
        context: ContextFile {
            safety_reserve_tokens: Some(4096),
        },
        ..ConfigFile::default()
    };
    let workspace = ConfigFile {
        shell: ShellFile {
            kind: None,
            path: Some(r"D:\bash.exe".into()),
        },
        ..ConfigFile::default()
    };
    let merged = merge(home, workspace);
    assert_eq!(merged.shell.kind.as_deref(), Some("git-bash"));
    assert_eq!(merged.shell.path.as_deref(), Some(r"D:\bash.exe"));
    assert_eq!(
        merged.context.safety_reserve_tokens,
        Some(4096),
        "workspace 未设置 context 时 home 的值必须保留"
    );
}
