//! The first configuration, old files, and whether everything is in place.
use tpi::config::Config;
use tpi::config::LimitsConfig;
use tpi::config::ModelConfig;
use tpi::config::ViewMode;
use tpi::doctor::doctor_report;
use tpi::doctor::render_report;
use tpi::doctor::DamagedLine;
use tpi::doctor::Directory;
use tpi::doctor::DoctorCheck;
use tpi::doctor::DoctorFacts;
use tpi::doctor::KeyBinding;
use tpi::doctor::KeyBindings;
use tpi::doctor::Probe;
use tpi::doctor::ProbeAction;
use tpi::doctor::ProbeEvent;
use tpi::ids::SessionId;
use tpi::maintenance::answer_or;
use tpi::maintenance::credential_status;
use tpi::maintenance::damage_notice;
use tpi::maintenance::entry_use;
use tpi::maintenance::file_stem;
use tpi::maintenance::is_yes;
use tpi::maintenance::lock_owner;
use tpi::maintenance::prune_notice;
use tpi::maintenance::render_initial_config;
use tpi::maintenance::repair_notice;
use tpi::maintenance::retention_cutoff;
use tpi::maintenance::session_list_head;
use tpi::maintenance::session_list_line;
use tpi::maintenance::is_left_alone;
use tpi::maintenance::should_prune;
use tpi::maintenance::token_of;
use tpi::maintenance::EntryKind;
use tpi::maintenance::EntryUse;
use tpi::maintenance::InitialAnswers;
use tpi::maintenance::Moment;
use tpi::maintenance::OldFile;
use tpi::maintenance::Walk;

fn answers(
    provider: &str,
    name: &str,
    base_url: &str,
    max_output: &str,
    context_window: &str,
    api_key_env: &str,
) -> InitialAnswers {
    InitialAnswers {
        provider: provider.into(),
        name: name.into(),
        base_url: base_url.into(),
        max_output: max_output.into(),
        context_window: context_window.into(),
        api_key_env: api_key_env.into(),
    }
}

#[test]
fn retention_cutoff_rejects_overflow() {
    let now = Moment {
        seconds: 1_700_000_000,
        nanos: 5,
    };
    assert!(retention_cutoff(now, u64::MAX).is_err());
}

#[test]
fn retention_goes_back_whole_days() {
    let now = Moment {
        seconds: 1_700_000_000,
        nanos: 5,
    };
    assert_eq!(
        retention_cutoff(now, 30).unwrap(),
        Moment {
            seconds: 1_700_000_000 - 30 * 86_400,
            nanos: 5
        }
    );
    assert_eq!(
        retention_cutoff(now, u64::MAX / 86_400).unwrap_err(),
        "天数超出系统时间范围"
    );
    assert_eq!(
        retention_cutoff(now, u64::MAX / 86_400 + 1).unwrap_err(),
        "天数过大"
    );
}

#[test]
fn init_config_escapes_strings_and_honors_custom_api_key_env() {
    let text = render_initial_config(&answers(
        "provider\"quoted",
        "model",
        "https://example.invalid/v1",
        "16384",
        "1000000",
        "CUSTOM_API_KEY",
    ))
    .unwrap();
    let parsed: toml::Value = toml::from_str(&text).unwrap();
    let primary = &parsed["model"]["primary"];
    assert_eq!(primary["provider"].as_str(), Some("provider\"quoted"));
    assert_eq!(primary["api_key_env"].as_str(), Some("CUSTOM_API_KEY"));
    assert_eq!(primary["max_output_tokens"].as_integer(), Some(16384));
    assert_eq!(primary["context_window"].as_integer(), Some(1_000_000));
}

#[test]
fn init_config_rejects_invalid_numbers_and_url_scheme() {
    assert!(
        render_initial_config(&answers("p", "m", "https://example.invalid", "x", "10", "K"))
            .is_err()
    );
    assert!(
        render_initial_config(&answers("p", "m", "file:///tmp/model", "1", "10", "K")).is_err()
    );
}

#[test]
fn init_config_says_what_is_wrong() {
    let fault = |a: InitialAnswers| render_initial_config(&a).unwrap_err();
    let url = "https://example.invalid";
    assert_eq!(
        fault(answers("p", "m", url, "4294967296", "10", "K")),
        "max_output_tokens 必须是 0..=4294967295 的整数"
    );
    assert_eq!(
        fault(answers("p", "m", url, "1", "-1", "K")),
        "context_window 必须是非负整数"
    );
    assert_eq!(
        fault(answers("p", "m", "no address", "1", "10", "K")),
        "base_url 无效: relative URL without a base"
    );
    assert_eq!(
        fault(answers("p", "m", "ftp://example.invalid", "1", "10", "K")),
        "base_url 只支持 http 或 https"
    );
    assert_eq!(
        fault(answers(" ", "m", url, "1", "10", "K")),
        "provider、model name 与 API key 环境变量名不能为空"
    );
    assert_eq!(
        fault(answers("p", "m", url, "1", "10", "A=B")),
        "API key 环境变量名不能包含空白或 `=`"
    );
    assert_eq!(
        fault(answers("p", "m", url, "11", "10", "K")),
        "token 上限必须大于 0，且 max_output_tokens 不能超过 context_window"
    );
    assert_eq!(
        fault(answers("p", "m", url, "0", "10", "K")),
        "token 上限必须大于 0，且 max_output_tokens 不能超过 context_window"
    );
}

#[test]
fn answers_are_trimmed() {
    assert_eq!(answer_or("  x \n", "d"), "x");
    assert_eq!(answer_or(" \n", "d"), "d");
    assert!(is_yes(" Y\r\n"));
    assert!(!is_yes("yes"));
    assert_eq!(token_of("abc \r\n").unwrap(), "abc ");
    assert_eq!(token_of("\r\n").unwrap_err(), "token 为空");
}

const ID: &str = "019fda3c-c299-7890-b9ab-4cc7f311475a";

fn old_file(name: &str, components: &[&str], seconds: i64) -> OldFile {
    OldFile {
        name: name.into(),
        components: components.iter().map(|s| s.to_string()).collect(),
        modified: Moment { seconds, nanos: 0 },
    }
}

#[test]
fn only_old_files_that_are_not_in_use_are_pruned() {
    let cutoff = Moment {
        seconds: 1000,
        nanos: 1,
    };
    let nobody = Vec::new();
    let active = vec![ID.to_string()];
    let name = format!("{ID}.jsonl");
    assert!(should_prune(&old_file(&name, &["/", "s"], 999), &nobody, cutoff));
    assert!(should_prune(&old_file(&name, &["/", "s"], 1000), &nobody, cutoff));
    assert!(!should_prune(&old_file(&name, &["/", "s"], 1001), &nobody, cutoff));
    assert!(!should_prune(&old_file(&name, &["/", "s"], 1), &active, cutoff));
    assert!(!should_prune(&old_file("x.bin", &["/", ID], 1), &active, cutoff));
    let lock = format!("{ID}.jsonl.lock");
    assert!(!should_prune(&old_file(&lock, &["/"], 1), &nobody, cutoff));
    assert!(is_left_alone(&lock, &Vec::new(), &nobody));
    assert!(is_left_alone(&name, &Vec::new(), &active));
    assert!(is_left_alone("x.bin", &active, &active));
    assert!(!is_left_alone("x.bin", &Vec::new(), &active));
    assert_eq!(lock_owner(&lock).as_deref(), Some(ID));
    assert_eq!(lock_owner("other.jsonl.lock"), None);
    assert_eq!(lock_owner(&name), None);
}

#[test]
fn stems_are_as_the_platform_has_them() {
    for name in ["a.b", "a", ".a", "a.", "..", ".", "a.b.c", ".a.b", "界.x"] {
        let expected = std::path::Path::new(name)
            .file_name()
            .and_then(|_| std::path::Path::new(name).file_stem())
            .and_then(|s| s.to_str())
            .unwrap_or(name);
        assert_eq!(file_stem(name), expected, "{name}");
    }
}

#[test]
fn walks_end_and_stay_inside() {
    let mut walk = Walk::new();
    for _ in 0..100_000 {
        assert!(walk.visit().is_ok());
    }
    assert_eq!(
        walk.visit().unwrap_err(),
        "清理扫描超过 100000 个目录项，已停止"
    );
    let kind = |leads_elsewhere: bool, is_dir: bool, is_file: bool| EntryKind {
        leads_elsewhere,
        is_dir,
        is_file,
        is_symlink: false,
    };
    assert_eq!(entry_use(kind(false, true, false)), EntryUse::Enter);
    assert_eq!(entry_use(kind(true, true, false)), EntryUse::Skip);
    assert_eq!(entry_use(kind(true, false, true)), EntryUse::Collect);
    assert_eq!(entry_use(kind(false, false, true)), EntryUse::Collect);
    assert_eq!(entry_use(kind(false, false, false)), EntryUse::Skip);
}

#[test]
fn notices_say_what_was_done() {
    assert_eq!(prune_notice(3, 30, true), "将删除 3 个文件（早于 30 天）");
    assert_eq!(
        prune_notice(3, 30, false),
        "已删除 3 个过期文件（早于 30 天）"
    );
    assert_eq!(damage_notice("s", 2), "会话 s 损坏（2 行）:");
    assert_eq!(
        repair_notice(1, 9, 0),
        "  已修复：隔离 1 行，重建 seq=9，合成 Interrupted=0\n"
    );
    assert_eq!(
        session_list_head(0),
        "当前 workspace 没有历史会话（首次提交消息后创建）"
    );
    assert_eq!(
        session_list_head(2),
        "2 个会话（按最近使用排序；--resume 可接完整 id 或唯一前缀）："
    );
    let id = SessionId::parse(ID).unwrap();
    assert_eq!(
        session_list_line(1, 1_700_000_000, 4, "", id),
        format!("1  2023-11-14 22:13  4 事件  (无标题)\n      id: {ID}")
    );
    assert_eq!(
        credential_status("p", true).unwrap(),
        "凭据已配置: p"
    );
    assert_eq!(
        credential_status("p", false).unwrap_err(),
        "未配置凭据: p（用 `tpi auth set p` 保存）"
    );
}

fn config() -> Config {
    Config {
        model: ModelConfig {
            provider: "test".into(),
            name: "m".into(),
            base_url: "https://example.invalid/v1".into(),
            reasoning: None,
            max_output_tokens: None,
            context_window: None,
            api_key_env: "TPI_TEST_API_KEY".into(),
            api_key: None,
        },
        limits: LimitsConfig::default(),
        workspace_root: "workspace".into(),
        sessions_root: "sessions".into(),
        artifacts_root: "artifacts".into(),
        shell_path: None,
        safety_reserve_tokens: 8192,
        auto_open_browser: false,
        web_summary_model: "none".into(),
        system_prompt_extra: None,
        source: "test".into(),
        ui_theme: "omp".into(),
        ui_mode: ViewMode::Fullscreen,
        allow_outside_workspace: true,
    }
}

fn directory(path: &str, writable: bool) -> Directory {
    Directory {
        path: path.into(),
        writable,
    }
}

fn healthy() -> DoctorFacts {
    DoctorFacts {
        home_config: "home/config.toml".into(),
        home_config_exists: false,
        workspace_config: "workspace/.tpi/config.toml".into(),
        workspace_config_exists: true,
        loaded: Ok(config()),
        env_key: Some("key".into()),
        stored_key: None,
        bash: Some("/bin/bash".into()),
        sessions: directory("home/sessions", true),
        artifacts: directory("home/artifacts", true),
        logs: directory("home/logs", true),
        code_page: None,
        workspace_writable: true,
        keys: KeyBindings {
            submit: bound_to("Enter"),
            insert_newline: bound_to("Shift+Enter"),
            escape: bound_to("Esc"),
        },
        damaged: Vec::new(),
    }
}

fn bound_to(keys: &str) -> KeyBinding {
    KeyBinding {
        bound: true,
        keys: keys.into(),
    }
}

fn check<'a>(report: &'a [DoctorCheck], name: &str) -> &'a DoctorCheck {
    report.iter().find(|check| check.name == name).unwrap()
}

#[test]
fn workspace_only_config_is_reported_as_present() {
    let report = doctor_report(&healthy());
    let config = check(&report, "config");
    let model = check(&report, "model");
    assert!(config.ok, "{config:?}");
    assert!(model.ok, "{model:?}");
    assert!(config.detail.contains("workspace"), "{}", config.detail);
}

#[test]
fn doctor_reports_corrupted_session_lines() {
    let mut facts = healthy();
    facts.damaged.push(DamagedLine {
        session: ID.into(),
        line: 2,
        reason: "expected value".into(),
    });
    let report = doctor_report(&facts);
    let sessions = check(&report, "session_integrity");
    assert!(!sessions.ok, "损坏 session 必须报错: {sessions:?}");
    assert!(
        sessions.detail.contains("tpi sessions repair"),
        "{}",
        sessions.detail
    );
    assert!(
        sessions.detail.contains("L2"),
        "应报告坏行行号: {}",
        sessions.detail
    );
}

#[test]
fn a_healthy_environment_has_no_complaints() {
    let report = doctor_report(&healthy());
    assert_eq!(report.len(), 10);
    assert!(report.iter().all(|check| check.ok));
    let text = render_report(&healthy());
    assert!(text.starts_with("TPI 环境检查\n✓ config：workspace/.tpi/config.toml 存在\n"));
    assert!(text.contains("✓ git_bash：/bin/bash （自动探测）\n"));
    assert!(text.contains("✓ keymap：submit: Enter · insert_newline: Shift+Enter · escape: Esc\n"));
}

#[test]
fn every_fault_is_told() {
    let mut facts = healthy();
    facts.workspace_config_exists = false;
    facts.loaded = Err("no model".into());
    facts.bash = None;
    facts.sessions = directory("s", false);
    facts.code_page = Some(936);
    facts.workspace_writable = false;
    facts.keys.escape.bound = false;
    for line in 1..=6 {
        facts.damaged.push(DamagedLine {
            session: "s".into(),
            line,
            reason: "r".into(),
        });
    }
    let report = doctor_report(&facts);
    assert_eq!(report.len(), 11);
    assert_eq!(
        check(&report, "config").detail,
        "home/config.toml 与 workspace/.tpi/config.toml 均不存在（运行 `tpi init` 生成用户配置）"
    );
    assert_eq!(check(&report, "model").detail, "no model");
    assert_eq!(
        check(&report, "api_key").detail,
        "未找到 API key：设置 TPI_API_KEY 或用 `tpi auth set <provider>`"
    );
    assert!(!check(&report, "git_bash").ok);
    assert_eq!(check(&report, "sessions").detail, "s 不可用");
    assert_eq!(
        check(&report, "console").detail,
        "控制台输出代码页 = 936（中文系统可能显示乱码，重启后 TPI 会自动切换）"
    );
    assert!(!check(&report, "workspace").ok);
    assert_eq!(
        check(&report, "keymap").detail,
        "submit: Enter · insert_newline: Shift+Enter · escape: Esc（关键动作缺失，已回退默认键）"
    );
    assert_eq!(
        check(&report, "session_integrity").detail,
        "6 个坏行（`tpi sessions repair` 修复）:\n  s L1: r\n  s L2: r\n  s L3: r\n  s L4: r\n  s L5: r\n  …等 6 条"
    );
}

#[test]
fn probes_use_new_names_and_give_up() {
    let mut probe = Probe::new();
    let mut names = Vec::new();
    let mut action = probe.next_name();
    loop {
        match action {
            ProbeAction::Make(name) => {
                assert!(name.starts_with(".tpi-write-probe-"));
                assert!(!names.contains(&name));
                names.push(name);
                action = probe.seen(ProbeEvent::Taken);
            }
            ProbeAction::NotWritable(error) => {
                assert_eq!(error, "could not allocate a unique write probe");
                break;
            }
            ProbeAction::Writable => panic!("nothing was written"),
        }
    }
    assert_eq!(names.len(), 4);
    let mut probe = Probe::new();
    probe.next_name();
    assert_eq!(probe.seen(ProbeEvent::Written), ProbeAction::Writable);
    assert_eq!(
        probe.seen(ProbeEvent::Failed("full".into())),
        ProbeAction::NotWritable("full".into())
    );
}
