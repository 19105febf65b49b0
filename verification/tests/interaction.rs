//! What the user does and what comes of it.
use tpi::agent::AwaitingInput;
use tpi::agent::RequestInputQuestion;
use tpi::app::commands::handle_slash_command;
use tpi::app::commands::model_items;
use tpi::app::commands::sessions_notice;
use tpi::app::commands::step_line;
use tpi::app::commands::theme_items;
use tpi::app::commands::SessionInfo;
use tpi::app::commands::SlashFacts;
use tpi::app::commands::SlashStep;
use tpi::app::controller::AppController;
use tpi::app::controller::ServiceAction;
use tpi::app::effects::apply_effect;
use tpi::app::effects::platform_call;
use tpi::app::effects::PlatformCall;
use tpi::app::effects::PlatformEffects;
use tpi::app::intent::AppCommand;
use tpi::app::intent::AppEffect;
use tpi::app::intent::IntentSource;
use tpi::app::intent::UiIntent;
use tpi::app::interactive::model_notice;
use tpi::app::interactive::theme_notice;
use tpi::app::interactive::Interactive;
use tpi::app::interactive::LoopAction;
use tpi::app::interactive::RULE;
use tpi::app::keyboard::is_paste_shortcut;
use tpi::app::keyboard::Decoder;
use tpi::app::keyboard::Input;
use tpi::app::keyboard::Key;
use tpi::app::keyboard::KeyCode;
use tpi::app::keyboard::KeyEventKind;
use tpi::app::keyboard::Output;
use tpi::app::pointer::handle_mouse;
use tpi::app::pointer::pointer_target;
use tpi::app::pointer::HitTarget;
use tpi::app::pointer::MouseKind;
use tpi::app::pointer::MouseStep;
use tpi::app::pointer::PointerAction;
use tpi::app::pointer::PointerHit;
use tpi::app::pointer::Rect;
use tpi::app::pointer::Screen;
use tpi::app::sessions::SessionTarget;
use tpi::app::slash::command_from_slash;
use tpi::app::slash::is_registered;
use tpi::app::turn::awaiting_block;
use tpi::app::turn::check_prompt;
use tpi::app::turn::check_target;
use tpi::app::turn::friendly_provider_failure;
use tpi::app::turn::opens_choice;
use tpi::app::turn::prompt_result;
use tpi::app::turn::prompt_warning;
use tpi::app::turn::run_end_notice;
use tpi::app::turn::ExitGuard;
use tpi::app::turn::Interrupt;
use tpi::app::turn::RetryTarget;
use tpi::app::ui_effects::copy_done;
use tpi::app::ui_effects::execute_run_effect;
use tpi::app::ui_effects::execute_ui_effect;
use tpi::app::ui_effects::UiAction;
use tpi::app::ui_effects::UiEffect;
use tpi::config::available_models;
use tpi::config::Config;
use tpi::config::ConfigFile;
use tpi::config::LimitsConfig;
use tpi::config::ModelConfig;
use tpi::config::PrimaryModelFile;
use tpi::config::ViewMode;
use tpi::ids::SessionId;
use tpi::session::CompletionReason;

const ID: &str = "019fda3c-c299-7890-b9ab-4cc7f311475a";

fn facts() -> SlashFacts {
    SlashFacts {
        config: Config {
            model: ModelConfig {
                provider: "test".into(),
                name: "m".into(),
                base_url: "https://example.invalid/v1".into(),
                reasoning: None,
                max_output_tokens: Some(16),
                context_window: None,
                api_key_env: "K".into(),
                api_key: None,
            },
            limits: LimitsConfig::default(),
            workspace_root: "w".into(),
            sessions_root: "s".into(),
            artifacts_root: "a".into(),
            shell_path: None,
            safety_reserve_tokens: 8192,
            auto_open_browser: false,
            web_summary_model: "none".into(),
            system_prompt_extra: None,
            source: "test".into(),
            ui_theme: "omp".into(),
            ui_mode: ViewMode::Fullscreen,
            allow_outside_workspace: true,
        },
        models: Vec::new(),
        keys: vec![("submit".into(), "Enter".into())],
        price_input: "未配置".into(),
        price_output: "未配置".into(),
        home_config: "home/config.toml".into(),
        session: None,
        running: false,
    }
}

fn modal(message: &str) -> String {
    match handle_slash_command(message, &facts(), &None) {
        SlashStep::Modal { title, body } => {
            assert_eq!(title, message);
            body
        }
        other => panic!("no window: {other:?}"),
    }
}

#[test]
fn settings_and_model_are_shown() {
    assert_eq!(
        modal("/settings"),
        "配置来源: test\nworkspace: w\nsessions: s\nartifacts: a\nshell: 未配置（自动查找 Git Bash）\n主题: omp（omp / dark / light / opencode / onedarkpro；/theme 切换）\nweb_search: DuckDuckGo（免费，无需 API key）\n自动打开浏览器: 否\n保留 token: 8192\n允许访问 workspace 外路径: 是（AI 自由模式）\n模型单价: 未配置/百万输入 · 未配置/百万输出（未配置则不在 footer 显示花费）\n\n键位（[ui.keymap]，未配置时为内建默认）:\n  submit: Enter\n"
    );
    assert_eq!(
        modal("/model"),
        "primary:\n  名称: m\n  provider: test\n  base_url: https://example.invalid/v1\n  reasoning: 默认\n  max_output_tokens: 16\n  context_window: 未配置\n  api_key_env: K"
    );
    assert!(modal("/thinking").starts_with("reasoning: 未配置（默认）\n"));
    assert!(modal("/help").starts_with("命令：\n/help —— "));
    assert_eq!(modal("/session"), "尚无 session（第一条消息后创建）");
    assert_eq!(modal("/diff"), "尚无 session");
    let mut with_session = facts();
    with_session.session = Some(SessionInfo {
        id: SessionId::parse(ID).unwrap(),
        workspace: "ws".into(),
        events: 3,
    });
    assert!(matches!(
        handle_slash_command("/session", &with_session, &None),
        SlashStep::Modal { body, .. } if body == format!("session: {ID}\nworkspace: ws\n事件数: 3")
    ));
    assert_eq!(
        handle_slash_command("/diff", &with_session, &None),
        SlashStep::ShowDiff
    );
}

#[test]
fn commands_are_whole_messages() {
    let step = |message: &str| handle_slash_command(message, &facts(), &None);
    assert_eq!(step("/quit"), SlashStep::Quit);
    assert_eq!(step("/exit"), SlashStep::Quit);
    assert_eq!(step("/mcp"), SlashStep::ShowMcp);
    assert_eq!(step("/mcp restart x"), SlashStep::ShowMcp);
    assert_eq!(step("/mcpx"), SlashStep::NotCommand);
    assert_eq!(step(" /quit"), SlashStep::NotCommand);
    assert_eq!(step("/sessions"), SlashStep::ShowSessions);
    assert_eq!(step("/doctor"), SlashStep::ShowDoctor);
    assert_eq!(step("/new"), SlashStep::NewSession);
    assert_eq!(step("/compact"), SlashStep::Compact);
    assert_eq!(
        step("/cancel"),
        SlashStep::Line("当前没有正在运行的 run".into())
    );
    assert_eq!(step_line(&step("/new")), Some("已开始新会话"));
    assert_eq!(step_line(&step("/quit")), None);
    assert_eq!(
        step("/retry"),
        SlashStep::Line("没有可重试的 turn（上一次 run 成功或尚无 run）".into())
    );
    let target = Some(RetryTarget {
        message: "fix".into(),
        reason: CompletionReason::Error,
    });
    assert_eq!(
        handle_slash_command("/retry", &facts(), &target),
        SlashStep::Retry {
            message: "fix".into(),
            line: "⟳ 重试上一次 turn（fix）".into()
        }
    );
    assert!(matches!(
        step("/theme"),
        SlashStep::ThemeMenu { body } if body.contains("保存到 home/config.toml · Esc")
    ));
    assert_eq!(theme_items()[0].0, "omp");
    assert_eq!(sessions_notice(&Ok(1)), None);
    assert_eq!(
        sessions_notice(&Err("x".into())).as_deref(),
        Some("无法列出 session: x")
    );
}

#[test]
fn work_is_done_in_order() {
    let mut loop_state = Interactive::new("first");
    loop_state.push_pending("second".into());
    loop_state.choose_session("nope".into());
    loop_state.choose_theme("dark".into());
    assert!(loop_state.has_pending_work());
    assert_eq!(
        loop_state.next_action(&facts()),
        LoopAction::ApplyTheme("dark".into())
    );
    assert_eq!(
        loop_state.next_action(&facts()),
        LoopAction::Say("无效 session id: nope".into())
    );
    assert_eq!(
        loop_state.next_action(&facts()),
        LoopAction::Run {
            message: "first".into(),
            answers: false,
            discard: false,
            compact: false
        }
    );
    assert_eq!(loop_state.next_action(&facts()), LoopAction::Wait);
    assert_eq!(
        loop_state.ended(CompletionReason::Stop, &None),
        vec![RULE.to_string()]
    );
    assert!(matches!(
        loop_state.next_action(&facts()),
        LoopAction::Run { message, .. } if message == "second"
    ));
    loop_state.ended(CompletionReason::Stop, &None);
    assert_eq!(loop_state.next_action(&facts()), LoopAction::Wait);
    assert!(!loop_state.has_pending_work());
    loop_state.choose_session(ID.into());
    assert_eq!(
        loop_state.next_action(&facts()),
        LoopAction::Resume(SessionId::parse(ID).unwrap())
    );
}

fn table(name: &str) -> PrimaryModelFile {
    PrimaryModelFile {
        provider: "test".into(),
        name: name.into(),
        base_url: "https://example.invalid/v1".into(),
        reasoning: None,
        max_output_tokens: None,
        context_window: None,
        api_key_env: None,
        api_key: None,
    }
}

#[test]
fn a_model_can_be_chosen() {
    let mut home = ConfigFile::default();
    home.model.primary = Some(table("m"));
    home.model.profiles = vec![table("small"), table("large")];
    let mut facts = facts();
    facts.models = available_models(home, ConfigFile::default());
    let names: Vec<String> = model_items(&facts.models)
        .into_iter()
        .map(|(name, place)| {
            assert_eq!(place, "test · https://example.invalid/v1");
            name
        })
        .collect();
    assert_eq!(names, vec!["m", "small", "large"]);
    let step = handle_slash_command("/model", &facts, &None);
    assert!(matches!(&step, SlashStep::ModelMenu { body } if body.contains("名称: m\n")));
    let mut loop_state = Interactive::new("");
    loop_state.choose_model("large".into());
    assert!(loop_state.has_pending_work());
    assert_eq!(
        loop_state.next_action(&facts),
        LoopAction::UseModel { index: 2 }
    );
    assert_eq!(loop_state.next_action(&facts), LoopAction::Wait);
    loop_state.choose_model("other".into());
    assert_eq!(
        loop_state.next_action(&facts),
        LoopAction::Say("未知模型: other".into())
    );
    assert_eq!(model_notice("large"), "已切换模型 large");
}

#[test]
fn a_failed_turn_is_made_again() {
    let mut loop_state = Interactive::new("fix it");
    loop_state.next_action(&facts());
    loop_state.ended(CompletionReason::ProviderInterrupted, &None);
    loop_state.push_pending("/compact".into());
    loop_state.push_pending("/retry".into());
    assert_eq!(
        loop_state.next_action(&facts()),
        LoopAction::Perform(SlashStep::Compact)
    );
    assert!(matches!(
        loop_state.next_action(&facts()),
        LoopAction::Perform(SlashStep::Retry { message, .. }) if message == "fix it"
    ));
    assert_eq!(
        loop_state.next_action(&facts()),
        LoopAction::Run {
            message: String::new(),
            answers: false,
            discard: true,
            compact: true
        }
    );
    assert_eq!(
        loop_state.ended(CompletionReason::ProviderUnavailable, &None),
        vec![
            "⚠ 重试未成功（模型不可用）；可再次 /retry 或重新发送".to_string(),
            RULE.to_string()
        ]
    );
    loop_state.push_pending("/retry".into());
    loop_state.next_action(&facts());
    assert!(matches!(
        loop_state.next_action(&facts()),
        LoopAction::Run { discard: false, compact: false, .. }
    ));
    assert_eq!(
        loop_state.failed("connection failed: x"),
        "run 失败，session 已保留：模型连接中断（重试后仍失败）；session 已保留，可稍后重试或检查网络/代理"
    );
    loop_state.push_pending("/new".into());
    loop_state.next_action(&facts());
    loop_state.push_pending("/retry".into());
    assert!(matches!(
        loop_state.next_action(&facts()),
        LoopAction::Perform(SlashStep::Line(_))
    ));
}

#[test]
fn a_question_is_answered_by_the_next_message() {
    let mut loop_state = Interactive::new("do it");
    loop_state.next_action(&facts());
    let awaiting = Some(AwaitingInput {
        text: "which?".into(),
        questions: Vec::new(),
    });
    loop_state.ended(CompletionReason::AwaitingUserInput, &awaiting);
    loop_state.push_pending("/help".into());
    loop_state.push_pending("this".into());
    assert!(matches!(
        loop_state.next_action(&facts()),
        LoopAction::Perform(SlashStep::Modal { .. })
    ));
    assert!(matches!(
        loop_state.next_action(&facts()),
        LoopAction::Run { answers: true, .. }
    ));
    loop_state.ended(CompletionReason::Stop, &None);
    loop_state.push_pending("more".into());
    assert!(matches!(
        loop_state.next_action(&facts()),
        LoopAction::Run { answers: false, .. }
    ));
}

#[test]
fn sessions_and_themes_are_confirmed() {
    let mut loop_state = Interactive::new("");
    let id = SessionId::parse(ID).unwrap();
    assert_eq!(
        loop_state.resumed(&Ok((id, "t".into()))),
        "已恢复会话「t」（019fda3c-c299…）"
    );
    assert_eq!(loop_state.resumed(&Err("x".into())), "恢复失败: x");
    assert_eq!(
        theme_notice("dark", &Ok("c".into())),
        "已切换主题 dark（已保存到 c）"
    );
    assert_eq!(
        theme_notice("dark", &Err("x".into())),
        "主题已切换（保存失败: x）"
    );
}

#[test]
fn ends_are_told() {
    assert_eq!(
        run_end_notice(CompletionReason::Stop).as_deref(),
        Some("run 完成")
    );
    assert_eq!(run_end_notice(CompletionReason::AwaitingUserInput), None);
    assert_eq!(friendly_provider_failure("other"), "other");
    assert!(prompt_result(CompletionReason::Stop, "p").is_ok());
    assert!(prompt_result(CompletionReason::Error, "p")
        .unwrap_err()
        .ends_with("session 记录: p"));
    assert!(prompt_warning(CompletionReason::WallTimeExceeded).is_some());
    assert!(prompt_warning(CompletionReason::Stop).is_none());
    assert!(check_prompt("", 10).is_err());
    assert!(check_prompt("界界", 5).is_err());
    assert!(check_prompt("界界", 6).is_ok());
    assert!(check_target(&SessionTarget::Continue, true).is_err());
    assert!(check_target(&SessionTarget::New, true).is_ok());
}

#[test]
fn questions_are_shown_line_by_line() {
    let awaiting = Some(AwaitingInput {
        text: "a\nb".into(),
        questions: Vec::new(),
    });
    let block = awaiting_block(&awaiting);
    assert_eq!(block.len(), 4);
    assert_eq!(block[1], "a");
    assert_eq!(block[2], "b");
    let question = |options: Vec<String>| RequestInputQuestion {
        header: None,
        question: "q".into(),
        options,
    };
    assert!(!opens_choice(&Vec::new()));
    assert!(opens_choice(&vec![question(vec!["x".into()])]));
    assert!(!opens_choice(&vec![
        question(vec!["x".into()]),
        question(Vec::new())
    ]));
}

#[test]
fn the_second_interrupt_ends_the_program() {
    let mut guard = ExitGuard::new();
    assert_eq!(guard.press(true, 10_000), Interrupt::CancelRun);
    assert_eq!(guard.press(false, 10_000), Interrupt::Arm);
    assert_eq!(guard.press(false, 12_000), Interrupt::Arm);
    assert_eq!(guard.press(false, 13_999), Interrupt::Exit);
}

fn screen() -> Screen {
    Screen {
        sidebar: Some(Rect {
            x: 80,
            y: 0,
            width: 20,
            height: 40,
        }),
        sidebar_entry: None,
        scrollbar: Some(Rect {
            x: 79,
            y: 0,
            width: 1,
            height: 40,
        }),
        text: Some((3, 4)),
        target: None,
        link: Some("https://example.invalid".into()),
    }
}

#[test]
fn the_pointer_hits_the_topmost_thing() {
    let mut s = screen();
    assert_eq!(pointer_target(&s, 85, 5), PointerHit::Sidebar);
    s.sidebar_entry = Some(2);
    assert_eq!(pointer_target(&s, 85, 5), PointerHit::SidebarEntry(2));
    assert_eq!(pointer_target(&s, 79, 5), PointerHit::Scrollbar);
    assert_eq!(
        pointer_target(&s, 10, 5),
        PointerHit::Transcript {
            text: Some((3, 4)),
            action: Some(PointerAction::Link("https://example.invalid".into()))
        }
    );
    s.target = Some(HitTarget::Tool(9));
    assert_eq!(
        pointer_target(&s, 10, 5),
        PointerHit::Transcript {
            text: Some((3, 4)),
            action: Some(PointerAction::Tool(9))
        }
    );
    s.text = None;
    s.target = None;
    assert_eq!(pointer_target(&s, 10, 5), PointerHit::Nowhere);
}

#[test]
fn the_mouse_scrolls_what_it_is_over() {
    let s = screen();
    assert_eq!(
        handle_mouse(&s, MouseKind::ScrollUp, 85, 5, false),
        MouseStep::SidebarScroll(true)
    );
    assert_eq!(
        handle_mouse(&s, MouseKind::ScrollUp, 85, 5, true),
        MouseStep::Scroll(true)
    );
    assert_eq!(
        handle_mouse(&s, MouseKind::LeftDown, 99, 7, false),
        MouseStep::SidebarJump(7)
    );
    assert_eq!(
        handle_mouse(&s, MouseKind::ScrollDown, 10, 5, false),
        MouseStep::Scroll(false)
    );
    assert_eq!(
        handle_mouse(&s, MouseKind::LeftUp, 10, 5, true),
        MouseStep::Pointer {
            kind: MouseKind::LeftUp,
            column: 10,
            row: 5,
            hit: PointerHit::Nowhere
        }
    );
    assert_eq!(
        handle_mouse(&s, MouseKind::Other, 10, 5, false),
        MouseStep::Nothing
    );
}

#[test]
fn effects_of_the_surface_are_confirmed() {
    let web = UiEffect::OpenUrl(" HTTPS://example.invalid".into());
    let (action, hint) = execute_ui_effect(&web, "", "");
    assert_eq!(action, UiAction::Open(" HTTPS://example.invalid".into()));
    assert_eq!(hint.as_deref(), Some("已在默认浏览器打开"));
    let file = UiEffect::OpenUrl("file:///etc/passwd".into());
    let (action, hint) = execute_ui_effect(&file, "", "file…");
    assert_eq!(action, UiAction::Nothing);
    assert_eq!(
        hint.as_deref(),
        Some("仅支持 http/https 链接，已拒绝打开：file…")
    );
    let (action, _) = execute_ui_effect(&UiEffect::CopySelection, "a\nb\n", "");
    assert_eq!(action, UiAction::CopySelection("a\nb\n".into()));
    assert_eq!(
        copy_done(&action, true),
        (Some("已复制 2 行到剪贴板".to_string()), true)
    );
    assert!(!copy_done(&action, false).1);
    assert_eq!(
        execute_run_effect(&UiEffect::Quit, ""),
        (UiAction::Nothing, None)
    );
    assert_eq!(
        execute_run_effect(&UiEffect::CancelRun, "").0,
        UiAction::CancelRun
    );
}

fn press(event: u64, code: KeyCode) -> Input {
    Input {
        event,
        key: Some(Key {
            code,
            control: false,
            shift: false,
            alt: false,
            kind: KeyEventKind::Press,
        }),
    }
}

fn type_keys(decoder: &mut Decoder, codes: &[KeyCode]) -> Vec<Output> {
    let mut out = Vec::new();
    for (i, code) in codes.iter().enumerate() {
        out.extend(decoder.feed(press(i as u64, *code)));
    }
    out
}

#[test]
fn a_marked_text_is_pasted_at_once() {
    let mut decoder = Decoder::new();
    let mut codes = vec![KeyCode::Esc];
    for c in "[200~".chars() {
        codes.push(KeyCode::Char(c));
    }
    codes.push(KeyCode::Char('a'));
    codes.push(KeyCode::Enter);
    codes.push(KeyCode::Char('b'));
    codes.push(KeyCode::Esc);
    for c in "[201~".chars() {
        codes.push(KeyCode::Char(c));
    }
    assert_eq!(
        type_keys(&mut decoder, &codes),
        vec![Output::Paste("a\nb".into())]
    );
}

#[test]
fn a_lone_escape_is_handed_on() {
    let mut decoder = Decoder::new();
    assert!(decoder.feed(press(1, KeyCode::Esc)).is_empty());
    assert_eq!(
        decoder.time_out(),
        vec![Output::Send(press(1, KeyCode::Esc))]
    );
}

#[test]
fn a_broken_mark_loses_nothing() {
    let mut decoder = Decoder::new();
    let out = type_keys(
        &mut decoder,
        &[KeyCode::Esc, KeyCode::Char('['), KeyCode::Char('x')],
    );
    assert_eq!(
        out,
        vec![
            Output::Send(press(0, KeyCode::Esc)),
            Output::Send(press(1, KeyCode::Char('['))),
            Output::Send(press(2, KeyCode::Char('x'))),
        ]
    );
}

#[test]
fn typing_is_handed_on_at_once() {
    let mut decoder = Decoder::new();
    assert_eq!(
        decoder.feed(press(1, KeyCode::Char('x'))),
        vec![Output::Typed(press(1, KeyCode::Char('x')))]
    );
    let mut paste = press(2, KeyCode::Char('v'));
    if let Some(key) = &mut paste.key {
        key.control = true;
        assert!(is_paste_shortcut(key));
    }
    assert_eq!(decoder.feed(paste), vec![Output::ReadClipboard]);
}

struct Recorder;

impl PlatformEffects for Recorder {
    fn copy_to_clipboard(&self, text: &str) -> Result<(), String> {
        Err(format!("copy {text}"))
    }

    fn open_url(&self, url: &str) -> Result<(), String> {
        Err(format!("open {url}"))
    }

    fn set_terminal_title(&self, title: &str) -> Result<(), String> {
        Err(format!("title {title}"))
    }

    fn notify(&self, _message: &str) {}
}

#[test]
fn the_platform_is_asked_only_what_it_may_do() {
    assert_eq!(
        platform_call(&AppEffect::OpenUrl(" HTTPS://x".into())),
        Ok(PlatformCall::OpenUrl(" HTTPS://x".into()))
    );
    for url in ["file:///x", "javascript:1", "", "httpx://y"] {
        assert_eq!(
            platform_call(&AppEffect::OpenUrl(url.into())),
            Err(format!("仅支持 http/https 链接，已拒绝打开：{url}"))
        );
    }
    assert_eq!(platform_call(&AppEffect::Draw), Ok(PlatformCall::Nothing));
    assert_eq!(
        platform_call(&AppEffect::Notify("n".into())),
        Ok(PlatformCall::Notify("n".into()))
    );
}

#[test]
fn what_the_platform_says_is_handed_on() {
    let apply = |effect: AppEffect| apply_effect(&Recorder, &effect);
    assert_eq!(apply(AppEffect::Draw), Ok(()));
    assert_eq!(
        apply(AppEffect::CopyToClipboard("x".into())),
        Err("copy x".to_string())
    );
    assert_eq!(
        apply(AppEffect::OpenUrl("http://x".into())),
        Err("open http://x".to_string())
    );
    assert_eq!(
        apply(AppEffect::OpenUrl("file:///x".into())),
        Err("仅支持 http/https 链接，已拒绝打开：file:///x".to_string())
    );
    assert_eq!(
        apply(AppEffect::SetTerminalTitle("t".into())),
        Err("title t".to_string())
    );
    assert!(apply(AppEffect::OpenFilePicker { filter: None }).is_err());
    assert_eq!(apply(AppEffect::Notify("n".into())), Ok(()));
}

#[test]
fn commands_mean_the_same_from_everywhere() {
    let controller = AppController::new();
    let by_key = controller.handle(UiIntent::new(AppCommand::CancelRun, IntentSource::Keyboard));
    let by_slash =
        controller.handle(UiIntent::new(AppCommand::CancelRun, IntentSource::SlashCommand));
    assert_eq!(by_key, by_slash);
    assert_eq!(by_key.0, ServiceAction::CancelRun);
    assert_eq!(by_key.1, vec![AppEffect::Notify("已取消当前 run".into())]);
    let (service, effects) =
        controller.handle(UiIntent::new(AppCommand::StartNewSession, IntentSource::Mouse));
    assert_eq!(service, ServiceAction::ResetConversation);
    assert_eq!(effects, vec![AppEffect::Draw]);
    assert!(is_registered("help"));
    assert!(!is_registered("nope"));
    assert_eq!(
        command_from_slash(" /cancel "),
        Some(AppCommand::CancelRun)
    );
}
