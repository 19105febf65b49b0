//! What the slash commands do in an interactive session.
use crate::app::slash::help_lines;
use crate::app::slash::registry;
use crate::app::slash::SlashCommandView;
use crate::app::turn::RetryTarget;
use crate::app::turn::RetryView;
use crate::config::Config;
use crate::config::ModelConfig;
use crate::ids::hyphenated;
use crate::ids::SessionId;
use crate::text::decimal;
use crate::text::decimal_of;
use crate::text::has_prefix;
use crate::text::opt_view;
use crate::text::owned;
use crate::text::same;
use crate::text::starts_with;
use vstd::prelude::*;
use vstd::string::*;

verus! {

/// What is to be done for a message that may be a command.
#[derive(Debug, Clone, PartialEq, Eq)]
pub enum SlashStep {
    /// Leave the program.
    Quit,
    /// It is no command.
    NotCommand,
    /// Show a text in a window.
    Modal { title: &'static str, body: String },
    /// Show how the tool servers are doing.
    ShowMcp,
    /// Show the sessions of the workspace.
    ShowSessions,
    /// Show what the last run changed.
    ShowDiff,
    /// Show whether everything is in place.
    ShowDoctor,
    /// Let the user choose a model.
    ModelMenu { body: String },
    /// Let the user choose a theme.
    ThemeMenu { body: String },
    /// Start a new session.
    NewSession,
    /// Cancel the run.
    Cancel,
    /// Compact the context when the next run begins.
    Compact,
    /// Make a turn again.
    Retry { message: String, line: String },
    /// Say something.
    Line(String),
}

/// What a [`SlashStep`] says.
pub enum SlashStepView {
    Quit,
    NotCommand,
    Modal { title: Seq<char>, body: Seq<char> },
    ShowMcp,
    ShowSessions,
    ShowDiff,
    ShowDoctor,
    ModelMenu { body: Seq<char> },
    ThemeMenu { body: Seq<char> },
    NewSession,
    Cancel,
    Compact,
    Retry { message: Seq<char>, line: Seq<char> },
    Line(Seq<char>),
}

impl View for SlashStep {
    type V = SlashStepView;

    open spec fn view(&self) -> SlashStepView {
        match *self {
            SlashStep::Quit => SlashStepView::Quit,
            SlashStep::NotCommand => SlashStepView::NotCommand,
            SlashStep::Modal { title, body } => SlashStepView::Modal {
                title: title@,
                body: body@,
            },
            SlashStep::ShowMcp => SlashStepView::ShowMcp,
            SlashStep::ShowSessions => SlashStepView::ShowSessions,
            SlashStep::ShowDiff => SlashStepView::ShowDiff,
            SlashStep::ShowDoctor => SlashStepView::ShowDoctor,
            SlashStep::ModelMenu { body } => SlashStepView::ModelMenu { body: body@ },
            SlashStep::ThemeMenu { body } => SlashStepView::ThemeMenu { body: body@ },
            SlashStep::NewSession => SlashStepView::NewSession,
            SlashStep::Cancel => SlashStepView::Cancel,
            SlashStep::Compact => SlashStepView::Compact,
            SlashStep::Retry { message, line } => SlashStepView::Retry {
                message: message@,
                line: line@,
            },
            SlashStep::Line(text) => SlashStepView::Line(text@),
        }
    }
}

/// The session that is worked in.
#[derive(Debug, Clone, PartialEq, Eq)]
pub struct SessionInfo {
    pub id: SessionId,
    pub workspace: String,
    /// How many events it holds.
    pub events: u64,
}

/// What the commands speak of.
#[derive(Debug)]
pub struct SlashFacts {
    pub config: Config,
    /// All models that can be chosen.
    pub models: Vec<ModelConfig>,
    /// The actions that keys are bound to, and the keys.
    pub keys: Vec<(String, String)>,
    /// The price of a million tokens that go in, in words.
    pub price_input: String,
    /// The price of a million tokens that come out, in words.
    pub price_output: String,
    /// The file that holds the configuration of the user.
    pub home_config: String,
    pub session: Option<SessionInfo>,
    /// Whether a run is on.
    pub running: bool,
}

/// The bindings of keys, a line each.
pub open spec fn key_lines(keys: Seq<(String, String)>) -> Seq<char>
    decreases keys.len(),
{
    if keys.len() == 0 {
        Seq::empty()
    } else {
        key_lines(keys.drop_last()) + "  "@ + keys.last().0@ + ": "@ + keys.last().1@ + "\n"@
    }
}

fn list_keys(keys: &Vec<(String, String)>) -> (r: String)
    ensures
        r@ == key_lines(keys@),
{
    let mut out = String::new();
    let mut i: usize = 0;
    assert(out@ =~= key_lines(keys@.take(0)));
    while i < keys.len()
        invariant
            i <= keys@.len(),
            out@ == key_lines(keys@.take(i as int)),
        decreases keys@.len() - i,
    {
        proof {
            let next = keys@.take(i + 1);
            assert(next.drop_last() =~= keys@.take(i as int));
            assert(next.last() == keys@[i as int]);
        }
        out.append("  ");
        out.append(keys[i].0.as_str());
        out.append(": ");
        out.append(keys[i].1.as_str());
        out.append("\n");
        i += 1;
    }
    assert(keys@.take(i as int) =~= keys@);
    out
}

/// A text, or another where there is none.
pub open spec fn or_else(text: Option<Seq<char>>, other: Seq<char>) -> Seq<char> {
    match text {
        Some(text) => text,
        None => other,
    }
}

fn text_or(text: &Option<String>, other: &str) -> (r: String)
    ensures
        r@ == or_else(opt_view(*text), other@),
{
    match text {
        Some(text) => text.clone(),
        None => owned(other),
    }
}

/// The settings in effect.
pub open spec fn settings_text(facts: SlashFacts) -> Seq<char> {
    let config = facts.config;
    "配置来源: "@ + config.source@ + "\nworkspace: "@ + config.workspace_root@ + "\nsessions: "@
        + config.sessions_root@ + "\nartifacts: "@ + config.artifacts_root@ + "\nshell: "@
        + or_else(opt_view(config.shell_path), "未配置（自动查找 Git Bash）"@)
        + "\n主题: "@ + config.ui_theme@
        + "（omp / dark / light / opencode / onedarkpro；/theme 切换）\nweb_search: DuckDuckGo（免费，无需 API key）\n自动打开浏览器: "@
        + (if config.auto_open_browser {
        "是"@
    } else {
        "否"@
    }) + "\n保留 token: "@ + decimal_of(config.safety_reserve_tokens as nat)
        + "\n允许访问 workspace 外路径: "@ + (if config.allow_outside_workspace {
        "是（AI 自由模式）"@
    } else {
        "否（严格沙箱）"@
    }) + "\n模型单价: "@ + facts.price_input@ + "/百万输入 · "@ + facts.price_output@
        + "/百万输出（未配置则不在 footer 显示花费）\n\n键位（[ui.keymap]，未配置时为内建默认）:\n"@
        + key_lines(facts.keys@)
}

fn settings(facts: &SlashFacts) -> (r: String)
    ensures
        r@ == settings_text(*facts),
{
    let config = &facts.config;
    let shell = text_or(&config.shell_path, "未配置（自动查找 Git Bash）");
    let reserve = decimal(config.safety_reserve_tokens as u128);
    let keys = list_keys(&facts.keys);
    let browser = if config.auto_open_browser {
        "是"
    } else {
        "否"
    };
    let outside = if config.allow_outside_workspace {
        "是（AI 自由模式）"
    } else {
        "否（严格沙箱）"
    };
    owned("配置来源: ").concat(config.source.as_str()).concat("\nworkspace: ").concat(
        config.workspace_root.as_str(),
    ).concat("\nsessions: ").concat(config.sessions_root.as_str()).concat(
        "\nartifacts: ",
    ).concat(config.artifacts_root.as_str()).concat("\nshell: ").concat(shell.as_str()).concat(
        "\n主题: ",
    ).concat(config.ui_theme.as_str()).concat(
        "（omp / dark / light / opencode / onedarkpro；/theme 切换）\nweb_search: DuckDuckGo（免费，无需 API key）\n自动打开浏览器: ",
    ).concat(browser).concat("\n保留 token: ").concat(reserve.as_str()).concat(
        "\n允许访问 workspace 外路径: ",
    ).concat(outside).concat("\n模型单价: ").concat(facts.price_input.as_str()).concat(
        "/百万输入 · ",
    ).concat(facts.price_output.as_str()).concat(
        "/百万输出（未配置则不在 footer 显示花费）\n\n键位（[ui.keymap]，未配置时为内建默认）:\n",
    ).concat(keys.as_str())
}

/// A number in words, or another text where there is none.
pub open spec fn number_or(number: Option<nat>, other: Seq<char>) -> Seq<char> {
    match number {
        Some(n) => decimal_of(n),
        None => other,
    }
}

/// The model in effect.
pub open spec fn model_text(model: ModelConfig) -> Seq<char> {
    "primary:\n  名称: "@ + model.name@ + "\n  provider: "@ + model.provider@
        + "\n  base_url: "@ + model.base_url@ + "\n  reasoning: "@ + or_else(
        opt_view(model.reasoning),
        "默认"@,
    ) + "\n  max_output_tokens: "@ + number_or(
        match model.max_output_tokens {
            Some(n) => Some(n as nat),
            None => None,
        },
        "默认"@,
    ) + "\n  context_window: "@ + number_or(
        match model.context_window {
            Some(n) => Some(n as nat),
            None => None,
        },
        "未配置"@,
    ) + "\n  api_key_env: "@ + model.api_key_env@
}

fn model(config: &ModelConfig) -> (r: String)
    ensures
        r@ == model_text(*config),
{
    let reasoning = text_or(&config.reasoning, "默认");
    let output = match config.max_output_tokens {
        Some(n) => decimal(n as u128),
        None => owned("默认"),
    };
    let window = match config.context_window {
        Some(n) => decimal(n as u128),
        None => owned("未配置"),
    };
    owned("primary:\n  名称: ").concat(config.name.as_str()).concat("\n  provider: ").concat(
        config.provider.as_str(),
    ).concat("\n  base_url: ").concat(config.base_url.as_str()).concat(
        "\n  reasoning: ",
    ).concat(reasoning.as_str()).concat("\n  max_output_tokens: ").concat(
        output.as_str(),
    ).concat("\n  context_window: ").concat(window.as_str()).concat("\n  api_key_env: ").concat(
        config.api_key_env.as_str(),
    )
}

/// What the help says of the keys.
pub const KEY_HELP: &'static str =
    "快捷键：Shift+Enter 换行 · ↑/↓ 多行/历史 · Tab 命令补全 ·
                        @文件 引用补全 · Alt+T 思考折叠 · Alt+E/Alt+O 工具详情 ·
                        Alt+[/] 切换工具 · Ctrl+F 搜索 · Ctrl+U 清空 ·
                        Ctrl+Z 撤销 · Ctrl+Y 重做 ·
                        Ctrl+A/E 行首/行尾 · PgUp/PgDn 翻页 · 滚轮/滚动条滚动 ·
                        Ctrl+Home 顶部 · Ctrl+End 最新 · Modal ↑/↓ 滚动 ·
                        点击工具卡片（任意行）展开 · 悬停卡片微高亮 ·
                        点击链接打开 · 拖选自动滚动 ·
                        Esc 取消 run · Ctrl+C 有选区复制/运行中取消/空闲连按两次退出
                        键位可在配置 [ui.keymap] 中自定义（/settings 查看当前绑定）";

/// The commands, a line each.
pub open spec fn command_lines(commands: Seq<SlashCommandView>) -> Seq<char>
    decreases commands.len(),
{
    if commands.len() == 0 {
        Seq::empty()
    } else {
        command_lines(commands.drop_last()) + "/"@ + commands.last().name + " —— "@
            + commands.last().desc + "\n"@
    }
}

/// The help.
pub open spec fn help_text() -> Seq<char> {
    "命令：\n"@ + command_lines(registry()) + KEY_HELP@
}

fn help() -> (r: String)
    ensures
        r@ == help_text(),
{
    let all = help_lines();
    let ghost commands = registry();
    let ghost head = "命令：\n"@;
    let mut out = owned("命令：\n");
    let mut i: usize = 0;
    assert(out@ =~= head + command_lines(commands.take(0)));
    while i < all.len()
        invariant
            i <= all@.len() == commands.len(),
            commands == registry(),
            forall|j: int|
                0 <= j < all@.len() ==> (#[trigger] all@[j]).0@ == commands[j].name && all@[j].1@
                    == commands[j].desc,
            out@ == head + command_lines(commands.take(i as int)),
        decreases all@.len() - i,
    {
        proof {
            let next = commands.take(i + 1);
            assert(next.drop_last() =~= commands.take(i as int));
            assert(next.last() == commands[i as int]);
            assert(all@[i as int].0@ == commands[i as int].name);
        }
        out.append("/");
        out.append(all[i].0);
        out.append(" —— ");
        out.append(all[i].1);
        out.append("\n");
        assert(out@ =~= head + command_lines(commands.take(i + 1)));
        i += 1;
    }
    assert(commands.take(i as int) =~= commands);
    out.concat(KEY_HELP)
}

/// The session that is worked in.
pub open spec fn session_text(session: Option<SessionInfo>) -> Seq<char> {
    match session {
        Some(info) => "session: "@ + hyphenated(info.id.0) + "\nworkspace: "@ + info.workspace@
            + "\n事件数: "@ + decimal_of(info.events as nat),
        None => "尚无 session（第一条消息后创建）"@,
    }
}

fn session(info: &Option<SessionInfo>) -> (r: String)
    ensures
        r@ == session_text(*info),
{
    match info {
        Some(info) => {
            let id = info.id.to_text();
            let events = decimal(info.events as u128);
            owned("session: ").concat(id.as_str()).concat("\nworkspace: ").concat(
                info.workspace.as_str(),
            ).concat("\n事件数: ").concat(events.as_str())
        },
        None => owned("尚无 session（第一条消息后创建）"),
    }
}

/// How to choose a theme.
pub open spec fn theme_text(theme: Seq<char>, file: Seq<char>) -> Seq<char> {
    "当前主题: "@ + theme
        + "（代码高亮随主题联动）\n\n↑/↓ 选择 · Enter 应用并保存到 "@ + file
        + " · Esc 取消\n\n注：若 workspace 配置了 [ui] theme，下次启动以 workspace 为准。"@
}

/// The reasoning in effect.
pub open spec fn thinking_text(reasoning: Option<Seq<char>>) -> Seq<char> {
    "reasoning: "@ + or_else(reasoning, "未配置（默认）"@)
        + "\n说明: 透传给 provider 的推理设置（§18.1 [model.primary] reasoning）；\n未配置时使用 provider 默认。"@
}

/// The models that can be chosen: their names, and where they come from.
pub fn model_items(models: &Vec<ModelConfig>) -> (r: Vec<(String, String)>)
    ensures
        r@.len() == models@.len(),
        forall|i: int|
            0 <= i < r@.len() ==> (#[trigger] r@[i]).0@ == models@[i].name@ && r@[i].1@
                == models@[i].provider@ + " · "@ + models@[i].base_url@,
{
    let mut items: Vec<(String, String)> = Vec::new();
    let mut i: usize = 0;
    while i < models.len()
        invariant
            i <= models@.len(),
            items@.len() == i,
            forall|j: int|
                0 <= j < i ==> (#[trigger] items@[j]).0@ == models@[j].name@ && items@[j].1@
                    == models@[j].provider@ + " · "@ + models@[j].base_url@,
        decreases models@.len() - i,
    {
        let place = models[i].provider.clone().concat(" · ").concat(models[i].base_url.as_str());
        items.push((models[i].name.clone(), place));
        i += 1;
    }
    items
}

/// The themes that can be chosen, and what they are.
pub fn theme_items() -> (r: Vec<(&'static str, &'static str)>)
    ensures
        r@.len() == 5,
        r@[0].0@ == "omp"@ && r@[0].1@ == "默认 Catppuccin 系 · 高亮 base16-mocha"@,
        r@[1].0@ == "dark"@ && r@[1].1@ == "简洁深色 · 高亮 base16-ocean"@,
        r@[2].0@ == "light"@ && r@[2].1@ == "简洁浅色 · 高亮 base16-ocean light"@,
        r@[3].0@ == "opencode"@ && r@[3].1@ == "opencode 风格 · 高亮 base16-eighties"@,
        r@[4].0@ == "onedarkpro"@ && r@[4].1@
            == "One Dark Pro 官方色板 · 高亮 Solarized dark"@,
{
    vec![
        ("omp", "默认 Catppuccin 系 · 高亮 base16-mocha"),
        ("dark", "简洁深色 · 高亮 base16-ocean"),
        ("light", "简洁浅色 · 高亮 base16-ocean light"),
        ("opencode", "opencode 风格 · 高亮 base16-eighties"),
        ("onedarkpro", "One Dark Pro 官方色板 · 高亮 Solarized dark"),
    ]
}

/// What a message comes to: a command is looked up by the whole message, without anything
/// around it, except that the one for tool servers may be followed by more.
pub open spec fn step_of(
    message: Seq<char>,
    facts: SlashFacts,
    last_failed: Option<RetryView>,
) -> SlashStepView {
    if message == "/quit"@ || message == "/exit"@ {
        SlashStepView::Quit
    } else if message == "/mcp"@ || has_prefix(message, "/mcp "@) {
        SlashStepView::ShowMcp
    } else if message == "/settings"@ {
        SlashStepView::Modal { title: "/settings"@, body: settings_text(facts) }
    } else if message == "/model"@ {
        if facts.models@.len() > 1 {
            SlashStepView::ModelMenu { body: model_text(facts.config.model) }
        } else {
            SlashStepView::Modal { title: "/model"@, body: model_text(facts.config.model) }
        }
    } else if message == "/help"@ {
        SlashStepView::Modal { title: "/help"@, body: help_text() }
    } else if message == "/session"@ {
        SlashStepView::Modal { title: "/session"@, body: session_text(facts.session) }
    } else if message == "/sessions"@ {
        SlashStepView::ShowSessions
    } else if message == "/theme"@ {
        SlashStepView::ThemeMenu {
            body: theme_text(facts.config.ui_theme@, facts.home_config@),
        }
    } else if message == "/new"@ {
        SlashStepView::NewSession
    } else if message == "/cancel"@ {
        if facts.running {
            SlashStepView::Cancel
        } else {
            SlashStepView::Line("当前没有正在运行的 run"@)
        }
    } else if message == "/thinking"@ {
        SlashStepView::Modal {
            title: "/thinking"@,
            body: thinking_text(opt_view(facts.config.model.reasoning)),
        }
    } else if message == "/diff"@ {
        if facts.session is Some {
            SlashStepView::ShowDiff
        } else {
            SlashStepView::Modal { title: "/diff"@, body: "尚无 session"@ }
        }
    } else if message == "/doctor"@ {
        SlashStepView::ShowDoctor
    } else if message == "/compact"@ {
        SlashStepView::Compact
    } else if message == "/retry"@ {
        match last_failed {
            Some(target) => SlashStepView::Retry {
                message: target.message,
                line: "⟳ 重试上一次 turn（"@ + target.message + "）"@,
            },
            None => SlashStepView::Line(
                "没有可重试的 turn（上一次 run 成功或尚无 run）"@,
            ),
        }
    } else {
        SlashStepView::NotCommand
    }
}

/// What a message comes to. `last_failed` is the turn that can be made again.
pub fn handle_slash_command(
    message: &str,
    facts: &SlashFacts,
    last_failed: &Option<RetryTarget>,
) -> (r: SlashStep)
    ensures
        r@ == step_of(message@, *facts, opt_view(*last_failed)),
{
    if same(message, "/quit") || same(message, "/exit") {
        SlashStep::Quit
    } else if same(message, "/mcp") || starts_with(message, "/mcp ") {
        SlashStep::ShowMcp
    } else if same(message, "/settings") {
        SlashStep::Modal { title: "/settings", body: settings(facts) }
    } else if same(message, "/model") {
        let body = model(&facts.config.model);
        if facts.models.len() > 1 {
            SlashStep::ModelMenu { body }
        } else {
            SlashStep::Modal { title: "/model", body }
        }
    } else if same(message, "/help") {
        SlashStep::Modal { title: "/help", body: help() }
    } else if same(message, "/session") {
        SlashStep::Modal { title: "/session", body: session(&facts.session) }
    } else if same(message, "/sessions") {
        SlashStep::ShowSessions
    } else if same(message, "/theme") {
        let body = owned("当前主题: ").concat(facts.config.ui_theme.as_str()).concat(
            "（代码高亮随主题联动）\n\n↑/↓ 选择 · Enter 应用并保存到 ",
        ).concat(facts.home_config.as_str()).concat(
            " · Esc 取消\n\n注：若 workspace 配置了 [ui] theme，下次启动以 workspace 为准。",
        );
        SlashStep::ThemeMenu { body }
    } else if same(message, "/new") {
        SlashStep::NewSession
    } else if same(message, "/cancel") {
        if facts.running {
            SlashStep::Cancel
        } else {
            SlashStep::Line(owned("当前没有正在运行的 run"))
        }
    } else if same(message, "/thinking") {
        let value = text_or(&facts.config.model.reasoning, "未配置（默认）");
        let body = owned("reasoning: ").concat(value.as_str()).concat(
            "\n说明: 透传给 provider 的推理设置（§18.1 [model.primary] reasoning）；\n未配置时使用 provider 默认。",
        );
        SlashStep::Modal { title: "/thinking", body }
    } else if same(message, "/diff") {
        if facts.session.is_some() {
            SlashStep::ShowDiff
        } else {
            SlashStep::Modal { title: "/diff", body: owned("尚无 session") }
        }
    } else if same(message, "/doctor") {
        SlashStep::ShowDoctor
    } else if same(message, "/compact") {
        SlashStep::Compact
    } else if same(message, "/retry") {
        match last_failed {
            Some(target) => {
                let line = owned("⟳ 重试上一次 turn（").concat(
                    target.message.as_str(),
                ).concat("）");
                SlashStep::Retry { message: target.message.clone(), line }
            },
            None => SlashStep::Line(
                owned("没有可重试的 turn（上一次 run 成功或尚无 run）"),
            ),
        }
    } else {
        SlashStep::NotCommand
    }
}

/// What is said when something was done for a command, where it is always the same.
pub open spec fn said_after(step: SlashStep) -> Option<Seq<char>> {
    match step {
        SlashStep::NewSession => Some("已开始新会话"@),
        SlashStep::Cancel => Some("已发送取消（§11.5：保留 session）"@),
        SlashStep::Compact => Some(
            "将在下一次 run 开始时执行手动压缩（压缩旧历史为摘要）"@,
        ),
        _ => None,
    }
}

/// What is said when something was done for a command.
pub fn step_line(step: &SlashStep) -> (r: Option<&'static str>)
    ensures
        match r {
            Some(line) => said_after(*step) == Some(line@),
            None => said_after(*step) is None,
        },
{
    match step {
        SlashStep::NewSession => Some("已开始新会话"),
        SlashStep::Cancel => Some("已发送取消（§11.5：保留 session）"),
        SlashStep::Compact => Some(
            "将在下一次 run 开始时执行手动压缩（压缩旧历史为摘要）",
        ),
        _ => None,
    }
}

/// What is said in place of the list of sessions: where it cannot be had, and where there
/// is none.
pub open spec fn instead_of_list(listed: Result<usize, String>) -> Option<Seq<char>> {
    match listed {
        Ok(count) => if count == 0 {
            Some("当前 workspace 没有历史 session"@)
        } else {
            None
        },
        Err(error) => Some("无法列出 session: "@ + error@),
    }
}

/// What is said in place of the list of sessions.
pub fn sessions_notice(listed: &Result<usize, String>) -> (r: Option<String>)
    ensures
        opt_view(r) == instead_of_list(*listed),
{
    match listed {
        Ok(count) => if *count == 0 {
            Some(owned("当前 workspace 没有历史 session"))
        } else {
            None
        },
        Err(error) => Some(owned("无法列出 session: ").concat(error.as_str())),
    }
}

} // verus!
