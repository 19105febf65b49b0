//! The commands that begin with a slash, in one place: help, completion and dispatch all go
//! by the same list.
use crate::app::intent::AppCommand;
use crate::app::intent::AppCommandView;
use crate::text::opt_view;
use crate::text::owned;
use crate::text::same;
use crate::text::trim;
use crate::text::trim_end_of;
use crate::text::trim_of;
use crate::text::trim_start_of;
use crate::text::views;
use vstd::prelude::*;
use vstd::string::*;

verus! {

/// A command.
#[derive(Debug, Clone, Copy, PartialEq, Eq)]
pub struct SlashCommandSpec {
    pub name: &'static str,
    pub desc: &'static str,
    /// Whether it gives something up, so that it should be confirmed.
    pub dangerous: bool,
}

/// What a [`SlashCommandSpec`] says.
pub struct SlashCommandView {
    pub name: Seq<char>,
    pub desc: Seq<char>,
    pub dangerous: bool,
}

impl View for SlashCommandSpec {
    type V = SlashCommandView;

    open spec fn view(&self) -> SlashCommandView {
        SlashCommandView { name: self.name@, desc: self.desc@, dangerous: self.dangerous }
    }
}

/// A command.
pub open spec fn entry(name: Seq<char>, desc: Seq<char>, dangerous: bool) -> SlashCommandView {
    SlashCommandView { name, desc, dangerous }
}

/// A command.
pub fn command_spec(name: &'static str, desc: &'static str, dangerous: bool) -> (r:
    SlashCommandSpec)
    ensures
        r@ == entry(name@, desc@, dangerous),
{
    SlashCommandSpec { name, desc, dangerous }
}

/// All commands, in the order in which they are listed. The first is the one that Enter
/// picks after a bare slash.
pub open spec fn registry() -> Seq<SlashCommandView> {
    seq![
        entry("help"@, "显示帮助与快捷键"@, false),
        entry("settings"@, "查看生效配置及来源"@, false),
        entry("model"@, "查看/切换模型（primary + profiles）"@, false),
        entry("session"@, "查看会话与成本"@, false),
        entry("sessions"@, "浏览并恢复历史会话"@, false),
        entry("theme"@, "切换主题（UI + 代码高亮）"@, false),
        entry("new"@, "开始新会话"@, true),
        entry("cancel"@, "取消当前 run"@, false),
        entry("thinking"@, "查看推理设置"@, false),
        entry("diff"@, "查看本轮全部文件 diff"@, false),
        entry("doctor"@, "环境检查（config/模型/API key/Git Bash）"@, false),
        entry("mcp"@, "查看 MCP server 状态"@, false),
        entry("compact"@, "手动压缩上下文"@, true),
        entry("retry"@, "重试上一次失败/中断的 turn"@, true),
        entry("quit"@, "退出 TPI"@, true),
        entry("exit"@, "退出 TPI"@, true),
    ]
}

/// All commands, in the order in which they are listed.
pub fn slash_commands() -> (r: Vec<SlashCommandSpec>)
    ensures
        views(r@) == registry(),
{
    let all = vec![
        command_spec("help", "显示帮助与快捷键", false),
        command_spec("settings", "查看生效配置及来源", false),
        command_spec("model", "查看/切换模型（primary + profiles）", false),
        command_spec("session", "查看会话与成本", false),
        command_spec("sessions", "浏览并恢复历史会话", false),
        command_spec("theme", "切换主题（UI + 代码高亮）", false),
        command_spec("new", "开始新会话", true),
        command_spec("cancel", "取消当前 run", false),
        command_spec("thinking", "查看推理设置", false),
        command_spec("diff", "查看本轮全部文件 diff", false),
        command_spec("doctor", "环境检查（config/模型/API key/Git Bash）", false),
        command_spec("mcp", "查看 MCP server 状态", false),
        command_spec("compact", "手动压缩上下文", true),
        command_spec("retry", "重试上一次失败/中断的 turn", true),
        command_spec("quit", "退出 TPI", true),
        command_spec("exit", "退出 TPI", true),
    ];
    assert(views(all@) =~= registry());
    all
}

/// The names and descriptions of all commands.
pub fn help_lines() -> (r: Vec<(&'static str, &'static str)>)
    ensures
        r@.len() == registry().len(),
        forall|i: int|
            0 <= i < r@.len() ==> (#[trigger] r@[i]).0@ == registry()[i].name && r@[i].1@
                == registry()[i].desc,
{
    let all = slash_commands();
    assert(all@.len() == registry().len());
    let mut out: Vec<(&'static str, &'static str)> = Vec::new();
    let mut i: usize = 0;
    while i < all.len()
        invariant
            i <= all@.len(),
            views(all@) == registry(),
            out@.len() == i,
            forall|j: int|
                0 <= j < i ==> (#[trigger] out@[j]).0@ == registry()[j].name && out@[j].1@
                    == registry()[j].desc,
        decreases all@.len() - i,
    {
        assert(registry()[i as int] == views(all@)[i as int]);
        assert(views(all@)[i as int] == all@[i as int]@);
        out.push((all[i].name, all[i].desc));
        i += 1;
    }
    out
}

/// Whether there is a command of that name.
pub open spec fn registered(name: Seq<char>) -> bool {
    exists|i: int| 0 <= i < registry().len() && (#[trigger] registry()[i]).name == name
}

/// Whether there is a command of that name.
pub fn is_registered(name: &str) -> (r: bool)
    ensures
        r == registered(name@),
{
    let all = slash_commands();
    let mut i: usize = 0;
    while i < all.len()
        invariant
            i <= all@.len(),
            views(all@) == registry(),
            forall|j: int| 0 <= j < i ==> (#[trigger] registry()[j]).name != name@,
        decreases all@.len() - i,
    {
        assert(views(all@)[i as int] == all@[i as int]@);
        if same(all[i].name, name) {
            assert(registry()[i as int].name == name@);
            return true;
        }
        i += 1;
    }
    false
}

/// A window is opened.
pub open spec fn opens(name: Seq<char>) -> Option<AppCommandView> {
    Some(AppCommandView::OpenModal { name })
}

/// What a message asks for, where it is a command: the message without white space around it
/// is looked up.
pub open spec fn command_of(message: Seq<char>) -> Option<AppCommandView> {
    let text = trim_of(message);
    if text == "/quit"@ || text == "/exit"@ {
        Some(AppCommandView::Quit)
    } else if text == "/cancel"@ {
        Some(AppCommandView::CancelRun)
    } else if text == "/new"@ {
        Some(AppCommandView::StartNewSession)
    } else if text == "/compact"@ {
        Some(AppCommandView::CompactNow)
    } else if text == "/retry"@ {
        Some(AppCommandView::RetryLast)
    } else if text == "/mcp"@ {
        opens("mcp"@)
    } else if text == "/settings"@ {
        opens("settings"@)
    } else if text == "/model"@ {
        opens("model"@)
    } else if text == "/help"@ {
        opens("help"@)
    } else if text == "/session"@ {
        opens("session"@)
    } else if text == "/sessions"@ {
        opens("sessions"@)
    } else if text == "/theme"@ {
        opens("theme"@)
    } else if text == "/diff"@ {
        opens("diff"@)
    } else if text == "/doctor"@ {
        opens("doctor"@)
    } else if text == "/thinking"@ {
        opens("thinking"@)
    } else {
        None
    }
}

fn open(name: &str) -> (r: Option<AppCommand>)
    ensures
        opt_view(r) == opens(name@),
{
    Some(AppCommand::OpenModal { name: owned(name) })
}

/// What a message asks for, where it is a command.
pub fn command_from_slash(message: &str) -> (r: Option<AppCommand>)
    ensures
        opt_view(r) == command_of(message@),
{
    let trimmed = trim(message);
    let text = trimmed.as_str();
    if same(text, "/quit") || same(text, "/exit") {
        Some(AppCommand::Quit)
    } else if same(text, "/cancel") {
        Some(AppCommand::CancelRun)
    } else if same(text, "/new") {
        Some(AppCommand::StartNewSession)
    } else if same(text, "/compact") {
        Some(AppCommand::CompactNow)
    } else if same(text, "/retry") {
        Some(AppCommand::RetryLast)
    } else if same(text, "/mcp") {
        open("mcp")
    } else if same(text, "/settings") {
        open("settings")
    } else if same(text, "/model") {
        open("model")
    } else if same(text, "/help") {
        open("help")
    } else if same(text, "/session") {
        open("session")
    } else if same(text, "/sessions") {
        open("sessions")
    } else if same(text, "/theme") {
        open("theme")
    } else if same(text, "/diff") {
        open("diff")
    } else if same(text, "/doctor") {
        open("doctor")
    } else if same(text, "/thinking") {
        open("thinking")
    } else {
        None
    }
}

proof fn lemma_reveal_names()
    ensures
        "help"@ == seq!['h', 'e', 'l', 'p'],
        "settings"@ == seq!['s', 'e', 't', 't', 'i', 'n', 'g', 's'],
        "model"@ == seq!['m', 'o', 'd', 'e', 'l'],
        "session"@ == seq!['s', 'e', 's', 's', 'i', 'o', 'n'],
        "sessions"@ == seq!['s', 'e', 's', 's', 'i', 'o', 'n', 's'],
        "theme"@ == seq!['t', 'h', 'e', 'm', 'e'],
        "new"@ == seq!['n', 'e', 'w'],
        "cancel"@ == seq!['c', 'a', 'n', 'c', 'e', 'l'],
        "thinking"@ == seq!['t', 'h', 'i', 'n', 'k', 'i', 'n', 'g'],
        "diff"@ == seq!['d', 'i', 'f', 'f'],
        "doctor"@ == seq!['d', 'o', 'c', 't', 'o', 'r'],
        "compact"@ == seq!['c', 'o', 'm', 'p', 'a', 'c', 't'],
        "retry"@ == seq!['r', 'e', 't', 'r', 'y'],
        "quit"@ == seq!['q', 'u', 'i', 't'],
        "exit"@ == seq!['e', 'x', 'i', 't'],
        "mcp"@ == seq!['m', 'c', 'p'],
{
    reveal_strlit("help");
    reveal_strlit("settings");
    reveal_strlit("model");
    reveal_strlit("session");
    reveal_strlit("sessions");
    reveal_strlit("theme");
    reveal_strlit("new");
    reveal_strlit("cancel");
    reveal_strlit("thinking");
    reveal_strlit("diff");
    reveal_strlit("doctor");
    reveal_strlit("compact");
    reveal_strlit("retry");
    reveal_strlit("quit");
    reveal_strlit("exit");
    reveal_strlit("mcp");
}

/// No two commands have the same name.
pub proof fn command_names_are_unique(i: int, j: int)
    requires
        0 <= i < j < registry().len(),
    ensures
        registry()[i].name != registry()[j].name,
{
    lemma_reveal_names();
    let a = registry()[i].name;
    let b = registry()[j].name;
    if a == b {
        assert(a.len() == b.len());
        assert(a[0] == b[0]);
        assert(a[2] == b[2]);
    }
}

/// The command that Enter picks after a bare slash gives nothing up.
pub proof fn the_first_command_is_safe()
    ensures
        registry()[0].name == "help"@,
        !registry()[0].dangerous,
{
}

proof fn lemma_reveal_commands()
    ensures
        "/"@ + "help"@ == "/help"@,
        "/"@ + "settings"@ == "/settings"@,
        "/"@ + "model"@ == "/model"@,
        "/"@ + "session"@ == "/session"@,
        "/"@ + "sessions"@ == "/sessions"@,
        "/"@ + "theme"@ == "/theme"@,
        "/"@ + "new"@ == "/new"@,
        "/"@ + "cancel"@ == "/cancel"@,
        "/"@ + "thinking"@ == "/thinking"@,
        "/"@ + "diff"@ == "/diff"@,
        "/"@ + "doctor"@ == "/doctor"@,
        "/"@ + "compact"@ == "/compact"@,
        "/"@ + "retry"@ == "/retry"@,
        "/"@ + "quit"@ == "/quit"@,
        "/"@ + "exit"@ == "/exit"@,
        "/"@ + "mcp"@ == "/mcp"@,
{
    lemma_reveal_names();
    reveal_strlit("/");
    reveal_strlit("/help");
    reveal_strlit("/settings");
    reveal_strlit("/model");
    reveal_strlit("/session");
    reveal_strlit("/sessions");
    reveal_strlit("/theme");
    reveal_strlit("/new");
    reveal_strlit("/cancel");
    reveal_strlit("/thinking");
    reveal_strlit("/diff");
    reveal_strlit("/doctor");
    reveal_strlit("/compact");
    reveal_strlit("/retry");
    reveal_strlit("/quit");
    reveal_strlit("/exit");
    reveal_strlit("/mcp");
    assert("/"@ + "help"@ =~= "/help"@);
    assert("/"@ + "settings"@ =~= "/settings"@);
    assert("/"@ + "model"@ =~= "/model"@);
    assert("/"@ + "session"@ =~= "/session"@);
    assert("/"@ + "sessions"@ =~= "/sessions"@);
    assert("/"@ + "theme"@ =~= "/theme"@);
    assert("/"@ + "new"@ =~= "/new"@);
    assert("/"@ + "cancel"@ =~= "/cancel"@);
    assert("/"@ + "thinking"@ =~= "/thinking"@);
    assert("/"@ + "diff"@ =~= "/diff"@);
    assert("/"@ + "doctor"@ =~= "/doctor"@);
    assert("/"@ + "compact"@ =~= "/compact"@);
    assert("/"@ + "retry"@ =~= "/retry"@);
    assert("/"@ + "quit"@ =~= "/quit"@);
    assert("/"@ + "exit"@ =~= "/exit"@);
    assert("/"@ + "mcp"@ =~= "/mcp"@);
}

/// Every command in the list is understood.
pub proof fn every_command_is_understood(i: int)
    requires
        0 <= i < registry().len(),
    ensures
        command_of("/"@ + registry()[i].name) is Some,
{
    lemma_reveal_names();
    lemma_reveal_commands();
    reveal_strlit("/");
    let text = "/"@ + registry()[i].name;
    assert(text[0] == '/');
    assert(text.last() == registry()[i].name.last());
    assert(trim_start_of(text) == text);
    assert(trim_end_of(text) == text);
    assert(trim_of(text) == text);
}

/// What is understood is in the list: there is no command that it does not name.
pub proof fn every_understood_command_is_listed(message: Seq<char>)
    requires
        command_of(message) is Some,
    ensures
        exists|i: int|
            0 <= i < registry().len() && trim_of(message) == "/"@ + (
            #[trigger] registry()[i]).name,
{
    lemma_reveal_commands();
    let text = trim_of(message);
    let all = registry();
    let i: int = if text == "/help"@ {
        0
    } else if text == "/settings"@ {
        1
    } else if text == "/model"@ {
        2
    } else if text == "/session"@ {
        3
    } else if text == "/sessions"@ {
        4
    } else if text == "/theme"@ {
        5
    } else if text == "/new"@ {
        6
    } else if text == "/cancel"@ {
        7
    } else if text == "/thinking"@ {
        8
    } else if text == "/diff"@ {
        9
    } else if text == "/doctor"@ {
        10
    } else if text == "/mcp"@ {
        11
    } else if text == "/compact"@ {
        12
    } else if text == "/retry"@ {
        13
    } else if text == "/quit"@ {
        14
    } else {
        15
    };
    assert(text == "/"@ + all[i].name);
}

/// White space around a message does not matter.
pub proof fn space_around_a_command_does_not_matter(a: Seq<char>, b: Seq<char>)
    requires
        trim_of(a) == trim_of(b),
    ensures
        command_of(a) == command_of(b),
{
}

} // verus!
