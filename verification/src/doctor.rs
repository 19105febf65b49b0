//! Whether everything is in place.
use crate::config::key_of;
use crate::config::read_api_key;
use crate::config::Config;
use crate::config::DEFAULT_API_KEY_ENV;
use crate::outcome::clone_text;
use crate::text::decimal;
use crate::text::decimal_of;
use crate::text::opt_view;
use crate::text::owned;
use crate::text::views;
use crate::text::views_push;
use vstd::prelude::*;
use vstd::string::*;

verus! {

/// Something that was looked at.
#[derive(Debug, Clone, PartialEq, Eq)]
pub struct DoctorCheck {
    pub name: &'static str,
    pub ok: bool,
    /// What was found, or what to do.
    pub detail: String,
}

/// What a [`DoctorCheck`] says.
pub struct CheckView {
    pub name: Seq<char>,
    pub ok: bool,
    pub detail: Seq<char>,
}

impl View for DoctorCheck {
    type V = CheckView;

    open spec fn view(&self) -> CheckView {
        CheckView { name: self.name@, ok: self.ok, detail: self.detail@ }
    }
}

/// A directory, and whether it can be written to.
#[derive(Debug, Clone, PartialEq, Eq)]
pub struct Directory {
    pub path: String,
    pub writable: bool,
}

/// The keys that something is bound to.
#[derive(Debug, Clone, PartialEq, Eq)]
pub struct KeyBinding {
    pub bound: bool,
    pub keys: String,
}

/// What the program cannot do without: to submit, to begin a new line, and to escape.
#[derive(Debug, Clone, PartialEq, Eq)]
pub struct KeyBindings {
    pub submit: KeyBinding,
    pub insert_newline: KeyBinding,
    pub escape: KeyBinding,
}

/// A line of a session that cannot be read.
#[derive(Debug, Clone, PartialEq, Eq)]
pub struct DamagedLine {
    pub session: String,
    pub line: usize,
    pub reason: String,
}

/// What was found.
#[derive(Debug)]
pub struct DoctorFacts {
    pub home_config: String,
    pub home_config_exists: bool,
    pub workspace_config: String,
    pub workspace_config_exists: bool,
    /// The configuration, or why there is none.
    pub loaded: Result<Config, String>,
    /// What the environment variable for the key holds.
    pub env_key: Option<String>,
    /// The stored credential.
    pub stored_key: Option<String>,
    /// Where Bash is.
    pub bash: Option<String>,
    pub sessions: Directory,
    pub artifacts: Directory,
    pub logs: Directory,
    /// The code page of the console, on a platform that has one.
    pub code_page: Option<u32>,
    pub workspace_writable: bool,
    pub keys: KeyBindings,
    pub damaged: Vec<DamagedLine>,
}

/// The code page of UTF-8.
pub const UTF8_CODE_PAGE: u32 = 65001;

/// How many damaged lines are shown.
pub const MAX_SHOWN_LINES: usize = 5;

/// Whether there is a configuration.
pub open spec fn config_check(facts: DoctorFacts) -> CheckView {
    CheckView {
        name: "config"@,
        ok: facts.home_config_exists || facts.workspace_config_exists,
        detail: if facts.workspace_config_exists {
            facts.workspace_config@ + " 存在"@
        } else if facts.home_config_exists {
            facts.home_config@ + " 存在"@
        } else {
            facts.home_config@ + " 与 "@ + facts.workspace_config@
                + " 均不存在（运行 `tpi init` 生成用户配置）"@
        },
    }
}

/// Whether there is a model.
pub open spec fn model_check(facts: DoctorFacts) -> CheckView {
    let found = facts.loaded matches Ok(config) && config.model.name@.len() > 0;
    CheckView {
        name: "model"@,
        ok: found,
        detail: if found {
            "模型配置可用"@
        } else {
            match facts.loaded {
                Ok(config) => "未配置 [model.primary]（provider/name/base_url 必填）"@,
                Err(error) => error@,
            }
        },
    }
}

/// Whether there is a key.
pub open spec fn key_check(facts: DoctorFacts) -> CheckView {
    let found = facts.loaded matches Ok(config) && key_of(
        config.model,
        opt_view(facts.env_key),
        opt_view(facts.stored_key),
    ) is Some;
    CheckView {
        name: "api_key"@,
        ok: found,
        detail: if found {
            "API key 可读取（环境变量或凭据管理器）"@
        } else {
            "未找到 API key：设置 "@ + (match facts.loaded {
                Ok(config) => config.model.api_key_env@,
                Err(error) => DEFAULT_API_KEY_ENV@,
            }) + " 或用 `tpi auth set <provider>`"@
        },
    }
}

/// Whether there is Bash.
pub open spec fn bash_check(facts: DoctorFacts) -> CheckView {
    CheckView {
        name: "git_bash"@,
        ok: facts.bash is Some,
        detail: match facts.bash {
            Some(path) => path@ + " "@ + (if facts.loaded matches Ok(config)
                && config.shell_path is Some {
                "（配置的 shell.path）"@
            } else {
                "（自动探测）"@
            }),
            None => "未找到 Git Bash（运行 scripts/install-bash.ps1 或配置 shell.path）"@,
        },
    }
}

/// Whether a directory can be written to.
pub open spec fn directory_check(name: Seq<char>, directory: Directory) -> CheckView {
    CheckView {
        name,
        ok: directory.writable,
        detail: directory.path@ + if directory.writable {
            " 可写"@
        } else {
            " 不可用"@
        },
    }
}

/// Whether the console shows UTF-8.
pub open spec fn console_check(code_page: u32) -> CheckView {
    CheckView {
        name: "console"@,
        ok: code_page == UTF8_CODE_PAGE,
        detail: if code_page == UTF8_CODE_PAGE {
            "控制台输出代码页 = UTF-8 (65001)"@
        } else {
            "控制台输出代码页 = "@ + decimal_of(code_page as nat)
                + "（中文系统可能显示乱码，重启后 TPI 会自动切换）"@
        },
    }
}

/// Whether the workspace can be written to.
pub open spec fn workspace_check(writable: bool) -> CheckView {
    CheckView {
        name: "workspace"@,
        ok: writable,
        detail: if writable {
            "workspace 可写"@
        } else {
            "workspace 不可写（检查权限）"@
        },
    }
}

/// The bindings of keys in words.
pub open spec fn bindings_text(keys: KeyBindings) -> Seq<char> {
    "submit: "@ + keys.submit.keys@ + " · insert_newline: "@ + keys.insert_newline.keys@
        + " · escape: "@ + keys.escape.keys@
}

/// Whether every binding is there.
pub open spec fn all_bound(keys: KeyBindings) -> bool {
    keys.submit.bound && keys.insert_newline.bound && keys.escape.bound
}

/// Whether keys are bound to what they have to be.
pub open spec fn keymap_check(keys: KeyBindings) -> CheckView {
    CheckView {
        name: "keymap"@,
        ok: all_bound(keys),
        detail: if all_bound(keys) {
            bindings_text(keys)
        } else {
            bindings_text(keys) + "（关键动作缺失，已回退默认键）"@
        },
    }
}

/// Damaged lines in words.
pub open spec fn damaged_lines(lines: Seq<DamagedLine>) -> Seq<char>
    decreases lines.len(),
{
    if lines.len() == 0 {
        Seq::empty()
    } else {
        damaged_lines(lines.drop_last()) + "\n  "@ + lines.last().session@ + " L"@ + decimal_of(
            lines.last().line as nat,
        ) + ": "@ + lines.last().reason@
    }
}

/// Whether the sessions can be read.
pub open spec fn integrity_check(damaged: Seq<DamagedLine>) -> CheckView {
    CheckView {
        name: "session_integrity"@,
        ok: damaged.len() == 0,
        detail: if damaged.len() == 0 {
            "当前 workspace 的 session 文件全部健康"@
        } else if damaged.len() <= MAX_SHOWN_LINES {
            decimal_of(damaged.len()) + " 个坏行（`tpi sessions repair` 修复）:"@ + damaged_lines(
                damaged,
            )
        } else {
            decimal_of(damaged.len()) + " 个坏行（`tpi sessions repair` 修复）:"@ + damaged_lines(
                damaged.take(MAX_SHOWN_LINES as int),
            ) + "\n  …等 "@ + decimal_of(damaged.len()) + " 条"@
        },
    }
}

/// All that was looked at.
pub open spec fn report_of(facts: DoctorFacts) -> Seq<CheckView> {
    seq![
        config_check(facts),
        model_check(facts),
        key_check(facts),
        bash_check(facts),
        directory_check("sessions"@, facts.sessions),
        directory_check("artifacts"@, facts.artifacts),
        directory_check("logs"@, facts.logs),
    ] + (match facts.code_page {
        Some(code_page) => seq![console_check(code_page)],
        None => Seq::empty(),
    }) + seq![
        workspace_check(facts.workspace_writable),
        keymap_check(facts.keys),
        integrity_check(facts.damaged@),
    ]
}

fn check_config(facts: &DoctorFacts) -> (r: DoctorCheck)
    ensures
        r@ == config_check(*facts),
{
    let detail = if facts.workspace_config_exists {
        facts.workspace_config.clone().concat(" 存在")
    } else if facts.home_config_exists {
        facts.home_config.clone().concat(" 存在")
    } else {
        facts.home_config.clone().concat(" 与 ").concat(facts.workspace_config.as_str()).concat(
            " 均不存在（运行 `tpi init` 生成用户配置）",
        )
    };
    DoctorCheck {
        name: "config",
        ok: facts.home_config_exists || facts.workspace_config_exists,
        detail,
    }
}

fn check_model(facts: &DoctorFacts) -> (r: DoctorCheck)
    ensures
        r@ == model_check(*facts),
{
    match &facts.loaded {
        Ok(config) => if config.model.name.as_str().is_empty() {
            DoctorCheck {
                name: "model",
                ok: false,
                detail: owned("未配置 [model.primary]（provider/name/base_url 必填）"),
            }
        } else {
            DoctorCheck { name: "model", ok: true, detail: owned("模型配置可用") }
        },
        Err(error) => DoctorCheck { name: "model", ok: false, detail: error.clone() },
    }
}

fn check_key(facts: &DoctorFacts) -> (r: DoctorCheck)
    ensures
        r@ == key_check(*facts),
{
    let name = match &facts.loaded {
        Ok(config) => config.model.api_key_env.clone(),
        Err(_) => owned(DEFAULT_API_KEY_ENV),
    };
    let found = match &facts.loaded {
        Ok(config) => {
            let env = clone_text(&facts.env_key);
            let stored = clone_text(&facts.stored_key);
            match read_api_key(&config.model, env, stored) {
                Ok(_) => true,
                Err(_) => false,
            }
        },
        Err(_) => false,
    };
    let detail = if found {
        owned("API key 可读取（环境变量或凭据管理器）")
    } else {
        owned("未找到 API key：设置 ").concat(name.as_str()).concat(
            " 或用 `tpi auth set <provider>`",
        )
    };
    DoctorCheck { name: "api_key", ok: found, detail }
}

fn check_bash(facts: &DoctorFacts) -> (r: DoctorCheck)
    ensures
        r@ == bash_check(*facts),
{
    let configured = match &facts.loaded {
        Ok(config) => config.shell_path.is_some(),
        Err(_) => false,
    };
    let source = if configured {
        "（配置的 shell.path）"
    } else {
        "（自动探测）"
    };
    match &facts.bash {
        Some(path) => DoctorCheck {
            name: "git_bash",
            ok: true,
            detail: path.clone().concat(" ").concat(source),
        },
        None => DoctorCheck {
            name: "git_bash",
            ok: false,
            detail: owned(
                "未找到 Git Bash（运行 scripts/install-bash.ps1 或配置 shell.path）",
            ),
        },
    }
}

fn check_directory(name: &'static str, directory: &Directory) -> (r: DoctorCheck)
    ensures
        r@ == directory_check(name@, *directory),
{
    let state = if directory.writable {
        " 可写"
    } else {
        " 不可用"
    };
    DoctorCheck { name, ok: directory.writable, detail: directory.path.clone().concat(state) }
}

fn check_console(code_page: u32) -> (r: DoctorCheck)
    ensures
        r@ == console_check(code_page),
{
    let detail = if code_page == UTF8_CODE_PAGE {
        owned("控制台输出代码页 = UTF-8 (65001)")
    } else {
        let shown = decimal(code_page as u128);
        owned("控制台输出代码页 = ").concat(shown.as_str()).concat(
            "（中文系统可能显示乱码，重启后 TPI 会自动切换）",
        )
    };
    DoctorCheck { name: "console", ok: code_page == UTF8_CODE_PAGE, detail }
}

fn check_workspace(writable: bool) -> (r: DoctorCheck)
    ensures
        r@ == workspace_check(writable),
{
    let detail = if writable {
        owned("workspace 可写")
    } else {
        owned("workspace 不可写（检查权限）")
    };
    DoctorCheck { name: "workspace", ok: writable, detail }
}

fn check_keymap(keys: &KeyBindings) -> (r: DoctorCheck)
    ensures
        r@ == keymap_check(*keys),
{
    let detail = owned("submit: ").concat(keys.submit.keys.as_str()).concat(
        " · insert_newline: ",
    ).concat(keys.insert_newline.keys.as_str()).concat(" · escape: ").concat(
        keys.escape.keys.as_str(),
    );
    if keys.submit.bound && keys.insert_newline.bound && keys.escape.bound {
        DoctorCheck { name: "keymap", ok: true, detail }
    } else {
        DoctorCheck {
            name: "keymap",
            ok: false,
            detail: detail.concat("（关键动作缺失，已回退默认键）"),
        }
    }
}

fn check_integrity(damaged: &Vec<DamagedLine>) -> (r: DoctorCheck)
    ensures
        r@ == integrity_check(damaged@),
{
    if damaged.len() == 0 {
        return DoctorCheck {
            name: "session_integrity",
            ok: true,
            detail: owned("当前 workspace 的 session 文件全部健康"),
        };
    }
    let count = decimal(damaged.len() as u128);
    let shown: usize = if damaged.len() > MAX_SHOWN_LINES {
        MAX_SHOWN_LINES
    } else {
        damaged.len()
    };
    let mut lines = String::new();
    let mut i: usize = 0;
    assert(lines@ =~= damaged_lines(damaged@.take(0)));
    while i < shown
        invariant
            i <= shown <= damaged@.len(),
            lines@ == damaged_lines(damaged@.take(i as int)),
        decreases shown - i,
    {
        proof {
            let next = damaged@.take(i + 1);
            assert(next.drop_last() =~= damaged@.take(i as int));
            assert(next.last() == damaged@[i as int]);
        }
        let number = decimal(damaged[i].line as u128);
        lines.append("\n  ");
        lines.append(damaged[i].session.as_str());
        lines.append(" L");
        lines.append(number.as_str());
        lines.append(": ");
        lines.append(damaged[i].reason.as_str());
        i += 1;
    }
    let head = count.clone().concat(" 个坏行（`tpi sessions repair` 修复）:").concat(
        lines.as_str(),
    );
    let detail = if damaged.len() > MAX_SHOWN_LINES {
        head.concat("\n  …等 ").concat(count.as_str()).concat(" 条")
    } else {
        assert(damaged@.take(shown as int) =~= damaged@);
        head
    };
    DoctorCheck { name: "session_integrity", ok: false, detail }
}

fn add_check(checks: &mut Vec<DoctorCheck>, check: DoctorCheck)
    ensures
        views(final(checks)@) == views(old(checks)@).push(check@),
{
    proof {
        views_push(checks@, check);
    }
    checks.push(check);
}

/// All that was looked at, by what was found.
pub fn doctor_report(facts: &DoctorFacts) -> (r: Vec<DoctorCheck>)
    ensures
        views(r@) == report_of(*facts),
{
    let mut checks: Vec<DoctorCheck> = Vec::new();
    add_check(&mut checks, check_config(facts));
    add_check(&mut checks, check_model(facts));
    add_check(&mut checks, check_key(facts));
    add_check(&mut checks, check_bash(facts));
    add_check(&mut checks, check_directory("sessions", &facts.sessions));
    add_check(&mut checks, check_directory("artifacts", &facts.artifacts));
    add_check(&mut checks, check_directory("logs", &facts.logs));
    if let Some(code_page) = facts.code_page {
        add_check(&mut checks, check_console(code_page));
    }
    add_check(&mut checks, check_workspace(facts.workspace_writable));
    add_check(&mut checks, check_keymap(&facts.keys));
    add_check(&mut checks, check_integrity(&facts.damaged));
    assert(views(checks@) =~= report_of(*facts));
    checks
}

/// A line for each thing that was looked at.
pub open spec fn check_lines(checks: Seq<CheckView>) -> Seq<char>
    decreases checks.len(),
{
    if checks.len() == 0 {
        Seq::empty()
    } else {
        check_lines(checks.drop_last()) + (if checks.last().ok {
            "✓"@
        } else {
            "✗"@
        }) + " "@ + checks.last().name + "："@ + checks.last().detail + "\n"@
    }
}

/// The report in words.
pub fn render_report(facts: &DoctorFacts) -> (r: String)
    ensures
        r@ == "TPI 环境检查\n"@ + check_lines(report_of(*facts)),
{
    let checks = doctor_report(facts);
    let ghost all = views(checks@);
    let ghost head = "TPI 环境检查\n"@;
    let mut out = owned("TPI 环境检查\n");
    let mut i: usize = 0;
    assert(out@ =~= head + check_lines(all.take(0)));
    while i < checks.len()
        invariant
            i <= checks@.len(),
            all == views(checks@),
            out@ == head + check_lines(all.take(i as int)),
        decreases checks@.len() - i,
    {
        proof {
            let next = all.take(i + 1);
            assert(next.drop_last() =~= all.take(i as int));
            assert(next.last() == checks@[i as int]@);
        }
        let mark = if checks[i].ok {
            "✓"
        } else {
            "✗"
        };
        out.append(mark);
        out.append(" ");
        out.append(checks[i].name);
        out.append("：");
        out.append(checks[i].detail.as_str());
        out.append("\n");
        assert(out@ =~= head + check_lines(all.take(i + 1)));
        i += 1;
    }
    assert(all.take(i as int) =~= all);
    out
}

/// Something is wrong only where a check says so, and then the report shows it.
pub proof fn every_fault_is_shown(facts: DoctorFacts)
    ensures
        ({
            let report = report_of(facts);
            &&& report.len() == (if facts.code_page is Some {
                11int
            } else {
                10int
            })
            &&& (forall|i: int| 0 <= i < report.len() ==> (#[trigger] report[i]).ok) <==> (
            facts.home_config_exists || facts.workspace_config_exists) && (
            facts.loaded matches Ok(config) && config.model.name@.len() > 0 && key_of(
                config.model,
                opt_view(facts.env_key),
                opt_view(facts.stored_key),
            ) is Some) && facts.bash is Some && facts.sessions.writable && facts.artifacts.writable
                && facts.logs.writable && (facts.code_page matches Some(page) ==> page
                == UTF8_CODE_PAGE) && facts.workspace_writable && all_bound(facts.keys)
                && facts.damaged@.len() == 0
        }),
{
    let report = report_of(facts);
    let tail = if facts.code_page is Some {
        8int
    } else {
        7int
    };
    assert(report[0] == config_check(facts));
    assert(report[1] == model_check(facts));
    assert(report[2] == key_check(facts));
    assert(report[3] == bash_check(facts));
    assert(report[4] == directory_check("sessions"@, facts.sessions));
    assert(report[5] == directory_check("artifacts"@, facts.artifacts));
    assert(report[6] == directory_check("logs"@, facts.logs));
    if let Some(page) = facts.code_page {
        assert(report[7] == console_check(page));
    }
    assert(report[tail] == workspace_check(facts.workspace_writable));
    assert(report[tail + 1] == keymap_check(facts.keys));
    assert(report[tail + 2] == integrity_check(facts.damaged@));
}

/// How many names are tried for a probe.
pub const MAX_PROBES: u32 = 4;

/// What came of writing a probe into a directory.
#[derive(Debug, Clone, PartialEq, Eq)]
pub enum ProbeEvent {
    /// The directory could not be made.
    NoDirectory(String),
    /// There is a file of that name already; it was left alone.
    Taken,
    /// The probe was written and taken away again.
    Written,
    /// It could not be made, written or taken away.
    Failed(String),
}

/// What a probe of a directory does next.
#[derive(Debug, Clone, PartialEq, Eq)]
pub enum ProbeAction {
    /// Make a new file of this name.
    Make(String),
    /// The directory can be written to.
    Writable,
    /// It cannot.
    NotWritable(String),
}

/// A probe of whether a directory can be written to.
#[derive(Debug, Clone, Copy, PartialEq, Eq, Structural)]
pub struct Probe {
    /// How many names have been tried.
    pub tried: u32,
}

/// What a probe does where a name is wanted: it takes a new one, up to a number of times.
pub open spec fn takes_a_name(before: Probe, after: Probe, action: ProbeAction) -> bool {
    if before.tried < MAX_PROBES {
        &&& after.tried == before.tried + 1
        &&& action matches ProbeAction::Make(name) && exists|value: u128|
            #[trigger] crate::ids::is_v7(value) && name@ == ".tpi-write-probe-"@
                + crate::ids::hyphenated(value)
    } else {
        &&& after == before
        &&& action matches ProbeAction::NotWritable(error) && error@
            == "could not allocate a unique write probe"@
    }
}

impl Probe {
    /// A probe before its first try.
    pub fn new() -> (r: Self)
        ensures
            r == (Probe { tried: 0 }),
    {
        Probe { tried: 0 }
    }

    /// The name of a file that is not there yet, or the end after too many. Every name is
    /// new, so that nothing that is there is written over.
    pub fn next_name(&mut self) -> (r: ProbeAction)
        ensures
            takes_a_name(*old(self), *final(self), r),
    {
        if self.tried < MAX_PROBES {
            self.tried += 1;
            let id = crate::ids::EventId::new_v7();
            let text = id.to_text();
            assert(crate::ids::is_v7(id.0));
            ProbeAction::Make(owned(".tpi-write-probe-").concat(text.as_str()))
        } else {
            ProbeAction::NotWritable(owned("could not allocate a unique write probe"))
        }
    }

    /// What a try comes to: only a name that is taken is tried again.
    pub fn seen(&mut self, event: ProbeEvent) -> (r: ProbeAction)
        ensures
            match event {
                ProbeEvent::Written => r is Writable && *final(self) == *old(self),
                ProbeEvent::NoDirectory(error) => r == ProbeAction::NotWritable(error)
                    && *final(self) == *old(self),
                ProbeEvent::Failed(error) => r == ProbeAction::NotWritable(error) && *final(self)
                    == *old(self),
                ProbeEvent::Taken => takes_a_name(*old(self), *final(self), r),
            },
    {
        match event {
            ProbeEvent::Written => ProbeAction::Writable,
            ProbeEvent::NoDirectory(error) => ProbeAction::NotWritable(error),
            ProbeEvent::Failed(error) => ProbeAction::NotWritable(error),
            ProbeEvent::Taken => self.next_name(),
        }
    }
}

} // verus!
