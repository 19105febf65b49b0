//! Configuration.
//!
//! What is set on the command line counts before what a workspace sets, that before what
//! the user sets, and that before the defaults. There is no default model: a
//! configuration without one is an error.
use crate::text::opt_view;
use crate::text::owned;
use crate::text::same;
use crate::text::trim;
use crate::text::trim_of;
use vstd::prelude::*;
use vstd::string::*;

verus! {

/// `a`, or `b` where there is none.
pub open spec fn or_else<T>(a: Option<T>, b: Option<T>) -> Option<T> {
    match a {
        Some(value) => Some(value),
        None => b,
    }
}

fn first<T>(a: Option<T>, b: Option<T>) -> (r: Option<T>)
    ensures
        r == or_else(a, b),
{
    match a {
        Some(value) => Some(value),
        None => b,
    }
}

/// A configuration file.
#[derive(Debug, Clone, PartialEq, Eq)]
pub struct ConfigFile {
    pub model: ModelFile,
    pub agent: AgentFile,
    pub shell: ShellFile,
    pub context: ContextFile,
    pub ui: UiFile,
}

/// The table `ui`.
#[derive(Debug, Clone, PartialEq, Eq)]
pub struct UiFile {
    pub theme: Option<String>,
    pub mode: Option<String>,
}

/// The table `context`.
#[derive(Debug, Clone, Copy, PartialEq, Eq, Structural)]
pub struct ContextFile {
    pub safety_reserve_tokens: Option<u64>,
}

/// The table `shell`.
#[derive(Debug, Clone, PartialEq, Eq)]
pub struct ShellFile {
    pub kind: Option<String>,
    pub path: Option<String>,
}

/// The table `model`.
#[derive(Debug, Clone, PartialEq, Eq)]
pub struct ModelFile {
    pub primary: Option<PrimaryModelFile>,
    /// Other models to choose from by name.
    pub profiles: Vec<PrimaryModelFile>,
}

/// The table of a model.
#[derive(Debug, Clone, PartialEq, Eq)]
pub struct PrimaryModelFile {
    pub provider: String,
    pub name: String,
    pub base_url: String,
    pub reasoning: Option<String>,
    pub max_output_tokens: Option<u32>,
    pub context_window: Option<u64>,
    /// The environment variable that holds the key.
    pub api_key_env: Option<String>,
    /// The key itself.
    pub api_key: Option<String>,
}

/// The table `agent`.
#[derive(Debug, Clone, Copy, PartialEq, Eq, Structural)]
pub struct AgentFile {
    pub limits: Option<AgentLimitsFile>,
    pub allow_outside_workspace: Option<bool>,
}

/// The table `agent.limits`.
#[derive(Debug, Clone, Copy, PartialEq, Eq, Structural)]
pub struct AgentLimitsFile {
    pub max_model_turns: Option<u32>,
    pub max_tool_calls: Option<u32>,
    pub max_wall_time_minutes: Option<u64>,
    pub max_parallel_tools: Option<u32>,
    pub max_identical_no_progress: Option<u32>,
}

impl Default for ConfigFile {
    fn default() -> (r: Self)
        ensures
            sets_nothing(r),
    {
        ConfigFile {
            model: ModelFile { primary: None, profiles: Vec::new() },
            agent: AgentFile { limits: None, allow_outside_workspace: None },
            shell: ShellFile { kind: None, path: None },
            context: ContextFile { safety_reserve_tokens: None },
            ui: UiFile { theme: None, mode: None },
        }
    }
}

/// Whether a file sets nothing.
pub open spec fn sets_nothing(file: ConfigFile) -> bool {
    &&& file.model.primary is None
    &&& file.model.profiles@.len() == 0
    &&& file.agent == (AgentFile { limits: None, allow_outside_workspace: None })
    &&& file.shell == (ShellFile { kind: None, path: None })
    &&& file.context == (ContextFile { safety_reserve_tokens: None })
    &&& file.ui == (UiFile { theme: None, mode: None })
}

/// The limits of two files, field by field: those of the workspace first.
pub open spec fn merged_limits(
    home: Option<AgentLimitsFile>,
    workspace: Option<AgentLimitsFile>,
) -> Option<AgentLimitsFile> {
    match (home, workspace) {
        (Some(home), Some(workspace)) => Some(
            AgentLimitsFile {
                max_model_turns: or_else(workspace.max_model_turns, home.max_model_turns),
                max_tool_calls: or_else(workspace.max_tool_calls, home.max_tool_calls),
                max_wall_time_minutes: or_else(
                    workspace.max_wall_time_minutes,
                    home.max_wall_time_minutes,
                ),
                max_parallel_tools: or_else(
                    workspace.max_parallel_tools,
                    home.max_parallel_tools,
                ),
                max_identical_no_progress: or_else(
                    workspace.max_identical_no_progress,
                    home.max_identical_no_progress,
                ),
            },
        ),
        (home, workspace) => or_else(home, workspace),
    }
}

/// The limits of two files, field by field.
pub fn merge_limits(
    home: Option<AgentLimitsFile>,
    workspace: Option<AgentLimitsFile>,
) -> (r: Option<AgentLimitsFile>)
    ensures
        r == merged_limits(home, workspace),
{
    match (home, workspace) {
        (Some(home), Some(workspace)) => Some(
            AgentLimitsFile {
                max_model_turns: first(workspace.max_model_turns, home.max_model_turns),
                max_tool_calls: first(workspace.max_tool_calls, home.max_tool_calls),
                max_wall_time_minutes: first(
                    workspace.max_wall_time_minutes,
                    home.max_wall_time_minutes,
                ),
                max_parallel_tools: first(workspace.max_parallel_tools, home.max_parallel_tools),
                max_identical_no_progress: first(
                    workspace.max_identical_no_progress,
                    home.max_identical_no_progress,
                ),
            },
        ),
        (home, workspace) => first(home, workspace),
    }
}

/// The profiles that count: those of the workspace where it has some.
pub open spec fn merged_profiles(
    home: Vec<PrimaryModelFile>,
    workspace: Vec<PrimaryModelFile>,
) -> Vec<PrimaryModelFile> {
    if workspace@.len() > 0 {
        workspace
    } else {
        home
    }
}

/// Two files, field by field: what the workspace sets counts first.
pub open spec fn merged(home: ConfigFile, workspace: ConfigFile) -> ConfigFile {
    ConfigFile {
        model: ModelFile {
            primary: or_else(workspace.model.primary, home.model.primary),
            profiles: merged_profiles(home.model.profiles, workspace.model.profiles),
        },
        agent: AgentFile {
            limits: merged_limits(home.agent.limits, workspace.agent.limits),
            allow_outside_workspace: or_else(
                workspace.agent.allow_outside_workspace,
                home.agent.allow_outside_workspace,
            ),
        },
        shell: ShellFile {
            kind: or_else(workspace.shell.kind, home.shell.kind),
            path: or_else(workspace.shell.path, home.shell.path),
        },
        context: ContextFile {
            safety_reserve_tokens: or_else(
                workspace.context.safety_reserve_tokens,
                home.context.safety_reserve_tokens,
            ),
        },
        ui: UiFile {
            theme: or_else(workspace.ui.theme, home.ui.theme),
            mode: or_else(workspace.ui.mode, home.ui.mode),
        },
    }
}

/// Two files, field by field: what the workspace sets counts first.
pub fn merge(home: ConfigFile, workspace: ConfigFile) -> (r: ConfigFile)
    ensures
        r == merged(home, workspace),
{
    let profiles = if workspace.model.profiles.len() > 0 {
        workspace.model.profiles
    } else {
        home.model.profiles
    };
    ConfigFile {
        model: ModelFile {
            primary: first(workspace.model.primary, home.model.primary),
            profiles,
        },
        agent: AgentFile {
            limits: merge_limits(home.agent.limits, workspace.agent.limits),
            allow_outside_workspace: first(
                workspace.agent.allow_outside_workspace,
                home.agent.allow_outside_workspace,
            ),
        },
        shell: ShellFile {
            kind: first(workspace.shell.kind, home.shell.kind),
            path: first(workspace.shell.path, home.shell.path),
        },
        context: ContextFile {
            safety_reserve_tokens: first(
                workspace.context.safety_reserve_tokens,
                home.context.safety_reserve_tokens,
            ),
        },
        ui: UiFile {
            theme: first(workspace.ui.theme, home.ui.theme),
            mode: first(workspace.ui.mode, home.ui.mode),
        },
    }
}

/// A file that sets nothing changes nothing, on either side.
pub proof fn merging_with_nothing(file: ConfigFile, empty: ConfigFile)
    requires
        sets_nothing(empty),
    ensures
        merged(file, empty) == file,
        merged(empty, file) == (ConfigFile {
            model: ModelFile {
                primary: file.model.primary,
                profiles: merged_profiles(empty.model.profiles, file.model.profiles),
            },
            ..file
        }),
{
}

/// It makes no difference in which order three files are merged, as long as they stand in
/// the same order.
pub proof fn merging_is_associative(a: ConfigFile, b: ConfigFile, c: ConfigFile)
    ensures
        merged(merged(a, b), c) == merged(a, merged(b, c)),
{
}

/// What the workspace leaves open in a table is what the user sets, whatever else the
/// workspace sets in that table.
pub proof fn merging_is_by_field(
    home: AgentLimitsFile,
    workspace: AgentLimitsFile,
    result: AgentLimitsFile,
)
    requires
        merged_limits(Some(home), Some(workspace)) == Some(result),
    ensures
        workspace.max_model_turns is None ==> result.max_model_turns == home.max_model_turns,
        workspace.max_tool_calls is None ==> result.max_tool_calls == home.max_tool_calls,
        workspace.max_wall_time_minutes is None ==> result.max_wall_time_minutes
            == home.max_wall_time_minutes,
        workspace.max_parallel_tools is None ==> result.max_parallel_tools
            == home.max_parallel_tools,
        workspace.max_identical_no_progress is None ==> result.max_identical_no_progress
            == home.max_identical_no_progress,
{
}

/// How the terminal is used.
#[derive(Debug, Clone, Copy, PartialEq, Eq, Structural)]
pub enum ViewMode {
    Fullscreen,
    Inline,
}

/// The limits of a run; 0 stands for none.
#[derive(Debug, Clone, Copy, PartialEq, Eq, Structural)]
pub struct LimitsConfig {
    pub max_model_turns: u32,
    pub max_tool_calls: u32,
    pub max_wall_time_minutes: u64,
    pub max_parallel_tools: u32,
    pub max_identical_no_progress: u32,
}

/// The limits that count where none are set.
pub open spec fn default_limits() -> LimitsConfig {
    LimitsConfig {
        max_model_turns: 80,
        max_tool_calls: 160,
        max_wall_time_minutes: 45,
        max_parallel_tools: 4,
        max_identical_no_progress: 2,
    }
}

impl Default for LimitsConfig {
    fn default() -> (r: Self)
        ensures
            r == default_limits(),
    {
        LimitsConfig {
            max_model_turns: 80,
            max_tool_calls: 160,
            max_wall_time_minutes: 45,
            max_parallel_tools: 4,
            max_identical_no_progress: 2,
        }
    }
}

/// A value, or the default.
pub open spec fn or_default<T>(value: Option<T>, default: T) -> T {
    match value {
        Some(value) => value,
        None => default,
    }
}

/// The limits of a table, and the defaults for what it leaves open.
pub open spec fn effective_limits(limits: Option<AgentLimitsFile>) -> LimitsConfig {
    match limits {
        Some(set) => LimitsConfig {
            max_model_turns: or_default(set.max_model_turns, default_limits().max_model_turns),
            max_tool_calls: or_default(set.max_tool_calls, default_limits().max_tool_calls),
            max_wall_time_minutes: or_default(
                set.max_wall_time_minutes,
                default_limits().max_wall_time_minutes,
            ),
            max_parallel_tools: or_default(
                set.max_parallel_tools,
                default_limits().max_parallel_tools,
            ),
            max_identical_no_progress: or_default(
                set.max_identical_no_progress,
                default_limits().max_identical_no_progress,
            ),
        },
        None => default_limits(),
    }
}

fn limits_in_effect(limits: Option<AgentLimitsFile>) -> (r: LimitsConfig)
    ensures
        r == effective_limits(limits),
{
    let base = LimitsConfig::default();
    match limits {
        Some(set) => LimitsConfig {
            max_model_turns: set.max_model_turns.unwrap_or(base.max_model_turns),
            max_tool_calls: set.max_tool_calls.unwrap_or(base.max_tool_calls),
            max_wall_time_minutes: set.max_wall_time_minutes.unwrap_or(base.max_wall_time_minutes),
            max_parallel_tools: set.max_parallel_tools.unwrap_or(base.max_parallel_tools),
            max_identical_no_progress: set.max_identical_no_progress.unwrap_or(
                base.max_identical_no_progress,
            ),
        },
        None => base,
    }
}

/// The model in effect.
#[derive(Debug, Clone, PartialEq, Eq)]
pub struct ModelConfig {
    pub provider: String,
    pub name: String,
    pub base_url: String,
    pub reasoning: Option<String>,
    pub max_output_tokens: Option<u32>,
    pub context_window: Option<u64>,
    pub api_key_env: String,
    pub api_key: Option<String>,
}

/// The configuration in effect.
#[derive(Debug, Clone, PartialEq, Eq)]
pub struct Config {
    pub model: ModelConfig,
    pub limits: LimitsConfig,
    pub workspace_root: String,
    pub sessions_root: String,
    pub artifacts_root: String,
    pub shell_path: Option<String>,
    pub safety_reserve_tokens: u64,
    pub auto_open_browser: bool,
    pub web_summary_model: String,
    pub system_prompt_extra: Option<String>,
    /// Where the model was set.
    pub source: String,
    pub ui_theme: String,
    pub ui_mode: ViewMode,
    pub allow_outside_workspace: bool,
}

/// Where things are.
#[derive(Debug, Clone, PartialEq, Eq)]
pub struct ConfigPaths {
    pub home_file: String,
    pub workspace_file: String,
    pub workspace_root: String,
    pub sessions_root: String,
    pub artifacts_root: String,
}

/// The name of the environment variable that holds the key where none is set.
pub const DEFAULT_API_KEY_ENV: &'static str = "TPI_API_KEY";

/// The tokens that are kept free where no number is set.
pub const DEFAULT_SAFETY_RESERVE: u64 = 8192;

/// The text of a rules file, where there is one and it says something.
pub open spec fn rules_of(text: Option<Seq<char>>) -> Option<Seq<char>> {
    match text {
        Some(text) => if trim_of(text).len() > 0 {
            Some(text)
        } else {
            None
        },
        None => None,
    }
}

/// The rules of the user and of the project, the latter under a heading.
pub open spec fn rules_text(
    global: Option<Seq<char>>,
    project: Option<Seq<char>>,
) -> Option<Seq<char>> {
    match (rules_of(global), rules_of(project)) {
        (Some(global), Some(project)) => Some(
            global + "\n\n[project rule: AGENTS.md]\n"@ + project,
        ),
        (None, Some(project)) => Some("[project rule: AGENTS.md]\n"@ + project),
        (global, None) => global,
    }
}

fn rules(text: Option<String>) -> (r: Option<String>)
    ensures
        opt_view(r) == rules_of(opt_view(text)),
{
    match text {
        Some(text) => {
            let content = trim(text.as_str());
            if content.as_str().is_empty() {
                None
            } else {
                Some(text)
            }
        },
        None => None,
    }
}

/// The rules of the user and of the project, for the system prompt.
pub fn system_rules(global: Option<String>, project: Option<String>) -> (r: Option<String>)
    ensures
        opt_view(r) == rules_text(opt_view(global), opt_view(project)),
{
    let global = rules(global);
    match rules(project) {
        Some(project) => Some(
            match global {
                Some(global) => global.concat("\n\n[project rule: AGENTS.md]\n").concat(
                    project.as_str(),
                ),
                None => owned("[project rule: AGENTS.md]\n").concat(project.as_str()),
            },
        ),
        None => global,
    }
}

/// The position of the first profile of the given name, or the number of profiles.
pub open spec fn profile_at(profiles: Seq<PrimaryModelFile>, name: Seq<char>) -> int
    decreases profiles.len(),
{
    if profiles.len() == 0 || profiles[0].name@ == name {
        0
    } else {
        1 + profile_at(profiles.drop_first(), name)
    }
}

/// The table of the model that counts: the primary one, or the profile of the name that
/// the command line asks for, where there is such a profile and it is not the primary's
/// own name.
pub open spec fn chosen_model(
    primary: PrimaryModelFile,
    profiles: Seq<PrimaryModelFile>,
    cli_model: Option<Seq<char>>,
) -> PrimaryModelFile {
    match cli_model {
        Some(name) => {
            let at = profile_at(profiles, name);
            if primary.name@ != name && 0 <= at < profiles.len() {
                profiles[at]
            } else {
                primary
            }
        },
        None => primary,
    }
}

/// Whether `model` is the model of the given table, under the name that the command line
/// asks for, if it does.
pub open spec fn is_model(
    table: PrimaryModelFile,
    cli_model: Option<Seq<char>>,
    model: ModelConfig,
) -> bool {
    &&& model.provider@ == table.provider@
    &&& model.name@ == or_default(cli_model, table.name@)
    &&& model.base_url@ == table.base_url@
    &&& opt_view(model.reasoning) == opt_view(table.reasoning)
    &&& model.max_output_tokens == table.max_output_tokens
    &&& model.context_window == table.context_window
    &&& model.api_key_env@ == or_default(opt_view(table.api_key_env), DEFAULT_API_KEY_ENV@)
    &&& opt_view(model.api_key) == opt_view(table.api_key)
}

/// Where the model was set.
pub open spec fn source_of(
    home: ConfigFile,
    workspace: ConfigFile,
    cli_model: Option<Seq<char>>,
    paths: ConfigPaths,
) -> Seq<char> {
    if cli_model is Some {
        "cli --model"@
    } else if workspace.model.primary is Some {
        "workspace "@ + paths.workspace_file@
    } else if home.model.primary is Some {
        "user "@ + paths.home_file@
    } else {
        "builtin defaults"@
    }
}

/// What is said where no model is set.
pub open spec fn no_model_text(paths: ConfigPaths) -> Seq<char> {
    "未配置模型：请在 "@ + paths.home_file@ + " 或 "@ + paths.workspace_file@
        + " 中设置 [model.primary]\n（provider/name/base_url 必填；不允许看不见的默认模型，§18.1）"@
}

/// The view mode of the given name.
pub open spec fn mode_of(name: Option<Seq<char>>) -> ViewMode {
    if name == Some("inline"@) {
        ViewMode::Inline
    } else {
        ViewMode::Fullscreen
    }
}

/// Whether `config` is what the files come to.
pub open spec fn is_config(
    home: ConfigFile,
    workspace: ConfigFile,
    cli_model: Option<Seq<char>>,
    paths: ConfigPaths,
    global_rules: Option<Seq<char>>,
    project_rules: Option<Seq<char>>,
    config: Config,
) -> bool {
    let file = merged(home, workspace);
    &&& file.model.primary matches Some(primary)
    &&& is_model(
        chosen_model(primary, file.model.profiles@, cli_model),
        cli_model,
        config.model,
    )
    &&& config.limits == effective_limits(file.agent.limits)
    &&& config.workspace_root@ == paths.workspace_root@
    &&& config.sessions_root@ == paths.sessions_root@
    &&& config.artifacts_root@ == paths.artifacts_root@
    &&& opt_view(config.shell_path) == opt_view(file.shell.path)
    &&& config.safety_reserve_tokens == or_default(
        file.context.safety_reserve_tokens,
        DEFAULT_SAFETY_RESERVE,
    )
    &&& !config.auto_open_browser
    &&& config.web_summary_model@ == "none"@
    &&& opt_view(config.system_prompt_extra) == rules_text(global_rules, project_rules)
    &&& config.source@ == source_of(home, workspace, cli_model, paths)
    &&& config.ui_theme@ == or_default(opt_view(file.ui.theme), "omp"@)
    &&& config.ui_mode == mode_of(opt_view(file.ui.mode))
    &&& config.allow_outside_workspace == or_default(file.agent.allow_outside_workspace, true)
}

fn find_profile(profiles: &Vec<PrimaryModelFile>, name: &str) -> (r: usize)
    ensures
        r == profile_at(profiles@, name@),
        r <= profiles@.len(),
{
    let mut i: usize = 0;
    assert(profiles@.skip(0) =~= profiles@);
    while i < profiles.len()
        invariant
            i <= profiles@.len(),
            i + profile_at(profiles@.skip(i as int), name@) == profile_at(profiles@, name@),
        decreases profiles@.len() - i,
    {
        proof {
            let rest = profiles@.skip(i as int);
            assert(rest[0] == profiles@[i as int]);
            assert(rest.drop_first() =~= profiles@.skip(i + 1));
        }
        if same(profiles[i].name.as_str(), name) {
            return i;
        }
        i += 1;
    }
    i
}

fn model_config(table: &PrimaryModelFile, cli_model: Option<&str>) -> (r: ModelConfig)
    ensures
        is_model(
            *table,
            match cli_model {
                Some(name) => Some(name@),
                None => None,
            },
            r,
        ),
{
    ModelConfig {
        provider: table.provider.clone(),
        name: match cli_model {
            Some(name) => owned(name),
            None => table.name.clone(),
        },
        base_url: table.base_url.clone(),
        reasoning: crate::outcome::clone_text(&table.reasoning),
        max_output_tokens: table.max_output_tokens,
        context_window: table.context_window,
        api_key_env: match &table.api_key_env {
            Some(name) => name.clone(),
            None => owned(DEFAULT_API_KEY_ENV),
        },
        api_key: crate::outcome::clone_text(&table.api_key),
    }
}

/// The configuration that the user's file and the workspace's file come to, with the model
/// that the command line asks for, and the texts of the user's and the project's rules.
pub fn load(
    home: ConfigFile,
    workspace: ConfigFile,
    cli_model: Option<&str>,
    paths: ConfigPaths,
    global_rules: Option<String>,
    project_rules: Option<String>,
) -> (r: Result<Config, String>)
    ensures
        match r {
            Ok(config) => is_config(
                home,
                workspace,
                match cli_model {
                    Some(name) => Some(name@),
                    None => None,
                },
                paths,
                opt_view(global_rules),
                opt_view(project_rules),
                config,
            ),
            Err(message) => home.model.primary is None && workspace.model.primary is None
                && message@ == no_model_text(paths),
        },
{
    let home_has_model = home.model.primary.is_some();
    let workspace_has_model = workspace.model.primary.is_some();
    let file = merge(home, workspace);
    let source = if cli_model.is_some() {
        owned("cli --model")
    } else if workspace_has_model {
        owned("workspace ").concat(paths.workspace_file.as_str())
    } else if home_has_model {
        owned("user ").concat(paths.home_file.as_str())
    } else {
        owned("builtin defaults")
    };
    let primary = match &file.model.primary {
        Some(primary) => primary,
        None => {
            return Err(
                owned("未配置模型：请在 ").concat(paths.home_file.as_str()).concat(" 或 ").concat(
                    paths.workspace_file.as_str(),
                ).concat(
                    " 中设置 [model.primary]\n（provider/name/base_url 必填；不允许看不见的默认模型，§18.1）",
                ),
            );
        },
    };
    let table = match cli_model {
        Some(name) => {
            let at = find_profile(&file.model.profiles, name);
            if !same(primary.name.as_str(), name) && at < file.model.profiles.len() {
                &file.model.profiles[at]
            } else {
                primary
            }
        },
        None => primary,
    };
    let mode = match &file.ui.mode {
        Some(name) => if same(name.as_str(), "inline") {
            ViewMode::Inline
        } else {
            ViewMode::Fullscreen
        },
        None => ViewMode::Fullscreen,
    };
    Ok(
        Config {
            model: model_config(table, cli_model),
            limits: limits_in_effect(file.agent.limits),
            workspace_root: paths.workspace_root,
            sessions_root: paths.sessions_root,
            artifacts_root: paths.artifacts_root,
            shell_path: crate::outcome::clone_text(&file.shell.path),
            safety_reserve_tokens: file.context.safety_reserve_tokens.unwrap_or(
                DEFAULT_SAFETY_RESERVE,
            ),
            auto_open_browser: false,
            web_summary_model: owned("none"),
            system_prompt_extra: system_rules(global_rules, project_rules),
            source,
            ui_theme: match &file.ui.theme {
                Some(theme) => theme.clone(),
                None => owned("omp"),
            },
            ui_mode: mode,
            allow_outside_workspace: file.agent.allow_outside_workspace.unwrap_or(true),
        },
    )
}

/// The tables of all models that can be chosen: the primary one, then the profiles.
pub open spec fn model_tables(file: ConfigFile) -> Seq<PrimaryModelFile> {
    match file.model.primary {
        Some(primary) => seq![primary] + file.model.profiles@,
        None => file.model.profiles@,
    }
}

/// Whether these are the models of the given tables.
pub open spec fn are_models(tables: Seq<PrimaryModelFile>, models: Seq<ModelConfig>) -> bool {
    &&& models.len() == tables.len()
    &&& forall|i: int| 0 <= i < models.len() ==> is_model(tables[i], None, #[trigger] models[i])
}

/// All models that can be chosen: the primary one, then the profiles.
pub fn available_models(home: ConfigFile, workspace: ConfigFile) -> (r: Vec<ModelConfig>)
    ensures
        are_models(model_tables(merged(home, workspace)), r@),
{
    let file = merge(home, workspace);
    let ghost tables = model_tables(file);
    let mut models: Vec<ModelConfig> = Vec::new();
    if let Some(primary) = &file.model.primary {
        models.push(model_config(primary, None));
    }
    let ghost first = models@.len() as int;
    let mut i: usize = 0;
    while i < file.model.profiles.len()
        invariant
            i <= file.model.profiles@.len(),
            tables == model_tables(file),
            first == tables.len() - file.model.profiles@.len(),
            models@.len() == first + i,
            forall|j: int|
                0 <= j < models@.len() ==> is_model(tables[j], None, #[trigger] models@[j]),
        decreases file.model.profiles@.len() - i,
    {
        assert(tables[first + i] == file.model.profiles@[i as int]);
        models.push(model_config(&file.model.profiles[i], None));
        i += 1;
    }
    models
}

/// The position of the first model of the given name, or the number of models.
pub open spec fn model_at(models: Seq<ModelConfig>, name: Seq<char>) -> int
    decreases models.len(),
{
    if models.len() == 0 || models[0].name@ == name {
        0
    } else {
        1 + model_at(models.drop_first(), name)
    }
}

/// The position of the first model of the given name, or the number of models.
pub fn find_model(models: &Vec<ModelConfig>, name: &str) -> (r: usize)
    ensures
        r == model_at(models@, name@),
        r <= models@.len(),
{
    let mut i: usize = 0;
    assert(models@.skip(0) =~= models@);
    while i < models.len()
        invariant
            i <= models@.len(),
            i + model_at(models@.skip(i as int), name@) == model_at(models@, name@),
        decreases models@.len() - i,
    {
        proof {
            let rest = models@.skip(i as int);
            assert(rest[0] == models@[i as int]);
            assert(rest.drop_first() =~= models@.skip(i + 1));
        }
        if same(models[i].name.as_str(), name) {
            return i;
        }
        i += 1;
    }
    i
}

proof fn lemma_model_at(
    tables: Seq<PrimaryModelFile>,
    models: Seq<ModelConfig>,
    name: Seq<char>,
)
    requires
        are_models(tables, models),
    ensures
        0 <= model_at(models, name) <= models.len(),
        model_at(models, name) == profile_at(tables, name),
    decreases models.len(),
{
    if models.len() > 0 {
        assert(is_model(tables[0], None, models[0]));
        let rest = models.drop_first();
        assert forall|i: int| 0 <= i < rest.len() implies is_model(
            tables.drop_first()[i],
            None,
            #[trigger] rest[i],
        ) by {
            assert(rest[i] == models[i + 1]);
        }
        lemma_model_at(tables.drop_first(), rest, name);
    }
}

/// A model that is chosen by its name among all models is the one that the command line
/// gets by asking for that name.
pub proof fn choosing_a_model_is_asking_for_it(
    file: ConfigFile,
    models: Seq<ModelConfig>,
    name: Seq<char>,
)
    requires
        file.model.primary is Some,
        are_models(model_tables(file), models),
        model_at(models, name) < models.len(),
    ensures
        models[model_at(models, name)].name@ == name,
        is_model(
            chosen_model(file.model.primary->0, file.model.profiles@, Some(name)),
            Some(name),
            models[model_at(models, name)],
        ),
{
    let primary = file.model.primary->0;
    let tables = model_tables(file);
    let at = model_at(models, name);
    lemma_model_at(tables, models, name);
    lemma_found(models, name);
    assert(is_model(tables[at], None, models[at]));
    if primary.name@ != name {
        assert(tables.drop_first() =~= file.model.profiles@);
        assert(at == 1 + profile_at(file.model.profiles@, name));
    }
}

proof fn lemma_found(models: Seq<ModelConfig>, name: Seq<char>)
    requires
        model_at(models, name) < models.len(),
    ensures
        0 <= model_at(models, name),
        models[model_at(models, name)].name@ == name,
    decreases models.len(),
{
    if models.len() > 0 && models[0].name@ != name {
        lemma_found(models.drop_first(), name);
    }
}

/// What is said where there is no key.
pub open spec fn no_key_text(model: ModelConfig) -> Seq<char> {
    "未找到 API key：请设置环境变量 "@ + model.api_key_env@ + " 或运行 `tpi auth set "@
        + model.provider@ + "` 写入凭据（§18.4）"@
}

/// The key for a model: what the environment variable holds, unless it is empty, or else
/// the key in the configuration, or else the stored credential.
pub open spec fn key_of(
    model: ModelConfig,
    env: Option<Seq<char>>,
    stored: Option<Seq<char>>,
) -> Option<Seq<char>> {
    match env {
        Some(key) => if key.len() > 0 {
            Some(key)
        } else {
            or_else(opt_view(model.api_key), stored)
        },
        None => or_else(opt_view(model.api_key), stored),
    }
}

/// The key for a model.
pub fn read_api_key(model: &ModelConfig, env: Option<String>, stored: Option<String>) -> (r: Result<
    String,
    String,
>)
    ensures
        match r {
            Ok(key) => key_of(*model, opt_view(env), opt_view(stored)) == Some(key@),
            Err(message) => key_of(*model, opt_view(env), opt_view(stored)) is None && message@
                == no_key_text(*model),
        },
{
    if let Some(key) = env {
        if !key.as_str().is_empty() {
            return Ok(key);
        }
    }
    if let Some(key) = &model.api_key {
        return Ok(key.clone());
    }
    if let Some(key) = stored {
        return Ok(key);
    }
    Err(
        owned("未找到 API key：请设置环境变量 ").concat(model.api_key_env.as_str()).concat(
            " 或运行 `tpi auth set ",
        ).concat(model.provider.as_str()).concat("` 写入凭据（§18.4）"),
    )
}

/// A key in the environment counts before all others.
pub proof fn environment_key_counts_first(
    model: ModelConfig,
    key: Seq<char>,
    stored: Option<Seq<char>>,
)
    requires
        key.len() > 0,
    ensures
        key_of(model, Some(key), stored) == Some(key),
{
}

/// Where the user's files are.
#[derive(Debug, Clone, PartialEq, Eq)]
pub enum HomeChoice {
    /// In the given directory.
    Given(String),
    /// In the directory `.tpi` under the given one.
    Under(String),
    /// In the directory `.tpi` under the current one.
    Here,
}

/// Where the user's files are, by the environment variables `TPI_HOME`, `USERPROFILE` and
/// `HOME`: the first that is set counts.
pub open spec fn home_of(
    given: Option<String>,
    profile: Option<String>,
    home: Option<String>,
) -> HomeChoice {
    match (given, profile, home) {
        (Some(dir), _, _) => HomeChoice::Given(dir),
        (None, Some(dir), _) => HomeChoice::Under(dir),
        (None, None, Some(dir)) => HomeChoice::Under(dir),
        (None, None, None) => HomeChoice::Here,
    }
}

/// Where the user's files are, by the environment variables.
pub fn tpi_home(given: Option<String>, profile: Option<String>, home: Option<String>) -> (r:
    HomeChoice)
    ensures
        r == home_of(given, profile, home),
{
    match given {
        Some(dir) => HomeChoice::Given(dir),
        None => match profile {
            Some(dir) => HomeChoice::Under(dir),
            None => match home {
                Some(dir) => HomeChoice::Under(dir),
                None => HomeChoice::Here,
            },
        },
    }
}

} // verus!
