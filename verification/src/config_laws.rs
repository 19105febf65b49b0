//! Which of several settings counts.

use crate::config::AgentLimitsFile;
use crate::config::Config;
use crate::config::ConfigFile;
use crate::config::ConfigPaths;
use crate::config::HomeChoice;
use crate::config::ModelConfig;
use crate::config::PrimaryModelFile;
use crate::config::ViewMode;
use crate::config::chosen_model;
use crate::config::effective_limits;
use crate::config::home_of;
use crate::config::is_config;
use crate::config::is_model;
use crate::config::key_of;
use crate::config::merged;
use crate::config::merged_limits;
use crate::config::model_at;
use crate::config::model_tables;
use crate::config::profile_at;
use crate::config::rules_text;
use crate::config::source_of;
use crate::text::has_prefix;
use crate::text::has_suffix;
use crate::text::opt_view;
use crate::text::trim_of;
use vstd::prelude::*;
use vstd::string::*;

verus! {

/// Whether a setting is the one that counts of two: the near one where there is one, and
/// otherwise the far one.
pub open spec fn nearest<T>(near: Option<T>, far: Option<T>, result: Option<T>) -> bool {
    &&& near is Some ==> result == near
    &&& near is None ==> result == far
}

/// Each limit that the workspace sets counts, whatever the user sets; and each that it leaves
/// open is the user's.
pub proof fn the_workspace_sets_the_limits(home: AgentLimitsFile, workspace: AgentLimitsFile)
    ensures
        merged_limits(Some(home), Some(workspace)) is Some,
        ({
            let result = merged_limits(Some(home), Some(workspace))->0;
            &&& nearest(workspace.max_model_turns, home.max_model_turns, result.max_model_turns)
            &&& nearest(workspace.max_tool_calls, home.max_tool_calls, result.max_tool_calls)
            &&& nearest(
                workspace.max_wall_time_minutes,
                home.max_wall_time_minutes,
                result.max_wall_time_minutes,
            )
            &&& nearest(
                workspace.max_parallel_tools,
                home.max_parallel_tools,
                result.max_parallel_tools,
            )
            &&& nearest(
                workspace.max_identical_no_progress,
                home.max_identical_no_progress,
                result.max_identical_no_progress,
            )
        }),
        merged_limits(None, Some(workspace)) == Some(workspace),
        merged_limits(Some(home), None) == Some(home),
        merged_limits(None, None) is None,
{
}

/// Each setting that the workspace makes counts, whatever the user sets; and each that it
/// leaves open is the user's. Models to choose from are taken from one file as a whole.
pub proof fn the_workspace_counts_first(home: ConfigFile, workspace: ConfigFile)
    ensures
        ({
            let file = merged(home, workspace);
            &&& nearest(workspace.model.primary, home.model.primary, file.model.primary)
            &&& workspace.model.profiles@.len() > 0 ==> file.model.profiles
                == workspace.model.profiles
            &&& workspace.model.profiles@.len() == 0 ==> file.model.profiles
                == home.model.profiles
            &&& nearest(
                workspace.agent.allow_outside_workspace,
                home.agent.allow_outside_workspace,
                file.agent.allow_outside_workspace,
            )
            &&& nearest(workspace.shell.kind, home.shell.kind, file.shell.kind)
            &&& nearest(workspace.shell.path, home.shell.path, file.shell.path)
            &&& nearest(
                workspace.context.safety_reserve_tokens,
                home.context.safety_reserve_tokens,
                file.context.safety_reserve_tokens,
            )
            &&& nearest(workspace.ui.theme, home.ui.theme, file.ui.theme)
            &&& nearest(workspace.ui.mode, home.ui.mode, file.ui.mode)
        }),
{
}

/// A limit of a file, where the file has limits.
pub open spec fn limit_in<T>(
    limits: Option<AgentLimitsFile>,
    field: spec_fn(AgentLimitsFile) -> Option<T>,
) -> Option<T> {
    match limits {
        Some(limits) => field(limits),
        None => None,
    }
}

/// The limit that counts: the workspace's, or else the user's, or else the usual one.
pub open spec fn counting<T>(near: Option<T>, far: Option<T>, usual: T, result: T) -> bool {
    &&& near is Some ==> result == near->0
    &&& near is None && far is Some ==> result == far->0
    &&& near is None && far is None ==> result == usual
}

/// In the configuration that two files come to, every limit is the workspace's, or else the
/// user's, or else the usual one.
pub proof fn limits_in_effect(
    home: ConfigFile,
    workspace: ConfigFile,
    cli_model: Option<Seq<char>>,
    paths: ConfigPaths,
    global_rules: Option<Seq<char>>,
    project_rules: Option<Seq<char>>,
    config: Config,
)
    requires
        is_config(home, workspace, cli_model, paths, global_rules, project_rules, config),
    ensures
        ({
            let near = workspace.agent.limits;
            let far = home.agent.limits;
            &&& counting(
                limit_in(near, |l: AgentLimitsFile| l.max_model_turns),
                limit_in(far, |l: AgentLimitsFile| l.max_model_turns),
                80,
                config.limits.max_model_turns,
            )
            &&& counting(
                limit_in(near, |l: AgentLimitsFile| l.max_tool_calls),
                limit_in(far, |l: AgentLimitsFile| l.max_tool_calls),
                160,
                config.limits.max_tool_calls,
            )
            &&& counting(
                limit_in(near, |l: AgentLimitsFile| l.max_wall_time_minutes),
                limit_in(far, |l: AgentLimitsFile| l.max_wall_time_minutes),
                45,
                config.limits.max_wall_time_minutes,
            )
            &&& counting(
                limit_in(near, |l: AgentLimitsFile| l.max_parallel_tools),
                limit_in(far, |l: AgentLimitsFile| l.max_parallel_tools),
                4,
                config.limits.max_parallel_tools,
            )
            &&& counting(
                limit_in(near, |l: AgentLimitsFile| l.max_identical_no_progress),
                limit_in(far, |l: AgentLimitsFile| l.max_identical_no_progress),
                2,
                config.limits.max_identical_no_progress,
            )
        }),
{
}

/// In the configuration that two files come to, the rest is the workspace's, or else the
/// user's, or else the usual one; and things are where they are said to be.
pub proof fn settings_in_effect(
    home: ConfigFile,
    workspace: ConfigFile,
    cli_model: Option<Seq<char>>,
    paths: ConfigPaths,
    global_rules: Option<Seq<char>>,
    project_rules: Option<Seq<char>>,
    config: Config,
)
    requires
        is_config(home, workspace, cli_model, paths, global_rules, project_rules, config),
    ensures
        counting(
            workspace.context.safety_reserve_tokens,
            home.context.safety_reserve_tokens,
            8192,
            config.safety_reserve_tokens,
        ),
        counting(
            workspace.agent.allow_outside_workspace,
            home.agent.allow_outside_workspace,
            true,
            config.allow_outside_workspace,
        ),
        counting(
            opt_view(workspace.ui.theme),
            opt_view(home.ui.theme),
            "omp"@,
            config.ui_theme@,
        ),
        nearest(
            opt_view(workspace.shell.path),
            opt_view(home.shell.path),
            opt_view(config.shell_path),
        ),
        workspace.ui.mode is Some ==> (config.ui_mode == ViewMode::Inline) == (
        workspace.ui.mode->0@ == "inline"@),
        workspace.ui.mode is None && home.ui.mode is Some ==> (config.ui_mode == ViewMode::Inline)
            == (home.ui.mode->0@ == "inline"@),
        workspace.ui.mode is None && home.ui.mode is None ==> config.ui_mode
            == ViewMode::Fullscreen,
        config.workspace_root@ == paths.workspace_root@,
        config.sessions_root@ == paths.sessions_root@,
        config.artifacts_root@ == paths.artifacts_root@,
        !config.auto_open_browser,
{
}

/// The model in effect is the workspace's primary one, or else the user's, unless the command
/// line asks for another by name. A name that the command line gives is always the one asked
/// for; with it comes the table of that name, where there is one.
pub proof fn the_model_in_effect(
    primary: PrimaryModelFile,
    profiles: Seq<PrimaryModelFile>,
    name: Seq<char>,
    k: int,
)
    ensures
        chosen_model(primary, profiles, None) == primary,
        primary.name@ == name ==> chosen_model(primary, profiles, Some(name)) == primary,
        (forall|i: int| 0 <= i < profiles.len() ==> (#[trigger] profiles[i]).name@ != name)
            ==> chosen_model(primary, profiles, Some(name)) == primary,
        primary.name@ != name && 0 <= k < profiles.len() && profiles[k].name@ == name && (forall|
            i: int,
        | 0 <= i < k ==> (#[trigger] profiles[i]).name@ != name) ==> chosen_model(
            primary,
            profiles,
            Some(name),
        ) == profiles[k],
{
    if forall|i: int| 0 <= i < profiles.len() ==> (#[trigger] profiles[i]).name@ != name {
        lemma_absent(profiles, name);
    }
    if 0 <= k < profiles.len() && profiles[k].name@ == name && (forall|i: int|
        0 <= i < k ==> (#[trigger] profiles[i]).name@ != name) {
        lemma_first(profiles, name, k);
    }
}

proof fn lemma_absent(profiles: Seq<PrimaryModelFile>, name: Seq<char>)
    requires
        forall|i: int| 0 <= i < profiles.len() ==> (#[trigger] profiles[i]).name@ != name,
    ensures
        profile_at(profiles, name) == profiles.len(),
    decreases profiles.len(),
{
    if profiles.len() > 0 {
        let rest = profiles.drop_first();
        assert forall|i: int| 0 <= i < rest.len() implies (#[trigger] rest[i]).name@ != name by {
            assert(rest[i] == profiles[i + 1]);
        }
        lemma_absent(rest, name);
    }
}

proof fn lemma_first(profiles: Seq<PrimaryModelFile>, name: Seq<char>, k: int)
    requires
        0 <= k < profiles.len(),
        profiles[k].name@ == name,
        forall|i: int| 0 <= i < k ==> (#[trigger] profiles[i]).name@ != name,
    ensures
        profile_at(profiles, name) == k,
    decreases k,
{
    if k > 0 {
        let rest = profiles.drop_first();
        assert(profiles[0].name@ != name);
        assert forall|i: int| 0 <= i < k - 1 implies (#[trigger] rest[i]).name@ != name by {
            assert(rest[i] == profiles[i + 1]);
        }
        lemma_first(rest, name, k - 1);
    }
}

/// A model is what its table says, field by field, under the name that was asked for. Without
/// the name of a variable the key is looked for in `TPI_API_KEY`.
pub proof fn a_model_is_its_table(
    table: PrimaryModelFile,
    asked: Option<Seq<char>>,
    model: ModelConfig,
)
    requires
        is_model(table, asked, model),
    ensures
        model.provider@ == table.provider@,
        asked is None ==> model.name@ == table.name@,
        asked is Some ==> model.name@ == asked->0,
        model.base_url@ == table.base_url@,
        opt_view(model.reasoning) == opt_view(table.reasoning),
        model.max_output_tokens == table.max_output_tokens,
        model.context_window == table.context_window,
        table.api_key_env is Some ==> model.api_key_env@ == table.api_key_env->0@,
        table.api_key_env is None ==> model.api_key_env@ == "TPI_API_KEY"@,
        opt_view(model.api_key) == opt_view(table.api_key),
{
}

/// All models can be chosen: the primary one first, then the others in their order.
pub proof fn all_models_can_be_chosen(file: ConfigFile, k: int)
    ensures
        file.model.primary is Some ==> model_tables(file).len() == file.model.profiles@.len() + 1
            && model_tables(file)[0] == file.model.primary->0,
        file.model.primary is Some && 0 <= k < file.model.profiles@.len() ==> model_tables(file)[k
            + 1] == file.model.profiles@[k],
        file.model.primary is None ==> model_tables(file) == file.model.profiles@,
{
}

/// A search for a model finds the first of that name, or the end of the list.
pub proof fn a_model_is_found_by_its_name(models: Seq<ModelConfig>, name: Seq<char>)
    ensures
        0 <= model_at(models, name) <= models.len(),
        model_at(models, name) < models.len() ==> models[model_at(models, name)].name@ == name,
        forall|i: int| 0 <= i < model_at(models, name) ==> (#[trigger] models[i]).name@ != name,
    decreases models.len(),
{
    if models.len() > 0 && models[0].name@ != name {
        let rest = models.drop_first();
        a_model_is_found_by_its_name(rest, name);
        assert forall|i: int| 0 <= i < model_at(models, name) implies (
        #[trigger] models[i]).name@ != name by {
            if i > 0 {
                assert(models[i] == rest[i - 1]);
            }
        }
    }
}

/// Where a model comes from is said by what set it: the command line first, then the
/// workspace, then the user.
pub proof fn where_a_model_comes_from(
    home: ConfigFile,
    workspace: ConfigFile,
    cli_model: Option<Seq<char>>,
    paths: ConfigPaths,
)
    ensures
        ({
            let source = source_of(home, workspace, cli_model, paths);
            &&& cli_model is Some ==> source == "cli --model"@
            &&& cli_model is None && workspace.model.primary is Some ==> has_suffix(
                source,
                paths.workspace_file@,
            ) && has_prefix(source, "workspace "@)
            &&& cli_model is None && workspace.model.primary is None && home.model.primary is Some
                ==> has_suffix(source, paths.home_file@) && has_prefix(source, "user "@)
        }),
{
    let source = source_of(home, workspace, cli_model, paths);
    if cli_model is None && workspace.model.primary is Some {
        let tail = paths.workspace_file@;
        assert(source.subrange(source.len() - tail.len(), source.len() as int) =~= tail);
        assert(source.subrange(0, "workspace "@.len() as int) =~= "workspace "@);
    } else if cli_model is None && home.model.primary is Some {
        let tail = paths.home_file@;
        assert(source.subrange(source.len() - tail.len(), source.len() as int) =~= tail);
        assert(source.subrange(0, "user "@.len() as int) =~= "user "@);
    }
}

/// The key is the one of the environment, unless it is empty; else the one of the
/// configuration; else the stored one; and there is none only where all are missing.
pub proof fn which_key_counts(
    model: ModelConfig,
    env: Option<Seq<char>>,
    stored: Option<Seq<char>>,
)
    ensures
        env is Some && env->0.len() > 0 ==> key_of(model, env, stored) == env,
        (env is None || env->0.len() == 0) && model.api_key is Some ==> key_of(model, env, stored)
            == Some(model.api_key->0@),
        (env is None || env->0.len() == 0) && model.api_key is None ==> key_of(model, env, stored)
            == stored,
{
}

/// Whether a text of rules says something.
pub open spec fn says_rules(text: Option<Seq<char>>) -> bool {
    text is Some && trim_of(text->0).len() > 0
}

/// Rules that say something are all told, the user's first; those that say nothing are left
/// out, and where none say anything there are none.
pub proof fn rules_are_told(global: Option<Seq<char>>, project: Option<Seq<char>>)
    ensures
        (rules_text(global, project) is Some) == (says_rules(global) || says_rules(project)),
        says_rules(global) ==> has_prefix(rules_text(global, project)->0, global->0),
        says_rules(project) ==> has_suffix(rules_text(global, project)->0, project->0),
        says_rules(global) && !says_rules(project) ==> rules_text(global, project) == global,
{
    let told = rules_text(global, project)->0;
    if says_rules(global) {
        assert(told.subrange(0, global->0.len() as int) =~= global->0);
    }
    if says_rules(project) {
        let tail = project->0;
        assert(told.subrange(told.len() - tail.len(), told.len() as int) =~= tail);
    }
}

/// The limits of a table are those of the table, field by field, and otherwise the usual
/// ones.
pub proof fn a_table_of_limits(set: AgentLimitsFile)
    ensures
        ({
            let limits = effective_limits(Some(set));
            &&& set.max_model_turns is Some ==> limits.max_model_turns == set.max_model_turns->0
            &&& set.max_tool_calls is Some ==> limits.max_tool_calls == set.max_tool_calls->0
            &&& set.max_wall_time_minutes is Some ==> limits.max_wall_time_minutes
                == set.max_wall_time_minutes->0
            &&& set.max_parallel_tools is Some ==> limits.max_parallel_tools
                == set.max_parallel_tools->0
            &&& set.max_identical_no_progress is Some ==> limits.max_identical_no_progress
                == set.max_identical_no_progress->0
        }),
{
}

/// The files of the user are where they are said to be; else under the directory of the user.
pub proof fn where_the_files_are(
    given: Option<String>,
    profile: Option<String>,
    home: Option<String>,
)
    ensures
        given is Some ==> home_of(given, profile, home) == HomeChoice::Given(given->0),
        given is None && profile is Some ==> home_of(given, profile, home) == HomeChoice::Under(
            profile->0,
        ),
        given is None && profile is None && home is Some ==> home_of(given, profile, home)
            == HomeChoice::Under(home->0),
        given is None && profile is None && home is None ==> home_of(given, profile, home)
            == HomeChoice::Here,
{
}

} // verus!
