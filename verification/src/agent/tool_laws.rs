//! What the running of tools is for: that calls do not get in each other's way, and that each
//! is asked, run and answered.

use crate::agent::LiveEventView;
use crate::agent::scheduler::AccessMode;
use crate::agent::scheduler::FileScope;
use crate::agent::scheduler::PreparedCall;
use crate::agent::scheduler::PreparedKind;
use crate::agent::scheduler::ProgressView;
use crate::agent::scheduler::SeenRevision;
use crate::agent::scheduler::ToolAccess;
use crate::agent::scheduler::ValidatedArgs;
use crate::agent::scheduler::action_of;
use crate::agent::scheduler::after_change;
use crate::agent::scheduler::blocks;
use crate::agent::scheduler::is_access;
use crate::agent::scheduler::is_writer;
use crate::agent::scheduler::locks_of;
use crate::agent::scheduler::observation_of;
use crate::agent::scheduler::overlap;
use crate::agent::scheduler::scope_path;
use crate::agent::scheduler::seen_as;
use crate::agent::scheduler::stamp_of;
use crate::agent::scheduler::waves_are_free_of_conflict;
use crate::agent::scheduler::waves_of;
use crate::agent::scheduler::writers_run_alone;
use crate::agent::tool_runtime::Lookup;
use crate::agent::tool_runtime::ToolActionView;
use crate::agent::tool_runtime::affordable;
use crate::agent::tool_runtime::announced;
use crate::agent::tool_runtime::asked;
use crate::agent::tool_runtime::closing;
use crate::agent::tool_runtime::is_prepared;
use crate::agent::tool_runtime::launch;
use crate::agent::tool_runtime::launched;
use crate::agent::tool_runtime::may_lose_backup;
use crate::agent::tool_runtime::progress_after;
use crate::agent::tool_runtime::refused_outcome;
use crate::agent::tool_runtime::rejection;
use crate::agent::tool_runtime::result_messages;
use crate::digest::digest_of;
use crate::json::canonical_of;
use crate::message::ChatMessageView;
use crate::message::ToolCallView;
use crate::outcome::OutcomeView;
use crate::outcome::ToolStatus;
use crate::path::path_components;
use crate::plan::PlanView;
use crate::session::RecoveryMetadata;
use crate::session::SessionEventView;
use crate::text::has_prefix;
use crate::text::has_suffix;
use crate::text::opt_view;
use crate::tool::BuiltinTool;
use crate::tool::builtin_of;
use crate::tool::names_are_unique;
use crate::tool::records_ahead;
use crate::tool::tool_name;
use vstd::prelude::*;
use vstd::string::*;

verus! {

/// Whether a tool changes files of the workspace by their path.
pub open spec fn changes_files(tool: BuiltinTool) -> bool {
    tool is Edit || tool is Write
}

/// Whether a tool looks at files of the workspace by their path.
pub open spec fn looks_at_files(tool: BuiltinTool) -> bool {
    tool is Read || tool is List || tool is Search
}

/// The path that arguments name: where it leads, if that is known, or as it was written.
pub open spec fn named_path(path: String, resolved: Option<String>) -> Seq<char> {
    if resolved is Some {
        resolved->0@
    } else {
        path@
    }
}

/// A tool that changes a file locks that file for itself, and a tool that looks at one locks
/// it against changes. A look at a directory is a look at all that is in it. A shell command
/// may do anything, and the other tools touch nothing.
pub proof fn tools_lock_what_they_touch(
    tool: BuiltinTool,
    path: String,
    resolved: Option<String>,
    access: ToolAccess,
)
    requires
        is_access(tool, ValidatedArgs::Path { path, resolved }, access),
    ensures
        changes_files(tool) || looks_at_files(tool) ==> {
            &&& locks_of(access).len() == 1
            &&& scope_path(locks_of(access)[0].resource->File_0) == named_path(path, resolved)
            &&& (locks_of(access)[0].mode == AccessMode::Write) == changes_files(tool)
            &&& (locks_of(access)[0].resource->File_0 is Recursive) == (tool is List
                || tool is Search)
        },
        (access is WorkspaceUnknown) == (tool is Bash),
        !changes_files(tool) && !looks_at_files(tool) && !(tool is Bash) ==> access is Pure,
{
}

/// A call without a path touches nothing that is known, and a shell command may still do
/// anything.
pub proof fn calls_without_a_path(tool: BuiltinTool, access: ToolAccess)
    requires
        is_access(tool, ValidatedArgs::Other, access),
    ensures
        (access is WorkspaceUnknown) == (tool is Bash),
        locks_of(access).len() == 0,
{
}

/// A call that changes a file, and a call that may do anything, runs by itself: no other call
/// is in its wave, whatever it does.
pub proof fn changes_are_made_one_at_a_time(
    calls: Seq<PreparedCall>,
    max: int,
    w: int,
    i: int,
    tool: BuiltinTool,
    path: String,
    resolved: Option<String>,
)
    requires
        0 <= w < waves_of(calls, max).len(),
        0 <= i < waves_of(calls, max)[w].len(),
        is_access(
            tool,
            ValidatedArgs::Path { path, resolved },
            waves_of(calls, max)[w][i].access,
        ),
        changes_files(tool) || tool is Bash,
    ensures
        waves_of(calls, max)[w].len() == 1,
{
    let wave = waves_of(calls, max)[w];
    let call = wave[i];
    if changes_files(tool) {
        assert(locks_of(call.access)[0].mode == AccessMode::Write);
        assert(is_writer(call));
        writers_run_alone(calls, max);
    } else if wave.len() > 1 {
        waves_are_free_of_conflict(calls, max);
        let j: int = if i == 0 {
            1
        } else {
            0
        };
        if i < j {
            assert(!crate::agent::scheduler::calls_clash(
                waves_of(calls, max)[w][j],
                waves_of(calls, max)[w][i],
            ));
        } else {
            assert(!crate::agent::scheduler::calls_clash(
                waves_of(calls, max)[w][i],
                waves_of(calls, max)[w][j],
            ));
        }
    }
}

/// Two calls of one wave never touch the same file where one of them changes it.
pub proof fn no_file_is_changed_under_a_reader(
    calls: Seq<PreparedCall>,
    max: int,
    w: int,
    i: int,
    j: int,
    x: int,
    y: int,
)
    requires
        0 <= w < waves_of(calls, max).len(),
        0 <= i < j < waves_of(calls, max)[w].len(),
        0 <= x < locks_of(waves_of(calls, max)[w][i].access).len(),
        0 <= y < locks_of(waves_of(calls, max)[w][j].access).len(),
    ensures
        ({
            let a = locks_of(waves_of(calls, max)[w][i].access)[x];
            let b = locks_of(waves_of(calls, max)[w][j].access)[y];
            &&& a.mode == AccessMode::Read
            &&& b.mode == AccessMode::Read
        }),
{
    writers_run_alone(calls, max);
    let wave = waves_of(calls, max)[w];
    let a = locks_of(wave[i].access)[x];
    let b = locks_of(wave[j].access)[y];
    if a.mode == AccessMode::Write {
        assert(is_writer(waves_of(calls, max)[w][i]));
    }
    if b.mode == AccessMode::Write {
        assert(is_writer(waves_of(calls, max)[w][j]));
    }
}

/// Whether a call only looks at things, or touches none.
pub open spec fn only_looks(call: PreparedCall) -> bool {
    &&& !(call.access is WorkspaceUnknown)
    &&& forall|i: int|
        0 <= i < locks_of(call.access).len() ==> (#[trigger] locks_of(call.access)[i]).mode
            == AccessMode::Read
}

/// Calls that only look at things run together, as many as may.
pub proof fn readers_run_together(calls: Seq<PreparedCall>, max: int)
    requires
        1 <= calls.len() <= max,
        forall|i: int| 0 <= i < calls.len() ==> only_looks(#[trigger] calls[i]),
    ensures
        waves_of(calls, max) == seq![calls],
    decreases calls.len(),
{
    let rest = calls.drop_last();
    let call = calls.last();
    assert(call == calls[calls.len() - 1]);
    assert(only_looks(call));
    assert(!is_writer(call));
    assert(calls =~= rest.push(call));
    if rest.len() == 0 {
        assert(waves_of(rest, max) =~= Seq::empty());
        assert(seq![call] =~= calls);
        assert(waves_of(calls, max) =~= seq![calls]);
    } else {
        assert forall|i: int| 0 <= i < rest.len() implies only_looks(#[trigger] rest[i]) by {
            assert(rest[i] == calls[i]);
        }
        readers_run_together(rest, max);
        let before = waves_of(rest, max);
        assert(before.last() == rest);
        assert forall|i: int| 0 <= i < rest.len() implies !is_writer(#[trigger] rest[i])
            && !crate::agent::scheduler::calls_clash(call, rest[i]) by {
            assert(only_looks(rest[i]));
        }
        assert(crate::agent::scheduler::may_join(before.last(), call, max));
        assert(waves_of(calls, max) =~= seq![calls]);
    }
}

/// A directory overlaps with all that is in it, and with nothing beside it; files overlap
/// with themselves alone.
pub proof fn scopes_overlap_by_their_parts(a: String, b: String, rest: Seq<Seq<char>>)
    ensures
        path_components(b@) == path_components(a@) + rest ==> overlap(
            FileScope::Recursive(a),
            FileScope::Exact(b),
        ) && overlap(FileScope::Exact(b), FileScope::Recursive(a)) && overlap(
            FileScope::Recursive(a),
            FileScope::Recursive(b),
        ),
        overlap(FileScope::Exact(a), FileScope::Exact(b)) == (path_components(a@)
            == path_components(b@)),
        overlap(FileScope::Recursive(a), FileScope::Exact(b)) ==> path_components(
            a@,
        ).is_prefix_of(path_components(b@)),
        overlap(FileScope::Recursive(a), FileScope::Recursive(b)) ==> path_components(
            a@,
        ).is_prefix_of(path_components(b@)) || path_components(b@).is_prefix_of(
            path_components(a@),
        ),
{
    let x = path_components(a@);
    let y = path_components(b@);
    if y == x + rest {
        assert(x =~= y.subrange(0, x.len() as int));
    }
    if x == y {
        assert(x =~= y.subrange(0, x.len() as int));
    }
}

/// The built-in tools are found by their names, and by these alone.
pub proof fn tools_are_found_by_their_names(tool: BuiltinTool, name: Seq<char>)
    ensures
        builtin_of(tool_name(tool)) == Some(tool),
        builtin_of(name) == Some(tool) ==> name == tool_name(tool),
        tool is Read ==> tool_name(tool) == "read"@,
        tool is List ==> tool_name(tool) == "list"@,
        tool is Search ==> tool_name(tool) == "search"@,
        tool is Edit ==> tool_name(tool) == "edit"@,
        tool is Write ==> tool_name(tool) == "write"@,
        tool is Bash ==> tool_name(tool) == "bash"@,
        tool is UpdatePlan ==> tool_name(tool) == "update_plan"@,
        tool is WebSearch ==> tool_name(tool) == "web_search"@,
        tool is WebFetch ==> tool_name(tool) == "web_fetch"@,
        tool is RequestInput ==> tool_name(tool) == "request_input"@,
{
    let found = choose|t: BuiltinTool| #[trigger] tool_name(t) == tool_name(tool);
    assert(tool_name(found) == tool_name(tool));
    names_are_unique(found, tool);
}

/// A call is refused where it cannot be made, and only there: where its tool is not known,
/// and where a built-in tool cannot read its arguments. It is told so under its own name.
pub proof fn calls_are_refused_for_a_reason(call: ToolCallView, lookup: Lookup)
    ensures
        builtin_of(call.name) is Some && lookup.parsed is Ok ==> rejection(call, lookup) is None,
        builtin_of(call.name) is None && lookup.registered ==> rejection(call, lookup) is None,
        builtin_of(call.name) is Some && lookup.parsed is Err ==> {
            let outcome = rejection(call, lookup);
            &&& outcome is Some
            &&& outcome->0.status == ToolStatus::Rejected
            &&& has_suffix(outcome->0.model_payload.output, lookup.parsed->Err_0@)
        },
        builtin_of(call.name) is None && !lookup.registered ==> {
            let outcome = rejection(call, lookup);
            &&& outcome is Some
            &&& outcome->0.status == ToolStatus::Rejected
            &&& outcome->0.session_metadata.tool == call.name
        },
{
    if builtin_of(call.name) is Some && lookup.parsed is Err {
        let outcome = rejection(call, lookup)->0.model_payload.output;
        let message = lookup.parsed->Err_0@;
        assert(outcome.subrange(outcome.len() - message.len(), outcome.len() as int) =~= message);
    }
}

/// A refusal is a refusal in all that is kept of it, and begins with what was refused.
pub proof fn a_refusal_says_what_it_refuses(tool: Seq<char>, rest: Seq<char>)
    ensures
        ({
            let outcome = refused_outcome(tool, rest);
            &&& outcome.status == ToolStatus::Rejected
            &&& outcome.model_payload.status == ToolStatus::Rejected
            &&& outcome.session_metadata.tool == tool
            &&& outcome.session_metadata.diff is None
            &&& outcome.model_payload.exit_code is None
            &&& has_prefix(outcome.model_payload.output, "status: rejected\ntool: "@ + tool)
            &&& has_suffix(outcome.model_payload.output, rest)
        }),
{
    let output = refused_outcome(tool, rest).model_payload.output;
    let front = "status: rejected\ntool: "@ + tool;
    assert(output.subrange(0, front.len() as int) =~= front);
    assert(output.subrange(output.len() - rest.len(), output.len() as int) =~= rest);
}

/// A call that may run keeps its place, its tool and what it touches.
pub proof fn a_prepared_call_is_the_call(
    call: ToolCallView,
    lookup: Lookup,
    index: int,
    prepared: PreparedCall,
)
    requires
        is_prepared(call, lookup, index, prepared),
        rejection(call, lookup) is None,
    ensures
        prepared.source_index == index,
        builtin_of(call.name) is Some ==> prepared.kind == PreparedKind::Builtin(
            builtin_of(call.name)->0,
        ),
        builtin_of(call.name) is None ==> prepared.kind is External
            && prepared.access is WorkspaceUnknown,
        builtin_of(call.name) == Some(BuiltinTool::Bash) ==> prepared.access is WorkspaceUnknown,
        (builtin_of(call.name) == Some(BuiltinTool::Edit) || builtin_of(call.name) == Some(
            BuiltinTool::Write,
        )) && lookup.parsed->Ok_0 is Path ==> is_writer(prepared),
{
    if (builtin_of(call.name) == Some(BuiltinTool::Edit) || builtin_of(call.name) == Some(
        BuiltinTool::Write,
    )) && lookup.parsed->Ok_0 is Path {
        assert(locks_of(prepared.access)[0].mode == AccessMode::Write);
    }
}

/// A batch makes as many calls as it may: all of them where there is no limit or they are
/// within it, and otherwise just enough to reach it.
pub proof fn as_many_calls_as_may_be(count: int, total: int, max: int)
    requires
        0 <= count,
        0 <= total,
        0 <= max,
    ensures
        0 <= affordable(count, total, max) <= count,
        max == 0 ==> affordable(count, total, max) == count,
        max > 0 && total <= max ==> total + affordable(count, total, max) <= max,
        max > 0 && affordable(count, total, max) < count ==> total + affordable(
            count,
            total,
            max,
        ) >= max,
        max > 0 && total >= max && count > 0 ==> affordable(count, total, max) == 0,
{
}

/// Every call of a wave is written down, and that is on disk, before any of them starts.
pub proof fn calls_are_written_down_first(
    calls: Seq<ToolCallView>,
    wave: Seq<PreparedCall>,
    n: int,
    k: int,
)
    requires
        0 <= k < n,
    ensures
        asked(calls, wave, n).len() == 2 * n,
        asked(calls, wave, n)[2 * k] == ToolActionView::Append(
            SessionEventView::ToolRequested { call: calls[wave[k].source_index as int] },
        ),
        asked(calls, wave, n)[2 * k + 1] == ToolActionView::Sync,
    decreases n,
{
    lemma_asked_len(calls, wave, n - 1);
    if k < n - 1 {
        calls_are_written_down_first(calls, wave, n - 1, k);
    }
}

proof fn lemma_asked_len(calls: Seq<ToolCallView>, wave: Seq<PreparedCall>, n: int)
    requires
        0 <= n,
    ensures
        asked(calls, wave, n).len() == 2 * n,
    decreases n,
{
    if n > 0 {
        lemma_asked_len(calls, wave, n - 1);
    }
}

/// A call that can change things is recorded with what is needed to undo it before it starts,
/// and any other with its start alone.
pub proof fn what_changes_things_is_recorded_ahead(
    calls: Seq<ToolCallView>,
    wave: Seq<PreparedCall>,
    recoveries: Seq<Option<RecoveryMetadata>>,
    n: int,
    k: int,
)
    requires
        0 <= k < n,
    ensures
        announced(calls, wave, recoveries, n).len() == n,
        ({
            let record = announced(calls, wave, recoveries, n)[k];
            let call_id = calls[wave[k].source_index as int].call_id;
            let risky = wave[k].kind matches PreparedKind::Builtin(tool) && (changes_files(tool)
                || tool is Bash);
            &&& risky ==> record == ToolActionView::WriteAhead {
                call_id,
                recovery: opt_view(recoveries[k]),
            }
            &&& !risky ==> record == ToolActionView::Append(
                SessionEventView::ToolStarted { call_id, recovery: None },
            )
        }),
    decreases n,
{
    lemma_announced_len(calls, wave, recoveries, n - 1);
    if k < n - 1 {
        what_changes_things_is_recorded_ahead(calls, wave, recoveries, n - 1, k);
    }
}

proof fn lemma_announced_len(
    calls: Seq<ToolCallView>,
    wave: Seq<PreparedCall>,
    recoveries: Seq<Option<RecoveryMetadata>>,
    n: int,
)
    requires
        0 <= n,
    ensures
        announced(calls, wave, recoveries, n).len() == n,
    decreases n,
{
    if n > 0 {
        lemma_announced_len(calls, wave, recoveries, n - 1);
    }
}

/// A call is run at its place unless it would be the third of its kind to come to nothing
/// new; and it is shown, unless it is about the plan.
pub proof fn calls_are_run_where_they_stand(
    calls: Seq<ToolCallView>,
    call: PreparedCall,
    seen: Seq<SeenRevision>,
    progress: ProgressView,
    checks_progress: bool,
)
    ensures
        ({
            let actions = launch(calls, call, seen, progress, checks_progress);
            let source = calls[call.source_index as int];
            let last = actions.last();
            let plans = match call.kind {
                PreparedKind::Builtin(tool) => tool is UpdatePlan,
                PreparedKind::External(name) => name@ == "update_plan"@,
            };
            &&& !checks_progress ==> last == ToolActionView::Execute { index: call.source_index }
            &&& progress.repeats < 1 ==> last == ToolActionView::Execute {
                index: call.source_index,
            }
            &&& last is Execute || last is Answer
            &&& last is Execute ==> last->Execute_index == call.source_index
            &&& last is Answer ==> last->Answer_index == call.source_index
                && last->Answer_outcome.status == ToolStatus::Rejected
            &&& actions.len() == if plans {
                1int
            } else {
                2
            }
            &&& !plans ==> actions[0] == ToolActionView::Emit(
                LiveEventView::ToolStarted {
                    call_id: source.call_id,
                    name: source.name,
                    arguments: source.arguments,
                },
            )
        }),
{
    if let PreparedKind::Builtin(tool) = call.kind {
        names_are_unique(tool, BuiltinTool::UpdatePlan);
    }
}

/// The outcome of a call is written under its identifier, once. The backup goes where the
/// call succeeded, and there only; a new plan is written where a call for it succeeded; and
/// any other call is shown to have ended, with what it came to.
pub proof fn a_call_is_closed_once(
    source: ToolCallView,
    index: usize,
    outcome: OutcomeView,
    plan: Option<PlanView>,
)
    ensures
        ({
            let actions = closing(source, index, outcome, plan);
            let succeeded = outcome.status == ToolStatus::Succeeded;
            let plans = source.name == "update_plan"@;
            let done = ToolActionView::Complete { call_id: source.call_id, outcome };
            &&& actions.contains(done)
            &&& forall|i: int|
                0 <= i < actions.len() && (#[trigger] actions[i]) is Complete ==> actions[i]
                    == done
            &&& actions.contains(ToolActionView::RemoveBackup { index }) == succeeded
            &&& forall|i: int|
                0 <= i < actions.len() && (#[trigger] actions[i]) is RemoveBackup ==> actions[i]
                    == (ToolActionView::RemoveBackup { index })
            &&& plans && succeeded && plan is Some ==> actions[0] == ToolActionView::Append(
                SessionEventView::PlanReplaced { plan: plan->0 },
            ) && actions[1] == ToolActionView::Sync
            &&& !plans || !succeeded || plan is None ==> actions[0] == done
            &&& !plans ==> actions.last() == ToolActionView::Emit(
                LiveEventView::ToolCompleted {
                    call_id: source.call_id,
                    name: source.name,
                    status: outcome.status,
                    duration_ms: outcome.model_payload.duration_ms,
                    exit_code: outcome.model_payload.exit_code,
                    output: outcome.model_payload.output,
                    diff: outcome.session_metadata.diff,
                },
            )
        }),
{
    let actions = closing(source, index, outcome, plan);
    let succeeded = outcome.status == ToolStatus::Succeeded;
    let plans = source.name == "update_plan"@;
    let k: int = if succeeded && plans && plan is Some {
        3
    } else {
        0
    };
    assert(actions[k] == ToolActionView::Complete { call_id: source.call_id, outcome });
    if succeeded {
        assert(actions[k + 1] == ToolActionView::RemoveBackup { index });
    }
}

/// The model is told of every call what it came to, under the call's identifier and name,
/// and in the order of the calls.
pub proof fn results_answer_their_calls(
    calls: Seq<ToolCallView>,
    results: Seq<Option<OutcomeView>>,
    n: int,
    k: int,
)
    requires
        0 <= k < n <= calls.len(),
        results.len() == calls.len(),
        forall|i: int| 0 <= i < n ==> #[trigger] results[i] is Some,
    ensures
        result_messages(calls, results, n).len() == n,
        result_messages(calls, results, n)[k] == (ChatMessageView::Tool {
            tool_call_id: calls[k].provider_id,
            name: calls[k].name,
            content: results[k]->0.model_payload.output,
        }),
{
    crate::agent::tool_runtime::every_call_is_answered_in_order(calls, results, n);
}

/// Only a call that changed a file counts as a change; every call is remembered as the last,
/// and counted where it repeats the one before it.
pub proof fn what_counts_as_progress(
    call: PreparedCall,
    outcome: OutcomeView,
    seen: Seq<SeenRevision>,
    progress: ProgressView,
)
    ensures
        ({
            let after = progress_after(call, outcome, seen, progress);
            let changed = outcome.status == ToolStatus::Succeeded && (
            outcome.session_metadata.tool == "edit"@ || outcome.session_metadata.tool
                == "write"@);
            &&& after.epoch == progress.epoch + if changed {
                1int
            } else {
                0
            }
            &&& after.last is Some
            &&& after.last->0.action == call.action_key@
            &&& after.repeats == 0 || (after.repeats == progress.repeats + 1 && progress.last
                == after.last)
            &&& progress.last == after.last ==> after.repeats == progress.repeats + 1
        }),
{
}

/// Only known files have a state, and what was seen of a call names its tool and status.
pub proof fn what_a_key_says(
    access: ToolAccess,
    seen: Seq<SeenRevision>,
    tool: Seq<char>,
    status: Seq<char>,
    payload: Seq<char>,
)
    ensures
        !(access is Resources) ==> stamp_of(access, seen).len() == 0,
        has_prefix(observation_of(tool, status, payload), tool + ":"@ + status + ":"@),
{
    let key = observation_of(tool, status, payload);
    let front = tool + ":"@ + status + ":"@;
    assert(key.subrange(0, front.len() as int) =~= front);
}

/// A call is refused only where the last one did the same in the same state and had itself
/// repeated the one before it.
pub proof fn only_repetition_is_refused(
    progress: ProgressView,
    action: Seq<char>,
    state: Seq<char>,
)
    ensures
        blocks(progress, action, state) ==> progress.repeats >= 1 && progress.last is Some
            && progress.last->0.action == action && progress.last->0.state == state,
        progress.repeats >= 1 && progress.last is Some ==> blocks(
            progress,
            progress.last->0.action,
            progress.last->0.state,
        ),
{
}

/// What changes files or may do anything is recorded ahead, and what only looks is not.
pub proof fn what_is_recorded_ahead(tool: BuiltinTool)
    ensures
        changes_files(tool) || tool is Bash ==> records_ahead(tool),
        tool is Read || tool is List || tool is Search || tool is WebSearch || tool is WebFetch
            || tool is UpdatePlan || tool is RequestInput ==> !records_ahead(tool),
{
}

/// A backup goes only once the write that it was made for has succeeded.
pub proof fn when_a_backup_goes(status: ToolStatus)
    ensures
        may_lose_backup(status) ==> status == ToolStatus::Succeeded,
        may_lose_backup(ToolStatus::Succeeded),
{
}

/// What was seen of a call depends on how it ended and on all that the model was told.
pub proof fn what_was_seen(
    tool: Seq<char>,
    arguments: Seq<char>,
    status: Seq<char>,
    payload: Seq<char>,
)
    ensures
        seen_as(status, payload) == digest_of(status + "|"@ + payload, 16),
        observation_of(tool, status, payload) == tool + ":"@ + status + ":"@ + digest_of(
            payload,
            24,
        ),
        action_of(tool, arguments) == digest_of(tool + "|"@ + canonical_of(arguments), 16),
{
}

/// A change of files counts once, and takes back nothing that was tried.
pub proof fn a_change_counts_once(progress: ProgressView)
    ensures
        after_change(progress).epoch == progress.epoch + 1,
        after_change(progress).last == progress.last,
        after_change(progress).repeats == progress.repeats,
{
}

/// Every call of a wave is launched with what was seen of its own files.
pub proof fn every_call_is_launched_with_its_own(
    calls: Seq<ToolCallView>,
    wave: Seq<PreparedCall>,
    seen: Seq<Vec<SeenRevision>>,
    progress: ProgressView,
    checks: bool,
    n: int,
)
    requires
        0 <= n < wave.len(),
        n < seen.len(),
    ensures
        launched(calls, wave, seen, progress, checks, n + 1) == launched(
            calls,
            wave,
            seen,
            progress,
            checks,
            n,
        ) + launch(calls, wave[n], seen[n]@, progress, checks),
        launched(calls, wave, seen, progress, checks, 0).len() == 0,
{
}

} // verus!
