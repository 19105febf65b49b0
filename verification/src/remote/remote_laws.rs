//! What a remote command is for: that it runs where and as it was asked, and that what it
//! came to and left behind is known.

use crate::bytes::lossy_text;
use crate::outcome::status_text;
use crate::outcome::ToolStatus;
use crate::remote::command::begun;
use crate::remote::command::done_outcome;
use crate::remote::command::executed;
use crate::remote::command::fresh_command;
use crate::remote::command::met;
use crate::remote::command::Executed;
use crate::remote::command::Meeting;
use crate::remote::command::RemoteActionView;
use crate::remote::command::RemoteCommandView;
use crate::remote::command::RemoteRequest;
use crate::remote::command::Stage;
use crate::remote::executor::capture_command;
use crate::remote::executor::committed;
use crate::remote::executor::cwd_of;
use crate::remote::executor::env_of;
use crate::remote::executor::exports;
use crate::remote::executor::failure_outcome;
use crate::remote::executor::full_command;
use crate::remote::executor::last_bytes;
use crate::remote::executor::quoted;
use crate::remote::executor::refusal_of;
use crate::remote::executor::remote_summary;
use crate::remote::executor::removals;
use crate::remote::executor::with_tail;
use crate::remote::executor::without_returns;
use crate::remote::executor::RemoteFailure;
use crate::remote::executor::RemoteResult;
use crate::remote::executor::ShellStateView;
use crate::text::has_prefix;
use crate::text::has_suffix;
use crate::text::has_text;
use crate::text::trim_of;
use crate::text_laws::a_part_occurs;
use crate::text_laws::parts_of_parts_occur;
use crate::text_laws::splitting_once;
use vstd::prelude::*;
use vstd::string::*;

verus! {

proof fn lemma_front(front: Seq<char>, line: Seq<char>, sought: Seq<char>)
    requires
        has_text(front, sought),
    ensures
        has_text(front + line, sought),
{
    let none = Seq::<char>::empty();
    parts_of_parts_occur(none, front, line, sought);
    assert(none + front + line =~= front + line);
}

proof fn lemma_back(front: Seq<char>, line: Seq<char>)
    ensures
        has_text(front + line, line),
{
    let none = Seq::<char>::empty();
    a_part_occurs(front, line, none);
    assert(front + line + none =~= front + line);
}

proof fn lemma_exported(set: Seq<(Seq<char>, Seq<char>)>, k: int)
    requires
        0 <= k < set.len(),
    ensures
        has_text(exports(set), "export "@ + set[k].0 + "="@ + quoted(set[k].1) + "; "@),
    decreases set.len(),
{
    let front = exports(set.drop_last());
    let last = set.last();
    let line = "export "@ + last.0 + "="@ + quoted(last.1) + "; "@;
    assert(exports(set) =~= front + line);
    if k == set.len() - 1 {
        lemma_back(front, line);
    } else {
        lemma_exported(set.drop_last(), k);
        lemma_front(front, line, "export "@ + set[k].0 + "="@ + quoted(set[k].1) + "; "@);
    }
}

proof fn lemma_removed(unset: Seq<Seq<char>>, k: int)
    requires
        0 <= k < unset.len(),
    ensures
        has_text(removals(unset), "unset "@ + unset[k] + "; "@),
    decreases unset.len(),
{
    let front = removals(unset.drop_last());
    let line = "unset "@ + unset.last() + "; "@;
    assert(removals(unset) =~= front + line);
    if k == unset.len() - 1 {
        lemma_back(front, line);
    } else {
        lemma_removed(unset.drop_last(), k);
        lemma_front(front, line, "unset "@ + unset[k] + "; "@);
    }
}

/// A command runs in its directory, behind the variables that the session has set and taken
/// away, and the shell ends with the status of the command and not with that of what follows.
pub proof fn a_command_runs_as_it_was_asked(
    set: Seq<(Seq<char>, Seq<char>)>,
    unset: Seq<Seq<char>>,
    directory: Seq<char>,
    command: Seq<char>,
    nonce: Seq<char>,
)
    ensures
        ({
            let script = full_command(set, unset, directory, command, nonce);
            &&& has_prefix(
                script,
                exports(set) + removals(unset) + ("cd "@ + quoted(directory) + "; "@ + command
                    + "\n__tpi_s=$?\n"@),
            )
            &&& has_suffix(script, capture_command(nonce) + "\nexit $__tpi_s"@)
        }),
{
    let script = full_command(set, unset, directory, command, nonce);
    let middle = "cd "@ + quoted(directory) + "; "@ + command + "\n__tpi_s=$?\n"@;
    let front = exports(set) + removals(unset) + middle;
    let tail = capture_command(nonce) + "\nexit $__tpi_s"@;
    lemma_script(
        exports(set) + removals(unset),
        "cd "@,
        quoted(directory),
        "; "@,
        command,
        "\n__tpi_s=$?\n"@,
        capture_command(nonce),
        "\nexit $__tpi_s"@,
    );
    assert(script == exports(set) + removals(unset) + "cd "@ + quoted(directory) + "; "@ + command
        + "\n__tpi_s=$?\n"@ + capture_command(nonce) + "\nexit $__tpi_s"@);
    assert(script == front + tail);
    assert(script.subrange(0, front.len() as int) =~= front);
    assert(script.subrange(script.len() - tail.len(), script.len() as int) =~= tail);
}

proof fn lemma_script(
    a: Seq<char>,
    b: Seq<char>,
    c: Seq<char>,
    d: Seq<char>,
    e: Seq<char>,
    f: Seq<char>,
    g: Seq<char>,
    h: Seq<char>,
)
    ensures
        a + b + c + d + e + f + g + h == a + (b + c + d + e + f) + (g + h),
{
    assert(a + b + c + d + e + f + g + h =~= a + (b + c + d + e + f) + (g + h));
}

/// Every variable that the session has set is given to the command with its value, and every
/// one that it has taken away is taken away.
pub proof fn variables_are_handed_on(
    set: Seq<(Seq<char>, Seq<char>)>,
    unset: Seq<Seq<char>>,
    k: int,
)
    ensures
        0 <= k < set.len() ==> has_text(
            exports(set),
            "export "@ + set[k].0 + "="@ + quoted(set[k].1) + "; "@,
        ),
        0 <= k < unset.len() ==> has_text(removals(unset), "unset "@ + unset[k] + "; "@),
        set.len() == 0 ==> exports(set).len() == 0,
        unset.len() == 0 ==> removals(unset).len() == 0,
{
    if 0 <= k < set.len() {
        lemma_exported(set, k);
    }
    if 0 <= k < unset.len() {
        lemma_removed(unset, k);
    }
}

/// What the shell prints of itself stands between two marks of its own: the directory first,
/// then the variables.
pub proof fn marks_are_its_own(nonce: Seq<char>)
    ensures
        has_text(capture_command(nonce), "__TPI_CAPTURE_BEGIN_"@ + nonce + "__"@),
        has_text(capture_command(nonce), "__TPI_CAPTURE_END_"@ + nonce + "__"@),
{
    let whole = capture_command(nonce);
    reveal_strlit("printf '\\n__TPI_CAPTURE_BEGIN_");
    reveal_strlit("__TPI_CAPTURE_BEGIN_");
    reveal_strlit("__\\n'; printf '%s\\n' \"$PWD\"; env; printf '__TPI_CAPTURE_END_");
    reveal_strlit("__TPI_CAPTURE_END_");
    reveal_strlit("__\\n'");
    reveal_strlit("__");
    let a = "printf '\\n__TPI_CAPTURE_BEGIN_"@;
    let b = "__\\n'; printf '%s\\n' \"$PWD\"; env; printf '__TPI_CAPTURE_END_"@;
    let c = "__\\n'"@;
    let begin = "__TPI_CAPTURE_BEGIN_"@;
    let end = "__TPI_CAPTURE_END_"@;
    let u = "__"@;
    assert(a =~= a.take(a.len() - begin.len()) + begin);
    assert(b =~= u + b.skip(2));
    assert(b =~= b.take(b.len() - end.len()) + end);
    assert(c =~= u + c.skip(2));
    lemma_between(a.take(a.len() - begin.len()), begin, nonce, u, b.skip(2) + nonce + c);
    assert(a.take(a.len() - begin.len()) + begin + nonce + u + (b.skip(2) + nonce + c) =~= a + nonce
        + b + nonce + c);
    lemma_between(a + nonce + b.take(b.len() - end.len()), end, nonce, u, c.skip(2));
    assert(a + nonce + b.take(b.len() - end.len()) + end + nonce + u + c.skip(2) =~= a + nonce + b
        + nonce + c);
}

proof fn lemma_between(
    before: Seq<char>,
    mark: Seq<char>,
    nonce: Seq<char>,
    end: Seq<char>,
    after: Seq<char>,
)
    ensures
        has_text(before + mark + nonce + end + after, mark + nonce + end),
{
    a_part_occurs(before, mark + nonce + end, after);
    assert(before + (mark + nonce + end) + after =~= before + mark + nonce + end + after);
}

proof fn lemma_env_prefix(all: Seq<Seq<char>>, line: Seq<char>, n: int)
    requires
        n <= all.len(),
    ensures
        env_of(all.push(line), n) == env_of(all, n),
    decreases n,
{
    if n > 1 {
        lemma_env_prefix(all, line, n - 1);
        assert(all.push(line)[n - 1] == all[n - 1]);
    }
}

proof fn lemma_no_return(line: Seq<char>)
    requires
        line.len() == 0 || line.last() != '\r',
    ensures
        without_returns(line) == line,
{
}

/// A printed variable is known by its name and value, up to the first equals sign; a later
/// one of the same name counts, and a line without that sign is none.
pub proof fn printed_variables_are_known(
    all: Seq<Seq<char>>,
    name: Seq<char>,
    value: Seq<char>,
    other: Seq<char>,
)
    requires
        all.len() >= 1,
        !name.contains('='),
        value.len() > 0,
        value.last() != '\r',
        !other.contains('='),
    ensures
        ({
            let line = name.push('=') + value;
            &&& env_of(all.push(line), all.len() as int + 1) == env_of(
                all,
                all.len() as int,
            ).insert(name, value)
            &&& env_of(all.push(other), all.len() as int + 1) == env_of(all, all.len() as int)
        }),
{
    let line = name.push('=') + value;
    let n = all.len() as int;
    lemma_env_prefix(all, line, n);
    lemma_env_prefix(all, other, n);
    assert(line.last() == value.last());
    lemma_no_return(line);
    assert forall|i: int| 0 <= i < name.len() implies line[i] != '=' by {
        if line[i] == '=' {
            assert(name[i] == '=');
            assert(name.contains('='));
        }
    }
    assert(line[name.len() as int] == '=');
    crate::text::lemma_first_index(line, '=', name.len() as int);
    assert(line.subrange(0, name.len() as int) =~= name);
    assert(line.subrange(name.len() as int + 1, line.len() as int) =~= value);
    lemma_returns_hold_nothing(other);
    splitting_once(without_returns(other), '=');
}

proof fn lemma_returns_hold_nothing(line: Seq<char>)
    ensures
        forall|c: char| without_returns(line).contains(c) ==> line.contains(c),
    decreases line.len(),
{
    if line.len() > 0 && line.last() == '\r' {
        lemma_returns_hold_nothing(line.drop_last());
        assert forall|c: char| without_returns(line).contains(c) implies line.contains(c) by {
            assert(line.drop_last().contains(c));
            let i = choose|i: int| 0 <= i < line.len() - 1 && line.drop_last()[i] == c;
            assert(line[i] == c);
        }
    }
}

/// The directory of the shell is the first line that it prints, where something stands there.
pub proof fn the_directory_is_printed_first(all: Seq<Seq<char>>)
    ensures
        all.len() == 0 ==> cwd_of(all) is None,
        all.len() > 0 && trim_of(all[0]).len() > 0 ==> cwd_of(all) == Some(trim_of(all[0])),
        all.len() > 0 && trim_of(all[0]).len() == 0 ==> cwd_of(all) is None,
{
}

/// A command is refused where it is empty or its time is none or too long, and only there.
pub proof fn when_a_command_is_refused(command: Seq<char>, timeout_ms: u64, max_ms: u64)
    ensures
        (refusal_of(command, timeout_ms, max_ms) is None) == (trim_of(command).len() > 0 && 1
            <= timeout_ms <= max_ms),
        refusal_of(command, timeout_ms, max_ms) is Some ==> refusal_of(
            command,
            timeout_ms,
            max_ms,
        )->0.status == ToolStatus::Rejected,
{
}

/// A command that did not end by itself says how it ended, and never that it succeeded.
pub proof fn failures_say_what_happened(failure: RemoteFailure)
    ensures
        ({
            let outcome = failure_outcome(failure);
            &&& (outcome.status == ToolStatus::TimedOut) == (failure is TimedOut)
            &&& (outcome.status == ToolStatus::Cancelled) == (failure is Cancelled)
            &&& failure is HostKey || failure is Connect || failure is Exec ==> outcome.status
                == ToolStatus::Failed
            &&& outcome.model_payload.status == outcome.status
            &&& outcome.model_payload.exit_code is None
            &&& match failure {
                RemoteFailure::Connect(error) => has_suffix(outcome.model_payload.output, error@),
                RemoteFailure::Exec(error) => has_suffix(outcome.model_payload.output, error@),
                _ => true,
            }
        }),
{
    let output = failure_outcome(failure).model_payload.output;
    match failure {
        RemoteFailure::Connect(error) => {
            assert(output.subrange(output.len() - error@.len(), output.len() as int) =~= error@);
        },
        RemoteFailure::Exec(error) => {
            assert(output.subrange(output.len() - error@.len(), output.len() as int) =~= error@);
        },
        _ => {},
    }
}

/// A command that ended succeeded where it ended with 0, and only there; its code and its time
/// are kept.
pub proof fn success_is_ending_with_zero(result: RemoteResult, budget: int)
    ensures
        ({
            let outcome = done_outcome(result, budget);
            &&& (outcome.status == ToolStatus::Succeeded) == (result.exit_code == Some(0i32))
            &&& outcome.status == ToolStatus::Succeeded || outcome.status == ToolStatus::Failed
            &&& outcome.model_payload.status == outcome.status
            &&& outcome.model_payload.exit_code == result.exit_code
            &&& outcome.model_payload.duration_ms == result.duration_ms
            &&& outcome.model_payload.output == remote_summary(result, budget)
            &&& has_prefix(
                outcome.model_payload.output,
                "status: "@ + status_text(outcome.status),
            )
        }),
{
    let outcome = done_outcome(result, budget);
    let output = outcome.model_payload.output;
    let front = "status: "@ + status_text(outcome.status);
    assert(output.subrange(0, front.len() as int) =~= front);
}

/// Of what was printed the end is kept, as much as may be; and what fits is shown whole, under
/// the name of its stream.
pub proof fn the_end_of_the_output_is_shown(
    body: Seq<char>,
    name: Seq<char>,
    bytes: Seq<u8>,
    budget: int,
)
    requires
        0 <= budget,
    ensures
        last_bytes(bytes, budget).len() == if bytes.len() <= budget {
            bytes.len() as int
        } else {
            budget
        },
        last_bytes(bytes, budget) == bytes.skip(bytes.len() - last_bytes(bytes, budget).len()),
        bytes.len() == 0 ==> with_tail(body, name, bytes, budget) == body,
        bytes.len() > 0 ==> has_prefix(with_tail(body, name, bytes, budget), body) && has_suffix(
            with_tail(body, name, bytes, budget),
            lossy_text(last_bytes(bytes, budget)),
        ) && has_text(with_tail(body, name, bytes, budget), "--- "@ + name + " ---\n"@),
        0 < bytes.len() <= budget ==> has_suffix(
            with_tail(body, name, bytes, budget),
            lossy_text(bytes),
        ),
{
    assert(bytes.skip(0) =~= bytes);
    if bytes.len() > 0 {
        let all = with_tail(body, name, bytes, budget);
        let tail = lossy_text(last_bytes(bytes, budget));
        let head = if body.len() == 0 {
            body
        } else {
            body + "\n"@
        };
        assert(all.subrange(0, body.len() as int) =~= body);
        assert(all.subrange(all.len() - tail.len(), all.len() as int) =~= tail);
        a_part_occurs(head, "--- "@ + name + " ---\n"@, tail);
        assert(head + ("--- "@ + name + " ---\n"@) + tail =~= all);
    }
}

/// A shell stays where its last command left it. Its variables are known where those that it
/// began with are; and its state is new where anything of it is.
pub proof fn a_shell_stays_where_it_was_left(
    state: ShellStateView,
    cwd: Seq<char>,
    ran_in: Seq<char>,
    set: Seq<(Seq<char>, Seq<char>)>,
    unset: Seq<Seq<char>>,
)
    requires
        state.version < u64::MAX,
    ensures
        ({
            let after = committed(state, cwd, ran_in, set, unset);
            &&& cwd != ran_in ==> after.cwd == cwd
            &&& cwd == ran_in ==> after.cwd == state.cwd
            &&& state.baseline is Some ==> after.set == set && after.unset == unset
            &&& state.baseline is None ==> after.set == state.set && after.unset == state.unset
            &&& after.baseline == state.baseline
            &&& after.version == state.version || after.version == state.version + 1
            &&& after.version == state.version ==> after == state
            &&& after.cwd != state.cwd || after.set != state.set || after.unset != state.unset
                ==> after.version == state.version + 1
        }),
{
}

/// A command runs in the directory that it names, and otherwise in that of the session, with
/// its own time.
pub proof fn where_a_command_runs(
    request: RemoteRequest,
    shell: ShellStateView,
    nonce: Seq<char>,
    baseline_nonce: Seq<char>,
)
    ensures
        ({
            let fresh = fresh_command(request, shell, nonce, baseline_nonce);
            &&& request.cwd is Some ==> fresh.directory == request.cwd->0@
            &&& request.cwd is None ==> fresh.directory == shell.cwd
            &&& fresh.timeout_ms == request.timeout_ms
            &&& fresh.script == full_command(
                shell.set,
                shell.unset,
                fresh.directory,
                request.command@,
                nonce,
            )
        }),
{
}

/// A command is sent at once where there is a connection and the variables of the machine are
/// known; they are asked for first where they are not; and without a connection one is made.
pub proof fn how_a_command_begins(command: RemoteCommandView)
    ensures
        begun(command, true, true).action == (RemoteActionView::Exec {
            script: command.script,
            timeout_ms: Some(command.timeout_ms),
        }),
        begun(command, false, true).action == (RemoteActionView::Exec {
            script: command.baseline_script,
            timeout_ms: None,
        }),
        begun(command, true, false).action is Connect,
        begun(command, false, false).action is Connect,
{
}

/// A machine whose key is not accepted, or that cannot be reached, runs nothing: the command
/// is over, and it failed.
pub proof fn nothing_runs_on_a_stranger(
    command: RemoteCommandView,
    meeting: Meeting,
    connected: bool,
)
    requires
        command.stage == Stage::Meeting,
    ensures
        meeting is Accepted ==> met(command, meeting, connected).action
            == (RemoteActionView::Exec {
            script: command.script,
            timeout_ms: Some(command.timeout_ms),
        }),
        !(meeting is Accepted) ==> {
            let step = met(command, meeting, connected);
            &&& step.command.stage == Stage::Over
            &&& step.action is Finish
            &&& step.action->Finish_0.status == ToolStatus::Failed
        },
{
}

/// A command that the shell answered is over, with what it came to; and the question for the
/// variables is followed by the command, whatever the answer.
pub proof fn an_answer_ends_the_command(
    command: RemoteCommandView,
    answer: Executed,
    budget: int,
    connected: bool,
)
    requires
        command.stage == Stage::Running || command.stage == Stage::Baseline,
    ensures
        ({
            let step = executed(command, answer, budget, connected);
            &&& command.stage == Stage::Running ==> step.command.stage == Stage::Over
                && step.action is Finish && match answer {
                Executed::Done { result, capture } => (step.action->Finish_0.status
                    == ToolStatus::Succeeded) == (result.exit_code == Some(0i32)),
                Executed::Failed(failure) => step.action->Finish_0.status
                    != ToolStatus::Succeeded,
            }
            &&& command.stage == Stage::Baseline && connected ==> step.action
                == (RemoteActionView::Exec {
                script: command.script,
                timeout_ms: Some(command.timeout_ms),
            })
            &&& command.stage == Stage::Baseline && !connected ==> step.action is Connect
        }),
{
}

} // verus!
