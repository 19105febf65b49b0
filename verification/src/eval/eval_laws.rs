//! What an evaluation is for: that what happened is counted, that what was expected is checked,
//! and that the verdict follows from both.

use crate::eval::stats::Counted;
use crate::eval::stats::EvalStats;
use crate::eval::stats::can_be_told;
use crate::eval::stats::counts;
use crate::eval::stats::first_edit;
use crate::eval::stats::last_message;
use crate::eval::stats::lemma_tally;
use crate::eval::stats::starts_edit;
use crate::eval::stats::stats_of;
use crate::eval::stats::tally;
use crate::eval::stats::tokens_in;
use crate::eval::stats::tokens_out;
use crate::eval::stats::tool_of;
use crate::eval::stats::untimed;
use crate::eval::task::EvalResult;
use crate::eval::task::TaskEntry;
use crate::eval::task::TaskRun;
use crate::eval::task::asked_for;
use crate::eval::task::chosen;
use crate::eval::task::is_result;
use crate::eval::task::metrics_line;
use crate::eval::task::name_fault;
use crate::eval::task::passes;
use crate::eval::task::result_lines;
use crate::eval::task::selection;
use crate::eval::task::verdict_fault;
use crate::eval::task::verdict_line;
use crate::eval::verify::Observation;
use crate::eval::verify::VerifyResult;
use crate::eval::verify::VerifyStep;
use crate::eval::verify::all_passed;
use crate::eval::verify::bash_of;
use crate::eval::verify::bash_places;
use crate::eval::verify::judged;
use crate::eval::verify::lacking;
use crate::ids::ToolCallId;
use crate::outcome::ToolStatus;
use crate::path::path_join;
use crate::process::resolver::first_there;
use crate::session::CompletionReason;
use crate::session::SessionEvent;
use crate::session::SessionEventView;
use crate::text::decimal_of;
use crate::text::has_prefix;
use crate::text::has_suffix;
use crate::text::has_text;
use crate::text::occurs_at;
use crate::text::views;
use crate::text_laws::a_part_occurs;
use vstd::prelude::*;

verus! {

/// One where something holds.
pub open spec fn one_if(holds: bool) -> int {
    if holds {
        1
    } else {
        0
    }
}

/// Whether a call of a tool is asked for.
pub open spec fn asks_for(event: SessionEventView, name: Seq<char>) -> bool {
    event matches SessionEventView::ToolRequested { call } && call.name == name
}

/// Whether a call ends and says something.
pub open spec fn ends_saying(event: SessionEventView, text: Seq<char>) -> bool {
    event matches SessionEventView::ToolCompleted { outcome, .. } && has_text(
        outcome.model_payload.output,
        text,
    )
}

/// Whether a call of a name fails.
pub open spec fn fails_as(
    event: SessionEventView,
    before: Seq<SessionEventView>,
    name: Seq<char>,
) -> bool {
    event matches SessionEventView::ToolCompleted { call_id, outcome } && outcome.status
        == ToolStatus::Failed && tool_of(before, call_id, before.len() as int) == name
}

proof fn lemma_before(
    events: Seq<SessionEventView>,
    event: SessionEventView,
    what: Counted,
    id: ToolCallId,
    n: int,
)
    requires
        n <= events.len(),
    ensures
        tool_of(events.push(event), id, n) == tool_of(events, id, n),
        tally(events.push(event), what, n) == tally(events, what, n),
        tokens_in(events.push(event), n) == tokens_in(events, n),
        tokens_out(events.push(event), n) == tokens_out(events, n),
    decreases n,
{
    if n > 0 {
        let more = events.push(event);
        assert(more[n - 1] == events[n - 1]);
        lemma_before(events, event, what, id, n - 1);
        if let SessionEventView::ToolCompleted { call_id, outcome } = events[n - 1] {
            lemma_before(events, event, what, call_id, n - 1);
        }
        assert(counts(more, what, n - 1) == counts(events, what, n - 1));
    }
}

proof fn lemma_counted(events: Seq<(i128, SessionEvent)>, event: (i128, SessionEvent), what: Counted)
    ensures
        ({
            let n = events.len() as int;
            let all = untimed(events);
            let more = untimed(events.push(event));
            &&& more == all.push(event.1@)
            &&& tally(more, what, n + 1) == tally(all, what, n) + one_if(counts(more, what, n))
            &&& tally(all, what, n) <= n
            &&& tally(more, what, n + 1) <= n + 1
            &&& tokens_in(more, n) == tokens_in(all, n)
            &&& tokens_out(more, n) == tokens_out(all, n)
        }),
{
    let n = events.len() as int;
    let all = untimed(events);
    let more = untimed(events.push(event));
    assert(more =~= all.push(event.1@));
    lemma_before(all, event.1@, what, ToolCallId(0), n);
    lemma_tally(all, what, n);
    lemma_tally(more, what, n + 1);
}

/// A call is known by the name that it was asked for with, from the time that it was.
pub proof fn a_call_has_the_name_it_was_asked_with(
    events: Seq<SessionEventView>,
    event: SessionEventView,
    id: ToolCallId,
)
    ensures
        ({
            let name = tool_of(events.push(event), id, (events.len() + 1) as int);
            match event {
                SessionEventView::ToolRequested { call } => if call.call_id == id {
                    name == call.name
                } else {
                    name == tool_of(events, id, events.len() as int)
                },
                _ => name == tool_of(events, id, events.len() as int),
            }
        }),
        tool_of(Seq::<SessionEventView>::empty(), id, 0).len() == 0,
{
    lemma_before(events, event, Counted::Calls, id, events.len() as int);
    assert(events.push(event)[events.len() as int] == event);
}

/// An event is counted as what it is, and as nothing else: an answer as a turn, a run as a run,
/// and a call as a call and as one of its tool.
#[verifier::rlimit(50)]
pub proof fn an_event_is_counted(events: Seq<(i128, SessionEvent)>, event: (i128, SessionEvent))
    requires
        events.len() < u32::MAX,
    ensures
        ({
            let a = stats_of(events);
            let b = stats_of(events.push(event));
            let e = event.1@;
            &&& b.turns == a.turns + one_if(e is AssistantMessageCommitted)
            &&& b.run_calls == a.run_calls + one_if(e is RunStarted)
            &&& b.tool_calls == a.tool_calls + one_if(e is ToolRequested)
            &&& b.bash_calls == a.bash_calls + one_if(asks_for(e, "bash"@))
            &&& b.read_calls == a.read_calls + one_if(asks_for(e, "read"@))
            &&& b.search_calls == a.search_calls + one_if(
                asks_for(e, "search"@) || asks_for(e, "list"@),
            )
            &&& b.edit_calls == a.edit_calls + one_if(asks_for(e, "edit"@))
            &&& b.write_calls == a.write_calls + one_if(asks_for(e, "write"@))
            &&& b.web_search_calls == a.web_search_calls + one_if(asks_for(e, "web_search"@))
            &&& b.web_fetch_calls == a.web_fetch_calls + one_if(asks_for(e, "web_fetch"@))
            &&& b.compaction_count == a.compaction_count + one_if(e is CompactionCommitted)
            &&& b.repeated_actions == a.repeated_actions + one_if(
                ends_saying(e, "repeated_without_progress"@),
            )
        }),
{
    let n = events.len() as int;
    let more = untimed(events.push(event));
    lemma_counted(events, event, Counted::Turns);
    lemma_counted(events, event, Counted::Runs);
    lemma_counted(events, event, Counted::Calls);
    lemma_counted(events, event, Counted::Bash);
    lemma_counted(events, event, Counted::Read);
    lemma_counted(events, event, Counted::Search);
    lemma_counted(events, event, Counted::Edit);
    lemma_counted(events, event, Counted::Write);
    lemma_counted(events, event, Counted::WebSearch);
    lemma_counted(events, event, Counted::WebFetch);
    lemma_counted(events, event, Counted::Compactions);
    lemma_counted(events, event, Counted::Repeated);
    assert(more[n] == event.1@);
    lemma_names();
}

proof fn lemma_names()
    ensures
        "bash"@ != "read"@,
        "bash"@ != "list"@,
        "bash"@ != "search"@,
        "bash"@ != "edit"@,
        "bash"@ != "write"@,
        "bash"@ != "web_search"@,
        "bash"@ != "web_fetch"@,
        "read"@ != "list"@,
        "read"@ != "search"@,
        "read"@ != "edit"@,
        "read"@ != "write"@,
        "read"@ != "web_search"@,
        "read"@ != "web_fetch"@,
        "list"@ != "edit"@,
        "list"@ != "write"@,
        "list"@ != "web_search"@,
        "list"@ != "web_fetch"@,
        "search"@ != "edit"@,
        "search"@ != "write"@,
        "search"@ != "web_search"@,
        "search"@ != "web_fetch"@,
        "edit"@ != "write"@,
        "edit"@ != "web_search"@,
        "edit"@ != "web_fetch"@,
        "write"@ != "web_search"@,
        "write"@ != "web_fetch"@,
        "web_search"@ != "web_fetch"@,
{
    reveal_strlit("bash");
    reveal_strlit("read");
    reveal_strlit("list");
    reveal_strlit("search");
    reveal_strlit("edit");
    reveal_strlit("write");
    reveal_strlit("web_search");
    reveal_strlit("web_fetch");
    assert("bash"@[0] == 'b' && "read"@[0] == 'r' && "list"@[0] == 'l' && "search"@[0] == 's');
    assert("edit"@[0] == 'e' && "write"@[0] == 'w' && "web_search"@[0] == 'w');
    assert("web_fetch"@[0] == 'w');
    assert("write"@.len() == 5 && "web_search"@.len() == 10 && "web_fetch"@.len() == 9);
}

/// A failed edit is counted as one, and as a stale one where that is what it says.
#[verifier::rlimit(50)]
pub proof fn a_failed_edit_is_counted(events: Seq<(i128, SessionEvent)>, event: (i128, SessionEvent))
    requires
        events.len() < u32::MAX,
    ensures
        ({
            let a = stats_of(events);
            let b = stats_of(events.push(event));
            let failed = fails_as(event.1@, untimed(events), "edit"@);
            &&& b.edit_failures == a.edit_failures + one_if(failed)
            &&& b.stale_failures == a.stale_failures + one_if(
                failed && ends_saying(event.1@, "stale revision"@),
            )
        }),
{
    let n = events.len() as int;
    let more = untimed(events.push(event));
    lemma_counted(events, event, Counted::EditFailures);
    lemma_counted(events, event, Counted::StaleFailures);
    assert(more[n] == event.1@);
    if let SessionEventView::ToolCompleted { call_id, outcome } = event.1@ {
        lemma_before(untimed(events), event.1@, Counted::Calls, call_id, n);
    }
}

/// Tokens are counted at the end of a run, as many as it used.
pub proof fn a_run_is_counted(events: Seq<(i128, SessionEvent)>, event: (i128, SessionEvent))
    requires
        can_be_told(events.push(event)),
    ensures
        ({
            let a = stats_of(events);
            let b = stats_of(events.push(event));
            match event.1@ {
                SessionEventView::RunCompleted { usage, .. } => b.input_tokens == a.input_tokens
                    + usage.input_tokens && b.output_tokens == a.output_tokens
                    + usage.output_tokens,
                _ => b.input_tokens == a.input_tokens && b.output_tokens == a.output_tokens,
            }
        }),
{
    let n = events.len() as int;
    let all = untimed(events);
    let more = untimed(events.push(event));
    lemma_counted(events, event, Counted::Turns);
    assert(more[n] == event.1@);
    assert(tokens_in(more, n + 1) <= u64::MAX);
    assert(tokens_out(more, n + 1) <= u64::MAX);
}

/// Nothing is counted where nothing has happened.
pub proof fn nothing_counts_for_nothing(events: Seq<(i128, SessionEvent)>)
    requires
        events.len() == 0,
    ensures
        stats_of(events) == (EvalStats {
            turns: 0,
            tool_calls: 0,
            run_calls: 0,
            bash_calls: 0,
            read_calls: 0,
            search_calls: 0,
            edit_calls: 0,
            write_calls: 0,
            web_search_calls: 0,
            web_fetch_calls: 0,
            other_calls: 0,
            repeated_actions: 0,
            edit_failures: 0,
            stale_failures: 0,
            input_tokens: 0,
            output_tokens: 0,
            first_edit_time_ms: None,
            compaction_count: 0,
        }),
{
}

proof fn lemma_first_edit(events: Seq<SessionEventView>, first: int, n: int)
    requires
        0 <= first < n <= events.len(),
        starts_edit(events[first]),
        forall|i: int| 0 <= i < first ==> !starts_edit(#[trigger] events[i]),
    ensures
        first_edit(events, n) == Some(first),
    decreases n,
{
    if n - 1 > first {
        lemma_first_edit(events, first, n - 1);
    } else {
        lemma_no_edit(events, first);
    }
}

proof fn lemma_no_edit(events: Seq<SessionEventView>, n: int)
    requires
        n <= events.len(),
        forall|i: int| 0 <= i < n ==> !starts_edit(#[trigger] events[i]),
    ensures
        first_edit(events, n) is None,
    decreases n,
{
    if n > 0 {
        lemma_no_edit(events, n - 1);
    }
}

proof fn lemma_last_message(events: Seq<SessionEventView>, last: int, n: int)
    requires
        0 <= last < n <= events.len(),
        events[last] is UserSubmitted,
        forall|i: int| last < i < n ==> !((#[trigger] events[i]) is UserSubmitted),
    ensures
        last_message(events, n) == Some(last),
    decreases n,
{
    if n - 1 > last {
        lemma_last_message(events, last, n - 1);
    }
}

/// The first edit is timed from the last message of the user: it takes as many milliseconds as
/// lie between the two, and none where it comes first.
pub proof fn how_long_the_first_edit_takes(
    events: Seq<(i128, SessionEvent)>,
    message: int,
    edit: int,
)
    requires
        0 <= message < events.len(),
        0 <= edit < events.len(),
        events[message].1@ is UserSubmitted,
        forall|i: int|
            message < i < events.len() ==> !((#[trigger] events[i]).1@ is UserSubmitted),
        events[edit].1@ matches SessionEventView::ToolStarted { recovery: Some(recovery), .. }
            && recovery.tool == "edit"@,
        forall|i: int| 0 <= i < edit ==> !starts_edit((#[trigger] events[i]).1@),
        events[edit].0 - events[message].0 <= u64::MAX,
    ensures
        stats_of(events).first_edit_time_ms is Some,
        events[edit].0 >= events[message].0 ==> stats_of(events).first_edit_time_ms->0
            == events[edit].0 - events[message].0,
        events[edit].0 < events[message].0 ==> stats_of(events).first_edit_time_ms->0 == 0,
{
    let all = untimed(events);
    let n = events.len() as int;
    assert forall|i: int| 0 <= i < n implies #[trigger] all[i] == events[i].1@ by {}
    lemma_first_edit(all, edit, n);
    lemma_last_message(all, message, n);
}

proof fn lemma_lacking(head: Seq<char>, said: Seq<char>, wanted: Seq<Seq<char>>)
    ensures
        (lacking(head, said, wanted).len() == 0) == (forall|i: int|
            0 <= i < wanted.len() ==> has_text(said, #[trigger] wanted[i])),
    decreases wanted.len(),
{
    if wanted.len() > 0 {
        let front = wanted.drop_last();
        lemma_lacking(head, said, front);
        if forall|i: int| 0 <= i < front.len() ==> has_text(said, #[trigger] front[i]) {
            if has_text(said, wanted.last()) {
                assert forall|i: int| 0 <= i < wanted.len() implies has_text(
                    said,
                    #[trigger] wanted[i],
                ) by {
                    if i < front.len() {
                        assert(front[i] == wanted[i]);
                    }
                }
            } else {
                assert(wanted[wanted.len() - 1] == wanted.last());
            }
        } else {
            let i = choose|i: int| 0 <= i < front.len() && !has_text(said, #[trigger] front[i]);
            assert(wanted[i] == front[i]);
        }
    }
}

/// A command passes where it ended with the code that was expected, zero where none was, and
/// said all that it should on both streams; and does not where it did not end.
pub proof fn when_a_command_passes(
    command: String,
    expect_exit: Option<i32>,
    out: Vec<String>,
    err: Vec<String>,
    seen: Observation,
)
    ensures
        ({
            let step = VerifyStep::Bash {
                command,
                expect_exit,
                expect_stdout_contains: out,
                expect_stderr_contains: err,
            };
            judged(step, seen).passed == match seen {
                Observation::Ended { code: Some(code), stdout, stderr } => {
                    &&& expect_exit is Some ==> code == expect_exit->0
                    &&& expect_exit is None ==> code == 0
                    &&& forall|i: int|
                        0 <= i < out@.len() ==> has_text(stdout@, (#[trigger] out@[i])@)
                    &&& forall|i: int|
                        0 <= i < err@.len() ==> has_text(stderr@, (#[trigger] err@[i])@)
                },
                _ => false,
            }
        }),
{
    if let Observation::Ended { code: Some(code), stdout, stderr } = seen {
        lemma_lacking("stdout 缺少: "@, stdout@, views(out@));
        lemma_lacking("stderr 缺少: "@, stderr@, views(err@));
        assert forall|i: int| 0 <= i < out@.len() implies #[trigger] views(out@)[i]
            == out@[i]@ by {}
        assert forall|i: int| 0 <= i < err@.len() implies #[trigger] views(err@)[i]
            == err@[i]@ by {}
        if forall|i: int| 0 <= i < out@.len() ==> has_text(stdout@, (#[trigger] out@[i])@) {
            assert forall|i: int| 0 <= i < views(out@).len() implies has_text(
                stdout@,
                #[trigger] views(out@)[i],
            ) by {
                assert(views(out@)[i] == out@[i]@);
            }
        } else {
            let i = choose|i: int|
                0 <= i < out@.len() && !has_text(stdout@, (#[trigger] out@[i])@);
            assert(views(out@)[i] == out@[i]@);
        }
        if forall|i: int| 0 <= i < err@.len() ==> has_text(stderr@, (#[trigger] err@[i])@) {
            assert forall|i: int| 0 <= i < views(err@).len() implies has_text(
                stderr@,
                #[trigger] views(err@)[i],
            ) by {
                assert(views(err@)[i] == err@[i]@);
            }
        } else {
            let i = choose|i: int|
                0 <= i < err@.len() && !has_text(stderr@, (#[trigger] err@[i])@);
            assert(views(err@)[i] == err@[i]@);
        }
    }
}

/// A file passes where it is there, and where it holds what it should.
pub proof fn when_a_file_passes(path: String, contains: String, seen: Observation)
    ensures
        judged(VerifyStep::FileExists { path }, seen).passed == (seen == Observation::File(true)),
        judged(VerifyStep::FileContains { path, contains }, seen).passed == (seen is Text
            && has_text(seen->Text_0@, contains@)),
{
}

/// What does not pass says why, and what passes says nothing; and each says what it is about.
pub proof fn what_does_not_pass_says_why(step: VerifyStep, seen: Observation)
    ensures
        judged(step, seen).passed == (judged(step, seen).detail is None),
        step matches VerifyStep::Bash { command, .. } ==> has_suffix(
            judged(step, seen).step,
            command@,
        ),
        step matches VerifyStep::FileExists { path } ==> has_suffix(judged(step, seen).step, path@),
        step matches VerifyStep::FileContains { path, .. } ==> has_suffix(
            judged(step, seen).step,
            path@,
        ),
        step is Bash && seen is NotRun ==> judged(step, seen).detail == Some(seen->NotRun_0@),
{
    let text = judged(step, seen).step;
    match step {
        VerifyStep::Bash { command, .. } => {
            assert(text.subrange(text.len() - command@.len(), text.len() as int) =~= command@);
        },
        VerifyStep::FileExists { path } => {
            assert(text.subrange(text.len() - path@.len(), text.len() as int) =~= path@);
        },
        VerifyStep::FileContains { path, .. } => {
            assert(text.subrange(text.len() - path@.len(), text.len() as int) =~= path@);
        },
    }
}

proof fn lemma_first_there(exists: Seq<bool>, i: int, k: int)
    requires
        0 <= i <= k < exists.len(),
        exists[k],
        forall|j: int| i <= j < k ==> !#[trigger] exists[j],
    ensures
        first_there(exists, i) == Some(k),
    decreases k - i,
{
    if i < k {
        lemma_first_there(exists, i + 1, k);
    }
}

proof fn lemma_none_there(exists: Seq<bool>, i: int)
    requires
        forall|j: int| 0 <= j < exists.len() ==> !#[trigger] exists[j],
    ensures
        first_there(exists, i) is None,
    decreases exists.len() - i,
{
    if 0 <= i < exists.len() {
        lemma_none_there(exists, i + 1);
    }
}

/// The first shell that is there is used, and the name alone where none is.
pub proof fn which_shell_is_used(candidates: Seq<Seq<char>>, exists: Seq<bool>, k: int)
    ensures
        0 <= k < exists.len() && exists[k] && (forall|j: int| 0 <= j < k ==> !#[trigger] exists[j])
            ==> bash_of(candidates, exists) == candidates[k],
        (forall|j: int| 0 <= j < exists.len() ==> !#[trigger] exists[j]) ==> bash_of(
            candidates,
            exists,
        ) == "bash"@,
{
    if 0 <= k < exists.len() && exists[k] && (forall|j: int|
        0 <= j < k ==> !#[trigger] exists[j]) {
        lemma_first_there(exists, 0, k);
    }
    if forall|j: int| 0 <= j < exists.len() ==> !#[trigger] exists[j] {
        lemma_none_there(exists, 0);
    }
}

/// One fault is enough.
pub proof fn one_fault_fails_all(results: Seq<VerifyResult>, k: int)
    requires
        0 <= k < results.len(),
    ensures
        all_passed(results) ==> results[k].passed && passes(results) == results.len(),
        !results[k].passed ==> !all_passed(results) && passes(results) < results.len(),
        all_passed(results) == (passes(results) == results.len()),
{
    lemma_passes(results);
}

proof fn lemma_passes(results: Seq<VerifyResult>)
    ensures
        passes(results) <= results.len(),
        all_passed(results) == (passes(results) == results.len()),
    decreases results.len(),
{
    if results.len() > 0 {
        let front = results.drop_last();
        lemma_passes(front);
        if all_passed(front) && results.last().passed {
            assert forall|i: int| 0 <= i < results.len() implies (#[trigger] results[i]).passed by {
                if i < front.len() {
                    assert(front[i] == results[i]);
                }
            }
        } else if all_passed(front) {
            assert(!results[results.len() - 1].passed);
        } else {
            let i = choose|i: int| 0 <= i < front.len() && !(#[trigger] front[i]).passed;
            assert(results[i] == front[i]);
        }
    }
}

/// A task has the name of its directory.
pub proof fn tasks_are_named_by_their_directory(
    name: Seq<char>,
    directory: Seq<char>,
    path: Seq<char>,
)
    ensures
        (name_fault(name, directory, path) is None) == (name == directory),
        name != directory ==> has_prefix(name_fault(name, directory, path)->0, path),
{
    if name != directory {
        let text = name_fault(name, directory, path)->0;
        assert(text.subrange(0, path.len() as int) =~= path);
    }
}

proof fn lemma_chosen(
    tasks: Seq<TaskEntry>,
    name: Option<Seq<char>>,
    suite: Option<Seq<char>>,
    task: TaskEntry,
)
    ensures
        chosen(tasks, name, suite).contains(task) == (tasks.contains(task) && asked_for(
            task,
            name,
            suite,
        )),
    decreases tasks.len(),
{
    if tasks.len() > 0 {
        let front = tasks.drop_last();
        let before = chosen(front, name, suite);
        lemma_chosen(front, name, suite, task);
        assert(tasks =~= front.push(tasks.last()));
        if front.contains(task) {
            let i = choose|i: int| 0 <= i < front.len() && front[i] == task;
            assert(tasks[i] == task);
        }
        if tasks.contains(task) && !front.contains(task) {
            let i = choose|i: int| 0 <= i < tasks.len() && tasks[i] == task;
            if i < front.len() {
                assert(front[i] == task);
            }
        }
        if task == tasks.last() {
            assert(tasks[tasks.len() - 1] == task);
        }
        let after = chosen(tasks, name, suite);
        if asked_for(tasks.last(), name, suite) {
            assert(after[after.len() - 1] == tasks.last());
            if before.contains(task) {
                let i = choose|i: int| 0 <= i < before.len() && before[i] == task;
                assert(after[i] == task);
            }
            if after.contains(task) && task != tasks.last() {
                let i = choose|i: int| 0 <= i < after.len() && after[i] == task;
                assert(before[i] == task);
            }
        }
    }
}

/// The tasks that are run are those asked for: the one of a name where a name is given, else all
/// of a suite; and where there is none, or nothing was asked for, that is an error.
pub proof fn which_tasks_are_run(
    tasks: Seq<TaskEntry>,
    name: Option<Seq<char>>,
    suite: Option<Seq<char>>,
    task: TaskEntry,
)
    ensures
        selection(tasks, name, suite) is Ok ==> selection(tasks, name, suite)->Ok_0.contains(task)
            == (tasks.contains(task) && match name {
            Some(name) => task.id@ == name,
            None => suite is Some && task.expected.suite@ == suite->0,
        }),
        selection(tasks, name, suite) is Ok ==> selection(tasks, name, suite)->Ok_0.len() > 0,
        name is None && suite is None ==> selection(tasks, name, suite) is Err,
        tasks.contains(task) && name == Some(task.id@) ==> selection(tasks, name, suite) is Ok,
        tasks.contains(task) && name is None && suite == Some(task.expected.suite@) ==> selection(
            tasks,
            name,
            suite,
        ) is Ok,
{
    lemma_chosen(tasks, name, suite, task);
}

/// A result says what became of its task: it is a success where the run came to a regular end,
/// and it passes where all that was expected holds, whatever became of the run.
pub proof fn a_result_says_what_became_of_it(
    task: TaskEntry,
    run: TaskRun,
    stats: EvalStats,
    verify: Seq<VerifyResult>,
    wall_time_ms: u64,
    session_path: Seq<char>,
    result: EvalResult,
)
    requires
        is_result(task, run, stats, verify, wall_time_ms, session_path, result),
    ensures
        result.task_id@ == task.id@ && result.suite@ == task.expected.suite@,
        result.success ==> run == TaskRun::Ended(CompletionReason::Stop),
        run == TaskRun::Ended(CompletionReason::Stop) ==> result.success && result.error is None,
        run is TimedOut ==> !result.success && result.reason@ == "timeout"@ && result.error is Some,
        run is Failed ==> !result.success && has_prefix(result.reason@, "error:"@)
            && result.error is Some && has_suffix(result.reason@, result.error->0@),
        run is Ended ==> result.error is None,
        result.verification_passed == (forall|i: int|
            0 <= i < result.verify@.len() ==> (#[trigger] result.verify@[i]).passed),
        result.verify@ == verify,
        result.wall_time_ms == wall_time_ms,
        result.session_path@ == session_path,
        result.turns == stats.turns,
        result.tool_calls == stats.tool_calls,
        result.run_calls == stats.run_calls,
        result.bash_calls == stats.bash_calls,
        result.read_calls == stats.read_calls,
        result.search_calls == stats.search_calls,
        result.edit_calls == stats.edit_calls,
        result.write_calls == stats.write_calls,
        result.web_search_calls == stats.web_search_calls,
        result.web_fetch_calls == stats.web_fetch_calls,
        result.other_calls == stats.other_calls,
        result.repeated_actions == stats.repeated_actions,
        result.edit_failures == stats.edit_failures,
        result.stale_failures == stats.stale_failures,
        result.input_tokens == stats.input_tokens,
        result.output_tokens == stats.output_tokens,
        result.first_edit_time_ms == stats.first_edit_time_ms,
        result.compaction_count == stats.compaction_count,
{
    if let TaskRun::Failed(failure) = run {
        let reason = result.reason@;
        let error = result.error->0@;
        assert(reason == "error:"@ + error);
        assert(reason.subrange(0, "error:"@.len() as int) =~= "error:"@);
        assert(reason.subrange(reason.len() - error.len(), reason.len() as int) =~= error);
    }
}

/// Every step has a line that says whether it passed, and why where it did not.
pub proof fn every_step_has_a_line(results: Seq<VerifyResult>, result: VerifyResult)
    ensures
        result_lines(results.push(result)) == result_lines(results) + "  ["@ + (if result.passed {
            "PASS"@
        } else {
            "FAIL"@
        }) + "] "@ + result.step@ + (match result.detail {
            Some(detail) => " — "@ + detail@,
            None => Seq::empty(),
        }) + "\n"@,
{
    assert(results.push(result).drop_last() =~= results);
}

proof fn lemma_field(whole: Seq<char>, front: Seq<char>, name: Seq<char>, value: Seq<char>)
    requires
        has_prefix(whole, front + name + value),
    ensures
        has_text(whole, name + value),
        has_prefix(whole, front),
{
    let start = front + name + value;
    assert(whole.subrange(0, start.len() as int) == start);
    assert(whole.subrange(front.len() as int, (front.len() + (name + value).len()) as int) =~= name
        + value) by {
        assert forall|i: int| 0 <= i < (name + value).len() implies whole[front.len() + i]
            == #[trigger] (name + value)[i] by {
            assert(whole.subrange(0, start.len() as int)[front.len() + i] == start[front.len()
                + i]);
        }
    }
    assert(occurs_at(whole, name + value, front.len() as int));
    assert(whole.subrange(0, front.len() as int) =~= front) by {
        assert forall|i: int| 0 <= i < front.len() implies whole[i] == #[trigger] front[i] by {
            assert(whole.subrange(0, start.len() as int)[i] == start[i]);
        }
    }
}

/// Each number of the metrics stands behind its own name.
pub proof fn metrics_are_told_by_name(stats: EvalStats, wall: u64)
    ensures
        ({
            let line = metrics_line(stats, wall);
            &&& has_prefix(line, "metrics: turns="@ + decimal_of(stats.turns as nat))
            &&& has_text(line, " tools="@ + decimal_of(stats.tool_calls as nat))
            &&& has_text(line, " bash="@ + decimal_of(stats.bash_calls as nat))
            &&& has_text(line, " read="@ + decimal_of(stats.read_calls as nat))
            &&& has_text(line, " search="@ + decimal_of(stats.search_calls as nat))
            &&& has_text(line, " edit="@ + decimal_of(stats.edit_calls as nat))
            &&& has_text(line, " write="@ + decimal_of(stats.write_calls as nat))
            &&& has_text(line, " web="@ + decimal_of(stats.web_search_calls as nat))
            &&& has_text(line, " repeats="@ + decimal_of(stats.repeated_actions as nat))
            &&& has_text(line, " edit_fail="@ + decimal_of(stats.edit_failures as nat))
            &&& has_text(line, " stale="@ + decimal_of(stats.stale_failures as nat))
            &&& has_text(line, " compact="@ + decimal_of(stats.compaction_count as nat))
            &&& has_text(line, "ms tokens="@ + decimal_of(stats.input_tokens as nat))
            &&& has_text(line, " wall="@ + decimal_of(wall as nat))
        }),
{
    let line = metrics_line(stats, wall);
    let p0 = "metrics: turns="@ + decimal_of(stats.turns as nat);
    let p1 = p0 + " tools="@ + decimal_of(stats.tool_calls as nat);
    let p2 = p1 + " bash="@ + decimal_of(stats.bash_calls as nat);
    let p3 = p2 + " read="@ + decimal_of(stats.read_calls as nat);
    let p4 = p3 + " search="@ + decimal_of(stats.search_calls as nat);
    let p5 = p4 + " edit="@ + decimal_of(stats.edit_calls as nat);
    let p6 = p5 + " write="@ + decimal_of(stats.write_calls as nat);
    let p7 = p6 + " web="@ + decimal_of(stats.web_search_calls as nat);
    let p8 = p7 + "/"@ + decimal_of(stats.web_fetch_calls as nat);
    let p9 = p8 + " repeats="@ + decimal_of(stats.repeated_actions as nat);
    let p10 = p9 + " edit_fail="@ + decimal_of(stats.edit_failures as nat);
    let p11 = p10 + " stale="@ + decimal_of(stats.stale_failures as nat);
    let p12 = p11 + " compact="@ + decimal_of(stats.compaction_count as nat);
    let p13 = p12 + " first_edit="@ + crate::eval::task::maybe_number(stats.first_edit_time_ms);
    let p14 = p13 + "ms tokens="@ + decimal_of(stats.input_tokens as nat);
    let p15 = p14 + "/"@ + decimal_of(stats.output_tokens as nat);
    let p16 = p15 + " wall="@ + decimal_of(wall as nat);
    assert(line == p16 + "ms\n"@);
    assert(line.subrange(0, p16.len() as int) =~= p16);
    assert(has_prefix(line, p16));
    lemma_field(line, p15, " wall="@, decimal_of(wall as nat));
    lemma_field(line, p14, "/"@, decimal_of(stats.output_tokens as nat));
    lemma_field(line, p13, "ms tokens="@, decimal_of(stats.input_tokens as nat));
    lemma_field(
        line,
        p12,
        " first_edit="@,
        crate::eval::task::maybe_number(stats.first_edit_time_ms),
    );
    lemma_field(line, p11, " compact="@, decimal_of(stats.compaction_count as nat));
    lemma_field(line, p10, " stale="@, decimal_of(stats.stale_failures as nat));
    lemma_field(line, p9, " edit_fail="@, decimal_of(stats.edit_failures as nat));
    lemma_field(line, p8, " repeats="@, decimal_of(stats.repeated_actions as nat));
    lemma_field(line, p7, "/"@, decimal_of(stats.web_fetch_calls as nat));
    lemma_field(line, p6, " web="@, decimal_of(stats.web_search_calls as nat));
    lemma_field(line, p5, " write="@, decimal_of(stats.write_calls as nat));
    lemma_field(line, p4, " edit="@, decimal_of(stats.edit_calls as nat));
    lemma_field(line, p3, " search="@, decimal_of(stats.search_calls as nat));
    lemma_field(line, p2, " read="@, decimal_of(stats.read_calls as nat));
    lemma_field(line, p1, " bash="@, decimal_of(stats.bash_calls as nat));
    lemma_field(line, p0, " tools="@, decimal_of(stats.tool_calls as nat));
}

/// An evaluation fails where a task does, and the verdict tells both numbers.
pub proof fn what_the_verdict_is(passed: nat, failed: nat)
    ensures
        (verdict_fault(failed) is None) == (failed == 0),
        failed > 0 ==> has_prefix(verdict_fault(failed)->0, decimal_of(failed)),
        has_text(verdict_line(passed, failed), "pass="@ + decimal_of(passed) + " fail="@
            + decimal_of(failed)),
{
    if failed > 0 {
        let text = verdict_fault(failed)->0;
        assert(text.subrange(0, decimal_of(failed).len() as int) =~= decimal_of(failed));
    }
    reveal_strlit("==== 汇总: pass=");
    reveal_strlit("==== 汇总: ");
    reveal_strlit("pass=");
    assert("==== 汇总: pass="@ =~= "==== 汇总: "@ + "pass="@);
    let part = "pass="@ + decimal_of(passed) + " fail="@ + decimal_of(failed);
    a_part_occurs("==== 汇总: "@, part, " ===="@);
    assert("==== 汇总: "@ + part + " ===="@ =~= verdict_line(passed, failed));
}

/// A shell is looked for where it is installed, and then in every directory of the path.
pub proof fn where_a_shell_is_looked_for(dirs: Seq<Seq<char>>, k: int)
    requires
        0 <= k < dirs.len(),
    ensures
        bash_places(dirs).len() == dirs.len() + 2,
        bash_places(dirs)[k + 2] == path_join(dirs[k], "bash.exe"@),
{
}

} // verus!
