//! Tasks, how they are chosen, and what came of them.
use crate::agent::failure_text;
use crate::agent::RunFailure;
use crate::app::headless::reason_word;
use crate::app::headless::word_of_reason;
use crate::eval::stats::EvalStats;
use crate::eval::verify::all_passed;
use crate::eval::verify::verification_passed;
use crate::eval::verify::VerifyResult;
use crate::eval::verify::VerifyStep;
use crate::order::at_most;
use crate::order::sort;
use crate::order::sorted_texts;
use crate::order::sorting_sorts;
use crate::order::text_le;
use crate::order::text_order;
use crate::order::text_order_is_total;
use crate::session::CompletionReason;
use crate::text::decimal;
use crate::text::decimal_of;
use crate::text::opt_view;
use crate::text::owned;
use crate::text::same;
use crate::text::views;
use crate::text::views_push;
use vstd::prelude::*;
use vstd::relations::sorted_by;
use vstd::string::*;

verus! {

/// The directory of a workspace that holds the tasks.
pub const EVALS_DIR: &'static str = "evals";

/// The directory of the user that holds what came of them.
pub const RESULTS_DIR: &'static str = "evals/results";

/// The directory of the user that holds the sessions in which they were done.
pub const SESSIONS_DIR: &'static str = "evals/sessions";

/// How long a task may take where it does not say, in seconds.
pub const DEFAULT_TIMEOUT_SEC: u64 = 900;

/// What is expected of a task.
#[derive(Debug, Clone, PartialEq, Eq)]
pub struct Expected {
    pub name: String,
    /// The suite that it belongs to; empty for none.
    pub suite: String,
    pub title: Option<String>,
    /// The commit that it starts from.
    pub base_commit: Option<String>,
    /// How long it may take, in seconds.
    pub timeout_sec: u64,
    /// What has to hold afterwards.
    pub verify: Vec<VerifyStep>,
}

/// A task that was found.
#[derive(Debug, Clone, PartialEq, Eq)]
pub struct TaskEntry {
    pub id: String,
    pub dir: String,
    pub repo_dir: String,
    pub task_md: String,
    pub expected: Expected,
}

/// What is wrong with the name of a task: that it is not that of its directory.
pub open spec fn name_fault(name: Seq<char>, directory: Seq<char>, path: Seq<char>) -> Option<
    Seq<char>,
> {
    if name == directory {
        None
    } else {
        Some(path + ": expected.toml 的 name 必须等于目录名（"@ + directory + "）"@)
    }
}

/// Checks that a task bears the name of its directory. `path` is where it was read from.
pub fn check_task_name(name: &str, directory: &str, path: &str) -> (r: Result<(), String>)
    ensures
        match r {
            Ok(_) => name_fault(name@, directory@, path@) is None,
            Err(error) => name_fault(name@, directory@, path@) == Some(error@),
        },
{
    if same(name, directory) {
        Ok(())
    } else {
        Err(
            owned(path).concat(": expected.toml 的 name 必须等于目录名（").concat(
                directory,
            ).concat("）"),
        )
    }
}

/// Where a task belongs among tasks in order: behind all that come no later.
pub open spec fn task_slot(sorted: Seq<TaskEntry>, task: TaskEntry) -> int
    decreases sorted.len(),
{
    if sorted.len() == 0 || text_le(sorted.last().id@, task.id@) {
        sorted.len() as int
    } else {
        task_slot(sorted.drop_last(), task)
    }
}

/// Tasks in the order of their names; those of the same name stay as they were found.
pub open spec fn in_order(tasks: Seq<TaskEntry>) -> Seq<TaskEntry>
    decreases tasks.len(),
{
    if tasks.len() == 0 {
        Seq::empty()
    } else {
        let before = in_order(tasks.drop_last());
        before.insert(task_slot(before, tasks.last()), tasks.last())
    }
}

/// Tasks in the order of their names.
pub fn order_tasks(tasks: Vec<TaskEntry>) -> (r: Vec<TaskEntry>)
    ensures
        r@ == in_order(tasks@),
{
    let ghost all = tasks@;
    let mut rest = tasks;
    let mut sorted: Vec<TaskEntry> = Vec::new();
    let ghost mut done: int = 0;
    assert(sorted@ =~= in_order(all.take(0)));
    assert(all.skip(0) =~= all);
    while rest.len() > 0
        invariant
            0 <= done <= all.len(),
            rest@ == all.skip(done),
            sorted@ == in_order(all.take(done)),
        decreases rest@.len(),
    {
        let task = rest.remove(0);
        proof {
            let next = all.take(done + 1);
            assert(next.drop_last() =~= all.take(done));
            assert(next.last() == task);
            assert(rest@ =~= all.skip(done + 1));
            done = done + 1;
        }
        let mut k: usize = sorted.len();
        assert(sorted@.take(k as int) =~= sorted@);
        while k > 0 && !at_most(sorted[k - 1].id.as_str(), task.id.as_str())
            invariant
                k <= sorted@.len(),
                task_slot(sorted@.take(k as int), task) == task_slot(sorted@, task),
            decreases k,
        {
            assert(sorted@.take(k as int).drop_last() =~= sorted@.take(k - 1));
            k -= 1;
        }
        sorted.insert(k, task);
    }
    assert(all.take(done) =~= all);
    sorted
}

proof fn lemma_task_slot(sorted: Seq<TaskEntry>, task: TaskEntry)
    ensures
        0 <= task_slot(sorted, task) <= sorted.len(),
        task_slot(sorted, task) > 0 ==> text_le(
            sorted[task_slot(sorted, task) - 1].id@,
            task.id@,
        ),
        forall|i: int|
            task_slot(sorted, task) <= i < sorted.len() ==> !text_le(
                (#[trigger] sorted[i]).id@,
                task.id@,
            ),
    decreases sorted.len(),
{
    if sorted.len() > 0 && !text_le(sorted.last().id@, task.id@) {
        lemma_task_slot(sorted.drop_last(), task);
        let k = task_slot(sorted, task);
        assert forall|i: int| k <= i < sorted.len() implies !text_le(
            (#[trigger] sorted[i]).id@,
            task.id@,
        ) by {
            if i < sorted.len() - 1 {
                assert(sorted.drop_last()[i] == sorted[i]);
            }
        }
    }
}

/// Putting tasks in order loses none and makes none up, and their names come in order.
pub proof fn tasks_are_in_order(tasks: Seq<TaskEntry>)
    ensures
        in_order(tasks).to_multiset() == tasks.to_multiset(),
        forall|i: int, j: int|
            0 <= i < j < in_order(tasks).len() ==> text_le(
                (#[trigger] in_order(tasks)[i]).id@,
                (#[trigger] in_order(tasks)[j]).id@,
            ),
    decreases tasks.len(),
{
    if tasks.len() == 0 {
        assert(in_order(tasks) =~= tasks);
    } else {
        let front = tasks.drop_last();
        let task = tasks.last();
        let before = in_order(front);
        tasks_are_in_order(front);
        text_order_is_total();
        let r = text_order();
        lemma_task_slot(before, task);
        let k = task_slot(before, task);
        let after = in_order(tasks);
        vstd::seq_lib::to_multiset_insert(before, k, task);
        assert(tasks =~= front.push(task));
        vstd::seq_lib::to_multiset_build(front, task);
        assert forall|i: int, j: int| 0 <= i < j < after.len() implies text_le(
            (#[trigger] after[i]).id@,
            (#[trigger] after[j]).id@,
        ) by {
            let a = if i < k {
                i
            } else {
                i - 1
            };
            let b = if j < k {
                j
            } else {
                j - 1
            };
            if i == k {
                assert(after[j] == before[b]);
                assert(r(before[b].id@, task.id@) || r(task.id@, before[b].id@));
            } else if j == k {
                assert(after[i] == before[a]);
                if a < k - 1 {
                    assert(text_le(before[a].id@, before[k - 1].id@));
                    assert(r(before[a].id@, before[k - 1].id@));
                    assert(r(before[k - 1].id@, task.id@));
                    assert(r(before[a].id@, task.id@));
                }
            } else {
                assert(after[i] == before[a]);
                assert(after[j] == before[b]);
            }
        }
    }
}

/// The suites of tasks, for each task that has one.
pub open spec fn suites_of(tasks: Seq<TaskEntry>) -> Seq<Seq<char>>
    decreases tasks.len(),
{
    if tasks.len() == 0 {
        Seq::empty()
    } else {
        let before = suites_of(tasks.drop_last());
        if tasks.last().expected.suite@.len() == 0 {
            before
        } else {
            before.push(tasks.last().expected.suite@)
        }
    }
}

/// A list without what repeats what comes just before it.
pub open spec fn without_repeats(list: Seq<Seq<char>>) -> Seq<Seq<char>>
    decreases list.len(),
{
    if list.len() == 0 {
        Seq::empty()
    } else {
        let before = without_repeats(list.drop_last());
        if before.len() > 0 && before.last() == list.last() {
            before
        } else {
            before.push(list.last())
        }
    }
}

/// The suites that tasks belong to, each once, in order.
pub fn list_suites(tasks: &Vec<TaskEntry>) -> (r: Vec<String>)
    ensures
        views(r@) == without_repeats(sorted_texts(suites_of(tasks@))),
{
    let mut found: Vec<String> = Vec::new();
    let mut i: usize = 0;
    assert(views(found@) =~= suites_of(tasks@.take(0)));
    while i < tasks.len()
        invariant
            i <= tasks@.len(),
            views(found@) == suites_of(tasks@.take(i as int)),
        decreases tasks@.len() - i,
    {
        proof {
            let next = tasks@.take(i + 1);
            assert(next.drop_last() =~= tasks@.take(i as int));
            assert(next.last() == tasks@[i as int]);
        }
        if !tasks[i].expected.suite.as_str().is_empty() {
            let suite = tasks[i].expected.suite.clone();
            proof {
                views_push(found@, suite);
            }
            found.push(suite);
        }
        i += 1;
    }
    assert(tasks@.take(i as int) =~= tasks@);
    let sorted = sort(found);
    let ghost all = views(sorted@);
    let mut out: Vec<String> = Vec::new();
    let mut k: usize = 0;
    assert(views(out@) =~= without_repeats(all.take(0)));
    while k < sorted.len()
        invariant
            k <= sorted@.len(),
            all == views(sorted@),
            views(out@) == without_repeats(all.take(k as int)),
        decreases sorted@.len() - k,
    {
        proof {
            let next = all.take(k + 1);
            assert(next.drop_last() =~= all.take(k as int));
            assert(next.last() == sorted@[k as int]@);
            assert(views(out@).len() == out@.len());
            if out@.len() > 0 {
                assert(views(out@).last() == out@[out@.len() - 1]@);
            }
        }
        if out.len() == 0 || !same(out[out.len() - 1].as_str(), sorted[k].as_str()) {
            let suite = sorted[k].clone();
            proof {
                views_push(out@, suite);
            }
            out.push(suite);
        }
        k += 1;
    }
    assert(all.take(k as int) =~= all);
    out
}

proof fn lemma_without_repeats(list: Seq<Seq<char>>)
    requires
        sorted_by(list, text_order()),
    ensures
        ({
            let once = without_repeats(list);
            &&& forall|i: int, j: int|
                0 <= i < j < once.len() ==> text_le(#[trigger] once[i], #[trigger] once[j])
                    && once[i] != once[j]
            &&& forall|suite: Seq<char>| once.contains(suite) <==> list.contains(suite)
            &&& (list.len() > 0) == (once.len() > 0)
            &&& list.len() > 0 ==> once.last() == list.last()
        }),
    decreases list.len(),
{
    let once = without_repeats(list);
    if list.len() > 0 {
        let front = list.drop_last();
        let last = list.last();
        let before = without_repeats(front);
        let r = text_order();
        text_order_is_total();
        assert(sorted_by(front, r)) by {
            assert forall|i: int, j: int| 0 <= i < j < front.len() implies r(front[i], front[j]) by {
                assert(front[i] == list[i] && front[j] == list[j]);
                assert(r(list[i], list[j]));
            }
        }
        lemma_without_repeats(front);
        if front.len() > 0 {
            assert(front.last() == list[list.len() - 2]);
            assert(r(list[list.len() - 2], list[list.len() - 1]));
            assert(text_le(before.last(), last));
        }
        assert forall|suite: Seq<char>| once.contains(suite) <==> list.contains(suite) by {
            if list.contains(suite) {
                let k = choose|k: int| 0 <= k < list.len() && list[k] == suite;
                if k < front.len() {
                    assert(front[k] == suite);
                    assert(front.contains(suite));
                    let b = choose|b: int| 0 <= b < before.len() && before[b] == suite;
                    assert(once[b] == suite);
                } else {
                    assert(once[once.len() - 1] == suite);
                }
            }
            if once.contains(suite) {
                let k = choose|k: int| 0 <= k < once.len() && once[k] == suite;
                if k < before.len() {
                    assert(before[k] == suite);
                    assert(before.contains(suite));
                    let f = choose|f: int| 0 <= f < front.len() && front[f] == suite;
                    assert(list[f] == suite);
                } else {
                    assert(list[list.len() - 1] == suite);
                }
            }
        }
        if !(before.len() > 0 && before.last() == last) {
            assert forall|i: int, j: int| 0 <= i < j < once.len() implies text_le(
                #[trigger] once[i],
                #[trigger] once[j],
            ) && once[i] != once[j] by {
                if j == before.len() {
                    assert(once[i] == before[i]);
                    if i < before.len() - 1 {
                        let m = before.len() - 1;
                        assert(text_le(before[i], before[m]) && before[i] != before[m]);
                        assert(r(before[i], before[m]));
                        assert(r(before[m], last));
                        assert(r(before[i], last));
                        if before[i] == last {
                            assert(r(before[m], before[i]));
                        }
                    }
                } else {
                    assert(once[i] == before[i] && once[j] == before[j]);
                }
            }
        }
    }
}

proof fn lemma_suites(tasks: Seq<TaskEntry>, suite: Seq<char>)
    ensures
        suites_of(tasks).contains(suite) <==> suite.len() > 0 && exists|i: int|
            0 <= i < tasks.len() && (#[trigger] tasks[i]).expected.suite@ == suite,
    decreases tasks.len(),
{
    if tasks.len() > 0 {
        let front = tasks.drop_last();
        let before = suites_of(front);
        let all = suites_of(tasks);
        lemma_suites(front, suite);
        if all.contains(suite) {
            let k = choose|k: int| 0 <= k < all.len() && all[k] == suite;
            if k < before.len() {
                assert(before[k] == suite);
                assert(before.contains(suite));
                let i = choose|i: int|
                    0 <= i < front.len() && (#[trigger] front[i]).expected.suite@ == suite;
                assert(tasks[i] == front[i]);
            } else {
                assert(tasks[tasks.len() - 1].expected.suite@ == suite);
            }
        }
        if suite.len() > 0 && exists|i: int|
            0 <= i < tasks.len() && (#[trigger] tasks[i]).expected.suite@ == suite {
            let i = choose|i: int|
                0 <= i < tasks.len() && (#[trigger] tasks[i]).expected.suite@ == suite;
            if i < front.len() {
                assert(front[i] == tasks[i]);
                assert(before.contains(suite));
                let b = choose|b: int| 0 <= b < before.len() && before[b] == suite;
                assert(all[b] == suite);
            } else {
                assert(all[all.len() - 1] == suite);
            }
        }
    }
}

/// Every suite that a task belongs to is listed, no other is, none twice, and in order.
pub proof fn suites_are_listed_once(tasks: Seq<TaskEntry>)
    ensures
        ({
            let listed = without_repeats(sorted_texts(suites_of(tasks)));
            &&& forall|i: int, j: int|
                0 <= i < j < listed.len() ==> text_le(#[trigger] listed[i], #[trigger] listed[j])
                    && listed[i] != listed[j]
            &&& forall|suite: Seq<char>|
                #[trigger] listed.contains(suite) <==> suite.len() > 0 && exists|i: int|
                    0 <= i < tasks.len() && (#[trigger] tasks[i]).expected.suite@ == suite
        }),
{
    let found = suites_of(tasks);
    let sorted = sorted_texts(found);
    let listed = without_repeats(sorted);
    sorting_sorts(found);
    lemma_without_repeats(sorted);
    broadcast use vstd::seq_lib::group_to_multiset_ensures;

    assert forall|suite: Seq<char>|
        #[trigger] listed.contains(suite) <==> suite.len() > 0 && exists|i: int|
            0 <= i < tasks.len() && (#[trigger] tasks[i]).expected.suite@ == suite by {
        lemma_suites(tasks, suite);
        assert(sorted.contains(suite) <==> sorted.to_multiset().count(suite) > 0);
        assert(found.contains(suite) <==> found.to_multiset().count(suite) > 0);
    }
}

/// A task in the list of tasks.
pub fn task_line(task: &TaskEntry) -> (r: String)
    ensures
        r@ == task.id@ + " ["@ + (if task.expected.suite@.len() == 0 {
            "-"@
        } else {
            task.expected.suite@
        }) + "] "@ + (match task.expected.title {
            Some(title) => title@,
            None => "(no title)"@,
        }),
{
    let suite = suite_or_dash(task.expected.suite.as_str());
    let title = match &task.expected.title {
        Some(title) => title.clone(),
        None => owned("(no title)"),
    };
    task.id.clone().concat(" [").concat(suite.as_str()).concat("] ").concat(title.as_str())
}

fn suite_or_dash(suite: &str) -> (r: String)
    ensures
        r@ == if suite@.len() == 0 {
            "-"@
        } else {
            suite@
        },
{
    if suite.is_empty() {
        owned("-")
    } else {
        owned(suite)
    }
}

/// Whether a task is asked for: by its name, or else by its suite.
pub open spec fn asked_for(
    task: TaskEntry,
    name: Option<Seq<char>>,
    suite: Option<Seq<char>>,
) -> bool {
    match name {
        Some(name) => task.id@ == name,
        None => suite == Some(task.expected.suite@),
    }
}

/// The tasks that are asked for.
pub open spec fn chosen(
    tasks: Seq<TaskEntry>,
    name: Option<Seq<char>>,
    suite: Option<Seq<char>>,
) -> Seq<TaskEntry>
    decreases tasks.len(),
{
    if tasks.len() == 0 {
        Seq::empty()
    } else {
        let before = chosen(tasks.drop_last(), name, suite);
        if asked_for(tasks.last(), name, suite) {
            before.push(tasks.last())
        } else {
            before
        }
    }
}

/// Why no task is run.
pub open spec fn nothing_chosen(name: Option<Seq<char>>, suite: Option<Seq<char>>) -> Seq<char> {
    match (name, suite) {
        (Some(name), _) => "任务 "@ + name + " 不存在（--list 查看）"@,
        (None, Some(suite)) => "套件 "@ + suite + " 不存在（--list 查看）"@,
        (None, None) => "请指定任务 ID 或 --suite（或 --list 查看全部任务）"@,
    }
}

/// The tasks that are asked for, by name or else by suite; an error where neither is given,
/// and where there is none.
pub open spec fn selection(
    tasks: Seq<TaskEntry>,
    name: Option<Seq<char>>,
    suite: Option<Seq<char>>,
) -> Result<Seq<TaskEntry>, Seq<char>> {
    let wanted = chosen(tasks, name, suite);
    if (name is None && suite is None) || wanted.len() == 0 {
        Err(nothing_chosen(name, suite))
    } else {
        Ok(wanted)
    }
}

/// The tasks that are asked for, by name or else by suite; an error where neither is given,
/// and where there is none.
pub fn select_tasks(tasks: Vec<TaskEntry>, name: &Option<String>, suite: &Option<String>) -> (r:
    Result<Vec<TaskEntry>, String>)
    ensures
        match r {
            Ok(list) => selection(tasks@, opt_view(*name), opt_view(*suite)) == Ok::<
                Seq<TaskEntry>,
                Seq<char>,
            >(list@),
            Err(error) => selection(tasks@, opt_view(*name), opt_view(*suite)) == Err::<
                Seq<TaskEntry>,
                Seq<char>,
            >(error@),
        },
{
    if name.is_none() && suite.is_none() {
        return Err(owned("请指定任务 ID 或 --suite（或 --list 查看全部任务）"));
    }
    let ghost all = tasks@;
    let ghost n = opt_view(*name);
    let ghost s = opt_view(*suite);
    let mut rest = tasks;
    let mut out: Vec<TaskEntry> = Vec::new();
    let ghost mut done: int = 0;
    assert(out@ =~= chosen(all.take(0), n, s));
    assert(all.skip(0) =~= all);
    while rest.len() > 0
        invariant
            0 <= done <= all.len(),
            n == opt_view(*name),
            s == opt_view(*suite),
            rest@ == all.skip(done),
            out@ == chosen(all.take(done), n, s),
        decreases rest@.len(),
    {
        let task = rest.remove(0);
        proof {
            let next = all.take(done + 1);
            assert(next.drop_last() =~= all.take(done));
            assert(next.last() == task);
            assert(rest@ =~= all.skip(done + 1));
            done = done + 1;
        }
        let wanted = match name {
            Some(name) => same(task.id.as_str(), name.as_str()),
            None => match suite {
                Some(suite) => same(task.expected.suite.as_str(), suite.as_str()),
                None => false,
            },
        };
        if wanted {
            out.push(task);
        }
    }
    assert(all.take(done) =~= all);
    if out.len() > 0 {
        return Ok(out);
    }
    match name {
        Some(name) => Err(
            owned("任务 ").concat(name.as_str()).concat(" 不存在（--list 查看）"),
        ),
        None => match suite {
            Some(suite) => Err(
                owned("套件 ").concat(suite.as_str()).concat(" 不存在（--list 查看）"),
            ),
            None => Err(owned("请指定任务 ID 或 --suite（或 --list 查看全部任务）")),
        },
    }
}

/// What came of a task.
#[derive(Debug, Clone, PartialEq, Eq)]
pub struct EvalResult {
    pub task_id: String,
    pub suite: String,
    /// Whether the run came to a regular end.
    pub success: bool,
    pub reason: String,
    /// Whether all that was expected holds.
    pub verification_passed: bool,
    pub verify: Vec<VerifyResult>,
    pub wall_time_ms: u64,
    pub turns: u32,
    pub tool_calls: u32,
    pub run_calls: u32,
    pub bash_calls: u32,
    pub read_calls: u32,
    pub search_calls: u32,
    pub edit_calls: u32,
    pub write_calls: u32,
    pub web_search_calls: u32,
    pub web_fetch_calls: u32,
    pub other_calls: u32,
    pub repeated_actions: u32,
    pub edit_failures: u32,
    pub stale_failures: u32,
    pub input_tokens: u64,
    pub output_tokens: u64,
    pub first_edit_time_ms: Option<u64>,
    pub compaction_count: u32,
    pub session_path: String,
    pub error: Option<String>,
}

/// The numbers of the session in which a task was done.
pub open spec fn stats_in(result: EvalResult) -> EvalStats {
    EvalStats {
        turns: result.turns,
        tool_calls: result.tool_calls,
        run_calls: result.run_calls,
        bash_calls: result.bash_calls,
        read_calls: result.read_calls,
        search_calls: result.search_calls,
        edit_calls: result.edit_calls,
        write_calls: result.write_calls,
        web_search_calls: result.web_search_calls,
        web_fetch_calls: result.web_fetch_calls,
        other_calls: result.other_calls,
        repeated_actions: result.repeated_actions,
        edit_failures: result.edit_failures,
        stale_failures: result.stale_failures,
        input_tokens: result.input_tokens,
        output_tokens: result.output_tokens,
        first_edit_time_ms: result.first_edit_time_ms,
        compaction_count: result.compaction_count,
    }
}

impl EvalResult {
    /// The numbers of the session in which the task was done.
    pub fn stats(&self) -> (r: EvalStats)
        ensures
            r == stats_in(*self),
    {
        EvalStats {
            turns: self.turns,
            tool_calls: self.tool_calls,
            run_calls: self.run_calls,
            bash_calls: self.bash_calls,
            read_calls: self.read_calls,
            search_calls: self.search_calls,
            edit_calls: self.edit_calls,
            write_calls: self.write_calls,
            web_search_calls: self.web_search_calls,
            web_fetch_calls: self.web_fetch_calls,
            other_calls: self.other_calls,
            repeated_actions: self.repeated_actions,
            edit_failures: self.edit_failures,
            stale_failures: self.stale_failures,
            input_tokens: self.input_tokens,
            output_tokens: self.output_tokens,
            first_edit_time_ms: self.first_edit_time_ms,
            compaction_count: self.compaction_count,
        }
    }
}

/// How the run of a task ended.
#[derive(Debug)]
pub enum TaskRun {
    /// It took too long.
    TimedOut,
    /// It failed.
    Failed(RunFailure),
    /// It ended.
    Ended(CompletionReason),
}

/// Why a run ended, in words.
pub open spec fn run_reason(run: TaskRun) -> Seq<char> {
    match run {
        TaskRun::TimedOut => "timeout"@,
        TaskRun::Failed(failure) => "error:"@ + failure_text(failure@),
        TaskRun::Ended(reason) => reason_word(reason),
    }
}

/// What went wrong with a run.
pub open spec fn run_error(run: TaskRun) -> Option<Seq<char>> {
    match run {
        TaskRun::TimedOut => Some("评测超时"@),
        TaskRun::Failed(failure) => Some(failure_text(failure@)),
        TaskRun::Ended(reason) => None,
    }
}

/// Whether this is what came of a task: only a run that came to a regular end succeeded.
pub open spec fn is_result(
    task: TaskEntry,
    run: TaskRun,
    stats: EvalStats,
    verify: Seq<VerifyResult>,
    wall_time_ms: u64,
    session_path: Seq<char>,
    result: EvalResult,
) -> bool {
    &&& result.task_id@ == task.id@
    &&& result.suite@ == task.expected.suite@
    &&& result.success == (run == TaskRun::Ended(CompletionReason::Stop))
    &&& result.reason@ == run_reason(run)
    &&& result.verification_passed == all_passed(verify)
    &&& result.verify@ == verify
    &&& result.wall_time_ms == wall_time_ms
    &&& stats_in(result) == stats
    &&& result.session_path@ == session_path
    &&& opt_view(result.error) == run_error(run)
}

/// What came of a task: only a run that came to a regular end succeeded.
pub fn task_result(
    task: &TaskEntry,
    run: &TaskRun,
    stats: EvalStats,
    verify: Vec<VerifyResult>,
    wall_time_ms: u64,
    session_path: String,
) -> (r: EvalResult)
    ensures
        is_result(*task, *run, stats, verify@, wall_time_ms, session_path@, r),
{
    let success = match run {
        TaskRun::Ended(CompletionReason::Stop) => true,
        _ => false,
    };
    let (reason, error) = match run {
        TaskRun::TimedOut => (owned("timeout"), Some(owned("评测超时"))),
        TaskRun::Failed(failure) => {
            let text = failure.to_text();
            (owned("error:").concat(text.as_str()), Some(text))
        },
        TaskRun::Ended(reason) => (word_of_reason(*reason), None),
    };
    let passed = verification_passed(&verify);
    EvalResult {
        task_id: task.id.clone(),
        suite: task.expected.suite.clone(),
        success,
        reason,
        verification_passed: passed,
        verify,
        wall_time_ms,
        turns: stats.turns,
        tool_calls: stats.tool_calls,
        run_calls: stats.run_calls,
        bash_calls: stats.bash_calls,
        read_calls: stats.read_calls,
        search_calls: stats.search_calls,
        edit_calls: stats.edit_calls,
        write_calls: stats.write_calls,
        web_search_calls: stats.web_search_calls,
        web_fetch_calls: stats.web_fetch_calls,
        other_calls: stats.other_calls,
        repeated_actions: stats.repeated_actions,
        edit_failures: stats.edit_failures,
        stale_failures: stats.stale_failures,
        input_tokens: stats.input_tokens,
        output_tokens: stats.output_tokens,
        first_edit_time_ms: stats.first_edit_time_ms,
        compaction_count: stats.compaction_count,
        session_path,
        error,
    }
}

/// How many of the results say that a step holds.
pub open spec fn passes(results: Seq<VerifyResult>) -> nat
    decreases results.len(),
{
    if results.len() == 0 {
        0
    } else {
        passes(results.drop_last()) + if results.last().passed {
            1nat
        } else {
            0nat
        }
    }
}

/// A line for each result.
pub open spec fn result_lines(results: Seq<VerifyResult>) -> Seq<char>
    decreases results.len(),
{
    if results.len() == 0 {
        Seq::empty()
    } else {
        let last = results.last();
        result_lines(results.drop_last()) + "  ["@ + (if last.passed {
            "PASS"@
        } else {
            "FAIL"@
        }) + "] "@ + last.step@ + (match last.detail {
            Some(detail) => " — "@ + detail@,
            None => Seq::empty(),
        }) + "\n"@
    }
}

/// A number that may be missing, as it is printed for debugging.
pub open spec fn maybe_number(n: Option<u64>) -> Seq<char> {
    match n {
        Some(n) => "Some("@ + decimal_of(n as nat) + ")"@,
        None => "None"@,
    }
}

/// The numbers of a session on one line.
pub open spec fn metrics_line(stats: EvalStats, wall_time_ms: u64) -> Seq<char> {
    "metrics: turns="@ + decimal_of(stats.turns as nat) + " tools="@ + decimal_of(
        stats.tool_calls as nat,
    ) + " bash="@ + decimal_of(stats.bash_calls as nat) + " read="@ + decimal_of(
        stats.read_calls as nat,
    ) + " search="@ + decimal_of(stats.search_calls as nat) + " edit="@ + decimal_of(
        stats.edit_calls as nat,
    ) + " write="@ + decimal_of(stats.write_calls as nat) + " web="@ + decimal_of(
        stats.web_search_calls as nat,
    ) + "/"@ + decimal_of(stats.web_fetch_calls as nat) + " repeats="@ + decimal_of(
        stats.repeated_actions as nat,
    ) + " edit_fail="@ + decimal_of(stats.edit_failures as nat) + " stale="@ + decimal_of(
        stats.stale_failures as nat,
    ) + " compact="@ + decimal_of(stats.compaction_count as nat) + " first_edit="@ + maybe_number(
        stats.first_edit_time_ms,
    ) + "ms tokens="@ + decimal_of(stats.input_tokens as nat) + "/"@ + decimal_of(
        stats.output_tokens as nat,
    ) + " wall="@ + decimal_of(wall_time_ms as nat) + "ms\n"@
}

/// What came of a task, in words.
pub open spec fn summary_of(result: EvalResult) -> Seq<char> {
    "task: "@ + result.task_id@ + " ["@ + (if result.suite@.len() == 0 {
        "-"@
    } else {
        result.suite@
    }) + "]\nrun:   "@ + (if result.success {
        "SUCCESS"@
    } else {
        "FAILED"@
    }) + " ("@ + result.reason@ + ")\nverify: "@ + (if result.verification_passed {
        "PASSED"@
    } else {
        "FAILED"@
    }) + " ("@ + decimal_of(passes(result.verify@)) + "/"@ + decimal_of(result.verify@.len())
        + ")\n"@ + result_lines(result.verify@) + metrics_line(
        stats_in(result),
        result.wall_time_ms,
    )
        + (match result.error {
        Some(error) => "error: "@ + error@ + "\n"@,
        None => Seq::empty(),
    })
}

fn metrics(stats: &EvalStats, wall_time_ms: u64) -> (r: String)
    ensures
        r@ == metrics_line(*stats, wall_time_ms),
{
    let turns = decimal(stats.turns as u128);
    let tools = decimal(stats.tool_calls as u128);
    let bash = decimal(stats.bash_calls as u128);
    let read = decimal(stats.read_calls as u128);
    let search = decimal(stats.search_calls as u128);
    let edit = decimal(stats.edit_calls as u128);
    let write = decimal(stats.write_calls as u128);
    let web_search = decimal(stats.web_search_calls as u128);
    let web_fetch = decimal(stats.web_fetch_calls as u128);
    let repeats = decimal(stats.repeated_actions as u128);
    let failures = decimal(stats.edit_failures as u128);
    let stale = decimal(stats.stale_failures as u128);
    let compactions = decimal(stats.compaction_count as u128);
    let first = match stats.first_edit_time_ms {
        Some(n) => {
            let shown = decimal(n as u128);
            owned("Some(").concat(shown.as_str()).concat(")")
        },
        None => owned("None"),
    };
    let input = decimal(stats.input_tokens as u128);
    let output = decimal(stats.output_tokens as u128);
    let wall = decimal(wall_time_ms as u128);
    owned("metrics: turns=").concat(turns.as_str()).concat(" tools=").concat(
        tools.as_str(),
    ).concat(" bash=").concat(bash.as_str()).concat(" read=").concat(read.as_str()).concat(
        " search=",
    ).concat(search.as_str()).concat(" edit=").concat(edit.as_str()).concat(" write=").concat(
        write.as_str(),
    ).concat(" web=").concat(web_search.as_str()).concat("/").concat(web_fetch.as_str()).concat(
        " repeats=",
    ).concat(repeats.as_str()).concat(" edit_fail=").concat(failures.as_str()).concat(
        " stale=",
    ).concat(stale.as_str()).concat(" compact=").concat(compactions.as_str()).concat(
        " first_edit=",
    ).concat(first.as_str()).concat("ms tokens=").concat(input.as_str()).concat("/").concat(
        output.as_str(),
    ).concat(" wall=").concat(wall.as_str()).concat("ms\n")
}

fn list_results(results: &Vec<VerifyResult>) -> (r: (usize, String))
    ensures
        r.0 == passes(results@),
        r.1@ == result_lines(results@),
{
    let mut passed: usize = 0;
    let mut out = String::new();
    let mut i: usize = 0;
    assert(out@ =~= result_lines(results@.take(0)));
    while i < results.len()
        invariant
            i <= results@.len(),
            passed <= i,
            passed == passes(results@.take(i as int)),
            out@ == result_lines(results@.take(i as int)),
        decreases results@.len() - i,
    {
        proof {
            let next = results@.take(i + 1);
            assert(next.drop_last() =~= results@.take(i as int));
            assert(next.last() == results@[i as int]);
        }
        let mark = if results[i].passed {
            "PASS"
        } else {
            "FAIL"
        };
        if results[i].passed {
            passed += 1;
        }
        let detail = match &results[i].detail {
            Some(detail) => owned(" — ").concat(detail.as_str()),
            None => String::new(),
        };
        out.append("  [");
        out.append(mark);
        out.append("] ");
        out.append(results[i].step.as_str());
        out.append(detail.as_str());
        out.append("\n");
        i += 1;
    }
    assert(results@.take(i as int) =~= results@);
    (passed, out)
}

/// What came of a task, in words.
pub fn render_summary(result: &EvalResult) -> (r: String)
    ensures
        r@ == summary_of(*result),
{
    let suite = suite_or_dash(result.suite.as_str());
    let (passed, lines) = list_results(&result.verify);
    let count = decimal(passed as u128);
    let total = decimal(result.verify.len() as u128);
    let run = if result.success {
        "SUCCESS"
    } else {
        "FAILED"
    };
    let verified = if result.verification_passed {
        "PASSED"
    } else {
        "FAILED"
    };
    let stats = result.stats();
    let numbers = metrics(&stats, result.wall_time_ms);
    let error = match &result.error {
        Some(error) => owned("error: ").concat(error.as_str()).concat("\n"),
        None => String::new(),
    };
    owned("task: ").concat(result.task_id.as_str()).concat(" [").concat(suite.as_str()).concat(
        "]\nrun:   ",
    ).concat(run).concat(" (").concat(result.reason.as_str()).concat(")\nverify: ").concat(
        verified,
    ).concat(" (").concat(count.as_str()).concat("/").concat(total.as_str()).concat(
        ")\n",
    ).concat(lines.as_str()).concat(numbers.as_str()).concat(error.as_str())
}

/// How many tasks went well and how many did not, in a line.
pub open spec fn verdict_line(passed: nat, failed: nat) -> Seq<char> {
    "==== 汇总: pass="@ + decimal_of(passed) + " fail="@ + decimal_of(failed) + " ===="@
}

/// What there is to complain of after several tasks: those that did not go well.
pub open spec fn verdict_fault(failed: nat) -> Option<Seq<char>> {
    if failed == 0 {
        None
    } else {
        Some(decimal_of(failed) + " 个 eval 任务失败"@)
    }
}

/// What came of several tasks: how many went well and how many did not, and whether there
/// is nothing to complain of.
pub fn eval_verdict(passed: usize, failed: usize) -> (r: (String, Result<(), String>))
    ensures
        r.0@ == verdict_line(passed as nat, failed as nat),
        match r.1 {
            Ok(_) => verdict_fault(failed as nat) is None,
            Err(error) => verdict_fault(failed as nat) == Some(error@),
        },
{
    let well = decimal(passed as u128);
    let badly = decimal(failed as u128);
    let line = owned("==== 汇总: pass=").concat(well.as_str()).concat(" fail=").concat(
        badly.as_str(),
    ).concat(" ====");
    if failed == 0 {
        (line, Ok(()))
    } else {
        (line, Err(badly.concat(" 个 eval 任务失败")))
    }
}

} // verus!
