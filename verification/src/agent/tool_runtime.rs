//! The tool calls of one message of the model, as a batch.
//!
//! All calls are checked first; those that cannot run are refused. The others run in waves.
//! Whatever order they end in, the model gets their results in the order of its calls.
use crate::agent::scheduler::action_key;
use crate::agent::scheduler::action_key_from_name;
use crate::agent::scheduler::action_of;
use crate::agent::scheduler::blocks;
use crate::agent::scheduler::build_waves;
use crate::agent::scheduler::full_stamp;
use crate::agent::scheduler::is_access;
use crate::agent::scheduler::observation_of;
use crate::agent::scheduler::observed;
use crate::agent::scheduler::stable_observation;
use crate::agent::scheduler::stamp_of;
use crate::agent::scheduler::state_stamp_from_ctx;
use crate::agent::scheduler::state_with_epoch;
use crate::agent::scheduler::tool_access;
use crate::agent::scheduler::wave_seqs;
use crate::agent::scheduler::waves_keep_the_calls;
use crate::agent::scheduler::waves_of;
use crate::agent::scheduler::PreparedCall;
use crate::agent::scheduler::PreparedKind;
use crate::agent::scheduler::ProgressTracker;
use crate::agent::scheduler::ProgressView;
use crate::agent::scheduler::RepeatKeyView;
use crate::agent::scheduler::SeenRevision;
use crate::agent::scheduler::ToolAccess;
use crate::agent::scheduler::ValidatedArgs;
use crate::agent::LiveEvent;
use crate::agent::LiveEventView;
use crate::ids::ToolCallId;
use crate::message::ChatMessage;
use crate::message::ChatMessageView;
use crate::message::ToolCall;
use crate::message::ToolCallView;
use crate::outcome::clone_text;
use crate::outcome::outcome_of;
use crate::outcome::plain_payload;
use crate::outcome::status_text;
use crate::outcome::OutcomeView;
use crate::outcome::StoredToolOutcome;
use crate::outcome::ToolStatus;
use crate::plan::Plan;
use crate::plan::PlanView;
use crate::session::RecoveryMetadata;
use crate::session::RecoveryView;
use crate::session::SessionEvent;
use crate::session::SessionEventView;
use crate::text::decimal_of;
use crate::text::lemma_decimal_digits;
use crate::text::lemma_decimal_unique;
use crate::text::opt_view;
use crate::text::owned;
use crate::text::same;
use crate::text::views;
use crate::text::views_push;
use crate::tool::builtin_of;
use crate::tool::tool_name;
use crate::tool::BuiltinTool;
use vstd::prelude::*;
use vstd::string::*;

verus! {

/// What is known of a call before it runs.
#[derive(Debug)]
pub struct Lookup {
    /// The arguments as a built-in tool of that name reads them, or why it cannot.
    pub parsed: Result<ValidatedArgs, String>,
    /// Whether a tool of that name is registered from outside.
    pub registered: bool,
}

/// Something for the driver of a batch to do.
#[derive(Debug)]
pub enum ToolAction {
    /// Write an event to the session.
    Append(SessionEvent),
    /// Make sure that what was written is on disk.
    Sync,
    /// Record what a tool is about to do, so that it can be recovered from.
    WriteAhead { call_id: ToolCallId, recovery: Option<RecoveryMetadata> },
    /// Write the outcome of a call to the session.
    Complete { call_id: ToolCallId, outcome: StoredToolOutcome },
    /// Show what happens.
    Emit(LiveEvent),
    /// Run the call at this position.
    Execute { index: usize },
    /// Take this for the outcome of the call at this position, without running it.
    Answer { index: usize, outcome: StoredToolOutcome },
    /// Remove the backup that the call at this position made.
    RemoveBackup { index: usize },
}

/// What a [`ToolAction`] says.
pub enum ToolActionView {
    Append(SessionEventView),
    Sync,
    WriteAhead { call_id: ToolCallId, recovery: Option<RecoveryView> },
    Complete { call_id: ToolCallId, outcome: OutcomeView },
    Emit(LiveEventView),
    Execute { index: usize },
    Answer { index: usize, outcome: OutcomeView },
    RemoveBackup { index: usize },
}

impl View for ToolAction {
    type V = ToolActionView;

    open spec fn view(&self) -> ToolActionView {
        match *self {
            ToolAction::Append(event) => ToolActionView::Append(event@),
            ToolAction::Sync => ToolActionView::Sync,
            ToolAction::WriteAhead { call_id, recovery } => ToolActionView::WriteAhead {
                call_id,
                recovery: opt_view(recovery),
            },
            ToolAction::Complete { call_id, outcome } => ToolActionView::Complete {
                call_id,
                outcome: outcome@,
            },
            ToolAction::Emit(event) => ToolActionView::Emit(event@),
            ToolAction::Execute { index } => ToolActionView::Execute { index },
            ToolAction::Answer { index, outcome } => ToolActionView::Answer {
                index,
                outcome: outcome@,
            },
            ToolAction::RemoveBackup { index } => ToolActionView::RemoveBackup { index },
        }
    }
}

fn act(actions: &mut Vec<ToolAction>, action: ToolAction)
    ensures
        views(final(actions)@) == views(old(actions)@).push(action@),
{
    proof {
        views_push(actions@, action);
    }
    actions.push(action);
}

/// The outcome of a call that was refused.
pub open spec fn refused_outcome(tool: Seq<char>, rest: Seq<char>) -> OutcomeView {
    outcome_of(
        tool,
        plain_payload(ToolStatus::Rejected, "status: rejected\ntool: "@ + tool + rest),
    )
}

fn refused(tool: &str, rest: &str) -> (r: StoredToolOutcome)
    ensures
        r@ == refused_outcome(tool@, rest@),
{
    let output = owned("status: rejected\ntool: ").concat(tool).concat(rest);
    StoredToolOutcome::plain(tool, ToolStatus::Rejected, output)
}

/// The outcome of a call that there is no budget for.
pub fn budget_outcome(tool: &str) -> (r: StoredToolOutcome)
    ensures
        r@ == over_budget_outcome(tool@),
{
    refused(
        tool,
        "\nerror: tool_budget_exceeded\n\n工具调用预算（max_tool_calls）已耗尽，本批剩余调用未执行。",
    )
}

/// The outcome of a call of a tool that does not exist.
pub fn unknown_tool_outcome(name: &str) -> (r: StoredToolOutcome)
    ensures
        r@ == refused_outcome(name@, "\nerror: unknown_tool"@),
{
    refused(name, "\nerror: unknown_tool")
}

/// The outcome of a call whose arguments the tool cannot read.
pub fn invalid_arguments_outcome(tool: BuiltinTool, message: &str) -> (r: StoredToolOutcome)
    ensures
        r@ == refused_outcome(tool_name(tool), "\nerror: invalid_arguments\n\n"@ + message@),
{
    let rest = owned("\nerror: invalid_arguments\n\n").concat(message);
    refused(tool.name(), rest.as_str())
}

/// What is said of a call that repeats itself: what it does, and what to do instead.
pub open spec fn repetition_text(action_key: Seq<char>) -> Seq<char> {
    "\nerror: repeated_without_progress\naction: "@ + action_key
        + "\nnote: 相同动作已连续出现且无进展；请先读取相关文件或改变方法。\nsuggestions:\n  - 使用 list 或 search 定位/确认文件与目录\n  - 检查路径是否拼写错误\n  - 如果是测试失败，读取完整输出（@artifact 引用）\n  - 改用不同的实现路径或先制定/更新计划"@
}

/// The outcome of a call that repeats itself without progress.
pub fn repeated_outcome(tool: &str, action_key: &str) -> (r: StoredToolOutcome)
    ensures
        r@ == refused_outcome(tool@, repetition_text(action_key@)),
{
    let rest = owned("\nerror: repeated_without_progress\naction: ").concat(action_key).concat(
        "\nnote: 相同动作已连续出现且无进展；请先读取相关文件或改变方法。\nsuggestions:\n  - 使用 list 或 search 定位/确认文件与目录\n  - 检查路径是否拼写错误\n  - 如果是测试失败，读取完整输出（@artifact 引用）\n  - 改用不同的实现路径或先制定/更新计划",
    );
    refused(tool, rest.as_str())
}

/// Whether the backup of a write may be removed: only where the write succeeded. After
/// anything else it may be all that is left.
pub open spec fn may_lose_backup(status: ToolStatus) -> bool {
    status == ToolStatus::Succeeded
}

/// Whether the backup of a write may be removed.
pub fn backup_cleanup_allowed(status: ToolStatus) -> (r: bool)
    ensures
        r == may_lose_backup(status),
{
    match status {
        ToolStatus::Succeeded => true,
        _ => false,
    }
}

/// The result of a call, as the model gets it.
pub open spec fn result_message(call: ToolCallView, outcome: OutcomeView) -> ChatMessageView {
    ChatMessageView::Tool {
        tool_call_id: call.provider_id,
        name: call.name,
        content: outcome.model_payload.output,
    }
}

/// The result of a call, as the model gets it.
pub fn tool_result_message(call: &ToolCall, outcome: &StoredToolOutcome) -> (r: ChatMessage)
    ensures
        r@ == result_message(call@, outcome@),
{
    ChatMessage::Tool {
        tool_call_id: call.provider_id.clone(),
        name: call.name.clone(),
        content: outcome.model_payload.output.clone(),
    }
}

/// Why a call is refused before anything runs: its tool cannot read the arguments, or there
/// is no such tool.
pub open spec fn rejection(call: ToolCallView, lookup: Lookup) -> Option<OutcomeView> {
    match builtin_of(call.name) {
        Some(tool) => match lookup.parsed {
            Ok(args) => None,
            Err(message) => Some(
                refused_outcome(tool_name(tool), "\nerror: invalid_arguments\n\n"@ + message@),
            ),
        },
        None => if lookup.registered {
            None
        } else {
            Some(refused_outcome(call.name, "\nerror: unknown_tool"@))
        },
    }
}

/// Whether a call has been prepared as it should be. A tool from outside may touch anything.
pub open spec fn is_prepared(
    call: ToolCallView,
    lookup: Lookup,
    index: int,
    prepared: PreparedCall,
) -> bool {
    &&& prepared.source_index == index
    &&& prepared.action_key@ == action_of(call.name, call.arguments)
    &&& match builtin_of(call.name) {
        Some(tool) => {
            &&& prepared.kind == PreparedKind::Builtin(tool)
            &&& lookup.parsed is Ok
            &&& is_access(tool, lookup.parsed->Ok_0, prepared.access)
        },
        None => {
            &&& prepared.kind matches PreparedKind::External(name) && name@ == call.name
            &&& prepared.access is WorkspaceUnknown
        },
    }
}

/// The positions of the first `n` calls that may run.
pub open spec fn ready(calls: Seq<ToolCallView>, lookups: Seq<Lookup>, n: int) -> Seq<int>
    decreases n,
{
    if n <= 0 {
        Seq::empty()
    } else if rejection(calls[n - 1], lookups[n - 1]) is None {
        ready(calls, lookups, n - 1).push(n - 1)
    } else {
        ready(calls, lookups, n - 1)
    }
}

/// Whether the calls that may run have been prepared, in their order.
pub open spec fn are_prepared(
    calls: Seq<ToolCallView>,
    lookups: Seq<Lookup>,
    n: int,
    prepared: Seq<PreparedCall>,
) -> bool {
    let positions = ready(calls, lookups, n);
    &&& prepared.len() == positions.len()
    &&& forall|j: int|
        0 <= j < prepared.len() ==> is_prepared(
            calls[positions[j]],
            lookups[positions[j]],
            positions[j],
            #[trigger] prepared[j],
        )
}

/// A refused call, as the session records it: asked for, and ended.
pub open spec fn refusal(call: ToolCallView, outcome: OutcomeView) -> Seq<ToolActionView> {
    seq![
        ToolActionView::Append(SessionEventView::ToolRequested { call }),
        ToolActionView::Complete { call_id: call.call_id, outcome },
    ]
}

/// The records of those of the first `n` calls that are refused.
pub open spec fn refusals(calls: Seq<ToolCallView>, lookups: Seq<Lookup>, n: int) -> Seq<
    ToolActionView,
>
    decreases n,
{
    if n <= 0 {
        Seq::empty()
    } else {
        let before = refusals(calls, lookups, n - 1);
        match rejection(calls[n - 1], lookups[n - 1]) {
            Some(outcome) => before + refusal(calls[n - 1], outcome),
            None => before,
        }
    }
}

/// The outcome of a call that does not run because the budget is used up.
pub open spec fn over_budget_outcome(tool: Seq<char>) -> OutcomeView {
    refused_outcome(
        tool,
        "\nerror: tool_budget_exceeded\n\n工具调用预算（max_tool_calls）已耗尽，本批剩余调用未执行。"@,
    )
}

/// The records of the first `m` calls where the budget reaches for `n` of them: those that
/// are not refused already do not run either.
pub open spec fn not_run(calls: Seq<ToolCallView>, lookups: Seq<Lookup>, n: int, m: int) -> Seq<
    ToolActionView,
>
    decreases m,
{
    if m <= 0 {
        Seq::empty()
    } else {
        let before = not_run(calls, lookups, n, m - 1);
        if m - 1 < n && rejection(calls[m - 1], lookups[m - 1]) is Some {
            before
        } else {
            before + refusal(calls[m - 1], over_budget_outcome(calls[m - 1].name))
        }
    }
}

/// The records of a batch that the budget does not reach for: it reaches for `n` calls.
pub open spec fn over_budget(calls: Seq<ToolCallView>, lookups: Seq<Lookup>, n: int) -> Seq<
    ToolActionView,
> {
    refusals(calls, lookups, n) + not_run(calls, lookups, n, calls.len() as int)
}

/// Whether a call is recorded at this place: asked for, and then ended.
pub open spec fn is_ended_at(actions: Seq<ToolActionView>, k: int, call: ToolCallView) -> bool {
    &&& 0 <= k
    &&& k + 1 < actions.len()
    &&& actions[k] == ToolActionView::Append(SessionEventView::ToolRequested { call })
    &&& actions[k + 1] matches ToolActionView::Complete { call_id, outcome } && call_id
        == call.call_id
}

/// Whether a call is recorded as asked for and ended.
pub open spec fn is_ended(actions: Seq<ToolActionView>, call: ToolCallView) -> bool {
    exists|k: int| is_ended_at(actions, k, call)
}

proof fn lemma_ended_add(a: Seq<ToolActionView>, b: Seq<ToolActionView>, call: ToolCallView)
    requires
        is_ended(a, call) || is_ended(b, call),
    ensures
        is_ended(a + b, call),
{
    if is_ended(a, call) {
        let k = choose|k: int| is_ended_at(a, k, call);
        assert(is_ended_at(a + b, k, call));
    } else {
        let k = choose|k: int| is_ended_at(b, k, call);
        assert((a + b)[a.len() + k] == b[k]);
        assert((a + b)[a.len() + k + 1] == b[k + 1]);
        assert(is_ended_at(a + b, a.len() + k, call));
    }
}

proof fn lemma_refusal_ends(call: ToolCallView, outcome: OutcomeView)
    ensures
        is_ended(refusal(call, outcome), call),
{
    assert(is_ended_at(refusal(call, outcome), 0, call));
}

proof fn lemma_refusals_end(calls: Seq<ToolCallView>, lookups: Seq<Lookup>, n: int, i: int)
    requires
        0 <= i < n,
        rejection(calls[i], lookups[i]) is Some,
    ensures
        is_ended(refusals(calls, lookups, n), calls[i]),
    decreases n,
{
    let before = refusals(calls, lookups, n - 1);
    match rejection(calls[n - 1], lookups[n - 1]) {
        Some(outcome) => {
            if i == n - 1 {
                lemma_refusal_ends(calls[i], outcome);
            } else {
                lemma_refusals_end(calls, lookups, n - 1, i);
            }
            lemma_ended_add(before, refusal(calls[n - 1], outcome), calls[i]);
        },
        None => {
            lemma_refusals_end(calls, lookups, n - 1, i);
        },
    }
}

proof fn lemma_not_run_end(
    calls: Seq<ToolCallView>,
    lookups: Seq<Lookup>,
    n: int,
    m: int,
    i: int,
)
    requires
        0 <= i < m,
        !(i < n && rejection(calls[i], lookups[i]) is Some),
    ensures
        is_ended(not_run(calls, lookups, n, m), calls[i]),
    decreases m,
{
    let last = refusal(calls[m - 1], over_budget_outcome(calls[m - 1].name));
    if i == m - 1 {
        lemma_refusal_ends(calls[i], over_budget_outcome(calls[i].name));
    } else {
        lemma_not_run_end(calls, lookups, n, m - 1, i);
    }
    if !(m - 1 < n && rejection(calls[m - 1], lookups[m - 1]) is Some) {
        lemma_ended_add(not_run(calls, lookups, n, m - 1), last, calls[i]);
    }
}

proof fn lemma_over_budget_len(calls: Seq<ToolCallView>, lookups: Seq<Lookup>, n: int, m: int)
    requires
        0 <= m,
    ensures
        refusals(
            calls,
            lookups,
            if m < n {
                m
            } else {
                n
            },
        ).len() + not_run(calls, lookups, n, m).len() == 2 * m,
    decreases m,
{
    if m > 0 {
        lemma_over_budget_len(calls, lookups, n, m - 1);
    }
}

/// Where the budget does not reach for a batch, every one of its calls is recorded as asked
/// for and as ended, and nothing else is: no call is left without a result.
pub proof fn every_call_over_budget_is_ended(
    calls: Seq<ToolCallView>,
    lookups: Seq<Lookup>,
    n: int,
)
    requires
        0 <= n < calls.len() == lookups.len(),
    ensures
        forall|i: int|
            0 <= i < calls.len() ==> is_ended(over_budget(calls, lookups, n), #[trigger] calls[i]),
        over_budget(calls, lookups, n).len() == 2 * calls.len(),
{
    let count = calls.len() as int;
    let first = refusals(calls, lookups, n);
    let second = not_run(calls, lookups, n, count);
    lemma_over_budget_len(calls, lookups, n, count);
    assert forall|i: int| 0 <= i < count implies is_ended(
        over_budget(calls, lookups, n),
        #[trigger] calls[i],
    ) by {
        if i < n && rejection(calls[i], lookups[i]) is Some {
            lemma_refusals_end(calls, lookups, n, i);
        } else {
            lemma_not_run_end(calls, lookups, n, count, i);
        }
        lemma_ended_add(first, second, calls[i]);
    }
}

/// How many of `count` calls there is a budget for, after `total` of `max`; with no limit
/// where `max` is 0.
pub open spec fn affordable(count: int, total: int, max: int) -> int {
    if max == 0 || total + count <= max {
        count
    } else if total >= max {
        0
    } else {
        max - total
    }
}

/// What the calls that were refused came to.
pub open spec fn early_results(calls: Seq<ToolCallView>, lookups: Seq<Lookup>) -> Seq<
    Option<OutcomeView>,
> {
    Seq::new(calls.len(), |i: int| rejection(calls[i], lookups[i]))
}

/// Outcomes, as far as there are any.
pub open spec fn outcomes(results: Seq<Option<StoredToolOutcome>>) -> Seq<Option<OutcomeView>> {
    Seq::new(results.len(), |i: int| opt_view(results[i]))
}

/// A batch of calls.
#[derive(Debug)]
pub struct Batch {
    pub calls: Vec<ToolCall>,
    /// The calls that may run, wave by wave.
    pub waves: Vec<Vec<PreparedCall>>,
    /// What each call came to, as far as it is known.
    pub results: Vec<Option<StoredToolOutcome>>,
}

/// Whether there is a place for the result of every call, and every call in a wave is a call.
pub open spec fn batch_wf(batch: Batch) -> bool {
    &&& batch.results@.len() == batch.calls@.len()
    &&& forall|w: int, i: int|
        0 <= w < batch.waves@.len() && 0 <= i < batch.waves@[w]@.len() ==> (
        #[trigger] batch.waves@[w]@[i]).source_index < batch.calls@.len()
}

proof fn lemma_ready(calls: Seq<ToolCallView>, lookups: Seq<Lookup>, n: int)
    requires
        0 <= n <= calls.len(),
    ensures
        forall|j: int|
            0 <= j < ready(calls, lookups, n).len() ==> {
                &&& 0 <= #[trigger] ready(calls, lookups, n)[j] < n
                &&& rejection(
                    calls[ready(calls, lookups, n)[j]],
                    lookups[ready(calls, lookups, n)[j]],
                ) is None
            },
        forall|i: int|
            0 <= i < n && #[trigger] rejection(calls[i], lookups[i]) is None ==> ready(
                calls,
                lookups,
                n,
            ).contains(i),
        ready(calls, lookups, n).no_duplicates(),
    decreases n,
{
    if n > 0 {
        lemma_ready(calls, lookups, n - 1);
        let before = ready(calls, lookups, n - 1);
        let after = ready(calls, lookups, n);
        assert forall|i: int|
            0 <= i < n && #[trigger] rejection(
                calls[i],
                lookups[i],
            ) is None implies after.contains(i) by {
            if i < n - 1 {
                let j = choose|j: int| 0 <= j < before.len() && before[j] == i;
                assert(after[j] == i);
            } else {
                assert(after[after.len() - 1] == i);
            }
        }
    }
}

/// A call of a batch that there is a budget for either is refused or gets ready to run, and
/// none gets ready twice.
pub proof fn every_call_is_refused_or_ready(calls: Seq<ToolCallView>, lookups: Seq<Lookup>)
    requires
        calls.len() == lookups.len(),
    ensures
        ready(calls, lookups, calls.len() as int).no_duplicates(),
        forall|i: int|
            0 <= i < calls.len() ==> (#[trigger] early_results(calls, lookups)[i] is None) == ready(
                calls,
                lookups,
                calls.len() as int,
            ).contains(i),
{
    lemma_ready(calls, lookups, calls.len() as int);
    let positions = ready(calls, lookups, calls.len() as int);
    assert forall|i: int| 0 <= i < calls.len() implies (#[trigger] early_results(calls, lookups)[i]
        is None) == positions.contains(i) by {
        assert(early_results(calls, lookups)[i] == rejection(calls[i], lookups[i]));
        if positions.contains(i) {
            let j = choose|j: int| 0 <= j < positions.len() && positions[j] == i;
            assert(rejection(calls[positions[j]], lookups[positions[j]]) is None);
        }
    }
}

fn record_refusal(actions: &mut Vec<ToolAction>, call: &ToolCall, outcome: StoredToolOutcome)
    ensures
        views(final(actions)@) == views(old(actions)@) + refusal(call@, outcome@),
{
    let ghost before = views(actions@);
    act(actions, ToolAction::Append(SessionEvent::ToolRequested { call: call.clone() }));
    act(actions, ToolAction::Complete { call_id: call.call_id, outcome });
    assert(views(actions@) =~= before + refusal(call@, outcome@));
}

fn prepare(call: &ToolCall, lookup: &Lookup, index: usize) -> (r: Result<
    PreparedCall,
    StoredToolOutcome,
>)
    ensures
        match r {
            Ok(prepared) => rejection(call@, *lookup) is None && is_prepared(
                call@,
                *lookup,
                index as int,
                prepared,
            ),
            Err(outcome) => rejection(call@, *lookup) == Some(outcome@),
        },
{
    match BuiltinTool::from_name(call.name.as_str()) {
        Some(tool) => match &lookup.parsed {
            Ok(args) => Ok(
                PreparedCall {
                    source_index: index,
                    kind: PreparedKind::Builtin(tool),
                    access: tool_access(tool, args),
                    action_key: action_key(tool, call.arguments.as_str()),
                },
            ),
            Err(message) => Err(invalid_arguments_outcome(tool, message.as_str())),
        },
        None => if lookup.registered {
            Ok(
                PreparedCall {
                    source_index: index,
                    kind: PreparedKind::External(call.name.clone()),
                    access: ToolAccess::WorkspaceUnknown,
                    action_key: action_key_from_name(call.name.as_str(), call.arguments.as_str()),
                },
            )
        } else {
            Err(unknown_tool_outcome(call.name.as_str()))
        },
    }
}

/// Checks the calls of a message and puts those that may run into waves. `tool_calls_total`
/// counts the calls of the run. Where the budget does not reach for all calls, none of them
/// runs: all of them are recorded as refused, so that each has a result, and there is no
/// batch.
pub fn preflight(
    calls: Vec<ToolCall>,
    lookups: &Vec<Lookup>,
    tool_calls_total: &mut u32,
    max_tool_calls: u32,
    max_parallel: usize,
) -> (r: (Option<Batch>, Vec<ToolAction>))
    requires
        lookups@.len() == calls@.len(),
        max_tool_calls > 0 || *old(tool_calls_total) + calls@.len() <= u32::MAX,
    ensures
        ({
            let count = calls@.len() as int;
            let n = affordable(count, *old(tool_calls_total) as int, max_tool_calls as int);
            &&& *final(tool_calls_total) == *old(tool_calls_total) + n
            &&& views(r.1@) == if n == count {
                refusals(views(calls@), lookups@, n)
            } else {
                over_budget(views(calls@), lookups@, n)
            }
            &&& (r.0 is Some) == (n == count)
            &&& r.0 matches Some(batch) ==> {
                let prepared = wave_seqs(batch.waves@).flatten();
                &&& batch.calls == calls
                &&& outcomes(batch.results@) == early_results(views(calls@), lookups@)
                &&& are_prepared(views(calls@), lookups@, count, prepared)
                &&& wave_seqs(batch.waves@) == waves_of(
                    prepared,
                    if max_parallel < 1 {
                        1
                    } else {
                        max_parallel as int
                    },
                )
                &&& batch_wf(batch)
            }
        }),
{
    let mut actions: Vec<ToolAction> = Vec::new();
    let mut prepared: Vec<PreparedCall> = Vec::new();
    let mut results: Vec<Option<StoredToolOutcome>> = Vec::new();
    let count: usize = calls.len();
    let ghost all = views(calls@);
    let ghost before = *tool_calls_total as int;
    assert(views(actions@) =~= refusals(all, lookups@, 0));
    let mut index: usize = 0;
    while index < count
        invariant
            index <= count == calls@.len() == lookups@.len(),
            all == views(calls@),
            before == *old(tool_calls_total),
            max_tool_calls > 0 || before + count <= u32::MAX,
            *tool_calls_total == before + index,
            max_tool_calls > 0 && index > 0 ==> before + index <= max_tool_calls,
            views(actions@) == refusals(all, lookups@, index as int),
            are_prepared(all, lookups@, index as int, prepared@),
            results@.len() == index,
            forall|i: int|
                0 <= i < index ==> opt_view(#[trigger] results@[i]) == rejection(
                    all[i],
                    lookups@[i],
                ),
        decreases count - index,
    {
        if max_tool_calls > 0 && *tool_calls_total >= max_tool_calls {
            let ghost refused_before = views(actions@);
            assert(index == affordable(count as int, before, max_tool_calls as int));
            let mut i: usize = 0;
            assert(refused_before + not_run(all, lookups@, index as int, 0) =~= refused_before);
            while i < count
                invariant
                    i <= count == calls@.len() == lookups@.len(),
                    index < count,
                    all == views(calls@),
                    results@.len() == index,
                    forall|j: int|
                        0 <= j < index ==> opt_view(#[trigger] results@[j]) == rejection(
                            all[j],
                            lookups@[j],
                        ),
                    views(actions@) == refused_before + not_run(
                        all,
                        lookups@,
                        index as int,
                        i as int,
                    ),
                decreases count - i,
            {
                let recorded = i < index && results[i].is_some();
                if !recorded {
                    let outcome = budget_outcome(calls[i].name.as_str());
                    record_refusal(&mut actions, &calls[i], outcome);
                }
                assert(all[i as int] == calls@[i as int]@);
                assert(views(actions@) =~= refused_before + not_run(
                    all,
                    lookups@,
                    index as int,
                    i + 1,
                ));
                i += 1;
            }
            return (None, actions);
        }
        *tool_calls_total = *tool_calls_total + 1;
        assert(all[index as int] == calls@[index as int]@);
        match prepare(&calls[index], &lookups[index], index) {
            Ok(call) => {
                let ghost old_prepared = prepared@;
                prepared.push(call);
                results.push(None);
                proof {
                    let next = ready(all, lookups@, index + 1);
                    assert(next.drop_last() =~= ready(all, lookups@, index as int));
                    assert forall|j: int| 0 <= j < prepared@.len() implies is_prepared(
                        all[next[j]],
                        lookups@[next[j]],
                        next[j],
                        #[trigger] prepared@[j],
                    ) by {
                        if j < old_prepared.len() {
                            assert(prepared@[j] == old_prepared[j]);
                            assert(next[j] == ready(all, lookups@, index as int)[j]);
                        }
                    }
                }
            },
            Err(outcome) => {
                record_refusal(&mut actions, &calls[index], outcome.clone());
                results.push(Some(outcome));
            },
        }
        index += 1;
    }
    assert(index == affordable(count as int, before, max_tool_calls as int));
    let ghost ready_calls = prepared@;
    let waves = build_waves(prepared, max_parallel);
    proof {
        let max: int = if max_parallel < 1 {
            1
        } else {
            max_parallel as int
        };
        waves_keep_the_calls(ready_calls, max);
        assert(wave_seqs(waves@).flatten() == ready_calls);
        lemma_ready(all, lookups@, count as int);
        lemma_flatten_has(wave_seqs(waves@));
        assert forall|w: int, i: int|
            0 <= w < waves@.len() && 0 <= i < waves@[w]@.len() implies (
        #[trigger] waves@[w]@[i]).source_index < calls@.len() by {
            assert(wave_seqs(waves@)[w][i] == waves@[w]@[i]);
            assert(ready_calls.contains(waves@[w]@[i]));
            let j = choose|j: int| 0 <= j < ready_calls.len() && ready_calls[j] == waves@[w]@[i];
            let positions = ready(all, lookups@, count as int);
            assert(is_prepared(
                all[positions[j]],
                lookups@[positions[j]],
                positions[j],
                ready_calls[j],
            ));
        }
        assert(outcomes(results@) =~= early_results(all, lookups@));
    }
    (Some(Batch { calls, waves, results }), actions)
}

proof fn lemma_flatten_has(waves: Seq<Seq<PreparedCall>>)
    ensures
        forall|w: int, i: int|
            0 <= w < waves.len() && 0 <= i < waves[w].len() ==> waves.flatten().contains(
                #[trigger] waves[w][i],
            ),
    decreases waves.len(),
{
    if waves.len() > 0 {
        let front = waves.drop_last();
        lemma_flatten_has(front);
        assert(waves =~= front.push(waves.last()));
        front.lemma_flatten_push(waves.last());
        assert forall|w: int, i: int|
            0 <= w < waves.len() && 0 <= i < waves[w].len() implies waves.flatten().contains(
            #[trigger] waves[w][i],
        ) by {
            let x = waves[w][i];
            if w < front.len() {
                assert(front[w][i] == x);
                let k = choose|k: int| 0 <= k < front.flatten().len() && front.flatten()[k] == x;
                assert(waves.flatten()[k] == x);
            } else {
                assert(waves.flatten()[front.flatten().len() + i] == x);
            }
        }
    }
}

/// The name of the tool of a prepared call.
pub open spec fn kind_name(kind: PreparedKind) -> Seq<char> {
    match kind {
        PreparedKind::Builtin(tool) => tool_name(tool),
        PreparedKind::External(name) => name@,
    }
}

fn name_of_kind(kind: &PreparedKind) -> (r: String)
    ensures
        r@ == kind_name(*kind),
{
    match kind {
        PreparedKind::Builtin(tool) => owned(tool.name()),
        PreparedKind::External(name) => name.clone(),
    }
}

/// Whether what a call is about to do is recorded first.
pub open spec fn writes_ahead(kind: PreparedKind) -> bool {
    match kind {
        PreparedKind::Builtin(tool) => tool == BuiltinTool::Edit || tool == BuiltinTool::Write
            || tool == BuiltinTool::Bash,
        PreparedKind::External(_) => false,
    }
}

/// The first `n` calls of a wave are recorded as asked for.
pub open spec fn asked(calls: Seq<ToolCallView>, wave: Seq<PreparedCall>, n: int) -> Seq<
    ToolActionView,
>
    decreases n,
{
    if n <= 0 {
        Seq::empty()
    } else {
        asked(calls, wave, n - 1) + seq![
            ToolActionView::Append(
                SessionEventView::ToolRequested { call: calls[wave[n - 1].source_index as int] },
            ),
            ToolActionView::Sync,
        ]
    }
}

/// How a call is recorded as started: ahead of what it does, with what is needed to recover
/// from it, where it changes something; plainly otherwise.
pub open spec fn start_record(
    calls: Seq<ToolCallView>,
    call: PreparedCall,
    recovery: Option<RecoveryView>,
) -> ToolActionView {
    let call_id = calls[call.source_index as int].call_id;
    if writes_ahead(call.kind) {
        ToolActionView::WriteAhead { call_id, recovery }
    } else {
        ToolActionView::Append(SessionEventView::ToolStarted { call_id, recovery: None })
    }
}

/// The first `n` calls of a wave are recorded as started.
pub open spec fn announced(
    calls: Seq<ToolCallView>,
    wave: Seq<PreparedCall>,
    recoveries: Seq<Option<RecoveryMetadata>>,
    n: int,
) -> Seq<ToolActionView>
    decreases n,
{
    if n <= 0 {
        Seq::empty()
    } else {
        announced(calls, wave, recoveries, n - 1).push(
            start_record(calls, wave[n - 1], opt_view(recoveries[n - 1])),
        )
    }
}

/// The state in which a call would run.
pub open spec fn call_state(
    call: PreparedCall,
    seen: Seq<SeenRevision>,
    progress: ProgressView,
) -> Seq<char> {
    full_stamp(stamp_of(call.access, seen), progress.epoch)
}

/// A call is shown, unless it only updates the plan, and runs, unless it repeats itself.
pub open spec fn launch(
    calls: Seq<ToolCallView>,
    call: PreparedCall,
    seen: Seq<SeenRevision>,
    progress: ProgressView,
    checks_progress: bool,
) -> Seq<ToolActionView> {
    let source = calls[call.source_index as int];
    (if kind_name(call.kind) == "update_plan"@ {
        Seq::empty()
    } else {
        seq![
            ToolActionView::Emit(
                LiveEventView::ToolStarted {
                    call_id: source.call_id,
                    name: source.name,
                    arguments: source.arguments,
                },
            ),
        ]
    }).push(
        if checks_progress && blocks(
            progress,
            call.action_key@,
            call_state(call, seen, progress),
        ) {
            ToolActionView::Answer {
                index: call.source_index,
                outcome: refused_outcome(
                    kind_name(call.kind),
                    repetition_text(call.action_key@),
                ),
            }
        } else {
            ToolActionView::Execute { index: call.source_index }
        },
    )
}

/// The first `n` calls of a wave are launched.
pub open spec fn launched(
    calls: Seq<ToolCallView>,
    wave: Seq<PreparedCall>,
    seen: Seq<Vec<SeenRevision>>,
    progress: ProgressView,
    checks_progress: bool,
    n: int,
) -> Seq<ToolActionView>
    decreases n,
{
    if n <= 0 {
        Seq::empty()
    } else {
        launched(calls, wave, seen, progress, checks_progress, n - 1) + launch(
            calls,
            wave[n - 1],
            seen[n - 1]@,
            progress,
            checks_progress,
        )
    }
}

/// What is kept of a call that ended.
pub open spec fn key_of_call(
    call: PreparedCall,
    outcome: OutcomeView,
    seen: Seq<SeenRevision>,
    progress: ProgressView,
) -> RepeatKeyView {
    RepeatKeyView {
        action: call.action_key@,
        observation: observation_of(
            outcome.session_metadata.tool,
            status_text(outcome.status),
            outcome.model_payload.output,
        ),
        state: call_state(call, seen, progress),
    }
}

/// Whether an outcome is that of a file that was written.
pub open spec fn wrote_a_file(outcome: OutcomeView) -> bool {
    outcome.status == ToolStatus::Succeeded && (outcome.session_metadata.tool == "edit"@
        || outcome.session_metadata.tool == "write"@)
}

/// The progress after a call: what it came to counts, and a file that was written changes
/// the state of all later calls.
pub open spec fn progress_after(
    call: PreparedCall,
    outcome: OutcomeView,
    seen: Seq<SeenRevision>,
    progress: ProgressView,
) -> ProgressView {
    let after = observed(progress, key_of_call(call, outcome, seen, progress));
    if wrote_a_file(outcome) {
        ProgressView { epoch: after.epoch + 1, ..after }
    } else {
        after
    }
}

/// What is recorded and shown of a call that ended.
pub open spec fn closing(
    source: ToolCallView,
    index: usize,
    outcome: OutcomeView,
    plan: Option<PlanView>,
) -> Seq<ToolActionView> {
    let succeeded = outcome.status == ToolStatus::Succeeded;
    let plans = source.name == "update_plan"@;
    (if succeeded && plans && plan is Some {
        seq![
            ToolActionView::Append(SessionEventView::PlanReplaced { plan: plan->0 }),
            ToolActionView::Sync,
            ToolActionView::Emit(LiveEventView::PlanUpdated { plan: plan->0 }),
        ]
    } else {
        Seq::empty()
    }) + seq![ToolActionView::Complete { call_id: source.call_id, outcome }] + (if succeeded {
        seq![ToolActionView::RemoveBackup { index }]
    } else {
        Seq::empty()
    }) + (if plans {
        Seq::empty()
    } else {
        seq![
            ToolActionView::Emit(
                LiveEventView::ToolCompleted {
                    call_id: source.call_id,
                    name: source.name,
                    status: outcome.status,
                    duration_ms: outcome.model_payload.duration_ms,
                    exit_code: outcome.model_payload.exit_code,
                    output: outcome.model_payload.output,
                    diff: outcome.session_metadata.diff,
                },
            ),
        ]
    })
}

/// The results of the first `n` calls, as the model gets them.
pub open spec fn result_messages(
    calls: Seq<ToolCallView>,
    results: Seq<Option<OutcomeView>>,
    n: int,
) -> Seq<ChatMessageView>
    decreases n,
{
    if n <= 0 {
        Seq::empty()
    } else {
        let before = result_messages(calls, results, n - 1);
        match results[n - 1] {
            Some(outcome) => before.push(result_message(calls[n - 1], outcome)),
            None => before,
        }
    }
}

/// Where every call of a batch has ended, the model gets one result for each call, in the
/// order of its calls, whatever order they ended in.
pub proof fn every_call_is_answered_in_order(
    calls: Seq<ToolCallView>,
    results: Seq<Option<OutcomeView>>,
    n: int,
)
    requires
        0 <= n <= calls.len(),
        results.len() == calls.len(),
        forall|i: int| 0 <= i < n ==> #[trigger] results[i] is Some,
    ensures
        result_messages(calls, results, n).len() == n,
        forall|i: int|
            0 <= i < n ==> #[trigger] result_messages(calls, results, n)[i] == result_message(
                calls[i],
                results[i]->0,
            ),
    decreases n,
{
    if n > 0 {
        every_call_is_answered_in_order(calls, results, n - 1);
        assert(results[n - 1] is Some);
    }
}

proof fn lemma_stamps(a: Seq<char>, m: int, b: Seq<char>, n: int)
    requires
        0 <= m,
        0 <= n,
        full_stamp(a, m) == full_stamp(b, n),
    ensures
        m == n,
{
    reveal_strlit("|");
    lemma_decimal_digits(m as nat);
    lemma_decimal_digits(n as nat);
    let x = decimal_of(m as nat);
    let y = decimal_of(n as nat);
    let whole = full_stamp(a, m);
    assert(whole.len() == a.len() + 1 + x.len());
    assert(whole.len() == b.len() + 1 + y.len());
    assert(whole[a.len() as int] == '|');
    assert(whole[b.len() as int] == '|');
    if a.len() > b.len() {
        assert(whole[a.len() as int] == y[a.len() - b.len() - 1]);
    } else if b.len() > a.len() {
        assert(whole[b.len() as int] == x[b.len() - a.len() - 1]);
    } else {
        assert(x =~= whole.subrange(a.len() as int + 1, whole.len() as int));
        assert(y =~= whole.subrange(b.len() as int + 1, whole.len() as int));
        lemma_decimal_unique(m as nat, n as nat);
    }
}

/// After a file was written no call is refused for repeating itself.
pub proof fn writing_a_file_is_progress(
    call: PreparedCall,
    outcome: OutcomeView,
    seen: Seq<SeenRevision>,
    progress: ProgressView,
    next: PreparedCall,
    next_seen: Seq<SeenRevision>,
)
    requires
        wrote_a_file(outcome),
        progress.epoch >= 0,
    ensures
        !blocks(
            progress_after(call, outcome, seen, progress),
            next.action_key@,
            call_state(next, next_seen, progress_after(call, outcome, seen, progress)),
        ),
{
    let after = progress_after(call, outcome, seen, progress);
    if call_state(call, seen, progress) == call_state(next, next_seen, after) {
        lemma_stamps(
            stamp_of(call.access, seen),
            progress.epoch,
            stamp_of(next.access, next_seen),
            after.epoch,
        );
    }
}

impl Batch {
    /// Begins a wave: its calls are recorded as asked for and as started, shown, and run.
    /// `recoveries` holds what is needed to recover from each call, `seen` the known
    /// revisions of the files that it names. A call that repeats itself is refused, unless
    /// `max_identical_no_progress` is 0.
    pub fn begin_wave(
        &self,
        wave_index: usize,
        recoveries: &Vec<Option<RecoveryMetadata>>,
        seen: &Vec<Vec<SeenRevision>>,
        progress: &ProgressTracker,
        max_identical_no_progress: u32,
    ) -> (r: Vec<ToolAction>)
        requires
            batch_wf(*self),
            wave_index < self.waves@.len(),
            recoveries@.len() == self.waves@[wave_index as int]@.len(),
            seen@.len() == self.waves@[wave_index as int]@.len(),
        ensures
            ({
                let wave = self.waves@[wave_index as int]@;
                let n = wave.len() as int;
                views(r@) == asked(views(self.calls@), wave, n) + announced(
                    views(self.calls@),
                    wave,
                    recoveries@,
                    n,
                ) + launched(
                    views(self.calls@),
                    wave,
                    seen@,
                    progress@,
                    max_identical_no_progress > 0,
                    n,
                )
            }),
    {
        let mut actions: Vec<ToolAction> = Vec::new();
        let wave = &self.waves[wave_index];
        let count: usize = wave.len();
        let ghost all = views(self.calls@);
        let ghost plan = wave@;
        assert(forall|i: int|
            0 <= i < plan.len() ==> (#[trigger] plan[i]).source_index < self.calls@.len()) by {
            assert forall|i: int| 0 <= i < plan.len() implies (#[trigger] plan[i]).source_index
                < self.calls@.len() by {
                assert(self.waves@[wave_index as int]@[i] == plan[i]);
            }
        }
        assert(views(actions@) =~= asked(all, plan, 0));
        let mut i: usize = 0;
        while i < count
            invariant
                i <= count == plan.len(),
                wave@ == plan,
                all == views(self.calls@),
                forall|k: int|
                    0 <= k < plan.len() ==> (#[trigger] plan[k]).source_index < self.calls@.len(),
                views(actions@) == asked(all, plan, i as int),
            decreases count - i,
        {
            let source: usize = wave[i].source_index;
            let ghost before = views(actions@);
            act(
                &mut actions,
                ToolAction::Append(
                    SessionEvent::ToolRequested { call: self.calls[source].clone() },
                ),
            );
            act(&mut actions, ToolAction::Sync);
            assert(views(actions@) =~= asked(all, plan, i + 1));
            i += 1;
        }
        let ghost first = views(actions@);
        assert(first + announced(all, plan, recoveries@, 0) =~= first);
        let mut i: usize = 0;
        while i < count
            invariant
                i <= count == plan.len() == recoveries@.len(),
                wave@ == plan,
                all == views(self.calls@),
                forall|k: int|
                    0 <= k < plan.len() ==> (#[trigger] plan[k]).source_index < self.calls@.len(),
                views(actions@) == first + announced(all, plan, recoveries@, i as int),
            decreases count - i,
        {
            let call_id = self.calls[wave[i].source_index].call_id;
            let ahead = match &wave[i].kind {
                PreparedKind::Builtin(tool) => tool.requires_write_ahead(),
                PreparedKind::External(_) => false,
            };
            if ahead {
                let recovery = match &recoveries[i] {
                    Some(recovery) => Some(recovery.clone()),
                    None => None,
                };
                act(&mut actions, ToolAction::WriteAhead { call_id, recovery });
            } else {
                act(
                    &mut actions,
                    ToolAction::Append(SessionEvent::ToolStarted { call_id, recovery: None }),
                );
            }
            assert(views(actions@) =~= first + announced(all, plan, recoveries@, i + 1));
            i += 1;
        }
        let ghost second = views(actions@);
        assert(second + launched(
            all,
            plan,
            seen@,
            progress@,
            max_identical_no_progress > 0,
            0,
        ) =~= second);
        let mut i: usize = 0;
        while i < count
            invariant
                i <= count == plan.len() == seen@.len(),
                wave@ == plan,
                all == views(self.calls@),
                forall|k: int|
                    0 <= k < plan.len() ==> (#[trigger] plan[k]).source_index < self.calls@.len(),
                views(actions@) == second + launched(
                    all,
                    plan,
                    seen@,
                    progress@,
                    max_identical_no_progress > 0,
                    i as int,
                ),
            decreases count - i,
        {
            let call = &wave[i];
            let source = &self.calls[call.source_index];
            let stamp = state_stamp_from_ctx(&call.access, &seen[i]);
            let state = state_with_epoch(stamp.as_str(), progress.workspace_epoch());
            let blocked = max_identical_no_progress > 0 && progress.should_block(
                call.action_key.as_str(),
                state.as_str(),
            );
            let name = name_of_kind(&call.kind);
            if !same(name.as_str(), "update_plan") {
                act(
                    &mut actions,
                    ToolAction::Emit(
                        LiveEvent::ToolStarted {
                            call_id: source.call_id,
                            name: source.name.clone(),
                            arguments: source.arguments.clone(),
                        },
                    ),
                );
            }
            if blocked {
                let outcome = repeated_outcome(name.as_str(), call.action_key.as_str());
                act(&mut actions, ToolAction::Answer { index: call.source_index, outcome });
            } else {
                act(&mut actions, ToolAction::Execute { index: call.source_index });
            }
            assert(views(actions@) =~= second + launched(
                all,
                plan,
                seen@,
                progress@,
                max_identical_no_progress > 0,
                i + 1,
            ));
            i += 1;
        }
        actions
    }

    /// Takes in what a call of a wave came to. `seen` holds the known revisions of the files
    /// that it names, `plan` the plan as it is now.
    pub fn finish_call(
        &mut self,
        wave_index: usize,
        position: usize,
        outcome: StoredToolOutcome,
        seen: &Vec<SeenRevision>,
        plan: &Option<Plan>,
        progress: &mut ProgressTracker,
    ) -> (r: Vec<ToolAction>)
        requires
            batch_wf(*old(self)),
            wave_index < old(self).waves@.len(),
            position < old(self).waves@[wave_index as int]@.len(),
            old(progress)@.repeats < u32::MAX,
            old(progress)@.epoch < u64::MAX,
        ensures
            ({
                let call = old(self).waves@[wave_index as int]@[position as int];
                let index = call.source_index as int;
                &&& final(self).calls == old(self).calls
                &&& final(self).waves == old(self).waves
                &&& outcomes(final(self).results@) == outcomes(old(self).results@).update(
                    index,
                    Some(outcome@),
                )
                &&& final(progress)@ == progress_after(call, outcome@, seen@, old(progress)@)
                &&& views(r@) == closing(
                    old(self).calls@[index]@,
                    call.source_index,
                    outcome@,
                    opt_view(*plan),
                )
                &&& batch_wf(*final(self))
            }),
    {
        let mut actions: Vec<ToolAction> = Vec::new();
        assert(views(actions@) =~= Seq::<ToolActionView>::empty());
        let call = &self.waves[wave_index][position];
        assert(call.source_index < self.calls@.len());
        let index: usize = call.source_index;
        let source = &self.calls[index];
        let observation = stable_observation(
            outcome.session_metadata.tool.as_str(),
            outcome.status_name(),
            outcome.model_payload.output.as_str(),
        );
        let stamp = state_stamp_from_ctx(&call.access, seen);
        let state = state_with_epoch(stamp.as_str(), progress.workspace_epoch());
        progress.observe(call.action_key.as_str(), observation.as_str(), state.as_str());
        let succeeded = backup_cleanup_allowed(outcome.status);
        let plans = same(source.name.as_str(), "update_plan");
        if succeeded && plans {
            if let Some(plan) = plan {
                act(
                    &mut actions,
                    ToolAction::Append(SessionEvent::PlanReplaced { plan: plan.clone() }),
                );
                act(&mut actions, ToolAction::Sync);
                act(
                    &mut actions,
                    ToolAction::Emit(LiveEvent::PlanUpdated { plan: plan.clone() }),
                );
            }
        }
        if succeeded && (same(outcome.session_metadata.tool.as_str(), "edit") || same(
            outcome.session_metadata.tool.as_str(),
            "write",
        )) {
            progress.bump_workspace_epoch();
        }
        act(
            &mut actions,
            ToolAction::Complete { call_id: source.call_id, outcome: outcome.clone() },
        );
        if succeeded {
            act(&mut actions, ToolAction::RemoveBackup { index });
        }
        if !plans {
            act(
                &mut actions,
                ToolAction::Emit(
                    LiveEvent::ToolCompleted {
                        call_id: source.call_id,
                        name: source.name.clone(),
                        status: outcome.status,
                        duration_ms: outcome.model_payload.duration_ms,
                        exit_code: outcome.model_payload.exit_code,
                        output: outcome.model_payload.output.clone(),
                        diff: clone_text(&outcome.session_metadata.diff),
                    },
                ),
            );
        }
        assert(views(actions@) =~= closing(source@, index, outcome@, opt_view(*plan)));
        let ghost before = self.results@;
        self.results.set(index, Some(outcome));
        assert(outcomes(self.results@) =~= outcomes(before).update(index as int, Some(outcome@)));
        actions
    }

    /// The results of the calls, as the model gets them: in the order of the calls.
    pub fn messages(&self) -> (r: Vec<ChatMessage>)
        requires
            batch_wf(*self),
        ensures
            views(r@) == result_messages(
                views(self.calls@),
                outcomes(self.results@),
                self.calls@.len() as int,
            ),
    {
        let mut messages: Vec<ChatMessage> = Vec::new();
        let ghost all = views(self.calls@);
        let ghost known = outcomes(self.results@);
        assert(views(messages@) =~= result_messages(all, known, 0));
        let mut i: usize = 0;
        while i < self.calls.len()
            invariant
                i <= self.calls@.len() == self.results@.len(),
                all == views(self.calls@),
                known == outcomes(self.results@),
                views(messages@) == result_messages(all, known, i as int),
            decreases self.calls@.len() - i,
        {
            assert(all[i as int] == self.calls@[i as int]@);
            assert(known[i as int] == opt_view(self.results@[i as int]));
            if let Some(outcome) = &self.results[i] {
                let message = tool_result_message(&self.calls[i], outcome);
                proof {
                    views_push(messages@, message);
                }
                messages.push(message);
            }
            i += 1;
        }
        messages
    }
}

} // verus!
