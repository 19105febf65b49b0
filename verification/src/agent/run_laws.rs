//! What holds of every run.
use crate::agent::add_usage;
use crate::agent::compaction::CompactionFailureView;
use crate::agent::prompt::with_plan;
use crate::agent::run::batched;
use crate::agent::run::cancel_reason;
use crate::agent::run::cancelled;
use crate::agent::run::cause_of;
use crate::agent::run::committed;
use crate::agent::run::committing;
use crate::agent::run::compacted;
use crate::agent::run::compacted_manually;
use crate::agent::run::completed;
use crate::agent::run::ended;
use crate::agent::run::ending;
use crate::agent::run::failed;
use crate::agent::run::finish_completion;
use crate::agent::run::instruction_of;
use crate::agent::run::interrupted;
use crate::agent::run::joined;
use crate::agent::run::joining;
use crate::agent::run::opening;
use crate::agent::run::question_text;
use crate::agent::run::retry_of;
use crate::agent::run::run_wf;
use crate::agent::run::sending;
use crate::agent::run::sent;
use crate::agent::run::started;
use crate::agent::run::streamed;
use crate::agent::run::turned;
use crate::agent::run::AwaitingView;
use crate::agent::run::BatchEnd;
use crate::agent::run::Phase;
use crate::agent::run::Retry;
use crate::agent::run::RunActionView;
use crate::agent::run::RunConfig;
use crate::agent::run::RunView;
use crate::agent::run::Step;
use crate::agent::run::FINAL_TURN_INSTRUCTION;
use crate::agent::run::MAX_STREAM_RECOVERIES;
use crate::agent::run::MAX_TURN_RESTARTS;
use crate::agent::LiveEventView;
use crate::agent::RunFailureView;
use crate::bytes::lemma_encode_concat;
use crate::context::pruned_messages;
use crate::ids::RequestId;
use crate::ids::ToolCallId;
use crate::message::ChatMessageView;
use crate::message::ToolDefView;
use crate::plan::PlanView;
use crate::provider::provider_error_text;
use crate::provider::ProviderError;
use crate::provider::ProviderEventView;
use crate::provider::ProviderResponseView;
use crate::replay::conversation_of;
use crate::replay::events_only_add;
use crate::replay::summaries_are_of_the_past;
use crate::session::CompletionReason;
use crate::session::SessionEventView;
use crate::session::Usage;
use crate::text::has_prefix;
use crate::text::has_suffix;
use vstd::prelude::*;
use vstd::string::*;
use vstd::utf8::*;

verus! {

/// Something that happens to a run.
pub enum Happening {
    Turn { request_id: RequestId },
    Compaction {
        result: Result<Seq<ChatMessageView>, CompactionFailureView>,
        usage: Usage,
        plan: Option<PlanView>,
        call_id: ToolCallId,
    },
    Event(ProviderEventView),
    Failure { error: ProviderError, cause: u8 },
    Response(ProviderResponseView),
    Batch { end: BatchEnd, results: Seq<ChatMessageView>, usage: Usage },
}

/// Whether a run waits for such a thing.
pub open spec fn awaits(run: RunView, happening: Happening) -> bool {
    match happening {
        Happening::Turn { request_id } => run.phase == Phase::BetweenTurns && run.turn < u32::MAX,
        Happening::Compaction { result, usage, plan, call_id } => run.phase
            == Phase::CompactingManually || run.phase == Phase::Compacting,
        Happening::Event(event) => run.phase == Phase::Streaming,
        Happening::Failure { error, cause } => run.phase == Phase::Streaming,
        Happening::Response(response) => run.phase == Phase::Streaming,
        Happening::Batch { end, results, usage } => run.phase == Phase::RunningTools,
    }
}

/// What a run does when something happens.
pub open spec fn step_of(run: RunView, happening: Happening) -> Step {
    match happening {
        Happening::Turn { request_id } => turned(run, request_id),
        Happening::Compaction { result, usage, plan, call_id } => if run.phase
            == Phase::CompactingManually {
            compacted_manually(run, result, usage, plan, call_id)
        } else {
            compacted(run, result, usage, plan, call_id)
        },
        Happening::Event(event) => streamed(run, event),
        Happening::Failure { error, cause } => failed(run, error, cause),
        Happening::Response(response) => completed(run, response),
        Happening::Batch { end, results, usage } => batched(run, end, results, usage),
    }
}

/// Whether a run waits for each of a series of things when it comes.
pub open spec fn follows(run: RunView, happenings: Seq<Happening>) -> bool
    decreases happenings.len(),
{
    happenings.len() == 0 || {
        &&& follows(run, happenings.drop_last())
        &&& awaits(course(run, happenings.drop_last()).run, happenings.last())
    }
}

/// What a run does in a series of steps.
pub open spec fn course(run: RunView, happenings: Seq<Happening>) -> Step
    decreases happenings.len(),
{
    if happenings.len() == 0 {
        Step { run, actions: Seq::empty() }
    } else {
        let before = course(run, happenings.drop_last());
        let last = step_of(before.run, happenings.last());
        Step { run: last.run, actions: before.actions + last.actions }
    }
}

/// Whether an action ends the run in the session.
pub open spec fn ends(action: RunActionView) -> bool {
    action is CommitTerminal
}

/// How many actions end the run in the session.
pub open spec fn endings(actions: Seq<RunActionView>) -> nat
    decreases actions.len(),
{
    if actions.len() == 0 {
        0
    } else {
        endings(actions.drop_last()) + if ends(actions.last()) {
            1nat
        } else {
            0nat
        }
    }
}

/// Whether a run is over.
pub open spec fn is_over(run: RunView) -> bool {
    run.phase is Done || run.phase == Phase::Failed
}

/// The message that an action writes to the session, as the conversation holds it.
pub open spec fn written(action: RunActionView) -> Seq<ChatMessageView> {
    match action {
        RunActionView::Commit(
            SessionEventView::AssistantMessageCommitted { content, tool_calls },
        ) => seq![ChatMessageView::Assistant { content, tool_calls }],
        _ => Seq::empty(),
    }
}

/// The messages that actions write to the session.
pub open spec fn all_written(actions: Seq<RunActionView>) -> Seq<ChatMessageView>
    decreases actions.len(),
{
    if actions.len() == 0 {
        Seq::empty()
    } else {
        all_written(actions.drop_last()) + written(actions.last())
    }
}


/// How many endings there are in actions, and which messages they write.
struct Tally {
    endings: nat,
    written: Seq<ChatMessageView>,
}

spec fn tally(actions: Seq<RunActionView>) -> Tally {
    Tally { endings: endings(actions), written: all_written(actions) }
}

spec fn weigh(action: RunActionView) -> Tally {
    Tally {
        endings: if ends(action) {
            1
        } else {
            0
        },
        written: written(action),
    }
}

spec fn together(a: Tally, b: Tally) -> Tally {
    Tally { endings: a.endings + b.endings, written: a.written + b.written }
}

proof fn lemma_push(a: Seq<RunActionView>, x: RunActionView)
    ensures
        tally(a.push(x)) == together(tally(a), weigh(x)),
{
    assert(a.push(x).drop_last() =~= a);
}

proof fn lemma_add(a: Seq<RunActionView>, b: Seq<RunActionView>)
    ensures
        tally(a + b) == together(tally(a), tally(b)),
    decreases b.len(),
{
    if b.len() == 0 {
        assert(a + b =~= a);
        assert(all_written(a) + all_written(b) =~= all_written(a));
    } else {
        assert((a + b).drop_last() =~= a + b.drop_last());
        assert((a + b).last() == b.last());
        lemma_add(a, b.drop_last());
        assert(all_written(a + b) =~= all_written(a) + all_written(b));
    }
}

spec fn nothing() -> Tally {
    Tally { endings: 0, written: Seq::empty() }
}

proof fn lemma_one(x: RunActionView)
    ensures
        tally(seq![x]) == weigh(x),
{
    let none = Seq::<RunActionView>::empty();
    assert(seq![x] =~= none.push(x));
    lemma_push(none, x);
    assert(all_written(none) + written(x) =~= written(x));
}

proof fn lemma_two(x: RunActionView, y: RunActionView)
    ensures
        tally(seq![x, y]) == together(weigh(x), weigh(y)),
{
    assert(seq![x, y] =~= seq![x].push(y));
    lemma_one(x);
    lemma_push(seq![x], y);
}

proof fn lemma_sent(run: RunView, actions: Seq<RunActionView>)
    ensures
        tally(sent(run, actions).actions) == tally(actions),
        sent(run, actions).run.phase == Phase::Streaming,
        sent(run, actions).run.messages == run.messages,
{
    lemma_add(actions, sending(run));
    let none = Seq::<RunActionView>::empty();
    let send = RunActionView::Send { ephemeral: instruction_of(run) };
    match run.config.context_window {
        Some(window) => {
            let told = sending(run).drop_last();
            assert(sending(run) =~= told.push(send));
            assert(told =~= seq![told[0]]);
            lemma_one(told[0]);
            lemma_push(told, send);
        },
        None => {
            lemma_push(none, send);
            assert(sending(run) =~= none.push(send));
        },
    }
    assert(tally(sending(run)).written =~= Seq::<ChatMessageView>::empty());
    assert(together(tally(actions), tally(sending(run))).written =~= tally(actions).written);
}

proof fn lemma_ended(run: RunView, actions: Seq<RunActionView>, reason: CompletionReason)
    ensures
        tally(ended(run, actions, reason).actions) == together(
            tally(actions),
            Tally { endings: 1, written: Seq::empty() },
        ),
        says_its_end(ended(run, actions, reason)),
        ended(run, actions, reason).run.messages == run.messages,
        ended(run, actions, reason).run.phase is Done,
{
    let tail = ending(reason, run.usage);
    lemma_add(actions, tail);
    lemma_two(tail[0], tail[1]);
    assert(tail =~= seq![tail[0], tail[1]]);
    assert(written(tail[0]) + written(tail[1]) =~= Seq::<ChatMessageView>::empty());
}

/// Whether the last thing but one that a step does is to end the run in the session, with
/// the reason and the usage of the run.
pub open spec fn says_its_end(step: Step) -> bool {
    &&& step.run.phase is Done
    &&& step.actions.len() >= 2
    &&& step.actions[step.actions.len() - 2] == RunActionView::CommitTerminal(
        step.run.phase->Done_0,
        step.run.usage,
    )
}

/// Whether a step ends the run in the session as often as it should.
pub open spec fn ends_well(step: Step) -> bool {
    &&& endings(step.actions) <= 1
    &&& !is_over(step.run) ==> endings(step.actions) == 0
    &&& step.run.phase is Done ==> endings(step.actions) == 1 && says_its_end(step)
}

proof fn lemma_joining(run: RunView)
    ensures
        tally(joining(run)) == nothing(),
{
    if joining(run).len() > 0 {
        lemma_one(joining(run)[0]);
        assert(joining(run) =~= seq![joining(run)[0]]);
    }
}

proof fn lemma_turned(run: RunView, request_id: RequestId)
    ensures
        ends_well(turned(run, request_id)),
{
    let none = Seq::<RunActionView>::empty();
    lemma_ended(run, none, CompletionReason::MaxTurns);
    let step = turned(run, request_id);
    if !(run.config.max_model_turns > 0 && run.turn >= run.config.max_model_turns) {
        let begun = seq![
            RunActionView::Emit(LiveEventView::StepStarted { step: (run.turn + 1) as u32 }),
        ];
        lemma_one(begun[0]);
        lemma_push(begun, RunActionView::Compact);
        let next = RunView {
            turn: (run.turn + 1) as u32,
            request_id,
            stream_recoveries: 0,
            turn_restarts: 0,
            content: Seq::empty(),
            recovery_content: Seq::empty(),
            saw_any_semantic: false,
            saw_tool_calls: false,
            ..run
        };
        lemma_sent(next, begun);
    }
}

proof fn lemma_compacted(
    run: RunView,
    result: Result<Seq<ChatMessageView>, CompactionFailureView>,
    usage: Usage,
    plan: Option<PlanView>,
    call_id: ToolCallId,
)
    ensures
        ends_well(compacted(run, result, usage, plan, call_id)),
        ends_well(compacted_manually(run, result, usage, plan, call_id)),
{
    let none = Seq::<RunActionView>::empty();
    let manual = compacted_manually(run, result, usage, plan, call_id).actions;
    if manual.len() == 2 {
        lemma_two(manual[0], manual[1]);
        assert(manual =~= seq![manual[0], manual[1]]);
    } else {
        lemma_one(manual[0]);
        assert(manual =~= seq![manual[0]]);
    }
    let counted = RunView { usage: add_usage(run.usage, usage), ..run };
    match result {
        Err(CompactionFailureView::Session(error)) => {},
        _ => {
            let smaller = match result {
                Ok(messages) => RunView { messages: with_plan(messages, plan, call_id), ..counted },
                Err(_) => RunView {
                    messages: with_plan(pruned_messages(run.messages), plan, call_id),
                    compaction_failed: true,
                    ..counted
                },
            };
            lemma_ended(smaller, none, CompletionReason::ContextOverflow);
            lemma_sent(smaller, none);
        },
    }
}

proof fn lemma_streamed(run: RunView, event: ProviderEventView)
    requires
        run.phase == Phase::Streaming,
    ensures
        ends_well(streamed(run, event)),
        tally(streamed(run, event).actions) == nothing(),
        streamed(run, event).run.messages == run.messages,
{
    let actions = streamed(run, event).actions;
    if actions.len() > 0 {
        lemma_one(actions[0]);
        assert(actions =~= seq![actions[0]]);
    }
}

proof fn lemma_cancelled(run: RunView, actions: Seq<RunActionView>, cause: u8)
    requires
        tally(actions) == nothing(),
    ensures
        ends_well(cancelled(run, actions, cause)),
        cancelled(run, actions, cause).run.messages == run.messages + all_written(
            cancelled(run, actions, cause).actions,
        ),
{
    let none = Seq::empty();
    lemma_ended(run, actions, cancel_reason(cause));
    lemma_push(actions, committing(run, none));
    lemma_ended(
        committed(run, none),
        actions.push(committing(run, none)),
        cancel_reason(cause),
    );
    assert(cancelled(run, actions, cause).run.messages =~= run.messages + all_written(
        cancelled(run, actions, cause).actions,
    ));
}

proof fn lemma_failed(before: RunView, error: ProviderError, cause: u8)
    ensures
        ends_well(failed(before, error, cause)),
        failed(before, error, cause).run.messages == before.messages + all_written(
            failed(before, error, cause).actions,
        ),
{
    let run = joined(before);
    let shown = joining(before);
    let step = failed(before, error, cause);
    lemma_joining(before);
    if error is Cancelled {
        lemma_cancelled(run, shown, cause);
    } else {
        match retry_of(run, error) {
            Retry::Continue => {
                let kept = interrupted(run, cause_of(error), false);
                let told = RunActionView::Emit(
                    LiveEventView::StreamRecovering {
                        attempt: (run.stream_recoveries + 1) as u32,
                    },
                );
                lemma_push(shown, kept);
                lemma_push(shown.push(kept), told);
                lemma_sent(
                    RunView { stream_recoveries: (run.stream_recoveries + 1) as u32, ..run },
                    shown.push(kept).push(told),
                );
            },
            Retry::RestartTurn => {
                let kept = interrupted(run, cause_of(error), true);
                let told = RunActionView::Emit(
                    LiveEventView::TurnRestarting { attempt: (run.turn_restarts + 1) as u32 },
                );
                lemma_push(shown, kept);
                lemma_push(shown.push(kept), told);
                lemma_sent(
                    RunView {
                        turn_restarts: (run.turn_restarts + 1) as u32,
                        content: Seq::empty(),
                        saw_any_semantic: false,
                        saw_tool_calls: false,
                        ..run
                    },
                    shown.push(kept).push(told),
                );
            },
            Retry::RestartSilent => {
                let told = RunActionView::Emit(
                    LiveEventView::TurnRestarting { attempt: (run.turn_restarts + 1) as u32 },
                );
                lemma_push(shown, told);
                lemma_sent(
                    RunView { turn_restarts: (run.turn_restarts + 1) as u32, ..run },
                    shown.push(told),
                );
            },
            Retry::GiveUp => {
                let kept = interrupted(run, cause_of(error), run.saw_tool_calls);
                lemma_push(shown, kept);
                lemma_ended(
                    RunView { assistant_text: run.content, ..run },
                    shown.push(kept),
                    CompletionReason::ProviderInterrupted,
                );
            },
            Retry::Unavailable => {
                let end = RunActionView::CommitTerminal(
                    CompletionReason::ProviderUnavailable,
                    run.usage,
                );
                let fail = RunActionView::Fail(
                    RunFailureView::Provider(provider_error_text(error@)),
                );
                lemma_push(shown, end);
                lemma_push(shown.push(end), fail);
            },
        }
        assert(step.run.messages =~= before.messages + all_written(step.actions));
    }
}

proof fn lemma_completed(before: RunView, response: ProviderResponseView)
    ensures
        ends_well(completed(before, response)),
        completed(before, response).run.messages == before.messages + all_written(
            completed(before, response).actions,
        ),
{
    let run = RunView { usage: add_usage(before.usage, response.usage), ..joined(before) };
    let shown = joining(before);
    let told = RunActionView::Emit(
        LiveEventView::UsageUpdated {
            input_tokens: response.usage.input_tokens,
            output_tokens: response.usage.output_tokens,
            cache_read_tokens: response.usage.cache_read_tokens,
        },
    );
    let kept = committing(run, response.tool_calls);
    let actions = shown.push(told).push(kept);
    let calls = RunActionView::RunTools(response.tool_calls);
    lemma_joining(before);
    lemma_push(shown, told);
    lemma_push(shown.push(told), kept);
    lemma_push(actions, calls);
    lemma_ended(
        committed(run, response.tool_calls),
        actions,
        finish_completion(response.finish_reason),
    );
    assert(completed(before, response).run.messages =~= before.messages + all_written(
        completed(before, response).actions,
    ));
}

proof fn lemma_batched(
    before: RunView,
    end: BatchEnd,
    results: Seq<ChatMessageView>,
    usage: Usage,
)
    ensures
        ends_well(batched(before, end, results, usage)),
{
    let run = RunView {
        messages: before.messages + results,
        usage: add_usage(before.usage, usage),
        ..before
    };
    let none = Seq::<RunActionView>::empty();
    match end {
        BatchEnd::Continue => {
            lemma_one(RunActionView::NextTurn);
        },
        BatchEnd::BudgetExceeded => {
            lemma_ended(run, none, CompletionReason::MaxToolCalls);
        },
        BatchEnd::SuspendRequested { text, questions } => {
            let asked = RunActionView::Commit(
                SessionEventView::UserInputRequested { prompt: question_text(text@) },
            );
            lemma_one(asked);
            lemma_ended(
                RunView {
                    awaiting_input: Some(
                        AwaitingView { text: question_text(text@), questions },
                    ),
                    ..run
                },
                seq![asked],
                CompletionReason::AwaitingUserInput,
            );
        },
    }
}

/// A step that leaves the run going ends nothing in the session; one that ends the run
/// writes one ending, with the reason and the usage of the run; one that fails writes at
/// most one.
pub proof fn a_step_ends_at_most_once(run: RunView, happening: Happening)
    requires
        awaits(run, happening),
    ensures
        ends_well(step_of(run, happening)),
{
    match happening {
        Happening::Turn { request_id } => lemma_turned(run, request_id),
        Happening::Compaction { result, usage, plan, call_id } => lemma_compacted(
            run,
            result,
            usage,
            plan,
            call_id,
        ),
        Happening::Event(event) => lemma_streamed(run, event),
        Happening::Failure { error, cause } => lemma_failed(run, error, cause),
        Happening::Response(response) => lemma_completed(run, response),
        Happening::Batch { end, results, usage } => lemma_batched(run, end, results, usage),
    }
}

/// Every step keeps the counters of a run within their limits.
pub proof fn limits_are_kept(run: RunView, happening: Happening)
    requires
        run_wf(run),
        awaits(run, happening),
    ensures
        run_wf(step_of(run, happening).run),
{
}

/// However a run goes, it ends in the session at most once, and it does so exactly once
/// where it comes to a regular end; while it goes on it has not ended.
pub proof fn a_run_ends_once(run: RunView, happenings: Seq<Happening>)
    requires
        run_wf(run),
        !is_over(run),
        follows(run, happenings),
    ensures
        run_wf(course(run, happenings).run),
        endings(course(run, happenings).actions) <= 1,
        !is_over(course(run, happenings).run) ==> endings(course(run, happenings).actions) == 0,
        course(run, happenings).run.phase is Done ==> endings(course(run, happenings).actions)
            == 1,
    decreases happenings.len(),
{
    if happenings.len() > 0 {
        let before = course(run, happenings.drop_last());
        a_run_ends_once(run, happenings.drop_last());
        limits_are_kept(before.run, happenings.last());
        a_step_ends_at_most_once(before.run, happenings.last());
        lemma_add(before.actions, step_of(before.run, happenings.last()).actions);
    }
}

/// Once a run is over it waits for nothing more.
pub proof fn nothing_follows_the_end(run: RunView, happening: Happening)
    requires
        is_over(run),
    ensures
        !awaits(run, happening),
{
}

/// Whether an action asks for more work: another request, tools, or another turn.
pub open spec fn works_on(action: RunActionView) -> bool {
    action is Send || action is Compact || action is RunTools || action is NextTurn
}

/// A message without tool calls ends the run; no further request is made.
pub proof fn no_request_follows_an_answer(run: RunView, response: ProviderResponseView)
    requires
        response.tool_calls.len() == 0,
    ensures
        completed(run, response).run.phase is Done,
        forall|i: int|
            0 <= i < completed(run, response).actions.len() ==> !works_on(
                #[trigger] completed(run, response).actions[i],
            ),
{
}

/// What a stream brings into the conversation is what is written to the session, no more
/// and no less: the text of an attempt that broke off never joins the conversation.
pub proof fn conversation_and_session_agree(run: RunView, happening: Happening)
    requires
        run.phase == Phase::Streaming,
        awaits(run, happening),
    ensures
        step_of(run, happening).run.messages == run.messages + all_written(
            step_of(run, happening).actions,
        ),
{
    match happening {
        Happening::Event(event) => {
            lemma_streamed(run, event);
            assert(run.messages =~= run.messages + Seq::<ChatMessageView>::empty());
        },
        Happening::Failure { error, cause } => lemma_failed(run, error, cause),
        Happening::Response(response) => lemma_completed(run, response),
        _ => {},
    }
}

/// What an action writes to the session.
pub open spec fn record_of(action: RunActionView) -> Seq<SessionEventView> {
    match action {
        RunActionView::Commit(event) => seq![event],
        RunActionView::CommitTerminal(reason, usage) => seq![
            SessionEventView::RunCompleted { reason, usage },
        ],
        _ => Seq::empty(),
    }
}

/// What actions write to the session.
pub open spec fn records(actions: Seq<RunActionView>) -> Seq<SessionEventView>
    decreases actions.len(),
{
    if actions.len() == 0 {
        Seq::empty()
    } else {
        records(actions.drop_last()) + record_of(actions.last())
    }
}

/// Whether an action writes nothing that only the events before it explain.
spec fn speaks_for_itself(action: RunActionView) -> bool {
    match action {
        RunActionView::Commit(event) => event is AssistantMessageCommitted
            || event is AssistantAttemptInterrupted,
        _ => true,
    }
}

/// Whether this holds of all actions.
spec fn all_speak(actions: Seq<RunActionView>) -> bool {
    forall|i: int| 0 <= i < actions.len() ==> speaks_for_itself(#[trigger] actions[i])
}

proof fn lemma_failure_speaks(run: RunView, error: ProviderError, cause: u8)
    ensures
        all_speak(failed(run, error, cause).actions),
{
    let now = joined(run);
    let shown = joining(run);
    assert(all_speak(shown));
    let none = Seq::empty();
    let given = ended(now, shown, cancel_reason(cause)).actions;
    assert(all_speak(given));
    let kept = shown.push(committing(now, none));
    assert(all_speak(kept));
    assert(all_speak(ended(committed(now, none), kept, cancel_reason(cause)).actions));
    assert(all_speak(sending(now)));
}

proof fn lemma_response_speaks(run: RunView, response: ProviderResponseView)
    ensures
        all_speak(completed(run, response).actions),
{
    assert(all_speak(joining(run)));
}

proof fn lemma_records(events: Seq<SessionEventView>, actions: Seq<RunActionView>)
    requires
        summaries_are_of_the_past(events),
        all_speak(actions),
    ensures
        summaries_are_of_the_past(events + records(actions)),
        conversation_of(events + records(actions)) == conversation_of(events) + all_written(
            actions,
        ),
    decreases actions.len(),
{
    if actions.len() == 0 {
        assert(events + records(actions) =~= events);
        assert(conversation_of(events) + all_written(actions) =~= conversation_of(events));
    } else {
        let before = events + records(actions.drop_last());
        let last = actions.last();
        assert(actions[actions.len() - 1] == last);
        assert(all_speak(actions.drop_last()));
        lemma_records(events, actions.drop_last());
        if record_of(last).len() > 0 {
            events_only_add(before, record_of(last)[0]);
            assert(events + records(actions) =~= before.push(record_of(last)[0]));
        } else {
            assert(events + records(actions) =~= before);
        }
        assert(conversation_of(events + records(actions)) =~= conversation_of(events)
            + all_written(actions));
    }
}

/// The session is what counts: where the conversation of a run is what the session comes
/// to, it still is after each step of a stream, whatever the stream brings.
pub proof fn the_session_retells_a_stream(
    events: Seq<SessionEventView>,
    run: RunView,
    happening: Happening,
)
    requires
        run.phase == Phase::Streaming,
        awaits(run, happening),
        summaries_are_of_the_past(events),
        run.messages == conversation_of(events),
    ensures
        summaries_are_of_the_past(events + records(step_of(run, happening).actions)),
        step_of(run, happening).run.messages == conversation_of(
            events + records(step_of(run, happening).actions),
        ),
{
    match happening {
        Happening::Event(event) => {},
        Happening::Failure { error, cause } => lemma_failure_speaks(run, error, cause),
        Happening::Response(response) => lemma_response_speaks(run, response),
        _ => {},
    }
    conversation_and_session_agree(run, happening);
    lemma_records(events, step_of(run, happening).actions);
}

/// A run that begins with what the session comes to has the same conversation as the
/// session that knows of its beginning, unless the plan has to be told again.
pub proof fn the_session_retells_a_start(
    events: Seq<SessionEventView>,
    config: RunConfig,
    tools: Seq<ToolDefView>,
    user_message: Seq<char>,
    plan: Option<PlanView>,
    call_id: ToolCallId,
    force_compaction: bool,
)
    requires
        summaries_are_of_the_past(events),
        with_plan(conversation_of(events), plan, call_id) == conversation_of(events),
    ensures
        ({
            let history = conversation_of(events);
            let step = started(config, tools, history, user_message, plan, call_id, force_compaction);
            &&& summaries_are_of_the_past(events + records(step.actions))
            &&& step.run.messages == conversation_of(events + records(step.actions))
        }),
{
    let history = conversation_of(events);
    let step = started(config, tools, history, user_message, plan, call_id, force_compaction);
    let opened = opening(config, user_message);
    let begun = opened.last()->Commit_0;
    let tail = step.actions.skip(opened.len() as int);
    assert(step.actions =~= opened + tail);
    lemma_records_add(opened, tail);
    reveal_with_fuel(records, 3);
    assert(records(tail) =~= Seq::<SessionEventView>::empty()) by {
        assert(tail.len() <= 2);
        if tail.len() == 2 {
            assert(tail.drop_last() =~= seq![tail[0]]);
        }
    }
    assert(opened.drop_last().push(opened.last()) =~= opened);
    if user_message.len() > 0 {
        let said = SessionEventView::UserSubmitted { content: user_message };
        assert(opened.drop_last() =~= seq![RunActionView::Commit(said)]);
        assert(records(opened) =~= seq![said, begun]);
        events_only_add(events, said);
        events_only_add(events.push(said), begun);
        assert(events + records(step.actions) =~= events.push(said).push(begun));
    } else {
        assert(opened.drop_last() =~= Seq::<RunActionView>::empty());
        assert(records(opened) =~= seq![begun]);
        events_only_add(events, begun);
        assert(events + records(step.actions) =~= events.push(begun));
    }
}

proof fn lemma_records_add(a: Seq<RunActionView>, b: Seq<RunActionView>)
    ensures
        records(a + b) == records(a) + records(b),
    decreases b.len(),
{
    if b.len() == 0 {
        assert(a + b =~= a);
        assert(records(a) + records(b) =~= records(a));
    } else {
        assert((a + b).drop_last() =~= a + b.drop_last());
        assert((a + b).last() == b.last());
        lemma_records_add(a, b.drop_last());
        assert(records(a + b) =~= records(a) + records(b));
    }
}

/// A failed stream is sent again only so often in one turn: each time a counter grows, and
/// the counters are bounded.
pub proof fn retries_are_bounded(run: RunView, error: ProviderError, cause: u8)
    requires
        run_wf(run),
    ensures
        ({
            let after = failed(run, error, cause).run;
            &&& after.turn == run.turn
            &&& after.request_id == run.request_id
            &&& after.phase == Phase::Streaming ==> after.stream_recoveries + after.turn_restarts
                == run.stream_recoveries + run.turn_restarts + 1
            &&& after.stream_recoveries + after.turn_restarts <= MAX_STREAM_RECOVERIES
                + MAX_TURN_RESTARTS
        }),
{
}

/// A total of usage never shrinks in a step.
pub proof fn usage_never_shrinks(run: RunView, happening: Happening)
    requires
        awaits(run, happening),
    ensures
        ({
            let after = step_of(run, happening).run.usage;
            &&& after.input_tokens >= run.usage.input_tokens
            &&& after.output_tokens >= run.usage.output_tokens
            &&& after.cache_read_tokens >= run.usage.cache_read_tokens
        }),
{
}

/// In the last turn that a run has, the model is told to come to an end.
pub proof fn the_last_turn_is_announced(run: RunView)
    requires
        run.config.max_model_turns > 0,
        run.turn == run.config.max_model_turns,
    ensures
        instruction_of(run) is Some,
        has_suffix(instruction_of(run)->0, FINAL_TURN_INSTRUCTION@),
{
    let base = crate::agent::run::base_instruction(run);
    if base is Some && base->0.len() > 0 {
        let told = instruction_of(run)->0;
        let last = FINAL_TURN_INSTRUCTION@;
        assert(told.subrange(told.len() - last.len(), told.len() as int) =~= last);
    } else {
        let last = FINAL_TURN_INSTRUCTION@;
        assert(last.subrange(0, last.len() as int) =~= last);
    }
}

/// A run makes no more turns than it may.
pub proof fn turns_are_limited(run: RunView, request_id: RequestId)
    requires
        run_wf(run),
        run.config.max_model_turns > 0,
        run.turn == run.config.max_model_turns,
    ensures
        turned(run, request_id).run.phase == Phase::Done(
            CompletionReason::MaxTurns,
        ),
{
}

/// A continuation that repeats the whole text from its start adds only what is new, and one
/// that repeats a part of it from its start adds nothing. What was shown stays as it was.
pub proof fn a_repetition_is_shown_once(run: RunView)
    requires
        run.stream_recoveries > 0,
        run.recovery_content.len() > 0,
    ensures
        has_prefix(joined(run).content, run.content),
        has_prefix(run.recovery_content, run.content) ==> joined(run).content
            == run.recovery_content,
        has_prefix(run.content, run.recovery_content) ==> joined(run).content == run.content
            || run.content == run.recovery_content,
{
    let existing = run.content;
    let replayed = run.recovery_content;
    let bytes = encode_utf8(replayed);
    assert(joined(run).content.subrange(0, existing.len() as int) =~= existing);
    if has_prefix(replayed, existing) {
        let rest = replayed.subrange(existing.len() as int, replayed.len() as int);
        assert(replayed =~= existing + rest);
        lemma_encode_concat(existing, rest);
        if existing.len() == 0 {
            assert(rest =~= replayed);
            encode_utf8_decode_utf8(replayed);
            assert(bytes.subrange(0, bytes.len() as int) =~= bytes);
            assert(joined(run).content =~= replayed);
        } else {
            let n = encode_utf8(existing).len() as int;
            assert(bytes.subrange(n, bytes.len() as int) =~= encode_utf8(rest));
            encode_utf8_decode_utf8(rest);
            assert(joined(run).content =~= replayed);
        }
    } else if has_prefix(existing, replayed) {
        assert(existing.len() > 0);
        let none = Seq::<char>::empty();
        assert(bytes.subrange(bytes.len() as int, bytes.len() as int) =~= encode_utf8(none));
        encode_utf8_decode_utf8(none);
        assert(joined(run).content =~= existing);
    }
}

} // verus!
