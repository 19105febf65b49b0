//! What holds of a batch of calls and of the session that it is written to.
use crate::agent::scheduler::PreparedCall;
use crate::agent::scheduler::ProgressView;
use crate::agent::scheduler::SeenRevision;
use crate::agent::tool_runtime::announced;
use crate::agent::tool_runtime::asked;
use crate::agent::tool_runtime::closing;
use crate::agent::tool_runtime::early_results;
use crate::agent::tool_runtime::launch;
use crate::agent::tool_runtime::launched;
use crate::agent::tool_runtime::not_run;
use crate::agent::tool_runtime::over_budget;
use crate::agent::tool_runtime::over_budget_outcome;
use crate::agent::tool_runtime::refusal;
use crate::agent::tool_runtime::refusals;
use crate::agent::tool_runtime::rejection;
use crate::agent::tool_runtime::result_message;
use crate::agent::tool_runtime::result_messages;
use crate::agent::tool_runtime::start_record;
use crate::agent::tool_runtime::Lookup;
use crate::agent::tool_runtime::ToolActionView;
use crate::message::ChatMessageView;
use crate::message::ToolCallView;
use crate::ids::ToolCallId;
use crate::outcome::OutcomeView;
use crate::plan::PlanView;
use crate::replay::call_of;
use crate::replay::conversation_of;
use crate::replay::events_only_add;
use crate::replay::summaries_are_of_the_past;
use crate::session::RecoveryMetadata;
use crate::session::SessionEventView;
use crate::text::opt_view;
use vstd::prelude::*;
use vstd::string::*;

verus! {

/// What an action writes to the session.
pub open spec fn tool_record_of(action: ToolActionView) -> Seq<SessionEventView> {
    match action {
        ToolActionView::Append(event) => seq![event],
        ToolActionView::WriteAhead { call_id, recovery } => seq![
            SessionEventView::ToolStarted { call_id, recovery },
        ],
        ToolActionView::Complete { call_id, outcome } => seq![
            SessionEventView::ToolCompleted { call_id, outcome },
        ],
        _ => Seq::empty(),
    }
}

/// What actions write to the session.
pub open spec fn tool_records(actions: Seq<ToolActionView>) -> Seq<SessionEventView>
    decreases actions.len(),
{
    if actions.len() == 0 {
        Seq::empty()
    } else {
        tool_records(actions.drop_last()) + tool_record_of(actions.last())
    }
}

/// The session after some actions.
pub open spec fn session_after(
    events: Seq<SessionEventView>,
    actions: Seq<ToolActionView>,
) -> Seq<SessionEventView> {
    events + tool_records(actions)
}

/// Whether the calls of a wave can be told apart.
pub open spec fn are_told_apart(calls: Seq<ToolCallView>, wave: Seq<PreparedCall>) -> bool {
    forall|i: int, j: int|
        0 <= i < j < wave.len() ==> calls[(#[trigger] wave[i]).source_index as int].call_id
            != calls[(#[trigger] wave[j]).source_index as int].call_id
}

/// What a wave does before its calls run.
pub open spec fn beginning(
    calls: Seq<ToolCallView>,
    wave: Seq<PreparedCall>,
    recoveries: Seq<Option<RecoveryMetadata>>,
    seen: Seq<Vec<SeenRevision>>,
    progress: ProgressView,
    checks_progress: bool,
) -> Seq<ToolActionView> {
    let n = wave.len() as int;
    asked(calls, wave, n) + announced(calls, wave, recoveries, n) + launched(
        calls,
        wave,
        seen,
        progress,
        checks_progress,
        n,
    )
}

/// A call that ended: its position, what it came to, and the plan at that time.
pub struct Ended {
    pub index: usize,
    pub outcome: OutcomeView,
    pub plan: Option<PlanView>,
}

/// What is recorded and shown of calls that ended, one after the other.
pub open spec fn closings(calls: Seq<ToolCallView>, ended: Seq<Ended>) -> Seq<ToolActionView>
    decreases ended.len(),
{
    if ended.len() == 0 {
        Seq::empty()
    } else {
        let last = ended.last();
        closings(calls, ended.drop_last()) + closing(
            calls[last.index as int],
            last.index,
            last.outcome,
            last.plan,
        )
    }
}

/// What calls came to, in the order in which they ended.
pub open spec fn told_as_ended(calls: Seq<ToolCallView>, ended: Seq<Ended>) -> Seq<
    ChatMessageView,
> {
    Seq::new(ended.len(), |i: int| result_message(calls[ended[i].index as int], ended[i].outcome))
}

proof fn lemma_records_add(a: Seq<ToolActionView>, b: Seq<ToolActionView>)
    ensures
        tool_records(a + b) == tool_records(a) + tool_records(b),
    decreases b.len(),
{
    if b.len() == 0 {
        assert(a + b =~= a);
        assert(tool_records(a) + tool_records(b) =~= tool_records(a));
    } else {
        assert((a + b).drop_last() =~= a + b.drop_last());
        assert((a + b).last() == b.last());
        lemma_records_add(a, b.drop_last());
        assert(tool_records(a + b) =~= tool_records(a) + tool_records(b));
    }
}

proof fn lemma_after_both(
    events: Seq<SessionEventView>,
    a: Seq<ToolActionView>,
    b: Seq<ToolActionView>,
)
    ensures
        session_after(events, a + b) == session_after(session_after(events, a), b),
{
    lemma_records_add(a, b);
    assert(session_after(events, a + b) =~= session_after(session_after(events, a), b));
}

proof fn lemma_after_one(events: Seq<SessionEventView>, action: ToolActionView)
    ensures
        session_after(events, seq![action]) == events + tool_record_of(action),
{
    reveal_with_fuel(tool_records, 2);
    assert(seq![action].drop_last() =~= Seq::empty());
    assert(tool_records(seq![action]) =~= tool_record_of(action));
}

/// Whether an action writes nothing that the model is told, nor a call that is asked for.
spec fn is_silent(action: ToolActionView) -> bool {
    match action {
        ToolActionView::Append(event) => event is ToolStarted || event is PlanReplaced,
        ToolActionView::Complete { .. } => false,
        _ => true,
    }
}

/// Whether this holds of all actions.
spec fn are_silent(actions: Seq<ToolActionView>) -> bool {
    forall|i: int| 0 <= i < actions.len() ==> is_silent(#[trigger] actions[i])
}

/// Whether two sessions tell the same, and know the same calls.
spec fn tells_the_same(events: Seq<SessionEventView>, after: Seq<SessionEventView>) -> bool {
    &&& summaries_are_of_the_past(after)
    &&& conversation_of(after) == conversation_of(events)
    &&& forall|id: ToolCallId| #[trigger] call_of(after, id) == call_of(events, id)
}

proof fn lemma_calls_stay(events: Seq<SessionEventView>, event: SessionEventView)
    requires
        !(event is ToolRequested),
    ensures
        forall|id: ToolCallId| #[trigger] call_of(events.push(event), id) == call_of(events, id),
{
    let after = events.push(event);
    assert(after.last() == event);
    assert(after.drop_last() =~= events);
    assert forall|id: ToolCallId| #[trigger] call_of(after, id) == call_of(events, id) by {
        match event {
            SessionEventView::ToolRequested { call } => {},
            _ => {},
        }
    }
}

proof fn lemma_silent(events: Seq<SessionEventView>, actions: Seq<ToolActionView>)
    requires
        summaries_are_of_the_past(events),
        are_silent(actions),
    ensures
        tells_the_same(events, session_after(events, actions)),
    decreases actions.len(),
{
    if actions.len() == 0 {
        assert(session_after(events, actions) =~= events);
    } else {
        let before = session_after(events, actions.drop_last());
        let last = actions.last();
        assert(actions[actions.len() - 1] == last);
        lemma_silent(events, actions.drop_last());
        if tool_record_of(last).len() > 0 {
            let event = tool_record_of(last)[0];
            events_only_add(before, event);
            assert(session_after(events, actions) =~= before.push(event));
            lemma_calls_stay(before, event);
        } else {
            assert(session_after(events, actions) =~= before);
        }
    }
}

/// Whether a session knows the first `n` calls of a wave.
spec fn knows(
    events: Seq<SessionEventView>,
    calls: Seq<ToolCallView>,
    wave: Seq<PreparedCall>,
    n: int,
) -> bool {
    forall|i: int|
        0 <= i < n ==> call_of(
            events,
            calls[(#[trigger] wave[i]).source_index as int].call_id,
        ) == Some(calls[wave[i].source_index as int])
}

proof fn lemma_asked(
    events: Seq<SessionEventView>,
    calls: Seq<ToolCallView>,
    wave: Seq<PreparedCall>,
    n: int,
)
    requires
        summaries_are_of_the_past(events),
        are_told_apart(calls, wave),
        0 <= n <= wave.len(),
    ensures
        summaries_are_of_the_past(session_after(events, asked(calls, wave, n))),
        conversation_of(session_after(events, asked(calls, wave, n))) == conversation_of(events),
        knows(session_after(events, asked(calls, wave, n)), calls, wave, n),
    decreases n,
{
    if n <= 0 {
        assert(session_after(events, asked(calls, wave, n)) =~= events);
    } else {
        let before = session_after(events, asked(calls, wave, n - 1));
        let call = calls[wave[n - 1].source_index as int];
        let event = SessionEventView::ToolRequested { call };
        let one = ToolActionView::Append(event);
        let step = seq![one, ToolActionView::Sync];
        lemma_asked(events, calls, wave, n - 1);
        lemma_after_both(events, asked(calls, wave, n - 1), step);
        assert(step =~= seq![one] + seq![ToolActionView::Sync]);
        lemma_after_both(before, seq![one], seq![ToolActionView::Sync]);
        lemma_after_one(before, one);
        lemma_after_one(before + tool_record_of(one), ToolActionView::Sync);
        let after = before.push(event);
        assert(session_after(events, asked(calls, wave, n)) =~= after);
        events_only_add(before, event);
        assert(after.drop_last() =~= before);
        assert forall|i: int| 0 <= i < n implies call_of(
            after,
            calls[(#[trigger] wave[i]).source_index as int].call_id,
        ) == Some(calls[wave[i].source_index as int]) by {
            if i < n - 1 {
                assert(calls[wave[i].source_index as int].call_id
                    != calls[wave[n - 1].source_index as int].call_id);
            }
        }
    }
}

proof fn lemma_announced(
    calls: Seq<ToolCallView>,
    wave: Seq<PreparedCall>,
    recoveries: Seq<Option<RecoveryMetadata>>,
    n: int,
)
    ensures
        are_silent(announced(calls, wave, recoveries, n)),
    decreases n,
{
    if n > 0 {
        lemma_announced(calls, wave, recoveries, n - 1);
        assert(is_silent(start_record(calls, wave[n - 1], opt_view(recoveries[n - 1]))));
    }
}

proof fn lemma_launched(
    calls: Seq<ToolCallView>,
    wave: Seq<PreparedCall>,
    seen: Seq<Vec<SeenRevision>>,
    progress: ProgressView,
    checks_progress: bool,
    n: int,
)
    ensures
        are_silent(launched(calls, wave, seen, progress, checks_progress, n)),
    decreases n,
{
    if n > 0 {
        lemma_launched(calls, wave, seen, progress, checks_progress, n - 1);
        assert(are_silent(launch(calls, wave[n - 1], seen[n - 1]@, progress, checks_progress)));
    }
}

/// A wave that begins tells the model nothing; the session knows its calls from then on.
pub proof fn a_wave_begins_in_silence(
    events: Seq<SessionEventView>,
    calls: Seq<ToolCallView>,
    wave: Seq<PreparedCall>,
    recoveries: Seq<Option<RecoveryMetadata>>,
    seen: Seq<Vec<SeenRevision>>,
    progress: ProgressView,
    checks_progress: bool,
)
    requires
        summaries_are_of_the_past(events),
        are_told_apart(calls, wave),
    ensures
        ({
            let after = session_after(
                events,
                beginning(calls, wave, recoveries, seen, progress, checks_progress),
            );
            &&& summaries_are_of_the_past(after)
            &&& conversation_of(after) == conversation_of(events)
            &&& forall|i: int|
                0 <= i < wave.len() ==> call_of(
                    after,
                    calls[(#[trigger] wave[i]).source_index as int].call_id,
                ) == Some(calls[wave[i].source_index as int])
        }),
{
    let n = wave.len() as int;
    let first = asked(calls, wave, n);
    let second = announced(calls, wave, recoveries, n);
    let third = launched(calls, wave, seen, progress, checks_progress, n);
    lemma_asked(events, calls, wave, n);
    lemma_announced(calls, wave, recoveries, n);
    lemma_launched(calls, wave, seen, progress, checks_progress, n);
    lemma_after_both(events, first, second);
    lemma_after_both(events, first + second, third);
    let known = session_after(events, first);
    lemma_silent(known, second);
    lemma_silent(session_after(known, second), third);
}

/// A call that ended is told to the model once, at the end of the conversation. The session
/// still knows every call that it knew.
pub proof fn an_ended_call_is_retold(
    events: Seq<SessionEventView>,
    source: ToolCallView,
    index: usize,
    outcome: OutcomeView,
    plan: Option<PlanView>,
)
    requires
        summaries_are_of_the_past(events),
        call_of(events, source.call_id) == Some(source),
    ensures
        ({
            let after = session_after(events, closing(source, index, outcome, plan));
            &&& summaries_are_of_the_past(after)
            &&& conversation_of(after) == conversation_of(events).push(
                result_message(source, outcome),
            )
            &&& forall|id: ToolCallId| #[trigger] call_of(after, id) == call_of(events, id)
        }),
{
    let actions = closing(source, index, outcome, plan);
    let complete = ToolActionView::Complete { call_id: source.call_id, outcome };
    let event = SessionEventView::ToolCompleted { call_id: source.call_id, outcome };
    let k: int = if actions[0] is Complete {
        0
    } else {
        3
    };
    let before = actions.take(k);
    let rest = actions.skip(k + 1);
    assert(actions[k] == complete);
    assert(actions =~= before + seq![complete] + rest);
    assert(are_silent(before));
    assert(are_silent(rest));
    let planned = session_after(events, before);
    lemma_silent(events, before);
    lemma_after_both(events, before, seq![complete]);
    lemma_after_both(events, before + seq![complete], rest);
    lemma_after_one(planned, complete);
    let told = planned.push(event);
    assert(session_after(planned, seq![complete]) =~= told);
    assert(call_of(planned, source.call_id) == Some(source));
    events_only_add(planned, event);
    lemma_calls_stay(planned, event);
    lemma_silent(told, rest);
}

proof fn lemma_closings(events: Seq<SessionEventView>, calls: Seq<ToolCallView>, ended: Seq<Ended>)
    requires
        summaries_are_of_the_past(events),
        forall|i: int|
            0 <= i < ended.len() ==> call_of(
                events,
                calls[(#[trigger] ended[i]).index as int].call_id,
            ) == Some(calls[ended[i].index as int]),
    ensures
        ({
            let after = session_after(events, closings(calls, ended));
            &&& summaries_are_of_the_past(after)
            &&& conversation_of(after) == conversation_of(events) + told_as_ended(calls, ended)
            &&& forall|id: ToolCallId| #[trigger] call_of(after, id) == call_of(events, id)
        }),
    decreases ended.len(),
{
    if ended.len() == 0 {
        assert(session_after(events, closings(calls, ended)) =~= events);
        assert(conversation_of(events) + told_as_ended(calls, ended) =~= conversation_of(events));
    } else {
        let front = ended.drop_last();
        let last = ended.last();
        let source = calls[last.index as int];
        assert(last == ended[ended.len() - 1]);
        assert forall|i: int| 0 <= i < front.len() implies call_of(
            events,
            calls[(#[trigger] front[i]).index as int].call_id,
        ) == Some(calls[front[i].index as int]) by {
            assert(front[i] == ended[i]);
        }
        lemma_closings(events, calls, front);
        let before = session_after(events, closings(calls, front));
        assert(call_of(before, source.call_id) == Some(source));
        an_ended_call_is_retold(before, source, last.index, last.outcome, last.plan);
        lemma_after_both(
            events,
            closings(calls, front),
            closing(source, last.index, last.outcome, last.plan),
        );
        assert(told_as_ended(calls, ended) =~= told_as_ended(calls, front).push(
            result_message(source, last.outcome),
        ));
        assert(conversation_of(events) + told_as_ended(calls, ended) =~= (conversation_of(events)
            + told_as_ended(calls, front)).push(result_message(source, last.outcome)));
    }
}

/// The session retells a wave: whatever its calls do and whatever order they end in, the
/// conversation that the session comes to gains what they came to, in the order in which
/// they ended, and nothing else.
pub proof fn the_session_retells_a_wave(
    events: Seq<SessionEventView>,
    calls: Seq<ToolCallView>,
    wave: Seq<PreparedCall>,
    recoveries: Seq<Option<RecoveryMetadata>>,
    seen: Seq<Vec<SeenRevision>>,
    progress: ProgressView,
    checks_progress: bool,
    ended: Seq<Ended>,
)
    requires
        summaries_are_of_the_past(events),
        are_told_apart(calls, wave),
        forall|i: int|
            0 <= i < ended.len() ==> exists|j: int|
                0 <= j < wave.len() && (#[trigger] wave[j]).source_index == (
                #[trigger] ended[i]).index,
    ensures
        ({
            let begun = beginning(calls, wave, recoveries, seen, progress, checks_progress);
            let after = session_after(events, begun + closings(calls, ended));
            &&& summaries_are_of_the_past(after)
            &&& conversation_of(after) == conversation_of(events) + told_as_ended(calls, ended)
        }),
{
    let begun = beginning(calls, wave, recoveries, seen, progress, checks_progress);
    let started = session_after(events, begun);
    a_wave_begins_in_silence(events, calls, wave, recoveries, seen, progress, checks_progress);
    assert forall|i: int| 0 <= i < ended.len() implies call_of(
        started,
        calls[(#[trigger] ended[i]).index as int].call_id,
    ) == Some(calls[ended[i].index as int]) by {
        let j = choose|j: int|
            0 <= j < wave.len() && (#[trigger] wave[j]).source_index == ended[i].index;
        assert(wave[j].source_index == ended[i].index);
    }
    lemma_closings(started, calls, ended);
    lemma_after_both(events, begun, closings(calls, ended));
}

/// Calls that all end in the order in which they were asked for are told by the session as
/// the model gets their results.
pub proof fn calls_that_end_in_order_are_retold_so(
    calls: Seq<ToolCallView>,
    results: Seq<Option<OutcomeView>>,
    ended: Seq<Ended>,
)
    requires
        results.len() == calls.len() == ended.len(),
        forall|i: int|
            0 <= i < ended.len() ==> (#[trigger] ended[i]).index == i && results[i] == Some(
                ended[i].outcome,
            ),
    ensures
        told_as_ended(calls, ended) == result_messages(calls, results, calls.len() as int),
{
    lemma_in_order(calls, results, ended, calls.len() as int);
    assert(ended.take(calls.len() as int) =~= ended);
}

proof fn lemma_in_order(
    calls: Seq<ToolCallView>,
    results: Seq<Option<OutcomeView>>,
    ended: Seq<Ended>,
    n: int,
)
    requires
        0 <= n <= ended.len(),
        results.len() == calls.len() == ended.len(),
        forall|i: int|
            0 <= i < ended.len() ==> (#[trigger] ended[i]).index == i && results[i] == Some(
                ended[i].outcome,
            ),
    ensures
        told_as_ended(calls, ended.take(n)) == result_messages(calls, results, n),
    decreases n,
{
    if n > 0 {
        lemma_in_order(calls, results, ended, n - 1);
        assert(ended[n - 1].index == n - 1);
        assert(told_as_ended(calls, ended.take(n)) =~= told_as_ended(calls, ended.take(n - 1)).push(
            result_message(calls[n - 1], ended[n - 1].outcome),
        ));
    } else {
        assert(told_as_ended(calls, ended.take(n)) =~= Seq::empty());
    }
}

/// A refused call is told to the model like one that ended, though the session did not know
/// it before.
pub proof fn a_refused_call_is_retold(
    events: Seq<SessionEventView>,
    call: ToolCallView,
    outcome: OutcomeView,
)
    requires
        summaries_are_of_the_past(events),
    ensures
        summaries_are_of_the_past(session_after(events, refusal(call, outcome))),
        conversation_of(session_after(events, refusal(call, outcome))) == conversation_of(
            events,
        ).push(result_message(call, outcome)),
{
    let request = SessionEventView::ToolRequested { call };
    let complete = SessionEventView::ToolCompleted { call_id: call.call_id, outcome };
    let first = ToolActionView::Append(request);
    let second = ToolActionView::Complete { call_id: call.call_id, outcome };
    assert(refusal(call, outcome) =~= seq![first] + seq![second]);
    lemma_after_both(events, seq![first], seq![second]);
    lemma_after_one(events, first);
    let known = events.push(request);
    assert(session_after(events, seq![first]) =~= known);
    lemma_after_one(known, second);
    assert(session_after(known, seq![second]) =~= known.push(complete));
    assert(known.drop_last() =~= events);
    events_only_add(events, request);
    events_only_add(known, complete);
}

/// The session retells the calls of a batch that were refused, in the order of the calls.
pub proof fn the_session_retells_refusals(
    events: Seq<SessionEventView>,
    calls: Seq<ToolCallView>,
    lookups: Seq<Lookup>,
    n: int,
)
    requires
        summaries_are_of_the_past(events),
        0 <= n <= calls.len(),
    ensures
        summaries_are_of_the_past(session_after(events, refusals(calls, lookups, n))),
        conversation_of(session_after(events, refusals(calls, lookups, n))) == conversation_of(
            events,
        ) + result_messages(calls, early_results(calls, lookups), n),
    decreases n,
{
    if n <= 0 {
        assert(session_after(events, refusals(calls, lookups, n)) =~= events);
        assert(conversation_of(events) + result_messages(calls, early_results(calls, lookups), n)
            =~= conversation_of(events));
    } else {
        the_session_retells_refusals(events, calls, lookups, n - 1);
        let before = session_after(events, refusals(calls, lookups, n - 1));
        match rejection(calls[n - 1], lookups[n - 1]) {
            Some(outcome) => {
                a_refused_call_is_retold(before, calls[n - 1], outcome);
                lemma_after_both(
                    events,
                    refusals(calls, lookups, n - 1),
                    refusal(calls[n - 1], outcome),
                );
                assert(conversation_of(events) + result_messages(
                    calls,
                    early_results(calls, lookups),
                    n,
                ) =~= (conversation_of(events) + result_messages(
                    calls,
                    early_results(calls, lookups),
                    n - 1,
                )).push(result_message(calls[n - 1], outcome)));
            },
            None => {},
        }
    }
}

/// What the calls that do not run came to, where the budget reaches for `n` of them.
pub open spec fn budget_results(calls: Seq<ToolCallView>, lookups: Seq<Lookup>, n: int) -> Seq<
    Option<OutcomeView>,
> {
    Seq::new(
        calls.len(),
        |i: int|
            if i < n && rejection(calls[i], lookups[i]) is Some {
                None
            } else {
                Some(over_budget_outcome(calls[i].name))
            },
    )
}

proof fn lemma_not_run(
    events: Seq<SessionEventView>,
    calls: Seq<ToolCallView>,
    lookups: Seq<Lookup>,
    n: int,
    m: int,
)
    requires
        summaries_are_of_the_past(events),
        0 <= m <= calls.len(),
    ensures
        summaries_are_of_the_past(session_after(events, not_run(calls, lookups, n, m))),
        conversation_of(session_after(events, not_run(calls, lookups, n, m))) == conversation_of(
            events,
        ) + result_messages(calls, budget_results(calls, lookups, n), m),
    decreases m,
{
    let results = budget_results(calls, lookups, n);
    if m <= 0 {
        assert(session_after(events, not_run(calls, lookups, n, m)) =~= events);
        assert(conversation_of(events) + result_messages(calls, results, m) =~= conversation_of(
            events,
        ));
    } else {
        lemma_not_run(events, calls, lookups, n, m - 1);
        let first = not_run(calls, lookups, n, m - 1);
        let before = session_after(events, first);
        let call = calls[m - 1];
        let outcome = over_budget_outcome(call.name);
        if !(m - 1 < n && rejection(call, lookups[m - 1]) is Some) {
            a_refused_call_is_retold(before, call, outcome);
            lemma_after_both(events, first, refusal(call, outcome));
            assert(conversation_of(events) + result_messages(calls, results, m) =~= (
            conversation_of(events) + result_messages(calls, results, m - 1)).push(
                result_message(call, outcome),
            ));
        }
    }
}

/// The session retells a batch that the budget does not reach for: each of its calls has a
/// result, so that the conversation can go on.
pub proof fn the_session_retells_a_batch_over_budget(
    events: Seq<SessionEventView>,
    calls: Seq<ToolCallView>,
    lookups: Seq<Lookup>,
    n: int,
)
    requires
        summaries_are_of_the_past(events),
        0 <= n < calls.len() == lookups.len(),
    ensures
        ({
            let after = session_after(events, over_budget(calls, lookups, n));
            let refused = result_messages(calls, early_results(calls, lookups), n);
            let others = result_messages(
                calls,
                budget_results(calls, lookups, n),
                calls.len() as int,
            );
            &&& summaries_are_of_the_past(after)
            &&& conversation_of(after) == conversation_of(events) + refused + others
            &&& refused.len() + others.len() == calls.len()
        }),
{
    let count = calls.len() as int;
    let first = refusals(calls, lookups, n);
    the_session_retells_refusals(events, calls, lookups, n);
    lemma_not_run(session_after(events, first), calls, lookups, n, count);
    lemma_after_both(events, first, not_run(calls, lookups, n, count));
    lemma_result_count(calls, lookups, n, count);
}

proof fn lemma_result_count(calls: Seq<ToolCallView>, lookups: Seq<Lookup>, n: int, m: int)
    requires
        0 <= n < calls.len(),
        0 <= m <= calls.len(),
    ensures
        result_messages(
            calls,
            early_results(calls, lookups),
            if m < n {
                m
            } else {
                n
            },
        ).len() + result_messages(calls, budget_results(calls, lookups, n), m).len() == m,
    decreases m,
{
    if m > 0 {
        lemma_result_count(calls, lookups, n, m - 1);
    }
}

} // verus!
