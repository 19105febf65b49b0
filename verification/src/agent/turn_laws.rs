//! What a turn of a run is for: what the model said is kept, what it asked for is done, and
//! what went wrong is told.

use crate::agent::AgentOutcome;
use crate::agent::DeltaKind;
use crate::agent::LiveEventView;
use crate::agent::RunFailureView;
use crate::agent::compaction::CompactionFailureView;
use crate::agent::run::BatchEnd;
use crate::agent::run::FINAL_TURN_INSTRUCTION;
use crate::agent::run::MANUAL_CONTINUE_INSTRUCTION;
use crate::agent::run::Phase;
use crate::agent::run::RunActionView;
use crate::agent::run::RunConfig;
use crate::agent::run::RunView;
use crate::agent::run::answer_preview;
use crate::agent::run::batched;
use crate::agent::run::comes_to;
use crate::agent::run::compacted;
use crate::agent::run::compacted_manually;
use crate::agent::run::completed;
use crate::agent::run::failed;
use crate::agent::run::instruction_of;
use crate::agent::run::started;
use crate::agent::run::streamed;
use crate::agent::run::turned;
use crate::agent::run_laws::a_repetition_is_shown_once;
use crate::context::message_tokens;
use crate::context::request_tokens;
use crate::context::sat;
use crate::context_laws::a_message_counts_for_its_text;
use crate::context_laws::a_request_counts_for_all_its_parts;
use crate::context_laws::text_of;
use crate::ids::RequestId;
use crate::ids::ToolCallId;
use crate::message::ChatMessageView;
use crate::message::ToolDefView;
use crate::plan::PlanView;
use crate::provider::FinishReason;
use crate::provider::ProviderError;
use crate::provider::ProviderEventView;
use crate::provider::ProviderResponseView;
use crate::session::CompletionReason;
use crate::session::InterruptCause;
use crate::session::SessionEventView;
use crate::session::Usage;
use crate::text::has_prefix;
use crate::text::views;
use vstd::prelude::*;
use vstd::string::*;

verus! {

/// All that a model says in a stream.
pub open spec fn said(events: Seq<ProviderEventView>) -> Seq<char>
    decreases events.len(),
{
    if events.len() == 0 {
        Seq::empty()
    } else {
        said(events.drop_last()) + match events.last() {
            ProviderEventView::TextDelta(text) => text,
            _ => Seq::empty(),
        }
    }
}

/// All that a model thinks in a stream.
pub open spec fn thought(events: Seq<ProviderEventView>) -> Seq<char>
    decreases events.len(),
{
    if events.len() == 0 {
        Seq::empty()
    } else {
        thought(events.drop_last()) + match events.last() {
            ProviderEventView::ReasoningDelta(text) => text,
            _ => Seq::empty(),
        }
    }
}

/// Whether a stream has brought a part of a call.
pub open spec fn calls_for_tools(events: Seq<ProviderEventView>) -> bool {
    exists|i: int|
        0 <= i < events.len() && ((#[trigger] events[i]) is ToolCallStarted
            || events[i] is ToolArgumentsDelta)
}

/// The run after a stream so far.
pub open spec fn heard(run: RunView, events: Seq<ProviderEventView>) -> RunView
    decreases events.len(),
{
    if events.len() == 0 {
        run
    } else {
        streamed(heard(run, events.drop_last()), events.last()).run
    }
}

/// What the run does in a stream so far.
pub open spec fn done_in(run: RunView, events: Seq<ProviderEventView>) -> Seq<RunActionView>
    decreases events.len(),
{
    if events.len() == 0 {
        Seq::empty()
    } else {
        done_in(run, events.drop_last()) + streamed(
            heard(run, events.drop_last()),
            events.last(),
        ).actions
    }
}

/// The text of one kind that actions show for a request.
pub open spec fn shown(actions: Seq<RunActionView>, request: RequestId, kind: DeltaKind) -> Seq<char>
    decreases actions.len(),
{
    if actions.len() == 0 {
        Seq::empty()
    } else {
        shown(actions.drop_last(), request, kind) + match actions.last() {
            RunActionView::Emit(
                LiveEventView::AssistantDelta { request_id, kind: of, text },
            ) => if request_id == request && of == kind {
                text
            } else {
                Seq::empty()
            },
            _ => Seq::empty(),
        }
    }
}

/// What actions write to the session.
pub open spec fn kept(actions: Seq<RunActionView>) -> Seq<SessionEventView>
    decreases actions.len(),
{
    if actions.len() == 0 {
        Seq::empty()
    } else {
        kept(actions.drop_last()) + match actions.last() {
            RunActionView::Commit(event) => seq![event],
            _ => Seq::empty(),
        }
    }
}

proof fn lemma_kept_push(actions: Seq<RunActionView>, action: RunActionView)
    ensures
        kept(actions.push(action)) == kept(actions) + match action {
            RunActionView::Commit(event) => seq![event],
            _ => Seq::empty(),
        },
{
    assert(actions.push(action).drop_last() =~= actions);
}

proof fn lemma_kept_add(a: Seq<RunActionView>, b: Seq<RunActionView>)
    ensures
        kept(a + b) == kept(a) + kept(b),
    decreases b.len(),
{
    if b.len() == 0 {
        assert(a + b =~= a);
        assert(kept(a) + kept(b) =~= kept(a));
    } else {
        assert((a + b).drop_last() =~= a + b.drop_last());
        lemma_kept_add(a, b.drop_last());
        assert(kept(a + b) =~= kept(a) + kept(b));
    }
}

proof fn lemma_kept_none(actions: Seq<RunActionView>)
    requires
        forall|i: int| 0 <= i < actions.len() ==> !((#[trigger] actions[i]) is Commit),
    ensures
        kept(actions) == Seq::<SessionEventView>::empty(),
    decreases actions.len(),
{
    if actions.len() > 0 {
        let rest = actions.drop_last();
        assert forall|i: int| 0 <= i < rest.len() implies !((#[trigger] rest[i]) is Commit) by {
            assert(rest[i] == actions[i]);
        }
        lemma_kept_none(rest);
        assert(!(actions[actions.len() - 1] is Commit));
        assert(kept(actions) =~= Seq::<SessionEventView>::empty());
    }
}

proof fn lemma_shown_add(
    a: Seq<RunActionView>,
    b: Seq<RunActionView>,
    request: RequestId,
    kind: DeltaKind,
)
    ensures
        shown(a + b, request, kind) == shown(a, request, kind) + shown(b, request, kind),
    decreases b.len(),
{
    if b.len() == 0 {
        assert(a + b =~= a);
        assert(shown(a, request, kind) + shown(b, request, kind) =~= shown(a, request, kind));
    } else {
        assert((a + b).drop_last() =~= a + b.drop_last());
        lemma_shown_add(a, b.drop_last(), request, kind);
        assert(shown(a + b, request, kind) =~= shown(a, request, kind) + shown(b, request, kind));
    }
}

proof fn lemma_shown_one(action: RunActionView, request: RequestId, kind: DeltaKind)
    ensures
        shown(seq![action], request, kind) == match action {
            RunActionView::Emit(
                LiveEventView::AssistantDelta { request_id, kind: of, text },
            ) => if request_id == request && of == kind {
                text
            } else {
                Seq::empty()
            },
            _ => Seq::empty(),
        },
{
    assert(seq![action].drop_last() =~= Seq::<RunActionView>::empty());
    assert(seq![action].last() == action);
    assert(shown(seq![action].drop_last(), request, kind) =~= Seq::<char>::empty());
    let own: Seq<char> = match action {
        RunActionView::Emit(
            LiveEventView::AssistantDelta { request_id, kind: of, text },
        ) => if request_id == request && of == kind {
            text
        } else {
            Seq::empty()
        },
        _ => Seq::empty(),
    };
    assert(Seq::<char>::empty() + own =~= own);
}

/// A stream adds up: the text of the turn grows by all that the model says, the calls that
/// come are noticed, and nothing else of the run changes.
pub proof fn a_stream_adds_up(run: RunView, events: Seq<ProviderEventView>)
    requires
        run.stream_recoveries == 0,
    ensures
        ({
            let after = heard(run, events);
            &&& after.content == run.content + said(events)
            &&& after.saw_tool_calls == (run.saw_tool_calls || calls_for_tools(events))
            &&& after == (RunView {
                content: after.content,
                saw_any_semantic: after.saw_any_semantic,
                saw_tool_calls: after.saw_tool_calls,
                ..run
            })
            &&& said(events).len() > 0 || calls_for_tools(events) ==> after.saw_any_semantic
        }),
    decreases events.len(),
{
    if events.len() == 0 {
        assert(run.content + said(events) =~= run.content);
        assert(!calls_for_tools(events));
    } else {
        let rest = events.drop_last();
        a_stream_adds_up(run, rest);
        let before = heard(run, rest);
        let after = heard(run, events);
        let last = events.last();
        assert(after.content =~= run.content + said(events));
        assert(forall|i: int| 0 <= i < rest.len() ==> rest[i] == events[i]);
        assert(events[events.len() - 1] == last);
        if calls_for_tools(rest) {
            let i = choose|i: int|
                0 <= i < rest.len() && ((#[trigger] rest[i]) is ToolCallStarted
                    || rest[i] is ToolArgumentsDelta);
            assert(events[i] == rest[i]);
            assert(calls_for_tools(events));
        }
        if calls_for_tools(events) && !calls_for_tools(rest) {
            let i = choose|i: int|
                0 <= i < events.len() && ((#[trigger] events[i]) is ToolCallStarted
                    || events[i] is ToolArgumentsDelta);
            if i < rest.len() {
                assert(rest[i] == events[i]);
            }
        }
    }
}

/// Whoever watches sees all that the model says and thinks, as it comes.
pub proof fn a_stream_is_shown_as_it_comes(run: RunView, events: Seq<ProviderEventView>)
    requires
        run.stream_recoveries == 0,
    ensures
        shown(done_in(run, events), run.request_id, DeltaKind::Text) == said(events),
        shown(done_in(run, events), run.request_id, DeltaKind::Reasoning) == thought(events),
        kept(done_in(run, events)) == Seq::<SessionEventView>::empty(),
    decreases events.len(),
{
    if events.len() > 0 {
        let rest = events.drop_last();
        a_stream_is_shown_as_it_comes(run, rest);
        a_stream_adds_up(run, rest);
        let more = streamed(heard(run, rest), events.last()).actions;
        lemma_shown_add(done_in(run, rest), more, run.request_id, DeltaKind::Text);
        lemma_shown_add(done_in(run, rest), more, run.request_id, DeltaKind::Reasoning);
        lemma_kept_add(done_in(run, rest), more);
        if more.len() > 0 {
            assert(more =~= seq![more[0]]);
            lemma_shown_one(more[0], run.request_id, DeltaKind::Text);
            lemma_shown_one(more[0], run.request_id, DeltaKind::Reasoning);
        } else {
            assert(more =~= Seq::<RunActionView>::empty());
        }
        lemma_kept_none(more);
        assert(shown(done_in(run, events), run.request_id, DeltaKind::Text) =~= said(events));
        assert(shown(done_in(run, events), run.request_id, DeltaKind::Reasoning) =~= thought(
            events,
        ));
        assert(kept(done_in(run, events)) =~= Seq::<SessionEventView>::empty());
    }
}

/// What is said in a continuation is held back, whole, until it can be joined.
pub proof fn a_continuation_is_held_back(run: RunView, events: Seq<ProviderEventView>)
    requires
        run.stream_recoveries > 0,
    ensures
        ({
            let after = heard(run, events);
            &&& after.recovery_content == run.recovery_content + said(events)
            &&& after.content == run.content
            &&& after.messages == run.messages
            &&& after.stream_recoveries == run.stream_recoveries
            &&& after.request_id == run.request_id
            &&& after.usage == run.usage
            &&& shown(done_in(run, events), run.request_id, DeltaKind::Text)
                == Seq::<char>::empty()
        }),
    decreases events.len(),
{
    if events.len() == 0 {
        assert(run.recovery_content + said(events) =~= run.recovery_content);
    } else {
        let rest = events.drop_last();
        a_continuation_is_held_back(run, rest);
        let more = streamed(heard(run, rest), events.last()).actions;
        lemma_shown_add(done_in(run, rest), more, run.request_id, DeltaKind::Text);
        if more.len() > 0 {
            assert(more =~= seq![more[0]]);
            lemma_shown_one(more[0], run.request_id, DeltaKind::Text);
        } else {
            assert(more =~= Seq::<RunActionView>::empty());
        }
        assert(heard(run, events).recovery_content =~= run.recovery_content + said(events));
        assert(shown(done_in(run, events), run.request_id, DeltaKind::Text) =~= Seq::<
            char,
        >::empty());
    }
}

/// The answer of a turn is kept whole, with or without calls: the conversation grows by one
/// message, which holds all that the model said and all that it asked for, and the session
/// by the same.
pub proof fn an_answer_is_kept_whole(
    run: RunView,
    events: Seq<ProviderEventView>,
    response: ProviderResponseView,
)
    requires
        run.stream_recoveries == 0,
        run.content.len() == 0,
    ensures
        ({
            let step = completed(heard(run, events), response);
            &&& step.run.messages == run.messages.push(
                ChatMessageView::Assistant {
                    content: said(events),
                    tool_calls: response.tool_calls,
                },
            )
            &&& step.run.assistant_text == said(events)
            &&& kept(step.actions) == seq![
                SessionEventView::AssistantMessageCommitted {
                    content: said(events),
                    tool_calls: response.tool_calls,
                },
            ]
        }),
{
    a_stream_adds_up(run, events);
    assert(run.content + said(events) =~= said(events));
    lemma_answer_is_kept(heard(run, events), response);
}

proof fn lemma_answer_is_kept(run: RunView, response: ProviderResponseView)
    requires
        run.stream_recoveries == 0,
    ensures
        ({
            let step = completed(run, response);
            &&& step.run.messages == run.messages.push(
                ChatMessageView::Assistant {
                    content: run.content,
                    tool_calls: response.tool_calls,
                },
            )
            &&& step.run.assistant_text == run.content
            &&& kept(step.actions) == seq![
                SessionEventView::AssistantMessageCommitted {
                    content: run.content,
                    tool_calls: response.tool_calls,
                },
            ]
        }),
{
    let step = completed(run, response);
    let none = Seq::<RunActionView>::empty();
    let event = SessionEventView::AssistantMessageCommitted {
        content: run.content,
        tool_calls: response.tool_calls,
    };
    let usage = step.actions[0];
    let front = none.push(usage).push(RunActionView::Commit(event));
    lemma_kept_push(none, usage);
    lemma_kept_push(none.push(usage), RunActionView::Commit(event));
    assert(kept(none) =~= Seq::<SessionEventView>::empty());
    assert(kept(front) =~= seq![event]);
    let rest = step.actions.skip(2);
    assert(step.actions =~= front + rest);
    lemma_kept_add(front, rest);
    lemma_kept_none(rest);
    assert(kept(step.actions) =~= seq![event]);
}

/// An answer that was continued starts with what was shown of it, and goes on with the
/// continuation: the whole of it where nothing is repeated within 8 bytes.
pub proof fn a_continued_answer_is_kept_whole(run: RunView, response: ProviderResponseView)
    requires
        run.stream_recoveries > 0,
        run.recovery_content.len() > 0,
    ensures
        ({
            let step = completed(run, response);
            let last = step.run.messages.last();
            &&& step.run.messages.drop_last() == run.messages
            &&& last is Assistant
            &&& last->tool_calls == response.tool_calls
            &&& has_prefix(text_of(last), run.content)
            &&& step.run.assistant_text == text_of(last)
            &&& has_prefix(run.recovery_content, run.content) ==> text_of(last)
                == run.recovery_content
            &&& run.content.len() == 0 ==> text_of(last) == run.recovery_content
        }),
{
    let step = completed(run, response);
    a_repetition_is_shown_once(run);
    assert(step.run.messages.drop_last() =~= run.messages);
    if run.content.len() == 0 {
        assert(run.recovery_content.subrange(0, 0) =~= run.content);
    }
}

/// What the model asks for is done, and nothing else: with calls the tools run, just those
/// calls and in their order, and the run goes on; without any it ends, well where the model
/// came to its end.
pub proof fn calls_are_run_and_answers_end(run: RunView, response: ProviderResponseView)
    ensures
        ({
            let step = completed(run, response);
            let n = step.actions.len() as int;
            if response.tool_calls.len() > 0 {
                &&& step.run.phase == Phase::RunningTools
                &&& step.actions[n - 1] == RunActionView::RunTools(response.tool_calls)
                &&& forall|i: int|
                    0 <= i < n - 1 ==> !((#[trigger] step.actions[i]) is RunTools)
                        && !(step.actions[i] is CommitTerminal) && !(step.actions[i] is Finish)
                        && !(step.actions[i] is Send) && !(step.actions[i] is NextTurn)
            } else {
                let reason = match response.finish_reason {
                    FinishReason::Stop => CompletionReason::Stop,
                    _ => CompletionReason::Error,
                };
                &&& step.run.phase == Phase::Done(reason)
                &&& step.actions[n - 1] == RunActionView::Finish(reason)
                &&& step.actions[n - 2] == RunActionView::CommitTerminal(reason, step.run.usage)
                &&& forall|i: int|
                    0 <= i < n - 2 ==> !((#[trigger] step.actions[i]) is RunTools)
                        && !(step.actions[i] is CommitTerminal) && !(step.actions[i] is Finish)
                        && !(step.actions[i] is Send) && !(step.actions[i] is NextTurn)
            }
        }),
{
}

/// What an answer used is added to what the run used, and told.
pub proof fn what_is_used_is_counted(run: RunView, response: ProviderResponseView)
    ensures
        ({
            let step = completed(run, response);
            let after = step.run.usage;
            &&& after.input_tokens == sat(
                run.usage.input_tokens + response.usage.input_tokens as int,
            )
            &&& after.output_tokens == sat(
                run.usage.output_tokens + response.usage.output_tokens as int,
            )
            &&& after.cache_read_tokens == sat(
                run.usage.cache_read_tokens + response.usage.cache_read_tokens as int,
            )
            &&& step.actions.contains(
                RunActionView::Emit(
                    LiveEventView::UsageUpdated {
                        input_tokens: response.usage.input_tokens,
                        output_tokens: response.usage.output_tokens,
                        cache_read_tokens: response.usage.cache_read_tokens,
                    },
                ),
            )
            &&& step.run.turn == run.turn
            &&& step.run.request_id == run.request_id
        }),
{
    let step = completed(run, response);
    let shown = crate::agent::run::joining(run);
    assert(step.actions[shown.len() as int] is Emit);
    assert(step.actions.contains(step.actions[shown.len() as int]));
}

/// The results of a batch join the conversation, and what it used is counted. The run goes
/// on; or it ends, for want of calls or with a question that is never empty.
pub proof fn a_batch_is_answered(
    run: RunView,
    end: BatchEnd,
    results: Seq<ChatMessageView>,
    usage: Usage,
)
    ensures
        ({
            let step = batched(run, end, results, usage);
            let n = step.actions.len() as int;
            &&& step.run.messages == run.messages + results
            &&& step.run.usage.input_tokens == sat(
                run.usage.input_tokens + usage.input_tokens as int,
            )
            &&& step.run.usage.output_tokens == sat(
                run.usage.output_tokens + usage.output_tokens as int,
            )
            &&& step.run.usage.cache_read_tokens == sat(
                run.usage.cache_read_tokens + usage.cache_read_tokens as int,
            )
            &&& match end {
                BatchEnd::Continue => {
                    &&& step.run.phase == Phase::BetweenTurns
                    &&& step.actions == seq![RunActionView::NextTurn]
                    &&& step.run.awaiting_input == run.awaiting_input
                },
                BatchEnd::BudgetExceeded => {
                    &&& step.run.phase == Phase::Done(CompletionReason::MaxToolCalls)
                    &&& step.actions == seq![
                        RunActionView::CommitTerminal(
                            CompletionReason::MaxToolCalls,
                            step.run.usage,
                        ),
                        RunActionView::Finish(CompletionReason::MaxToolCalls),
                    ]
                    &&& step.run.awaiting_input == run.awaiting_input
                },
                BatchEnd::SuspendRequested { text, questions } => {
                    &&& step.run.phase == Phase::Done(CompletionReason::AwaitingUserInput)
                    &&& step.run.awaiting_input is Some
                    &&& step.run.awaiting_input->0.questions == questions
                    &&& step.run.awaiting_input->0.text.len() > 0
                    &&& text@.len() > 0 ==> step.run.awaiting_input->0.text == text@
                    &&& step.actions == seq![
                        RunActionView::Commit(
                            SessionEventView::UserInputRequested {
                                prompt: step.run.awaiting_input->0.text,
                            },
                        ),
                        RunActionView::CommitTerminal(
                            CompletionReason::AwaitingUserInput,
                            step.run.usage,
                        ),
                        RunActionView::Finish(CompletionReason::AwaitingUserInput),
                    ]
                },
            }
        }),
{
    reveal_strlit("请提供你的输入");
    let step = batched(run, end, results, usage);
    match end {
        BatchEnd::Continue => {
            assert(step.actions =~= seq![RunActionView::NextTurn]);
        },
        BatchEnd::BudgetExceeded => {
            assert(step.actions =~= seq![
                RunActionView::CommitTerminal(CompletionReason::MaxToolCalls, step.run.usage),
                RunActionView::Finish(CompletionReason::MaxToolCalls),
            ]);
        },
        BatchEnd::SuspendRequested { text, questions } => {
            assert(step.actions =~= seq![
                RunActionView::Commit(
                    SessionEventView::UserInputRequested {
                        prompt: step.run.awaiting_input->0.text,
                    },
                ),
                RunActionView::CommitTerminal(
                    CompletionReason::AwaitingUserInput,
                    step.run.usage,
                ),
                RunActionView::Finish(CompletionReason::AwaitingUserInput),
            ]);
        },
    }
}

/// The number of tokens that a run may send, for a window: what is left of it beside the
/// answer and the reserve.
pub open spec fn room(config: RunConfig, window: u64) -> int {
    window - (match config.max_output_tokens {
        Some(n) => n as int,
        None => 0,
    }) - config.safety_reserve_tokens
}

/// A turn begins with nothing said, under its own request and the next number, and with the
/// conversation as it stands. It is told; and the conversation is sent, or compacted first
/// where it does not fit into the window and no compaction has failed before.
pub proof fn a_turn_sends_what_fits(run: RunView, request_id: RequestId)
    requires
        run.turn < u32::MAX,
        run.config.max_model_turns == 0 || run.turn < run.config.max_model_turns,
    ensures
        ({
            let step = turned(run, request_id);
            let n = step.actions.len() as int;
            let large = run.config.context_window is Some && !run.compaction_failed && ({
                let needed = request_tokens(
                    run.config.system_prompt@,
                    run.messages,
                    run.tools,
                );
                needed > room(run.config, run.config.context_window->0) && needed > 0
            });
            &&& step.run.turn == run.turn + 1
            &&& step.run.request_id == request_id
            &&& step.run.content.len() == 0
            &&& step.run.stream_recoveries == 0
            &&& step.run.turn_restarts == 0
            &&& !step.run.saw_any_semantic
            &&& !step.run.saw_tool_calls
            &&& step.run.messages == run.messages
            &&& step.run.usage == run.usage
            &&& step.run.tools == run.tools
            &&& step.run.config == run.config
            &&& step.actions[0] == RunActionView::Emit(
                LiveEventView::StepStarted { step: (run.turn + 1) as u32 },
            )
            &&& large ==> step.run.phase == Phase::Compacting && step.actions[n - 1]
                == RunActionView::Compact
            &&& !large ==> step.run.phase == Phase::Streaming && step.actions[n - 1] is Send
            &&& forall|i: int|
                0 < i < n - 1 ==> (#[trigger] step.actions[i]) is Emit
        }),
{
    let step = turned(run, request_id);
    assert(run.config.system_prompt@ + Seq::<char>::empty() =~= run.config.system_prompt@);
    a_request_counts_for_all_its_parts(run.config.system_prompt@, run.messages, run.tools);
}

/// A message that is too long for the window by itself, of whatever kind, brings a
/// compaction before anything is sent.
pub proof fn what_does_not_fit_is_compacted(run: RunView, request_id: RequestId, k: int)
    requires
        run.turn < u32::MAX,
        run.config.max_model_turns == 0 || run.turn < run.config.max_model_turns,
        run.config.context_window is Some,
        !run.compaction_failed,
        0 <= k < run.messages.len(),
        text_of(run.messages[k]).len() > 3 * run.config.context_window->0,
        run.config.context_window->0 < u64::MAX,
    ensures
        turned(run, request_id).run.phase == Phase::Compacting,
        forall|i: int|
            0 <= i < turned(run, request_id).actions.len() ==> !((#[trigger] turned(
                run,
                request_id,
            ).actions[i]) is Send),
{
    a_turn_sends_what_fits(run, request_id);
    a_message_counts_for_its_text(run.messages[k]);
    a_request_counts_for_all_its_parts(run.config.system_prompt@, run.messages, run.tools);
    assert(request_tokens(run.config.system_prompt@, run.messages, run.tools) >= sat(
        message_tokens(run.messages[k]),
    ));
}

/// A run that has made its turns ends with that, and says and sends nothing more.
pub proof fn no_turn_beyond_the_last(run: RunView, request_id: RequestId)
    requires
        run.config.max_model_turns > 0,
        run.turn >= run.config.max_model_turns,
    ensures
        turned(run, request_id).run == (RunView {
            phase: Phase::Done(CompletionReason::MaxTurns),
            ..run
        }),
        turned(run, request_id).actions == seq![
            RunActionView::CommitTerminal(CompletionReason::MaxTurns, run.usage),
            RunActionView::Finish(CompletionReason::MaxTurns),
        ],
{
    assert(turned(run, request_id).actions =~= seq![
        RunActionView::CommitTerminal(CompletionReason::MaxTurns, run.usage),
        RunActionView::Finish(CompletionReason::MaxTurns),
    ]);
}

/// An ordinary turn has no instruction of its own. The last one has, and so has one that
/// goes on with an answer, for the user or after a broken stream.
pub proof fn instructions_are_for_special_turns(run: RunView)
    ensures
        ({
            let last = run.config.max_model_turns > 0 && run.turn == run.config.max_model_turns;
            let continues = run.manual_retry_continuation && run.turn == 1;
            &&& (instruction_of(run) is None) == (!last && !continues && run.stream_recoveries
                == 0)
            &&& !last && continues && run.stream_recoveries == 0 ==> instruction_of(run) == Some(
                MANUAL_CONTINUE_INSTRUCTION@,
            )
            &&& last && !continues && run.stream_recoveries == 0 ==> instruction_of(run) == Some(
                FINAL_TURN_INSTRUCTION@,
            )
        }),
{
}


/// A failure never changes what was used, nor how the conversation began; and it adds to the
/// conversation only where the user cut short an answer that had begun, and then all of it.
pub proof fn a_failure_keeps_what_there_is(run: RunView, error: ProviderError, cause: u8)
    requires
        run.stream_recoveries == 0,
    ensures
        ({
            let step = failed(run, error, cause);
            &&& step.run.usage == run.usage
            &&& step.run.turn == run.turn
            &&& step.run.request_id == run.request_id
            &&& step.run.messages == if error is Cancelled && run.content.len() > 0 {
                run.messages.push(
                    ChatMessageView::Assistant { content: run.content, tool_calls: Seq::empty() },
                )
            } else {
                run.messages
            }
        }),
{
}

/// An answer that the user or the clock cuts short is kept as far as it came, in the
/// conversation and in the session, and the run ends for that reason.
pub proof fn a_cancelled_answer_is_kept(run: RunView, error: ProviderError, cause: u8)
    requires
        error is Cancelled,
        run.stream_recoveries == 0,
    ensures
        ({
            let step = failed(run, error, cause);
            let reason = if cause == 1 {
                CompletionReason::WallTimeExceeded
            } else {
                CompletionReason::Cancelled
            };
            &&& step.run.phase == Phase::Done(reason)
            &&& run.content.len() > 0 ==> step.run.assistant_text == run.content && step.actions
                == seq![
                RunActionView::Commit(
                    SessionEventView::AssistantMessageCommitted {
                        content: run.content,
                        tool_calls: Seq::empty(),
                    },
                ),
                RunActionView::CommitTerminal(reason, run.usage),
                RunActionView::Finish(reason),
            ]
            &&& run.content.len() == 0 ==> step.actions == seq![
                RunActionView::CommitTerminal(reason, run.usage),
                RunActionView::Finish(reason),
            ]
        }),
{
    let step = failed(run, error, cause);
    let reason = if cause == 1 {
        CompletionReason::WallTimeExceeded
    } else {
        CompletionReason::Cancelled
    };
    if run.content.len() > 0 {
        assert(step.actions =~= seq![
            RunActionView::Commit(
                SessionEventView::AssistantMessageCommitted {
                    content: run.content,
                    tool_calls: Seq::empty(),
                },
            ),
            RunActionView::CommitTerminal(reason, run.usage),
            RunActionView::Finish(reason),
        ]);
    } else {
        assert(step.actions =~= seq![
            RunActionView::CommitTerminal(reason, run.usage),
            RunActionView::Finish(reason),
        ]);
    }
}

/// What is to be written where a stream breaks off.
pub open spec fn broken_off(run: RunView, error: ProviderError) -> SessionEventView {
    SessionEventView::AssistantAttemptInterrupted {
        request_id: run.request_id,
        content: run.content,
        cause: match error {
            ProviderError::Protocol(_) => InterruptCause::Protocol,
            ProviderError::RateLimited(_) => InterruptCause::RateLimited,
            ProviderError::Auth(_) => InterruptCause::Auth,
            ProviderError::Cancelled => InterruptCause::Other,
            _ => InterruptCause::Connection,
        },
        saw_tool_calls: run.saw_tool_calls,
    }
}

/// A text that breaks off is written down and goes on from where it stood, up to ten times.
pub proof fn a_broken_text_goes_on(run: RunView, error: ProviderError, cause: u8)
    requires
        error is StreamInterrupted,
        run.recovery_content.len() == 0,
        run.saw_any_semantic,
        !run.saw_tool_calls,
        run.stream_recoveries < 10,
    ensures
        ({
            let step = failed(run, error, cause);
            let n = step.actions.len() as int;
            &&& step.run.phase == Phase::Streaming
            &&& step.run.content == run.content
            &&& step.run.stream_recoveries == run.stream_recoveries + 1
            &&& step.run.turn_restarts == run.turn_restarts
            &&& kept(step.actions) == seq![broken_off(run, error)]
            &&& step.actions.contains(
                RunActionView::Emit(
                    LiveEventView::StreamRecovering {
                        attempt: (run.stream_recoveries + 1) as u32,
                    },
                ),
            )
            &&& step.actions[n - 1] is Send
        }),
{
    let step = failed(run, error, cause);
    lemma_kept_first(step.actions, broken_off(run, error));
    assert(step.actions.contains(step.actions[1]));
}

proof fn lemma_kept_first(actions: Seq<RunActionView>, event: SessionEventView)
    requires
        actions.len() > 0,
        actions[0] == RunActionView::Commit(event),
        forall|i: int| 0 < i < actions.len() ==> !((#[trigger] actions[i]) is Commit),
    ensures
        kept(actions) == seq![event],
{
    let none = Seq::<RunActionView>::empty();
    let front = none.push(actions[0]);
    let rest = actions.skip(1);
    lemma_kept_push(none, actions[0]);
    assert(kept(none) =~= Seq::<SessionEventView>::empty());
    assert(actions =~= front + rest);
    lemma_kept_add(front, rest);
    lemma_kept_none(rest);
    assert(kept(actions) =~= seq![event]);
}

/// A turn that breaks off in the middle of a call is written down and made again from its
/// start, up to ten times: nothing of a call that is not whole is kept.
pub proof fn a_broken_call_is_made_again(run: RunView, error: ProviderError, cause: u8)
    requires
        error is StreamInterrupted,
        run.recovery_content.len() == 0,
        run.saw_tool_calls,
        run.turn_restarts < 10,
    ensures
        ({
            let step = failed(run, error, cause);
            let n = step.actions.len() as int;
            &&& step.run.phase == Phase::Streaming
            &&& step.run.content.len() == 0
            &&& !step.run.saw_tool_calls
            &&& !step.run.saw_any_semantic
            &&& step.run.turn_restarts == run.turn_restarts + 1
            &&& kept(step.actions) == seq![broken_off(run, error)]
            &&& step.actions.contains(
                RunActionView::Emit(
                    LiveEventView::TurnRestarting { attempt: (run.turn_restarts + 1) as u32 },
                ),
            )
            &&& step.actions[n - 1] is Send
        }),
{
    let step = failed(run, error, cause);
    lemma_kept_first(step.actions, broken_off(run, error));
    assert(step.actions.contains(step.actions[1]));
}

/// A turn that failed for the moment before it brought anything is made again, up to ten
/// times, and nothing is written of it.
pub proof fn a_silent_turn_is_made_again(run: RunView, error: ProviderError, cause: u8)
    requires
        error is Connection || error is Http || error is RateLimited,
        run.stream_recoveries == 0,
        !run.saw_any_semantic,
        !run.saw_tool_calls,
        run.turn_restarts < 10,
    ensures
        ({
            let step = failed(run, error, cause);
            let n = step.actions.len() as int;
            &&& step.run.phase == Phase::Streaming
            &&& step.run.turn_restarts == run.turn_restarts + 1
            &&& kept(step.actions) == Seq::<SessionEventView>::empty()
            &&& step.actions[0] == RunActionView::Emit(
                LiveEventView::TurnRestarting { attempt: (run.turn_restarts + 1) as u32 },
            )
            &&& step.actions[n - 1] is Send
        }),
{
    let step = failed(run, error, cause);
    lemma_kept_none(step.actions);
}

/// A request that brought nothing and cannot be made again fails the run, with the error as
/// the reason.
pub proof fn a_hopeless_request_fails_the_run(run: RunView, error: ProviderError, cause: u8)
    requires
        error is Auth || error is Protocol || error is StreamInterrupted,
        run.stream_recoveries == 0,
        !run.saw_any_semantic,
        !run.saw_tool_calls,
    ensures
        ({
            let step = failed(run, error, cause);
            &&& step.run.phase == Phase::Failed
            &&& step.actions == seq![
                RunActionView::CommitTerminal(CompletionReason::ProviderUnavailable, run.usage),
                RunActionView::Fail(
                    RunFailureView::Provider(crate::provider::provider_error_text(error@)),
                ),
            ]
        }),
{
    assert(failed(run, error, cause).actions =~= seq![
        RunActionView::CommitTerminal(CompletionReason::ProviderUnavailable, run.usage),
        RunActionView::Fail(
            RunFailureView::Provider(crate::provider::provider_error_text(error@)),
        ),
    ]);
}

/// An answer that had begun and cannot go on ends the run, with what there is of it.
pub proof fn a_lost_answer_ends_the_run(run: RunView, error: ProviderError, cause: u8)
    requires
        !(error is Cancelled),
        run.recovery_content.len() == 0,
        run.saw_any_semantic,
        !(error is StreamInterrupted) || (!run.saw_tool_calls && run.stream_recoveries >= 10) || (
        run.saw_tool_calls && run.turn_restarts >= 10),
    ensures
        ({
            let step = failed(run, error, cause);
            let reason = CompletionReason::ProviderInterrupted;
            &&& step.run.phase == Phase::Done(reason)
            &&& step.run.assistant_text == run.content
            &&& step.actions == seq![
                RunActionView::Commit(broken_off(run, error)),
                RunActionView::CommitTerminal(reason, run.usage),
                RunActionView::Finish(reason),
            ]
        }),
{
    let reason = CompletionReason::ProviderInterrupted;
    assert(failed(run, error, cause).actions =~= seq![
        RunActionView::Commit(broken_off(run, error)),
        RunActionView::CommitTerminal(reason, run.usage),
        RunActionView::Finish(reason),
    ]);
}

/// A run starts with the history as it stands and what the user says after it, with nothing
/// used and no turn made. What the user says is written down, and then with what model and
/// within what limits the run is made.
pub proof fn a_run_starts_with_the_user(
    config: RunConfig,
    tools: Seq<ToolDefView>,
    history: Seq<ChatMessageView>,
    user_message: Seq<char>,
    plan: Option<PlanView>,
    call_id: ToolCallId,
    force_compaction: bool,
)
    ensures
        ({
            let step = started(
                config,
                tools,
                history,
                user_message,
                plan,
                call_id,
                force_compaction,
            );
            let n = step.actions.len() as int;
            let begun = kept(step.actions).last();
            &&& step.run.turn == 0
            &&& step.run.usage.input_tokens == 0
            &&& step.run.usage.output_tokens == 0
            &&& step.run.usage.cache_read_tokens == 0
            &&& step.run.config == config
            &&& step.run.tools == tools
            &&& step.run.messages.len() >= history.len()
            &&& step.run.messages.take(history.len() as int) == history
            &&& plan is None && user_message.len() == 0 ==> step.run.messages == history
            &&& plan is None && user_message.len() > 0 ==> step.run.messages == history.push(
                ChatMessageView::User(user_message),
            )
            &&& user_message.len() > 0 ==> {
                &&& step.run.messages.last() == ChatMessageView::User(user_message)
                &&& kept(step.actions).len() == 2
                &&& kept(step.actions)[0] == SessionEventView::UserSubmitted {
                    content: user_message,
                }
            }
            &&& user_message.len() == 0 ==> kept(step.actions).len() == 1
            &&& begun is RunStarted
            &&& begun->RunStarted_name == config.model@
            &&& begun->RunStarted_provider == config.provider@
            &&& begun->RunStarted_limits.max_turns == config.max_model_turns
            &&& begun->RunStarted_limits.max_tool_calls == config.max_tool_calls
            &&& !force_compaction || step.run.messages.len() <= 1 ==> step.run.phase
                == Phase::BetweenTurns && step.actions[n - 1] == RunActionView::NextTurn
            &&& force_compaction && step.run.messages.len() > 1 ==> step.run.phase
                == Phase::CompactingManually && step.actions[n - 1] == RunActionView::Compact
        }),
{
    let step = started(config, tools, history, user_message, plan, call_id, force_compaction);
    let none = Seq::<RunActionView>::empty();
    assert(kept(none) =~= Seq::<SessionEventView>::empty());
    let opening = crate::agent::run::opening(config, user_message);
    let rest = step.actions.skip(opening.len() as int);
    assert(step.actions =~= opening + rest);
    lemma_kept_add(opening, rest);
    lemma_kept_none(rest);
    if user_message.len() > 0 {
        assert(opening =~= none.push(opening[0]).push(opening[1]));
        lemma_kept_push(none, opening[0]);
        lemma_kept_push(none.push(opening[0]), opening[1]);
    } else {
        assert(opening =~= none.push(opening[0]));
        lemma_kept_push(none, opening[0]);
    }
    assert(step.run.messages.take(history.len() as int) =~= history);
}

/// The user goes on with an answer by saying nothing, where the last message is an answer
/// that says something; and then only.
pub proof fn saying_nothing_goes_on(
    config: RunConfig,
    tools: Seq<ToolDefView>,
    history: Seq<ChatMessageView>,
    answer: Seq<char>,
    user_message: Seq<char>,
    plan: Option<PlanView>,
    call_id: ToolCallId,
)
    requires
        answer.len() > 0,
        !crate::text::is_white_space(answer[0]),
    ensures
        ({
            let reply = ChatMessageView::Assistant { content: answer, tool_calls: Seq::empty() };
            let goes_on = started(
                config,
                tools,
                history.push(reply),
                user_message,
                plan,
                call_id,
                false,
            ).run.manual_retry_continuation;
            let asked = started(
                config,
                tools,
                history.push(ChatMessageView::User(answer)),
                user_message,
                plan,
                call_id,
                false,
            ).run.manual_retry_continuation;
            &&& goes_on == (user_message.len() == 0)
            &&& !asked
        }),
{
    crate::text::lemma_trim_len(answer);
    lemma_trim_keeps(answer);
}

proof fn lemma_trim_keeps(s: Seq<char>)
    requires
        s.len() > 0,
        !crate::text::is_white_space(s[0]),
    ensures
        crate::text::trim_of(s).len() > 0,
{
    assert(crate::text::trim_start_of(s) == s);
    lemma_trim_end_keeps(s);
}

proof fn lemma_trim_end_keeps(s: Seq<char>)
    requires
        s.len() > 0,
        !crate::text::is_white_space(s[0]),
    ensures
        crate::text::trim_end_of(s).len() > 0,
    decreases s.len(),
{
    if s.len() > 1 {
        lemma_trim_end_keeps(s.drop_last());
    }
}

/// A compaction that the context needs puts its result in the place of the conversation.
/// The turn goes on with it where it fits, and the run ends where it does not.
pub proof fn a_compaction_takes_the_place(
    run: RunView,
    messages: Seq<ChatMessageView>,
    usage: Usage,
    call_id: ToolCallId,
)
    ensures
        ({
            let step = compacted(run, Ok(messages), usage, None, call_id);
            let n = step.actions.len() as int;
            let needed = request_tokens(run.config.system_prompt@, messages, run.tools);
            let large = run.config.context_window is Some && needed > room(
                run.config,
                run.config.context_window->0,
            ) && needed > 0;
            &&& step.run.messages == messages
            &&& step.run.compaction_failed == run.compaction_failed
            &&& step.run.turn == run.turn
            &&& step.run.usage.input_tokens == sat(
                run.usage.input_tokens + usage.input_tokens as int,
            )
            &&& step.run.usage.output_tokens == sat(
                run.usage.output_tokens + usage.output_tokens as int,
            )
            &&& large ==> step.run.phase == Phase::Done(CompletionReason::ContextOverflow)
                && step.actions[n - 1] == RunActionView::Finish(CompletionReason::ContextOverflow)
            &&& !large ==> step.run.phase == Phase::Streaming && step.actions[n - 1] is Send
        }),
{
    assert(run.config.system_prompt@ + Seq::<char>::empty() =~= run.config.system_prompt@);
    a_request_counts_for_all_its_parts(run.config.system_prompt@, messages, run.tools);
}

/// Where a compaction fails, the outputs of tools are pruned in its place, and the run does
/// not try another: no later turn compacts.
pub proof fn a_failed_compaction_is_not_repeated(
    run: RunView,
    failure: CompactionFailureView,
    usage: Usage,
    call_id: ToolCallId,
    request_id: RequestId,
)
    requires
        !(failure is Session),
        run.turn < u32::MAX,
    ensures
        ({
            let step = compacted(run, Err(failure), usage, None, call_id);
            &&& step.run.compaction_failed
            &&& step.run.messages.len() == run.messages.len()
            &&& forall|k: int|
                0 <= k < run.messages.len() && !(run.messages[k] is Tool) ==> (
                #[trigger] step.run.messages[k]) == run.messages[k]
            &&& !(turned(step.run, request_id).run.phase == Phase::Compacting)
        }),
{
}

/// A session that cannot be written fails the run, whatever the compaction was for.
pub proof fn an_unwritten_compaction_fails_the_run(
    run: RunView,
    error: Seq<char>,
    usage: Usage,
    plan: Option<PlanView>,
    call_id: ToolCallId,
)
    ensures
        ({
            let result = Err::<Seq<ChatMessageView>, _>(CompactionFailureView::Session(error));
            let by_need = compacted(run, result, usage, plan, call_id);
            let by_hand = compacted_manually(run, result, usage, plan, call_id);
            &&& by_need.run.phase == Phase::Failed
            &&& by_hand.run.phase == Phase::Failed
            &&& by_need.actions == seq![RunActionView::Fail(RunFailureView::Session(error))]
            &&& by_hand.actions == by_need.actions
            &&& by_need.run.messages == run.messages
            &&& by_hand.run.messages == run.messages
        }),
{
}

/// A compaction that the user asked for puts its result in the place of the conversation, or
/// leaves it as it is where it failed, and says which; the first turn follows.
pub proof fn a_compaction_by_hand_is_told(
    run: RunView,
    result: Result<Seq<ChatMessageView>, CompactionFailureView>,
    usage: Usage,
    call_id: ToolCallId,
)
    requires
        result matches Err(failure) ==> !(failure is Session),
    ensures
        ({
            let step = compacted_manually(run, result, usage, None, call_id);
            &&& step.run.messages == match result {
                Ok(messages) => messages,
                Err(_) => run.messages,
            }
            &&& step.run.phase == Phase::BetweenTurns
            &&& step.run.compaction_failed == run.compaction_failed
            &&& step.run.usage.input_tokens == sat(
                run.usage.input_tokens + usage.input_tokens as int,
            )
            &&& step.actions.len() == 2
            &&& step.actions[0] is Emit
            &&& step.actions[0]->Emit_0 is CompactionNotice
            &&& step.actions[1] == RunActionView::NextTurn
        }),
{
}

/// A run comes to what was said in it, and to the reason it ended for.
pub proof fn what_a_run_comes_to(run: RunView, outcome: AgentOutcome)
    requires
        comes_to(run, outcome),
    ensures
        run.phase is Done,
        run.phase == Phase::Done(outcome.reason),
        views(outcome.messages@) == run.messages,
        outcome.usage == run.usage,
        outcome.assistant_text@ == run.assistant_text,
{
}

/// A short answer is shown whole, and of a long one the first 120 characters.
pub proof fn how_much_of_an_answer_is_shown(raw: Seq<char>)
    ensures
        raw.len() <= 120 ==> answer_preview(raw) == raw,
        raw.len() > 120 ==> answer_preview(raw) == raw.subrange(0, 120) + "…"@,
{
}

} // verus!
