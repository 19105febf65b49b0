//! One run of the agent, as a machine.
//!
//! The machine holds the conversation and decides; whoever drives it talks to the provider,
//! runs the tools and writes the session. Each method takes in what happened and gives the
//! actions to take, in order. The last action of a step says what the machine waits for.
use crate::agent::accumulate_usage;
use crate::agent::add_usage;
use crate::agent::compaction::CompactionFailure;
use crate::agent::compaction::CompactionFailureView;
use crate::agent::interrupt_cause;
use crate::agent::is_transient;
use crate::agent::is_transient_transport_error;
use crate::agent::limits::cancel_reason_for_cause;
use crate::agent::limits::CANCEL_CAUSE_WALL_TIME;
use crate::agent::prompt::paragraph;
use crate::agent::prompt::plan_view;
use crate::agent::prompt::restore_plan;
use crate::agent::prompt::with_plan;
use crate::agent::recoverable_stream_interrupt;
use crate::agent::recovery::overlap_of;
use crate::agent::recovery::recovery_overlap_bytes;
use crate::agent::AgentOutcome;
use crate::agent::AwaitingInput;
use crate::agent::DeltaKind;
use crate::agent::LiveEvent;
use crate::agent::LiveEventView;
use crate::agent::RequestInputQuestion;
use crate::agent::RunFailure;
use crate::agent::RunFailureView;
use crate::context::estimate_request;
use crate::context::monus;
use crate::context::prune_messages;
use crate::context::pruned_messages;
use crate::context::request_tokens;
use crate::context::should_compact;
use crate::context::usable_input;
use crate::ids::RequestId;
use crate::ids::ToolCallId;
use crate::message::clone_calls;
use crate::message::clone_messages;
use crate::message::extend_messages;
use crate::message::ChatMessage;
use crate::message::ChatMessageView;
use crate::message::ToolCall;
use crate::message::ToolCallView;
use crate::message::ToolDef;
use crate::message::ToolDefView;
use crate::plan::Plan;
use crate::plan::PlanView;
use crate::provider::provider_error_text;
use crate::provider::FinishReason;
use crate::provider::ProviderError;
use crate::provider::ProviderEvent;
use crate::provider::ProviderEventView;
use crate::provider::ProviderResponse;
use crate::provider::ProviderResponseView;
use crate::session::AssistantMessage;
use crate::session::CompletionReason;
use crate::session::InterruptCause;
use crate::session::ModelRef;
use crate::session::RunLimits;
use crate::session::SessionEvent;
use crate::session::SessionEventView;
use crate::session::Usage;
use crate::text::debug_string;
use crate::text::debug_text;
use crate::text::owned;
use crate::text::replace;
use crate::text::replace_of;
use crate::text::take;
use crate::text::to_chars;
use crate::text::trim;
use crate::text::trim_of;
use crate::text::views;
use crate::text::views_push;
use vstd::prelude::*;
use vstd::string::*;
use vstd::utf8::*;

verus! {

/// How often the text of one turn is continued after a broken stream.
pub const MAX_STREAM_RECOVERIES: u32 = 10;

/// How often one turn is made again.
pub const MAX_TURN_RESTARTS: u32 = 10;

/// What the model is told in the last turn that it has.
pub const FINAL_TURN_INSTRUCTION: &'static str =
    "这是本次运行的最后一个回合。请不要再调用新的工具，
总结你已完成的工作，并给出剩余待办与建议，然后结束。";

/// What the model is told when it is to continue after a broken stream.
pub const STREAM_RECOVERY_INSTRUCTION: &'static str =
    "The previous assistant generation was interrupted by a transport failure.

Partial assistant output already shown to the user:
---
{partial}
---

Continue the same response from where it was interrupted.
Do not repeat the already emitted text.";

/// What the model is told when the user asks it to go on with an answer that failed.
pub const MANUAL_CONTINUE_INSTRUCTION: &'static str =
    "The previous assistant response did not complete successfully.
Continue it from the exact point where it stopped.
Do not restart, summarize, or repeat text already present in the conversation.";

/// What stays the same for a run.
#[derive(Debug, Clone, PartialEq, Eq)]
pub struct RunConfig {
    pub model: String,
    pub provider: String,
    pub max_output_tokens: Option<u32>,
    pub context_window: Option<u64>,
    pub safety_reserve_tokens: u64,
    /// The number of turns; 0 stands for no limit.
    pub max_model_turns: u32,
    /// The number of tool calls; 0 stands for no limit.
    pub max_tool_calls: u32,
    /// The system prompt, without what is said for one request alone.
    pub system_prompt: String,
}

/// What a run waits for.
#[derive(Debug, Clone, Copy, PartialEq, Eq, Structural)]
pub enum Phase {
    /// The next turn.
    BetweenTurns,
    /// A compaction that the user asked for.
    CompactingManually,
    /// A compaction that the context needs.
    Compacting,
    /// The end of a stream.
    Streaming,
    /// The results of tools.
    RunningTools,
    /// Nothing: the run is over.
    Done(CompletionReason),
    /// Nothing: the run could not be carried on.
    Failed,
}

/// One run.
#[derive(Debug)]
pub struct Run {
    pub config: RunConfig,
    pub tools: Vec<ToolDef>,
    pub messages: Vec<ChatMessage>,
    pub usage: Usage,
    /// The number of the turn, from 1.
    pub turn: u32,
    pub request_id: RequestId,
    /// How often the text of this turn was continued.
    pub stream_recoveries: u32,
    /// How often this turn was made again.
    pub turn_restarts: u32,
    /// The text of this turn so far.
    pub content: String,
    /// The text of a continuation, until it is joined.
    pub recovery_content: String,
    /// Whether this turn has brought text or a tool call.
    pub saw_any_semantic: bool,
    /// Whether this turn has brought a tool call.
    pub saw_tool_calls: bool,
    pub assistant_text: String,
    /// Whether the user asked for an answer to go on.
    pub manual_retry_continuation: bool,
    /// Whether a compaction has failed.
    pub compaction_failed: bool,
    pub awaiting_input: Option<AwaitingInput>,
    pub phase: Phase,
}

/// What a [`Run`] holds.
pub struct RunView {
    pub config: RunConfig,
    pub tools: Seq<ToolDefView>,
    pub messages: Seq<ChatMessageView>,
    pub usage: Usage,
    pub turn: u32,
    pub request_id: RequestId,
    pub stream_recoveries: u32,
    pub turn_restarts: u32,
    pub content: Seq<char>,
    pub recovery_content: Seq<char>,
    pub saw_any_semantic: bool,
    pub saw_tool_calls: bool,
    pub assistant_text: Seq<char>,
    pub manual_retry_continuation: bool,
    pub compaction_failed: bool,
    pub awaiting_input: Option<AwaitingView>,
    pub phase: Phase,
}

/// What the model asks the user: all questions in words, and one by one.
pub struct AwaitingView {
    pub text: Seq<char>,
    pub questions: Vec<RequestInputQuestion>,
}

/// Whether a run comes to an outcome.
pub open spec fn comes_to(run: RunView, outcome: AgentOutcome) -> bool {
    &&& run.phase == Phase::Done(outcome.reason)
    &&& outcome.usage == run.usage
    &&& views(outcome.messages@) == run.messages
    &&& outcome.assistant_text@ == run.assistant_text
}

impl View for Run {
    type V = RunView;

    open spec fn view(&self) -> RunView {
        RunView {
            config: self.config,
            tools: views(self.tools@),
            messages: views(self.messages@),
            usage: self.usage,
            turn: self.turn,
            request_id: self.request_id,
            stream_recoveries: self.stream_recoveries,
            turn_restarts: self.turn_restarts,
            content: self.content@,
            recovery_content: self.recovery_content@,
            saw_any_semantic: self.saw_any_semantic,
            saw_tool_calls: self.saw_tool_calls,
            assistant_text: self.assistant_text@,
            manual_retry_continuation: self.manual_retry_continuation,
            compaction_failed: self.compaction_failed,
            awaiting_input: match self.awaiting_input {
                Some(awaiting) => Some(
                    AwaitingView { text: awaiting.text@, questions: awaiting.questions },
                ),
                None => None,
            },
            phase: self.phase,
        }
    }
}

/// Something for the driver of a run to do.
#[derive(Debug)]
pub enum RunAction {
    /// Write an event to the session.
    Commit(SessionEvent),
    /// Write the event that ends the run to the session.
    CommitTerminal(CompletionReason, Usage),
    /// Show what happens.
    Emit(LiveEvent),
    /// Begin the next turn.
    NextTurn,
    /// Make a compaction.
    Compact,
    /// Send the conversation to the model, with an instruction for this request alone.
    Send { ephemeral: Option<String> },
    /// Run tools.
    RunTools(Vec<ToolCall>),
    /// Give the outcome back.
    Finish(CompletionReason),
    /// Give the failure back.
    Fail(RunFailure),
}

/// What a [`RunAction`] says.
pub enum RunActionView {
    Commit(SessionEventView),
    CommitTerminal(CompletionReason, Usage),
    Emit(LiveEventView),
    NextTurn,
    Compact,
    Send { ephemeral: Option<Seq<char>> },
    RunTools(Seq<ToolCallView>),
    Finish(CompletionReason),
    Fail(RunFailureView),
}

impl View for RunAction {
    type V = RunActionView;

    open spec fn view(&self) -> RunActionView {
        match *self {
            RunAction::Commit(event) => RunActionView::Commit(event@),
            RunAction::CommitTerminal(reason, usage) => RunActionView::CommitTerminal(
                reason,
                usage,
            ),
            RunAction::Emit(event) => RunActionView::Emit(event@),
            RunAction::NextTurn => RunActionView::NextTurn,
            RunAction::Compact => RunActionView::Compact,
            RunAction::Send { ephemeral } => RunActionView::Send {
                ephemeral: crate::text::opt_view(ephemeral),
            },
            RunAction::RunTools(calls) => RunActionView::RunTools(views(calls@)),
            RunAction::Finish(reason) => RunActionView::Finish(reason),
            RunAction::Fail(failure) => RunActionView::Fail(failure@),
        }
    }
}

fn act(actions: &mut Vec<RunAction>, action: RunAction)
    ensures
        views(final(actions)@) == views(old(actions)@).push(action@),
{
    proof {
        views_push(actions@, action);
    }
    actions.push(action);
}

/// A step of the machine: the state after it, and the actions.
pub struct Step {
    pub run: RunView,
    pub actions: Seq<RunActionView>,
}

/// The actions that end a run.
pub open spec fn ending(reason: CompletionReason, usage: Usage) -> Seq<RunActionView> {
    seq![RunActionView::CommitTerminal(reason, usage), RunActionView::Finish(reason)]
}

/// The end of a run.
pub open spec fn ended(run: RunView, actions: Seq<RunActionView>, reason: CompletionReason) -> Step {
    Step {
        run: RunView { phase: Phase::Done(reason), ..run },
        actions: actions + ending(reason, run.usage),
    }
}

/// What the conversation may have of the context.
pub open spec fn usable_of(config: RunConfig, window: u64) -> int {
    monus(
        monus(
            window as int,
            match config.max_output_tokens {
                Some(n) => n as int,
                None => 0,
            },
        ),
        config.safety_reserve_tokens as int,
    )
}

/// How large a request would be.
pub open spec fn projected_of(run: RunView, ephemeral: Option<Seq<char>>) -> int {
    request_tokens(run.config.system_prompt@ + paragraph(ephemeral), run.messages, run.tools)
}

/// The instruction before the one for the last turn.
pub open spec fn base_instruction(run: RunView) -> Option<Seq<char>> {
    if run.stream_recoveries > 0 {
        Some(replace_of(STREAM_RECOVERY_INSTRUCTION@, "{partial}"@, run.content))
    } else if run.manual_retry_continuation && run.turn == 1 {
        Some(MANUAL_CONTINUE_INSTRUCTION@)
    } else {
        None
    }
}

/// The instruction for the next request alone: to continue after a broken stream, to go on
/// with an answer, and to come to an end in the last turn.
pub open spec fn instruction_of(run: RunView) -> Option<Seq<char>> {
    let base = base_instruction(run);
    if run.config.max_model_turns > 0 && run.turn == run.config.max_model_turns {
        match base {
            Some(text) => if text.len() == 0 {
                Some(FINAL_TURN_INSTRUCTION@)
            } else {
                Some(text + "\n\n"@ + FINAL_TURN_INSTRUCTION@)
            },
            None => Some(FINAL_TURN_INSTRUCTION@),
        }
    } else {
        base
    }
}

/// The actions that send a request: how full the context is, where its size is known, and
/// the request.
pub open spec fn sending(run: RunView) -> Seq<RunActionView> {
    (match run.config.context_window {
        Some(window) => seq![
            RunActionView::Emit(
                LiveEventView::ContextUsage {
                    projected: projected_of(run, instruction_of(run)) as u64,
                    usable: usable_of(run.config, window) as u64,
                },
            ),
        ],
        None => Seq::empty(),
    }).push(RunActionView::Send { ephemeral: instruction_of(run) })
}

/// A request is sent.
pub open spec fn sent(run: RunView, actions: Seq<RunActionView>) -> Step {
    Step {
        run: RunView { phase: Phase::Streaming, recovery_content: Seq::empty(), ..run },
        actions: actions + sending(run),
    }
}

/// Whether the user asks for an answer to go on: there is no new message, and the last
/// thing said was said by the model.
pub open spec fn continues_answer(history: Seq<ChatMessageView>, user_message: Seq<char>) -> bool {
    &&& user_message.len() == 0
    &&& history.len() > 0
    &&& history.last() matches ChatMessageView::Assistant { content, tool_calls }
    &&& trim_of(content).len() > 0
}

/// The events that begin a run.
pub open spec fn opening(config: RunConfig, user_message: Seq<char>) -> Seq<RunActionView> {
    (if user_message.len() > 0 {
        seq![RunActionView::Commit(SessionEventView::UserSubmitted { content: user_message })]
    } else {
        Seq::empty()
    }).push(
        RunActionView::Commit(
            SessionEventView::RunStarted {
                name: config.model@,
                provider: config.provider@,
                limits: RunLimits {
                    max_turns: config.max_model_turns,
                    max_tool_calls: config.max_tool_calls,
                },
            },
        ),
    )
}

/// The conversation at the start of a run.
pub open spec fn opening_messages(
    history: Seq<ChatMessageView>,
    user_message: Seq<char>,
    plan: Option<PlanView>,
    call_id: ToolCallId,
) -> Seq<ChatMessageView> {
    let restored = with_plan(history, plan, call_id);
    if user_message.len() > 0 {
        restored.push(ChatMessageView::User(user_message))
    } else {
        restored
    }
}

/// A notice about a compaction.
pub open spec fn notice(message: Seq<char>) -> RunActionView {
    RunActionView::Emit(LiveEventView::CompactionNotice { message })
}

/// The start of a run.
pub open spec fn started(
    config: RunConfig,
    tools: Seq<ToolDefView>,
    history: Seq<ChatMessageView>,
    user_message: Seq<char>,
    plan: Option<PlanView>,
    call_id: ToolCallId,
    force_compaction: bool,
) -> Step {
    let messages = opening_messages(history, user_message, plan, call_id);
    let compacts = force_compaction && messages.len() > 1;
    Step {
        run: RunView {
            config,
            tools,
            messages,
            usage: Usage { input_tokens: 0, output_tokens: 0, cache_read_tokens: 0 },
            turn: 0,
            request_id: RequestId(0),
            stream_recoveries: 0,
            turn_restarts: 0,
            content: Seq::empty(),
            recovery_content: Seq::empty(),
            saw_any_semantic: false,
            saw_tool_calls: false,
            assistant_text: Seq::empty(),
            manual_retry_continuation: continues_answer(history, user_message),
            compaction_failed: false,
            awaiting_input: None,
            phase: if compacts {
                Phase::CompactingManually
            } else {
                Phase::BetweenTurns
            },
        },
        actions: opening(config, user_message) + (if compacts {
            seq![RunActionView::Compact]
        } else if force_compaction {
            seq![
                notice("手动压缩未生效：没有可压缩的历史（当前对话过短）"@),
                RunActionView::NextTurn,
            ]
        } else {
            seq![RunActionView::NextTurn]
        }),
    }
}

/// Whether the context has to be compacted before the next request.
pub open spec fn needs_compaction(run: RunView) -> bool {
    match run.config.context_window {
        Some(window) => projected_of(run, None) > usable_of(run.config, window)
            && !run.compaction_failed,
        None => false,
    }
}

/// A turn begins, unless there are no more turns.
pub open spec fn turned(run: RunView, request_id: RequestId) -> Step {
    if run.config.max_model_turns > 0 && run.turn >= run.config.max_model_turns {
        ended(run, Seq::empty(), CompletionReason::MaxTurns)
    } else {
        let next = RunView {
            turn: (run.turn + 1) as u32,
            request_id,
            stream_recoveries: 0,
            turn_restarts: 0,
            content: Seq::empty(),
            recovery_content: Seq::empty(),
            saw_any_semantic: false,
            saw_tool_calls: false,
            ..run
        };
        let begun = seq![RunActionView::Emit(LiveEventView::StepStarted { step: next.turn })];
        if needs_compaction(next) {
            Step {
                run: RunView { phase: Phase::Compacting, ..next },
                actions: begun.push(RunActionView::Compact),
            }
        } else {
            sent(next, begun)
        }
    }
}

/// The start of what a model answered.
pub open spec fn answer_preview(raw: Seq<char>) -> Seq<char> {
    if raw.len() > 120 {
        raw.subrange(0, 120) + "…"@
    } else {
        raw
    }
}

/// What is said of a compaction that came to nothing.
pub open spec fn failure_notice(failure: CompactionFailureView) -> Seq<char> {
    match failure {
        CompactionFailureView::SummaryInvalid { raw } =>
            "手动压缩未生效：模型未返回有效摘要。模型输出："@ + debug_text(
            answer_preview(raw),
        ),
        CompactionFailureView::NotSignificant =>
            "手动压缩未生效：摘要无显著收益（历史本身已较精简或摘要过长）"@,
        CompactionFailureView::Provider(error) => "手动压缩未生效：压缩请求失败（"@ + error
            + "）"@,
        CompactionFailureView::Session(error) => error,
    }
}

/// After a compaction that the user asked for.
pub open spec fn compacted_manually(
    run: RunView,
    result: Result<Seq<ChatMessageView>, CompactionFailureView>,
    usage: Usage,
    plan: Option<PlanView>,
    call_id: ToolCallId,
) -> Step {
    let counted = RunView { usage: add_usage(run.usage, usage), ..run };
    match result {
        Ok(messages) => Step {
            run: RunView {
                messages: with_plan(messages, plan, call_id),
                phase: Phase::BetweenTurns,
                ..counted
            },
            actions: seq![
                notice("手动压缩完成：旧历史已压缩为摘要，上下文已精简"@),
                RunActionView::NextTurn,
            ],
        },
        Err(CompactionFailureView::Session(error)) => Step {
            run: RunView { phase: Phase::Failed, ..counted },
            actions: seq![RunActionView::Fail(RunFailureView::Session(error))],
        },
        Err(failure) => Step {
            run: RunView { phase: Phase::BetweenTurns, ..counted },
            actions: seq![notice(failure_notice(failure)), RunActionView::NextTurn],
        },
    }
}

/// After a compaction that the context needed: where the conversation still does not fit,
/// the run ends; otherwise the request is sent. A failed compaction is not tried again; the
/// large outputs are pruned instead.
pub open spec fn compacted(
    run: RunView,
    result: Result<Seq<ChatMessageView>, CompactionFailureView>,
    usage: Usage,
    plan: Option<PlanView>,
    call_id: ToolCallId,
) -> Step {
    let counted = RunView { usage: add_usage(run.usage, usage), ..run };
    match result {
        Err(CompactionFailureView::Session(error)) => Step {
            run: RunView { phase: Phase::Failed, ..counted },
            actions: seq![RunActionView::Fail(RunFailureView::Session(error))],
        },
        _ => {
            let smaller = match result {
                Ok(messages) => RunView {
                    messages: with_plan(messages, plan, call_id),
                    ..counted
                },
                Err(_) => RunView {
                    messages: with_plan(pruned_messages(run.messages), plan, call_id),
                    compaction_failed: true,
                    ..counted
                },
            };
            if run.config.context_window is Some && projected_of(smaller, None) > usable_of(
                run.config,
                run.config.context_window->0,
            ) {
                ended(smaller, Seq::empty(), CompletionReason::ContextOverflow)
            } else {
                sent(smaller, Seq::empty())
            }
        },
    }
}

/// A piece of text is shown.
pub open spec fn delta(run: RunView, kind: DeltaKind, text: Seq<char>) -> RunActionView {
    RunActionView::Emit(
        LiveEventView::AssistantDelta { request_id: run.request_id, kind, text },
    )
}

/// After an event of the stream. Text joins the turn and is shown at once, except in a
/// continuation, where it waits until it is known how much of it is a repetition.
/// Reasoning is shown and no more.
pub open spec fn streamed(run: RunView, event: ProviderEventView) -> Step {
    match event {
        ProviderEventView::TextDelta(text) => if run.stream_recoveries > 0 {
            Step {
                run: RunView {
                    recovery_content: run.recovery_content + text,
                    saw_any_semantic: true,
                    ..run
                },
                actions: Seq::empty(),
            }
        } else {
            Step {
                run: RunView {
                    content: run.content + text,
                    saw_any_semantic: true,
                    ..run
                },
                actions: seq![delta(run, DeltaKind::Text, text)],
            }
        },
        ProviderEventView::ReasoningDelta(text) => Step {
            run,
            actions: seq![delta(run, DeltaKind::Reasoning, text)],
        },
        ProviderEventView::ToolCallStarted { index, id, name } => Step {
            run: RunView { saw_any_semantic: true, saw_tool_calls: true, ..run },
            actions: Seq::empty(),
        },
        ProviderEventView::ToolArgumentsDelta { index, chunk } => Step {
            run: RunView { saw_any_semantic: true, saw_tool_calls: true, ..run },
            actions: Seq::empty(),
        },
        ProviderEventView::Usage(_) => Step { run, actions: Seq::empty() },
    }
}

/// What a continuation adds to a text: what it does not repeat of it.
pub open spec fn continuation_of(existing: Seq<char>, replayed: Seq<char>) -> Seq<char> {
    let bytes = encode_utf8(replayed);
    decode_utf8(bytes.subrange(overlap_of(existing, replayed), bytes.len() as int))
}

/// The text of a continuation joins the turn.
pub open spec fn joined(run: RunView) -> RunView {
    if run.stream_recoveries == 0 || run.recovery_content.len() == 0 {
        run
    } else {
        RunView {
            content: run.content + continuation_of(run.content, run.recovery_content),
            recovery_content: Seq::empty(),
            ..run
        }
    }
}

/// What is shown when the text of a continuation joins the turn.
pub open spec fn joining(run: RunView) -> Seq<RunActionView> {
    if run.stream_recoveries == 0 || run.recovery_content.len() == 0 {
        Seq::empty()
    } else {
        let text = continuation_of(run.content, run.recovery_content);
        if text.len() > 0 {
            seq![delta(run, DeltaKind::Text, text)]
        } else {
            Seq::empty()
        }
    }
}

/// The record of a broken attempt.
pub open spec fn interrupted(run: RunView, cause: InterruptCause, saw_tools: bool) -> RunActionView {
    RunActionView::Commit(
        SessionEventView::AssistantAttemptInterrupted {
            request_id: run.request_id,
            content: run.content,
            cause,
            saw_tool_calls: saw_tools,
        },
    )
}

/// The message of the model joins the conversation.
pub open spec fn committed(run: RunView, calls: Seq<ToolCallView>) -> RunView {
    RunView {
        assistant_text: run.content,
        messages: run.messages.push(
            ChatMessageView::Assistant { content: run.content, tool_calls: calls },
        ),
        ..run
    }
}

/// The message of the model is written to the session.
pub open spec fn committing(run: RunView, calls: Seq<ToolCallView>) -> RunActionView {
    RunActionView::Commit(
        SessionEventView::AssistantMessageCommitted { content: run.content, tool_calls: calls },
    )
}

/// The reason that a cancelled run ends with.
pub open spec fn cancel_reason(cause: u8) -> CompletionReason {
    if cause == CANCEL_CAUSE_WALL_TIME {
        CompletionReason::WallTimeExceeded
    } else {
        CompletionReason::Cancelled
    }
}

/// A cancelled run ends; what the model had said is kept.
pub open spec fn cancelled(run: RunView, actions: Seq<RunActionView>, cause: u8) -> Step {
    if run.content.len() > 0 {
        ended(
            committed(run, Seq::empty()),
            actions.push(committing(run, Seq::empty())),
            cancel_reason(cause),
        )
    } else {
        ended(run, actions, cancel_reason(cause))
    }
}

/// What became of a failed attempt.
pub enum Retry {
    /// The text goes on where it broke off.
    Continue,
    /// The turn is made again: it had brought a tool call.
    RestartTurn,
    /// The turn is made again: it had brought nothing.
    RestartSilent,
    /// The run ends with what there is.
    GiveUp,
    /// The run ends: the model cannot be reached.
    Unavailable,
}

/// What becomes of a failed attempt.
///
/// Text that broke off is continued; a turn that had brought a tool call is made again from
/// the start; a turn that had brought nothing is made again where the error may pass. Each
/// happens only so often in one turn.
pub open spec fn retry_of(run: RunView, error: ProviderError) -> Retry {
    if run.saw_any_semantic && !run.saw_tool_calls && error is StreamInterrupted
        && run.stream_recoveries < MAX_STREAM_RECOVERIES {
        Retry::Continue
    } else if run.saw_tool_calls && error is StreamInterrupted && run.turn_restarts
        < MAX_TURN_RESTARTS {
        Retry::RestartTurn
    } else if !run.saw_any_semantic && is_transient(error) && run.turn_restarts
        < MAX_TURN_RESTARTS {
        Retry::RestartSilent
    } else if run.saw_any_semantic {
        Retry::GiveUp
    } else {
        Retry::Unavailable
    }
}

/// The cause of a broken attempt.
pub open spec fn cause_of(error: ProviderError) -> InterruptCause {
    match error {
        ProviderError::Connection(_) => InterruptCause::Connection,
        ProviderError::StreamInterrupted(_) => InterruptCause::Connection,
        ProviderError::Http(_) => InterruptCause::Connection,
        ProviderError::Protocol(_) => InterruptCause::Protocol,
        ProviderError::RateLimited(_) => InterruptCause::RateLimited,
        ProviderError::Auth(_) => InterruptCause::Auth,
        ProviderError::Cancelled => InterruptCause::Other,
    }
}

/// After a stream that failed.
pub open spec fn failed(before: RunView, error: ProviderError, cause: u8) -> Step {
    let run = joined(before);
    let shown = joining(before);
    if error is Cancelled {
        cancelled(run, shown, cause)
    } else {
        match retry_of(run, error) {
            Retry::Continue => sent(
                RunView { stream_recoveries: (run.stream_recoveries + 1) as u32, ..run },
                shown.push(interrupted(run, cause_of(error), false)).push(
                    RunActionView::Emit(
                        LiveEventView::StreamRecovering {
                            attempt: (run.stream_recoveries + 1) as u32,
                        },
                    ),
                ),
            ),
            Retry::RestartTurn => sent(
                RunView {
                    turn_restarts: (run.turn_restarts + 1) as u32,
                    content: Seq::empty(),
                    saw_any_semantic: false,
                    saw_tool_calls: false,
                    ..run
                },
                shown.push(interrupted(run, cause_of(error), true)).push(
                    RunActionView::Emit(
                        LiveEventView::TurnRestarting { attempt: (run.turn_restarts + 1) as u32 },
                    ),
                ),
            ),
            Retry::RestartSilent => sent(
                RunView { turn_restarts: (run.turn_restarts + 1) as u32, ..run },
                shown.push(
                    RunActionView::Emit(
                        LiveEventView::TurnRestarting { attempt: (run.turn_restarts + 1) as u32 },
                    ),
                ),
            ),
            Retry::GiveUp => ended(
                RunView { assistant_text: run.content, ..run },
                shown.push(interrupted(run, cause_of(error), run.saw_tool_calls)),
                CompletionReason::ProviderInterrupted,
            ),
            Retry::Unavailable => Step {
                run: RunView { phase: Phase::Failed, ..run },
                actions: shown.push(
                    RunActionView::CommitTerminal(
                        CompletionReason::ProviderUnavailable,
                        run.usage,
                    ),
                ).push(
                    RunActionView::Fail(RunFailureView::Provider(provider_error_text(error@))),
                ),
            },
        }
    }
}

/// The reason that a run without further tool calls ends with.
pub open spec fn finish_completion(reason: FinishReason) -> CompletionReason {
    if reason == FinishReason::Stop {
        CompletionReason::Stop
    } else {
        CompletionReason::Error
    }
}

/// After a stream that ended: the message of the model joins the conversation; its tool
/// calls are run, and without any the run ends.
pub open spec fn completed(before: RunView, response: ProviderResponseView) -> Step {
    let run = RunView { usage: add_usage(before.usage, response.usage), ..joined(before) };
    let actions = joining(before).push(
        RunActionView::Emit(
            LiveEventView::UsageUpdated {
                input_tokens: response.usage.input_tokens,
                output_tokens: response.usage.output_tokens,
                cache_read_tokens: response.usage.cache_read_tokens,
            },
        ),
    ).push(committing(run, response.tool_calls));
    let after = committed(run, response.tool_calls);
    if response.tool_calls.len() > 0 {
        Step {
            run: RunView { phase: Phase::RunningTools, ..after },
            actions: actions.push(RunActionView::RunTools(response.tool_calls)),
        }
    } else {
        ended(after, actions, finish_completion(response.finish_reason))
    }
}

/// How a batch of tool calls ended.
#[derive(Debug)]
pub enum BatchEnd {
    /// The next turn follows.
    Continue,
    /// There were more calls than the run may make.
    BudgetExceeded,
    /// The model asks the user something.
    SuspendRequested { text: String, questions: Vec<RequestInputQuestion> },
}

/// What the user is asked.
pub open spec fn question_text(text: Seq<char>) -> Seq<char> {
    if text.len() == 0 {
        "请提供你的输入"@
    } else {
        text
    }
}

/// After a batch of tool calls: their results join the conversation, and the next turn
/// follows, unless the budget is used up or the model waits for the user.
pub open spec fn batched(
    before: RunView,
    end: BatchEnd,
    results: Seq<ChatMessageView>,
    usage: Usage,
) -> Step {
    let run = RunView {
        messages: before.messages + results,
        usage: add_usage(before.usage, usage),
        ..before
    };
    match end {
        BatchEnd::Continue => Step {
            run: RunView { phase: Phase::BetweenTurns, ..run },
            actions: seq![RunActionView::NextTurn],
        },
        BatchEnd::BudgetExceeded => ended(run, Seq::empty(), CompletionReason::MaxToolCalls),
        BatchEnd::SuspendRequested { text, questions } => ended(
            RunView {
                awaiting_input: Some(AwaitingView { text: question_text(text@), questions }),
                ..run
            },
            seq![
                RunActionView::Commit(
                    SessionEventView::UserInputRequested { prompt: question_text(text@) },
                ),
            ],
            CompletionReason::AwaitingUserInput,
        ),
    }
}

/// Whether the counters of a run are within their limits.
pub open spec fn run_wf(run: RunView) -> bool {
    &&& run.stream_recoveries <= MAX_STREAM_RECOVERIES
    &&& run.turn_restarts <= MAX_TURN_RESTARTS
    &&& run.config.max_model_turns > 0 ==> run.turn <= run.config.max_model_turns
}

impl Run {
    fn usable(&self, window: u64) -> (r: u64)
        ensures
            r == usable_of(self.config, window),
    {
        let output: u64 = match self.config.max_output_tokens {
            Some(n) => n as u64,
            None => 0,
        };
        usable_input(window, output, self.config.safety_reserve_tokens)
    }

    fn projected(&self, ephemeral: &Option<String>) -> (r: u64)
        ensures
            r == projected_of(self@, crate::text::opt_view(*ephemeral)),
    {
        let mut prompt = self.config.system_prompt.clone();
        if let Some(text) = ephemeral {
            prompt.append("\n\n");
            prompt.append(text.as_str());
        }
        assert(prompt@ =~= self.config.system_prompt@ + paragraph(
            crate::text::opt_view(*ephemeral),
        ));
        estimate_request(prompt.as_str(), &self.messages, &self.tools)
    }

    fn instruction(&self) -> (r: Option<String>)
        ensures
            crate::text::opt_view(r) == instruction_of(self@),
    {
        let base = if self.stream_recoveries > 0 {
            proof {
                reveal_strlit("{partial}");
            }
            Some(replace(STREAM_RECOVERY_INSTRUCTION, "{partial}", self.content.as_str()))
        } else if self.manual_retry_continuation && self.turn == 1 {
            Some(owned(MANUAL_CONTINUE_INSTRUCTION))
        } else {
            None
        };
        if self.config.max_model_turns > 0 && self.turn == self.config.max_model_turns {
            match base {
                Some(text) => if text.as_str().is_empty() {
                    Some(owned(FINAL_TURN_INSTRUCTION))
                } else {
                    Some(text.concat("\n\n").concat(FINAL_TURN_INSTRUCTION))
                },
                None => Some(owned(FINAL_TURN_INSTRUCTION)),
            }
        } else {
            base
        }
    }

    fn send(&mut self, actions: &mut Vec<RunAction>)
        ensures
            final(self)@ == sent(old(self)@, views(old(actions)@)).run,
            views(final(actions)@) == sent(old(self)@, views(old(actions)@)).actions,
    {
        let ghost before = views(actions@);
        let ghost run = self@;
        let ephemeral = self.instruction();
        if let Some(window) = self.config.context_window {
            let usable = self.usable(window);
            let projected = self.projected(&ephemeral);
            act(actions, RunAction::Emit(LiveEvent::ContextUsage { projected, usable }));
        }
        act(actions, RunAction::Send { ephemeral });
        self.phase = Phase::Streaming;
        self.recovery_content = String::new();
        assert(views(actions@) =~= before + sending(run));
    }

    fn end(&mut self, actions: &mut Vec<RunAction>, reason: CompletionReason)
        ensures
            final(self)@ == ended(old(self)@, views(old(actions)@), reason).run,
            views(final(actions)@) == ended(old(self)@, views(old(actions)@), reason).actions,
    {
        let ghost before = views(actions@);
        act(actions, RunAction::CommitTerminal(reason, self.usage));
        act(actions, RunAction::Finish(reason));
        self.phase = Phase::Done(reason);
        assert(views(actions@) =~= before + ending(reason, self.usage));
    }

    /// Begins a run. `call_id` is the name of the call that restores the plan, where the
    /// history does not hold it.
    pub fn start(
        config: RunConfig,
        tools: Vec<ToolDef>,
        history: &Vec<ChatMessage>,
        user_message: String,
        plan: Option<&Plan>,
        call_id: ToolCallId,
        force_compaction: bool,
    ) -> (r: (Run, Vec<RunAction>))
        ensures
            ({
                let step = started(
                    config,
                    views(tools@),
                    views(history@),
                    user_message@,
                    plan_view(plan),
                    call_id,
                    force_compaction,
                );
                &&& r.0@ == step.run
                &&& views(r.1@) == step.actions
                &&& run_wf(r.0@)
            }),
    {
        let mut actions: Vec<RunAction> = Vec::new();
        assert(views(actions@) =~= Seq::<RunActionView>::empty());
        let mut messages = clone_messages(history, 0, history.len());
        assert(views(history@).subrange(0, history@.len() as int) =~= views(history@));
        restore_plan(&mut messages, plan, call_id);
        let says_nothing = user_message.as_str().is_empty();
        let mut goes_on = false;
        if says_nothing && history.len() > 0 {
            assert(views(history@).last() == history@[history@.len() - 1]@);
            if let ChatMessage::Assistant { content, tool_calls } = &history[history.len() - 1] {
                let text = trim(content.as_str());
                goes_on = !text.as_str().is_empty();
            }
        }
        if !says_nothing {
            act(
                &mut actions,
                RunAction::Commit(SessionEvent::UserSubmitted { content: user_message.clone() }),
            );
        }
        act(
            &mut actions,
            RunAction::Commit(
                SessionEvent::RunStarted {
                    model: ModelRef {
                        name: config.model.clone(),
                        provider: config.provider.clone(),
                    },
                    limits: RunLimits {
                        max_turns: config.max_model_turns,
                        max_tool_calls: config.max_tool_calls,
                    },
                },
            ),
        );
        assert(views(actions@) =~= opening(config, user_message@));
        if !says_nothing {
            let message = ChatMessage::User(user_message);
            proof {
                views_push(messages@, message);
            }
            messages.push(message);
        }
        let compacts = force_compaction && messages.len() > 1;
        if compacts {
            act(&mut actions, RunAction::Compact);
        } else {
            if force_compaction {
                act(
                    &mut actions,
                    RunAction::Emit(
                        LiveEvent::CompactionNotice {
                            message: owned(
                                "手动压缩未生效：没有可压缩的历史（当前对话过短）",
                            ),
                        },
                    ),
                );
            }
            act(&mut actions, RunAction::NextTurn);
        }
        let run = Run {
            config,
            tools,
            messages,
            usage: Usage { input_tokens: 0, output_tokens: 0, cache_read_tokens: 0 },
            turn: 0,
            request_id: RequestId(0),
            stream_recoveries: 0,
            turn_restarts: 0,
            content: String::new(),
            recovery_content: String::new(),
            saw_any_semantic: false,
            saw_tool_calls: false,
            assistant_text: String::new(),
            manual_retry_continuation: goes_on,
            compaction_failed: false,
            awaiting_input: None,
            phase: if compacts {
                Phase::CompactingManually
            } else {
                Phase::BetweenTurns
            },
        };
        proof {
            let step = started(
                config,
                views(tools@),
                views(history@),
                user_message@,
                plan_view(plan),
                call_id,
                force_compaction,
            );
            assert(views(actions@) =~= step.actions);
        }
        (run, actions)
    }

    /// Begins a turn, under the given name.
    pub fn begin_turn(&mut self, request_id: RequestId) -> (actions: Vec<RunAction>)
        requires
            old(self)@.phase == Phase::BetweenTurns,
            run_wf(old(self)@),
            old(self)@.turn < u32::MAX,
        ensures
            final(self)@ == turned(old(self)@, request_id).run,
            views(actions@) == turned(old(self)@, request_id).actions,
            run_wf(final(self)@),
    {
        let mut actions: Vec<RunAction> = Vec::new();
        assert(views(actions@) =~= Seq::<RunActionView>::empty());
        if self.config.max_model_turns > 0 && self.turn >= self.config.max_model_turns {
            self.end(&mut actions, CompletionReason::MaxTurns);
            return actions;
        }
        self.turn = self.turn + 1;
        self.request_id = request_id;
        self.stream_recoveries = 0;
        self.turn_restarts = 0;
        self.content = String::new();
        self.recovery_content = String::new();
        self.saw_any_semantic = false;
        self.saw_tool_calls = false;
        act(&mut actions, RunAction::Emit(LiveEvent::StepStarted { step: self.turn }));
        assert(views(actions@) =~= seq![
            RunActionView::Emit(LiveEventView::StepStarted { step: self.turn }),
        ]);
        let mut compacts = false;
        if let Some(window) = self.config.context_window {
            let none: Option<String> = None;
            compacts = should_compact(self.projected(&none), self.usable(window))
                && !self.compaction_failed;
        }
        if compacts {
            self.phase = Phase::Compacting;
            act(&mut actions, RunAction::Compact);
        } else {
            self.send(&mut actions);
        }
        actions
    }

    /// Takes in what a compaction came to: the conversation after it, or why it failed; and
    /// what it used. `plan` is the plan as it is, `call_id` the name of the call that
    /// restores it.
    pub fn compaction_done(
        &mut self,
        result: Result<Vec<ChatMessage>, CompactionFailure>,
        usage: Usage,
        plan: Option<&Plan>,
        call_id: ToolCallId,
    ) -> (actions: Vec<RunAction>)
        requires
            old(self)@.phase == Phase::CompactingManually || old(self)@.phase == Phase::Compacting,
            run_wf(old(self)@),
        ensures
            ({
                let seen = match result {
                    Ok(messages) => Ok(views(messages@)),
                    Err(failure) => Err(failure@),
                };
                let step = if old(self)@.phase == Phase::CompactingManually {
                    compacted_manually(old(self)@, seen, usage, plan_view(plan), call_id)
                } else {
                    compacted(old(self)@, seen, usage, plan_view(plan), call_id)
                };
                &&& final(self)@ == step.run
                &&& views(actions@) == step.actions
            }),
            run_wf(final(self)@),
    {
        let mut actions: Vec<RunAction> = Vec::new();
        assert(views(actions@) =~= Seq::<RunActionView>::empty());
        let ghost before = self@;
        accumulate_usage(&mut self.usage, usage);
        let manual = match self.phase {
            Phase::CompactingManually => true,
            _ => false,
        };
        match result {
            Err(CompactionFailure::Session(error)) => {
                act(&mut actions, RunAction::Fail(RunFailure::Session(error)));
                self.phase = Phase::Failed;
                assert(views(actions@) =~= seq![
                    RunActionView::Fail(RunFailureView::Session(error@)),
                ]);
            },
            Ok(messages) => {
                self.messages = messages;
                restore_plan(&mut self.messages, plan, call_id);
                if manual {
                    act(
                        &mut actions,
                        RunAction::Emit(
                            LiveEvent::CompactionNotice {
                                message: owned(
                                    "手动压缩完成：旧历史已压缩为摘要，上下文已精简",
                                ),
                            },
                        ),
                    );
                    act(&mut actions, RunAction::NextTurn);
                    self.phase = Phase::BetweenTurns;
                    assert(views(actions@) =~= seq![
                        notice("手动压缩完成：旧历史已压缩为摘要，上下文已精简"@),
                        RunActionView::NextTurn,
                    ]);
                } else {
                    self.send_if_it_fits(&mut actions);
                }
            },
            Err(failure) => {
                if manual {
                    let text = match failure {
                        CompactionFailure::SummaryInvalid { raw } => {
                            let chars = to_chars(raw.as_str());
                            let preview = if chars.len() > 120 {
                                take(raw.as_str(), 120).concat("…")
                            } else {
                                raw
                            };
                            let shown = debug_string(preview.as_str());
                            owned(
                                "手动压缩未生效：模型未返回有效摘要。模型输出：",
                            ).concat(shown.as_str())
                        },
                        CompactionFailure::NotSignificant => owned(
                            "手动压缩未生效：摘要无显著收益（历史本身已较精简或摘要过长）",
                        ),
                        CompactionFailure::Provider(error) => owned(
                            "手动压缩未生效：压缩请求失败（",
                        ).concat(error.as_str()).concat("）"),
                        CompactionFailure::Session(error) => error,
                    };
                    act(
                        &mut actions,
                        RunAction::Emit(LiveEvent::CompactionNotice { message: text }),
                    );
                    act(&mut actions, RunAction::NextTurn);
                    self.phase = Phase::BetweenTurns;
                    assert(views(actions@) =~= seq![
                        notice(failure_notice(failure@)),
                        RunActionView::NextTurn,
                    ]);
                } else {
                    self.compaction_failed = true;
                    let all = clone_messages(&self.messages, 0, self.messages.len());
                    assert(views(self.messages@).subrange(0, self.messages@.len() as int)
                        =~= before.messages);
                    self.messages = prune_messages(all);
                    restore_plan(&mut self.messages, plan, call_id);
                    self.send_if_it_fits(&mut actions);
                }
            },
        }
        actions
    }

    fn send_if_it_fits(&mut self, actions: &mut Vec<RunAction>)
        ensures
            ({
                let run = old(self)@;
                let said = views(old(actions)@);
                let step = if run.config.context_window is Some && projected_of(run, None)
                    > usable_of(run.config, run.config.context_window->0) {
                    ended(run, said, CompletionReason::ContextOverflow)
                } else {
                    sent(run, said)
                };
                &&& final(self)@ == step.run
                &&& views(final(actions)@) == step.actions
            }),
    {
        let mut fits = true;
        if let Some(window) = self.config.context_window {
            let none: Option<String> = None;
            fits = self.projected(&none) <= self.usable(window);
        }
        if fits {
            self.send(actions);
        } else {
            self.end(actions, CompletionReason::ContextOverflow);
        }
    }

    /// Takes in an event of the stream.
    pub fn stream_event(&mut self, event: ProviderEvent) -> (actions: Vec<RunAction>)
        requires
            old(self)@.phase == Phase::Streaming,
            run_wf(old(self)@),
        ensures
            final(self)@ == streamed(old(self)@, event@).run,
            views(actions@) == streamed(old(self)@, event@).actions,
            run_wf(final(self)@),
    {
        let mut actions: Vec<RunAction> = Vec::new();
        assert(views(actions@) =~= Seq::<RunActionView>::empty());
        let request_id = self.request_id;
        match event {
            ProviderEvent::TextDelta(text) => {
                self.saw_any_semantic = true;
                if self.stream_recoveries > 0 {
                    self.recovery_content.append(text.as_str());
                } else {
                    self.content.append(text.as_str());
                    act(
                        &mut actions,
                        RunAction::Emit(
                            LiveEvent::AssistantDelta { request_id, kind: DeltaKind::Text, text },
                        ),
                    );
                }
            },
            ProviderEvent::ReasoningDelta(text) => {
                act(
                    &mut actions,
                    RunAction::Emit(
                        LiveEvent::AssistantDelta {
                            request_id,
                            kind: DeltaKind::Reasoning,
                            text,
                        },
                    ),
                );
            },
            ProviderEvent::ToolCallStarted { index, id, name } => {
                self.saw_any_semantic = true;
                self.saw_tool_calls = true;
            },
            ProviderEvent::ToolArgumentsDelta { index, chunk } => {
                self.saw_any_semantic = true;
                self.saw_tool_calls = true;
            },
            ProviderEvent::Usage(_) => {},
        }
        assert(views(actions@) =~= streamed(old(self)@, event@).actions);
        actions
    }

    fn join_continuation(&mut self, actions: &mut Vec<RunAction>)
        ensures
            final(self)@ == joined(old(self)@),
            views(final(actions)@) == views(old(actions)@) + joining(old(self)@),
    {
        let ghost before = views(actions@);
        if self.stream_recoveries == 0 || self.recovery_content.as_str().is_empty() {
            assert(before + Seq::<RunActionView>::empty() =~= before);
            return;
        }
        let overlap = recovery_overlap_bytes(
            self.content.as_str(),
            self.recovery_content.as_str(),
        );
        let (_repeated, rest) = self.recovery_content.as_str().split_at(overlap);
        proof {
            let text = continuation_of(self.content@, self.recovery_content@);
            assert(encode_utf8(rest@) =~= encode_utf8(self.recovery_content@).subrange(
                overlap as int,
                encode_utf8(self.recovery_content@).len() as int,
            ));
            encode_utf8_decode_utf8(rest@);
            assert(rest@ == text);
        }
        let more = owned(rest);
        self.content.append(more.as_str());
        self.recovery_content = String::new();
        if !more.as_str().is_empty() {
            let request_id = self.request_id;
            act(
                actions,
                RunAction::Emit(
                    LiveEvent::AssistantDelta { request_id, kind: DeltaKind::Text, text: more },
                ),
            );
        }
        assert(views(actions@) =~= before + joining(old(self)@));
    }

    fn record_interruption(&self, actions: &mut Vec<RunAction>, error: &ProviderError, saw_tools: bool)
        ensures
            views(final(actions)@) == views(old(actions)@).push(
                interrupted(self@, cause_of(*error), saw_tools),
            ),
    {
        act(
            actions,
            RunAction::Commit(
                SessionEvent::AssistantAttemptInterrupted {
                    request_id: self.request_id,
                    content: self.content.clone(),
                    cause: interrupt_cause(error),
                    saw_tool_calls: saw_tools,
                },
            ),
        );
    }

    fn commit_message(&mut self, actions: &mut Vec<RunAction>, calls: &Vec<ToolCall>)
        ensures
            final(self)@ == committed(old(self)@, views(calls@)),
            views(final(actions)@) == views(old(actions)@).push(
                committing(old(self)@, views(calls@)),
            ),
    {
        self.assistant_text = self.content.clone();
        act(
            actions,
            RunAction::Commit(
                SessionEvent::AssistantMessageCommitted {
                    message: AssistantMessage {
                        content: self.content.clone(),
                        tool_calls: clone_calls(calls),
                    },
                },
            ),
        );
        let message = ChatMessage::Assistant {
            content: self.content.clone(),
            tool_calls: clone_calls(calls),
        };
        proof {
            views_push(self.messages@, message);
        }
        self.messages.push(message);
    }

    /// Takes in that the stream failed. `cause` says why a cancelled run was cancelled.
    pub fn stream_failed(&mut self, error: ProviderError, cause: u8) -> (actions: Vec<RunAction>)
        requires
            old(self)@.phase == Phase::Streaming,
            run_wf(old(self)@),
        ensures
            final(self)@ == failed(old(self)@, error, cause).run,
            views(actions@) == failed(old(self)@, error, cause).actions,
            run_wf(final(self)@),
    {
        let mut actions: Vec<RunAction> = Vec::new();
        assert(views(actions@) =~= Seq::<RunActionView>::empty());
        self.join_continuation(&mut actions);
        assert(views(actions@) =~= joining(old(self)@));
        let stopped = match &error {
            ProviderError::Cancelled => true,
            _ => false,
        };
        if stopped {
            if !self.content.as_str().is_empty() {
                let none: Vec<ToolCall> = Vec::new();
                assert(views(none@) =~= Seq::<ToolCallView>::empty());
                self.commit_message(&mut actions, &none);
            }
            self.end(&mut actions, cancel_reason_for_cause(cause));
            return actions;
        }
        let recoverable = recoverable_stream_interrupt(&error);
        if self.saw_any_semantic && !self.saw_tool_calls && recoverable && self.stream_recoveries
            < MAX_STREAM_RECOVERIES {
            self.record_interruption(&mut actions, &error, false);
            act(
                &mut actions,
                RunAction::Emit(
                    LiveEvent::StreamRecovering { attempt: self.stream_recoveries + 1 },
                ),
            );
            self.stream_recoveries = self.stream_recoveries + 1;
            self.send(&mut actions);
            return actions;
        }
        if self.saw_tool_calls && recoverable && self.turn_restarts < MAX_TURN_RESTARTS {
            self.record_interruption(&mut actions, &error, true);
            act(
                &mut actions,
                RunAction::Emit(LiveEvent::TurnRestarting { attempt: self.turn_restarts + 1 }),
            );
            self.turn_restarts = self.turn_restarts + 1;
            self.content = String::new();
            self.saw_any_semantic = false;
            self.saw_tool_calls = false;
            self.send(&mut actions);
            return actions;
        }
        if !self.saw_any_semantic && is_transient_transport_error(&error) && self.turn_restarts
            < MAX_TURN_RESTARTS {
            act(
                &mut actions,
                RunAction::Emit(LiveEvent::TurnRestarting { attempt: self.turn_restarts + 1 }),
            );
            self.turn_restarts = self.turn_restarts + 1;
            self.send(&mut actions);
            return actions;
        }
        if self.saw_any_semantic {
            self.record_interruption(&mut actions, &error, self.saw_tool_calls);
            self.assistant_text = self.content.clone();
            self.end(&mut actions, CompletionReason::ProviderInterrupted);
            return actions;
        }
        act(
            &mut actions,
            RunAction::CommitTerminal(CompletionReason::ProviderUnavailable, self.usage),
        );
        act(&mut actions, RunAction::Fail(RunFailure::Provider(error.to_text())));
        self.phase = Phase::Failed;
        actions
    }

    /// Takes in that the stream ended.
    pub fn stream_done(&mut self, response: ProviderResponse) -> (actions: Vec<RunAction>)
        requires
            old(self)@.phase == Phase::Streaming,
            run_wf(old(self)@),
        ensures
            final(self)@ == completed(old(self)@, response@).run,
            views(actions@) == completed(old(self)@, response@).actions,
            run_wf(final(self)@),
    {
        let mut actions: Vec<RunAction> = Vec::new();
        assert(views(actions@) =~= Seq::<RunActionView>::empty());
        self.join_continuation(&mut actions);
        assert(views(actions@) =~= joining(old(self)@));
        accumulate_usage(&mut self.usage, response.usage);
        act(
            &mut actions,
            RunAction::Emit(
                LiveEvent::UsageUpdated {
                    input_tokens: response.usage.input_tokens,
                    output_tokens: response.usage.output_tokens,
                    cache_read_tokens: response.usage.cache_read_tokens,
                },
            ),
        );
        self.commit_message(&mut actions, &response.tool_calls);
        if response.tool_calls.len() > 0 {
            act(&mut actions, RunAction::RunTools(response.tool_calls));
            self.phase = Phase::RunningTools;
            return actions;
        }
        let reason = match response.finish_reason {
            FinishReason::Stop => CompletionReason::Stop,
            _ => CompletionReason::Error,
        };
        self.end(&mut actions, reason);
        actions
    }

    /// Takes in that a batch of tool calls ended: how, with which results, and what was
    /// used meanwhile.
    pub fn batch_done(&mut self, end: BatchEnd, results: &Vec<ChatMessage>, usage: Usage) -> (actions:
        Vec<RunAction>)
        requires
            old(self)@.phase == Phase::RunningTools,
            run_wf(old(self)@),
        ensures
            final(self)@ == batched(old(self)@, end, views(results@), usage).run,
            views(actions@) == batched(old(self)@, end, views(results@), usage).actions,
            run_wf(final(self)@),
    {
        let mut actions: Vec<RunAction> = Vec::new();
        assert(views(actions@) =~= Seq::<RunActionView>::empty());
        extend_messages(&mut self.messages, results);
        accumulate_usage(&mut self.usage, usage);
        match end {
            BatchEnd::Continue => {
                act(&mut actions, RunAction::NextTurn);
                self.phase = Phase::BetweenTurns;
                assert(views(actions@) =~= seq![RunActionView::NextTurn]);
            },
            BatchEnd::BudgetExceeded => {
                self.end(&mut actions, CompletionReason::MaxToolCalls);
            },
            BatchEnd::SuspendRequested { text, questions } => {
                let prompt = if text.as_str().is_empty() {
                    owned("请提供你的输入")
                } else {
                    text
                };
                act(
                    &mut actions,
                    RunAction::Commit(SessionEvent::UserInputRequested { prompt: prompt.clone() }),
                );
                assert(views(actions@) =~= seq![
                    RunActionView::Commit(
                        SessionEventView::UserInputRequested { prompt: prompt@ },
                    ),
                ]);
                self.awaiting_input = Some(AwaitingInput { text: prompt, questions });
                self.end(&mut actions, CompletionReason::AwaitingUserInput);
            },
        }
        actions
    }

    /// What the run came to, once it is over.
    pub fn outcome(self) -> (r: Option<AgentOutcome>)
        ensures
            match r {
                Some(outcome) => comes_to(self@, outcome) && outcome.awaiting_input
                    == self.awaiting_input,
                None => !(self@.phase is Done),
            },
    {
        match self.phase {
            Phase::Done(reason) => Some(
                AgentOutcome {
                    reason,
                    usage: self.usage,
                    messages: self.messages,
                    assistant_text: self.assistant_text,
                    awaiting_input: self.awaiting_input,
                },
            ),
            _ => None,
        }
    }
}

} // verus!
