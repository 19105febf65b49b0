//! The agent: model turns, tool batches, limits.
//!
//! A turn sends the conversation to the model and takes in what it streams back. A message
//! without tool calls ends the run; the calls of any other message are run, their results
//! join the conversation, and the next turn begins.
pub mod answer;
pub mod batch_laws;
pub mod compaction;
pub mod limits;
pub mod memory_laws;
pub mod project;
pub mod prompt;
pub mod recovery;
pub mod run;
pub mod run_laws;
pub mod scheduler;
pub mod tool_laws;
pub mod tool_runtime;
pub mod turn_laws;
pub mod web_summary;
pub mod write_ahead;

use crate::ids::RequestId;
use crate::ids::ToolCallId;
use crate::message::ChatMessage;
use crate::outcome::ToolStatus;
use crate::plan::Plan;
use crate::plan::PlanView;
use crate::provider::ProviderError;
use crate::session::CompletionReason;
use crate::session::InterruptCause;
use crate::session::Usage;
use crate::text::opt_view;
use crate::text::owned;
use vstd::prelude::*;
use vstd::string::*;

verus! {

/// What a run came to.
#[derive(Debug)]
pub struct AgentOutcome {
    pub reason: CompletionReason,
    pub usage: Usage,
    /// The conversation after the run.
    pub messages: Vec<ChatMessage>,
    /// The last text of the model.
    pub assistant_text: String,
    /// What the model asks, where the run waits for the user.
    pub awaiting_input: Option<AwaitingInput>,
}

/// What the model asks the user.
#[derive(Debug, Clone, PartialEq, Eq)]
pub struct AwaitingInput {
    /// All questions in words.
    pub text: String,
    /// The questions one by one.
    pub questions: Vec<RequestInputQuestion>,
}

/// A question to the user.
#[derive(Debug, Clone, PartialEq, Eq)]
pub struct RequestInputQuestion {
    pub header: Option<String>,
    pub question: String,
    /// The answers to choose from; none for a free answer.
    pub options: Vec<String>,
}

/// Why a run could not be carried on.
#[derive(Debug, PartialEq, Eq)]
pub enum RunFailure {
    Provider(String),
    ToolInfrastructure(String),
    Session(String),
    BudgetExceeded(BudgetKind),
}

/// What a [`RunFailure`] says.
pub enum RunFailureView {
    Provider(Seq<char>),
    ToolInfrastructure(Seq<char>),
    Session(Seq<char>),
    BudgetExceeded(BudgetKind),
}

impl View for RunFailure {
    type V = RunFailureView;

    open spec fn view(&self) -> RunFailureView {
        match *self {
            RunFailure::Provider(text) => RunFailureView::Provider(text@),
            RunFailure::ToolInfrastructure(text) => RunFailureView::ToolInfrastructure(text@),
            RunFailure::Session(text) => RunFailureView::Session(text@),
            RunFailure::BudgetExceeded(kind) => RunFailureView::BudgetExceeded(kind),
        }
    }
}

/// A budget of a run.
#[derive(Debug, Clone, Copy, PartialEq, Eq, Structural)]
pub enum BudgetKind {
    MaxTurns,
    MaxToolCalls,
}

/// The name of a budget.
pub open spec fn budget_text(kind: BudgetKind) -> Seq<char> {
    match kind {
        BudgetKind::MaxTurns => "max_turns"@,
        BudgetKind::MaxToolCalls => "max_tool_calls"@,
    }
}

impl BudgetKind {
    /// The name of the budget.
    pub fn to_text(&self) -> (r: String)
        ensures
            r@ == budget_text(*self),
    {
        match self {
            BudgetKind::MaxTurns => owned("max_turns"),
            BudgetKind::MaxToolCalls => owned("max_tool_calls"),
        }
    }
}

/// A failure in words.
pub open spec fn failure_text(failure: RunFailureView) -> Seq<char> {
    match failure {
        RunFailureView::Provider(text) => "provider failure: "@ + text,
        RunFailureView::ToolInfrastructure(text) => "tool infrastructure failure: "@ + text,
        RunFailureView::Session(text) => "session failure: "@ + text,
        RunFailureView::BudgetExceeded(kind) => "budget exceeded: "@ + budget_text(kind),
    }
}

impl RunFailure {
    /// The failure in words.
    pub fn to_text(&self) -> (r: String)
        ensures
            r@ == failure_text(self@),
    {
        match self {
            RunFailure::Provider(text) => owned("provider failure: ").concat(text.as_str()),
            RunFailure::ToolInfrastructure(text) => owned("tool infrastructure failure: ").concat(
                text.as_str(),
            ),
            RunFailure::Session(text) => owned("session failure: ").concat(text.as_str()),
            RunFailure::BudgetExceeded(kind) => {
                let name = kind.to_text();
                owned("budget exceeded: ").concat(name.as_str())
            },
        }
    }
}

/// The kind of a piece of text.
#[derive(Debug, Clone, Copy, PartialEq, Eq, Structural)]
pub enum DeltaKind {
    Text,
    Reasoning,
}

/// What happens in a run, without anything of how it is shown.
#[derive(Debug, Clone, PartialEq, Eq)]
pub enum LiveEvent {
    /// A turn begins.
    StepStarted { step: u32 },
    /// The model says something.
    AssistantDelta { request_id: RequestId, kind: DeltaKind, text: String },
    /// A tool starts.
    ToolStarted { call_id: ToolCallId, name: String, arguments: String },
    /// A tool has ended.
    ToolCompleted {
        call_id: ToolCallId,
        name: String,
        status: ToolStatus,
        duration_ms: u64,
        exit_code: Option<i32>,
        output: String,
        diff: Option<String>,
    },
    /// A tool writes something.
    ToolOutputDelta { call_id: ToolCallId, stream: u8, text: String },
    /// How full the context is.
    ContextUsage { projected: u64, usable: u64 },
    /// What a request used.
    UsageUpdated { input_tokens: u64, output_tokens: u64, cache_read_tokens: u64 },
    /// The wall time is nearly used up.
    BudgetWarning,
    /// The plan has changed.
    PlanUpdated { plan: Plan },
    /// The stream broke off; the answer is being continued.
    StreamRecovering { attempt: u32 },
    /// The turn is being made again.
    TurnRestarting { attempt: u32 },
    /// What a compaction came to.
    CompactionNotice { message: String },
}

/// What a [`LiveEvent`] says.
pub enum LiveEventView {
    StepStarted { step: u32 },
    AssistantDelta { request_id: RequestId, kind: DeltaKind, text: Seq<char> },
    ToolStarted { call_id: ToolCallId, name: Seq<char>, arguments: Seq<char> },
    ToolCompleted {
        call_id: ToolCallId,
        name: Seq<char>,
        status: ToolStatus,
        duration_ms: u64,
        exit_code: Option<i32>,
        output: Seq<char>,
        diff: Option<Seq<char>>,
    },
    ToolOutputDelta { call_id: ToolCallId, stream: u8, text: Seq<char> },
    ContextUsage { projected: u64, usable: u64 },
    UsageUpdated { input_tokens: u64, output_tokens: u64, cache_read_tokens: u64 },
    BudgetWarning,
    PlanUpdated { plan: PlanView },
    StreamRecovering { attempt: u32 },
    TurnRestarting { attempt: u32 },
    CompactionNotice { message: Seq<char> },
}

impl View for LiveEvent {
    type V = LiveEventView;

    open spec fn view(&self) -> LiveEventView {
        match *self {
            LiveEvent::StepStarted { step } => LiveEventView::StepStarted { step },
            LiveEvent::AssistantDelta { request_id, kind, text } => LiveEventView::AssistantDelta {
                request_id,
                kind,
                text: text@,
            },
            LiveEvent::ToolStarted { call_id, name, arguments } => LiveEventView::ToolStarted {
                call_id,
                name: name@,
                arguments: arguments@,
            },
            LiveEvent::ToolCompleted {
                call_id,
                name,
                status,
                duration_ms,
                exit_code,
                output,
                diff,
            } => LiveEventView::ToolCompleted {
                call_id,
                name: name@,
                status,
                duration_ms,
                exit_code,
                output: output@,
                diff: opt_view(diff),
            },
            LiveEvent::ToolOutputDelta { call_id, stream, text } =>
                LiveEventView::ToolOutputDelta { call_id, stream, text: text@ },
            LiveEvent::ContextUsage { projected, usable } => LiveEventView::ContextUsage {
                projected,
                usable,
            },
            LiveEvent::UsageUpdated { input_tokens, output_tokens, cache_read_tokens } =>
                LiveEventView::UsageUpdated { input_tokens, output_tokens, cache_read_tokens },
            LiveEvent::BudgetWarning => LiveEventView::BudgetWarning,
            LiveEvent::PlanUpdated { plan } => LiveEventView::PlanUpdated { plan: plan@ },
            LiveEvent::StreamRecovering { attempt } => LiveEventView::StreamRecovering { attempt },
            LiveEvent::TurnRestarting { attempt } => LiveEventView::TurnRestarting { attempt },
            LiveEvent::CompactionNotice { message } => LiveEventView::CompactionNotice {
                message: message@,
            },
        }
    }
}

/// What happens in a run, as the screen shows it.
#[derive(Debug, Clone, PartialEq, Eq)]
pub enum RuntimeEvent {
    StepStarted { step: u32 },
    AssistantDelta { request_id: RequestId, kind: DeltaKind, text: String },
    ToolStarted {
        call_id: ToolCallId,
        name: String,
        /// What the tool is about, in a line.
        target: String,
        /// The whole command of a shell call.
        command: Option<String>,
    },
    ToolCompleted {
        call_id: ToolCallId,
        name: String,
        status: ToolStatus,
        duration_ms: u64,
        exit_code: Option<i32>,
        tail: String,
        diff: Option<String>,
    },
    ToolOutputDelta { call_id: ToolCallId, stream: u8, text: String },
    ContextUsage { projected: u64, usable: u64 },
    UsageUpdated { input_tokens: u64, output_tokens: u64, cache_read_tokens: u64 },
    BudgetWarning,
    PlanUpdated { plan: Plan },
    StreamRecovering { attempt: u32 },
    TurnRestarting { attempt: u32 },
    CompactionNotice { message: String },
}

/// What broke an attempt off.
pub open spec fn cause_of(error: ProviderError) -> InterruptCause {
    match error {
        ProviderError::Connection(_) => InterruptCause::Connection,
        ProviderError::StreamInterrupted(_) => InterruptCause::Connection,
        ProviderError::Http(_) => InterruptCause::Connection,
        ProviderError::Protocol(_) => InterruptCause::Protocol,
        ProviderError::RateLimited(_) => InterruptCause::RateLimited,
        ProviderError::Auth(_) => InterruptCause::Auth,
        ProviderError::Cancelled => InterruptCause::Other,
    }
}

/// What broke an attempt off.
pub fn interrupt_cause(error: &ProviderError) -> (r: InterruptCause)
    ensures
        r == cause_of(*error),
{
    match error {
        ProviderError::Connection(_) => InterruptCause::Connection,
        ProviderError::StreamInterrupted(_) => InterruptCause::Connection,
        ProviderError::Http(_) => InterruptCause::Connection,
        ProviderError::Protocol(_) => InterruptCause::Protocol,
        ProviderError::RateLimited(_) => InterruptCause::RateLimited,
        ProviderError::Auth(_) => InterruptCause::Auth,
        ProviderError::Cancelled => InterruptCause::Other,
    }
}

/// Whether a broken stream is worth continuing: only one that broke off after a part of the
/// answer had arrived.
pub open spec fn can_go_on(error: ProviderError) -> bool {
    error is StreamInterrupted
}

/// Whether a broken stream is worth continuing.
pub fn recoverable_stream_interrupt(error: &ProviderError) -> (r: bool)
    ensures
        r == can_go_on(*error),
{
    match error {
        ProviderError::StreamInterrupted(_) => true,
        _ => false,
    }
}

/// Whether an error may pass: a failure of the network, of the server, or a rate limit.
pub open spec fn is_transient(error: ProviderError) -> bool {
    error is Connection || error is Http || error is RateLimited
}

/// Whether an error may pass.
pub fn is_transient_transport_error(error: &ProviderError) -> (r: bool)
    ensures
        r == is_transient(*error),
{
    match error {
        ProviderError::Connection(_) => true,
        ProviderError::Http(_) => true,
        ProviderError::RateLimited(_) => true,
        _ => false,
    }
}

/// A sum that stops at the largest number.
pub open spec fn add_tokens(a: u64, b: u64) -> u64 {
    if a + b > u64::MAX {
        u64::MAX
    } else {
        (a + b) as u64
    }
}

/// The usage of two requests.
pub open spec fn add_usage(total: Usage, more: Usage) -> Usage {
    Usage {
        input_tokens: add_tokens(total.input_tokens, more.input_tokens),
        output_tokens: add_tokens(total.output_tokens, more.output_tokens),
        cache_read_tokens: add_tokens(total.cache_read_tokens, more.cache_read_tokens),
    }
}

fn tokens_sum(a: u64, b: u64) -> (r: u64)
    ensures
        r == add_tokens(a, b),
{
    if a > u64::MAX - b {
        u64::MAX
    } else {
        a + b
    }
}

/// Adds the usage of a request to a total.
pub fn accumulate_usage(total: &mut Usage, additional: Usage)
    ensures
        *final(total) == add_usage(*old(total), additional),
{
    *total = Usage {
        input_tokens: tokens_sum(total.input_tokens, additional.input_tokens),
        output_tokens: tokens_sum(total.output_tokens, additional.output_tokens),
        cache_read_tokens: tokens_sum(total.cache_read_tokens, additional.cache_read_tokens),
    };
}

/// A total of usage never shrinks, and does not depend on the order of the requests.
pub proof fn usage_adds_up(total: Usage, a: Usage, b: Usage)
    ensures
        add_usage(total, a).input_tokens >= total.input_tokens,
        add_usage(total, a).output_tokens >= total.output_tokens,
        add_usage(total, a).cache_read_tokens >= total.cache_read_tokens,
        add_usage(add_usage(total, a), b) == add_usage(add_usage(total, b), a),
{
}

/// The name of the file that holds a session.
pub fn session_file_name(session_id: crate::ids::SessionId) -> (r: String)
    ensures
        r@ == crate::ids::hyphenated(session_id.0) + ".jsonl"@,
{
    session_id.to_text().concat(".jsonl")
}

} // verus!
