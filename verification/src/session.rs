//! What a session records.
use crate::ids::EventId;
use crate::ids::RequestId;
use crate::ids::ToolCallId;
use crate::message::ToolCall;
use crate::message::ToolCallView;
use crate::outcome::clone_text;
use crate::outcome::OutcomeView;
use crate::outcome::StoredToolOutcome;
use crate::plan::Plan;
use crate::plan::PlanView;
use crate::text::opt_view;
use crate::text::views;
use vstd::prelude::*;

verus! {

/// Tokens that a model used.
#[derive(Debug, Clone, Copy, PartialEq, Eq, Structural)]
pub struct Usage {
    pub input_tokens: u64,
    pub output_tokens: u64,
    pub cache_read_tokens: u64,
}

impl Default for Usage {
    fn default() -> (r: Self)
        ensures
            r == (Usage { input_tokens: 0, output_tokens: 0, cache_read_tokens: 0 }),
    {
        Usage { input_tokens: 0, output_tokens: 0, cache_read_tokens: 0 }
    }
}

/// Why a run ended.
#[derive(Debug, Clone, Copy, PartialEq, Eq, Structural)]
pub enum CompletionReason {
    Stop,
    MaxTurns,
    MaxToolCalls,
    Cancelled,
    WallTimeExceeded,
    ContextOverflow,
    ProviderInterrupted,
    ProviderUnavailable,
    AwaitingUserInput,
    Error,
}

/// What broke an attempt of the model off.
#[derive(Debug, Clone, Copy, PartialEq, Eq, Structural)]
pub enum InterruptCause {
    Connection,
    Protocol,
    RateLimited,
    Auth,
    Other,
}

/// A model by name.
#[derive(Debug, Clone, PartialEq, Eq)]
pub struct ModelRef {
    pub name: String,
    pub provider: String,
}

/// The limits of a run; 0 stands for none.
#[derive(Debug, Clone, Copy, PartialEq, Eq, Structural)]
pub struct RunLimits {
    pub max_turns: u32,
    pub max_tool_calls: u32,
}

/// A message of the model: its text and its calls.
#[derive(Debug, Clone, PartialEq, Eq)]
pub struct AssistantMessage {
    pub content: String,
    pub tool_calls: Vec<ToolCall>,
}

/// The events from `start` up to, and without, `end`.
#[derive(Debug, Clone, Copy, PartialEq, Eq, Structural)]
pub struct EventRange {
    pub start: EventId,
    pub end: EventId,
}

/// What stands for a covered range of events.
#[derive(Debug, Clone, PartialEq, Eq)]
pub struct CompactSummary {
    pub text: String,
}

/// What is needed to recover from a crash in the middle of a write.
#[derive(Debug, PartialEq, Eq)]
pub struct RecoveryMetadata {
    pub tool: String,
    pub target_path: String,
    pub expected_revision: String,
    pub candidate_revision: Option<String>,
    pub temp_path: String,
    pub backup_path: Option<String>,
}

/// What a [`RecoveryMetadata`] says.
pub struct RecoveryView {
    pub tool: Seq<char>,
    pub target_path: Seq<char>,
    pub expected_revision: Seq<char>,
    pub candidate_revision: Option<Seq<char>>,
    pub temp_path: Seq<char>,
    pub backup_path: Option<Seq<char>>,
}

impl View for RecoveryMetadata {
    type V = RecoveryView;

    open spec fn view(&self) -> RecoveryView {
        RecoveryView {
            tool: self.tool@,
            target_path: self.target_path@,
            expected_revision: self.expected_revision@,
            candidate_revision: opt_view(self.candidate_revision),
            temp_path: self.temp_path@,
            backup_path: opt_view(self.backup_path),
        }
    }
}

impl Clone for RecoveryMetadata {
    fn clone(&self) -> (r: Self)
        ensures
            r == *self,
    {
        RecoveryMetadata {
            tool: self.tool.clone(),
            target_path: self.target_path.clone(),
            expected_revision: self.expected_revision.clone(),
            candidate_revision: clone_text(&self.candidate_revision),
            temp_path: self.temp_path.clone(),
            backup_path: clone_text(&self.backup_path),
        }
    }
}

/// An event of a session. Together, in order, they are all that a session is.
#[derive(Debug, Clone, PartialEq, Eq)]
pub enum SessionEvent {
    UserSubmitted { content: String },
    RunStarted { model: ModelRef, limits: RunLimits },
    AssistantMessageCommitted { message: AssistantMessage },
    AssistantAttemptInterrupted {
        request_id: RequestId,
        content: String,
        cause: InterruptCause,
        saw_tool_calls: bool,
    },
    ToolRequested { call: ToolCall },
    ToolStarted { call_id: ToolCallId, recovery: Option<RecoveryMetadata> },
    ToolCompleted { call_id: ToolCallId, outcome: StoredToolOutcome },
    PlanReplaced { plan: Plan },
    CompactionCommitted { covered: EventRange, summary: CompactSummary },
    UserInputRequested { prompt: String },
    UserInputReceived { content: String },
    RunCompleted { reason: CompletionReason, usage: Usage },
}

/// What a [`SessionEvent`] says.
pub enum SessionEventView {
    UserSubmitted { content: Seq<char> },
    RunStarted { name: Seq<char>, provider: Seq<char>, limits: RunLimits },
    AssistantMessageCommitted { content: Seq<char>, tool_calls: Seq<ToolCallView> },
    AssistantAttemptInterrupted {
        request_id: RequestId,
        content: Seq<char>,
        cause: InterruptCause,
        saw_tool_calls: bool,
    },
    ToolRequested { call: ToolCallView },
    ToolStarted { call_id: ToolCallId, recovery: Option<RecoveryView> },
    ToolCompleted { call_id: ToolCallId, outcome: OutcomeView },
    PlanReplaced { plan: PlanView },
    CompactionCommitted { covered: EventRange, summary: Seq<char> },
    UserInputRequested { prompt: Seq<char> },
    UserInputReceived { content: Seq<char> },
    RunCompleted { reason: CompletionReason, usage: Usage },
}

impl View for SessionEvent {
    type V = SessionEventView;

    open spec fn view(&self) -> SessionEventView {
        match *self {
            SessionEvent::UserSubmitted { content } => SessionEventView::UserSubmitted {
                content: content@,
            },
            SessionEvent::RunStarted { model, limits } => SessionEventView::RunStarted {
                name: model.name@,
                provider: model.provider@,
                limits,
            },
            SessionEvent::AssistantMessageCommitted { message } =>
                SessionEventView::AssistantMessageCommitted {
                content: message.content@,
                tool_calls: views(message.tool_calls@),
            },
            SessionEvent::AssistantAttemptInterrupted {
                request_id,
                content,
                cause,
                saw_tool_calls,
            } => SessionEventView::AssistantAttemptInterrupted {
                request_id,
                content: content@,
                cause,
                saw_tool_calls,
            },
            SessionEvent::ToolRequested { call } => SessionEventView::ToolRequested { call: call@ },
            SessionEvent::ToolStarted { call_id, recovery } => SessionEventView::ToolStarted {
                call_id,
                recovery: opt_view(recovery),
            },
            SessionEvent::ToolCompleted { call_id, outcome } => SessionEventView::ToolCompleted {
                call_id,
                outcome: outcome@,
            },
            SessionEvent::PlanReplaced { plan } => SessionEventView::PlanReplaced { plan: plan@ },
            SessionEvent::CompactionCommitted { covered, summary } =>
                SessionEventView::CompactionCommitted { covered, summary: summary.text@ },
            SessionEvent::UserInputRequested { prompt } => SessionEventView::UserInputRequested {
                prompt: prompt@,
            },
            SessionEvent::UserInputReceived { content } => SessionEventView::UserInputReceived {
                content: content@,
            },
            SessionEvent::RunCompleted { reason, usage } => SessionEventView::RunCompleted {
                reason,
                usage,
            },
        }
    }
}

} // verus!
