//! What a tool call came to.
use crate::text::opt_view;
use vstd::prelude::*;
use vstd::string::*;

verus! {

/// How a tool call ended.
#[derive(Debug, Clone, Copy, PartialEq, Eq, Structural)]
pub enum ToolStatus {
    Succeeded,
    Failed,
    TimedOut,
    Cancelled,
    Interrupted,
    Rejected,
}

/// The name of a status.
pub open spec fn status_text(status: ToolStatus) -> Seq<char> {
    match status {
        ToolStatus::Succeeded => "succeeded"@,
        ToolStatus::Failed => "failed"@,
        ToolStatus::TimedOut => "timed_out"@,
        ToolStatus::Cancelled => "cancelled"@,
        ToolStatus::Interrupted => "interrupted"@,
        ToolStatus::Rejected => "rejected"@,
    }
}

/// The name of a status.
pub fn status_str(status: ToolStatus) -> (r: &'static str)
    ensures
        r@ == status_text(status),
{
    match status {
        ToolStatus::Succeeded => "succeeded",
        ToolStatus::Failed => "failed",
        ToolStatus::TimedOut => "timed_out",
        ToolStatus::Cancelled => "cancelled",
        ToolStatus::Interrupted => "interrupted",
        ToolStatus::Rejected => "rejected",
    }
}

/// The part of an outcome that the model sees.
#[derive(Debug, PartialEq, Eq)]
pub struct ModelPayload {
    pub status: ToolStatus,
    pub program: Option<String>,
    pub exit_code: Option<i32>,
    pub duration_ms: u64,
    pub output: String,
    pub effect: Option<String>,
    pub artifact: Option<String>,
}

/// What a [`ModelPayload`] says.
pub struct ModelPayloadView {
    pub status: ToolStatus,
    pub program: Option<Seq<char>>,
    pub exit_code: Option<i32>,
    pub duration_ms: u64,
    pub output: Seq<char>,
    pub effect: Option<Seq<char>>,
    pub artifact: Option<Seq<char>>,
}

impl View for ModelPayload {
    type V = ModelPayloadView;

    open spec fn view(&self) -> ModelPayloadView {
        ModelPayloadView {
            status: self.status,
            program: opt_view(self.program),
            exit_code: self.exit_code,
            duration_ms: self.duration_ms,
            output: self.output@,
            effect: opt_view(self.effect),
            artifact: opt_view(self.artifact),
        }
    }
}

/// A copy of an optional text.
pub fn clone_text(text: &Option<String>) -> (r: Option<String>)
    ensures
        r == *text,
{
    match text {
        Some(value) => Some(value.clone()),
        None => None,
    }
}

impl Clone for ModelPayload {
    fn clone(&self) -> (r: Self)
        ensures
            r == *self,
    {
        ModelPayload {
            status: self.status,
            program: clone_text(&self.program),
            exit_code: self.exit_code,
            duration_ms: self.duration_ms,
            output: self.output.clone(),
            effect: clone_text(&self.effect),
            artifact: clone_text(&self.artifact),
        }
    }
}

/// The part of an outcome that only the session keeps.
#[derive(Debug, PartialEq, Eq)]
pub struct ToolMetadata {
    pub tool: String,
    pub target: Option<String>,
    pub diff: Option<String>,
}

/// What a [`ToolMetadata`] says.
pub struct ToolMetadataView {
    pub tool: Seq<char>,
    pub target: Option<Seq<char>>,
    pub diff: Option<Seq<char>>,
}

impl View for ToolMetadata {
    type V = ToolMetadataView;

    open spec fn view(&self) -> ToolMetadataView {
        ToolMetadataView {
            tool: self.tool@,
            target: opt_view(self.target),
            diff: opt_view(self.diff),
        }
    }
}

impl Clone for ToolMetadata {
    fn clone(&self) -> (r: Self)
        ensures
            r == *self,
    {
        ToolMetadata {
            tool: self.tool.clone(),
            target: clone_text(&self.target),
            diff: clone_text(&self.diff),
        }
    }
}

impl Default for ToolMetadata {
    fn default() -> (r: Self)
        ensures
            r@ == (ToolMetadataView { tool: Seq::empty(), target: None, diff: None }),
    {
        ToolMetadata { tool: String::new(), target: None, diff: None }
    }
}

/// An outcome as a session stores it.
#[derive(Debug, PartialEq, Eq)]
pub struct StoredToolOutcome {
    pub status: ToolStatus,
    pub model_payload: ModelPayload,
    pub session_metadata: ToolMetadata,
}

/// What a [`StoredToolOutcome`] says.
pub struct OutcomeView {
    pub status: ToolStatus,
    pub model_payload: ModelPayloadView,
    pub session_metadata: ToolMetadataView,
}

impl View for StoredToolOutcome {
    type V = OutcomeView;

    open spec fn view(&self) -> OutcomeView {
        OutcomeView {
            status: self.status,
            model_payload: self.model_payload@,
            session_metadata: self.session_metadata@,
        }
    }
}

impl Clone for StoredToolOutcome {
    fn clone(&self) -> (r: Self)
        ensures
            r == *self,
    {
        StoredToolOutcome {
            status: self.status,
            model_payload: self.model_payload.clone(),
            session_metadata: self.session_metadata.clone(),
        }
    }
}

/// The payload of a call that never ran a program: a status and what to tell the model.
pub open spec fn plain_payload(status: ToolStatus, output: Seq<char>) -> ModelPayloadView {
    ModelPayloadView {
        status,
        program: None,
        exit_code: None,
        duration_ms: 0,
        output,
        effect: None,
        artifact: None,
    }
}

/// The outcome of `tool` with the given payload.
pub open spec fn outcome_of(tool: Seq<char>, payload: ModelPayloadView) -> OutcomeView {
    OutcomeView {
        status: payload.status,
        model_payload: payload,
        session_metadata: ToolMetadataView { tool, target: None, diff: None },
    }
}

impl StoredToolOutcome {
    /// The outcome of `tool` with the given payload; the payload says how it ended.
    pub fn failed(tool: &str, payload: ModelPayload) -> (r: Self)
        ensures
            r@ == outcome_of(tool@, payload@),
    {
        StoredToolOutcome {
            status: payload.status,
            model_payload: payload,
            session_metadata: ToolMetadata { tool: tool.to_owned(), target: None, diff: None },
        }
    }

    /// The outcome of a `tool` that succeeded.
    pub fn succeeded(tool: &str, output: String) -> (r: Self)
        ensures
            r@ == outcome_of(tool@, plain_payload(ToolStatus::Succeeded, output@)),
    {
        Self::plain(tool, ToolStatus::Succeeded, output)
    }

    /// The outcome of `tool` with a status and what to tell the model.
    pub fn plain(tool: &str, status: ToolStatus, output: String) -> (r: Self)
        ensures
            r@ == outcome_of(tool@, plain_payload(status, output@)),
    {
        Self::failed(
            tool,
            ModelPayload {
                status,
                program: None,
                exit_code: None,
                duration_ms: 0,
                output,
                effect: None,
                artifact: None,
            },
        )
    }

    /// The name of the status.
    pub fn status_name(&self) -> (r: &'static str)
        ensures
            r@ == status_text(self.status),
    {
        status_str(self.status)
    }
}

} // verus!
