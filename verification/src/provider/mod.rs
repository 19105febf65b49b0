//! Model providers: the events of a stream, requests, responses and errors.
pub mod openai_compat;
pub mod request_replay;
pub mod trace;
pub mod wire_laws;

use crate::message::ChatMessage;
use crate::message::ToolCall;
use crate::message::ToolCallView;
use crate::message::ToolDef;
use crate::session::Usage;
use crate::text::owned;
use crate::text::views;
use vstd::prelude::*;
use vstd::string::*;

verus! {

/// An event of a provider's stream. None is written to disk one by one.
#[derive(Debug, PartialEq, Eq)]
pub enum ProviderEvent {
    ReasoningDelta(String),
    TextDelta(String),
    ToolCallStarted { index: u32, id: String, name: String },
    ToolArgumentsDelta { index: u32, chunk: String },
    Usage(Usage),
}

/// What a [`ProviderEvent`] says.
pub enum ProviderEventView {
    ReasoningDelta(Seq<char>),
    TextDelta(Seq<char>),
    ToolCallStarted { index: u32, id: Seq<char>, name: Seq<char> },
    ToolArgumentsDelta { index: u32, chunk: Seq<char> },
    Usage(Usage),
}

impl View for ProviderEvent {
    type V = ProviderEventView;

    open spec fn view(&self) -> ProviderEventView {
        match *self {
            ProviderEvent::ReasoningDelta(text) => ProviderEventView::ReasoningDelta(text@),
            ProviderEvent::TextDelta(text) => ProviderEventView::TextDelta(text@),
            ProviderEvent::ToolCallStarted { index, id, name } =>
                ProviderEventView::ToolCallStarted { index, id: id@, name: name@ },
            ProviderEvent::ToolArgumentsDelta { index, chunk } =>
                ProviderEventView::ToolArgumentsDelta { index, chunk: chunk@ },
            ProviderEvent::Usage(usage) => ProviderEventView::Usage(usage),
        }
    }
}

impl Clone for ProviderEvent {
    fn clone(&self) -> (r: Self)
        ensures
            r == *self,
    {
        match self {
            ProviderEvent::ReasoningDelta(text) => ProviderEvent::ReasoningDelta(text.clone()),
            ProviderEvent::TextDelta(text) => ProviderEvent::TextDelta(text.clone()),
            ProviderEvent::ToolCallStarted { index, id, name } => ProviderEvent::ToolCallStarted {
                index: *index,
                id: id.clone(),
                name: name.clone(),
            },
            ProviderEvent::ToolArgumentsDelta { index, chunk } =>
                ProviderEvent::ToolArgumentsDelta { index: *index, chunk: chunk.clone() },
            ProviderEvent::Usage(usage) => ProviderEvent::Usage(*usage),
        }
    }
}

/// Why a stream ended.
#[derive(Debug, Clone, Copy, PartialEq, Eq, Structural)]
pub enum FinishReason {
    /// The model is done and calls no tool.
    Stop,
    /// The model calls tools.
    ToolCalls,
    /// The output reached its length limit.
    Length,
    /// A filter stopped the output.
    ContentFilter,
    /// The protocol was broken, or the provider failed.
    Error,
}

/// A request to a model.
#[derive(Debug)]
pub struct ModelRequest {
    pub model: String,
    pub messages: Vec<ChatMessage>,
    pub tools: Vec<ToolDef>,
    pub max_output_tokens: Option<u32>,
    pub reasoning: Option<String>,
    pub context_window: Option<u64>,
}

/// What a finished stream came to.
#[derive(Debug)]
pub struct ProviderResponse {
    pub finish_reason: FinishReason,
    pub usage: Usage,
    pub tool_calls: Vec<ToolCall>,
}

/// What a [`ProviderResponse`] says.
pub struct ProviderResponseView {
    pub finish_reason: FinishReason,
    pub usage: Usage,
    pub tool_calls: Seq<ToolCallView>,
}

impl View for ProviderResponse {
    type V = ProviderResponseView;

    open spec fn view(&self) -> ProviderResponseView {
        ProviderResponseView {
            finish_reason: self.finish_reason,
            usage: self.usage,
            tool_calls: views(self.tool_calls@),
        }
    }
}

/// Why a request failed.
#[derive(Debug, PartialEq, Eq)]
pub enum ProviderError {
    /// The transport failed before anything of the answer arrived.
    Connection(String),
    /// The stream broke off after a part of the answer had arrived. The same request must
    /// not be sent again: what arrived would be repeated.
    StreamInterrupted(String),
    Http(String),
    Protocol(String),
    Auth(String),
    RateLimited(String),
    Cancelled,
}

/// What a [`ProviderError`] says.
pub enum ProviderErrorView {
    Connection(Seq<char>),
    StreamInterrupted(Seq<char>),
    Http(Seq<char>),
    Protocol(Seq<char>),
    Auth(Seq<char>),
    RateLimited(Seq<char>),
    Cancelled,
}

impl View for ProviderError {
    type V = ProviderErrorView;

    open spec fn view(&self) -> ProviderErrorView {
        match *self {
            ProviderError::Connection(text) => ProviderErrorView::Connection(text@),
            ProviderError::StreamInterrupted(text) => ProviderErrorView::StreamInterrupted(text@),
            ProviderError::Http(text) => ProviderErrorView::Http(text@),
            ProviderError::Protocol(text) => ProviderErrorView::Protocol(text@),
            ProviderError::Auth(text) => ProviderErrorView::Auth(text@),
            ProviderError::RateLimited(text) => ProviderErrorView::RateLimited(text@),
            ProviderError::Cancelled => ProviderErrorView::Cancelled,
        }
    }
}

/// An error in words.
pub open spec fn provider_error_text(error: ProviderErrorView) -> Seq<char> {
    match error {
        ProviderErrorView::Connection(text) => "connection failed: "@ + text,
        ProviderErrorView::StreamInterrupted(text) => "stream interrupted: "@ + text,
        ProviderErrorView::Http(text) => "http error: "@ + text,
        ProviderErrorView::Protocol(text) => "protocol error: "@ + text,
        ProviderErrorView::Auth(text) => "authentication failed: "@ + text,
        ProviderErrorView::RateLimited(text) => "rate limited: "@ + text,
        ProviderErrorView::Cancelled => "cancelled"@,
    }
}

impl ProviderError {
    /// The error in words.
    pub fn to_text(&self) -> (r: String)
        ensures
            r@ == provider_error_text(self@),
    {
        match self {
            ProviderError::Connection(text) => owned("connection failed: ").concat(text.as_str()),
            ProviderError::StreamInterrupted(text) => owned("stream interrupted: ").concat(
                text.as_str(),
            ),
            ProviderError::Http(text) => owned("http error: ").concat(text.as_str()),
            ProviderError::Protocol(text) => owned("protocol error: ").concat(text.as_str()),
            ProviderError::Auth(text) => owned("authentication failed: ").concat(text.as_str()),
            ProviderError::RateLimited(text) => owned("rate limited: ").concat(text.as_str()),
            ProviderError::Cancelled => owned("cancelled"),
        }
    }
}

/// How many events of a stream may be under way at once.
pub const EVENT_CHANNEL_CAPACITY: usize = 256;

} // verus!
