//! Providers that speak the Chat Completions protocol.
//!
//! Everything here is decided on plain values: what a request body holds, what an answer
//! of the server means, how the chunks of a stream add up, and when a failed request is
//! sent again. A request is sent again only while nothing of an answer has arrived.
use crate::ids::is_v7;
use crate::ids::ToolCallId;
use crate::json::add_member;
use crate::json::is_json;
use crate::json::json_array;
use crate::json::json_bool;
use crate::json::json_copy;
use crate::json::json_model;
use crate::json::json_models;
use crate::json::json_models_push;
use crate::json::json_number;
use crate::json::json_object;
use crate::json::json_parse;
use crate::json::json_string;
use crate::json::JsonModel;
use crate::message::ChatMessage;
use crate::message::ChatMessageView;
use crate::message::ToolCall;
use crate::message::ToolCallView;
use crate::message::ToolDef;
use crate::message::ToolDefView;
use crate::provider::FinishReason;
use crate::provider::ModelRequest;
use crate::provider::ProviderError;
use crate::provider::ProviderErrorView;
use crate::provider::ProviderEvent;
use crate::provider::ProviderEventView;
use crate::provider::ProviderResponse;
use crate::session::Usage;
use crate::text::decimal;
use crate::text::decimal_of;
use crate::text::has_prefix;
use crate::text::opt_view;
use crate::text::owned;
use crate::text::parse_unsigned;
use crate::text::same;
use crate::text::slice;
use crate::text::starts_with;
use crate::text::take;
use crate::text::take_of;
use crate::text::to_chars;
use crate::text::trim;
use crate::text::trim_of;
use crate::text::unsigned_value;
use crate::text::views;
use crate::text::views_push;
use vstd::prelude::*;
use vstd::string::*;

verus! {

/// A request is sent at most this many times.
pub const MAX_ATTEMPTS: u32 = 4;

/// Once the waits between attempts add up to this many nanoseconds, there is no other attempt.
pub const MAX_RETRY_WAIT: u128 = 60_000_000_000;

/// The first wait, in nanoseconds. Each further one is twice as long.
pub const INITIAL_BACKOFF: u128 = 500_000_000;

/// A jitter of 1, in the parts of [`backoff_delay`].
pub const NO_JITTER: u32 = 100_000;

/// What is known of a server: where it is and how to authenticate. What belongs to a
/// request is in the request alone.
#[derive(Debug, Clone, PartialEq, Eq)]
pub struct OpenAiCompatClient {
    pub base_url: String,
    pub api_key: String,
}

/// `s` without the slashes at its end.
pub open spec fn trim_slashes(s: Seq<char>) -> Seq<char>
    decreases s.len(),
{
    if s.len() > 0 && s.last() == '/' {
        trim_slashes(s.drop_last())
    } else {
        s
    }
}

fn without_slashes(text: &str) -> (r: String)
    ensures
        r@ == trim_slashes(text@),
{
    let chars = to_chars(text);
    let mut hi: usize = chars.len();
    assert(chars@.subrange(0, hi as int) =~= text@);
    while hi > 0 && chars[hi - 1] == '/'
        invariant
            hi <= chars@.len(),
            trim_slashes(chars@.subrange(0, hi as int)) == trim_slashes(text@),
        decreases hi,
    {
        let ghost before = chars@.subrange(0, hi as int);
        hi -= 1;
        assert(before.drop_last() =~= chars@.subrange(0, hi as int));
    }
    let r = slice(&chars, 0, hi);
    proof {
        if hi > 0 {
            assert(r@.last() == chars@[hi - 1]);
        }
    }
    r
}

/// The text of a JSON string.
pub open spec fn js(text: Seq<char>) -> JsonModel {
    JsonModel::Text(text)
}

/// A call as the protocol writes it.
pub open spec fn call_json(call: ToolCallView) -> JsonModel {
    JsonModel::Object(
        Map::<Seq<char>, JsonModel>::empty().insert("id"@, js(call.provider_id)).insert(
            "type"@,
            js("function"@),
        ).insert(
            "function"@,
            JsonModel::Object(
                Map::<Seq<char>, JsonModel>::empty().insert("name"@, js(call.name)).insert(
                    "arguments"@,
                    js(call.arguments),
                ),
            ),
        ),
    )
}

/// Calls as the protocol writes them.
pub open spec fn calls_json(calls: Seq<ToolCallView>) -> Seq<JsonModel> {
    Seq::new(calls.len(), |i: int| call_json(calls[i]))
}

/// A message as the protocol writes it. An assistant without calls has no member for them.
pub open spec fn message_json(message: ChatMessageView) -> JsonModel {
    let empty = Map::<Seq<char>, JsonModel>::empty();
    match message {
        ChatMessageView::System(content) => JsonModel::Object(
            empty.insert("role"@, js("system"@)).insert("content"@, js(content)),
        ),
        ChatMessageView::User(content) => JsonModel::Object(
            empty.insert("role"@, js("user"@)).insert("content"@, js(content)),
        ),
        ChatMessageView::Assistant { content, tool_calls } => {
            let plain = empty.insert("role"@, js("assistant"@)).insert("content"@, js(content));
            JsonModel::Object(
                if tool_calls.len() > 0 {
                    plain.insert("tool_calls"@, JsonModel::Array(calls_json(tool_calls)))
                } else {
                    plain
                },
            )
        },
        ChatMessageView::Tool { tool_call_id, name, content } => JsonModel::Object(
            empty.insert("role"@, js("tool"@)).insert("tool_call_id"@, js(tool_call_id)).insert(
                "content"@,
                js(content),
            ),
        ),
    }
}

/// A tool as the protocol writes it.
pub open spec fn tool_json(tool: ToolDefView) -> JsonModel {
    let empty = Map::<Seq<char>, JsonModel>::empty();
    JsonModel::Object(
        empty.insert("type"@, js("function"@)).insert(
            "function"@,
            JsonModel::Object(
                empty.insert("name"@, js(tool.name)).insert(
                    "description"@,
                    js(tool.description),
                ).insert("parameters"@, tool.parameters),
            ),
        ),
    )
}

/// A member, where there is a value for it.
pub open spec fn with_member(
    members: Map<Seq<char>, JsonModel>,
    name: Seq<char>,
    value: Option<JsonModel>,
) -> Map<Seq<char>, JsonModel> {
    match value {
        Some(value) => members.insert(name, value),
        None => members,
    }
}

/// The body of a request. Tools, reasoning and the output limit are left out where the
/// request has none; usage is asked for.
pub open spec fn body_json(request: ModelRequest) -> JsonModel {
    let messages = views(request.messages@);
    let tools = views(request.tools@);
    let empty = Map::<Seq<char>, JsonModel>::empty();
    let start = empty.insert("model"@, js(request.model@)).insert(
        "messages"@,
        JsonModel::Array(Seq::new(messages.len(), |i: int| message_json(messages[i]))),
    );
    let with_tools = with_member(
        start,
        "tools"@,
        if tools.len() > 0 {
            Some(JsonModel::Array(Seq::new(tools.len(), |i: int| tool_json(tools[i]))))
        } else {
            None
        },
    );
    let with_reasoning = with_member(
        with_tools,
        "reasoning"@,
        match request.reasoning {
            Some(text) => Some(js(text@)),
            None => None,
        },
    );
    let with_limit = with_member(
        with_reasoning,
        "max_tokens"@,
        match request.max_output_tokens {
            Some(n) => Some(JsonModel::Number(decimal_of(n as nat))),
            None => None,
        },
    );
    JsonModel::Object(
        with_limit.insert("stream"@, JsonModel::Bool(true)).insert(
            "stream_options"@,
            JsonModel::Object(empty.insert("include_usage"@, JsonModel::Bool(true))),
        ),
    )
}

fn call_to_json(call: &ToolCall) -> (r: serde_json::Value)
    ensures
        json_model(r) == call_json(call@),
{
    let mut function: Vec<(String, serde_json::Value)> = Vec::new();
    add_member(&mut function, "name", json_string(call.name.clone()));
    add_member(&mut function, "arguments", json_string(call.arguments.clone()));
    let mut out: Vec<(String, serde_json::Value)> = Vec::new();
    add_member(&mut out, "id", json_string(call.provider_id.clone()));
    add_member(&mut out, "type", json_string(owned("function")));
    add_member(&mut out, "function", json_object(function));
    json_object(out)
}

/// A message as the protocol writes it.
pub fn message_to_json(message: &ChatMessage) -> (r: serde_json::Value)
    ensures
        json_model(r) == message_json(message@),
{
    let mut out: Vec<(String, serde_json::Value)> = Vec::new();
    match message {
        ChatMessage::System(content) => {
            add_member(&mut out, "role", json_string(owned("system")));
            add_member(&mut out, "content", json_string(content.clone()));
        },
        ChatMessage::User(content) => {
            add_member(&mut out, "role", json_string(owned("user")));
            add_member(&mut out, "content", json_string(content.clone()));
        },
        ChatMessage::Assistant { content, tool_calls } => {
            add_member(&mut out, "role", json_string(owned("assistant")));
            add_member(&mut out, "content", json_string(content.clone()));
            if tool_calls.len() > 0 {
                let mut calls: Vec<serde_json::Value> = Vec::new();
                let ghost wanted = calls_json(views(tool_calls@));
                let mut i: usize = 0;
                assert(json_models(calls@) =~= wanted.take(0));
                while i < tool_calls.len()
                    invariant
                        i <= tool_calls@.len(),
                        wanted == calls_json(views(tool_calls@)),
                        json_models(calls@) == wanted.take(i as int),
                    decreases tool_calls@.len() - i,
                {
                    let value = call_to_json(&tool_calls[i]);
                    proof {
                        json_models_push(calls@, value);
                        assert(wanted[i as int] == call_json(tool_calls@[i as int]@));
                    }
                    calls.push(value);
                    i += 1;
                    assert(json_models(calls@) =~= wanted.take(i as int));
                }
                assert(wanted.take(i as int) =~= wanted);
                add_member(&mut out, "tool_calls", json_array(calls));
            }
        },
        ChatMessage::Tool { tool_call_id, name, content } => {
            add_member(&mut out, "role", json_string(owned("tool")));
            add_member(&mut out, "tool_call_id", json_string(tool_call_id.clone()));
            add_member(&mut out, "content", json_string(content.clone()));
        },
    }
    json_object(out)
}

fn tool_to_json(tool: &ToolDef) -> (r: serde_json::Value)
    ensures
        json_model(r) == tool_json(tool@),
{
    let mut function: Vec<(String, serde_json::Value)> = Vec::new();
    add_member(&mut function, "name", json_string(tool.name.clone()));
    add_member(&mut function, "description", json_string(tool.description.clone()));
    add_member(&mut function, "parameters", json_copy(&tool.parameters));
    let mut out: Vec<(String, serde_json::Value)> = Vec::new();
    add_member(&mut out, "type", json_string(owned("function")));
    add_member(&mut out, "function", json_object(function));
    json_object(out)
}

/// Where requests are sent.
pub open spec fn address_of(base_url: Seq<char>) -> Seq<char> {
    base_url + "/chat/completions"@
}

impl OpenAiCompatClient {
    /// The client of a server. Only the address and the key are kept; the rest belongs to
    /// each request.
    pub fn new(
        base_url: String,
        _model: String,
        api_key: String,
        _reasoning: Option<String>,
        _max_output_tokens: Option<u32>,
        _context_window: Option<u64>,
    ) -> (r: Self)
        ensures
            r.base_url@ == trim_slashes(base_url@),
            r.api_key == api_key,
    {
        OpenAiCompatClient { base_url: without_slashes(base_url.as_str()), api_key }
    }

    /// Where requests are sent.
    pub fn url(&self) -> (r: String)
        ensures
            r@ == address_of(self.base_url@),
    {
        self.base_url.clone().concat("/chat/completions")
    }

    /// The body of a request.
    pub fn build_body(&self, request: &ModelRequest) -> (r: serde_json::Value)
        ensures
            json_model(r) == body_json(*request),
    {
        let mut messages: Vec<serde_json::Value> = Vec::new();
        let ghost listed = views(request.messages@);
        let ghost wanted = Seq::new(listed.len(), |i: int| message_json(listed[i]));
        let mut i: usize = 0;
        assert(json_models(messages@) =~= wanted.take(0));
        while i < request.messages.len()
            invariant
                i <= request.messages@.len(),
                listed == views(request.messages@),
                wanted == Seq::new(listed.len(), |i: int| message_json(listed[i])),
                json_models(messages@) == wanted.take(i as int),
            decreases request.messages@.len() - i,
        {
            let value = message_to_json(&request.messages[i]);
            proof {
                json_models_push(messages@, value);
                assert(wanted[i as int] == message_json(request.messages@[i as int]@));
            }
            messages.push(value);
            i += 1;
            assert(json_models(messages@) =~= wanted.take(i as int));
        }
        assert(wanted.take(i as int) =~= wanted);
        let mut tools: Vec<serde_json::Value> = Vec::new();
        let ghost defs = views(request.tools@);
        let ghost schemas = Seq::new(defs.len(), |i: int| tool_json(defs[i]));
        let mut j: usize = 0;
        assert(json_models(tools@) =~= schemas.take(0));
        while j < request.tools.len()
            invariant
                j <= request.tools@.len(),
                defs == views(request.tools@),
                schemas == Seq::new(defs.len(), |i: int| tool_json(defs[i])),
                json_models(tools@) == schemas.take(j as int),
            decreases request.tools@.len() - j,
        {
            let value = tool_to_json(&request.tools[j]);
            proof {
                json_models_push(tools@, value);
                assert(schemas[j as int] == tool_json(request.tools@[j as int]@));
            }
            tools.push(value);
            j += 1;
            assert(json_models(tools@) =~= schemas.take(j as int));
        }
        assert(schemas.take(j as int) =~= schemas);
        let mut body: Vec<(String, serde_json::Value)> = Vec::new();
        add_member(&mut body, "model", json_string(request.model.clone()));
        add_member(&mut body, "messages", json_array(messages));
        if tools.len() > 0 {
            add_member(&mut body, "tools", json_array(tools));
        }
        if let Some(reasoning) = &request.reasoning {
            add_member(&mut body, "reasoning", json_string(reasoning.clone()));
        }
        if let Some(max_tokens) = request.max_output_tokens {
            add_member(&mut body, "max_tokens", json_number(max_tokens as u64));
        }
        add_member(&mut body, "stream", json_bool(true));
        let mut options: Vec<(String, serde_json::Value)> = Vec::new();
        add_member(&mut options, "include_usage", json_bool(true));
        add_member(&mut body, "stream_options", json_object(options));
        json_object(body)
    }
}

/// One chunk of a stream.
#[derive(Debug, Clone, PartialEq, Eq)]
pub struct SseChunk {
    pub choices: Vec<SseChoice>,
    pub usage: Option<SseUsage>,
}

/// One choice of a chunk.
#[derive(Debug, Clone, PartialEq, Eq)]
pub struct SseChoice {
    pub delta: SseDelta,
    pub finish_reason: Option<String>,
}

/// What a choice adds.
#[derive(Debug, Clone, PartialEq, Eq)]
pub struct SseDelta {
    pub content: Option<String>,
    pub reasoning_content: Option<String>,
    pub tool_calls: Vec<SseToolCallDelta>,
}

/// What a choice adds to a call.
#[derive(Debug, Clone, PartialEq, Eq)]
pub struct SseToolCallDelta {
    pub index: Option<u32>,
    pub id: Option<String>,
    pub function: Option<SseFunctionDelta>,
}

/// What a choice adds to the name and arguments of a call.
#[derive(Debug, Clone, PartialEq, Eq)]
pub struct SseFunctionDelta {
    pub name: Option<String>,
    pub arguments: Option<String>,
}

/// The usage of a chunk.
#[derive(Debug, Clone, Copy, PartialEq, Eq, Structural)]
pub struct SseUsage {
    pub prompt_tokens: Option<u64>,
    pub completion_tokens: Option<u64>,
    pub prompt_tokens_details: Option<PromptTokensDetails>,
}

/// How many prompt tokens came from a cache.
#[derive(Debug, Clone, Copy, PartialEq, Eq, Structural)]
pub struct PromptTokensDetails {
    pub cached_tokens: Option<u64>,
}

/// A call as far as its stream has come.
#[derive(Debug, Clone, PartialEq, Eq)]
pub struct PendingToolCall {
    pub provider_id: Option<String>,
    pub name: String,
    pub arguments: String,
}

/// What a [`PendingToolCall`] says.
pub struct PendingView {
    pub provider_id: Option<Seq<char>>,
    pub name: Seq<char>,
    pub arguments: Seq<char>,
}

impl View for PendingToolCall {
    type V = PendingView;

    open spec fn view(&self) -> PendingView {
        PendingView {
            provider_id: opt_view(self.provider_id),
            name: self.name@,
            arguments: self.arguments@,
        }
    }
}

/// A stream as far as it has come.
#[derive(Debug, Clone, PartialEq, Eq)]
pub struct StreamState {
    pub pending: Vec<PendingToolCall>,
    pub finish_reason: Option<FinishReason>,
    pub usage: Usage,
    /// Whether something of the answer has arrived: text, reasoning, a call, or its end.
    pub received_any: bool,
}

/// What a [`StreamState`] says.
pub struct StreamView {
    pub pending: Seq<PendingView>,
    pub finish_reason: Option<FinishReason>,
    pub usage: Usage,
    pub received_any: bool,
}

impl View for StreamState {
    type V = StreamView;

    open spec fn view(&self) -> StreamView {
        StreamView {
            pending: views(self.pending@),
            finish_reason: self.finish_reason,
            usage: self.usage,
            received_any: self.received_any,
        }
    }
}

/// A call of which nothing has come.
pub open spec fn no_call() -> PendingView {
    PendingView { provider_id: None, name: Seq::empty(), arguments: Seq::empty() }
}

/// The name that a delta gives its call.
pub open spec fn delta_name(call: SseToolCallDelta) -> Option<Seq<char>> {
    match call.function {
        Some(function) => opt_view(function.name),
        None => None,
    }
}

/// The arguments that a delta adds to its call.
pub open spec fn delta_arguments(call: SseToolCallDelta) -> Seq<char> {
    match call.function {
        Some(function) => match function.arguments {
            Some(text) => text@,
            None => Seq::empty(),
        },
        None => Seq::empty(),
    }
}

/// The position of a delta's call.
pub open spec fn delta_index(call: SseToolCallDelta) -> u32 {
    match call.index {
        Some(index) => index,
        None => 0,
    }
}

/// The calls, with empty ones up to position `index`.
pub open spec fn padded(pending: Seq<PendingView>, index: int) -> Seq<PendingView> {
    if pending.len() > index {
        pending
    } else {
        pending + Seq::new((index + 1 - pending.len()) as nat, |i: int| no_call())
    }
}

/// A call with what a delta adds.
pub open spec fn delta_slot(slot: PendingView, call: SseToolCallDelta) -> PendingView {
    PendingView {
        provider_id: match call.id {
            Some(id) => Some(id@),
            None => slot.provider_id,
        },
        name: match delta_name(call) {
            Some(name) => name,
            None => slot.name,
        },
        arguments: slot.arguments + delta_arguments(call),
    }
}

/// The calls with what a delta adds.
pub open spec fn delta_pending(pending: Seq<PendingView>, call: SseToolCallDelta) -> Seq<
    PendingView,
> {
    let index = delta_index(call) as int;
    let grown = padded(pending, index);
    grown.update(index, delta_slot(grown[index], call))
}

/// The events of a delta: the start of a call where it gives a name, and arguments where
/// it adds some.
pub open spec fn delta_events(pending: Seq<PendingView>, call: SseToolCallDelta) -> Seq<
    ProviderEventView,
> {
    let index = delta_index(call);
    let slot = delta_pending(pending, call)[index as int];
    (match delta_name(call) {
        Some(name) => seq![
            ProviderEventView::ToolCallStarted {
                index,
                id: match slot.provider_id {
                    Some(id) => id,
                    None => Seq::empty(),
                },
                name,
            },
        ],
        None => Seq::empty(),
    }) + (if delta_arguments(call).len() > 0 {
        seq![ProviderEventView::ToolArgumentsDelta { index, chunk: delta_arguments(call) }]
    } else {
        Seq::empty()
    })
}

/// The calls after some deltas.
pub open spec fn deltas_pending(pending: Seq<PendingView>, calls: Seq<SseToolCallDelta>) -> Seq<
    PendingView,
>
    decreases calls.len(),
{
    if calls.len() == 0 {
        pending
    } else {
        delta_pending(deltas_pending(pending, calls.drop_last()), calls.last())
    }
}

/// The events of some deltas.
pub open spec fn deltas_events(pending: Seq<PendingView>, calls: Seq<SseToolCallDelta>) -> Seq<
    ProviderEventView,
>
    decreases calls.len(),
{
    if calls.len() == 0 {
        Seq::empty()
    } else {
        deltas_events(pending, calls.drop_last()) + delta_events(
            deltas_pending(pending, calls.drop_last()),
            calls.last(),
        )
    }
}

/// Whether an optional text is there and not empty.
pub open spec fn says_something(text: Option<String>) -> bool {
    text matches Some(text) && text@.len() > 0
}

/// The stream after a choice.
pub open spec fn choice_state(state: StreamView, choice: SseChoice) -> StreamView {
    StreamView {
        pending: deltas_pending(state.pending, choice.delta.tool_calls@),
        finish_reason: match choice.finish_reason {
            Some(reason) => Some(finish_reason_of(reason@)),
            None => state.finish_reason,
        },
        received_any: state.received_any || says_something(choice.delta.content) || says_something(
            choice.delta.reasoning_content,
        ) || choice.delta.tool_calls@.len() > 0 || choice.finish_reason is Some,
        ..state
    }
}

/// The events of a choice: its text, its reasoning, its calls.
pub open spec fn choice_events(state: StreamView, choice: SseChoice) -> Seq<ProviderEventView> {
    (if says_something(choice.delta.content) {
        seq![ProviderEventView::TextDelta(choice.delta.content->0@)]
    } else {
        Seq::empty()
    }) + (if says_something(choice.delta.reasoning_content) {
        seq![ProviderEventView::ReasoningDelta(choice.delta.reasoning_content->0@)]
    } else {
        Seq::empty()
    }) + deltas_events(state.pending, choice.delta.tool_calls@)
}

/// The stream after some choices.
pub open spec fn choices_state(state: StreamView, choices: Seq<SseChoice>) -> StreamView
    decreases choices.len(),
{
    if choices.len() == 0 {
        state
    } else {
        choice_state(choices_state(state, choices.drop_last()), choices.last())
    }
}

/// The events of some choices.
pub open spec fn choices_events(state: StreamView, choices: Seq<SseChoice>) -> Seq<
    ProviderEventView,
>
    decreases choices.len(),
{
    if choices.len() == 0 {
        Seq::empty()
    } else {
        choices_events(state, choices.drop_last()) + choice_events(
            choices_state(state, choices.drop_last()),
            choices.last(),
        )
    }
}

/// A number, or 0 where there is none.
pub open spec fn or_zero(n: Option<u64>) -> u64 {
    match n {
        Some(n) => n,
        None => 0,
    }
}

/// The usage that a chunk reports.
pub open spec fn usage_of(usage: SseUsage) -> Usage {
    Usage {
        input_tokens: or_zero(usage.prompt_tokens),
        output_tokens: or_zero(usage.completion_tokens),
        cache_read_tokens: match usage.prompt_tokens_details {
            Some(details) => or_zero(details.cached_tokens),
            None => 0,
        },
    }
}

/// The stream after a chunk.
pub open spec fn chunk_state(state: StreamView, chunk: SseChunk) -> StreamView {
    let after = choices_state(state, chunk.choices@);
    StreamView {
        usage: match chunk.usage {
            Some(usage) => usage_of(usage),
            None => after.usage,
        },
        ..after
    }
}

/// What a finish reason of the protocol means.
pub open spec fn finish_reason_of(reason: Seq<char>) -> FinishReason {
    if reason == "stop"@ {
        FinishReason::Stop
    } else if reason == "tool_calls"@ || reason == "function_calls"@ {
        FinishReason::ToolCalls
    } else if reason == "length"@ {
        FinishReason::Length
    } else if reason == "content_filter"@ {
        FinishReason::ContentFilter
    } else {
        FinishReason::Error
    }
}

/// What a finish reason of the protocol means.
pub fn parse_finish_reason(reason: &str) -> (r: FinishReason)
    ensures
        r == finish_reason_of(reason@),
{
    if same(reason, "stop") {
        FinishReason::Stop
    } else if same(reason, "tool_calls") || same(reason, "function_calls") {
        FinishReason::ToolCalls
    } else if same(reason, "length") {
        FinishReason::Length
    } else if same(reason, "content_filter") {
        FinishReason::ContentFilter
    } else {
        FinishReason::Error
    }
}

fn push_event(events: &mut Vec<ProviderEvent>, event: ProviderEvent)
    ensures
        views(final(events)@) == views(old(events)@) + seq![event@],
{
    proof {
        views_push(events@, event);
        assert(views(events@).push(event@) =~= views(events@) + seq![event@]);
    }
    events.push(event);
}

fn apply_delta(
    pending: &mut Vec<PendingToolCall>,
    call: &SseToolCallDelta,
    events: &mut Vec<ProviderEvent>,
)
    ensures
        views(final(pending)@) == delta_pending(views(old(pending)@), *call),
        views(final(events)@) == views(old(events)@) + delta_events(views(old(pending)@), *call),
{
    let ghost before = views(pending@);
    let ghost said = views(events@);
    let number: u32 = match call.index {
        Some(index) => index,
        None => 0,
    };
    let index: usize = number as usize;
    assert(before =~= padded(before, before.len() as int - 1) || before.len() == 0);
    while pending.len() <= index
        invariant
            before.len() <= pending@.len(),
            pending@.len() <= index + 1 || pending@.len() == before.len(),
            views(pending@) == before + Seq::new(
                (pending@.len() - before.len()) as nat,
                |i: int| no_call(),
            ),
        decreases index + 1 - pending@.len(),
    {
        let empty = PendingToolCall {
            provider_id: None,
            name: String::new(),
            arguments: String::new(),
        };
        proof {
            views_push(pending@, empty);
        }
        pending.push(empty);
        assert(views(pending@) =~= before + Seq::new(
            (pending@.len() - before.len()) as nat,
            |i: int| no_call(),
        ));
    }
    let ghost grown = padded(before, index as int);
    assert(views(pending@) =~= grown);
    let slot = &pending[index];
    assert(grown[index as int] == slot@);
    let provider_id = match &call.id {
        Some(id) => Some(id.clone()),
        None => match &slot.provider_id {
            Some(id) => Some(id.clone()),
            None => None,
        },
    };
    let mut name = slot.name.clone();
    let mut arguments = slot.arguments.clone();
    if let Some(function) = &call.function {
        if let Some(given) = &function.name {
            name = given.clone();
            let id = match &provider_id {
                Some(id) => id.clone(),
                None => String::new(),
            };
            push_event(
                events,
                ProviderEvent::ToolCallStarted { index: number, id, name: given.clone() },
            );
        }
        if let Some(more) = &function.arguments {
            if !more.as_str().is_empty() {
                arguments.append(more.as_str());
                push_event(
                    events,
                    ProviderEvent::ToolArgumentsDelta { index: number, chunk: more.clone() },
                );
            }
        }
    }
    let next = PendingToolCall { provider_id, name, arguments };
    let ghost old_pending = pending@;
    pending.set(index, next);
    proof {
        assert(next@ == delta_slot(grown[index as int], *call)) by {
            assert(arguments@ =~= grown[index as int].arguments + delta_arguments(*call));
        }
        assert(views(pending@) =~= grown.update(index as int, next@));
        assert(views(events@) =~= said + delta_events(before, *call));
    }
}

fn apply_choice(state: &mut StreamState, choice: &SseChoice, events: &mut Vec<ProviderEvent>)
    ensures
        final(state)@ == choice_state(old(state)@, *choice),
        views(final(events)@) == views(old(events)@) + choice_events(old(state)@, *choice),
{
    let ghost before = state@;
    let ghost said = views(events@);
    let mut semantic = false;
    if let Some(content) = &choice.delta.content {
        if !content.as_str().is_empty() {
            semantic = true;
            push_event(events, ProviderEvent::TextDelta(content.clone()));
        }
    }
    if let Some(reasoning) = &choice.delta.reasoning_content {
        if !reasoning.as_str().is_empty() {
            semantic = true;
            push_event(events, ProviderEvent::ReasoningDelta(reasoning.clone()));
        }
    }
    let ghost spoken = views(events@);
    let calls = &choice.delta.tool_calls;
    let mut i: usize = 0;
    assert(spoken + deltas_events(before.pending, calls@.take(0)) =~= spoken);
    while i < calls.len()
        invariant
            i <= calls@.len(),
            views(state.pending@) == deltas_pending(before.pending, calls@.take(i as int)),
            views(events@) == spoken + deltas_events(before.pending, calls@.take(i as int)),
            state.finish_reason == before.finish_reason,
            state.usage == before.usage,
            state.received_any == before.received_any,
        decreases calls@.len() - i,
    {
        proof {
            let next = calls@.take(i + 1);
            assert(next.drop_last() =~= calls@.take(i as int));
            assert(next.last() == calls@[i as int]);
        }
        let ghost so_far = views(events@);
        apply_delta(&mut state.pending, &calls[i], events);
        assert(views(events@) =~= spoken + deltas_events(before.pending, calls@.take(i + 1)));
        i += 1;
    }
    assert(calls@.take(i as int) =~= calls@);
    if calls.len() > 0 {
        semantic = true;
    }
    if let Some(reason) = &choice.finish_reason {
        semantic = true;
        state.finish_reason = Some(parse_finish_reason(reason.as_str()));
    }
    if semantic {
        state.received_any = true;
    }
    assert(views(events@) =~= said + choice_events(before, *choice));
}

impl StreamState {
    /// A stream of which nothing has come.
    pub fn new() -> (r: Self)
        ensures
            r@ == (StreamView {
                pending: Seq::empty(),
                finish_reason: None,
                usage: Usage { input_tokens: 0, output_tokens: 0, cache_read_tokens: 0 },
                received_any: false,
            }),
    {
        let r = StreamState {
            pending: Vec::new(),
            finish_reason: None,
            usage: Usage { input_tokens: 0, output_tokens: 0, cache_read_tokens: 0 },
            received_any: false,
        };
        assert(r@.pending =~= Seq::<PendingView>::empty());
        r
    }

    /// Takes in a chunk and gives the events to pass on.
    pub fn apply_chunk(&mut self, chunk: &SseChunk) -> (events: Vec<ProviderEvent>)
        ensures
            final(self)@ == chunk_state(old(self)@, *chunk),
            views(events@) == choices_events(old(self)@, chunk.choices@),
    {
        let ghost before = self@;
        let mut events: Vec<ProviderEvent> = Vec::new();
        let mut i: usize = 0;
        assert(views(events@) =~= Seq::<ProviderEventView>::empty());
        while i < chunk.choices.len()
            invariant
                i <= chunk.choices@.len(),
                self@ == choices_state(before, chunk.choices@.take(i as int)),
                views(events@) == choices_events(before, chunk.choices@.take(i as int)),
            decreases chunk.choices@.len() - i,
        {
            proof {
                let next = chunk.choices@.take(i + 1);
                assert(next.drop_last() =~= chunk.choices@.take(i as int));
                assert(next.last() == chunk.choices@[i as int]);
            }
            apply_choice(self, &chunk.choices[i], &mut events);
            i += 1;
        }
        assert(chunk.choices@.take(i as int) =~= chunk.choices@);
        if let Some(usage) = &chunk.usage {
            self.usage = Usage {
                input_tokens: match usage.prompt_tokens {
                    Some(n) => n,
                    None => 0,
                },
                output_tokens: match usage.completion_tokens {
                    Some(n) => n,
                    None => 0,
                },
                cache_read_tokens: match usage.prompt_tokens_details {
                    Some(details) => match details.cached_tokens {
                        Some(n) => n,
                        None => 0,
                    },
                    None => 0,
                },
            };
        }
        events
    }
}

/// What to do with an event of a stream.
#[derive(Debug, PartialEq, Eq)]
pub enum SseAction {
    /// The server reports an error.
    Fail(ProviderError),
    /// The event says nothing.
    Skip,
    /// The stream is complete.
    Done,
    /// The data is a chunk to be read.
    Chunk,
}

/// What to do with an event of a stream: an error event fails, a ping or blank data is
/// skipped, `[DONE]` ends the stream, and all else is a chunk.
pub fn classify_sse(event: &str, data: &str) -> (r: SseAction)
    ensures
        match r {
            SseAction::Fail(error) => event@ == "error"@ && error@ == ProviderErrorView::Protocol(
                data@,
            ),
            SseAction::Skip => event@ != "error"@ && (event@ == "ping"@ || trim_of(data@).len()
                == 0),
            SseAction::Done => event@ != "error"@ && event@ != "ping"@ && trim_of(data@)
                == "[DONE]"@,
            SseAction::Chunk => event@ != "error"@ && event@ != "ping"@ && trim_of(data@).len() > 0
                && trim_of(data@) != "[DONE]"@,
        },
{
    if same(event, "error") {
        return SseAction::Fail(ProviderError::Protocol(owned(data)));
    }
    let content = trim(data);
    if same(event, "ping") || content.as_str().is_empty() {
        return SseAction::Skip;
    }
    if same(content.as_str(), "[DONE]") {
        return SseAction::Done;
    }
    SseAction::Chunk
}

/// Whether a stream whose transport failed may be asked for again: only where nothing of it
/// had arrived.
pub open spec fn may_ask_again(received_any: bool) -> bool {
    !received_any
}

/// Whether a stream whose transport failed may be asked for again.
pub fn sse_transport_error_retryable(received_any: bool) -> (r: bool)
    ensures
        r == may_ask_again(received_any),
{
    !received_any
}

/// The error of a stream that broke off: interrupted where a part of the answer had
/// arrived, no connection where none had.
pub open spec fn broken_stream(received_any: bool, message: Seq<char>) -> ProviderErrorView {
    if received_any {
        ProviderErrorView::StreamInterrupted(message)
    } else {
        ProviderErrorView::Connection(message)
    }
}

fn broken(received_any: bool, message: String) -> (r: ProviderError)
    ensures
        r@ == broken_stream(received_any, message@),
{
    if received_any {
        ProviderError::StreamInterrupted(message)
    } else {
        ProviderError::Connection(message)
    }
}

/// What a stream came to.
#[derive(Debug)]
pub enum ConsumeResult {
    Complete(ProviderResponse),
    Failed {
        error: ProviderError,
        /// Whether the request may be sent again: nothing of the answer had arrived.
        retryable: bool,
    },
}

/// The calls that have a name.
pub open spec fn named_calls(pending: Seq<PendingView>) -> Seq<PendingView>
    decreases pending.len(),
{
    if pending.len() == 0 {
        Seq::empty()
    } else {
        let rest = named_calls(pending.drop_last());
        if pending.last().name.len() > 0 {
            rest.push(pending.last())
        } else {
            rest
        }
    }
}

/// Whether the arguments of a call are complete: blank, or a JSON document.
pub open spec fn complete_arguments(arguments: Seq<char>) -> bool {
    trim_of(arguments).len() == 0 || json_parse(arguments) is Some
}

/// Whether a call is what a pending one came to. Its own identifier is a new one, of version
/// 7; that no two are the same rests on the clock and on chance.
pub open spec fn call_from(call: ToolCallView, pending: PendingView) -> bool {
    &&& is_v7(call.call_id.0)
    &&& call.provider_id == match pending.provider_id {
        Some(id) => id,
        None => Seq::empty(),
    }
    &&& call.name == pending.name
    &&& call.arguments == pending.arguments
}

/// What an ended stream comes to.
///
/// A stream that ends without `[DONE]` and without a finish reason broke off. Arguments
/// that are no JSON document, and a finish for tool calls without any, break the protocol.
pub open spec fn finished(state: StreamView, saw_done: bool, result: ConsumeResult) -> bool {
    let calls = named_calls(state.pending);
    let reason = match state.finish_reason {
        Some(reason) => reason,
        None => FinishReason::Error,
    };
    if !saw_done && state.finish_reason is None {
        result matches ConsumeResult::Failed { error, retryable } && error@ == broken_stream(
            state.received_any,
            if state.received_any {
                "stream ended before [DONE] and no finish_reason"@
            } else {
                "empty stream"@
            },
        ) && retryable == !state.received_any
    } else if exists|i: int|
        0 <= i < calls.len() && !complete_arguments(#[trigger] calls[i].arguments) {
        result matches ConsumeResult::Failed { error, retryable } && error@
            == ProviderErrorView::Protocol("incomplete tool arguments"@) && !retryable
    } else if reason == FinishReason::ToolCalls && calls.len() == 0 {
        result matches ConsumeResult::Failed { error, retryable } && error@
            == ProviderErrorView::Protocol(
            "finish_reason=tool_calls but no tool calls received"@,
        ) && !retryable
    } else {
        result matches ConsumeResult::Complete(response) && response.finish_reason == reason
            && response.usage == state.usage && response.tool_calls@.len() == calls.len()
            && forall|i: int|
            0 <= i < calls.len() ==> call_from(#[trigger] response.tool_calls@[i]@, calls[i])
    }
}

impl StreamState {
    /// What the stream comes to once it has ended; `saw_done` says whether `[DONE]` ended it.
    pub fn finish(&self, saw_done: bool) -> (r: ConsumeResult)
        ensures
            finished(self@, saw_done, r),
    {
        if !saw_done && self.finish_reason.is_none() {
            let message = if self.received_any {
                owned("stream ended before [DONE] and no finish_reason")
            } else {
                owned("empty stream")
            };
            return ConsumeResult::Failed {
                error: broken(self.received_any, message),
                retryable: sse_transport_error_retryable(self.received_any),
            };
        }
        let mut calls: Vec<ToolCall> = Vec::new();
        let ghost named = named_calls(self@.pending);
        let mut i: usize = 0;
        while i < self.pending.len()
            invariant
                saw_done || self.finish_reason is Some,
                i <= self.pending@.len(),
                named == named_calls(self@.pending),
                ({
                    let part = named_calls(self@.pending.take(i as int));
                    &&& calls@.len() == part.len()
                    &&& forall|j: int|
                        0 <= j < part.len() ==> call_from(#[trigger] calls@[j]@, part[j])
                    &&& forall|j: int|
                        0 <= j < part.len() ==> complete_arguments(#[trigger] part[j].arguments)
                }),
            decreases self.pending@.len() - i,
        {
            let call = &self.pending[i];
            let ghost part = named_calls(self@.pending.take(i as int));
            let ghost longer = self@.pending.take(i + 1);
            proof {
                assert(longer.drop_last() =~= self@.pending.take(i as int));
                assert(longer.last() == call@);
            }
            if !call.name.as_str().is_empty() {
                let content = trim(call.arguments.as_str());
                if !content.as_str().is_empty() && !is_json(call.arguments.as_str()) {
                    proof {
                        lemma_named_prefix(self@.pending, i + 1);
                        let k = part.len() as int;
                        assert(named_calls(longer)[k] == call@);
                        assert(named[k] == call@);
                        assert(!complete_arguments(named[k].arguments));
                    }
                    return ConsumeResult::Failed {
                        error: ProviderError::Protocol(owned("incomplete tool arguments")),
                        retryable: false,
                    };
                }
                let provider_id = match &call.provider_id {
                    Some(id) => id.clone(),
                    None => String::new(),
                };
                let ghost before = calls@;
                let next = ToolCall {
                    call_id: ToolCallId::new_v7(),
                    provider_id,
                    name: call.name.clone(),
                    arguments: call.arguments.clone(),
                };
                calls.push(next);
                proof {
                    assert(named_calls(longer) == part.push(call@));
                    assert(call_from(next@, call@));
                    assert forall|j: int| 0 <= j < part.len() + 1 implies call_from(
                        #[trigger] calls@[j]@,
                        part.push(call@)[j],
                    ) by {
                        if j < part.len() {
                            assert(calls@[j] == before[j]);
                        }
                    }
                    assert forall|j: int| 0 <= j < part.len() + 1 implies complete_arguments(
                        #[trigger] part.push(call@)[j].arguments,
                    ) by {
                        if j < part.len() {
                            assert(part.push(call@)[j] == part[j]);
                        }
                    }
                }
            }
            i += 1;
        }
        assert(self@.pending.take(i as int) =~= self@.pending);
        let finish_reason = match self.finish_reason {
            Some(reason) => reason,
            None => FinishReason::Error,
        };
        if finish_reason == FinishReason::ToolCalls && calls.len() == 0 {
            return ConsumeResult::Failed {
                error: ProviderError::Protocol(
                    owned("finish_reason=tool_calls but no tool calls received"),
                ),
                retryable: false,
            };
        }
        ConsumeResult::Complete(
            ProviderResponse { finish_reason, usage: self.usage, tool_calls: calls },
        )
    }

    /// What the stream comes to where its transport failed.
    pub fn transport_failed(&self, message: String) -> (r: ConsumeResult)
        ensures
            r matches ConsumeResult::Failed { error, retryable } && error@ == broken_stream(
                self.received_any,
                message@,
            ) && retryable == !self.received_any,
    {
        ConsumeResult::Failed {
            error: broken(self.received_any, message),
            retryable: sse_transport_error_retryable(self.received_any),
        }
    }
}

proof fn lemma_named_prefix(pending: Seq<PendingView>, n: int)
    requires
        0 <= n <= pending.len(),
    ensures
        named_calls(pending.take(n)).len() <= named_calls(pending).len(),
        forall|j: int|
            0 <= j < named_calls(pending.take(n)).len() ==> named_calls(pending)[j]
                == #[trigger] named_calls(pending.take(n))[j],
    decreases pending.len() - n,
{
    if n == pending.len() {
        assert(pending.take(n) =~= pending);
    } else {
        lemma_named_prefix(pending, n + 1);
        let longer = pending.take(n + 1);
        assert(longer.drop_last() =~= pending.take(n));
        assert forall|j: int| 0 <= j < named_calls(pending.take(n)).len() implies named_calls(
            pending,
        )[j] == #[trigger] named_calls(pending.take(n))[j] by {
            assert(named_calls(longer)[j] == named_calls(pending.take(n))[j]);
        }
    }
}

/// What the head of a server's answer means.
#[derive(Debug, PartialEq, Eq)]
pub enum SendOutcome {
    /// A stream follows.
    Stream,
    /// Try again, after the given number of seconds where the server says so.
    Retryable { retry_after: Option<u64> },
    /// The request was refused.
    Refused(String),
}

/// The words of a refusal: the status, and the start of the body unless the refusal is
/// about authentication.
pub open spec fn refusal_text(status: u16, body: Seq<char>) -> Seq<char> {
    if status == 401 || status == 403 {
        "auth ("@ + decimal_of(status as nat) + ")"@
    } else {
        "http "@ + decimal_of(status as nat) + ": "@ + take_of(body, 300)
    }
}

/// What the head of a server's answer means: a status from 200 to 299 is followed by a
/// stream, 429 and those from 500 to 599 ask for another try, and all others refuse.
pub fn classify_response(status: u16, retry_after: Option<&str>, body: &str) -> (r: SendOutcome)
    ensures
        match r {
            SendOutcome::Stream => 200 <= status <= 299,
            SendOutcome::Retryable { retry_after: wait } => (status == 429 || 500 <= status <= 599)
                && match wait {
                Some(n) => retry_after is Some && unsigned_value(retry_after->0@, u64::MAX as int)
                    == Some(n as int),
                None => retry_after is None || unsigned_value(
                    retry_after->0@,
                    u64::MAX as int,
                ) is None,
            },
            SendOutcome::Refused(text) => !(200 <= status <= 299) && status != 429 && !(500
                <= status <= 599) && text@ == refusal_text(status, body@),
        },
{
    if 200 <= status && status <= 299 {
        return SendOutcome::Stream;
    }
    if status == 429 || (500 <= status && status <= 599) {
        let wait: Option<u64> = match retry_after {
            Some(value) => parse_unsigned(value, u64::MAX),
            None => None,
        };
        return SendOutcome::Retryable { retry_after: wait };
    }
    let code = decimal(status as u128);
    if status == 401 || status == 403 {
        SendOutcome::Refused(owned("auth (").concat(code.as_str()).concat(")"))
    } else {
        let snippet = take(body, 300);
        SendOutcome::Refused(
            owned("http ").concat(code.as_str()).concat(": ").concat(snippet.as_str()),
        )
    }
}

/// An error with the number of the attempt that it ended.
pub open spec fn attempt_text(attempt: u32, message: Seq<char>) -> Seq<char> {
    "attempt "@ + decimal_of(attempt as nat) + ": "@ + message
}

fn with_attempt(attempt: u32, message: &str) -> (r: String)
    ensures
        r@ == attempt_text(attempt, message@),
{
    let number = decimal(attempt as u128);
    owned("attempt ").concat(number.as_str()).concat(": ").concat(message)
}

/// The error that a failed request ends with.
pub open spec fn classified(message: Seq<char>, attempt: u32) -> ProviderErrorView {
    if message == "cancelled"@ {
        ProviderErrorView::Cancelled
    } else if has_prefix(message, "auth"@) {
        ProviderErrorView::Auth(message)
    } else if has_prefix(message, "http 429"@) {
        ProviderErrorView::RateLimited(attempt_text(attempt, message))
    } else {
        ProviderErrorView::Connection(attempt_text(attempt, message))
    }
}

/// The error that a failed request ends with.
pub fn classify_error(message: String, attempt: u32) -> (r: ProviderError)
    ensures
        r@ == classified(message@, attempt),
{
    if same(message.as_str(), "cancelled") {
        return ProviderError::Cancelled;
    }
    if starts_with(message.as_str(), "auth") {
        return ProviderError::Auth(message);
    }
    if starts_with(message.as_str(), "http 429") {
        return ProviderError::RateLimited(with_attempt(attempt, message.as_str()));
    }
    ProviderError::Connection(with_attempt(attempt, message.as_str()))
}

/// 2 to the power of the number of the attempt, up to the third.
pub open spec fn doubling(attempt: u32) -> int {
    if attempt == 0 {
        1
    } else if attempt == 1 {
        2
    } else if attempt == 2 {
        4
    } else {
        8
    }
}

/// The wait before the next attempt: the initial wait, doubled for each attempt, times
/// the jitter in parts of 100,000; or what the server asks for, where that is longer.
pub open spec fn backoff_of(attempt: u32, retry_after: Option<u128>, jitter: u32) -> int {
    let local = INITIAL_BACKOFF * doubling(attempt) * jitter / 100_000;
    match retry_after {
        Some(server) => if server > local {
            server as int
        } else {
            local
        },
        None => local,
    }
}

/// The wait in nanoseconds before the next attempt.
pub fn backoff_delay(attempt: u32, retry_after: Option<u128>, jitter: u32) -> (r: u128)
    ensures
        r == backoff_of(attempt, retry_after, jitter),
{
    let factor: u128 = if attempt == 0 {
        1
    } else if attempt == 1 {
        2
    } else if attempt == 2 {
        4
    } else {
        8
    };
    assert(INITIAL_BACKOFF * factor * jitter <= 500_000_000 * 8 * 0xffff_ffff) by (nonlinear_arith)
        requires
            INITIAL_BACKOFF == 500_000_000,
            0 <= factor <= 8,
            0 <= jitter <= 0xffff_ffff,
    ;
    assert(INITIAL_BACKOFF * factor <= 4_000_000_000);
    let local: u128 = INITIAL_BACKOFF * factor * jitter as u128 / 100_000;
    match retry_after {
        Some(server) => if server > local {
            server
        } else {
            local
        },
        None => local,
    }
}

/// The jitter for a clock reading in nanoseconds, in parts of 100,000.
pub open spec fn jitter_of(nanos: u128) -> int {
    60_000 + 8 * (nanos % 10_000)
}

/// The jitter for a clock reading in nanoseconds: from 0.6 up to, and without, 1.4, in
/// parts of 100,000.
pub fn jitter_at(nanos: u128) -> (r: u32)
    ensures
        r == jitter_of(nanos),
        60_000 <= r < 140_000,
{
    60_000 + 8 * (nanos % 10_000) as u32
}

/// Without a longer wait asked for by the server, the waits stay within 40 % of the
/// doubled initial wait.
pub proof fn backoff_stays_near_its_base(attempt: u32, nanos: u128)
    ensures
        ({
            let wait = backoff_of(attempt, None, (60_000 + 8 * (nanos % 10_000)) as u32);
            let base = INITIAL_BACKOFF * doubling(attempt);
            6 * base <= 10 * wait <= 14 * base
        }),
{
    let jitter = 60_000 + 8 * (nanos % 10_000);
    let base = INITIAL_BACKOFF * doubling(attempt);
    assert(base * jitter / 100_000 >= base * 60_000 / 100_000) by (nonlinear_arith)
        requires
            base >= 0,
            60_000 <= jitter,
    ;
    assert(base * jitter / 100_000 <= base * 140_000 / 100_000) by (nonlinear_arith)
        requires
            base >= 0,
            jitter <= 140_000,
    ;
}

/// The attempts of one request.
#[derive(Debug, Clone, Copy, PartialEq, Eq, Structural)]
pub struct Attempts {
    /// The number of the current attempt, from 0.
    pub attempt: u32,
    /// How many nanoseconds were waited between attempts.
    pub retry_wait: u128,
}

/// What to do after a failed attempt.
#[derive(Debug, PartialEq, Eq)]
pub enum RetryDecision {
    /// The request has failed.
    GiveUp(ProviderError),
    /// Wait so many nanoseconds and send the request again.
    Wait(u128),
}

/// The longest wait that a server can ask for: the nanoseconds of the largest number of seconds.
pub open spec fn server_wait(retry_after: Option<u64>) -> Option<u128> {
    match retry_after {
        Some(seconds) => Some((seconds as int * 1_000_000_000) as u128),
        None => None,
    }
}

impl Attempts {
    /// No attempt made.
    pub fn new() -> (r: Self)
        ensures
            r == (Attempts { attempt: 0, retry_wait: 0 }),
    {
        Attempts { attempt: 0, retry_wait: 0 }
    }

    /// Whether the counters are those of a request under way.
    pub open spec fn wf(self) -> bool {
        self.attempt < MAX_ATTEMPTS
    }

    /// Whether there is no other attempt.
    pub open spec fn spent(self) -> bool {
        self.attempt + 1 >= MAX_ATTEMPTS || self.retry_wait >= MAX_RETRY_WAIT
    }

    /// Counts a wait and the attempt after it.
    pub open spec fn after(self, wait: u128) -> Attempts {
        Attempts {
            attempt: (self.attempt + 1) as u32,
            retry_wait: (self.retry_wait + wait) as u128,
        }
    }

    fn is_spent(&self) -> (r: bool)
        requires
            self.wf(),
        ensures
            r == self.spent(),
    {
        self.attempt + 1 >= MAX_ATTEMPTS || self.retry_wait >= MAX_RETRY_WAIT
    }

    fn advance(&mut self, retry_after: Option<u64>, jitter: u32) -> (r: u128)
        requires
            old(self).wf(),
            !old(self).spent(),
            jitter <= 140_000,
        ensures
            r == backoff_of(old(self).attempt, server_wait(retry_after), jitter),
            *final(self) == old(self).after(r),
            final(self).wf(),
    {
        let server: Option<u128> = match retry_after {
            Some(seconds) => Some(seconds as u128 * 1_000_000_000),
            None => None,
        };
        let wait: u128 = backoff_delay(self.attempt, server, jitter);
        proof {
            let base = INITIAL_BACKOFF * doubling(self.attempt);
            assert(base * jitter / 100_000 <= 4_000_000_000 * 140_000 / 100_000) by (nonlinear_arith)
                requires
                    0 <= base <= 4_000_000_000,
                    0 <= jitter <= 140_000,
            ;
        }
        self.retry_wait = self.retry_wait + wait;
        self.attempt = self.attempt + 1;
        wait
    }

    /// After a request that could not be sent or was refused: a cancellation ends it at
    /// once, anything else is tried again while there are attempts.
    pub fn send_failed(&mut self, error: String, jitter: u32) -> (r: RetryDecision)
        requires
            old(self).wf(),
            jitter <= 140_000,
        ensures
            final(self).wf(),
            match r {
                RetryDecision::GiveUp(given) => *final(self) == *old(self) && (if error@
                    == "cancelled"@ {
                    given@ == ProviderErrorView::Cancelled
                } else {
                    old(self).spent() && given@ == classified(error@, old(self).attempt)
                }),
                RetryDecision::Wait(wait) => error@ != "cancelled"@ && !old(self).spent() && wait
                    == backoff_of(old(self).attempt, None, jitter) && *final(self) == old(
                    self,
                ).after(wait),
            },
    {
        if same(error.as_str(), "cancelled") {
            return RetryDecision::GiveUp(ProviderError::Cancelled);
        }
        if self.is_spent() {
            return RetryDecision::GiveUp(classify_error(error, self.attempt));
        }
        RetryDecision::Wait(self.advance(None, jitter))
    }

    /// After a stream that failed: tried again only where that repeats nothing, and while
    /// there are attempts.
    pub fn stream_failed(&mut self, error: ProviderError, retryable: bool, jitter: u32) -> (r:
        RetryDecision)
        requires
            old(self).wf(),
            jitter <= 140_000,
        ensures
            final(self).wf(),
            match r {
                RetryDecision::GiveUp(given) => *final(self) == *old(self) && given == error && (
                !retryable || error is Cancelled || old(self).spent()),
                RetryDecision::Wait(wait) => retryable && !(error is Cancelled) && !old(
                    self,
                ).spent() && wait == backoff_of(old(self).attempt, None, jitter) && *final(self)
                    == old(self).after(wait),
            },
    {
        let cancelled = match &error {
            ProviderError::Cancelled => true,
            _ => false,
        };
        if !retryable || cancelled || self.is_spent() {
            return RetryDecision::GiveUp(error);
        }
        RetryDecision::Wait(self.advance(None, jitter))
    }

    /// After an answer that asks for another try.
    pub fn asked_to_retry(&mut self, retry_after: Option<u64>, jitter: u32) -> (r: RetryDecision)
        requires
            old(self).wf(),
            jitter <= 140_000,
        ensures
            final(self).wf(),
            match r {
                RetryDecision::GiveUp(given) => *final(self) == *old(self) && old(self).spent()
                    && given@ == ProviderErrorView::RateLimited(
                    attempt_text(old(self).attempt, "retry budget exhausted"@),
                ),
                RetryDecision::Wait(wait) => !old(self).spent() && wait == backoff_of(
                    old(self).attempt,
                    server_wait(retry_after),
                    jitter,
                ) && *final(self) == old(self).after(wait),
            },
    {
        if self.is_spent() {
            return RetryDecision::GiveUp(
                ProviderError::RateLimited(with_attempt(self.attempt, "retry budget exhausted")),
            );
        }
        RetryDecision::Wait(self.advance(retry_after, jitter))
    }
}

/// A stream that has brought nothing of an answer, chunk after chunk, may be asked for
/// again: only text, reasoning, a call or an end counts, not usage.
pub proof fn silent_chunks_stay_retryable(state: StreamView, choices: Seq<SseChoice>)
    requires
        forall|i: int|
            0 <= i < choices.len() ==> !says_something((#[trigger] choices[i]).delta.content)
                && !says_something(choices[i].delta.reasoning_content)
                && choices[i].delta.tool_calls@.len() == 0 && choices[i].finish_reason is None,
    ensures
        choices_state(state, choices).received_any == state.received_any,
        choices_events(state, choices) == Seq::<ProviderEventView>::empty(),
    decreases choices.len(),
{
    if choices.len() > 0 {
        let rest = choices.drop_last();
        assert forall|i: int| 0 <= i < rest.len() implies !says_something(
            (#[trigger] rest[i]).delta.content,
        ) && !says_something(rest[i].delta.reasoning_content) && rest[i].delta.tool_calls@.len()
            == 0 && rest[i].finish_reason is None by {
            assert(rest[i] == choices[i]);
        }
        silent_chunks_stay_retryable(state, rest);
        assert(choices_events(state, choices) =~= Seq::<ProviderEventView>::empty());
    }
}

/// Once something of an answer has arrived, nothing makes the stream retryable again.
pub proof fn received_stays_received(state: StreamView, choices: Seq<SseChoice>)
    requires
        state.received_any,
    ensures
        choices_state(state, choices).received_any,
    decreases choices.len(),
{
    if choices.len() > 0 {
        received_stays_received(state, choices.drop_last());
    }
}

} // verus!
