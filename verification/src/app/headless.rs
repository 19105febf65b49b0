//! A run without a screen: its events as lines of JSON.
use crate::agent::AgentOutcome;
use crate::agent::AwaitingInput;
use crate::agent::LiveEvent;
use crate::agent::LiveEventView;
use crate::outcome::ToolStatus;
use crate::session::CompletionReason;
use crate::text::opt_view;
use crate::text::owned;
use crate::text::views;
use crate::text::views_push;
use vstd::prelude::*;
use vstd::string::*;

verus! {

/// The version of the lines.
pub const JSON_OUTPUT_VERSION: u32 = 1;

/// An event as a line says it.
#[derive(Debug, Clone, PartialEq, Eq)]
pub struct JsonEvent {
    pub v: u32,
    pub kind: &'static str,
    pub step: Option<u32>,
    pub delta: Option<String>,
    pub tool: Option<String>,
    pub tool_status: Option<String>,
    pub reason: Option<String>,
    pub assistant_text: Option<String>,
}

/// What a [`JsonEvent`] says.
pub struct JsonEventView {
    pub v: u32,
    pub kind: Seq<char>,
    pub step: Option<u32>,
    pub delta: Option<Seq<char>>,
    pub tool: Option<Seq<char>>,
    pub tool_status: Option<Seq<char>>,
    pub reason: Option<Seq<char>>,
    pub assistant_text: Option<Seq<char>>,
}

impl View for JsonEvent {
    type V = JsonEventView;

    open spec fn view(&self) -> JsonEventView {
        JsonEventView {
            v: self.v,
            kind: self.kind@,
            step: self.step,
            delta: opt_view(self.delta),
            tool: opt_view(self.tool),
            tool_status: opt_view(self.tool_status),
            reason: opt_view(self.reason),
            assistant_text: opt_view(self.assistant_text),
        }
    }
}

/// An event of a kind, without anything else.
pub open spec fn bare_event(kind: Seq<char>) -> JsonEventView {
    JsonEventView {
        v: JSON_OUTPUT_VERSION,
        kind,
        step: None,
        delta: None,
        tool: None,
        tool_status: None,
        reason: None,
        assistant_text: None,
    }
}

fn bare(kind: &'static str) -> (r: JsonEvent)
    ensures
        r@ == bare_event(kind@),
        r.kind == kind,
{
    JsonEvent {
        v: JSON_OUTPUT_VERSION,
        kind,
        step: None,
        delta: None,
        tool: None,
        tool_status: None,
        reason: None,
        assistant_text: None,
    }
}

impl Default for JsonEvent {
    fn default() -> (r: Self)
        ensures
            r@ == bare_event(""@),
    {
        bare("")
    }
}

/// The word for a status.
pub open spec fn status_word(status: ToolStatus) -> Seq<char> {
    match status {
        ToolStatus::Succeeded => "Succeeded"@,
        ToolStatus::Failed => "Failed"@,
        ToolStatus::TimedOut => "TimedOut"@,
        ToolStatus::Cancelled => "Cancelled"@,
        ToolStatus::Interrupted => "Interrupted"@,
        ToolStatus::Rejected => "Rejected"@,
    }
}

fn word_of_status(status: ToolStatus) -> (r: String)
    ensures
        r@ == status_word(status),
{
    match status {
        ToolStatus::Succeeded => owned("Succeeded"),
        ToolStatus::Failed => owned("Failed"),
        ToolStatus::TimedOut => owned("TimedOut"),
        ToolStatus::Cancelled => owned("Cancelled"),
        ToolStatus::Interrupted => owned("Interrupted"),
        ToolStatus::Rejected => owned("Rejected"),
    }
}

/// The word for the end of a run.
pub open spec fn reason_word(reason: CompletionReason) -> Seq<char> {
    match reason {
        CompletionReason::Stop => "Stop"@,
        CompletionReason::MaxTurns => "MaxTurns"@,
        CompletionReason::MaxToolCalls => "MaxToolCalls"@,
        CompletionReason::Cancelled => "Cancelled"@,
        CompletionReason::WallTimeExceeded => "WallTimeExceeded"@,
        CompletionReason::ContextOverflow => "ContextOverflow"@,
        CompletionReason::ProviderInterrupted => "ProviderInterrupted"@,
        CompletionReason::ProviderUnavailable => "ProviderUnavailable"@,
        CompletionReason::AwaitingUserInput => "AwaitingUserInput"@,
        CompletionReason::Error => "Error"@,
    }
}

/// The word for the end of a run.
pub fn word_of_reason(reason: CompletionReason) -> (r: String)
    ensures
        r@ == reason_word(reason),
{
    match reason {
        CompletionReason::Stop => owned("Stop"),
        CompletionReason::MaxTurns => owned("MaxTurns"),
        CompletionReason::MaxToolCalls => owned("MaxToolCalls"),
        CompletionReason::Cancelled => owned("Cancelled"),
        CompletionReason::WallTimeExceeded => owned("WallTimeExceeded"),
        CompletionReason::ContextOverflow => owned("ContextOverflow"),
        CompletionReason::ProviderInterrupted => owned("ProviderInterrupted"),
        CompletionReason::ProviderUnavailable => owned("ProviderUnavailable"),
        CompletionReason::AwaitingUserInput => owned("AwaitingUserInput"),
        CompletionReason::Error => owned("Error"),
    }
}

/// How an event is told: steps, text and tools are told as they are, all else is a notice.
pub open spec fn told(event: LiveEventView) -> JsonEventView {
    match event {
        LiveEventView::StepStarted { step } => JsonEventView {
            step: Some(step),
            ..bare_event("step_started"@)
        },
        LiveEventView::AssistantDelta { request_id, kind, text } => JsonEventView {
            delta: Some(text),
            ..bare_event("assistant_delta"@)
        },
        LiveEventView::ToolStarted { call_id, name, arguments } => JsonEventView {
            tool: Some(name),
            ..bare_event("tool_started"@)
        },
        LiveEventView::ToolCompleted {
            call_id,
            name,
            status,
            duration_ms,
            exit_code,
            output,
            diff,
        } => JsonEventView {
            tool: Some(name),
            tool_status: Some(status_word(status)),
            delta: Some(output),
            ..bare_event("tool_completed"@)
        },
        LiveEventView::ToolOutputDelta { call_id, stream, text } => JsonEventView {
            delta: Some(text),
            ..bare_event("tool_output_delta"@)
        },
        _ => bare_event("notice"@),
    }
}

/// How an event is told.
pub fn json_event(event: &LiveEvent) -> (r: JsonEvent)
    ensures
        r@ == told(event@),
{
    match event {
        LiveEvent::StepStarted { step } => {
            let mut out = bare("step_started");
            out.step = Some(*step);
            out
        },
        LiveEvent::AssistantDelta { request_id, kind, text } => {
            let mut out = bare("assistant_delta");
            out.delta = Some(text.clone());
            out
        },
        LiveEvent::ToolStarted { call_id, name, arguments } => {
            let mut out = bare("tool_started");
            out.tool = Some(name.clone());
            out
        },
        LiveEvent::ToolCompleted {
            call_id,
            name,
            status,
            duration_ms,
            exit_code,
            output,
            diff,
        } => {
            let mut out = bare("tool_completed");
            out.tool = Some(name.clone());
            out.tool_status = Some(word_of_status(*status));
            out.delta = Some(output.clone());
            out
        },
        LiveEvent::ToolOutputDelta { call_id, stream, text } => {
            let mut out = bare("tool_output_delta");
            out.delta = Some(text.clone());
            out
        },
        _ => bare("notice"),
    }
}

/// The events of a run and what it came to.
#[derive(Debug)]
pub struct HeadlessOutput {
    pub events: Vec<JsonEvent>,
    pub outcome: AgentOutcome,
}

/// How it is told that the model waits for the user, where it does: with what it asks.
pub open spec fn asked(awaiting: Option<AwaitingInput>) -> Seq<JsonEventView> {
    match awaiting {
        Some(awaiting) => seq![
            JsonEventView { delta: Some(awaiting.text@), ..bare_event("input_requested"@) },
        ],
        None => Seq::empty(),
    }
}

/// What is told of a run: each event, and then what the model asks, where it does.
pub open spec fn all_told(
    events: Seq<LiveEventView>,
    awaiting: Option<AwaitingInput>,
) -> Seq<JsonEventView> {
    events.map_values(|event: LiveEventView| told(event)) + asked(awaiting)
}

/// What a run without a screen comes to: all its events in order, that it waits for the user
/// where it does, and its outcome, or an error where it ended in one. `path` is where the session is recorded.
pub fn headless_output(events: &Vec<LiveEvent>, outcome: AgentOutcome, path: &str) -> (r: Result<
    HeadlessOutput,
    String,
>)
    ensures
        match r {
            Ok(output) => outcome.reason != CompletionReason::Error && output.outcome == outcome
                && views(output.events@) == all_told(views(events@), outcome.awaiting_input),
            Err(error) => outcome.reason == CompletionReason::Error && error@
                == "run 以 Error 结束（长度限制/内容过滤/协议错误）；session 记录: "@ + path@,
        },
{
    if let CompletionReason::Error = outcome.reason {
        return Err(
            owned(
                "run 以 Error 结束（长度限制/内容过滤/协议错误）；session 记录: ",
            ).concat(path),
        );
    }
    let mut lines: Vec<JsonEvent> = Vec::new();
    let mut i: usize = 0;
    while i < events.len()
        invariant
            i <= events@.len(),
            lines@.len() == i,
            forall|j: int| 0 <= j < i ==> (#[trigger] lines@[j])@ == told(events@[j]@),
        decreases events@.len() - i,
    {
        lines.push(json_event(&events[i]));
        i += 1;
    }
    let ghost shown = views(events@).map_values(|event: LiveEventView| told(event));
    assert(views(lines@) =~= shown);
    if let Some(awaiting) = &outcome.awaiting_input {
        let mut line = bare("input_requested");
        line.delta = Some(awaiting.text.clone());
        proof {
            views_push(lines@, line);
        }
        lines.push(line);
    }
    assert(views(lines@) =~= shown + asked(outcome.awaiting_input));
    Ok(HeadlessOutput { events: lines, outcome })
}

/// How the end of a run is told.
pub open spec fn told_at_the_end(reason: CompletionReason, text: Seq<char>) -> JsonEventView {
    JsonEventView {
        reason: Some(reason_word(reason)),
        assistant_text: Some(text),
        ..bare_event("run_completed"@)
    }
}

/// How the end of a run is told.
pub fn final_json(outcome: &AgentOutcome) -> (r: JsonEvent)
    ensures
        r@ == told_at_the_end(outcome.reason, outcome.assistant_text@),
{
    let mut out = bare("run_completed");
    out.reason = Some(word_of_reason(outcome.reason));
    out.assistant_text = Some(outcome.assistant_text.clone());
    out
}

/// The code that the program ends with: 0 for a regular end, 130 for a cancelled run, 1
/// otherwise.
pub open spec fn exit_code_of(reason: CompletionReason) -> i32 {
    match reason {
        CompletionReason::Stop => 0i32,
        CompletionReason::Cancelled => 130i32,
        CompletionReason::WallTimeExceeded => 130i32,
        _ => 1i32,
    }
}

/// The code that the program ends with: 0 for a regular end, 130 for a cancelled run, 1
/// otherwise.
pub fn exit_code_for(reason: &CompletionReason) -> (r: i32)
    ensures
        r == exit_code_of(*reason),
{
    match reason {
        CompletionReason::Stop => 0,
        CompletionReason::Cancelled => 130,
        CompletionReason::WallTimeExceeded => 130,
        _ => 1,
    }
}

} // verus!
