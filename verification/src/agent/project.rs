//! What the screen shows of a run.
use crate::agent::DeltaKind;
use crate::agent::LiveEvent;
use crate::agent::LiveEventView;
use crate::agent::RuntimeEvent;
use crate::ids::RequestId;
use crate::ids::ToolCallId;
use crate::json::json_parse;
use crate::json::text_field;
use crate::json::text_member;
use crate::outcome::ToolStatus;
use crate::plan::PlanView;
use crate::text::clip;
use crate::text::clipped;
use crate::text::join;
use crate::text::join_of;
use crate::text::opt_view;
use crate::text::owned;
use crate::text::same;
use crate::text::words;
use crate::text::words_of;
use vstd::prelude::*;
use vstd::string::*;

verus! {

/// Whether a tool is about one path.
pub open spec fn names_a_path(name: Seq<char>) -> bool {
    name == "read"@ || name == "write"@ || name == "edit"@ || name == "list"@ || name == "search"@
}

/// What a call is about, in a line: the command on one line for the shell, the tool and its
/// path for the tools that have one, and the tool otherwise.
pub open spec fn target_of(name: Seq<char>, arguments: Seq<char>) -> Seq<char> {
    if name == "bash"@ {
        match text_member(json_parse(arguments), "command"@) {
            Some(command) => clipped(join_of(words_of(command), " "@), 200),
            None => name,
        }
    } else if names_a_path(name) {
        clipped(
            match text_member(json_parse(arguments), "path"@) {
                Some(path) => name + " "@ + path,
                None => name,
            },
            120,
        )
    } else {
        name
    }
}

/// The command of a shell call, not too much of it.
pub open spec fn command_of(name: Seq<char>, arguments: Seq<char>) -> Option<Seq<char>> {
    if name == "bash"@ {
        match text_member(json_parse(arguments), "command"@) {
            Some(command) => Some(clipped(command, 8192)),
            None => None,
        }
    } else {
        None
    }
}

/// What a call is about, in a line, and the command of a shell call.
pub fn tool_target(name: &str, arguments: &str) -> (r: (String, Option<String>))
    ensures
        r.0@ == target_of(name@, arguments@),
        opt_view(r.1) == command_of(name@, arguments@),
{
    if same(name, "bash") {
        match text_field(arguments, "command") {
            Some(command) => {
                let parts = words(command.as_str());
                let line = join(&parts, " ");
                (clip(line.as_str(), 200), Some(clip(command.as_str(), 8192)))
            },
            None => (owned(name), None),
        }
    } else if same(name, "read") || same(name, "write") || same(name, "edit") || same(name, "list")
        || same(name, "search") {
        let target = match text_field(arguments, "path") {
            Some(path) => owned(name).concat(" ").concat(path.as_str()),
            None => owned(name),
        };
        (clip(target.as_str(), 120), None)
    } else {
        (owned(name), None)
    }
}

/// What a line about a call may be: never longer than 201 characters for the tools that
/// have their own form.
pub proof fn targets_are_short(name: Seq<char>, arguments: Seq<char>)
    requires
        names_a_path(name) || (name == "bash"@ && text_member(
            json_parse(arguments),
            "command"@,
        ) is Some),
    ensures
        target_of(name, arguments).len() <= 201,
{
    reveal_strlit("…");
    reveal_strlit("bash");
}

/// What a [`RuntimeEvent`] says.
pub enum RuntimeEventView {
    StepStarted { step: u32 },
    AssistantDelta { request_id: RequestId, kind: DeltaKind, text: Seq<char> },
    ToolStarted {
        call_id: ToolCallId,
        name: Seq<char>,
        target: Seq<char>,
        command: Option<Seq<char>>,
    },
    ToolCompleted {
        call_id: ToolCallId,
        name: Seq<char>,
        status: ToolStatus,
        duration_ms: u64,
        exit_code: Option<i32>,
        tail: Seq<char>,
        diff: Option<Seq<char>>,
    },
    ToolOutputDelta { call_id: ToolCallId, stream: u8, text: Seq<char> },
    ContextUsage { projected: u64, usable: u64 },
    UsageUpdated { input_tokens: u64, output_tokens: u64, cache_read_tokens: u64 },
    BudgetWarning,
    PlanUpdated { plan: PlanView },
    StreamRecovering { attempt: u32 },
    TurnRestarting { attempt: u32 },
    CompactionNotice { message: Seq<char> },
}

impl View for RuntimeEvent {
    type V = RuntimeEventView;

    open spec fn view(&self) -> RuntimeEventView {
        match *self {
            RuntimeEvent::StepStarted { step } => RuntimeEventView::StepStarted { step },
            RuntimeEvent::AssistantDelta { request_id, kind, text } =>
                RuntimeEventView::AssistantDelta { request_id, kind, text: text@ },
            RuntimeEvent::ToolStarted { call_id, name, target, command } =>
                RuntimeEventView::ToolStarted {
                call_id,
                name: name@,
                target: target@,
                command: opt_view(command),
            },
            RuntimeEvent::ToolCompleted {
                call_id,
                name,
                status,
                duration_ms,
                exit_code,
                tail,
                diff,
            } => RuntimeEventView::ToolCompleted {
                call_id,
                name: name@,
                status,
                duration_ms,
                exit_code,
                tail: tail@,
                diff: opt_view(diff),
            },
            RuntimeEvent::ToolOutputDelta { call_id, stream, text } =>
                RuntimeEventView::ToolOutputDelta { call_id, stream, text: text@ },
            RuntimeEvent::ContextUsage { projected, usable } => RuntimeEventView::ContextUsage {
                projected,
                usable,
            },
            RuntimeEvent::UsageUpdated { input_tokens, output_tokens, cache_read_tokens } =>
                RuntimeEventView::UsageUpdated { input_tokens, output_tokens, cache_read_tokens },
            RuntimeEvent::BudgetWarning => RuntimeEventView::BudgetWarning,
            RuntimeEvent::PlanUpdated { plan } => RuntimeEventView::PlanUpdated { plan: plan@ },
            RuntimeEvent::StreamRecovering { attempt } => RuntimeEventView::StreamRecovering {
                attempt,
            },
            RuntimeEvent::TurnRestarting { attempt } => RuntimeEventView::TurnRestarting {
                attempt,
            },
            RuntimeEvent::CompactionNotice { message } => RuntimeEventView::CompactionNotice {
                message: message@,
            },
        }
    }
}

/// How an event is shown.
pub open spec fn shown_as(event: LiveEventView) -> RuntimeEventView {
    match event {
        LiveEventView::StepStarted { step } => RuntimeEventView::StepStarted { step },
        LiveEventView::AssistantDelta { request_id, kind, text } =>
            RuntimeEventView::AssistantDelta { request_id, kind, text },
        LiveEventView::ToolStarted { call_id, name, arguments } => RuntimeEventView::ToolStarted {
            call_id,
            name,
            target: target_of(name, arguments),
            command: command_of(name, arguments),
        },
        LiveEventView::ToolCompleted {
            call_id,
            name,
            status,
            duration_ms,
            exit_code,
            output,
            diff,
        } => RuntimeEventView::ToolCompleted {
            call_id,
            name,
            status,
            duration_ms,
            exit_code,
            tail: output,
            diff,
        },
        LiveEventView::ToolOutputDelta { call_id, stream, text } =>
            RuntimeEventView::ToolOutputDelta { call_id, stream, text },
        LiveEventView::ContextUsage { projected, usable } => RuntimeEventView::ContextUsage {
            projected,
            usable,
        },
        LiveEventView::UsageUpdated { input_tokens, output_tokens, cache_read_tokens } =>
            RuntimeEventView::UsageUpdated { input_tokens, output_tokens, cache_read_tokens },
        LiveEventView::BudgetWarning => RuntimeEventView::BudgetWarning,
        LiveEventView::PlanUpdated { plan } => RuntimeEventView::PlanUpdated { plan },
        LiveEventView::StreamRecovering { attempt } => RuntimeEventView::StreamRecovering {
            attempt,
        },
        LiveEventView::TurnRestarting { attempt } => RuntimeEventView::TurnRestarting { attempt },
        LiveEventView::CompactionNotice { message } => RuntimeEventView::CompactionNotice {
            message,
        },
    }
}

/// How an event is shown.
pub fn project_live_event(event: LiveEvent) -> (r: RuntimeEvent)
    ensures
        r@ == shown_as(event@),
{
    match event {
        LiveEvent::StepStarted { step } => RuntimeEvent::StepStarted { step },
        LiveEvent::AssistantDelta { request_id, kind, text } => RuntimeEvent::AssistantDelta {
            request_id,
            kind,
            text,
        },
        LiveEvent::ToolStarted { call_id, name, arguments } => {
            let (target, command) = tool_target(name.as_str(), arguments.as_str());
            RuntimeEvent::ToolStarted { call_id, name, target, command }
        },
        LiveEvent::ToolCompleted {
            call_id,
            name,
            status,
            duration_ms,
            exit_code,
            output,
            diff,
        } => RuntimeEvent::ToolCompleted {
            call_id,
            name,
            status,
            duration_ms,
            exit_code,
            tail: output,
            diff,
        },
        LiveEvent::ToolOutputDelta { call_id, stream, text } => RuntimeEvent::ToolOutputDelta {
            call_id,
            stream,
            text,
        },
        LiveEvent::ContextUsage { projected, usable } => RuntimeEvent::ContextUsage {
            projected,
            usable,
        },
        LiveEvent::UsageUpdated { input_tokens, output_tokens, cache_read_tokens } =>
            RuntimeEvent::UsageUpdated { input_tokens, output_tokens, cache_read_tokens },
        LiveEvent::BudgetWarning => RuntimeEvent::BudgetWarning,
        LiveEvent::PlanUpdated { plan } => RuntimeEvent::PlanUpdated { plan },
        LiveEvent::StreamRecovering { attempt } => RuntimeEvent::StreamRecovering { attempt },
        LiveEvent::TurnRestarting { attempt } => RuntimeEvent::TurnRestarting { attempt },
        LiveEvent::CompactionNotice { message } => RuntimeEvent::CompactionNotice { message },
    }
}

} // verus!
