//! Sessions told again.
use tpi::agent::compaction::covered_range;
use tpi::ids::EventId;
use tpi::ids::ToolCallId;
use tpi::message::ChatMessage;
use tpi::message::ToolCall;
use tpi::outcome::StoredToolOutcome;
use tpi::plan::Plan;
use tpi::replay::latest_plan_from_events;
use tpi::replay::project_messages_with_starts;
use tpi::replay::session_to_messages;
use tpi::session::AssistantMessage;
use tpi::session::CompactSummary;
use tpi::session::EventRange;
use tpi::session::InterruptCause;
use tpi::session::SessionEvent;

fn call(id: u128) -> ToolCall {
    ToolCall {
        call_id: ToolCallId(id),
        provider_id: format!("p{id}"),
        name: "bash".into(),
        arguments: "{}".into(),
    }
}

fn said(text: &str) -> SessionEvent {
    SessionEvent::UserSubmitted {
        content: text.into(),
    }
}

fn answered(text: &str, tool_calls: Vec<ToolCall>) -> SessionEvent {
    SessionEvent::AssistantMessageCommitted {
        message: AssistantMessage {
            content: text.into(),
            tool_calls,
        },
    }
}

fn turn() -> Vec<SessionEvent> {
    vec![
        said("do it"),
        SessionEvent::AssistantAttemptInterrupted {
            request_id: tpi::ids::RequestId(1),
            content: "half".into(),
            cause: InterruptCause::Connection,
            saw_tool_calls: false,
        },
        answered("", vec![call(7)]),
        SessionEvent::ToolRequested { call: call(7) },
        SessionEvent::ToolCompleted {
            call_id: ToolCallId(7),
            outcome: StoredToolOutcome::succeeded("bash", "out".into()),
        },
        SessionEvent::ToolCompleted {
            call_id: ToolCallId(8),
            outcome: StoredToolOutcome::succeeded("bash", "lost".into()),
        },
        answered("done", Vec::new()),
    ]
}

#[test]
fn a_session_tells_what_was_said() {
    assert_eq!(
        session_to_messages(&turn()),
        vec![
            ChatMessage::User("do it".into()),
            ChatMessage::Assistant {
                content: "".into(),
                tool_calls: vec![call(7)]
            },
            ChatMessage::Tool {
                tool_call_id: "p7".into(),
                name: "bash".into(),
                content: "out".into()
            },
            ChatMessage::Assistant {
                content: "done".into(),
                tool_calls: Vec::new()
            },
        ]
    );
    let (_, starts) = project_messages_with_starts(&turn());
    assert_eq!(starts, vec![1, 3, 5, 7]);
    assert!(session_to_messages(&Vec::new()).is_empty());
}

#[test]
fn a_summary_stands_for_the_past() {
    let mut events = turn();
    let (messages, starts) = project_messages_with_starts(&events);
    let covered = covered_range(7, 3, messages.len(), &starts).unwrap();
    assert_eq!(
        covered,
        EventRange {
            start: EventId(1),
            end: EventId(7)
        }
    );
    events.push(SessionEvent::CompactionCommitted {
        covered,
        summary: CompactSummary {
            text: "Goal: x".into(),
        },
    });
    events.push(said("more"));
    let (messages, starts) = project_messages_with_starts(&events);
    assert_eq!(
        messages,
        vec![
            ChatMessage::User("（此前会话的压缩摘要，见 CompactionCommitted）\nGoal: x".into()),
            ChatMessage::Assistant {
                content: "done".into(),
                tool_calls: Vec::new()
            },
            ChatMessage::User("more".into()),
        ]
    );
    assert_eq!(starts, vec![0, 7, 9]);
    // A second summary takes the place of the first.
    let covered = covered_range(9, 2, messages.len(), &starts).unwrap();
    events.push(SessionEvent::CompactionCommitted {
        covered,
        summary: CompactSummary {
            text: "Goal: y".into(),
        },
    });
    assert_eq!(
        session_to_messages(&events),
        vec![
            ChatMessage::User("（此前会话的压缩摘要，见 CompactionCommitted）\nGoal: y".into()),
            ChatMessage::User("more".into()),
        ]
    );
}

#[test]
fn the_last_plan_counts() {
    let plan = |text: &str| Plan {
        explanation: Some(text.into()),
        items: Vec::new(),
    };
    let mut events = turn();
    assert!(latest_plan_from_events(&events).is_none());
    events.push(SessionEvent::PlanReplaced { plan: plan("a") });
    events.push(SessionEvent::PlanReplaced { plan: plan("b") });
    events.push(said("x"));
    assert_eq!(latest_plan_from_events(&events), Some(&plan("b")));
}
