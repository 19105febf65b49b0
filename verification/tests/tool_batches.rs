//! Tool calls: what may run together, what repeats itself, and what the model is told.
use std::collections::HashMap;
use tpi::agent::scheduler::action_key;
use tpi::agent::scheduler::build_waves;
use tpi::agent::scheduler::collect_by_source_index;
use tpi::agent::scheduler::locks_conflict;
use tpi::agent::scheduler::observation_key;
use tpi::agent::scheduler::scopes_conflict;
use tpi::agent::scheduler::stable_observation;
use tpi::agent::scheduler::state_stamp_from_ctx;
use tpi::agent::scheduler::tool_access;
use tpi::agent::scheduler::AccessMode;
use tpi::agent::scheduler::FileScope;
use tpi::agent::scheduler::PreparedCall;
use tpi::agent::scheduler::PreparedKind;
use tpi::agent::scheduler::ProgressTracker;
use tpi::agent::scheduler::ResourceId;
use tpi::agent::scheduler::ResourceLock;
use tpi::agent::scheduler::SeenRevision;
use tpi::agent::scheduler::ToolAccess;
use tpi::agent::scheduler::ValidatedArgs;
use tpi::agent::tool_runtime::preflight;
use tpi::agent::tool_runtime::Lookup;
use tpi::agent::tool_runtime::ToolAction;
use tpi::agent::write_ahead::recovery_metadata;
use tpi::agent::write_ahead::Change;
use tpi::ids::ToolCallId;
use tpi::message::ChatMessage;
use tpi::message::ToolCall;
use tpi::outcome::StoredToolOutcome;
use tpi::outcome::ToolStatus;
use tpi::replay::session_to_messages;
use tpi::session::SessionEvent;
use tpi::tool::BuiltinTool;

fn lock(path: &str, mode: AccessMode) -> ResourceLock {
    ResourceLock {
        resource: ResourceId::File(FileScope::Exact(path.into())),
        mode,
    }
}

fn prepared(source_index: usize, path: &str, mode: AccessMode) -> PreparedCall {
    PreparedCall {
        source_index,
        kind: PreparedKind::Builtin(BuiltinTool::Read),
        access: ToolAccess::Resources(vec![lock(path, mode)]),
        action_key: String::new(),
    }
}

#[test]
fn paths_conflict_where_they_meet() {
    let exact = |p: &str| FileScope::Exact(p.into());
    let below = |p: &str| FileScope::Recursive(p.into());
    assert!(scopes_conflict(&exact("/a/b"), &exact("/a//b")));
    assert!(!scopes_conflict(&exact("/a/b"), &exact("/a/bc")));
    assert!(scopes_conflict(&exact("/a/b"), &below("/a")));
    assert!(!scopes_conflict(&exact("/ab"), &below("/a")));
    assert!(scopes_conflict(&below("/a"), &below("/a/b")));
    assert!(!scopes_conflict(&below("/a"), &below("/b")));
}

#[test]
fn only_writers_exclude() {
    let read = lock("/a", AccessMode::Read);
    let write = lock("/a", AccessMode::Write);
    assert!(!locks_conflict(&read, &read));
    assert!(locks_conflict(&read, &write));
    assert!(locks_conflict(&write, &read));
}

#[test]
fn waves_are_bounded_and_free_of_conflict() {
    let calls = vec![
        prepared(0, "/a", AccessMode::Read),
        prepared(1, "/a", AccessMode::Write),
        prepared(2, "/b", AccessMode::Read),
        prepared(3, "/c", AccessMode::Read),
        prepared(4, "/d", AccessMode::Read),
    ];
    let waves = build_waves(calls, 2);
    let shape: Vec<Vec<usize>> = waves
        .iter()
        .map(|w| w.iter().map(|c| c.source_index).collect())
        .collect();
    assert_eq!(shape, vec![vec![0], vec![1], vec![2, 3], vec![4]]);
}

#[test]
fn tools_touch_what_they_name() {
    let args = ValidatedArgs::Path {
        path: "a".into(),
        resolved: Some("/w/a".into()),
    };
    assert_eq!(
        tool_access(BuiltinTool::Read, &args),
        ToolAccess::Resources(vec![lock("/w/a", AccessMode::Read)])
    );
    assert_eq!(
        tool_access(BuiltinTool::Edit, &args),
        ToolAccess::Resources(vec![lock("/w/a", AccessMode::Write)])
    );
    assert_eq!(
        tool_access(BuiltinTool::Bash, &ValidatedArgs::Other),
        ToolAccess::WorkspaceUnknown
    );
}

#[test]
fn the_spelling_of_arguments_does_not_matter() {
    let a = action_key(BuiltinTool::Read, "{\"path\": \"x\", \"limit\": 1}");
    let b = action_key(BuiltinTool::Read, "{ \"limit\":1,\"path\":\"x\" }");
    let c = action_key(BuiltinTool::Read, "{\"path\": \"y\", \"limit\": 1}");
    assert_eq!(a, b);
    assert_ne!(a, c);
}

#[test]
fn observations_are_told_apart_by_content() {
    assert_eq!(observation_key("ok", "x"), observation_key("ok", "x"));
    assert_ne!(observation_key("ok", "x"), observation_key("ok", "y"));
    assert_ne!(observation_key("ok", "x"), observation_key("failed", "x"));
    assert_ne!(
        stable_observation("read", "ok", "x"),
        stable_observation("read", "ok", "y")
    );
}

#[test]
fn the_order_of_revisions_does_not_matter() {
    let seen = |path: &str| SeenRevision {
        path: path.into(),
        revision: "r".into(),
    };
    let access = ToolAccess::Resources(vec![lock("/a", AccessMode::Read)]);
    assert_eq!(
        state_stamp_from_ctx(&access, &vec![seen("/a"), seen("/b")]),
        state_stamp_from_ctx(&access, &vec![seen("/b"), seen("/a")])
    );
}

#[test]
fn the_third_identical_call_is_refused() {
    let mut progress = ProgressTracker::default();
    assert!(!progress.should_block("a", "s"));
    progress.observe("a", "o", "s");
    assert!(!progress.should_block("a", "s"));
    progress.observe("a", "o", "s");
    assert_eq!(progress.repeat_count(), 1);
    assert!(progress.should_block("a", "s"));
    assert!(!progress.should_block("b", "s"));
    assert!(!progress.should_block("a", "t"));
    progress.observe("a", "other", "s");
    assert!(!progress.should_block("a", "s"));
}

#[test]
fn results_are_collected_by_position() {
    let mut results = HashMap::new();
    results.insert(2usize, "c");
    results.insert(0usize, "a");
    assert_eq!(
        collect_by_source_index(results, 3),
        vec![Some("a"), None, Some("c")]
    );
}

fn call(id: u128, name: &str) -> ToolCall {
    ToolCall {
        call_id: ToolCallId::from_u128(id),
        provider_id: format!("c{id}"),
        name: name.into(),
        arguments: "{\"path\": \"a\"}".into(),
    }
}

fn lookup() -> Lookup {
    Lookup {
        parsed: Ok(ValidatedArgs::Path {
            path: "a".into(),
            resolved: Some("/w/a".into()),
        }),
        registered: false,
    }
}

#[test]
fn a_batch_answers_every_call_in_order() {
    let calls = vec![call(1, "read"), call(2, "nope"), call(3, "read")];
    let mut total = 0u32;
    let (batch, actions) = preflight(
        calls,
        &vec![lookup(), lookup(), lookup()],
        &mut total,
        0,
        4,
    );
    assert_eq!(total, 3);
    assert!(actions.iter().any(|a| matches!(
        a,
        ToolAction::Complete { outcome, .. }
            if outcome.model_payload.output.contains("unknown_tool")
    )));
    let mut batch = batch.unwrap();
    assert_eq!(batch.waves.len(), 1);
    let mut progress = ProgressTracker::default();
    let started = batch.begin_wave(
        0,
        &vec![None, None],
        &vec![Vec::new(), Vec::new()],
        &progress,
        2,
    );
    let runs: Vec<usize> = started
        .iter()
        .filter_map(|a| match a {
            ToolAction::Execute { index } => Some(*index),
            _ => None,
        })
        .collect();
    assert_eq!(runs, vec![0, 2]);
    for position in [1usize, 0] {
        let outcome = StoredToolOutcome::succeeded("read", format!("status: ok {position}"));
        batch.finish_call(0, position, outcome, &Vec::new(), &None, &mut progress);
    }
    let messages = batch.messages();
    let told: Vec<&str> = messages
        .iter()
        .map(|m| match m {
            ChatMessage::Tool { tool_call_id, .. } => tool_call_id.as_str(),
            _ => "",
        })
        .collect();
    assert_eq!(told, vec!["c1", "c2", "c3"]);
}

fn written(session: &mut Vec<SessionEvent>, actions: Vec<ToolAction>) {
    for action in actions {
        match action {
            ToolAction::Append(event) => session.push(event),
            ToolAction::WriteAhead { call_id, recovery } => {
                session.push(SessionEvent::ToolStarted { call_id, recovery })
            }
            ToolAction::Complete { call_id, outcome } => {
                session.push(SessionEvent::ToolCompleted { call_id, outcome })
            }
            _ => {}
        }
    }
}

fn told_ids(messages: &Vec<ChatMessage>) -> Vec<&str> {
    messages
        .iter()
        .map(|m| match m {
            ChatMessage::Tool { tool_call_id, .. } => tool_call_id.as_str(),
            _ => "",
        })
        .collect()
}

#[test]
fn a_session_retells_a_batch_as_it_ended() {
    let calls = vec![call(1, "read"), call(2, "nope"), call(3, "read")];
    let lookups = vec![lookup(), lookup(), lookup()];
    let mut session: Vec<SessionEvent> = Vec::new();
    let mut total = 0u32;
    let (batch, refused) = preflight(calls, &lookups, &mut total, 0, 4);
    written(&mut session, refused);
    assert_eq!(told_ids(&session_to_messages(&session)), vec!["c2"]);
    let mut batch = batch.unwrap();
    let mut progress = ProgressTracker::default();
    let seen = vec![Vec::new(), Vec::new()];
    written(
        &mut session,
        batch.begin_wave(0, &vec![None, None], &seen, &progress, 2),
    );
    assert_eq!(told_ids(&session_to_messages(&session)), vec!["c2"]);
    for position in [1usize, 0] {
        let outcome = StoredToolOutcome::succeeded("read", format!("status: ok {position}"));
        written(
            &mut session,
            batch.finish_call(0, position, outcome, &Vec::new(), &None, &mut progress),
        );
    }
    assert_eq!(
        told_ids(&session_to_messages(&session)),
        vec!["c2", "c3", "c1"]
    );
    assert_eq!(told_ids(&batch.messages()), vec!["c1", "c2", "c3"]);
}

#[test]
fn a_batch_over_budget_does_not_run() {
    let mut total = 1u32;
    let (batch, actions) = preflight(
        vec![call(1, "read"), call(2, "read")],
        &vec![lookup(), lookup()],
        &mut total,
        2,
        4,
    );
    assert!(batch.is_none());
    assert_eq!(total, 2);
    assert_eq!(actions.len(), 4);
    for id in [1u128, 2] {
        assert!(actions.iter().any(|a| matches!(
            a,
            ToolAction::Complete { call_id, outcome }
                if *call_id == ToolCallId::from_u128(id)
                    && outcome.model_payload.output.contains("tool_budget_exceeded")
        )));
    }
    let mut session: Vec<SessionEvent> = Vec::new();
    written(&mut session, actions);
    assert_eq!(told_ids(&session_to_messages(&session)), vec!["c1", "c2"]);
}

#[test]
fn unreadable_arguments_are_refused() {
    let mut total = 0u32;
    let bad = Lookup {
        parsed: Err("missing field `path`".into()),
        registered: false,
    };
    let (batch, actions) = preflight(vec![call(1, "read")], &vec![bad], &mut total, 0, 4);
    assert!(actions.iter().any(|a| matches!(
        a,
        ToolAction::Complete { outcome, .. }
            if outcome.status == ToolStatus::Rejected
                && outcome.model_payload.output.contains("invalid_arguments")
                && outcome.model_payload.output.contains("missing field `path`")
    )));
    assert!(batch.unwrap().waves.is_empty());
}

#[test]
fn a_repeated_call_is_answered_without_running() {
    let mut total = 0u32;
    let (batch, _) = preflight(vec![call(1, "read")], &vec![lookup()], &mut total, 0, 4);
    let mut batch = batch.unwrap();
    let mut progress = ProgressTracker::default();
    let seen = vec![SeenRevision {
        path: "/w/a".into(),
        revision: "r".into(),
    }];
    for _ in 0..2 {
        let outcome = StoredToolOutcome::succeeded("read", "same".into());
        batch.finish_call(0, 0, outcome, &seen, &None, &mut progress);
    }
    let actions = batch.begin_wave(0, &vec![None], &vec![seen], &progress, 2);
    assert!(actions.iter().any(|a| matches!(
        a,
        ToolAction::Answer { index: 0, outcome }
            if outcome.model_payload.output.contains("repeated_without_progress")
    )));
    assert!(!actions.iter().any(|a| matches!(a, ToolAction::Execute { .. })));
}

#[test]
fn a_plan_is_recorded_when_it_changes() {
    let mut total = 0u32;
    let other = Lookup {
        parsed: Ok(ValidatedArgs::Other),
        registered: false,
    };
    let (batch, _) = preflight(vec![call(1, "update_plan")], &vec![other], &mut total, 0, 4);
    let mut batch = batch.unwrap();
    let mut progress = ProgressTracker::default();
    let plan = Some(tpi::plan::Plan {
        explanation: None,
        items: Vec::new(),
    });
    let outcome = StoredToolOutcome::succeeded("update_plan", "ok".into());
    let actions = batch.finish_call(0, 0, outcome, &Vec::new(), &plan, &mut progress);
    assert!(matches!(
        &actions[0],
        ToolAction::Append(SessionEvent::PlanReplaced { .. })
    ));
}

#[test]
fn changes_are_recorded_before_they_are_made() {
    let edit = recovery_metadata(&Change::Edit {
        target: "a".into(),
        revision: "raw".into(),
        token: None,
        candidate: Some("new".into()),
        temp: "t".into(),
        backup: Some("b".into()),
    });
    assert_eq!(edit.tool, "edit");
    assert_eq!(edit.expected_revision, "raw");
    assert_eq!(edit.candidate_revision.as_deref(), Some("new"));
    let bash = recovery_metadata(&Change::Bash {
        command: "ls".into(),
    });
    assert_eq!(bash.target_path, "ls");
    assert_eq!(bash.backup_path, None);
}
