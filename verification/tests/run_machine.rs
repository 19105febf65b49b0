//! The course of a run, step by step.
use tpi::agent::compaction::CompactionFailure;
use tpi::agent::run::BatchEnd;
use tpi::agent::run::Phase;
use tpi::agent::run::Run;
use tpi::agent::run::RunAction;
use tpi::agent::run::RunConfig;
use tpi::agent::run::FINAL_TURN_INSTRUCTION;
use tpi::agent::LiveEvent;
use tpi::agent::RequestInputQuestion;
use tpi::agent::RunFailure;
use tpi::ids::RequestId;
use tpi::ids::ToolCallId;
use tpi::message::ChatMessage;
use tpi::message::ToolCall;
use tpi::provider::FinishReason;
use tpi::provider::ProviderError;
use tpi::provider::ProviderEvent;
use tpi::provider::ProviderResponse;
use tpi::session::CompletionReason;
use tpi::session::SessionEvent;
use tpi::session::Usage;

fn config(max_model_turns: u32) -> RunConfig {
    RunConfig {
        model: "m".into(),
        provider: "p".into(),
        max_output_tokens: None,
        context_window: None,
        safety_reserve_tokens: 0,
        max_model_turns,
        max_tool_calls: 10,
        system_prompt: "system".into(),
    }
}

fn start(max_model_turns: u32, message: &str) -> (Run, Vec<RunAction>) {
    Run::start(
        config(max_model_turns),
        Vec::new(),
        &Vec::new(),
        message.into(),
        None,
        ToolCallId::from_u128(7),
        false,
    )
}

fn usage(input_tokens: u64) -> Usage {
    Usage {
        input_tokens,
        output_tokens: 1,
        cache_read_tokens: 0,
    }
}

fn response(finish_reason: FinishReason, tool_calls: Vec<ToolCall>) -> ProviderResponse {
    ProviderResponse {
        finish_reason,
        usage: usage(10),
        tool_calls,
    }
}

fn call(name: &str) -> ToolCall {
    ToolCall {
        call_id: ToolCallId::from_u128(1),
        provider_id: "c1".into(),
        name: name.into(),
        arguments: "{}".into(),
    }
}

fn finish_of(actions: &[RunAction]) -> Option<CompletionReason> {
    match actions.last() {
        Some(RunAction::Finish(reason)) => Some(*reason),
        _ => None,
    }
}

fn sends(actions: &[RunAction]) -> usize {
    actions
        .iter()
        .filter(|a| matches!(a, RunAction::Send { .. }))
        .count()
}

#[test]
fn a_message_is_answered() {
    let (mut run, actions) = start(5, "hi");
    assert!(matches!(
        &actions[0],
        RunAction::Commit(SessionEvent::UserSubmitted { content }) if content == "hi"
    ));
    assert!(matches!(
        &actions[1],
        RunAction::Commit(SessionEvent::RunStarted { .. })
    ));
    assert!(matches!(actions.last(), Some(RunAction::NextTurn)));
    let actions = run.begin_turn(RequestId::from_u128(1));
    assert_eq!(sends(&actions), 1);
    let shown = run.stream_event(ProviderEvent::TextDelta("hello".into()));
    assert!(matches!(
        &shown[0],
        RunAction::Emit(LiveEvent::AssistantDelta { text, .. }) if text == "hello"
    ));
    let actions = run.stream_done(response(FinishReason::Stop, Vec::new()));
    assert!(actions.iter().any(|a| matches!(
        a,
        RunAction::Commit(SessionEvent::AssistantMessageCommitted { message })
            if message.content == "hello"
    )));
    assert_eq!(finish_of(&actions), Some(CompletionReason::Stop));
    assert_eq!(run.phase, Phase::Done(CompletionReason::Stop));
    let outcome = run.outcome().unwrap();
    assert_eq!(outcome.assistant_text, "hello");
    assert_eq!(outcome.usage.input_tokens, 10);
    assert_eq!(outcome.messages.len(), 2);
}

#[test]
fn other_ends_of_a_stream_are_errors() {
    for reason in [
        FinishReason::Length,
        FinishReason::ContentFilter,
        FinishReason::Error,
    ] {
        let (mut run, _) = start(5, "hi");
        run.begin_turn(RequestId::from_u128(1));
        let actions = run.stream_done(response(reason, Vec::new()));
        assert_eq!(finish_of(&actions), Some(CompletionReason::Error));
    }
}

#[test]
fn tools_lead_to_another_turn() {
    let (mut run, _) = start(5, "hi");
    run.begin_turn(RequestId::from_u128(1));
    let actions = run.stream_done(response(FinishReason::ToolCalls, vec![call("read")]));
    assert!(matches!(
        actions.last(),
        Some(RunAction::RunTools(calls)) if calls.len() == 1
    ));
    let results = vec![ChatMessage::Tool {
        tool_call_id: "c1".into(),
        name: "read".into(),
        content: "status: succeeded".into(),
    }];
    let actions = run.batch_done(BatchEnd::Continue, &results, usage(0));
    assert!(matches!(actions.as_slice(), [RunAction::NextTurn]));
    assert_eq!(run.messages.len(), 3);
    let actions = run.begin_turn(RequestId::from_u128(2));
    assert_eq!(sends(&actions), 1);
    assert_eq!(run.turn, 2);
}

#[test]
fn the_last_turn_says_so_and_no_turn_follows() {
    let (mut run, _) = start(2, "hi");
    run.begin_turn(RequestId::from_u128(1));
    run.stream_done(response(FinishReason::ToolCalls, vec![call("read")]));
    run.batch_done(BatchEnd::Continue, &Vec::new(), usage(0));
    let actions = run.begin_turn(RequestId::from_u128(2));
    assert!(actions.iter().any(|a| matches!(
        a,
        RunAction::Send { ephemeral: Some(text) } if text.contains(FINAL_TURN_INSTRUCTION)
    )));
    run.stream_done(response(FinishReason::ToolCalls, vec![call("read")]));
    run.batch_done(BatchEnd::Continue, &Vec::new(), usage(0));
    let actions = run.begin_turn(RequestId::from_u128(3));
    assert_eq!(sends(&actions), 0);
    assert_eq!(finish_of(&actions), Some(CompletionReason::MaxTurns));
}

#[test]
fn budgets_and_questions_end_a_run() {
    let (mut run, _) = start(5, "hi");
    run.begin_turn(RequestId::from_u128(1));
    run.stream_done(response(FinishReason::ToolCalls, vec![call("read")]));
    let actions = run.batch_done(BatchEnd::BudgetExceeded, &Vec::new(), usage(0));
    assert_eq!(finish_of(&actions), Some(CompletionReason::MaxToolCalls));

    let (mut run, _) = start(5, "hi");
    run.begin_turn(RequestId::from_u128(1));
    run.stream_done(response(FinishReason::ToolCalls, vec![call("request_input")]));
    let questions = vec![RequestInputQuestion {
        header: None,
        question: "which?".into(),
        options: Vec::new(),
    }];
    let end = BatchEnd::SuspendRequested {
        text: String::new(),
        questions,
    };
    let actions = run.batch_done(end, &Vec::new(), usage(0));
    assert!(matches!(
        &actions[0],
        RunAction::Commit(SessionEvent::UserInputRequested { prompt }) if prompt == "请提供你的输入"
    ));
    assert_eq!(finish_of(&actions), Some(CompletionReason::AwaitingUserInput));
    let outcome = run.outcome().unwrap();
    assert_eq!(outcome.awaiting_input.unwrap().questions.len(), 1);
}

#[test]
fn a_broken_stream_is_continued_without_repeating() {
    let (mut run, _) = start(5, "hi");
    run.begin_turn(RequestId::from_u128(1));
    run.stream_event(ProviderEvent::TextDelta("one two three four".into()));
    let actions = run.stream_failed(ProviderError::StreamInterrupted("cut".into()), 0);
    assert!(actions.iter().any(|a| matches!(
        a,
        RunAction::Emit(LiveEvent::StreamRecovering { attempt: 1 })
    )));
    assert_eq!(sends(&actions), 1);
    assert!(actions.iter().any(|a| matches!(
        a,
        RunAction::Send { ephemeral: Some(text) } if text.contains("one two three four")
    )));
    run.stream_event(ProviderEvent::TextDelta("three four five".into()));
    run.stream_done(response(FinishReason::Stop, Vec::new()));
    assert_eq!(
        run.outcome().unwrap().assistant_text,
        "one two three four five"
    );
}

#[test]
fn a_provider_that_cannot_be_reached_fails_the_run() {
    let (mut run, _) = start(5, "hi");
    run.begin_turn(RequestId::from_u128(1));
    let actions = run.stream_failed(ProviderError::Auth("auth (401)".into()), 0);
    assert!(matches!(
        actions.last(),
        Some(RunAction::Fail(RunFailure::Provider(_)))
    ));
    assert_eq!(run.phase, Phase::Failed);
    assert!(run.outcome().is_none());
}

#[test]
fn a_cancelled_run_tells_who_cancelled_it() {
    for (cause, reason) in [
        (
            tpi::agent::limits::CANCEL_CAUSE_USER,
            CompletionReason::Cancelled,
        ),
        (
            tpi::agent::limits::CANCEL_CAUSE_WALL_TIME,
            CompletionReason::WallTimeExceeded,
        ),
    ] {
        let (mut run, _) = start(5, "hi");
        run.begin_turn(RequestId::from_u128(1));
        let actions = run.stream_failed(ProviderError::Cancelled, cause);
        assert_eq!(finish_of(&actions), Some(reason));
    }
}

#[test]
fn a_forced_compaction_comes_first() {
    let history = vec![
        ChatMessage::User("a".into()),
        ChatMessage::Assistant {
            content: "b".into(),
            tool_calls: Vec::new(),
        },
    ];
    let (mut run, actions) = Run::start(
        config(5),
        Vec::new(),
        &history,
        "c".into(),
        None,
        ToolCallId::from_u128(7),
        true,
    );
    assert!(matches!(actions.last(), Some(RunAction::Compact)));
    assert_eq!(run.phase, Phase::CompactingManually);
    let actions = run.compaction_done(
        Err(CompactionFailure::SummaryInvalid { raw: "a \"b\"".into() }),
        usage(3),
        None,
        ToolCallId::from_u128(8),
    );
    assert!(actions.iter().any(|a| matches!(
        a,
        RunAction::Emit(LiveEvent::CompactionNotice { message })
            if message == "手动压缩未生效：模型未返回有效摘要。模型输出：\"a \\\"b\\\"\""
    )));
    assert!(matches!(actions.last(), Some(RunAction::NextTurn)));
    assert_eq!(run.usage.input_tokens, 3);

    let (_, actions) = Run::start(
        config(5),
        Vec::new(),
        &Vec::new(),
        "c".into(),
        None,
        ToolCallId::from_u128(7),
        true,
    );
    assert!(actions.iter().any(|a| matches!(
        a,
        RunAction::Emit(LiveEvent::CompactionNotice { message })
            if message == "手动压缩未生效：没有可压缩的历史（当前对话过短）"
    )));
}

#[test]
fn a_retry_says_nothing_new() {
    let history = vec![
        ChatMessage::User("a".into()),
        ChatMessage::Assistant {
            content: "half".into(),
            tool_calls: Vec::new(),
        },
    ];
    let (mut run, actions) = Run::start(
        config(5),
        Vec::new(),
        &history,
        String::new(),
        None,
        ToolCallId::from_u128(7),
        false,
    );
    assert!(!actions.iter().any(|a| matches!(
        a,
        RunAction::Commit(SessionEvent::UserSubmitted { .. })
    )));
    assert_eq!(run.messages.len(), 2);
    assert!(run.manual_retry_continuation);
    let actions = run.begin_turn(RequestId::from_u128(1));
    assert!(actions.iter().any(|a| matches!(
        a,
        RunAction::Send { ephemeral: Some(text) } if text.contains("Continue it from the exact point")
    )));
}
