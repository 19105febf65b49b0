//! What follows a run: what the user is told, what can be made again, and what the next
//! input answers.
use crate::agent::AwaitingInput;
use crate::agent::RequestInputQuestion;
use crate::app::sessions::SessionTarget;
use crate::bytes::size;
use crate::bytes::size_of;
use crate::session::CompletionReason;
use crate::text::contains;
use crate::text::decimal;
use crate::text::decimal_of;
use crate::text::has_text;
use crate::text::lines;
use crate::text::lines_of;
use crate::text::opt_view;
use crate::text::owned;
use crate::text::views;
use crate::text::views_push;
use vstd::prelude::*;
use vstd::string::*;

verus! {

/// What the user is told of an error that ended a run: that the model cannot be reached,
/// where that is what it says, and the error itself otherwise.
pub open spec fn friendly(error: Seq<char>) -> Seq<char> {
    if has_text(error, "connection failed"@) || has_text(error, "stream interrupted"@) {
        "模型连接中断（重试后仍失败）；session 已保留，可稍后重试或检查网络/代理"@
    } else {
        error
    }
}

/// What the user is told of an error that ended a run.
pub fn friendly_provider_failure(error: &str) -> (r: String)
    ensures
        r@ == friendly(error@),
{
    if contains(error, "connection failed") || contains(error, "stream interrupted") {
        owned("模型连接中断（重试后仍失败）；session 已保留，可稍后重试或检查网络/代理")
    } else {
        owned(error)
    }
}

/// The line that tells of a run that failed.
pub fn run_failure_line(error: &str) -> (r: String)
    ensures
        r@ == "run 失败，session 已保留："@ + friendly(error@),
{
    let text = friendly_provider_failure(error);
    owned("run 失败，session 已保留：").concat(text.as_str())
}

/// What the user is told at the end of a run; nothing where the model asks something.
pub open spec fn end_notice(reason: CompletionReason) -> Option<Seq<char>> {
    match reason {
        CompletionReason::Error => Some(
            "run 以 Error 结束（长度限制/内容过滤/协议错误，见 session 记录）"@,
        ),
        CompletionReason::ContextOverflow => Some(
            "上下文仍超出模型窗口（压缩后仍无法容纳）。请 /new 开启新会话，或检查配置中的 context_window。"@,
        ),
        CompletionReason::ProviderInterrupted => Some(
            "⚠ 模型连接中断，已保留本次部分输出和 session 状态；可重新发送继续。"@,
        ),
        CompletionReason::ProviderUnavailable => Some(
            "⚠ 无法连接模型（重试后仍失败）；session 已保留，可稍后重试。"@,
        ),
        CompletionReason::WallTimeExceeded => Some(
            "run 达到 wall-time 预算被自动取消（非用户取消）；已保留已提交内容"@,
        ),
        CompletionReason::Stop => Some("run 完成"@),
        CompletionReason::MaxTurns => Some(
            "run 达到最大模型回合数（limits.max_model_turns）已停止"@,
        ),
        CompletionReason::MaxToolCalls => Some(
            "run 达到工具调用预算（limits.max_tool_calls）已停止"@,
        ),
        CompletionReason::Cancelled => Some("run 已取消（Esc）"@),
        CompletionReason::AwaitingUserInput => None,
    }
}

/// What the user is told at the end of a run.
pub fn run_end_notice(reason: CompletionReason) -> (r: Option<String>)
    ensures
        opt_view(r) == end_notice(reason),
{
    match reason {
        CompletionReason::Error => Some(
            owned("run 以 Error 结束（长度限制/内容过滤/协议错误，见 session 记录）"),
        ),
        CompletionReason::ContextOverflow => Some(
            owned(
                "上下文仍超出模型窗口（压缩后仍无法容纳）。请 /new 开启新会话，或检查配置中的 context_window。",
            ),
        ),
        CompletionReason::ProviderInterrupted => Some(
            owned("⚠ 模型连接中断，已保留本次部分输出和 session 状态；可重新发送继续。"),
        ),
        CompletionReason::ProviderUnavailable => Some(
            owned("⚠ 无法连接模型（重试后仍失败）；session 已保留，可稍后重试。"),
        ),
        CompletionReason::WallTimeExceeded => Some(
            owned("run 达到 wall-time 预算被自动取消（非用户取消）；已保留已提交内容"),
        ),
        CompletionReason::Stop => Some(owned("run 完成")),
        CompletionReason::MaxTurns => Some(
            owned("run 达到最大模型回合数（limits.max_model_turns）已停止"),
        ),
        CompletionReason::MaxToolCalls => Some(
            owned("run 达到工具调用预算（limits.max_tool_calls）已停止"),
        ),
        CompletionReason::Cancelled => Some(owned("run 已取消（Esc）")),
        CompletionReason::AwaitingUserInput => None,
    }
}

/// No end of a run goes unsaid: either the user is told something, or is asked something.
pub proof fn every_end_is_told(reason: CompletionReason)
    ensures
        (end_notice(reason) is None) == (reason == CompletionReason::AwaitingUserInput),
{
}

/// What is shown while the model waits for an answer.
pub open spec fn question_block(text: Seq<char>) -> Seq<Seq<char>> {
    seq!["⏸ run 挂起，等待你的输入："@] + lines_of(text) + seq![
        "（输入回答后继续；↑/↓ + Enter 可从选项中选择，Esc 关闭后自由输入）"@,
    ]
}

/// What is shown while the model waits for an answer: the questions, line by line.
pub fn awaiting_block(awaiting: &Option<AwaitingInput>) -> (r: Vec<String>)
    ensures
        views(r@) == question_block(
            match *awaiting {
                Some(awaiting) => awaiting.text@,
                None => "请提供你的输入"@,
            },
        ),
{
    let question = match awaiting {
        Some(awaiting) => awaiting.text.clone(),
        None => owned("请提供你的输入"),
    };
    let parts = lines(question.as_str());
    let ghost middle = lines_of(question@);
    let mut block: Vec<String> = Vec::new();
    let first = owned("⏸ run 挂起，等待你的输入：");
    let ghost head = seq![first@];
    block.push(first);
    assert(views(block@) =~= head + middle.take(0));
    let mut i: usize = 0;
    while i < parts.len()
        invariant
            i <= parts@.len(),
            views(parts@) == middle,
            views(block@) == head + middle.take(i as int),
        decreases parts@.len() - i,
    {
        let line = parts[i].clone();
        proof {
            views_push(block@, line);
            assert(middle[i as int] == parts@[i as int]@);
        }
        block.push(line);
        assert(views(block@) =~= head + middle.take(i + 1));
        i += 1;
    }
    assert(middle.take(i as int) =~= middle);
    let last = owned(
        "（输入回答后继续；↑/↓ + Enter 可从选项中选择，Esc 关闭后自由输入）",
    );
    proof {
        views_push(block@, last);
    }
    block.push(last);
    assert(views(block@) =~= question_block(question@));
    block
}

/// Whether all answers can be chosen: there are questions, and each has options.
pub open spec fn can_choose(questions: Seq<RequestInputQuestion>) -> bool {
    questions.len() > 0 && forall|i: int|
        0 <= i < questions.len() ==> (#[trigger] questions[i]).options@.len() > 0
}

/// Whether all answers can be chosen: there are questions, and each has options.
pub fn opens_choice(questions: &Vec<RequestInputQuestion>) -> (r: bool)
    ensures
        r == can_choose(questions@),
{
    let mut i: usize = 0;
    while i < questions.len()
        invariant
            i <= questions@.len(),
            forall|j: int| 0 <= j < i ==> (#[trigger] questions@[j]).options@.len() > 0,
        decreases questions@.len() - i,
    {
        if questions[i].options.len() == 0 {
            assert(questions@[i as int].options@.len() == 0);
            return false;
        }
        i += 1;
    }
    questions.len() > 0
}

/// A turn that can be made again: what the user had said, and how it ended.
#[derive(Debug, Clone, PartialEq, Eq)]
pub struct RetryTarget {
    pub message: String,
    pub reason: CompletionReason,
}

/// What a [`RetryTarget`] says.
pub struct RetryView {
    pub message: Seq<char>,
    pub reason: CompletionReason,
}

impl View for RetryTarget {
    type V = RetryView;

    open spec fn view(&self) -> RetryView {
        RetryView { message: self.message@, reason: self.reason }
    }
}

/// Whether a run ended in a way that can be tried again.
pub open spec fn can_retry(reason: CompletionReason) -> bool {
    reason == CompletionReason::ProviderInterrupted || reason
        == CompletionReason::ProviderUnavailable || reason == CompletionReason::Error
}

fn retryable(reason: CompletionReason) -> (r: bool)
    ensures
        r == can_retry(reason),
{
    match reason {
        CompletionReason::ProviderInterrupted => true,
        CompletionReason::ProviderUnavailable => true,
        CompletionReason::Error => true,
        _ => false,
    }
}

/// What is said of a turn that was made again and failed again.
pub open spec fn retry_notice(reason: CompletionReason) -> Option<Seq<char>> {
    match reason {
        CompletionReason::ProviderInterrupted => Some(
            "⚠ 重试未成功（模型连接中断）；可再次 /retry 或重新发送"@,
        ),
        CompletionReason::ProviderUnavailable => Some(
            "⚠ 重试未成功（模型不可用）；可再次 /retry 或重新发送"@,
        ),
        CompletionReason::Error => Some(
            "⚠ 重试未成功（长度限制/内容过滤/协议错误）；可再次 /retry 或重新发送"@,
        ),
        _ => None,
    }
}

/// What is carried from one input to the next.
#[derive(Debug)]
pub struct Dialogue {
    /// The turn that can be made again.
    pub last_failed: Option<RetryTarget>,
    /// What the model waits to be told.
    pub pending_question: Option<String>,
}

/// What a [`Dialogue`] holds.
pub struct DialogueView {
    pub last_failed: Option<RetryView>,
    pub pending_question: Option<Seq<char>>,
}

impl View for Dialogue {
    type V = DialogueView;

    open spec fn view(&self) -> DialogueView {
        DialogueView {
            last_failed: opt_view(self.last_failed),
            pending_question: opt_view(self.pending_question),
        }
    }
}

/// A dialogue after the run of a message: a run that failed can be made again, and one that
/// waits for the user leaves a question.
pub open spec fn after_run(
    dialogue: DialogueView,
    message: Seq<char>,
    reason: CompletionReason,
    awaiting: Option<AwaitingInput>,
) -> DialogueView {
    DialogueView {
        last_failed: if can_retry(reason) {
            Some(RetryView { message, reason })
        } else {
            None
        },
        pending_question: if reason == CompletionReason::AwaitingUserInput {
            match awaiting {
                Some(awaiting) => Some(awaiting.text@),
                None => None,
            }
        } else {
            dialogue.pending_question
        },
    }
}

/// Whether the model waits to be told something.
pub open spec fn awaits(dialogue: DialogueView) -> bool {
    dialogue.pending_question is Some
}

/// What is open once the user has said something.
pub open spec fn told(dialogue: DialogueView) -> DialogueView {
    DialogueView { pending_question: None, ..dialogue }
}

/// What is open once the run of a message could not be carried on.
pub open spec fn failed_with(dialogue: DialogueView, message: Seq<char>) -> DialogueView {
    DialogueView {
        last_failed: Some(RetryView { message, reason: CompletionReason::Error }),
        ..dialogue
    }
}

/// Whether what is shown of the last turn is to be taken away before it is made again.
pub open spec fn discards(dialogue: DialogueView) -> bool {
    dialogue.last_failed matches Some(target) && target.reason
        == CompletionReason::ProviderInterrupted
}

/// What is open once another session is worked in.
pub open spec fn elsewhere(dialogue: DialogueView) -> DialogueView {
    DialogueView { last_failed: None, ..dialogue }
}

impl Dialogue {
    /// Nothing is carried over.
    pub fn new() -> (r: Self)
        ensures
            r@ == (DialogueView { last_failed: None, pending_question: None }),
    {
        Dialogue { last_failed: None, pending_question: None }
    }

    /// Takes in a message of the user. Where the model waits to be told something, the
    /// message is the answer, and this says so; the model then waits no longer.
    pub fn submit(&mut self) -> (answers: bool)
        ensures
            answers == awaits(old(self)@),
            final(self)@ == told(old(self)@),
    {
        let answers = self.pending_question.is_some();
        self.pending_question = None;
        answers
    }

    /// Takes in how the run of a message ended.
    pub fn run_ended(
        &mut self,
        message: &str,
        reason: CompletionReason,
        awaiting: &Option<AwaitingInput>,
    )
        ensures
            final(self)@ == after_run(old(self)@, message@, reason, *awaiting),
    {
        let asks = match reason {
            CompletionReason::AwaitingUserInput => true,
            _ => false,
        };
        if asks {
            self.pending_question = match awaiting {
                Some(awaiting) => Some(awaiting.text.clone()),
                None => None,
            };
        }
        self.last_failed = if retryable(reason) {
            Some(RetryTarget { message: owned(message), reason })
        } else {
            None
        };
    }

    /// Takes in that the run of a message could not be carried on.
    pub fn run_failed(&mut self, message: &str)
        ensures
            final(self)@ == failed_with(old(self)@, message@),
    {
        self.last_failed = Some(
            RetryTarget { message: owned(message), reason: CompletionReason::Error },
        );
    }

    /// Whether what is shown of the last turn is to be taken away before it is made again:
    /// only where it broke off, since only then it was never committed.
    pub fn discards_before_retry(&self) -> (r: bool)
        ensures
            r == discards(self@),
    {
        match &self.last_failed {
            Some(target) => match target.reason {
                CompletionReason::ProviderInterrupted => true,
                _ => false,
            },
            None => false,
        }
    }

    /// Takes in how a turn that was made again ended, and gives what to say of it.
    pub fn retry_ended(&mut self, message: &str, reason: CompletionReason) -> (r: Option<String>)
        ensures
            final(self)@ == (DialogueView {
                last_failed: if can_retry(reason) {
                    Some(RetryView { message: message@, reason })
                } else {
                    None
                },
                ..old(self)@
            }),
            opt_view(r) == retry_notice(reason),
    {
        self.last_failed = if retryable(reason) {
            Some(RetryTarget { message: owned(message), reason })
        } else {
            None
        };
        match reason {
            CompletionReason::ProviderInterrupted => Some(
                owned("⚠ 重试未成功（模型连接中断）；可再次 /retry 或重新发送"),
            ),
            CompletionReason::ProviderUnavailable => Some(
                owned("⚠ 重试未成功（模型不可用）；可再次 /retry 或重新发送"),
            ),
            CompletionReason::Error => Some(
                owned(
                    "⚠ 重试未成功（长度限制/内容过滤/协议错误）；可再次 /retry 或重新发送",
                ),
            ),
            _ => None,
        }
    }

    /// Takes in that another session is worked in.
    pub fn session_changed(&mut self)
        ensures
            final(self)@ == elsewhere(old(self)@),
    {
        self.last_failed = None;
    }
}

/// The error of a single prompt: there is one where the model could not be reached or the
/// run ended in an error.
pub open spec fn prompt_error(reason: CompletionReason, path: Seq<char>) -> Option<Seq<char>> {
    match reason {
        CompletionReason::Error => Some(
            "run 以 Error 结束（长度限制/内容过滤/协议错误）；session 记录: "@ + path,
        ),
        CompletionReason::ProviderUnavailable => Some(
            "无法连接模型（重试后仍失败）；session 记录: "@ + path,
        ),
        _ => None,
    }
}

/// What came of a single prompt: an error where the model could not be reached or the run
/// ended in an error. `path` is where the session is recorded.
pub fn prompt_result(reason: CompletionReason, path: &str) -> (r: Result<(), String>)
    ensures
        match r {
            Ok(_) => prompt_error(reason, path@) is None,
            Err(error) => prompt_error(reason, path@) == Some(error@),
        },
{
    match reason {
        CompletionReason::Error => Err(
            owned(
                "run 以 Error 结束（长度限制/内容过滤/协议错误）；session 记录: ",
            ).concat(path),
        ),
        CompletionReason::ProviderUnavailable => Err(
            owned("无法连接模型（重试后仍失败）；session 记录: ").concat(path),
        ),
        _ => Ok(()),
    }
}

/// What is said beside the answer to a single prompt.
pub open spec fn warning_of(reason: CompletionReason) -> Option<Seq<char>> {
    match reason {
        CompletionReason::WallTimeExceeded => Some(
            "警告：run 达到 wall-time 预算被自动取消（非用户取消）"@,
        ),
        CompletionReason::ProviderInterrupted => Some(
            "警告：模型连接中断，以下为不完整的部分输出；session 已保留。"@,
        ),
        _ => None,
    }
}

/// What is said beside the answer to a single prompt.
pub fn prompt_warning(reason: CompletionReason) -> (r: Option<String>)
    ensures
        opt_view(r) == warning_of(reason),
{
    match reason {
        CompletionReason::WallTimeExceeded => Some(
            owned("警告：run 达到 wall-time 预算被自动取消（非用户取消）"),
        ),
        CompletionReason::ProviderInterrupted => Some(
            owned("警告：模型连接中断，以下为不完整的部分输出；session 已保留。"),
        ),
        _ => None,
    }
}

/// What is wrong with a prompt: that there is none, or that it is too long.
pub open spec fn prompt_fault(prompt: Seq<char>, max_bytes: usize) -> Option<Seq<char>> {
    if prompt.len() == 0 {
        Some("非交互模式需要提供 prompt：tpi -p \"...\""@)
    } else if size_of(prompt) > max_bytes {
        Some("prompt 超过 "@ + decimal_of((max_bytes / 1024) as nat) + " KiB 上限"@)
    } else {
        None
    }
}

/// Whether a prompt can be run: there is one, and it is not too long.
pub fn check_prompt(prompt: &str, max_bytes: usize) -> (r: Result<(), String>)
    ensures
        match r {
            Ok(_) => prompt_fault(prompt@, max_bytes) is None,
            Err(error) => prompt_fault(prompt@, max_bytes) == Some(error@),
        },
{
    if prompt.is_empty() {
        return Err(owned("非交互模式需要提供 prompt：tpi -p \"...\""));
    }
    if size(prompt) > max_bytes {
        let limit = decimal((max_bytes / 1024) as u128);
        return Err(owned("prompt 超过 ").concat(limit.as_str()).concat(" KiB 上限"));
    }
    Ok(())
}

/// What is wrong with a session to work in: that there is to be none, and one to go on with.
pub open spec fn target_fault(target: SessionTarget, no_session: bool) -> Option<Seq<char>> {
    if no_session && !(target is New) {
        Some("--no-session 不能与 --continue/--resume 同时使用"@)
    } else {
        None
    }
}

/// Whether a session can be worked in: without a session there is none to go on with.
pub fn check_target(target: &SessionTarget, no_session: bool) -> (r: Result<(), String>)
    ensures
        match r {
            Ok(_) => target_fault(*target, no_session) is None,
            Err(error) => target_fault(*target, no_session) == Some(error@),
        },
{
    let new = match target {
        SessionTarget::New => true,
        _ => false,
    };
    if no_session && !new {
        Err(owned("--no-session 不能与 --continue/--resume 同时使用"))
    } else {
        Ok(())
    }
}

/// How long the second Ctrl-C may wait, in milliseconds.
pub const EXIT_WINDOW_MS: u64 = 2000;

/// What Ctrl-C does.
#[derive(Debug, Clone, Copy, PartialEq, Eq, Structural)]
pub enum Interrupt {
    /// The run is cancelled.
    CancelRun,
    /// The program ends.
    Exit,
    /// Nothing yet.
    Arm,
}

/// When Ctrl-C was last pressed with no run; 0 where it was not.
#[derive(Debug, Clone, Copy, PartialEq, Eq, Structural)]
pub struct ExitGuard {
    pub armed_at: u64,
}

impl ExitGuard {
    /// Ctrl-C was not pressed.
    pub fn new() -> (r: Self)
        ensures
            r == (ExitGuard { armed_at: 0 }),
    {
        ExitGuard { armed_at: 0 }
    }

    /// What Ctrl-C does: it cancels the run, and with no run it ends the program, but only
    /// the second time within two seconds.
    pub open spec fn pressed(self, running: bool, now_ms: u64) -> (Interrupt, ExitGuard) {
        if running {
            (Interrupt::CancelRun, self)
        } else if self.armed_at != 0 && now_ms - self.armed_at < EXIT_WINDOW_MS {
            (Interrupt::Exit, ExitGuard { armed_at: now_ms })
        } else {
            (Interrupt::Arm, ExitGuard { armed_at: now_ms })
        }
    }

    /// What Ctrl-C does: it cancels the run, and with no run it ends the program, but only
    /// the second time within two seconds.
    pub fn press(&mut self, running: bool, now_ms: u64) -> (r: Interrupt)
        ensures
            (r, *final(self)) == old(self).pressed(running, now_ms),
    {
        if running {
            return Interrupt::CancelRun;
        }
        let first: u64 = self.armed_at;
        self.armed_at = now_ms;
        let passed: u64 = if now_ms > first {
            now_ms - first
        } else {
            0
        };
        if first != 0 && passed < EXIT_WINDOW_MS {
            Interrupt::Exit
        } else {
            Interrupt::Arm
        }
    }
}

} // verus!
