//! The course of an interactive session: what is done next, and what is carried from one
//! thing to the next.
use crate::agent::AwaitingInput;
use crate::app::commands::handle_slash_command;
use crate::app::commands::step_of;
use crate::app::commands::SlashFacts;
use crate::app::commands::SlashStep;
use crate::app::commands::SlashStepView;
use crate::app::sessions::parse_session_id;
use crate::app::sessions::resume_label;
use crate::app::sessions::session_resume_label;
use crate::app::turn::can_retry;
use crate::app::turn::friendly;
use crate::app::turn::retry_notice;
use crate::app::turn::run_failure_line;
use crate::app::turn::Dialogue;
use crate::app::turn::DialogueView;
use crate::app::turn::RetryView;
use crate::config::find_model;
use crate::config::model_at;
use crate::ids::uuid_parse;
use crate::ids::SessionId;
use crate::session::CompletionReason;
use crate::text::opt_view;
use crate::text::owned;
use crate::text::views;
use crate::text::views_push;
use vstd::prelude::*;
use vstd::string::*;

verus! {

/// What is said first.
pub const WELCOME: &'static str =
    "TPI：/help 查看命令与快捷键 · Esc 取消当前 run · 空闲 Ctrl+C 连按两次退出";

/// What is drawn below a turn.
pub const RULE: &'static str = "────────────────────────────────────────";

/// A turn that is under way.
#[derive(Debug, Clone, PartialEq, Eq)]
pub struct CurrentTurn {
    /// What the user had said.
    pub message: String,
    /// Whether it is made again.
    pub again: bool,
}

/// What a [`CurrentTurn`] says.
pub struct CurrentView {
    pub message: Seq<char>,
    pub again: bool,
}

impl View for CurrentTurn {
    type V = CurrentView;

    open spec fn view(&self) -> CurrentView {
        CurrentView { message: self.message@, again: self.again }
    }
}

/// An interactive session.
#[derive(Debug)]
pub struct Interactive {
    /// What the user has said and what has not been looked at yet, in order.
    pub messages: Vec<String>,
    /// The theme that was chosen.
    pub theme: Option<String>,
    /// The model that was chosen.
    pub model: Option<String>,
    /// The session that was chosen.
    pub session: Option<String>,
    /// What was said in the turn that is to be made again.
    pub retry: Option<String>,
    /// Whether the context is compacted when the next run begins.
    pub compact: bool,
    pub dialogue: Dialogue,
    /// The turn that is under way.
    pub current: Option<CurrentTurn>,
}

/// What an [`Interactive`] holds.
pub struct InteractiveView {
    pub messages: Seq<Seq<char>>,
    pub theme: Option<Seq<char>>,
    pub model: Option<Seq<char>>,
    pub session: Option<Seq<char>>,
    pub retry: Option<Seq<char>>,
    pub compact: bool,
    pub dialogue: DialogueView,
    pub current: Option<CurrentView>,
}

impl View for Interactive {
    type V = InteractiveView;

    open spec fn view(&self) -> InteractiveView {
        InteractiveView {
            messages: views(self.messages@),
            theme: opt_view(self.theme),
            model: opt_view(self.model),
            session: opt_view(self.session),
            retry: opt_view(self.retry),
            compact: self.compact,
            dialogue: self.dialogue@,
            current: opt_view(self.current),
        }
    }
}

/// What is done next.
#[derive(Debug, Clone, PartialEq, Eq)]
pub enum LoopAction {
    /// Wait for input.
    Wait,
    /// Leave the program.
    Quit,
    /// Use a theme, and keep it.
    ApplyTheme(String),
    /// Use the model at this position from the next run on.
    UseModel { index: usize },
    /// Work in another session.
    Resume(SessionId),
    /// Say something.
    Say(String),
    /// Do what a command says.
    Perform(SlashStep),
    /// Start a run.
    Run {
        /// What the user says; nothing where a turn is made again.
        message: String,
        /// Whether this answers what the model asked.
        answers: bool,
        /// Whether what is shown of the last turn is taken away first.
        discard: bool,
        /// Whether the context is compacted first.
        compact: bool,
    },
}

/// What a [`LoopAction`] says.
pub enum LoopActionView {
    Wait,
    Quit,
    ApplyTheme(Seq<char>),
    UseModel { index: usize },
    Resume(SessionId),
    Say(Seq<char>),
    Perform(SlashStepView),
    Run { message: Seq<char>, answers: bool, discard: bool, compact: bool },
}

impl View for LoopAction {
    type V = LoopActionView;

    open spec fn view(&self) -> LoopActionView {
        match *self {
            LoopAction::Wait => LoopActionView::Wait,
            LoopAction::Quit => LoopActionView::Quit,
            LoopAction::ApplyTheme(name) => LoopActionView::ApplyTheme(name@),
            LoopAction::UseModel { index } => LoopActionView::UseModel { index },
            LoopAction::Resume(id) => LoopActionView::Resume(id),
            LoopAction::Say(text) => LoopActionView::Say(text@),
            LoopAction::Perform(step) => LoopActionView::Perform(step@),
            LoopAction::Run { message, answers, discard, compact } => LoopActionView::Run {
                message: message@,
                answers,
                discard,
                compact,
            },
        }
    }
}

/// Whether there is something to do.
pub open spec fn has_work(state: InteractiveView) -> bool {
    state.theme is Some || state.model is Some || state.session is Some || state.retry is Some
        || state.messages.len() > 0
}

/// What remains after a command: a turn to be made again, a context to be compacted, or a
/// failed turn that no longer counts.
pub open spec fn performed(state: InteractiveView, step: SlashStepView) -> InteractiveView {
    match step {
        SlashStepView::Retry { message, line } => InteractiveView {
            retry: Some(message),
            ..state
        },
        SlashStepView::Compact => InteractiveView { compact: true, ..state },
        SlashStepView::NewSession => InteractiveView {
            dialogue: DialogueView { last_failed: None, ..state.dialogue },
            ..state
        },
        _ => state,
    }
}

/// What is done with a message: it is a command, or else it starts a run. A message that
/// starts a run answers what the model asked, where it asked something.
pub open spec fn taken(state: InteractiveView, facts: SlashFacts) -> (
    InteractiveView,
    LoopActionView,
) {
    let message = state.messages[0];
    let rest = InteractiveView { messages: state.messages.skip(1), ..state };
    match step_of(message, facts, state.dialogue.last_failed) {
        SlashStepView::Quit => (rest, LoopActionView::Quit),
        SlashStepView::NotCommand => (
            InteractiveView {
                compact: false,
                dialogue: DialogueView { pending_question: None, ..state.dialogue },
                current: Some(CurrentView { message, again: false }),
                ..rest
            },
            LoopActionView::Run {
                message,
                answers: state.dialogue.pending_question is Some,
                discard: false,
                compact: state.compact,
            },
        ),
        step => (performed(rest, step), LoopActionView::Perform(step)),
    }
}

/// What is done next, and what remains: during a turn, nothing; otherwise a theme comes
/// first, then a model, then a session, then a turn to be made again, then what the user has said.
pub open spec fn next_of(state: InteractiveView, facts: SlashFacts) -> (
    InteractiveView,
    LoopActionView,
) {
    if state.current is Some {
        (state, LoopActionView::Wait)
    } else if let Some(name) = state.theme {
        (InteractiveView { theme: None, ..state }, LoopActionView::ApplyTheme(name))
    } else if let Some(name) = state.model {
        let at = model_at(facts.models@, name);
        (
            InteractiveView { model: None, ..state },
            if at < facts.models@.len() {
                LoopActionView::UseModel { index: at as usize }
            } else {
                LoopActionView::Say("未知模型: "@ + name)
            },
        )
    } else if let Some(id) = state.session {
        (
            InteractiveView { session: None, ..state },
            match uuid_parse(id) {
                Some(value) => LoopActionView::Resume(SessionId(value)),
                None => LoopActionView::Say("无效 session id: "@ + id),
            },
        )
    } else if let Some(message) = state.retry {
        (
            InteractiveView {
                retry: None,
                compact: false,
                current: Some(CurrentView { message, again: true }),
                ..state
            },
            LoopActionView::Run {
                message: Seq::empty(),
                answers: false,
                discard: state.dialogue.last_failed matches Some(target) && target.reason
                    == CompletionReason::ProviderInterrupted,
                compact: state.compact,
            },
        )
    } else if state.messages.len() > 0 {
        taken(state, facts)
    } else {
        (state, LoopActionView::Wait)
    }
}

/// What is carried over when a turn has ended.
pub open spec fn turn_ended(
    dialogue: DialogueView,
    turn: CurrentView,
    reason: CompletionReason,
    awaiting: Option<AwaitingInput>,
) -> DialogueView {
    DialogueView {
        last_failed: if can_retry(reason) {
            Some(RetryView { message: turn.message, reason })
        } else {
            None
        },
        pending_question: if !turn.again && reason == CompletionReason::AwaitingUserInput {
            match awaiting {
                Some(awaiting) => Some(awaiting.text@),
                None => None,
            }
        } else {
            dialogue.pending_question
        },
    }
}

/// What is said below a turn that has ended.
pub open spec fn turn_lines(turn: CurrentView, reason: CompletionReason) -> Seq<Seq<char>> {
    match retry_notice(reason) {
        Some(notice) => if turn.again {
            seq![notice, RULE@]
        } else {
            seq![RULE@]
        },
        None => seq![RULE@],
    }
}

/// A session that starts with what the user has said already, if anything.
pub open spec fn begun_with(prompt: Seq<char>) -> InteractiveView {
    InteractiveView {
        messages: if prompt.len() == 0 {
            Seq::empty()
        } else {
            seq![prompt]
        },
        theme: None,
        model: None,
        session: None,
        retry: None,
        compact: false,
        dialogue: DialogueView { last_failed: None, pending_question: None },
        current: None,
    }
}

/// A session once the user has said something more.
pub open spec fn with_message(state: InteractiveView, message: Seq<char>) -> InteractiveView {
    InteractiveView { messages: state.messages.push(message), ..state }
}

/// A session once a theme was chosen.
pub open spec fn with_theme(state: InteractiveView, name: Seq<char>) -> InteractiveView {
    InteractiveView { theme: Some(name), ..state }
}

/// A session once a model was chosen.
pub open spec fn with_model(state: InteractiveView, name: Seq<char>) -> InteractiveView {
    InteractiveView { model: Some(name), ..state }
}

/// A session once another was chosen.
pub open spec fn with_session(state: InteractiveView, id: Seq<char>) -> InteractiveView {
    InteractiveView { session: Some(id), ..state }
}

/// A session once its turn has ended.
pub open spec fn after_turn(
    state: InteractiveView,
    reason: CompletionReason,
    awaiting: Option<AwaitingInput>,
) -> InteractiveView {
    InteractiveView {
        dialogue: turn_ended(state.dialogue, state.current->0, reason, awaiting),
        current: None,
        ..state
    }
}

/// A session once its turn could not be carried on.
pub open spec fn after_failure(state: InteractiveView) -> InteractiveView {
    InteractiveView {
        dialogue: DialogueView {
            last_failed: Some(
                RetryView {
                    message: state.current->0.message,
                    reason: CompletionReason::Error,
                },
            ),
            ..state.dialogue
        },
        current: None,
        ..state
    }
}

/// A session once it was tried to go on with another.
pub open spec fn after_resuming(state: InteractiveView, resumed: bool) -> InteractiveView {
    if resumed {
        InteractiveView {
            dialogue: DialogueView { last_failed: None, ..state.dialogue },
            ..state
        }
    } else {
        state
    }
}

/// What is said once it was tried to go on with another session.
pub open spec fn said_of_resuming(result: Result<(SessionId, String), String>) -> Seq<char> {
    match result {
        Ok((id, title)) => resume_label(Some((id, title@))),
        Err(error) => "恢复失败: "@ + error@,
    }
}

impl Interactive {
    /// A session that starts with what the user has said already, if anything.
    pub fn new(initial_prompt: &str) -> (r: Self)
        ensures
            r@ == begun_with(initial_prompt@),
    {
        let mut messages: Vec<String> = Vec::new();
        if !initial_prompt.is_empty() {
            messages.push(owned(initial_prompt));
            assert(views(messages@) =~= seq![initial_prompt@]);
        } else {
            assert(views(messages@) =~= Seq::<Seq<char>>::empty());
        }
        Interactive {
            messages,
            theme: None,
            model: None,
            session: None,
            retry: None,
            compact: false,
            dialogue: Dialogue::new(),
            current: None,
        }
    }

    /// Whether there is something to do.
    pub fn has_pending_work(&self) -> (r: bool)
        ensures
            r == has_work(self@),
    {
        assert(views(self.messages@).len() == self.messages@.len());
        self.theme.is_some() || self.model.is_some() || self.session.is_some()
            || self.retry.is_some() || self.messages.len() > 0
    }

    /// Takes in what the user says, behind all that was said before.
    pub fn push_pending(&mut self, message: String)
        ensures
            final(self)@ == with_message(old(self)@, message@),
    {
        proof {
            views_push(self.messages@, message);
        }
        self.messages.push(message);
    }

    /// Takes in that a theme was chosen.
    pub fn choose_theme(&mut self, name: String)
        ensures
            final(self)@ == with_theme(old(self)@, name@),
    {
        self.theme = Some(name);
    }

    /// Takes in that a model was chosen.
    pub fn choose_model(&mut self, name: String)
        ensures
            final(self)@ == with_model(old(self)@, name@),
    {
        self.model = Some(name);
    }

    /// Takes in that a session was chosen.
    pub fn choose_session(&mut self, id: String)
        ensures
            final(self)@ == with_session(old(self)@, id@),
    {
        self.session = Some(id);
    }

    fn take_message(&mut self, facts: &SlashFacts) -> (r: LoopAction)
        requires
            old(self)@.messages.len() > 0,
            old(self)@.current is None,
        ensures
            (final(self)@, r@) == taken(old(self)@, *facts),
    {
        let ghost before = self@;
        let ghost held = self.messages@;
        assert(views(self.messages@).len() == self.messages@.len());
        let message = self.messages.remove(0);
        proof {
            assert(before.messages[0] == message@);
            assert(views(self.messages@) =~= before.messages.skip(1)) by {
                assert forall|i: int| 0 <= i < self.messages@.len() implies #[trigger] views(
                    self.messages@,
                )[i] == before.messages.skip(1)[i] by {
                    assert(self.messages@[i] == held[i + 1]);
                }
            }
        }
        let step = handle_slash_command(message.as_str(), facts, &self.dialogue.last_failed);
        match step {
            SlashStep::Quit => LoopAction::Quit,
            SlashStep::NotCommand => {
                let answers = self.dialogue.submit();
                let compact = self.compact;
                self.compact = false;
                self.current = Some(CurrentTurn { message: message.clone(), again: false });
                LoopAction::Run { message, answers, discard: false, compact }
            },
            SlashStep::Retry { message: again, line } => {
                self.retry = Some(again.clone());
                LoopAction::Perform(SlashStep::Retry { message: again, line })
            },
            SlashStep::Compact => {
                self.compact = true;
                LoopAction::Perform(SlashStep::Compact)
            },
            SlashStep::NewSession => {
                self.dialogue.session_changed();
                LoopAction::Perform(SlashStep::NewSession)
            },
            other => LoopAction::Perform(other),
        }
    }

    /// What is done next.
    pub fn next_action(&mut self, facts: &SlashFacts) -> (r: LoopAction)
        ensures
            (final(self)@, r@) == next_of(old(self)@, *facts),
    {
        assert(views(self.messages@).len() == self.messages@.len());
        if self.current.is_some() {
            return LoopAction::Wait;
        }
        if let Some(name) = self.theme.take() {
            return LoopAction::ApplyTheme(name);
        }
        if let Some(name) = self.model.take() {
            let index: usize = find_model(&facts.models, name.as_str());
            return if index < facts.models.len() {
                LoopAction::UseModel { index }
            } else {
                LoopAction::Say(owned("未知模型: ").concat(name.as_str()))
            };
        }
        if let Some(id) = self.session.take() {
            return match parse_session_id(id.as_str()) {
                Ok(session) => LoopAction::Resume(session),
                Err(error) => LoopAction::Say(error),
            };
        }
        if let Some(message) = self.retry.take() {
            let discard = self.dialogue.discards_before_retry();
            let compact = self.compact;
            self.compact = false;
            self.current = Some(CurrentTurn { message, again: true });
            return LoopAction::Run { message: String::new(), answers: false, discard, compact };
        }
        if self.messages.len() > 0 {
            self.take_message(facts)
        } else {
            LoopAction::Wait
        }
    }

    /// Takes in how the turn ended, and gives what to say below it.
    pub fn ended(&mut self, reason: CompletionReason, awaiting: &Option<AwaitingInput>) -> (r: Vec<
        String,
    >)
        requires
            old(self)@.current is Some,
        ensures
            final(self)@ == after_turn(old(self)@, reason, *awaiting),
            views(r@) == turn_lines(old(self)@.current->0, reason),
    {
        let ghost before = self@;
        let mut lines: Vec<String> = Vec::new();
        let ghost nothing = views(lines@);
        assert(nothing =~= Seq::<Seq<char>>::empty());
        if let Some(turn) = self.current.take() {
            if turn.again {
                if let Some(notice) = self.dialogue.retry_ended(turn.message.as_str(), reason) {
                    proof {
                        views_push(lines@, notice);
                    }
                    lines.push(notice);
                }
            } else {
                self.dialogue.run_ended(turn.message.as_str(), reason, awaiting);
            }
        }
        let rule = owned(RULE);
        proof {
            views_push(lines@, rule);
        }
        lines.push(rule);
        assert(views(lines@) =~= turn_lines(before.current->0, reason));
        lines
    }

    /// Takes in that the turn could not be carried on, and gives what to say of it.
    pub fn failed(&mut self, error: &str) -> (r: String)
        requires
            old(self)@.current is Some,
        ensures
            final(self)@ == after_failure(old(self)@),
            r@ == "run 失败，session 已保留："@ + friendly(error@),
    {
        if let Some(turn) = self.current.take() {
            self.dialogue.run_failed(turn.message.as_str());
        }
        run_failure_line(error)
    }

    /// Takes in whether another session can be worked in, and gives what to say of it. The
    /// session is given by its name and title.
    pub fn resumed(&mut self, result: &Result<(SessionId, String), String>) -> (r: String)
        ensures
            final(self)@ == after_resuming(old(self)@, *result is Ok),
            r@ == said_of_resuming(*result),
    {
        match result {
            Ok((id, title)) => {
                self.dialogue.session_changed();
                session_resume_label(Some(*id), title.as_str())
            },
            Err(error) => owned("恢复失败: ").concat(error.as_str()),
        }
    }
}

/// What is said of a theme that is used now: where it was kept, or why it was not.
pub fn theme_notice(name: &str, kept: &Result<String, String>) -> (r: String)
    ensures
        r@ == match *kept {
            Ok(path) => "已切换主题 "@ + name@ + "（已保存到 "@ + path@ + "）"@,
            Err(error) => "主题已切换（保存失败: "@ + error@ + "）"@,
        },
{
    match kept {
        Ok(path) => owned("已切换主题 ").concat(name).concat("（已保存到 ").concat(
            path.as_str(),
        ).concat("）"),
        Err(error) => owned("主题已切换（保存失败: ").concat(error.as_str()).concat("）"),
    }
}

/// What is said of a model that is used now.
pub fn model_notice(name: &str) -> (r: String)
    ensures
        r@ == "已切换模型 "@ + name@,
{
    owned("已切换模型 ").concat(name)
}

/// A model that was chosen is used next, unless a theme was chosen too, and the choice is
/// made once.
pub proof fn a_chosen_model_is_used(state: InteractiveView, facts: SlashFacts, name: Seq<char>)
    requires
        state.current is None,
        state.theme is None,
        0 <= model_at(facts.models@, name) < facts.models@.len(),
        facts.models@.len() <= usize::MAX,
    ensures
        ({
            let chosen = InteractiveView { model: Some(name), ..state };
            let (after, action) = next_of(chosen, facts);
            &&& action matches LoopActionView::UseModel { index } && index == model_at(
                facts.models@,
                name,
            )
            &&& after == (InteractiveView { model: None, ..state })
        }),
{
}

/// Nothing is waited for while there is something to do.
pub proof fn work_is_not_put_off(state: InteractiveView, facts: SlashFacts)
    requires
        state.current is None,
    ensures
        (next_of(state, facts).1 is Wait) == !has_work(state),
{
}

/// What the user says is looked at in the order in which it was said: nothing that is done
/// touches what comes behind, and what is said later is looked at later.
pub proof fn messages_keep_their_order(
    state: InteractiveView,
    facts: SlashFacts,
    more: Seq<Seq<char>>,
)
    requires
        has_work(state),
    ensures
        ({
            let fuller = InteractiveView { messages: state.messages + more, ..state };
            &&& next_of(fuller, facts).1 == next_of(state, facts).1
            &&& next_of(fuller, facts).0 == (InteractiveView {
                messages: next_of(state, facts).0.messages + more,
                ..next_of(state, facts).0
            })
        }),
{
    let fuller = InteractiveView { messages: state.messages + more, ..state };
    if state.messages.len() > 0 {
        assert(fuller.messages[0] == state.messages[0]);
        assert(fuller.messages.skip(1) =~= state.messages.skip(1) + more);
    }
}

/// A turn that failed can be made again: the command for it leads to a run that says
/// nothing new, for the same message.
pub proof fn a_failed_turn_can_be_made_again(
    state: InteractiveView,
    facts: SlashFacts,
    earlier: DialogueView,
    turn: CurrentView,
    reason: CompletionReason,
    awaiting: Option<AwaitingInput>,
)
    requires
        can_retry(reason),
        state.current is None,
        state.theme is None,
        state.model is None,
        state.session is None,
        state.retry is None,
        state.messages.len() > 0,
        state.messages[0] == "/retry"@,
        state.dialogue == turn_ended(earlier, turn, reason, awaiting),
    ensures
        ({
            let (asked, command) = next_of(state, facts);
            let (running, action) = next_of(asked, facts);
            &&& command matches LoopActionView::Perform(SlashStepView::Retry { message, .. })
                && message == turn.message
            &&& action matches LoopActionView::Run { message, answers, .. } && message.len() == 0
                && !answers
            &&& running.current == Some(CurrentView { message: turn.message, again: true })
        }),
{
    reveal_strlit("/retry");
    reveal_strlit("/quit");
    reveal_strlit("/exit");
    reveal_strlit("/mcp");
    reveal_strlit("/mcp ");
    reveal_strlit("/settings");
    reveal_strlit("/model");
    reveal_strlit("/help");
    reveal_strlit("/session");
    reveal_strlit("/sessions");
    reveal_strlit("/theme");
    reveal_strlit("/new");
    reveal_strlit("/cancel");
    reveal_strlit("/thinking");
    reveal_strlit("/diff");
    reveal_strlit("/doctor");
    reveal_strlit("/compact");
    let message = "/retry"@;
    assert(message.len() == 6 && message[1] == 'r');
    assert("/quit"@.len() == 5);
    assert("/exit"@.len() == 5);
    assert("/mcp"@.len() == 4);
    assert("/mcp "@[1] == 'm');
    assert("/settings"@.len() == 9);
    assert("/model"@[1] == 'm');
    assert("/help"@.len() == 5);
    assert("/session"@.len() == 8);
    assert("/sessions"@.len() == 9);
    assert("/theme"@[1] == 't');
    assert("/new"@.len() == 4);
    assert("/cancel"@.len() == 7);
    assert("/thinking"@.len() == 9);
    assert("/diff"@.len() == 5);
    assert("/doctor"@.len() == 7);
    assert("/compact"@.len() == 8);
}

/// A question of the model is answered by the next message that starts a run, and by that
/// one alone.
pub proof fn a_question_is_answered_once(state: InteractiveView, facts: SlashFacts)
    requires
        next_of(state, facts).1 is Run,
    ensures
        ({
            let (after, action) = next_of(state, facts);
            &&& action matches LoopActionView::Run { message, answers, .. } && (answers
                ==> state.dialogue.pending_question is Some
                && after.dialogue.pending_question is None) && (state.retry is None
                && state.dialogue.pending_question is Some ==> answers)
        }),
{
}

} // verus!
