//! The course of one command on another machine.
use crate::outcome::outcome_of;
use crate::outcome::ModelPayloadView;
use crate::outcome::OutcomeView;
use crate::outcome::StoredToolOutcome;
use crate::remote::executor::capture_command;
use crate::remote::executor::capture_script;
use crate::remote::executor::check_command;
use crate::remote::executor::cwd_of;
use crate::remote::executor::env_of;
use crate::remote::executor::failure_outcome;
use crate::remote::executor::full_command;
use crate::remote::executor::parse_capture;
use crate::remote::executor::refusal_of;
use crate::remote::executor::remote_done;
use crate::remote::executor::remote_failure;
use crate::remote::executor::remote_script;
use crate::remote::executor::remote_status;
use crate::remote::executor::remote_summary;
use crate::remote::executor::Environment;
use crate::remote::executor::RemoteFailure;
use crate::remote::executor::RemoteResult;
use crate::remote::executor::ShellState;
use crate::remote::executor::ShellStateView;
use crate::bytes::lossy_text;
use crate::text::lines_of;
use crate::text::opt_view;
use vstd::prelude::*;
use vstd::string::*;

verus! {

/// What a command waits for.
#[derive(Debug, Clone, Copy, PartialEq, Eq, Structural)]
pub enum Stage {
    /// A connection, so that the variables of the machine can be asked for.
    MeetingFirst,
    /// The variables of the machine.
    Baseline,
    /// A connection.
    Meeting,
    /// The end of the command.
    Running,
    /// Nothing: the command is over.
    Over,
}

/// What is asked of the shell.
#[derive(Debug)]
pub struct RemoteRequest {
    pub command: String,
    /// The directory that the command is to run in, where one is named.
    pub cwd: Option<String>,
    pub timeout_ms: u64,
}

/// A command on its way.
#[derive(Debug)]
pub struct RemoteCommand {
    pub stage: Stage,
    /// The directory that the command runs in.
    pub directory: String,
    /// What the shell is told.
    pub script: String,
    /// What the shell is told to ask for its variables.
    pub baseline_script: String,
    pub timeout_ms: u64,
}

/// What a [`RemoteCommand`] holds.
pub struct RemoteCommandView {
    pub stage: Stage,
    pub directory: Seq<char>,
    pub script: Seq<char>,
    pub baseline_script: Seq<char>,
    pub timeout_ms: u64,
}

impl View for RemoteCommand {
    type V = RemoteCommandView;

    open spec fn view(&self) -> RemoteCommandView {
        RemoteCommandView {
            stage: self.stage,
            directory: self.directory@,
            script: self.script@,
            baseline_script: self.baseline_script@,
            timeout_ms: self.timeout_ms,
        }
    }
}

/// Something for the driver of a command to do.
#[derive(Debug)]
pub enum RemoteAction {
    /// Connect to the machine.
    Connect,
    /// Have the shell do something, within a time where one is given.
    Exec { script: String, timeout_ms: Option<u64> },
    /// Give the outcome back.
    Finish(StoredToolOutcome),
}

/// What a [`RemoteAction`] says.
pub enum RemoteActionView {
    Connect,
    Exec { script: Seq<char>, timeout_ms: Option<u64> },
    Finish(OutcomeView),
}

impl View for RemoteAction {
    type V = RemoteActionView;

    open spec fn view(&self) -> RemoteActionView {
        match *self {
            RemoteAction::Connect => RemoteActionView::Connect,
            RemoteAction::Exec { script, timeout_ms } => RemoteActionView::Exec {
                script: script@,
                timeout_ms,
            },
            RemoteAction::Finish(outcome) => RemoteActionView::Finish(outcome@),
        }
    }
}

/// How an attempt to connect went.
#[derive(Debug)]
pub enum Meeting {
    Accepted,
    /// The key of the machine was not accepted; what was decided of it, in words.
    Undecided(String),
    Failed(String),
}

/// How the shell did what it was told.
#[derive(Debug)]
pub enum Executed {
    /// To its end. `result` holds no more what was printed between the marks; `capture` does.
    Done { result: RemoteResult, capture: Option<Vec<u8>> },
    Failed(RemoteFailure),
}

/// What comes of a step: the command after it, and what to do.
pub struct RemoteStep {
    pub command: RemoteCommandView,
    pub action: RemoteActionView,
}

/// The command itself is sent, or a connection is made first.
pub open spec fn sent_on(command: RemoteCommandView, connected: bool) -> RemoteStep {
    if connected {
        RemoteStep {
            command: RemoteCommandView { stage: Stage::Running, ..command },
            action: RemoteActionView::Exec {
                script: command.script,
                timeout_ms: Some(command.timeout_ms),
            },
        }
    } else {
        RemoteStep {
            command: RemoteCommandView { stage: Stage::Meeting, ..command },
            action: RemoteActionView::Connect,
        }
    }
}

/// The variables of the machine are asked for. There is no limit on the time.
pub open spec fn asked_first(command: RemoteCommandView) -> RemoteStep {
    RemoteStep {
        command: RemoteCommandView { stage: Stage::Baseline, ..command },
        action: RemoteActionView::Exec { script: command.baseline_script, timeout_ms: None },
    }
}

/// How a command begins: with the variables of the machine, as long as they are not known.
pub open spec fn begun(command: RemoteCommandView, has_baseline: bool, connected: bool) -> RemoteStep {
    if has_baseline {
        sent_on(command, connected)
    } else if connected {
        asked_first(command)
    } else {
        RemoteStep {
            command: RemoteCommandView { stage: Stage::MeetingFirst, ..command },
            action: RemoteActionView::Connect,
        }
    }
}

/// The command ends with an outcome.
pub open spec fn finished(command: RemoteCommandView, outcome: OutcomeView) -> RemoteStep {
    RemoteStep {
        command: RemoteCommandView { stage: Stage::Over, ..command },
        action: RemoteActionView::Finish(outcome),
    }
}

/// After an attempt to connect. Where the variables cannot be asked for, the command is
/// tried all the same, if need be with a connection of its own.
pub open spec fn met(command: RemoteCommandView, meeting: Meeting, connected: bool) -> RemoteStep {
    if command.stage == Stage::MeetingFirst {
        match meeting {
            Meeting::Accepted => asked_first(command),
            _ => sent_on(command, connected),
        }
    } else {
        match meeting {
            Meeting::Accepted => sent_on(command, true),
            Meeting::Undecided(decision) => finished(
                command,
                failure_outcome(RemoteFailure::HostKey(decision)),
            ),
            Meeting::Failed(error) => finished(
                command,
                failure_outcome(RemoteFailure::Connect(error)),
            ),
        }
    }
}

/// The outcome of a command that ran to its end.
pub open spec fn done_outcome(result: RemoteResult, budget: int) -> OutcomeView {
    outcome_of(
        "bash"@,
        ModelPayloadView {
            status: remote_status(result),
            program: Some("ssh"@),
            exit_code: result.exit_code,
            duration_ms: result.duration_ms,
            output: remote_summary(result, budget),
            effect: None,
            artifact: None,
        },
    )
}

/// After the shell did what it was told. Whatever became of the question for the variables,
/// the command follows.
pub open spec fn executed(
    command: RemoteCommandView,
    executed: Executed,
    budget: int,
    connected: bool,
) -> RemoteStep {
    if command.stage == Stage::Baseline {
        sent_on(command, connected)
    } else {
        match executed {
            Executed::Done { result, capture } => finished(command, done_outcome(result, budget)),
            Executed::Failed(failure) => finished(command, failure_outcome(failure)),
        }
    }
}

/// What was printed between the marks.
pub open spec fn captured_bytes(executed: Executed) -> Option<Seq<u8>> {
    match executed {
        Executed::Done { result, capture } => match capture {
            Some(bytes) => Some(bytes@),
            None => None,
        },
        Executed::Failed(_) => None,
    }
}

/// A command before anything was done: it runs in the directory that it names or in that of
/// the session, with the variables of the session.
pub open spec fn fresh_command(
    request: RemoteRequest,
    shell: ShellStateView,
    nonce: Seq<char>,
    baseline_nonce: Seq<char>,
) -> RemoteCommandView {
    let directory = match request.cwd {
        Some(cwd) => cwd@,
        None => shell.cwd,
    };
    RemoteCommandView {
        stage: Stage::Over,
        directory,
        script: full_command(shell.set, shell.unset, directory, request.command@, nonce),
        baseline_script: capture_command(baseline_nonce),
        timeout_ms: request.timeout_ms,
    }
}

impl RemoteCommand {
    fn send_on(&mut self, connected: bool) -> (action: RemoteAction)
        ensures
            final(self)@ == sent_on(old(self)@, connected).command,
            action@ == sent_on(old(self)@, connected).action,
    {
        if connected {
            self.stage = Stage::Running;
            RemoteAction::Exec {
                script: self.script.clone(),
                timeout_ms: Some(self.timeout_ms),
            }
        } else {
            self.stage = Stage::Meeting;
            RemoteAction::Connect
        }
    }

    fn ask_first(&mut self) -> (action: RemoteAction)
        ensures
            final(self)@ == asked_first(old(self)@).command,
            action@ == asked_first(old(self)@).action,
    {
        self.stage = Stage::Baseline;
        RemoteAction::Exec { script: self.baseline_script.clone(), timeout_ms: None }
    }

    /// Begins a command: it may be refused; otherwise it runs in the directory that it names
    /// or in that of the session, with the variables of the session. The two marks must be
    /// new.
    pub fn start(
        request: &RemoteRequest,
        shell: &ShellState,
        connected: bool,
        max_ms: u64,
        nonce: &str,
        baseline_nonce: &str,
    ) -> (r: Result<(RemoteCommand, RemoteAction), StoredToolOutcome>)
        ensures
            match r {
                Err(outcome) => refusal_of(request.command@, request.timeout_ms, max_ms) == Some(
                    outcome@,
                ),
                Ok((command, action)) => {
                    let fresh = fresh_command(*request, shell@, nonce@, baseline_nonce@);
                    let step = begun(fresh, shell@.baseline is Some, connected);
                    &&& refusal_of(request.command@, request.timeout_ms, max_ms) is None
                    &&& command@ == step.command
                    &&& action@ == step.action
                },
            },
    {
        if let Some(outcome) = check_command(request.command.as_str(), request.timeout_ms, max_ms) {
            return Err(outcome);
        }
        let directory = match &request.cwd {
            Some(cwd) => cwd.clone(),
            None => shell.cwd.clone(),
        };
        let script = remote_script(
            &shell.set,
            &shell.unset,
            directory.as_str(),
            request.command.as_str(),
            nonce,
        );
        let mut command = RemoteCommand {
            stage: Stage::Over,
            directory,
            script,
            baseline_script: capture_script(baseline_nonce),
            timeout_ms: request.timeout_ms,
        };
        let action = if shell.baseline.is_some() {
            command.send_on(connected)
        } else if connected {
            command.ask_first()
        } else {
            command.stage = Stage::MeetingFirst;
            RemoteAction::Connect
        };
        Ok((command, action))
    }

    /// Takes in how an attempt to connect went. `connected` says whether there is a
    /// connection now.
    pub fn connection(&mut self, meeting: Meeting, connected: bool) -> (action: RemoteAction)
        requires
            old(self)@.stage == Stage::MeetingFirst || old(self)@.stage == Stage::Meeting,
        ensures
            final(self)@ == met(old(self)@, meeting, connected).command,
            action@ == met(old(self)@, meeting, connected).action,
    {
        let first = match self.stage {
            Stage::MeetingFirst => true,
            _ => false,
        };
        match meeting {
            Meeting::Accepted => if first {
                self.ask_first()
            } else {
                self.send_on(true)
            },
            Meeting::Undecided(decision) => if first {
                self.send_on(connected)
            } else {
                self.stage = Stage::Over;
                RemoteAction::Finish(remote_failure(&RemoteFailure::HostKey(decision)))
            },
            Meeting::Failed(error) => if first {
                self.send_on(connected)
            } else {
                self.stage = Stage::Over;
                RemoteAction::Finish(remote_failure(&RemoteFailure::Connect(error)))
            },
        }
    }

    /// Takes in how the shell did what it was told, and gives the directory and the
    /// variables that it printed, where it printed them. `connected` says whether there still
    /// is a connection.
    pub fn shell_answered(&mut self, answer: &Executed, budget: usize, connected: bool) -> (r: (
        RemoteAction,
        Option<(Option<String>, Environment)>,
    ))
        requires
            old(self)@.stage == Stage::Baseline || old(self)@.stage == Stage::Running,
            *answer matches Executed::Done { result, capture } ==> result.stdout@.len()
                + result.stderr@.len() <= usize::MAX,
        ensures
            final(self)@ == executed(old(self)@, *answer, budget as int, connected).command,
            r.0@ == executed(old(self)@, *answer, budget as int, connected).action,
            match (captured_bytes(*answer), r.1) {
                (Some(bytes), Some((cwd, variables))) => {
                    let all = lines_of(lossy_text(bytes));
                    &&& opt_view(cwd) == cwd_of(all)
                    &&& variables@ == env_of(all, all.len() as int)
                },
                (None, None) => true,
                _ => false,
            },
    {
        let captured = match answer {
            Executed::Done { result, capture } => match capture {
                Some(bytes) => Some(parse_capture(bytes.as_slice())),
                None => None,
            },
            Executed::Failed(_) => None,
        };
        if let Stage::Baseline = self.stage {
            return (self.send_on(connected), captured);
        }
        self.stage = Stage::Over;
        let outcome = match answer {
            Executed::Done { result, capture } => remote_done(result, budget),
            Executed::Failed(failure) => remote_failure(failure),
        };
        (RemoteAction::Finish(outcome), captured)
    }
}

/// Something that happens to a command.
pub enum RemoteHappening {
    Met { meeting: Meeting, connected: bool },
    Answered { answer: Executed, budget: int, connected: bool },
}

/// Whether a command waits for such a thing.
pub open spec fn awaits(command: RemoteCommandView, happening: RemoteHappening) -> bool {
    match happening {
        RemoteHappening::Met { meeting, connected } => command.stage == Stage::MeetingFirst || command.stage
            == Stage::Meeting,
        RemoteHappening::Answered { answer, budget, connected } => command.stage == Stage::Baseline
            || command.stage == Stage::Running,
    }
}

/// What a command does when something happens.
pub open spec fn step_of(command: RemoteCommandView, happening: RemoteHappening) -> RemoteStep {
    match happening {
        RemoteHappening::Met { meeting, connected } => met(command, meeting, connected),
        RemoteHappening::Answered { answer, budget, connected } => executed(
            command,
            answer,
            budget,
            connected,
        ),
    }
}

/// How far a command has come.
pub open spec fn rank(stage: Stage) -> nat {
    match stage {
        Stage::MeetingFirst => 4,
        Stage::Baseline => 3,
        Stage::Meeting => 2,
        Stage::Running => 1,
        Stage::Over => 0,
    }
}

/// Whatever happens, a command comes nearer to its end: it is sent at most once, with the
/// same script and the same time, and after four steps it is over.
pub proof fn a_command_is_sent_once(command: RemoteCommandView, happening: RemoteHappening)
    requires
        awaits(command, happening),
    ensures
        ({
            let step = step_of(command, happening);
            &&& rank(step.command.stage) < rank(command.stage)
            &&& step.command.script == command.script
            &&& step.command.timeout_ms == command.timeout_ms
            &&& step.command.stage == Stage::Running <==> step.action == (RemoteActionView::Exec {
                script: command.script,
                timeout_ms: Some(command.timeout_ms),
            })
            &&& step.command.stage == Stage::Over <==> step.action is Finish
        }),
{
}

} // verus!
