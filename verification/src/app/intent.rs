//! What the user means, and what is to be done, without anything of a particular surface.
use crate::ids::RequestId;
use crate::ids::SessionId;
use crate::text::opt_view;
use vstd::prelude::*;

verus! {

/// A command to the application, from whatever surface.
#[derive(Debug, Clone, PartialEq, Eq)]
pub enum AppCommand {
    /// Submit an input.
    SubmitInput(String),
    /// Leave the program.
    Quit,
    /// Cancel the run.
    CancelRun,
    /// Start a new session.
    StartNewSession,
    /// Compact the context.
    CompactNow,
    /// Make the last failed turn again.
    RetryLast,
    /// Show or hide the sidebar.
    ToggleSidebar,
    /// Show or hide the reasoning.
    ToggleReasoning,
    /// Open a window by name.
    OpenModal { name: String },
    /// Open the card of the last tool.
    OpenLastTool,
    /// Open the card of the last tool that failed.
    OpenFailedTool,
    /// Search the conversation.
    OpenSearch,
    /// Go on with a session.
    OpenSession(SessionId),
    /// Answer what the model asked.
    RequestInputAnswer(RequestId, String),
    /// Paste a text.
    Paste(String),
}

/// What an [`AppCommand`] says.
pub enum AppCommandView {
    SubmitInput(Seq<char>),
    Quit,
    CancelRun,
    StartNewSession,
    CompactNow,
    RetryLast,
    ToggleSidebar,
    ToggleReasoning,
    OpenModal { name: Seq<char> },
    OpenLastTool,
    OpenFailedTool,
    OpenSearch,
    OpenSession(SessionId),
    RequestInputAnswer(RequestId, Seq<char>),
    Paste(Seq<char>),
}

impl View for AppCommand {
    type V = AppCommandView;

    open spec fn view(&self) -> AppCommandView {
        match *self {
            AppCommand::SubmitInput(text) => AppCommandView::SubmitInput(text@),
            AppCommand::Quit => AppCommandView::Quit,
            AppCommand::CancelRun => AppCommandView::CancelRun,
            AppCommand::StartNewSession => AppCommandView::StartNewSession,
            AppCommand::CompactNow => AppCommandView::CompactNow,
            AppCommand::RetryLast => AppCommandView::RetryLast,
            AppCommand::ToggleSidebar => AppCommandView::ToggleSidebar,
            AppCommand::ToggleReasoning => AppCommandView::ToggleReasoning,
            AppCommand::OpenModal { name } => AppCommandView::OpenModal { name: name@ },
            AppCommand::OpenLastTool => AppCommandView::OpenLastTool,
            AppCommand::OpenFailedTool => AppCommandView::OpenFailedTool,
            AppCommand::OpenSearch => AppCommandView::OpenSearch,
            AppCommand::OpenSession(id) => AppCommandView::OpenSession(id),
            AppCommand::RequestInputAnswer(id, text) => AppCommandView::RequestInputAnswer(
                id,
                text@,
            ),
            AppCommand::Paste(text) => AppCommandView::Paste(text@),
        }
    }
}

/// A command and where it came from.
#[derive(Debug, Clone, PartialEq, Eq)]
pub struct UiIntent {
    pub command: AppCommand,
    /// Where it came from; it means the same from everywhere.
    pub source: IntentSource,
}

/// Where a command came from.
#[derive(Debug, Clone, Copy, PartialEq, Eq, Structural)]
pub enum IntentSource {
    Keyboard,
    Mouse,
    SlashCommand,
    Headless,
    Paste,
}

impl UiIntent {
    /// A command from a source.
    pub fn new(command: AppCommand, source: IntentSource) -> (r: Self)
        ensures
            r.command == command,
            r.source == source,
    {
        UiIntent { command, source }
    }
}

/// Something that the platform is to do.
#[derive(Debug, Clone, PartialEq, Eq)]
pub enum AppEffect {
    /// Draw the screen.
    Draw,
    /// Copy a text.
    CopyToClipboard(String),
    /// Open an address.
    OpenUrl(String),
    /// Set the title of the terminal.
    SetTerminalTitle(String),
    /// Let the user pick a file.
    OpenFilePicker { filter: Option<String> },
    /// Tell the user something.
    Notify(String),
}

/// What an [`AppEffect`] says.
pub enum AppEffectView {
    Draw,
    CopyToClipboard(Seq<char>),
    OpenUrl(Seq<char>),
    SetTerminalTitle(Seq<char>),
    OpenFilePicker { filter: Option<Seq<char>> },
    Notify(Seq<char>),
}

impl View for AppEffect {
    type V = AppEffectView;

    open spec fn view(&self) -> AppEffectView {
        match *self {
            AppEffect::Draw => AppEffectView::Draw,
            AppEffect::CopyToClipboard(text) => AppEffectView::CopyToClipboard(text@),
            AppEffect::OpenUrl(url) => AppEffectView::OpenUrl(url@),
            AppEffect::SetTerminalTitle(title) => AppEffectView::SetTerminalTitle(title@),
            AppEffect::OpenFilePicker { filter } => AppEffectView::OpenFilePicker {
                filter: opt_view(filter),
            },
            AppEffect::Notify(message) => AppEffectView::Notify(message@),
        }
    }
}

} // verus!
