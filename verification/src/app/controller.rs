//! What a command comes to.
use crate::app::intent::AppCommand;
use crate::app::intent::AppCommandView;
use crate::app::intent::AppEffect;
use crate::app::intent::AppEffectView;
use crate::app::intent::UiIntent;
use crate::text::owned;
use crate::text::views;
use vstd::prelude::*;
use vstd::string::*;

verus! {

/// What is done to the run and the session besides the effects.
#[derive(Debug, Clone, Copy, PartialEq, Eq, Structural)]
pub enum ServiceAction {
    /// Nothing.
    Keep,
    /// The run is cancelled, where there is one.
    CancelRun,
    /// The session is left; the next input starts a new one.
    ResetConversation,
}

/// What a command does to the run and the session.
pub open spec fn service_of(command: AppCommandView) -> ServiceAction {
    match command {
        AppCommandView::CancelRun => ServiceAction::CancelRun,
        AppCommandView::StartNewSession => ServiceAction::ResetConversation,
        _ => ServiceAction::Keep,
    }
}

/// What a command shows: some say something, all others draw the screen anew.
pub open spec fn effect_of(command: AppCommandView) -> AppEffectView {
    match command {
        AppCommandView::CancelRun => AppEffectView::Notify("已取消当前 run"@),
        AppCommandView::OpenModal { name } => AppEffectView::Notify("打开 "@ + name),
        AppCommandView::CompactNow => AppEffectView::Notify(
            "手动压缩/重试由 run 路径处理"@,
        ),
        AppCommandView::RetryLast => AppEffectView::Notify("手动压缩/重试由 run 路径处理"@),
        _ => AppEffectView::Draw,
    }
}

/// Decides what a command comes to.
#[derive(Debug, Clone, Copy)]
pub struct AppController;

impl AppController {
    /// A controller.
    pub fn new() -> (r: Self)
        ensures
            r == AppController,
    {
        AppController
    }

    /// What a command comes to: one effect, and what is done to the run and the session.
    pub fn handle(&self, intent: UiIntent) -> (r: (ServiceAction, Vec<AppEffect>))
        ensures
            r.0 == service_of(intent.command@),
            views(r.1@) == seq![effect_of(intent.command@)],
    {
        let mut effects: Vec<AppEffect> = Vec::new();
        let ghost command = intent.command@;
        let mut service = ServiceAction::Keep;
        let effect = match intent.command {
            AppCommand::CancelRun => {
                service = ServiceAction::CancelRun;
                AppEffect::Notify(owned("已取消当前 run"))
            },
            AppCommand::StartNewSession => {
                service = ServiceAction::ResetConversation;
                AppEffect::Draw
            },
            AppCommand::OpenModal { name } => AppEffect::Notify(
                owned("打开 ").concat(name.as_str()),
            ),
            AppCommand::CompactNow => AppEffect::Notify(
                owned("手动压缩/重试由 run 路径处理"),
            ),
            AppCommand::RetryLast => AppEffect::Notify(
                owned("手动压缩/重试由 run 路径处理"),
            ),
            _ => AppEffect::Draw,
        };
        effects.push(effect);
        assert(views(effects@) =~= seq![effect_of(command)]);
        (service, effects)
    }
}

/// A command means the same wherever it comes from: what it comes to speaks of the command
/// alone.
pub proof fn the_source_does_not_matter(a: UiIntent, b: UiIntent)
    requires
        a.command@ == b.command@,
    ensures
        service_of(a.command@) == service_of(b.command@),
        effect_of(a.command@) == effect_of(b.command@),
{
}

} // verus!
