//! What the surface asks for, and what the user is told of it.
use crate::app::effects::is_web_address;
use crate::app::effects::may_open;
use crate::text::decimal;
use crate::text::decimal_of;
use crate::text::lines;
use crate::text::lines_of;
use crate::text::opt_view;
use crate::text::owned;
use crate::text::views;
use vstd::prelude::*;
use vstd::string::*;

verus! {

/// What the surface asks for.
#[derive(Debug, Clone, PartialEq, Eq)]
pub enum UiEffect {
    CancelRun,
    Quit,
    ResumeSession(String),
    OpenUrl(String),
    CopyText(String),
    CopySelection,
}

/// What is done for it.
#[derive(Debug, Clone, PartialEq, Eq)]
pub enum UiAction {
    Nothing,
    CancelRun,
    Quit,
    Open(String),
    /// Copy an address.
    CopyText(String),
    /// Copy what is selected.
    CopySelection(String),
}

/// What a [`UiAction`] says.
pub enum UiActionView {
    Nothing,
    CancelRun,
    Quit,
    Open(Seq<char>),
    CopyText(Seq<char>),
    CopySelection(Seq<char>),
}

impl View for UiAction {
    type V = UiActionView;

    open spec fn view(&self) -> UiActionView {
        match *self {
            UiAction::Nothing => UiActionView::Nothing,
            UiAction::CancelRun => UiActionView::CancelRun,
            UiAction::Quit => UiActionView::Quit,
            UiAction::Open(url) => UiActionView::Open(url@),
            UiAction::CopyText(text) => UiActionView::CopyText(text@),
            UiAction::CopySelection(text) => UiActionView::CopySelection(text@),
        }
    }
}

/// What is done for what the surface asks, and what the user is told at once. `selected` is
/// the text that is selected, `shortened` an address as it is shown. Only an address of the
/// web is opened, and nothing is copied where nothing is selected.
pub open spec fn effect_of(
    effect: UiEffect,
    selected: Seq<char>,
    shortened: Seq<char>,
) -> (UiActionView, Option<Seq<char>>) {
    match effect {
        UiEffect::CancelRun => (
            UiActionView::CancelRun,
            Some("已发送取消（Esc）；保留 session"@),
        ),
        UiEffect::Quit => (UiActionView::Quit, None),
        UiEffect::ResumeSession(_) => (UiActionView::Nothing, None),
        UiEffect::OpenUrl(url) => if is_web_address(url@) {
            (UiActionView::Open(url@), Some("已在默认浏览器打开"@))
        } else {
            (
                UiActionView::Nothing,
                Some("仅支持 http/https 链接，已拒绝打开："@ + shortened),
            )
        },
        UiEffect::CopyText(text) => (UiActionView::CopyText(text@), None),
        UiEffect::CopySelection => if selected.len() == 0 {
            (UiActionView::Nothing, None)
        } else {
            (UiActionView::CopySelection(selected), None)
        },
    }
}

/// What is done for what the surface asks, and what the user is told at once.
pub fn execute_ui_effect(effect: &UiEffect, selected: &str, shortened: &str) -> (r: (
    UiAction,
    Option<String>,
))
    ensures
        (r.0@, opt_view(r.1)) == effect_of(*effect, selected@, shortened@),
{
    match effect {
        UiEffect::CancelRun => (
            UiAction::CancelRun,
            Some(owned("已发送取消（Esc）；保留 session")),
        ),
        UiEffect::Quit => (UiAction::Quit, None),
        UiEffect::ResumeSession(_) => (UiAction::Nothing, None),
        UiEffect::OpenUrl(url) => if may_open(url.as_str()) {
            (UiAction::Open(url.clone()), Some(owned("已在默认浏览器打开")))
        } else {
            (
                UiAction::Nothing,
                Some(owned("仅支持 http/https 链接，已拒绝打开：").concat(shortened)),
            )
        },
        UiEffect::CopyText(text) => (UiAction::CopyText(text.clone()), None),
        UiEffect::CopySelection => if selected.is_empty() {
            (UiAction::Nothing, None)
        } else {
            (UiAction::CopySelection(owned(selected)), None)
        },
    }
}

/// What is done for what the surface asks during a run: only the run is cancelled, and what
/// is selected is copied.
pub fn execute_run_effect(effect: &UiEffect, selected: &str) -> (r: (UiAction, Option<String>))
    ensures
        (r.0@, opt_view(r.1)) == match *effect {
            UiEffect::CancelRun => effect_of(*effect, selected@, Seq::empty()),
            UiEffect::CopySelection => effect_of(*effect, selected@, Seq::empty()),
            _ => (UiActionView::Nothing, None),
        },
{
    match effect {
        UiEffect::CancelRun => execute_ui_effect(effect, selected, ""),
        UiEffect::CopySelection => execute_ui_effect(effect, selected, ""),
        _ => (UiAction::Nothing, None),
    }
}

/// What the user is told after something was copied, or was not, and whether the selection
/// is given up. It is kept where copying failed, so that it can be tried again.
pub open spec fn copy_notice(action: UiActionView, copied: bool) -> (Option<Seq<char>>, bool) {
    match action {
        UiActionView::CopyText(text) => (
            Some(
                if copied {
                    "URL 已复制到剪贴板"@
                } else {
                    "复制失败：剪贴板不可用（可能被占用或平台不支持）"@
                },
            ),
            false,
        ),
        UiActionView::CopySelection(text) => if copied {
            (
                Some("已复制 "@ + decimal_of(lines_of(text).len()) + " 行到剪贴板"@),
                true,
            )
        } else {
            (Some("复制失败：剪贴板不可用，可再按一次 Ctrl+C 重试"@), false)
        },
        _ => (None, false),
    }
}

/// What the user is told after something was copied, or was not, and whether the selection
/// is given up.
pub fn copy_done(action: &UiAction, copied: bool) -> (r: (Option<String>, bool))
    ensures
        (opt_view(r.0), r.1) == copy_notice(action@, copied),
{
    match action {
        UiAction::CopyText(text) => if copied {
            (Some(owned("URL 已复制到剪贴板")), false)
        } else {
            (Some(owned("复制失败：剪贴板不可用（可能被占用或平台不支持）")), false)
        },
        UiAction::CopySelection(text) => if copied {
            let all = lines(text.as_str());
            assert(views(all@).len() == all@.len());
            let count = decimal(all.len() as u128);
            (
                Some(owned("已复制 ").concat(count.as_str()).concat(" 行到剪贴板")),
                true,
            )
        } else {
            (Some(owned("复制失败：剪贴板不可用，可再按一次 Ctrl+C 重试")), false)
        },
        _ => (None, false),
    }
}

} // verus!
