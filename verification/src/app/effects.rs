//! What the platform does for the application.
use crate::app::intent::AppEffect;
use crate::text::has_prefix;
use crate::text::lower;
use crate::text::lower_of;
use crate::text::owned;
use crate::text::starts_with;
use crate::text::trim;
use crate::text::trim_of;
use vstd::prelude::*;
use vstd::string::*;

verus! {

/// A platform. Whatever it is asked to do may fail, and it says so.
pub trait PlatformEffects {
    /// Copies a text.
    fn copy_to_clipboard(&self, text: &str) -> Result<(), String>;

    /// Opens an address, which is one of the web.
    fn open_url(&self, url: &str) -> Result<(), String>
        requires
            is_web_address(url@),
    ;

    /// Sets the title of the terminal.
    fn set_terminal_title(&self, title: &str) -> Result<(), String>;

    /// Tells the user something.
    fn notify(&self, message: &str);
}

/// Whether an address may be opened: only one of the web.
pub open spec fn is_web_address(url: Seq<char>) -> bool {
    let text = trim_of(url).map_values(|c: char| lower_of(c));
    has_prefix(text, "http://"@) || has_prefix(text, "https://"@)
}

/// Whether an address may be opened.
pub fn may_open(url: &str) -> (r: bool)
    ensures
        r == is_web_address(url@),
{
    let trimmed = trim(url);
    let text = lower(trimmed.as_str());
    starts_with(text.as_str(), "http://") || starts_with(text.as_str(), "https://")
}

/// What is said of an address that is not opened.
pub open spec fn refusal_of(url: Seq<char>) -> Seq<char> {
    "仅支持 http/https 链接，已拒绝打开："@ + url
}

/// What is said of an address that is not opened.
pub fn refuse(url: &str) -> (r: String)
    ensures
        r@ == refusal_of(url@),
{
    owned("仅支持 http/https 链接，已拒绝打开：").concat(url)
}

/// What a platform is asked to do for an effect.
#[derive(Debug, Clone, PartialEq, Eq)]
pub enum PlatformCall {
    Nothing,
    CopyToClipboard(String),
    OpenUrl(String),
    SetTerminalTitle(String),
    Notify(String),
}

/// What a [`PlatformCall`] says.
pub enum PlatformCallView {
    Nothing,
    CopyToClipboard(Seq<char>),
    OpenUrl(Seq<char>),
    SetTerminalTitle(Seq<char>),
    Notify(Seq<char>),
}

impl View for PlatformCall {
    type V = PlatformCallView;

    open spec fn view(&self) -> PlatformCallView {
        match *self {
            PlatformCall::Nothing => PlatformCallView::Nothing,
            PlatformCall::CopyToClipboard(text) => PlatformCallView::CopyToClipboard(text@),
            PlatformCall::OpenUrl(url) => PlatformCallView::OpenUrl(url@),
            PlatformCall::SetTerminalTitle(title) => PlatformCallView::SetTerminalTitle(title@),
            PlatformCall::Notify(message) => PlatformCallView::Notify(message@),
        }
    }
}

/// What the platform is asked to do for an effect, or why it is asked nothing: an address
/// that is not of the web is refused, and there is no file picker. Drawing is the surface's
/// own affair.
pub open spec fn call_for(effect: AppEffect) -> Result<PlatformCallView, Seq<char>> {
    match effect {
        AppEffect::Draw => Ok(PlatformCallView::Nothing),
        AppEffect::CopyToClipboard(text) => Ok(PlatformCallView::CopyToClipboard(text@)),
        AppEffect::OpenUrl(url) => if is_web_address(url@) {
            Ok(PlatformCallView::OpenUrl(url@))
        } else {
            Err(refusal_of(url@))
        },
        AppEffect::SetTerminalTitle(title) => Ok(PlatformCallView::SetTerminalTitle(title@)),
        AppEffect::OpenFilePicker { filter } => Err(
            "文件选择器未在本地实现（P3-04 仅留接口）"@,
        ),
        AppEffect::Notify(message) => Ok(PlatformCallView::Notify(message@)),
    }
}

/// What the platform is asked to do for an effect, or why it is asked nothing.
pub fn platform_call(effect: &AppEffect) -> (r: Result<PlatformCall, String>)
    ensures
        match r {
            Ok(call) => call_for(*effect) == Ok::<PlatformCallView, Seq<char>>(call@),
            Err(error) => call_for(*effect) == Err::<PlatformCallView, Seq<char>>(error@),
        },
{
    match effect {
        AppEffect::Draw => Ok(PlatformCall::Nothing),
        AppEffect::CopyToClipboard(text) => Ok(PlatformCall::CopyToClipboard(text.clone())),
        AppEffect::OpenUrl(url) => if may_open(url.as_str()) {
            Ok(PlatformCall::OpenUrl(url.clone()))
        } else {
            Err(refuse(url.as_str()))
        },
        AppEffect::SetTerminalTitle(title) => Ok(PlatformCall::SetTerminalTitle(title.clone())),
        AppEffect::OpenFilePicker { filter } => Err(
            owned("文件选择器未在本地实现（P3-04 仅留接口）"),
        ),
        AppEffect::Notify(message) => Ok(PlatformCall::Notify(message.clone())),
    }
}

/// Whether a platform may answer `r` to a call.
pub open spec fn is_answer<P: PlatformEffects>(
    platform: &P,
    call: PlatformCallView,
    r: Result<(), String>,
) -> bool {
    match call {
        PlatformCallView::Nothing => r is Ok,
        PlatformCallView::CopyToClipboard(text) => exists|s: &str|
            s@ == text && call_ensures(P::copy_to_clipboard, (platform, s), r),
        PlatformCallView::OpenUrl(url) => exists|s: &str|
            s@ == url && call_ensures(P::open_url, (platform, s), r),
        PlatformCallView::SetTerminalTitle(title) => exists|s: &str|
            s@ == title && call_ensures(P::set_terminal_title, (platform, s), r),
        PlatformCallView::Notify(message) => r is Ok && exists|s: &str|
            s@ == message && call_ensures(P::notify, (platform, s), ()),
    }
}

/// Does what an effect says: the platform is asked what [`platform_call`] says, and what it
/// answers is handed on as it is. Where that says why it is asked nothing, this says so too.
/// An address that is not of the web never reaches the platform.
pub fn apply_effect<P: PlatformEffects>(platform: &P, effect: &AppEffect) -> (r: Result<(), String>)
    ensures
        match call_for(*effect) {
            Ok(call) => is_answer(platform, call, r),
            Err(refusal) => r matches Err(error) && error@ == refusal,
        },
{
    match platform_call(effect) {
        Err(refusal) => Err(refusal),
        Ok(PlatformCall::Nothing) => Ok(()),
        Ok(PlatformCall::CopyToClipboard(text)) => platform.copy_to_clipboard(text.as_str()),
        Ok(PlatformCall::OpenUrl(url)) => platform.open_url(url.as_str()),
        Ok(PlatformCall::SetTerminalTitle(title)) => platform.set_terminal_title(title.as_str()),
        Ok(PlatformCall::Notify(message)) => {
            platform.notify(message.as_str());
            Ok(())
        },
    }
}

/// Whatever an effect says, the platform is asked to open nothing but an address of the web.
pub proof fn only_web_addresses_are_opened(effect: AppEffect, url: Seq<char>)
    requires
        call_for(effect) == Ok::<PlatformCallView, Seq<char>>(PlatformCallView::OpenUrl(url)),
    ensures
        is_web_address(url),
{
}

} // verus!
