//! What the mouse points at.
use crate::text::opt_view;
use vstd::prelude::*;

verus! {

/// A part of the screen.
#[derive(Debug, Clone, Copy, PartialEq, Eq, Structural)]
pub struct Rect {
    pub x: u16,
    pub y: u16,
    pub width: u16,
    pub height: u16,
}

/// Whether a place lies in a part of the screen.
pub open spec fn lies_in(rect: Rect, column: u16, row: u16) -> bool {
    rect.x <= column < rect.x + rect.width && rect.y <= row < rect.y + rect.height
}

/// Whether a place lies in a part of the screen.
pub fn inside(rect: &Rect, column: u16, row: u16) -> (r: bool)
    ensures
        r == lies_in(*rect, column, row),
{
    let right: u32 = rect.x as u32 + rect.width as u32;
    let bottom: u32 = rect.y as u32 + rect.height as u32;
    column >= rect.x && (column as u32) < right && row >= rect.y && (row as u32) < bottom
}

/// What a card can be clicked for.
#[derive(Debug, Clone, Copy, PartialEq, Eq, Structural)]
pub enum HitTarget {
    Tool(u128),
    Reasoning(u128),
}

/// What a click does.
#[derive(Debug, Clone, PartialEq, Eq)]
pub enum PointerAction {
    Tool(u128),
    Reasoning(u128),
    Link(String),
}

/// What a [`PointerAction`] says.
pub enum PointerActionView {
    Tool(u128),
    Reasoning(u128),
    Link(Seq<char>),
}

impl View for PointerAction {
    type V = PointerActionView;

    open spec fn view(&self) -> PointerActionView {
        match *self {
            PointerAction::Tool(id) => PointerActionView::Tool(id),
            PointerAction::Reasoning(id) => PointerActionView::Reasoning(id),
            PointerAction::Link(url) => PointerActionView::Link(url@),
        }
    }
}

/// What the mouse points at.
#[derive(Debug, Clone, PartialEq, Eq)]
pub enum PointerHit {
    /// Nothing.
    Nowhere,
    /// An entry of the sidebar.
    SidebarEntry(usize),
    /// The sidebar.
    Sidebar,
    /// The scrollbar.
    Scrollbar,
    /// The conversation: a place in its text, and what a click does.
    Transcript { text: Option<(usize, usize)>, action: Option<PointerAction> },
}

/// What a [`PointerHit`] says.
pub enum PointerHitView {
    Nowhere,
    SidebarEntry(usize),
    Sidebar,
    Scrollbar,
    Transcript { text: Option<(usize, usize)>, action: Option<PointerActionView> },
}

impl View for PointerHit {
    type V = PointerHitView;

    open spec fn view(&self) -> PointerHitView {
        match *self {
            PointerHit::Nowhere => PointerHitView::Nowhere,
            PointerHit::SidebarEntry(entry) => PointerHitView::SidebarEntry(entry),
            PointerHit::Sidebar => PointerHitView::Sidebar,
            PointerHit::Scrollbar => PointerHitView::Scrollbar,
            PointerHit::Transcript { text, action } => PointerHitView::Transcript {
                text,
                action: opt_view(action),
            },
        }
    }
}

/// What is on the screen at a place.
#[derive(Debug)]
pub struct Screen {
    pub sidebar: Option<Rect>,
    /// The entry of the sidebar at the place.
    pub sidebar_entry: Option<usize>,
    pub scrollbar: Option<Rect>,
    /// The text of the conversation at the place.
    pub text: Option<(usize, usize)>,
    /// The card at the place.
    pub target: Option<HitTarget>,
    /// The link at the place.
    pub link: Option<String>,
}

/// Whether a place lies in a part of the screen that is there.
pub open spec fn lies_in_some(rect: Option<Rect>, column: u16, row: u16) -> bool {
    rect matches Some(rect) && lies_in(rect, column, row)
}

fn inside_some(rect: &Option<Rect>, column: u16, row: u16) -> (r: bool)
    ensures
        r == lies_in_some(*rect, column, row),
{
    match rect {
        Some(rect) => inside(rect, column, row),
        None => false,
    }
}

/// What a click on a card does.
pub open spec fn card_action(target: Option<HitTarget>) -> Option<PointerActionView> {
    match target {
        Some(HitTarget::Tool(id)) => Some(PointerActionView::Tool(id)),
        Some(HitTarget::Reasoning(id)) => Some(PointerActionView::Reasoning(id)),
        None => None,
    }
}

fn action_of_card(target: Option<HitTarget>) -> (r: Option<PointerAction>)
    ensures
        opt_view(r) == card_action(target),
{
    match target {
        Some(HitTarget::Tool(id)) => Some(PointerAction::Tool(id)),
        Some(HitTarget::Reasoning(id)) => Some(PointerAction::Reasoning(id)),
        None => None,
    }
}

/// What a place on the screen is: the sidebar comes first, then the scrollbar, then the
/// conversation. A place in the conversation may be both text and something to click; a
/// card counts before a link.
pub open spec fn hit_of(screen: Screen, column: u16, row: u16) -> PointerHitView {
    if lies_in_some(screen.sidebar, column, row) {
        match screen.sidebar_entry {
            Some(entry) => PointerHitView::SidebarEntry(entry),
            None => PointerHitView::Sidebar,
        }
    } else if lies_in_some(screen.scrollbar, column, row) {
        PointerHitView::Scrollbar
    } else if screen.text is Some {
        PointerHitView::Transcript {
            text: screen.text,
            action: if screen.target is Some {
                card_action(screen.target)
            } else {
                match screen.link {
                    Some(url) => Some(PointerActionView::Link(url@)),
                    None => None,
                }
            },
        }
    } else if screen.target is Some {
        PointerHitView::Transcript { text: None, action: card_action(screen.target) }
    } else {
        PointerHitView::Nowhere
    }
}

/// What a place on the screen is.
pub fn pointer_target(screen: &Screen, column: u16, row: u16) -> (r: PointerHit)
    ensures
        r@ == hit_of(*screen, column, row),
{
    if inside_some(&screen.sidebar, column, row) {
        return match screen.sidebar_entry {
            Some(entry) => PointerHit::SidebarEntry(entry),
            None => PointerHit::Sidebar,
        };
    }
    if inside_some(&screen.scrollbar, column, row) {
        return PointerHit::Scrollbar;
    }
    if screen.text.is_some() {
        let action = if screen.target.is_some() {
            action_of_card(screen.target)
        } else {
            match &screen.link {
                Some(url) => Some(PointerAction::Link(url.clone())),
                None => None,
            }
        };
        return PointerHit::Transcript { text: screen.text, action };
    }
    if screen.target.is_some() {
        return PointerHit::Transcript { text: None, action: action_of_card(screen.target) };
    }
    PointerHit::Nowhere
}

/// What the mouse did.
#[derive(Debug, Clone, Copy, PartialEq, Eq, Structural)]
pub enum MouseKind {
    LeftDown,
    LeftDrag,
    LeftUp,
    Moved,
    ScrollUp,
    ScrollDown,
    Other,
}

/// What the mouse did, as it concerns the screen.
#[derive(Debug, Clone, PartialEq, Eq)]
pub enum MouseStep {
    /// Nothing.
    Nothing,
    /// The sidebar scrolls: up, or down.
    SidebarScroll(bool),
    /// The sidebar goes to a row of its scrollbar.
    SidebarJump(u16),
    /// The button was pressed, dragged or let go, or the mouse moved, over something.
    Pointer { kind: MouseKind, column: u16, row: u16, hit: PointerHit },
    /// The conversation scrolls: up, or down.
    Scroll(bool),
}

/// What a [`MouseStep`] says.
pub enum MouseStepView {
    Nothing,
    SidebarScroll(bool),
    SidebarJump(u16),
    Pointer { kind: MouseKind, column: u16, row: u16, hit: PointerHitView },
    Scroll(bool),
}

impl View for MouseStep {
    type V = MouseStepView;

    open spec fn view(&self) -> MouseStepView {
        match *self {
            MouseStep::Nothing => MouseStepView::Nothing,
            MouseStep::SidebarScroll(up) => MouseStepView::SidebarScroll(up),
            MouseStep::SidebarJump(row) => MouseStepView::SidebarJump(row),
            MouseStep::Pointer { kind, column, row, hit } => MouseStepView::Pointer {
                kind,
                column,
                row,
                hit: hit@,
            },
            MouseStep::Scroll(up) => MouseStepView::Scroll(up),
        }
    }
}

/// Whether a place is on the scrollbar of the sidebar: its last column.
pub open spec fn on_sidebar_bar(rect: Rect, column: u16) -> bool {
    column == rect.x + rect.width - 1
}

/// What the mouse did: over the sidebar it scrolls the sidebar; elsewhere it goes by what it
/// points at. While a window is open it points at nothing.
pub open spec fn mouse_step(
    screen: Screen,
    kind: MouseKind,
    column: u16,
    row: u16,
    window_open: bool,
) -> MouseStepView {
    let over_sidebar = !window_open && lies_in_some(screen.sidebar, column, row);
    if over_sidebar && kind == MouseKind::ScrollUp {
        MouseStepView::SidebarScroll(true)
    } else if over_sidebar && kind == MouseKind::ScrollDown {
        MouseStepView::SidebarScroll(false)
    } else if over_sidebar && (kind == MouseKind::LeftDown || kind == MouseKind::LeftDrag)
        && on_sidebar_bar(screen.sidebar->0, column) {
        MouseStepView::SidebarJump((row - (screen.sidebar->0).y) as u16)
    } else {
        match kind {
            MouseKind::Other => MouseStepView::Nothing,
            MouseKind::ScrollUp => MouseStepView::Scroll(true),
            MouseKind::ScrollDown => MouseStepView::Scroll(false),
            _ => MouseStepView::Pointer {
                kind,
                column,
                row,
                hit: if window_open {
                    PointerHitView::Nowhere
                } else {
                    hit_of(screen, column, row)
                },
            },
        }
    }
}

/// What the mouse did.
pub fn handle_mouse(screen: &Screen, kind: MouseKind, column: u16, row: u16, window_open: bool) -> (r:
    MouseStep)
    ensures
        r@ == mouse_step(*screen, kind, column, row, window_open),
{
    if !window_open {
        if let Some(rect) = &screen.sidebar {
            if inside(rect, column, row) {
                match kind {
                    MouseKind::ScrollUp => {
                        return MouseStep::SidebarScroll(true);
                    },
                    MouseKind::ScrollDown => {
                        return MouseStep::SidebarScroll(false);
                    },
                    MouseKind::LeftDown | MouseKind::LeftDrag => {
                        let last: u32 = rect.x as u32 + rect.width as u32 - 1;
                        if column as u32 == last {
                            return MouseStep::SidebarJump(row - rect.y);
                        }
                    },
                    _ => {},
                }
            }
        }
    }
    match kind {
        MouseKind::Other => MouseStep::Nothing,
        MouseKind::ScrollUp => MouseStep::Scroll(true),
        MouseKind::ScrollDown => MouseStep::Scroll(false),
        _ => {
            let hit = if window_open {
                PointerHit::Nowhere
            } else {
                pointer_target(screen, column, row)
            };
            MouseStep::Pointer { kind, column, row, hit }
        },
    }
}

} // verus!
