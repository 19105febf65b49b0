//! What the last run changed.
use crate::bytes::cut;
use crate::bytes::cut_fits;
use crate::bytes::cut_of;
use crate::bytes::lemma_encode_concat;
use crate::bytes::size;
use crate::bytes::size_of;
use crate::outcome::ToolStatus;
use crate::session::SessionEvent;
use crate::session::SessionEventView;
use crate::text::opt_view;
use crate::text::owned;
use crate::text::same;
use crate::text::views;
use crate::text::views_push;
use vstd::prelude::*;
use vstd::string::*;

verus! {

/// How many bytes of changes are shown.
pub const MAX_DIFF_BYTES: usize = 49152;

/// What is said where changes are left out.
pub const DIFF_CUT: &'static str = "\n…（diff 超过 48KiB 预算，已截断）";

/// The position behind the last event that began a run, or 0.
pub open spec fn last_run(events: Seq<SessionEventView>) -> int
    decreases events.len(),
{
    if events.len() == 0 {
        0
    } else if events.last() is RunStarted {
        events.len() as int
    } else {
        last_run(events.drop_last())
    }
}

/// The change of a file that an event tells of, where it tells of one that succeeded.
pub open spec fn change_of(event: SessionEventView) -> Option<Seq<char>> {
    match event {
        SessionEventView::ToolCompleted { call_id, outcome } => if (outcome.session_metadata.tool
            == "edit"@ || outcome.session_metadata.tool == "write"@) && outcome.status
            == ToolStatus::Succeeded {
            outcome.session_metadata.diff
        } else {
            None
        },
        _ => None,
    }
}

/// The changes that some events tell of.
pub open spec fn changes_of(events: Seq<SessionEventView>) -> Seq<Seq<char>>
    decreases events.len(),
{
    if events.len() == 0 {
        Seq::empty()
    } else {
        let before = changes_of(events.drop_last());
        match change_of(events.last()) {
            Some(diff) => before.push(diff),
            None => before,
        }
    }
}

/// What is left of the budget after some text.
pub open spec fn room(shown: Seq<char>) -> int {
    if size_of(shown) >= MAX_DIFF_BYTES {
        0
    } else {
        MAX_DIFF_BYTES - size_of(shown)
    }
}

/// A change that does not fit: as much of it as fits with the mark, and the mark, where
/// there is room for it.
pub open spec fn cut_change(diff: Seq<char>, space: int) -> Seq<char> {
    let mark = size_of(DIFF_CUT@);
    let budget = if space >= mark {
        space - mark
    } else {
        0
    };
    cut_of(diff, budget) + if space >= mark {
        DIFF_CUT@
    } else {
        Seq::empty()
    }
}

/// The changes from change `i` on, after what is shown already: with a line between them,
/// as far as there is room; the first that does not fit is cut, and none follows it.
pub open spec fn shown_from(changes: Seq<Seq<char>>, i: int, shown: Seq<char>) -> Seq<char>
    decreases changes.len() - i,
{
    if i < 0 || i >= changes.len() {
        shown
    } else {
        let begun = if i > 0 {
            shown + "\n---\n\n"@
        } else {
            shown
        };
        if size_of(changes[i]) > room(begun) {
            begun + cut_change(changes[i], room(begun))
        } else {
            shown_from(changes, i + 1, begun + changes[i])
        }
    }
}

/// What the last run of some events changed.
pub open spec fn diff_text(events: Seq<SessionEventView>) -> Seq<char> {
    let changes = changes_of(events.skip(last_run(events)));
    if changes.len() == 0 {
        "本轮还没有带 diff 的成功 edit/write"@
    } else {
        shown_from(changes, 0, Seq::empty())
    }
}

fn change(event: &SessionEvent) -> (r: Option<String>)
    ensures
        opt_view(r) == change_of(event@),
{
    match event {
        SessionEvent::ToolCompleted { call_id, outcome } => {
            let tool = outcome.session_metadata.tool.as_str();
            let succeeded = match outcome.status {
                ToolStatus::Succeeded => true,
                _ => false,
            };
            if succeeded && (same(tool, "edit") || same(tool, "write")) {
                crate::outcome::clone_text(&outcome.session_metadata.diff)
            } else {
                None
            }
        },
        _ => None,
    }
}

fn begins_run(event: &SessionEvent) -> (r: bool)
    ensures
        r == (event@ is RunStarted),
{
    match event {
        SessionEvent::RunStarted { model, limits } => true,
        _ => false,
    }
}

/// What the last run changed: the changes of all files that were edited or written with
/// success since the last run began, up to 48 KiB.
#[verifier::rlimit(30)]
pub fn last_edit_diff(events: &Vec<SessionEvent>) -> (r: String)
    ensures
        r@ == diff_text(views(events@)),
{
    let ghost all = views(events@);
    let count: usize = events.len();
    let mut start: usize = count;
    assert(all.take(start as int) =~= all);
    while start > 0 && !begins_run(&events[start - 1])
        invariant
            start <= count == events@.len(),
            all == views(events@),
            last_run(all) == last_run(all.take(start as int)),
        decreases start,
    {
        proof {
            let now = all.take(start as int);
            assert(now.last() == events@[start - 1]@);
            assert(now.drop_last() =~= all.take(start - 1));
        }
        start -= 1;
    }
    proof {
        let now = all.take(start as int);
        if start > 0 {
            assert(now.last() == events@[start - 1]@);
        }
        assert(start == last_run(all));
    }
    let ghost recent = all.skip(start as int);
    let mut changes: Vec<String> = Vec::new();
    let mut i: usize = start;
    assert(views(changes@) =~= changes_of(recent.take(0)));
    while i < count
        invariant
            start <= i <= count == events@.len(),
            all == views(events@),
            recent == all.skip(start as int),
            views(changes@) == changes_of(recent.take(i - start)),
        decreases count - i,
    {
        proof {
            let next = recent.take(i - start + 1);
            assert(next.drop_last() =~= recent.take(i - start));
            assert(next.last() == events@[i as int]@);
        }
        if let Some(diff) = change(&events[i]) {
            proof {
                views_push(changes@, diff);
            }
            changes.push(diff);
        }
        i += 1;
    }
    assert(recent.take(i - start) =~= recent);
    let ghost list = views(changes@);
    assert(list.len() == changes@.len());
    if changes.len() == 0 {
        return owned("本轮还没有带 diff 的成功 edit/write");
    }
    show(&changes)
}

fn show(changes: &Vec<String>) -> (r: String)
    ensures
        r@ == shown_from(views(changes@), 0, Seq::empty()),
{
    let ghost list = views(changes@);
    let mut out = String::new();
    let mut k: usize = 0;
    assert(out@ =~= Seq::<char>::empty());
    while k < changes.len()
        invariant
            k <= changes@.len(),
            list == views(changes@),
            shown_from(list, 0, Seq::empty()) == shown_from(list, k as int, out@),
        decreases changes@.len() - k,
    {
        assert(list[k as int] == changes@[k as int]@);
        if k > 0 {
            out.append("\n---\n\n");
        }
        let used: usize = size(out.as_str());
        let space: usize = if used >= MAX_DIFF_BYTES {
            0
        } else {
            MAX_DIFF_BYTES - used
        };
        if size(changes[k].as_str()) > space {
            let mark: usize = size(DIFF_CUT);
            let budget: usize = if space >= mark {
                space - mark
            } else {
                0
            };
            let part = cut(changes[k].as_str(), budget);
            let ghost begun = out@;
            out.append(part.as_str());
            if space >= mark {
                out.append(DIFF_CUT);
            }
            assert(out@ =~= begun + cut_change(changes@[k as int]@, space as int));
            return out;
        }
        out.append(changes[k].as_str());
        k += 1;
    }
    out
}

proof fn lemma_sizes(a: Seq<char>, b: Seq<char>)
    ensures
        size_of(a + b) == size_of(a) + size_of(b),
{
    lemma_encode_concat(a, b);
}

/// What a run changed is shown in little more than the budget: the line between two changes
/// is all that may go over it.
pub proof fn diffs_are_bounded(changes: Seq<Seq<char>>, i: int, shown: Seq<char>)
    requires
        size_of(shown) <= MAX_DIFF_BYTES,
        forall|k: int| 0 <= k < changes.len() ==> (#[trigger] changes[k]).len() > 0,
    ensures
        size_of(shown_from(changes, i, shown)) <= MAX_DIFF_BYTES + size_of("\n---\n\n"@),
    decreases changes.len() - i,
{
    if 0 <= i < changes.len() {
        let begun = if i > 0 {
            shown + "\n---\n\n"@
        } else {
            shown
        };
        lemma_sizes(shown, "\n---\n\n"@);
        if size_of(changes[i]) > room(begun) {
            let space = room(begun);
            let mark = size_of(DIFF_CUT@);
            let budget = if space >= mark {
                space - mark
            } else {
                0
            };
            cut_fits(changes[i], budget);
            let tail: Seq<char> = if space >= mark {
                DIFF_CUT@
            } else {
                Seq::empty()
            };
            lemma_sizes(cut_of(changes[i], budget), tail);
            lemma_sizes(begun, cut_change(changes[i], space));
        } else {
            lemma_sizes(begun, changes[i]);
            lemma_has_size(changes[i]);
            diffs_are_bounded(changes, i + 1, begun + changes[i]);
        }
    }
}

proof fn lemma_has_size(text: Seq<char>)
    requires
        text.len() > 0,
    ensures
        size_of(text) > 0,
{
}

} // verus!
