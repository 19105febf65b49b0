//! The plan that the model keeps of its work.
use crate::text::decimal;
use crate::text::decimal_of;
use crate::text::opt_view;
use crate::text::views;
use vstd::prelude::*;
use vstd::string::*;

verus! {

/// How far a step has come.
#[derive(Debug, Clone, Copy, PartialEq, Eq, Structural)]
pub enum PlanStatus {
    Pending,
    InProgress,
    Completed,
    Blocked,
    Cancelled,
}

/// The name of a status.
pub open spec fn plan_status_text(status: PlanStatus) -> Seq<char> {
    match status {
        PlanStatus::Pending => "pending"@,
        PlanStatus::InProgress => "in_progress"@,
        PlanStatus::Completed => "completed"@,
        PlanStatus::Blocked => "blocked"@,
        PlanStatus::Cancelled => "cancelled"@,
    }
}

/// The name of a status.
pub fn plan_status_name(status: PlanStatus) -> (r: &'static str)
    ensures
        r@ == plan_status_text(status),
{
    match status {
        PlanStatus::Pending => "pending",
        PlanStatus::InProgress => "in_progress",
        PlanStatus::Completed => "completed",
        PlanStatus::Blocked => "blocked",
        PlanStatus::Cancelled => "cancelled",
    }
}

/// A step of a plan.
#[derive(Debug, PartialEq, Eq)]
pub struct PlanItem {
    pub text: String,
    pub status: PlanStatus,
}

/// What a [`PlanItem`] says.
pub struct PlanItemView {
    pub text: Seq<char>,
    pub status: PlanStatus,
}

impl View for PlanItem {
    type V = PlanItemView;

    open spec fn view(&self) -> PlanItemView {
        PlanItemView { text: self.text@, status: self.status }
    }
}

impl Clone for PlanItem {
    fn clone(&self) -> (r: Self)
        ensures
            r == *self,
    {
        PlanItem { text: self.text.clone(), status: self.status }
    }
}

/// A plan.
#[derive(Debug, PartialEq, Eq)]
pub struct Plan {
    pub explanation: Option<String>,
    pub items: Vec<PlanItem>,
}

/// What a [`Plan`] says.
pub struct PlanView {
    pub explanation: Option<Seq<char>>,
    pub items: Seq<PlanItemView>,
}

impl View for Plan {
    type V = PlanView;

    open spec fn view(&self) -> PlanView {
        PlanView { explanation: opt_view(self.explanation), items: views(self.items@) }
    }
}

impl Clone for Plan {
    fn clone(&self) -> (r: Self)
        ensures
            r@ == self@,
    {
        let items = self.items.clone();
        assert(items@ =~= self.items@);
        Plan { explanation: crate::outcome::clone_text(&self.explanation), items }
    }
}

/// Whether a step is still to be done.
pub open spec fn is_active(status: PlanStatus) -> bool {
    status != PlanStatus::Completed && status != PlanStatus::Cancelled
}

/// One line for each step that is still to be done.
pub open spec fn active_lines(items: Seq<PlanItemView>) -> Seq<char>
    decreases items.len(),
{
    if items.len() == 0 {
        Seq::empty()
    } else {
        let item = items.last();
        active_lines(items.drop_last()) + (if is_active(item.status) {
            "["@ + plan_status_text(item.status) + "] "@ + item.text + "\n"@
        } else {
            Seq::empty()
        })
    }
}

/// How many steps are completed.
pub open spec fn completed_count(items: Seq<PlanItemView>) -> nat
    decreases items.len(),
{
    if items.len() == 0 {
        0
    } else {
        completed_count(items.drop_last()) + (if items.last().status == PlanStatus::Completed {
            1nat
        } else {
            0
        })
    }
}

/// Whether some step is still to be done.
pub open spec fn has_active(items: Seq<PlanItemView>) -> bool {
    exists|i: int| 0 <= i < items.len() && is_active(#[trigger] items[i].status)
}

/// The steps that are still to be done and how many are completed; nothing where no
/// step is left.
pub open spec fn snapshot_of(plan: Option<PlanView>) -> Seq<char> {
    match plan {
        Some(plan) => if has_active(plan.items) {
            active_lines(plan.items) + "completed: "@ + decimal_of(completed_count(plan.items))
                + "/"@ + decimal_of(plan.items.len())
        } else {
            Seq::empty()
        },
        None => Seq::empty(),
    }
}

/// The current state of a plan, as the model is told of it.
pub fn plan_snapshot(plan: Option<&Plan>) -> (r: String)
    ensures
        r@ == snapshot_of(
            match plan {
                Some(plan) => Some(plan@),
                None => None,
            },
        ),
{
    match plan {
        Some(plan) => {
            let mut out = String::new();
            let mut done: usize = 0;
            let mut active = false;
            let mut i: usize = 0;
            while i < plan.items.len()
                invariant
                    i <= plan.items@.len(),
                    done <= i,
                    out@ == active_lines(plan@.items.take(i as int)),
                    done == completed_count(plan@.items.take(i as int)),
                    active == exists|j: int|
                        0 <= j < i && is_active(#[trigger] plan@.items[j].status),
                decreases plan.items@.len() - i,
            {
                proof {
                    let next = plan@.items.take(i + 1);
                    assert(next.drop_last() =~= plan@.items.take(i as int));
                    assert(next.last() == plan.items@[i as int]@);
                    assert(plan@.items[i as int].status == plan.items@[i as int].status);
                }
                let ghost before = out@;
                let item = &plan.items[i];
                match item.status {
                    PlanStatus::Completed => {
                        done += 1;
                    },
                    PlanStatus::Cancelled => {},
                    _ => {
                        active = true;
                        out.append("[");
                        out.append(plan_status_name(item.status));
                        out.append("] ");
                        out.append(item.text.as_str());
                        out.append("\n");
                    },
                }
                proof {
                    if is_active(item.status) {
                        assert(out@ =~= before + ("["@ + plan_status_text(item.status) + "] "@
                            + item.text@ + "\n"@));
                    } else {
                        assert(out@ =~= before + Seq::<char>::empty());
                    }
                }
                i += 1;
            }
            assert(plan@.items.take(i as int) =~= plan@.items);
            if !active {
                return String::new();
            }
            out.append("completed: ");
            let count = decimal(done as u128);
            out.append(count.as_str());
            out.append("/");
            let total = decimal(plan.items.len() as u128);
            out.append(total.as_str());
            out
        },
        None => String::new(),
    }
}

} // verus!
