//! What a session comes to as a conversation. The session is what counts; the conversation
//! is told from it.
use crate::agent::compaction::covered_end;
use crate::agent::compaction::first_start;
use crate::agent::compaction::SUMMARY_HEAD;
use crate::agent::tool_runtime::result_message;
use crate::agent::tool_runtime::tool_result_message;
use crate::ids::EventId;
use crate::ids::ToolCallId;
use crate::message::clone_calls;
use crate::message::ChatMessage;
use crate::message::ChatMessageView;
use crate::message::ToolCallView;
use crate::plan::Plan;
use crate::plan::PlanView;
use crate::session::EventRange;
use crate::session::SessionEvent;
use crate::session::SessionEventView;
use crate::text::opt_view;
use crate::text::owned;
use crate::text::views;
use crate::text::views_push;
use vstd::prelude::*;
use vstd::string::*;

verus! {

/// The call of the given name: the last one that was asked for under it.
pub open spec fn call_of(events: Seq<SessionEventView>, id: ToolCallId) -> Option<ToolCallView>
    decreases events.len(),
{
    if events.len() == 0 {
        None
    } else {
        match events.last() {
            SessionEventView::ToolRequested { call } => if call.call_id == id {
                Some(call)
            } else {
                call_of(events.drop_last(), id)
            },
            _ => call_of(events.drop_last(), id),
        }
    }
}

/// What an event adds to the conversation, after the events before it: what the user said,
/// what the model said, and what a call came to. Nothing else is said to the model.
pub open spec fn message_of(before: Seq<SessionEventView>, event: SessionEventView) -> Option<
    ChatMessageView,
> {
    match event {
        SessionEventView::UserSubmitted { content } => Some(ChatMessageView::User(content)),
        SessionEventView::AssistantMessageCommitted { content, tool_calls } => Some(
            ChatMessageView::Assistant { content, tool_calls },
        ),
        SessionEventView::ToolCompleted { call_id, outcome } => match call_of(before, call_id) {
            Some(call) => Some(result_message(call, outcome)),
            None => None,
        },
        _ => None,
    }
}

/// The last summary of a session: what it covers, and its text.
pub open spec fn last_summary(events: Seq<SessionEventView>) -> Option<(EventRange, Seq<char>)>
    decreases events.len(),
{
    if events.len() == 0 {
        None
    } else {
        match events.last() {
            SessionEventView::CompactionCommitted { covered, summary } => Some((covered, summary)),
            _ => last_summary(events.drop_last()),
        }
    }
}

/// Whether a summary stands for the event of this number. Events are numbered from 1.
pub open spec fn is_covered(summary: Option<(EventRange, Seq<char>)>, number: int) -> bool {
    match summary {
        Some((covered, _)) => covered.start.0 <= number < covered.end.0,
        None => false,
    }
}

/// What the first `n` events tell, each message with the number of its event, without those
/// that a summary stands for.
pub open spec fn told(
    events: Seq<SessionEventView>,
    summary: Option<(EventRange, Seq<char>)>,
    n: int,
) -> Seq<(ChatMessageView, int)>
    decreases n,
{
    if n <= 0 {
        Seq::empty()
    } else {
        let rest = told(events, summary, n - 1);
        match message_of(events.take(n - 1), events[n - 1]) {
            Some(message) => if is_covered(summary, n) {
                rest
            } else {
                rest.push((message, n))
            },
            None => rest,
        }
    }
}

/// What a summary says in the conversation. It comes from no event of its own.
pub open spec fn summarised(summary: Option<(EventRange, Seq<char>)>) -> Seq<
    (ChatMessageView, int),
> {
    match summary {
        Some((_, text)) => seq![(ChatMessageView::User(SUMMARY_HEAD@ + text), 0int)],
        None => Seq::empty(),
    }
}

/// The conversation that a session comes to, each message with the number of its event: the
/// last summary, then what no summary stands for.
pub open spec fn retold(events: Seq<SessionEventView>) -> Seq<(ChatMessageView, int)> {
    let summary = last_summary(events);
    summarised(summary) + told(events, summary, events.len() as int)
}

/// The messages of a conversation with numbers.
pub open spec fn messages_of(told: Seq<(ChatMessageView, int)>) -> Seq<ChatMessageView> {
    Seq::new(told.len(), |i: int| told[i].0)
}

/// The conversation that a session comes to.
pub open spec fn conversation_of(events: Seq<SessionEventView>) -> Seq<ChatMessageView> {
    messages_of(retold(events))
}

/// The numbers of the events that the messages of a conversation come from.
pub open spec fn starts_of(events: Seq<SessionEventView>) -> Seq<u64> {
    Seq::new(retold(events).len(), |i: int| retold(events)[i].1 as u64)
}

fn find_call(events: &Vec<SessionEvent>, n: usize, id: ToolCallId) -> (r: Option<usize>)
    requires
        n <= events@.len(),
    ensures
        match r {
            Some(k) => k < n && (events@[k as int]@ matches SessionEventView::ToolRequested { call }
                && call_of(views(events@).take(n as int), id) == Some(call)),
            None => call_of(views(events@).take(n as int), id) is None,
        },
{
    let ghost all = views(events@);
    let mut k: usize = n;
    while k > 0
        invariant
            k <= n <= events@.len(),
            all == views(events@),
            call_of(all.take(n as int), id) == call_of(all.take(k as int), id),
        decreases k,
    {
        proof {
            assert(all.take(k as int).last() == events@[k - 1]@);
            assert(all.take(k as int).drop_last() =~= all.take(k - 1));
        }
        k = k - 1;
        if let SessionEvent::ToolRequested { call } = &events[k] {
            if call.call_id.0 == id.0 {
                return Some(k);
            }
        }
    }
    None
}

fn find_summary(events: &Vec<SessionEvent>) -> (r: Option<usize>)
    ensures
        match r {
            Some(k) => k < events@.len() && (events@[k as int]@ matches
                SessionEventView::CompactionCommitted { covered, summary } && last_summary(
                views(events@),
            ) == Some((covered, summary))),
            None => last_summary(views(events@)) is None,
        },
{
    let ghost all = views(events@);
    let mut k: usize = events.len();
    assert(all.take(k as int) =~= all);
    while k > 0
        invariant
            k <= events@.len(),
            all == views(events@),
            last_summary(all) == last_summary(all.take(k as int)),
        decreases k,
    {
        proof {
            assert(all.take(k as int).last() == events@[k - 1]@);
            assert(all.take(k as int).drop_last() =~= all.take(k - 1));
        }
        k = k - 1;
        if let SessionEvent::CompactionCommitted { .. } = &events[k] {
            return Some(k);
        }
    }
    None
}

fn message_at(events: &Vec<SessionEvent>, i: usize) -> (r: Option<ChatMessage>)
    requires
        i < events@.len(),
    ensures
        opt_view(r) == message_of(views(events@).take(i as int), events@[i as int]@),
{
    match &events[i] {
        SessionEvent::UserSubmitted { content } => Some(ChatMessage::User(content.clone())),
        SessionEvent::AssistantMessageCommitted { message } => Some(
            ChatMessage::Assistant {
                content: message.content.clone(),
                tool_calls: clone_calls(&message.tool_calls),
            },
        ),
        SessionEvent::ToolCompleted { call_id, outcome } => {
            match find_call(events, i, *call_id) {
                Some(k) => match &events[k] {
                    SessionEvent::ToolRequested { call } => Some(
                        tool_result_message(call, outcome),
                    ),
                    _ => None,
                },
                None => None,
            }
        },
        _ => None,
    }
}

/// The conversation that a session comes to, with the numbers of the events that its
/// messages come from; 0 stands for none.
pub fn project_messages_with_starts(events: &Vec<SessionEvent>) -> (r: (
    Vec<ChatMessage>,
    Vec<u64>,
))
    ensures
        views(r.0@) == conversation_of(views(events@)),
        r.1@ == starts_of(views(events@)),
{
    let ghost all = views(events@);
    let ghost summary = last_summary(all);
    let mut messages: Vec<ChatMessage> = Vec::new();
    let mut starts: Vec<u64> = Vec::new();
    let mut lo: u128 = 0;
    let mut hi: u128 = 0;
    if let Some(k) = find_summary(events) {
        if let SessionEvent::CompactionCommitted { covered, summary: text } = &events[k] {
            lo = covered.start.0;
            hi = covered.end.0;
            messages.push(ChatMessage::User(owned(SUMMARY_HEAD).concat(text.text.as_str())));
            starts.push(0);
        }
    }
    let mut i: usize = 0;
    let ghost done = told(all, summary, 0);
    proof {
        assert(views(messages@) =~= messages_of(summarised(summary) + done));
        assert(starts@ =~= Seq::new(
            (summarised(summary) + done).len(),
            |j: int| (summarised(summary) + done)[j].1 as u64,
        ));
    }
    while i < events.len()
        invariant
            i <= events@.len(),
            all == views(events@),
            summary == last_summary(all),
            forall|n: int| #[trigger] is_covered(summary, n) == (lo <= n < hi),
            done == told(all, summary, i as int),
            views(messages@) == messages_of(summarised(summary) + done),
            starts@ == Seq::new(
                (summarised(summary) + done).len(),
                |j: int| (summarised(summary) + done)[j].1 as u64,
            ),
        decreases events@.len() - i,
    {
        let ghost before = summarised(summary) + done;
        let number: u128 = i as u128 + 1;
        let covered = lo <= number && number < hi;
        let message = message_at(events, i);
        proof {
            assert(all[i as int] == events@[i as int]@);
            assert(is_covered(summary, i + 1) == covered);
            done = told(all, summary, i + 1);
        }
        if let Some(message) = message {
            if !covered {
                proof {
                    views_push(messages@, message);
                    assert(summarised(summary) + done =~= before.push((message@, i + 1)));
                }
                messages.push(message);
                starts.push(number as u64);
                proof {
                    assert(views(messages@) =~= messages_of(summarised(summary) + done));
                    assert(starts@ =~= Seq::new(
                        (summarised(summary) + done).len(),
                        |j: int| (summarised(summary) + done)[j].1 as u64,
                    ));
                }
            }
        }
        i = i + 1;
    }
    (messages, starts)
}

/// The conversation that a session comes to.
pub fn session_to_messages(events: &Vec<SessionEvent>) -> (r: Vec<ChatMessage>)
    ensures
        views(r@) == conversation_of(views(events@)),
{
    project_messages_with_starts(events).0
}

/// The plan of a session: the last one that was made.
pub open spec fn last_plan(events: Seq<SessionEventView>) -> Option<PlanView>
    decreases events.len(),
{
    if events.len() == 0 {
        None
    } else {
        match events.last() {
            SessionEventView::PlanReplaced { plan } => Some(plan),
            _ => last_plan(events.drop_last()),
        }
    }
}

/// The plan of a session.
pub fn latest_plan_from_events(events: &Vec<SessionEvent>) -> (r: Option<&Plan>)
    ensures
        match r {
            Some(plan) => last_plan(views(events@)) == Some(plan@),
            None => last_plan(views(events@)) is None,
        },
{
    let ghost all = views(events@);
    let mut k: usize = events.len();
    assert(all.take(k as int) =~= all);
    while k > 0
        invariant
            k <= events@.len(),
            all == views(events@),
            last_plan(all) == last_plan(all.take(k as int)),
        decreases k,
    {
        proof {
            assert(all.take(k as int).last() == events@[k - 1]@);
            assert(all.take(k as int).drop_last() =~= all.take(k - 1));
        }
        k = k - 1;
        if let SessionEvent::PlanReplaced { plan } = &events[k] {
            return Some(plan);
        }
    }
    None
}

proof fn lemma_told_same(
    events: Seq<SessionEventView>,
    more: Seq<SessionEventView>,
    summary: Option<(EventRange, Seq<char>)>,
    n: int,
)
    requires
        0 <= n <= events.len(),
    ensures
        told(events + more, summary, n) == told(events, summary, n),
    decreases n,
{
    if n > 0 {
        lemma_told_same(events, more, summary, n - 1);
        assert((events + more).take(n - 1) =~= events.take(n - 1));
    }
}

/// Whether messages have rising numbers of events up to `n` that no summary stands for.
spec fn are_numbered(
    told: Seq<(ChatMessageView, int)>,
    summary: Option<(EventRange, Seq<char>)>,
    n: int,
) -> bool {
    &&& forall|i: int|
        0 <= i < told.len() ==> 1 <= (#[trigger] told[i]).1 <= n && !is_covered(summary, told[i].1)
    &&& forall|i: int, j: int|
        0 <= i < j < told.len() ==> (#[trigger] told[i]).1 < (#[trigger] told[j]).1
}

proof fn lemma_numbers(
    events: Seq<SessionEventView>,
    summary: Option<(EventRange, Seq<char>)>,
    n: int,
)
    requires
        0 <= n <= events.len(),
    ensures
        are_numbered(told(events, summary, n), summary, n),
    decreases n,
{
    if n > 0 {
        lemma_numbers(events, summary, n - 1);
    }
}

/// Whether every summary of a session stands for the start of the session, and for nothing
/// that came after it.
pub open spec fn summaries_are_of_the_past(events: Seq<SessionEventView>) -> bool {
    match last_summary(events) {
        Some((covered, _)) => covered.start.0 == 1 && covered.end.0 <= events.len() + 1,
        None => true,
    }
}

/// An event that is no summary only adds to the conversation, at its end: what was told
/// before stays as it is.
pub proof fn events_only_add(events: Seq<SessionEventView>, event: SessionEventView)
    requires
        summaries_are_of_the_past(events),
        !(event is CompactionCommitted),
    ensures
        summaries_are_of_the_past(events.push(event)),
        conversation_of(events.push(event)) == match message_of(events, event) {
            Some(message) => conversation_of(events).push(message),
            None => conversation_of(events),
        },
{
    let after = events.push(event);
    let summary = last_summary(events);
    let n = events.len() as int;
    assert(after.drop_last() =~= events);
    assert(last_summary(after) == summary);
    assert(after =~= events + seq![event]);
    lemma_told_same(events, seq![event], summary, n);
    assert(after.take(n) =~= events);
    assert(!is_covered(summary, n + 1));
    match message_of(events, event) {
        Some(message) => {
            assert(retold(after) =~= retold(events).push((message, n + 1)));
            assert(conversation_of(after) =~= conversation_of(events).push(message));
        },
        None => {
            assert(retold(after) =~= retold(events));
        },
    }
}

/// Those of the messages whose events have at least the given number.
spec fn from_number(told: Seq<(ChatMessageView, int)>, number: int) -> Seq<(ChatMessageView, int)>
    decreases told.len(),
{
    if told.len() == 0 {
        Seq::empty()
    } else {
        let rest = from_number(told.drop_last(), number);
        if told.last().1 >= number {
            rest.push(told.last())
        } else {
            rest
        }
    }
}

proof fn lemma_told_from(
    events: Seq<SessionEventView>,
    before: Option<(EventRange, Seq<char>)>,
    after: Option<(EventRange, Seq<char>)>,
    number: int,
    n: int,
)
    requires
        0 <= n <= events.len(),
        forall|i: int| #![trigger is_covered(after, i)] 1 <= i ==> is_covered(after, i) == (i < number),
        forall|i: int| #![trigger is_covered(before, i)] number <= i ==> !is_covered(before, i),
    ensures
        told(events, after, n) == from_number(told(events, before, n), number),
    decreases n,
{
    if n > 0 {
        lemma_told_from(events, before, after, number, n - 1);
        let old_rest = told(events, before, n - 1);
        assert(is_covered(after, n) == (n < number));
        match message_of(events.take(n - 1), events[n - 1]) {
            Some(message) => {
                if !is_covered(before, n) {
                    assert(told(events, before, n).drop_last() =~= old_rest);
                }
            },
            None => {},
        }
    }
}

proof fn lemma_from_number(told: Seq<(ChatMessageView, int)>, number: int, split: int)
    requires
        0 <= split <= told.len(),
        forall|i: int| 0 <= i < split ==> (#[trigger] told[i]).1 < number,
        forall|i: int| split <= i < told.len() ==> (#[trigger] told[i]).1 >= number,
    ensures
        from_number(told, number) == told.skip(split),
    decreases told.len(),
{
    if told.len() == 0 {
        assert(told.skip(split) =~= Seq::empty());
    } else if split < told.len() {
        lemma_from_number(told.drop_last(), number, split);
        assert(told.skip(split) =~= told.drop_last().skip(split).push(told.last()));
    } else {
        lemma_from_number(told.drop_last(), number, split - 1);
        assert(told.skip(split) =~= Seq::empty());
        assert(told.drop_last().skip(split - 1) =~= Seq::empty());
    }
}

/// What a compaction covers is what its summary replaces: told again, the session comes to
/// the summary and to the messages behind the place where the conversation was split.
pub proof fn a_summary_replaces_what_it_covers(
    events: Seq<SessionEventView>,
    split: int,
    summary: Seq<char>,
)
    requires
        summaries_are_of_the_past(events),
        0 < split <= conversation_of(events).len(),
        events.len() < u64::MAX,
    ensures
        ({
            let total = conversation_of(events).len() as int;
            let end = covered_end((events.len() + 1) as u64, split, total, starts_of(events));
            let event = SessionEventView::CompactionCommitted {
                covered: EventRange { start: EventId(1), end: EventId(end as u128) },
                summary,
            };
            &&& summaries_are_of_the_past(events.push(event))
            &&& conversation_of(events.push(event)) == seq![
                ChatMessageView::User(SUMMARY_HEAD@ + summary),
            ] + conversation_of(events).skip(split)
        }),
{
    let n = events.len() as int;
    let old = last_summary(events);
    let all = retold(events);
    let body = told(events, old, n);
    let head = summarised(old).len() as int;
    let total = conversation_of(events).len() as int;
    let starts = starts_of(events);
    let end = covered_end((n + 1) as u64, split, total, starts);
    let event = SessionEventView::CompactionCommitted {
        covered: EventRange { start: EventId(1), end: EventId(end as u128) },
        summary,
    };
    let after = events.push(event);
    let new = last_summary(after);
    assert(after.last() == event);
    assert(new == Some((EventRange { start: EventId(1), end: EventId(end as u128) }, summary)));
    lemma_numbers(events, old, n);
    assert(starts.len() == total);
    assert forall|i: int| split <= i < total implies 0 < #[trigger] starts[i] && starts[i]
        == all[i].1 by {
        assert(all[i] == body[i - head]);
    }
    // The first message behind the split is the first that stays.
    if split < total {
        assert(first_start(starts, split) == Some(starts[split]));
        assert(all[split] == body[split - head]);
        assert(end == body[split - head].1);
        assert(!is_covered(old, end as int));
    } else {
        assert(first_start(starts, split) is None);
        assert(end == n + 1);
    }
    assert(after =~= events + seq![event]);
    lemma_told_same(events, seq![event], new, n);
    lemma_told_from(events, old, new, end as int, n);
    lemma_from_number(body, end as int, split - head);
    assert(after.take(n) =~= events);
    assert(told(after, new, n + 1) == told(after, new, n));
    assert(retold(after) =~= summarised(new) + body.skip(split - head));
    assert(conversation_of(after) =~= seq![ChatMessageView::User(SUMMARY_HEAD@ + summary)]
        + conversation_of(events).skip(split)) by {
        assert forall|i: int| 1 <= i < conversation_of(after).len() implies conversation_of(
            after,
        )[i] == conversation_of(events)[split + i - 1] by {
            assert(retold(after)[i] == body[split - head + i - 1]);
            assert(all[split + i - 1] == body[split - head + i - 1]);
        }
    }
}

} // verus!
