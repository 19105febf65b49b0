//! What happened in a session, in numbers.
use crate::ids::ToolCallId;
use crate::outcome::ToolStatus;
use crate::session::SessionEvent;
use crate::session::SessionEventView;
use crate::text::contains;
use crate::text::has_text;
use crate::text::same;
use vstd::prelude::*;
use vstd::string::*;

verus! {

/// What happened in a session, in numbers.
#[derive(Debug, Clone, Copy, PartialEq, Eq, Structural)]
pub struct EvalStats {
    pub turns: u32,
    pub tool_calls: u32,
    pub run_calls: u32,
    pub bash_calls: u32,
    pub read_calls: u32,
    pub search_calls: u32,
    pub edit_calls: u32,
    pub write_calls: u32,
    pub web_search_calls: u32,
    pub web_fetch_calls: u32,
    pub other_calls: u32,
    pub repeated_actions: u32,
    pub edit_failures: u32,
    pub stale_failures: u32,
    pub input_tokens: u64,
    pub output_tokens: u64,
    /// The milliseconds from the message of the user to the first edit.
    pub first_edit_time_ms: Option<u64>,
    pub compaction_count: u32,
}

/// What is counted.
pub enum Counted {
    Turns,
    Runs,
    Calls,
    Bash,
    Read,
    Search,
    Edit,
    Write,
    WebSearch,
    WebFetch,
    Other,
    Repeated,
    EditFailures,
    StaleFailures,
    Compactions,
}

/// What a call of a tool counts as.
pub open spec fn call_kind(name: Seq<char>) -> Counted {
    if name == "bash"@ {
        Counted::Bash
    } else if name == "read"@ {
        Counted::Read
    } else if name == "list"@ || name == "search"@ {
        Counted::Search
    } else if name == "edit"@ {
        Counted::Edit
    } else if name == "write"@ {
        Counted::Write
    } else if name == "web_search"@ {
        Counted::WebSearch
    } else if name == "web_fetch"@ {
        Counted::WebFetch
    } else {
        Counted::Other
    }
}

/// The tool that was last called under an identifier before event `n`; nothing where none
/// was.
pub open spec fn tool_of(events: Seq<SessionEventView>, id: ToolCallId, n: int) -> Seq<char>
    decreases n,
{
    if n <= 0 {
        Seq::empty()
    } else {
        match events[n - 1] {
            SessionEventView::ToolRequested { call } => if call.call_id == id {
                call.name
            } else {
                tool_of(events, id, n - 1)
            },
            _ => tool_of(events, id, n - 1),
        }
    }
}

/// Whether event `i` tells of an edit that failed.
pub open spec fn failed_edit(events: Seq<SessionEventView>, i: int) -> bool {
    events[i] matches SessionEventView::ToolCompleted { call_id, outcome } && tool_of(
        events,
        call_id,
        i,
    ) == "edit"@ && outcome.status == ToolStatus::Failed
}

/// Whether event `i` tells of the end of a call whose output holds a text.
pub open spec fn ended_with(events: Seq<SessionEventView>, text: Seq<char>, i: int) -> bool {
    events[i] matches SessionEventView::ToolCompleted { call_id, outcome } && has_text(
        outcome.model_payload.output,
        text,
    )
}

/// Whether event `i` counts.
pub open spec fn counts(events: Seq<SessionEventView>, what: Counted, i: int) -> bool {
    match what {
        Counted::Turns => events[i] is AssistantMessageCommitted,
        Counted::Runs => events[i] is RunStarted,
        Counted::Calls => events[i] is ToolRequested,
        Counted::Repeated => ended_with(events, "repeated_without_progress"@, i),
        Counted::EditFailures => failed_edit(events, i),
        Counted::StaleFailures => failed_edit(events, i) && ended_with(
            events,
            "stale revision"@,
            i,
        ),
        Counted::Compactions => events[i] is CompactionCommitted,
        _ => events[i] matches SessionEventView::ToolRequested { call } && call_kind(call.name)
            == what,
    }
}

/// How many of the first `n` events count.
pub open spec fn tally(events: Seq<SessionEventView>, what: Counted, n: int) -> nat
    decreases n,
{
    if n <= 0 {
        0
    } else {
        tally(events, what, n - 1) + if counts(events, what, n - 1) {
            1nat
        } else {
            0nat
        }
    }
}

/// The tokens that went into the runs that ended among the first `n` events.
pub open spec fn tokens_in(events: Seq<SessionEventView>, n: int) -> nat
    decreases n,
{
    if n <= 0 {
        0
    } else {
        tokens_in(events, n - 1) + match events[n - 1] {
            SessionEventView::RunCompleted { usage, .. } => usage.input_tokens as nat,
            _ => 0,
        }
    }
}

/// The tokens that came out of the runs that ended among the first `n` events.
pub open spec fn tokens_out(events: Seq<SessionEventView>, n: int) -> nat
    decreases n,
{
    if n <= 0 {
        0
    } else {
        tokens_out(events, n - 1) + match events[n - 1] {
            SessionEventView::RunCompleted { usage, .. } => usage.output_tokens as nat,
            _ => 0,
        }
    }
}

/// Whether an event tells of the start of an edit.
pub open spec fn starts_edit(event: SessionEventView) -> bool {
    event matches SessionEventView::ToolStarted { call_id, recovery } && recovery matches Some(
        recovery,
    ) && recovery.tool == "edit"@
}

/// The last of the first `n` events in which the user said something.
pub open spec fn last_message(events: Seq<SessionEventView>, n: int) -> Option<int>
    decreases n,
{
    if n <= 0 {
        None
    } else if events[n - 1] is UserSubmitted {
        Some(n - 1)
    } else {
        last_message(events, n - 1)
    }
}

/// The first of the first `n` events in which an edit started.
pub open spec fn first_edit(events: Seq<SessionEventView>, n: int) -> Option<int>
    decreases n,
{
    if n <= 0 {
        None
    } else if first_edit(events, n - 1) is Some {
        first_edit(events, n - 1)
    } else if starts_edit(events[n - 1]) {
        Some(n - 1)
    } else {
        None
    }
}

/// Events with their times, without the times.
pub open spec fn untimed(events: Seq<(i128, SessionEvent)>) -> Seq<SessionEventView> {
    events.map_values(|e: (i128, SessionEvent)| e.1@)
}

/// The milliseconds from the last message of the user to the first edit, none less than 0,
/// as a number of 64 bits.
pub open spec fn edit_delay(events: Seq<(i128, SessionEvent)>) -> Option<u64> {
    let all = untimed(events);
    let n = events.len() as int;
    match (last_message(all, n), first_edit(all, n)) {
        (Some(start), Some(first)) => {
            let delay = events[first].0 - events[start].0;
            Some(
                if delay <= 0 {
                    0u64
                } else {
                    (delay % 0x1_0000_0000_0000_0000) as u64
                },
            )
        },
        _ => None,
    }
}

/// Whether the numbers of a session can be told: they fit.
pub open spec fn can_be_told(events: Seq<(i128, SessionEvent)>) -> bool {
    let all = untimed(events);
    let n = events.len() as int;
    &&& n <= u32::MAX
    &&& tokens_in(all, n) <= u64::MAX
    &&& tokens_out(all, n) <= u64::MAX
    &&& match (last_message(all, n), first_edit(all, n)) {
        (Some(start), Some(first)) => i128::MIN <= events[first].0 - events[start].0 <= i128::MAX,
        _ => true,
    }
}

/// The numbers of a session.
pub open spec fn stats_of(events: Seq<(i128, SessionEvent)>) -> EvalStats {
    let all = untimed(events);
    let n = events.len() as int;
    EvalStats {
        turns: tally(all, Counted::Turns, n) as u32,
        tool_calls: tally(all, Counted::Calls, n) as u32,
        run_calls: tally(all, Counted::Runs, n) as u32,
        bash_calls: tally(all, Counted::Bash, n) as u32,
        read_calls: tally(all, Counted::Read, n) as u32,
        search_calls: tally(all, Counted::Search, n) as u32,
        edit_calls: tally(all, Counted::Edit, n) as u32,
        write_calls: tally(all, Counted::Write, n) as u32,
        web_search_calls: tally(all, Counted::WebSearch, n) as u32,
        web_fetch_calls: tally(all, Counted::WebFetch, n) as u32,
        other_calls: tally(all, Counted::Other, n) as u32,
        repeated_actions: tally(all, Counted::Repeated, n) as u32,
        edit_failures: tally(all, Counted::EditFailures, n) as u32,
        stale_failures: tally(all, Counted::StaleFailures, n) as u32,
        input_tokens: tokens_in(all, n) as u64,
        output_tokens: tokens_out(all, n) as u64,
        first_edit_time_ms: edit_delay(events),
        compaction_count: tally(all, Counted::Compactions, n) as u32,
    }
}

/// No more events count than there are.
pub proof fn lemma_tally(events: Seq<SessionEventView>, what: Counted, n: int)
    requires
        0 <= n,
    ensures
        tally(events, what, n) <= n,
    decreases n,
{
    if n > 0 {
        lemma_tally(events, what, n - 1);
    }
}

proof fn lemma_tokens(events: Seq<SessionEventView>, k: int, n: int)
    requires
        0 <= k <= n,
    ensures
        tokens_in(events, k) <= tokens_in(events, n),
        tokens_out(events, k) <= tokens_out(events, n),
    decreases n,
{
    if k < n {
        lemma_tokens(events, k, n - 1);
    }
}

/// Every call counts as one thing, and an edit that was stale failed.
pub proof fn calls_add_up(events: Seq<SessionEventView>, n: int)
    requires
        0 <= n,
    ensures
        tally(events, Counted::Calls, n) == tally(events, Counted::Bash, n) + tally(
            events,
            Counted::Read,
            n,
        ) + tally(events, Counted::Search, n) + tally(events, Counted::Edit, n) + tally(
            events,
            Counted::Write,
            n,
        ) + tally(events, Counted::WebSearch, n) + tally(events, Counted::WebFetch, n) + tally(
            events,
            Counted::Other,
            n,
        ),
        tally(events, Counted::StaleFailures, n) <= tally(events, Counted::EditFailures, n),
    decreases n,
{
    if n > 0 {
        calls_add_up(events, n - 1);
    }
}

fn tool_before(events: &Vec<(i128, SessionEvent)>, id: ToolCallId, n: usize) -> (r: Option<usize>)
    requires
        n <= events@.len(),
    ensures
        match r {
            Some(k) => k < n && (events@[k as int].1 matches SessionEvent::ToolRequested { call }
                && tool_of(untimed(events@), id, n as int) == call.name@),
            None => tool_of(untimed(events@), id, n as int) == Seq::<char>::empty(),
        },
{
    let mut k: usize = n;
    while k > 0
        invariant
            k <= n <= events@.len(),
            tool_of(untimed(events@), id, n as int) == tool_of(untimed(events@), id, k as int),
        decreases k,
    {
        k -= 1;
        assert(untimed(events@)[k as int] == events@[k as int].1@);
        if let SessionEvent::ToolRequested { call } = &events[k].1 {
            if call.call_id == id {
                return Some(k);
            }
        }
    }
    None
}

fn is_edit_call(events: &Vec<(i128, SessionEvent)>, id: ToolCallId, n: usize) -> (r: bool)
    requires
        n <= events@.len(),
    ensures
        r == (tool_of(untimed(events@), id, n as int) == "edit"@),
{
    proof {
        reveal_strlit("edit");
        assert("edit"@.len() == 4);
    }
    match tool_before(events, id, n) {
        Some(k) => match &events[k].1 {
            SessionEvent::ToolRequested { call } => same(call.name.as_str(), "edit"),
            _ => false,
        },
        None => false,
    }
}

fn count_call(stats: &mut EvalStats, name: &str)
    requires
        old(stats).tool_calls < u32::MAX,
        old(stats).bash_calls < u32::MAX,
        old(stats).read_calls < u32::MAX,
        old(stats).search_calls < u32::MAX,
        old(stats).edit_calls < u32::MAX,
        old(stats).write_calls < u32::MAX,
        old(stats).web_search_calls < u32::MAX,
        old(stats).web_fetch_calls < u32::MAX,
        old(stats).other_calls < u32::MAX,
    ensures
        ({
            let kind = call_kind(name@);
            let more = |n: u32, what: Counted|
                if kind == what {
                    (n + 1) as u32
                } else {
                    n
                };
            *final(stats) == (EvalStats {
                tool_calls: (old(stats).tool_calls + 1) as u32,
                bash_calls: more(old(stats).bash_calls, Counted::Bash),
                read_calls: more(old(stats).read_calls, Counted::Read),
                search_calls: more(old(stats).search_calls, Counted::Search),
                edit_calls: more(old(stats).edit_calls, Counted::Edit),
                write_calls: more(old(stats).write_calls, Counted::Write),
                web_search_calls: more(old(stats).web_search_calls, Counted::WebSearch),
                web_fetch_calls: more(old(stats).web_fetch_calls, Counted::WebFetch),
                other_calls: more(old(stats).other_calls, Counted::Other),
                ..*old(stats)
            })
        }),
{
    stats.tool_calls += 1;
    if same(name, "bash") {
        stats.bash_calls += 1;
    } else if same(name, "read") {
        stats.read_calls += 1;
    } else if same(name, "list") || same(name, "search") {
        stats.search_calls += 1;
    } else if same(name, "edit") {
        stats.edit_calls += 1;
    } else if same(name, "write") {
        stats.write_calls += 1;
    } else if same(name, "web_search") {
        stats.web_search_calls += 1;
    } else if same(name, "web_fetch") {
        stats.web_fetch_calls += 1;
    } else {
        stats.other_calls += 1;
    }
}

/// Whether `stats` holds the numbers of the first `n` events, but for the time of an edit.
spec fn told_up_to(stats: EvalStats, events: Seq<SessionEventView>, n: int) -> bool {
    &&& stats.turns == tally(events, Counted::Turns, n)
    &&& stats.tool_calls == tally(events, Counted::Calls, n)
    &&& stats.run_calls == tally(events, Counted::Runs, n)
    &&& stats.bash_calls == tally(events, Counted::Bash, n)
    &&& stats.read_calls == tally(events, Counted::Read, n)
    &&& stats.search_calls == tally(events, Counted::Search, n)
    &&& stats.edit_calls == tally(events, Counted::Edit, n)
    &&& stats.write_calls == tally(events, Counted::Write, n)
    &&& stats.web_search_calls == tally(events, Counted::WebSearch, n)
    &&& stats.web_fetch_calls == tally(events, Counted::WebFetch, n)
    &&& stats.other_calls == tally(events, Counted::Other, n)
    &&& stats.repeated_actions == tally(events, Counted::Repeated, n)
    &&& stats.edit_failures == tally(events, Counted::EditFailures, n)
    &&& stats.stale_failures == tally(events, Counted::StaleFailures, n)
    &&& stats.compaction_count == tally(events, Counted::Compactions, n)
    &&& stats.input_tokens == tokens_in(events, n)
    &&& stats.output_tokens == tokens_out(events, n)
}

proof fn lemma_room(events: Seq<SessionEventView>, n: int)
    requires
        0 <= n,
    ensures
        forall|what: Counted| #[trigger] tally(events, what, n) <= n,
{
    assert forall|what: Counted| #[trigger] tally(events, what, n) <= n by {
        lemma_tally(events, what, n);
    }
}

fn count_end(
    stats: &mut EvalStats,
    events: &Vec<(i128, SessionEvent)>,
    i: usize,
    call_id: ToolCallId,
    status: ToolStatus,
    output: &str,
)
    requires
        i < events@.len(),
        events@[i as int].1 matches SessionEvent::ToolCompleted { call_id: id, outcome } && id
            == call_id && outcome.status == status && outcome.model_payload.output@ == output@,
        old(stats).repeated_actions < u32::MAX,
        old(stats).edit_failures < u32::MAX,
        old(stats).stale_failures < u32::MAX,
        told_up_to(*old(stats), untimed(events@), i as int),
    ensures
        told_up_to(*final(stats), untimed(events@), i + 1),
        final(stats).first_edit_time_ms == old(stats).first_edit_time_ms,
{
    let ghost all = untimed(events@);
    assert(all[i as int] == events@[i as int].1@);
    if contains(output, "repeated_without_progress") {
        stats.repeated_actions += 1;
    }
    let failed = match status {
        ToolStatus::Failed => true,
        _ => false,
    };
    if failed && is_edit_call(events, call_id, i) {
        stats.edit_failures += 1;
        if contains(output, "stale revision") {
            stats.stale_failures += 1;
        }
    }
}

/// The numbers of a session.
pub fn stats_from_events(events: &Vec<(i128, SessionEvent)>) -> (r: EvalStats)
    requires
        can_be_told(events@),
    ensures
        r == stats_of(events@),
{
    let ghost all = untimed(events@);
    let ghost n = events@.len() as int;
    let mut stats = EvalStats {
        turns: 0,
        tool_calls: 0,
        run_calls: 0,
        bash_calls: 0,
        read_calls: 0,
        search_calls: 0,
        edit_calls: 0,
        write_calls: 0,
        web_search_calls: 0,
        web_fetch_calls: 0,
        other_calls: 0,
        repeated_actions: 0,
        edit_failures: 0,
        stale_failures: 0,
        input_tokens: 0,
        output_tokens: 0,
        first_edit_time_ms: None,
        compaction_count: 0,
    };
    let mut start: Option<i128> = None;
    let mut first: Option<i128> = None;
    let mut i: usize = 0;
    while i < events.len()
        invariant
            i <= n == events@.len(),
            all == untimed(events@),
            can_be_told(events@),
            stats.first_edit_time_ms is None,
            told_up_to(stats, all, i as int),
            match last_message(all, i as int) {
                Some(k) => 0 <= k < i && start == Some(events@[k].0),
                None => start is None,
            },
            match first_edit(all, i as int) {
                Some(k) => 0 <= k < i && first == Some(events@[k].0),
                None => first is None,
            },
        decreases events@.len() - i,
    {
        proof {
            assert(all[i as int] == events@[i as int].1@);
            lemma_room(all, i as int);
            lemma_tokens(all, i + 1, n);
            assert(tally(all, Counted::Calls, i as int) <= i);
            assert(i < u32::MAX);
        }
        let time: i128 = events[i].0;
        match &events[i].1 {
            SessionEvent::UserSubmitted { content } => {
                start = Some(time);
            },
            SessionEvent::RunStarted { model, limits } => {
                assert(tally(all, Counted::Runs, i as int) <= i);
                stats.run_calls += 1;
            },
            SessionEvent::AssistantMessageCommitted { message } => {
                assert(tally(all, Counted::Turns, i as int) <= i);
                stats.turns += 1;
            },
            SessionEvent::ToolRequested { call } => {
                proof {
                    assert(tally(all, Counted::Bash, i as int) <= i);
                    assert(tally(all, Counted::Read, i as int) <= i);
                    assert(tally(all, Counted::Search, i as int) <= i);
                    assert(tally(all, Counted::Edit, i as int) <= i);
                    assert(tally(all, Counted::Write, i as int) <= i);
                    assert(tally(all, Counted::WebSearch, i as int) <= i);
                    assert(tally(all, Counted::WebFetch, i as int) <= i);
                    assert(tally(all, Counted::Other, i as int) <= i);
                }
                count_call(&mut stats, call.name.as_str());
            },
            SessionEvent::ToolStarted { call_id, recovery } => {
                if let Some(recovery) = recovery {
                    if first.is_none() && same(recovery.tool.as_str(), "edit") {
                        first = Some(time);
                    }
                }
            },
            SessionEvent::ToolCompleted { call_id, outcome } => {
                proof {
                    assert(tally(all, Counted::Repeated, i as int) <= i);
                    assert(tally(all, Counted::EditFailures, i as int) <= i);
                    assert(tally(all, Counted::StaleFailures, i as int) <= i);
                }
                count_end(
                    &mut stats,
                    events,
                    i,
                    *call_id,
                    outcome.status,
                    outcome.model_payload.output.as_str(),
                );
            },
            SessionEvent::CompactionCommitted { covered, summary } => {
                assert(tally(all, Counted::Compactions, i as int) <= i);
                stats.compaction_count += 1;
            },
            SessionEvent::RunCompleted { reason, usage } => {
                stats.input_tokens += usage.input_tokens;
                stats.output_tokens += usage.output_tokens;
            },
            _ => {},
        }
        i += 1;
    }
    if let Some(start) = start {
        if let Some(first) = first {
            let delay: i128 = first - start;
            let shown: u64 = if delay <= 0 {
                0
            } else {
                (delay as u128 % 0x1_0000_0000_0000_0000) as u64
            };
            stats.first_edit_time_ms = Some(shown);
        }
    }
    proof {
        lemma_room(all, n);
    }
    stats
}

} // verus!
