//! Replacing the older part of a conversation by a summary of it.
use crate::context::compaction_request_messages;
use crate::context::estimate_messages;
use crate::context::estimate_tokens;
use crate::context::is_significant_shrink;
use crate::context::keep_count;
use crate::context::keep_count_of;
use crate::context::messages_tokens;
use crate::context::parse_summary;
use crate::context::prune_messages;
use crate::context::pruned_messages;
use crate::context::shrinks;
use crate::context::is_summary;
use crate::context::tokens_of;
use crate::context::MIN_KEEP_TURNS;
use crate::context::SUMMARY_SCHEMA;
use crate::ids::EventId;
use crate::message::clone_messages;
use crate::message::extend_messages;
use crate::message::ChatMessage;
use crate::message::ChatMessageView;
use crate::provider::FinishReason;
use crate::provider::ModelRequest;
use crate::session::EventRange;
use crate::text::decimal;
use crate::text::decimal_of;
use crate::text::owned;
use crate::text::trim_of;
use crate::text::views;
use vstd::prelude::*;
use vstd::string::*;

verus! {

/// Why a compaction came to nothing.
#[derive(Debug, PartialEq, Eq)]
pub enum CompactionFailure {
    /// The model gave no valid summary, but this text.
    SummaryInvalid { raw: String },
    /// The summary is not enough smaller.
    NotSignificant,
    /// The provider failed.
    Provider(String),
    /// The session could not be written.
    Session(String),
}

/// What a [`CompactionFailure`] says.
pub enum CompactionFailureView {
    SummaryInvalid { raw: Seq<char> },
    NotSignificant,
    Provider(Seq<char>),
    Session(Seq<char>),
}

impl View for CompactionFailure {
    type V = CompactionFailureView;

    open spec fn view(&self) -> CompactionFailureView {
        match *self {
            CompactionFailure::SummaryInvalid { raw } => CompactionFailureView::SummaryInvalid {
                raw: raw@,
            },
            CompactionFailure::NotSignificant => CompactionFailureView::NotSignificant,
            CompactionFailure::Provider(text) => CompactionFailureView::Provider(text@),
            CompactionFailure::Session(text) => CompactionFailureView::Session(text@),
        }
    }
}

/// How many turns begin at position `k` or after it: a result of a tool begins none.
pub open spec fn turns_from(messages: Seq<ChatMessageView>, k: int) -> nat
    decreases messages.len() - k,
{
    if k < 0 || k >= messages.len() {
        0
    } else if messages[k] is Tool {
        turns_from(messages, k + 1)
    } else {
        turns_from(messages, k + 1) + 1
    }
}

/// `k`, moved back to where a turn begins and where [`MIN_KEEP_TURNS`] turns follow.
pub open spec fn turn_start(messages: Seq<ChatMessageView>, k: int) -> int
    decreases k,
{
    if k > 0 && (messages[k] is Tool || turns_from(messages, k) < MIN_KEEP_TURNS) {
        turn_start(messages, k - 1)
    } else {
        k
    }
}

/// Where the part that is kept begins: it holds a quarter of the messages, and at least
/// [`MIN_KEEP_TURNS`] complete turns.
pub open spec fn split_of(messages: Seq<ChatMessageView>) -> int {
    turn_start(messages, messages.len() - keep_count_of(messages.len()))
}

fn is_result(message: &ChatMessage) -> (r: bool)
    ensures
        r == (message@ is Tool),
{
    match message {
        ChatMessage::Tool { tool_call_id, name, content } => true,
        _ => false,
    }
}

fn count_turns(messages: &Vec<ChatMessage>, k: usize) -> (r: usize)
    requires
        k <= messages@.len(),
    ensures
        r == turns_from(views(messages@), k as int),
        r <= messages@.len() - k,
{
    let ghost all = views(messages@);
    let total: usize = messages.len();
    let mut i: usize = total;
    let mut turns: usize = 0;
    while i > k
        invariant
            k <= i <= total == messages@.len(),
            all == views(messages@),
            turns == turns_from(all, i as int),
            turns <= messages@.len() - i,
        decreases i,
    {
        i -= 1;
        assert(all[i as int] == messages@[i as int]@);
        if !is_result(&messages[i]) {
            turns += 1;
        }
    }
    turns
}

/// Where the part that is kept begins.
pub fn split_point(messages: &Vec<ChatMessage>) -> (r: usize)
    ensures
        r == split_of(views(messages@)),
        r <= messages@.len(),
{
    let total: usize = messages.len();
    let mut split: usize = total - keep_count(total);
    let ghost all = views(messages@);
    let mut turns: usize = count_turns(messages, split);
    while split > 0
        invariant
            all == views(messages@),
            split_of(all) == turn_start(all, split as int),
            split > 0 ==> split < messages@.len(),
            split <= total == messages@.len(),
            turns == turns_from(all, split as int),
            turns <= messages@.len() - split,
        decreases split,
    {
        assert(all[split as int] == messages@[split as int]@);
        if !is_result(&messages[split]) && turns >= MIN_KEEP_TURNS {
            return split;
        }
        split -= 1;
        assert(all[split as int] == messages@[split as int]@);
        if !is_result(&messages[split]) {
            turns += 1;
        }
    }
    split
}

/// A compaction that is to be made.
#[derive(Debug)]
pub struct CompactionPlan {
    /// Where the part that is kept begins.
    pub split: usize,
    /// What is to be summarised.
    pub history: Vec<ChatMessage>,
    /// What is kept as it is.
    pub recent: Vec<ChatMessage>,
}

/// The compaction of some messages: large tool outputs are pruned, and what stands before
/// the kept part is to be summarised.
pub fn plan_compaction(messages: &Vec<ChatMessage>) -> (r: CompactionPlan)
    ensures
        ({
            let pruned = pruned_messages(views(messages@));
            &&& r.split == split_of(pruned)
            &&& r.split <= pruned.len()
            &&& views(r.history@) == pruned.subrange(0, r.split as int)
            &&& views(r.recent@) == pruned.subrange(r.split as int, pruned.len() as int)
        }),
{
    let pruned = prune_messages(clone_messages(messages, 0, messages.len()));
    assert(views(messages@).subrange(0, messages@.len() as int) =~= views(messages@));
    let split = split_point(&pruned);
    let history = clone_messages(&pruned, 0, split);
    let recent = clone_messages(&pruned, split, pruned.len());
    CompactionPlan { split, history, recent }
}

/// What is kept does not begin with the result of a tool whose call is summarised away, and
/// holds at least a quarter of the messages and two complete turns, unless everything is
/// kept.
pub proof fn kept_part_is_whole(messages: Seq<ChatMessageView>)
    ensures
        0 <= split_of(messages) <= messages.len(),
        messages.len() - split_of(messages) >= keep_count_of(messages.len()),
        0 < split_of(messages) ==> {
            &&& split_of(messages) < messages.len()
            &&& !(messages[split_of(messages)] is Tool)
            &&& turns_from(messages, split_of(messages)) >= MIN_KEEP_TURNS
        },
{
    lemma_turn_start(messages, messages.len() - keep_count_of(messages.len()));
}

proof fn lemma_turn_start(messages: Seq<ChatMessageView>, k: int)
    requires
        k >= 0,
    ensures
        0 <= turn_start(messages, k) <= k,
        turn_start(messages, k) > 0 ==> !(messages[turn_start(messages, k)] is Tool)
            && turns_from(messages, turn_start(messages, k)) >= MIN_KEEP_TURNS,
    decreases k,
{
    if k > 0 && (messages[k] is Tool || turns_from(messages, k) < MIN_KEEP_TURNS) {
        lemma_turn_start(messages, k - 1);
    }
}

/// What a compaction keeps is no more than it has to keep: every later place breaks into a
/// turn, or leaves fewer messages or fewer turns than have to be kept.
pub proof fn no_more_is_kept_than_needed(messages: Seq<ChatMessageView>, k: int)
    requires
        split_of(messages) < k <= messages.len(),
    ensures
        messages.len() - k < keep_count_of(messages.len()) || messages[k] is Tool || turns_from(
            messages,
            k,
        ) < MIN_KEEP_TURNS,
{
    let start = messages.len() - keep_count_of(messages.len());
    if k <= start {
        lemma_passed(messages, start, k);
    }
}

proof fn lemma_passed(messages: Seq<ChatMessageView>, from: int, k: int)
    requires
        turn_start(messages, from) < k <= from,
        0 <= from,
    ensures
        messages[k] is Tool || turns_from(messages, k) < MIN_KEEP_TURNS,
    decreases from,
{
    lemma_turn_start(messages, from);
    if k < from {
        lemma_passed(messages, from - 1, k);
    }
}

/// The first start above 0 at or after position `k`, if there is one.
pub open spec fn first_start(starts: Seq<u64>, k: int) -> Option<u64>
    decreases starts.len() - k,
{
    if k < 0 || k >= starts.len() {
        None
    } else if starts[k] > 0 {
        Some(starts[k])
    } else {
        first_start(starts, k + 1)
    }
}

/// The event at which what a summary covers ends: the first event of the kept messages.
/// Where the session does not give the same messages, or none of the kept ones comes from
/// an event, that is the next event.
pub open spec fn covered_end(next_seq: u64, split: int, total: int, starts: Seq<u64>) -> u64 {
    if starts.len() == total {
        match first_start(starts, split) {
            Some(start) => start,
            None => next_seq,
        }
    } else {
        next_seq
    }
}

/// The events that a summary covers. `seq` is the number of the last event, `starts` the
/// number of the first event of each message that the session gives, 0 where a message
/// comes from none; `total` is the number of messages.
pub fn covered_range(seq: u64, split: usize, total: usize, starts: &Vec<u64>) -> (r: Result<
    EventRange,
    CompactionFailure,
>)
    ensures
        match r {
            Ok(range) => seq < u64::MAX && range.start == EventId(1) && range.end == EventId(
                covered_end((seq + 1) as u64, split as int, total as int, starts@) as u128,
            ),
            Err(failure) => seq == u64::MAX && failure@ == CompactionFailureView::Session(
                "session seq 已耗尽"@,
            ),
        },
{
    if seq == u64::MAX {
        return Err(CompactionFailure::Session(owned("session seq 已耗尽")));
    }
    let next: u64 = seq + 1;
    let mut end: u64 = next;
    if starts.len() == total {
        let mut k: usize = split;
        while k < starts.len()
            invariant_except_break
                first_start(starts@, k as int) == first_start(starts@, split as int),
                end == next,
            invariant
                starts@.len() == total,
            ensures
                end == covered_end(next, split as int, total as int, starts@),
            decreases starts@.len() - k,
        {
            if starts[k] > 0 {
                end = starts[k];
                break;
            }
            k += 1;
        }
    }
    Ok(EventRange { start: EventId(1), end: EventId(end as u128) })
}

/// How many tokens a summary may have.
pub const SUMMARY_MAX_TOKENS: u32 = 2048;

/// Whether a request asks for a summary: it says what to do and what to summarise, and it
/// has no tools.
pub open spec fn asks_for_summary(
    history: Seq<ChatMessageView>,
    model: Seq<char>,
    reasoning: Option<String>,
    context_window: Option<u64>,
    request: ModelRequest,
) -> bool {
    &&& request.model@ == model
    &&& views(request.messages@) == seq![ChatMessageView::System(SUMMARY_SCHEMA@)] + history
    &&& request.tools@.len() == 0
    &&& request.max_output_tokens == Some(SUMMARY_MAX_TOKENS)
    &&& request.reasoning == reasoning
    &&& request.context_window == context_window
}

/// The request for a summary: what to do and what to summarise, and no tools.
pub fn compaction_request(
    history: &Vec<ChatMessage>,
    model: &str,
    reasoning: &Option<String>,
    context_window: Option<u64>,
) -> (r: ModelRequest)
    ensures
        asks_for_summary(views(history@), model@, *reasoning, context_window, r),
{
    ModelRequest {
        model: owned(model),
        messages: compaction_request_messages(history),
        tools: Vec::new(),
        max_output_tokens: Some(SUMMARY_MAX_TOKENS),
        reasoning: crate::outcome::clone_text(reasoning),
        context_window,
    }
}

/// The name of a finish reason.
pub open spec fn finish_name_of(reason: FinishReason) -> Seq<char> {
    match reason {
        FinishReason::Stop => "Stop"@,
        FinishReason::ToolCalls => "ToolCalls"@,
        FinishReason::Length => "Length"@,
        FinishReason::ContentFilter => "ContentFilter"@,
        FinishReason::Error => "Error"@,
    }
}

/// The name of a finish reason.
pub fn finish_name(reason: FinishReason) -> (r: &'static str)
    ensures
        r@ == finish_name_of(reason),
{
    match reason {
        FinishReason::Stop => "Stop",
        FinishReason::ToolCalls => "ToolCalls",
        FinishReason::Length => "Length",
        FinishReason::ContentFilter => "ContentFilter",
        FinishReason::Error => "Error",
    }
}

/// The summary of a text, or the empty text.
pub open spec fn summary_of(raw: Seq<char>) -> Seq<char> {
    if is_summary(trim_of(raw)) {
        trim_of(raw)
    } else {
        Seq::empty()
    }
}

/// What the answer to a request for a summary comes to: an answer that was cut short or
/// calls tools counts as a failure of the provider; then the summary has to be complete
/// and enough smaller than what it stands for.
pub open spec fn summary_result(
    history: Seq<ChatMessageView>,
    raw: Seq<char>,
    finish: FinishReason,
    calls: int,
) -> Result<Seq<char>, CompactionFailureView> {
    if finish != FinishReason::Stop || calls > 0 {
        Err(
            CompactionFailureView::Provider(
                "invalid compaction response: finish="@ + finish_name_of(finish)
                    + ", tool_calls="@ + decimal_of(calls as nat),
            ),
        )
    } else if summary_of(raw).len() == 0 {
        Err(CompactionFailureView::SummaryInvalid { raw })
    } else if !shrinks(messages_tokens(history), tokens_of(summary_of(raw)) as int) {
        Err(CompactionFailureView::NotSignificant)
    } else {
        Ok(summary_of(raw))
    }
}

/// What the answer to a request for a summary comes to.
pub fn read_summary(
    history: &Vec<ChatMessage>,
    raw: String,
    finish: FinishReason,
    calls: usize,
) -> (r: Result<String, CompactionFailure>)
    ensures
        match r {
            Ok(summary) => summary_result(views(history@), raw@, finish, calls as int) == Ok::<
                Seq<char>,
                CompactionFailureView,
            >(summary@),
            Err(failure) => summary_result(views(history@), raw@, finish, calls as int) == Err::<
                Seq<char>,
                CompactionFailureView,
            >(failure@),
        },
{
    if finish != FinishReason::Stop || calls > 0 {
        let count = decimal(calls as u128);
        return Err(
            CompactionFailure::Provider(
                owned("invalid compaction response: finish=").concat(finish_name(finish)).concat(
                    ", tool_calls=",
                ).concat(count.as_str()),
            ),
        );
    }
    let summary = parse_summary(raw.as_str());
    if summary.as_str().is_empty() {
        return Err(CompactionFailure::SummaryInvalid { raw });
    }
    let summary_tokens: u64 = estimate_tokens(summary.as_str());
    let original_tokens: u64 = estimate_messages(history);
    if !is_significant_shrink(original_tokens, summary_tokens) {
        return Err(CompactionFailure::NotSignificant);
    }
    Ok(summary)
}

/// What stands before a summary in a conversation.
pub const SUMMARY_HEAD: &'static str = "（此前会话的压缩摘要，见 CompactionCommitted）\n";

/// The conversation after a compaction: the summary, then what was kept.
pub open spec fn compacted_messages(
    summary: Seq<char>,
    recent: Seq<ChatMessageView>,
) -> Seq<ChatMessageView> {
    seq![ChatMessageView::User(SUMMARY_HEAD@ + summary)] + recent
}

/// The conversation after a compaction.
pub fn rebuild_messages(summary: &str, recent: &Vec<ChatMessage>) -> (r: Vec<ChatMessage>)
    ensures
        views(r@) == compacted_messages(summary@, views(recent@)),
{
    let mut out: Vec<ChatMessage> = Vec::new();
    out.push(ChatMessage::User(owned(SUMMARY_HEAD).concat(summary)));
    assert(views(out@) =~= seq![ChatMessageView::User(SUMMARY_HEAD@ + summary@)]);
    extend_messages(&mut out, recent);
    out
}

/// A compaction that succeeds has a summary of every field, less than half as large as
/// what it replaces, and keeps the recent messages as they are at the end.
pub proof fn compaction_shrinks_and_keeps(
    history: Seq<ChatMessageView>,
    recent: Seq<ChatMessageView>,
    raw: Seq<char>,
    finish: FinishReason,
    calls: int,
    summary: Seq<char>,
)
    requires
        summary_result(history, raw, finish, calls) == Ok::<Seq<char>, CompactionFailureView>(
            summary,
        ),
    ensures
        is_summary(summary),
        2 * tokens_of(summary) < messages_tokens(history),
        compacted_messages(summary, recent).subrange(1, recent.len() as int + 1) == recent,
{
    assert(compacted_messages(summary, recent).subrange(1, recent.len() as int + 1) =~= recent);
}

} // verus!
