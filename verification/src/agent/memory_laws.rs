//! What a model is reminded of: the session retold, a summary in the place of the past, the
//! plan, and what is said in front.

use crate::agent::compaction::CompactionFailureView;
use crate::agent::compaction::asks_for_summary;
use crate::agent::compaction::compacted_messages;
use crate::agent::compaction::covered_end;
use crate::agent::compaction::first_start;
use crate::agent::compaction::kept_part_is_whole;
use crate::agent::compaction::no_more_is_kept_than_needed;
use crate::agent::compaction::split_of;
use crate::agent::compaction::summary_result;
use crate::agent::compaction::turns_from;
use crate::agent::prompt::PromptParts;
use crate::agent::prompt::WorkspaceIdentity;
use crate::agent::prompt::context_of;
use crate::agent::prompt::interrupted_messages;
use crate::agent::prompt::plan_json;
use crate::agent::prompt::system_prompt_of;
use crate::agent::prompt::with_plan;
use crate::agent::prompt::workspace_text;
use crate::agent::recovery::longest_replay;
use crate::agent::recovery::overlap_of;
use crate::agent::recovery::replays;
use crate::agent::web_summary::asks_about_page;
use crate::agent::web_summary::header_from;
use crate::agent::web_summary::is_header;
use crate::agent::web_summary::is_worth_a_summary;
use crate::agent::web_summary::line_with;
use crate::agent::web_summary::summarised;
use crate::agent::web_summary::summary_model_of;
use crate::agent::web_summary::url_of;
use crate::agent::web_summary::with_output;
use crate::agent::write_ahead::Change;
use crate::agent::write_ahead::record_of;
use crate::context::is_summary;
use crate::context::messages_tokens;
use crate::context::overflows;
use crate::context::summary_request_of;
use crate::context::tokens_of;
use crate::context_laws::text_of;
use crate::ids::ToolCallId;
use crate::json::JsonModel;
use crate::json::member_of;
use crate::message::ChatMessageView;
use crate::outcome::OutcomeView;
use crate::outcome::StoredToolOutcome;
use crate::outcome::ToolStatus;
use crate::plan::PlanItemView;
use crate::plan::PlanStatus;
use crate::plan::PlanView;
use crate::plan::active_lines;
use crate::plan::completed_count;
use crate::plan::is_active;
use crate::plan::plan_status_text;
use crate::plan::snapshot_of;
use crate::provider::FinishReason;
use crate::provider::ModelRequest;
use crate::provider::openai_compat::body_json;
use crate::provider::wire_laws::a_request_is_written_as_it_is;
use crate::replay::call_of;
use crate::replay::conversation_of;
use crate::replay::events_only_add;
use crate::replay::is_covered;
use crate::replay::last_plan;
use crate::replay::last_summary;
use crate::replay::summaries_are_of_the_past;
use crate::session::EventRange;
use crate::session::SessionEventView;
use crate::text::decimal_of;
use crate::text::has_prefix;
use crate::text::has_suffix;
use crate::text::has_text;
use crate::text::lines_of;
use crate::text::opt_view;
use crate::text::trim_of;
use crate::text::views;
use crate::text_laws::a_part_occurs;
use crate::text_laws::parts_of_parts_occur;
use vstd::prelude::*;
use vstd::string::*;
use vstd::utf8::*;

verus! {

/// What is written to a session is retold as it was said: what the user said, what the model
/// answered and asked for, and of each call that ended what it came to, under the call's own
/// identifier and name. Nothing else that is written adds to the conversation.
pub proof fn a_session_is_retold_as_it_was(
    events: Seq<SessionEventView>,
    event: SessionEventView,
)
    requires
        summaries_are_of_the_past(events),
        !(event is CompactionCommitted),
    ensures
        conversation_of(events.push(event)) == match event {
            SessionEventView::UserSubmitted { content } => conversation_of(events).push(
                ChatMessageView::User(content),
            ),
            SessionEventView::AssistantMessageCommitted { content, tool_calls } =>
                conversation_of(events).push(ChatMessageView::Assistant { content, tool_calls }),
            SessionEventView::ToolCompleted { call_id, outcome } => match call_of(
                events,
                call_id,
            ) {
                Some(call) => conversation_of(events).push(
                    ChatMessageView::Tool {
                        tool_call_id: call.provider_id,
                        name: call.name,
                        content: outcome.model_payload.output,
                    },
                ),
                None => conversation_of(events),
            },
            _ => conversation_of(events),
        },
{
    events_only_add(events, event);
}

/// A session in which nothing was written is an empty conversation.
pub proof fn an_empty_session_is_silent()
    ensures
        conversation_of(Seq::<SessionEventView>::empty()).len() == 0,
        summaries_are_of_the_past(Seq::<SessionEventView>::empty()),
{
}

/// A call is known by the last request under its identifier, whatever else was written.
pub proof fn a_call_is_known_by_its_request(
    events: Seq<SessionEventView>,
    event: SessionEventView,
    id: ToolCallId,
)
    ensures
        event is ToolRequested && event->ToolRequested_call.call_id == id ==> call_of(
            events.push(event),
            id,
        ) == Some(event->ToolRequested_call),
        !(event is ToolRequested) || event->ToolRequested_call.call_id != id ==> call_of(
            events.push(event),
            id,
        ) == call_of(events, id),
        call_of(Seq::<SessionEventView>::empty(), id) is None,
{
    assert(events.push(event).drop_last() =~= events);
}

/// The plan is the last one that was written, and so is the summary.
pub proof fn the_last_word_counts(events: Seq<SessionEventView>, event: SessionEventView)
    ensures
        last_plan(events.push(event)) == if event is PlanReplaced {
            Some(event->PlanReplaced_plan)
        } else {
            last_plan(events)
        },
        last_summary(events.push(event)) == if event is CompactionCommitted {
            Some((event->CompactionCommitted_covered, event->CompactionCommitted_summary))
        } else {
            last_summary(events)
        },
{
    assert(events.push(event).drop_last() =~= events);
}

/// A summary covers the events of its range, the first with and the last without.
pub proof fn what_a_summary_covers(covered: EventRange, text: Seq<char>, number: int)
    ensures
        is_covered(Some((covered, text)), number) == (covered.start.0 <= number && number
            < covered.end.0),
        !is_covered(None, number),
{
}

/// A compaction keeps a quarter of the messages at the least, from a message on that is no
/// result of a call, so that no result is kept without its call, and with another such
/// message after it.
pub proof fn the_recent_part_is_kept(messages: Seq<ChatMessageView>)
    ensures
        0 <= split_of(messages) <= messages.len(),
        4 * (messages.len() - split_of(messages)) >= messages.len(),
        0 < split_of(messages) ==> {
            &&& split_of(messages) < messages.len()
            &&& !(messages[split_of(messages)] is Tool)
            &&& exists|i: int|
                split_of(messages) < i < messages.len() && !((#[trigger] messages[i]) is Tool)
        },
{
    kept_part_is_whole(messages);
    let split = split_of(messages);
    if 0 < split {
        lemma_turns(messages, split + 1);
        assert(turns_from(messages, split) == turns_from(messages, split + 1) + 1);
    }
}

proof fn lemma_turns(messages: Seq<ChatMessageView>, k: int)
    requires
        0 <= k <= messages.len(),
    ensures
        turns_from(messages, k) >= 1 ==> exists|i: int|
            k <= i < messages.len() && !((#[trigger] messages[i]) is Tool),
        turns_from(messages, k) == 0 ==> forall|i: int|
            k <= i < messages.len() ==> (#[trigger] messages[i]) is Tool,
    decreases messages.len() - k,
{
    if k < messages.len() {
        lemma_turns(messages, k + 1);
        if messages[k] is Tool {
            if turns_from(messages, k) == 0 {
                assert forall|i: int| k <= i < messages.len() implies (
                #[trigger] messages[i]) is Tool by {
                    if i > k {
                        assert(messages[i] is Tool);
                    }
                }
            }
        }
    }
}

/// A compaction keeps no more than it must: a later start would leave less than a quarter,
/// begin with a result, or leave but one message that is none.
pub proof fn no_later_start_would_do(messages: Seq<ChatMessageView>, k: int)
    requires
        split_of(messages) < k < messages.len(),
    ensures
        4 * (messages.len() - k) < messages.len() || messages[k] is Tool || (forall|i: int|
            k < i < messages.len() ==> (#[trigger] messages[i]) is Tool),
{
    kept_part_is_whole(messages);
    no_more_is_kept_than_needed(messages, k);
    if !(messages[k] is Tool) && turns_from(messages, k) < 2 {
        lemma_turns(messages, k + 1);
        assert(turns_from(messages, k) == turns_from(messages, k + 1) + 1);
    }
}

/// A summary covers what comes before the first message that is kept and stands in the
/// session, and all there is where none does.
pub proof fn where_a_summary_ends(next: u64, split: int, starts: Seq<u64>, k: int)
    requires
        0 <= split <= k < starts.len(),
        starts[k] > 0,
        forall|i: int| split <= i < k ==> #[trigger] starts[i] == 0,
    ensures
        covered_end(next, split, starts.len() as int, starts) == starts[k],
{
    lemma_first_start(starts, split, k);
}

proof fn lemma_first_start(starts: Seq<u64>, split: int, k: int)
    requires
        0 <= split <= k < starts.len(),
        starts[k] > 0,
        forall|i: int| split <= i < k ==> #[trigger] starts[i] == 0,
    ensures
        first_start(starts, split) == Some(starts[k]),
    decreases k - split,
{
    if split < k {
        assert(starts[split] == 0);
        lemma_first_start(starts, split + 1, k);
    }
}

/// Where no kept message stands in the session, or it is not known where they stand, a
/// summary covers all that was written.
pub proof fn a_summary_of_everything(next: u64, split: int, total: int, starts: Seq<u64>)
    requires
        0 <= split,
    ensures
        starts.len() != total ==> covered_end(next, split, total, starts) == next,
        (forall|i: int| split <= i < starts.len() ==> #[trigger] starts[i] == 0) ==> covered_end(
            next,
            split,
            total,
            starts,
        ) == next,
{
    if forall|i: int| split <= i < starts.len() ==> #[trigger] starts[i] == 0 {
        lemma_no_start(starts, split);
    }
}

proof fn lemma_no_start(starts: Seq<u64>, split: int)
    requires
        0 <= split,
        forall|i: int| split <= i < starts.len() ==> #[trigger] starts[i] == 0,
    ensures
        first_start(starts, split) is None,
    decreases starts.len() - split,
{
    if split < starts.len() {
        assert(starts[split] == 0);
        lemma_no_start(starts, split + 1);
    }
}

/// The request for a summary shows all of the history behind what to do, in its order, and
/// offers no tools.
pub proof fn a_summary_is_asked_of_everything(
    history: Seq<ChatMessageView>,
    model: Seq<char>,
    reasoning: Option<String>,
    window: Option<u64>,
    request: ModelRequest,
    k: int,
)
    requires
        asks_for_summary(history, model, reasoning, window, request),
        0 <= k < history.len(),
    ensures
        request.model@ == model,
        request.messages@.len() == history.len() + 1,
        request.messages@[0]@ is System,
        request.messages@[k + 1]@ == history[k],
        member_of(body_json(request), "tools"@) is None,
        member_of(body_json(request), "max_tokens"@) == Some(JsonModel::Number(decimal_of(2048))),
        request.reasoning == reasoning,
        request.context_window == window,
{
    let all = views(request.messages@);
    assert(all.len() == history.len() + 1);
    assert(all[0] == request.messages@[0]@);
    assert(all[k + 1] == request.messages@[k + 1]@);
    a_request_is_written_as_it_is(request, 0);
}

/// A summary is taken as the model gave it, without the white space around it; and only from
/// an answer that came to its end without calls, that has the form of a summary, and that is
/// less than half of what it stands for.
pub proof fn when_a_summary_is_taken(
    history: Seq<ChatMessageView>,
    raw: Seq<char>,
    finish: FinishReason,
    calls: int,
)
    ensures
        ({
            let result = summary_result(history, raw, finish, calls);
            &&& result is Ok ==> result->Ok_0 == trim_of(raw) && finish == FinishReason::Stop
                && calls <= 0 && is_summary(trim_of(raw)) && 2 * tokens_of(trim_of(raw))
                < messages_tokens(history)
            &&& finish != FinishReason::Stop || calls > 0 ==> result is Err && result->Err_0
                is Provider
            &&& finish == FinishReason::Stop && calls == 0 && !is_summary(trim_of(raw)) ==> result
                == Err::<Seq<char>, _>(CompactionFailureView::SummaryInvalid { raw })
            &&& finish == FinishReason::Stop && calls == 0 && is_summary(trim_of(raw)) && trim_of(
                raw,
            ).len() > 0 && 4 * tokens_of(trim_of(raw)) < messages_tokens(history) ==> result
                == Ok::<_, CompactionFailureView>(trim_of(raw))
        }),
{
    crate::context_laws::tokens_measure_the_length(trim_of(raw));
    crate::context_laws::what_a_summary_must_save(
        if messages_tokens(history) > 0 {
            messages_tokens(history)
        } else {
            1
        },
        tokens_of(trim_of(raw)) as int,
    );
}

/// After a compaction the conversation is the summary, told by the user, and what was recent
/// as it was.
pub proof fn a_summary_comes_first(summary: Seq<char>, recent: Seq<ChatMessageView>)
    ensures
        ({
            let messages = compacted_messages(summary, recent);
            &&& messages.len() == recent.len() + 1
            &&& messages[0] is User
            &&& has_suffix(text_of(messages[0]), summary)
            &&& forall|i: int| 0 <= i < recent.len() ==> messages[i + 1] == #[trigger] recent[i]
        }),
{
    let text = text_of(compacted_messages(summary, recent)[0]);
    assert(text.subrange(text.len() - summary.len(), text.len() as int) =~= summary);
}

proof fn lemma_longest_is_longest(existing: Seq<char>, replayed: Seq<char>, bound: int)
    ensures
        ({
            let r = longest_replay(existing, replayed, bound);
            &&& 0 <= r
            &&& bound >= 0 ==> r <= bound
            &&& r > 0 ==> replays(existing, replayed, r)
            &&& forall|m: int| r < m <= bound ==> !#[trigger] replays(existing, replayed, m)
        }),
    decreases bound,
{
    if bound > 0 && !replays(existing, replayed, bound) {
        lemma_longest_is_longest(existing, replayed, bound - 1);
    }
}

/// What counts as repeated is repeated: the bytes are the last of the one text and the first
/// of the other, unless the other repeats the whole or a part from its start. It is as much
/// as can be, and at least 8 bytes.
pub proof fn only_what_is_repeated_counts(existing: Seq<char>, replayed: Seq<char>)
    requires
        !has_prefix(replayed, existing),
        !has_prefix(existing, replayed),
    ensures
        ({
            let r = overlap_of(existing, replayed);
            let e = encode_utf8(existing);
            let p = encode_utf8(replayed);
            &&& r == 0 || r >= 8
            &&& r > 0 ==> r <= e.len() && r <= p.len() && e.subrange(e.len() - r, e.len() as int)
                == p.subrange(0, r)
            &&& forall|m: int|
                r < m <= p.len() && m >= 8 ==> !#[trigger] replays(existing, replayed, m)
        }),
{
    let whole = encode_utf8(replayed).len() as int;
    lemma_longest_is_longest(existing, replayed, whole);
    let empty = Seq::<char>::empty();
    if existing.len() == 0 {
        assert(replayed.subrange(0, 0) =~= existing);
    }
    if replayed.len() == 0 {
        assert(existing.subrange(0, 0) =~= replayed);
    }
}

/// A text that is repeated whole counts whole, and so does a start of it.
pub proof fn a_whole_repetition_counts_whole(existing: Seq<char>, more: Seq<char>)
    requires
        existing.len() > 0,
    ensures
        overlap_of(existing, existing + more) == encode_utf8(existing).len(),
        more.len() > 0 ==> overlap_of(existing + more, existing) == encode_utf8(existing).len(),
        overlap_of(Seq::<char>::empty(), existing) == 0,
        overlap_of(existing, Seq::<char>::empty()) == 0,
{
    let whole = existing + more;
    assert(whole.subrange(0, existing.len() as int) =~= existing);
    if more.len() > 0 {
        assert(!has_prefix(existing, whole));
    }
}

/// A record of a change names the tool, what it changes, what is expected there, and where
/// the new and the old contents are put; a named revision counts as it is named.
pub proof fn a_record_tells_how_to_undo(change: Change)
    ensures
        match change {
            Change::Edit { target, revision, token, candidate, temp, backup } => {
                let record = record_of(change);
                &&& record.tool == "edit"@
                &&& record.target_path == target@
                &&& token is Some ==> record.expected_revision == token->0@
                &&& token is None ==> record.expected_revision == revision@
                &&& record.candidate_revision == opt_view(candidate)
                &&& record.temp_path == temp@
                &&& record.backup_path == opt_view(backup)
            },
            Change::Write { target, token, new_revision, temp, backup } => {
                let record = record_of(change);
                &&& record.tool == "write"@
                &&& record.target_path == target@
                &&& token is Some ==> record.expected_revision == token->0@
                &&& token is None ==> record.expected_revision.len() == 0
                &&& record.candidate_revision == Some(new_revision@)
                &&& record.temp_path == temp@
                &&& record.backup_path == opt_view(backup)
            },
            Change::Bash { command } => {
                let record = record_of(change);
                &&& record.tool == "bash"@
                &&& record.target_path == command@
                &&& record.candidate_revision is None
                &&& record.backup_path is None
            },
        },
{
}

/// Every step of a plan that is still open is told, with its state and in its own line, and
/// no step that is done or given up.
pub proof fn open_steps_are_told(items: Seq<PlanItemView>, item: PlanItemView, k: int)
    ensures
        0 <= k < items.len() && items[k].status != PlanStatus::Completed && items[k].status
            != PlanStatus::Cancelled ==> has_text(
            active_lines(items),
            "["@ + plan_status_text(items[k].status) + "] "@ + items[k].text + "\n"@,
        ),
        item.status == PlanStatus::Completed || item.status == PlanStatus::Cancelled
            ==> active_lines(items.push(item)) == active_lines(items),
        completed_count(items.push(item)) == completed_count(items) + if item.status
            == PlanStatus::Completed {
            1int
        } else {
            0
        },
        completed_count(Seq::<PlanItemView>::empty()) == 0,
    decreases items.len(),
{
    assert(items.push(item).drop_last() =~= items);
    assert(active_lines(items) + Seq::<char>::empty() =~= active_lines(items));
    if 0 <= k < items.len() && is_active(items[k].status) {
        let last = items.last();
        let none = Seq::<char>::empty();
        let front = active_lines(items.drop_last());
        let line = "["@ + plan_status_text(items[k].status) + "] "@ + items[k].text + "\n"@;
        if k == items.len() - 1 {
            a_part_occurs(front, line, none);
            assert(front + line + none =~= active_lines(items));
        } else {
            open_steps_are_told(items.drop_last(), item, k);
            let tail = if is_active(last.status) {
                "["@ + plan_status_text(last.status) + "] "@ + last.text + "\n"@
            } else {
                none
            };
            parts_of_parts_occur(none, front, tail, line);
            assert(none + front + tail =~= active_lines(items));
        }
    }
}

/// A plan is told where a step of it is still open, and not otherwise; and with the open
/// steps it is told how many of all are done.
pub proof fn a_plan_is_told_while_it_is_open(plan: PlanView)
    ensures
        (snapshot_of(Some(plan)).len() > 0) == (exists|i: int|
            0 <= i < plan.items.len() && (#[trigger] plan.items[i]).status
                != PlanStatus::Completed && plan.items[i].status != PlanStatus::Cancelled),
        snapshot_of(Some(plan)).len() > 0 ==> has_prefix(
            snapshot_of(Some(plan)),
            active_lines(plan.items),
        ) && has_suffix(
            snapshot_of(Some(plan)),
            decimal_of(completed_count(plan.items)) + "/"@ + decimal_of(plan.items.len()),
        ),
        snapshot_of(None).len() == 0,
{
    let text = snapshot_of(Some(plan));
    let open = exists|i: int|
        0 <= i < plan.items.len() && (#[trigger] plan.items[i]).status != PlanStatus::Completed
            && plan.items[i].status != PlanStatus::Cancelled;
    if open {
        let i = choose|i: int|
            0 <= i < plan.items.len() && (#[trigger] plan.items[i]).status
                != PlanStatus::Completed && plan.items[i].status != PlanStatus::Cancelled;
        assert(is_active(plan.items[i].status));
        reveal_strlit("completed: ");
        assert(text.len() > 0);
    }
    if crate::plan::has_active(plan.items) {
        let i = choose|i: int| 0 <= i < plan.items.len() && is_active(#[trigger] plan.items[i].status);
        assert(plan.items[i].status != PlanStatus::Completed);
        let lines = active_lines(plan.items);
        let count = decimal_of(completed_count(plan.items)) + "/"@ + decimal_of(plan.items.len());
        assert(text.subrange(0, lines.len() as int) =~= lines);
        assert(text.subrange(text.len() - count.len(), text.len() as int) =~= count);
    }
}

/// A plan that the conversation does not hold is added behind it as a call and its result,
/// which answer each other; a conversation that holds one, or a plan that is done, adds
/// nothing.
pub proof fn a_plan_is_added_as_a_call(
    messages: Seq<ChatMessageView>,
    plan: Option<PlanView>,
    call_id: ToolCallId,
)
    ensures
        ({
            let after = with_plan(messages, plan, call_id);
            let n = messages.len() as int;
            &&& after.take(n) == messages
            &&& after.len() == n || after.len() == n + 2
            &&& plan is None ==> after == messages
            &&& snapshot_of(plan).len() == 0 ==> after == messages
            &&& (forall|i: int| 0 <= i < n ==> !((#[trigger] messages[i]) is Tool)) && snapshot_of(
                plan,
            ).len() > 0 ==> after.len() == n + 2
            &&& after.len() == n + 2 ==> {
                &&& after[n] is Assistant
                &&& after[n]->tool_calls.len() == 1
                &&& after[n]->tool_calls[0].call_id == call_id
                &&& after[n]->tool_calls[0].name == "update_plan"@
                &&& after[n + 1] is Tool
                &&& after[n + 1]->tool_call_id == after[n]->tool_calls[0].provider_id
                &&& after[n + 1]->name == "update_plan"@
                &&& has_suffix(text_of(after[n + 1]), snapshot_of(plan))
            }
        }),
{
    let after = with_plan(messages, plan, call_id);
    let n = messages.len() as int;
    assert(after.take(n) =~= messages);
    if after.len() == n + 2 {
        let text = text_of(after[n + 1]);
        let tail = snapshot_of(plan);
        assert(text.subrange(text.len() - tail.len(), text.len() as int) =~= tail);
    }
}

/// A plan is written with its steps in their order, each with its text and its state.
pub proof fn a_plan_is_written_whole(plan: PlanView, k: int)
    requires
        0 <= k < plan.items.len(),
    ensures
        ({
            let items = member_of(plan_json(plan), "items"@);
            let item = items->0->Array_0[k];
            &&& items is Some
            &&& items->0 is Array
            &&& items->0->Array_0.len() == plan.items.len()
            &&& member_of(item, "text"@) == Some(JsonModel::Text(plan.items[k].text))
            &&& member_of(item, "status"@) == Some(
                JsonModel::Text(plan_status_text(plan.items[k].status)),
            )
            &&& (member_of(plan_json(plan), "explanation"@) is Some) == (plan.explanation is Some)
        }),
{
    reveal_strlit("items");
    reveal_strlit("text");
    reveal_strlit("status");
    reveal_strlit("explanation");
    assert("items"@.len() == 5);
    assert("text"@.len() == 4);
    assert("status"@.len() == 6);
    assert("explanation"@.len() == 11);
}

/// The system prompt begins with what is built in and goes on with the rules; what is said
/// for one request alone is at its end, and not said otherwise.
pub proof fn the_prompt_tells_everything(parts: PromptParts, ephemeral: Option<Seq<char>>)
    ensures
        ({
            let prompt = system_prompt_of(parts, ephemeral);
            &&& has_prefix(prompt, parts.base@)
            &&& parts.extra is Some ==> has_prefix(
                prompt,
                parts.base@ + "\n\n"@ + parts.extra->0@,
            )
            &&& ephemeral is Some ==> has_suffix(prompt, ephemeral->0) && has_prefix(
                prompt,
                system_prompt_of(parts, None),
            )
            &&& parts.extra is None && parts.skills@.len() == 0 && ephemeral is None ==> prompt
                == parts.base@
        }),
{
    let prompt = system_prompt_of(parts, ephemeral);
    assert(prompt.subrange(0, parts.base@.len() as int) =~= parts.base@);
    if parts.extra is Some {
        let front = parts.base@ + "\n\n"@ + parts.extra->0@;
        assert(prompt.subrange(0, front.len() as int) =~= front);
    }
    if ephemeral is Some {
        let tail = ephemeral->0;
        assert(prompt.subrange(prompt.len() - tail.len(), prompt.len() as int) =~= tail);
        let front = system_prompt_of(parts, None);
        assert(prompt.subrange(0, front.len() as int) =~= front);
    }
    if parts.extra is None && parts.skills@.len() == 0 && ephemeral is None {
        assert(prompt =~= parts.base@);
    }
}

/// Every skill is told by its name and what it is for.
pub proof fn skills_are_told(parts: PromptParts, ephemeral: Option<Seq<char>>, k: int)
    requires
        0 <= k < parts.skills@.len(),
    ensures
        has_text(
            system_prompt_of(parts, ephemeral),
            parts.skills@[k].name@ + " — "@ + parts.skills@[k].description@ + "\n"@,
        ),
{
    let sought = parts.skills@[k].name@ + " — "@ + parts.skills@[k].description@ + "\n"@;
    lemma_skill_line(parts.skills@, k);
    let lines = crate::agent::prompt::skill_lines(parts.skills@);
    let head = parts.base@ + crate::agent::prompt::paragraph(opt_view(parts.extra))
        + crate::agent::prompt::SKILLS_HEAD@;
    let tail = crate::agent::prompt::SKILLS_TAIL@ + crate::agent::prompt::paragraph(ephemeral);
    parts_of_parts_occur(head, lines, tail, sought);
    assert(head + lines + tail =~= system_prompt_of(parts, ephemeral));
}

proof fn lemma_skill_line(skills: Seq<crate::agent::prompt::SkillMeta>, k: int)
    requires
        0 <= k < skills.len(),
    ensures
        has_text(
            crate::agent::prompt::skill_lines(skills),
            skills[k].name@ + " — "@ + skills[k].description@ + "\n"@,
        ),
    decreases skills.len(),
{
    let front = crate::agent::prompt::skill_lines(skills.drop_last());
    let last = skills.last();
    let line = "  "@ + last.name@ + " — "@ + last.description@ + "\n"@;
    assert(crate::agent::prompt::skill_lines(skills) == front + line);
    if k == skills.len() - 1 {
        lemma_line_occurs(front, "  "@, last.name@, " — "@, last.description@, "\n"@);
    } else {
        lemma_skill_line(skills.drop_last(), k);
        let sought = skills[k].name@ + " — "@ + skills[k].description@ + "\n"@;
        lemma_front_occurs(front, line, sought);
    }
}

proof fn lemma_line_occurs(
    front: Seq<char>,
    a: Seq<char>,
    b: Seq<char>,
    c: Seq<char>,
    d: Seq<char>,
    e: Seq<char>,
)
    ensures
        has_text(front + (a + b + c + d + e), b + c + d + e),
{
    let sought = b + c + d + e;
    let none = Seq::<char>::empty();
    assert(a + b + c + d + e =~= a + sought);
    a_part_occurs(front + a, sought, none);
    assert(front + a + sought + none =~= front + (a + sought));
}

proof fn lemma_front_occurs(front: Seq<char>, line: Seq<char>, sought: Seq<char>)
    requires
        has_text(front, sought),
    ensures
        has_text(front + line, sought),
{
    let none = Seq::<char>::empty();
    parts_of_parts_occur(none, front, line, sought);
    assert(none + front + line =~= front + line);
}

/// A request begins with the system prompt and holds the conversation as it is; where the
/// workspace is known it is told behind the prompt, and an open plan is told at the end.
pub proof fn a_context_tells_where_and_what(
    parts: PromptParts,
    messages: Seq<ChatMessageView>,
    ephemeral: Option<Seq<char>>,
    plan: Option<PlanView>,
    workspace: Option<WorkspaceIdentity>,
    processes: Option<Seq<char>>,
)
    ensures
        ({
            let all = context_of(parts, messages, ephemeral, plan, workspace, processes);
            let front: int = if workspace is Some {
                2
            } else {
                1
            };
            let n = messages.len() as int;
            &&& all[0] == ChatMessageView::System(system_prompt_of(parts, ephemeral))
            &&& workspace is Some ==> all[1] is System && has_text(
                text_of(all[1]),
                workspace->0.id@,
            ) && has_text(text_of(all[1]), workspace->0.cwd@)
            &&& all.subrange(front, front + n) == messages
            &&& snapshot_of(plan).len() > 0 ==> all[front + n] is System && has_suffix(
                text_of(all[front + n]),
                snapshot_of(plan),
            )
            &&& processes is Some ==> all.last() is System && has_text(
                text_of(all.last()),
                processes->0,
            )
            &&& all.len() == front + n + (if snapshot_of(plan).len() > 0 {
                1int
            } else {
                0
            }) + (if processes is Some {
                1int
            } else {
                0
            })
        }),
{
    let all = context_of(parts, messages, ephemeral, plan, workspace, processes);
    let front: int = if workspace is Some {
        2
    } else {
        1
    };
    let n = messages.len() as int;
    assert(all.subrange(front, front + n) =~= messages);
    if workspace is Some {
        let text = workspace_text(workspace->0);
        let head = "[当前 workspace]\nWorkspace: "@;
        let middle = "\nShell cwd: "@;
        let tail = "\n\n（工作区状态由 harness 管理，无需模型自行执行 ssh/cd 确认。）"@;
        a_part_occurs(head, workspace->0.id@, middle + workspace->0.cwd@ + tail);
        assert(head + workspace->0.id@ + (middle + workspace->0.cwd@ + tail) =~= text);
        a_part_occurs(head + workspace->0.id@ + middle, workspace->0.cwd@, tail);
        assert(head + workspace->0.id@ + middle + workspace->0.cwd@ + tail =~= text);
    }
    if snapshot_of(plan).len() > 0 {
        let text = text_of(all[front + n]);
        let tail = snapshot_of(plan);
        assert(text.subrange(text.len() - tail.len(), text.len() as int) =~= tail);
    }
    if processes is Some {
        let tail = "\n\n（后台进程由 TPI 管理；需要结果时用 `process` wait/status，不要频繁轮询）"@;
        a_part_occurs("[Managed processes]\n"@, processes->0, tail);
    }
}

/// Calls that were interrupted are answered as they were left, under their identifiers.
pub proof fn interrupted_calls_are_answered(
    interrupted: Seq<(String, String, StoredToolOutcome)>,
    k: int,
)
    requires
        0 <= k < interrupted.len(),
    ensures
        interrupted_messages(interrupted).len() == interrupted.len(),
        interrupted_messages(interrupted)[k] is Tool,
        interrupted_messages(interrupted)[k]->tool_call_id == interrupted[k].1@,
        interrupted_messages(interrupted)[k]->name == interrupted[k].2@.session_metadata.tool,
        text_of(interrupted_messages(interrupted)[k]) == interrupted[k].2@.model_payload.output,
{
}

/// A page is summarised where it was fetched and is there, and the question holds all of it.
pub proof fn a_page_is_asked_about(
    output: Seq<char>,
    model: Seq<char>,
    reasoning: Option<String>,
    window: Option<u64>,
    prompt: Option<Seq<char>>,
    request: ModelRequest,
    page: Seq<char>,
)
    requires
        asks_about_page(output, model, reasoning, window, prompt, request),
        crate::agent::web_summary::page_of(output) == Some(page),
    ensures
        request.messages@.len() == 2,
        request.messages@[0]@ is System,
        request.messages@[1]@ is User,
        has_suffix(text_of(request.messages@[1]@), page),
        prompt is Some ==> has_text(text_of(request.messages@[1]@), prompt->0),
        member_of(body_json(request), "tools"@) is None,
        member_of(body_json(request), "max_tokens"@) == Some(JsonModel::Number(decimal_of(1024))),
        request.model@ == model,
{
    let all = views(request.messages@);
    assert(all[0] == request.messages@[0]@);
    assert(all[1] == request.messages@[1]@);
    let text = text_of(all[1]);
    assert(text.subrange(text.len() - page.len(), text.len() as int) =~= page);
    if prompt is Some {
        let head = "URL: "@ + crate::agent::web_summary::url_of(output) + "\n问题："@;
        let tail = "\n\n页面正文：\n"@ + page;
        a_part_occurs(head, prompt->0, tail);
        assert(head + prompt->0 + tail =~= text);
    }
    a_request_is_written_as_it_is(request, 0);
}

/// A call that failed is never summarised.
pub proof fn only_success_is_summarised(outcome: OutcomeView)
    ensures
        outcome.status != ToolStatus::Succeeded ==> !is_worth_a_summary(outcome),
{
}

/// A summary stands in the place of the page and says which model made it; nothing else of
/// the outcome changes.
pub proof fn a_page_is_told_by_its_summary(
    outcome: OutcomeView,
    output: Seq<char>,
    model: Seq<char>,
    summary: Seq<char>,
)
    ensures
        has_text(summarised(output, model, summary), trim_of(summary)),
        has_text(summarised(output, model, summary), "summary_model: "@ + model),
        with_output(outcome, output).status == outcome.status,
        with_output(outcome, output).session_metadata == outcome.session_metadata,
        with_output(outcome, output).model_payload.output == output,
        with_output(outcome, output).model_payload.exit_code == outcome.model_payload.exit_code,
        with_output(outcome, output).model_payload.artifact == outcome.model_payload.artifact,
{
    let header = crate::agent::web_summary::header_from(crate::text::lines_of(output), 0);
    let url = crate::agent::web_summary::url_of(output);
    let whole = summarised(output, model, summary);
    let artifact = match crate::agent::web_summary::line_with(
        crate::text::lines_of(output),
        "artifact:"@,
        0,
    ) {
        Some(line) => line,
        None => Seq::empty(),
    };
    reveal_strlit("summary: true\nsummary_model: ");
    reveal_strlit("summary_model: ");
    let mark = "summary: true\nsummary_model: "@;
    let rest = "\n\n<external_content source=\""@ + url + "\">\n"@ + trim_of(summary)
        + "\n</external_content>\n\n（完整正文见 artifact 引用）\n"@ + artifact + "\n"@;
    let line = "summary_model: "@ + model;
    let start = mark.subrange(0, 14);
    assert(start + "summary_model: "@ =~= mark);
    a_part_occurs(header + start, line, rest);
    assert(header + start + line + rest =~= whole);
    let before = header + mark + model + "\n\n<external_content source=\""@ + url + "\">\n"@;
    let after = "\n</external_content>\n\n（完整正文见 artifact 引用）\n"@ + artifact + "\n"@;
    a_part_occurs(before, trim_of(summary), after);
    assert(before + trim_of(summary) + after =~= whole);
}

/// Summaries are made by the model that is set for them, or by the usual one.
pub proof fn which_model_summarises(set: Seq<char>, usual: Seq<char>)
    ensures
        summary_model_of("none"@, usual) == usual,
        summary_model_of(Seq::<char>::empty(), usual) == usual,
        set.len() > 0 && set != "none"@ ==> summary_model_of(set, usual) == set,
{
}

/// A conversation is compacted once it no longer fits, and not before.
pub proof fn when_a_conversation_is_compacted(projected: u64, usable: u64)
    ensures
        projected <= usable ==> !overflows(projected, usable),
        projected > usable ==> overflows(projected, usable),
        overflows(projected, usable) && projected < u64::MAX ==> overflows(
            (projected + 1) as u64,
            usable,
        ),
{
}

/// A summary is asked of the whole conversation, behind what is to be done with it.
pub proof fn what_a_summary_is_asked_of(messages: Seq<ChatMessageView>, k: int)
    requires
        0 <= k < messages.len(),
    ensures
        summary_request_of(messages).len() == messages.len() + 1,
        summary_request_of(messages)[0] is System,
        summary_request_of(messages)[k + 1] == messages[k],
{
}

proof fn lemma_first_line(all: Seq<Seq<char>>, prefix: Seq<char>, i: int, k: int)
    requires
        0 <= i <= k < all.len(),
        has_prefix(all[k], prefix),
        forall|j: int| i <= j < k ==> !has_prefix(#[trigger] all[j], prefix),
    ensures
        line_with(all, prefix, i) == Some(all[k]),
    decreases k - i,
{
    if i < k {
        assert(!has_prefix(all[i], prefix));
        lemma_first_line(all, prefix, i + 1, k);
    }
}

/// The address of a page is what its first line of that kind says.
pub proof fn which_address_a_page_has(output: Seq<char>, address: Seq<char>, k: int)
    requires
        0 <= k < lines_of(output).len(),
        lines_of(output)[k] == "url: "@ + address,
        forall|j: int| 0 <= j < k ==> !has_prefix(#[trigger] lines_of(output)[j], "url: "@),
    ensures
        url_of(output) == address,
{
    let line = lines_of(output)[k];
    let n = "url: "@.len() as int;
    assert(line.subrange(0, n) =~= "url: "@);
    lemma_first_line(lines_of(output), "url: "@, 0, k);
    assert(line.subrange(n, line.len() as int) =~= address);
}

/// The lines of the header stay beside a summary, from the first on and up to the page.
pub proof fn the_header_stays(all: Seq<Seq<char>>, i: int)
    requires
        0 <= i < all.len(),
    ensures
        is_header(all[i]) ==> has_prefix(header_from(all, i), all[i] + "\n"@),
        !is_header(all[i]) && !has_prefix(all[i], "<external_content"@) ==> header_from(all, i)
            == header_from(all, i + 1),
        has_prefix(all[i], "<external_content"@) && !is_header(all[i]) ==> header_from(
            all,
            i,
        ).len() == 0,
{
    if is_header(all[i]) {
        let line = all[i] + "\n"@;
        assert(header_from(all, i).subrange(0, line.len() as int) =~= line);
    } else {
        assert(Seq::<char>::empty() + header_from(all, i + 1) =~= header_from(all, i + 1));
    }
}

} // verus!
