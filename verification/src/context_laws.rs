//! What the estimates and the pruning of a context are for, stated of whole conversations.

use crate::context::cjk_count;
use crate::context::full_lines;
use crate::context::given_once;
use crate::context::gives_field;
use crate::context::is_summary;
use crate::context::keep_count_of;
use crate::context::left_out;
use crate::context::message_tokens;
use crate::context::messages_tokens;
use crate::context::monus;
use crate::context::pruned_messages;
use crate::context::pruned_output;
use crate::context::request_tokens;
use crate::context::sat;
use crate::context::scan_of;
use crate::context::shrinks;
use crate::context::summary_fields;
use crate::context::tail_of;
use crate::context::tokens_of;
use crate::context::tools_tokens;
use crate::context::truncated;
use crate::context::with_line;
use crate::context::with_lines;
use crate::context::with_tail;
use crate::digest::digest_of;
use crate::json::json_text;
use crate::message::ChatMessageView;
use crate::message::ToolCallView;
use crate::message::ToolDefView;
use crate::text::decimal_of;
use crate::text::has_prefix;
use crate::text::lines_of;
use crate::text::split_once_of;
use crate::text::trim_of;
use crate::text::trim_start_of;
use vstd::prelude::*;

verus! {

/// Whether a character is an ideograph of the basic plane or a mark of the block next to it.
pub open spec fn ideographic(c: char) -> bool {
    let n = c as u32;
    (0x4E00 <= n && n < 0xA000) || (0x3000 <= n && n < 0x3040)
}

proof fn lemma_count_bound(s: Seq<char>)
    ensures
        cjk_count(s) <= s.len(),
    decreases s.len(),
{
    if s.len() > 0 {
        lemma_count_bound(s.drop_last());
    }
}

proof fn lemma_count_sum(a: Seq<char>, b: Seq<char>)
    ensures
        cjk_count(a + b) == cjk_count(a) + cjk_count(b),
    decreases b.len(),
{
    if b.len() == 0 {
        assert(a + b =~= a);
    } else {
        assert((a + b).drop_last() =~= a + b.drop_last());
        lemma_count_sum(a, b.drop_last());
    }
}

proof fn lemma_count_all(s: Seq<char>)
    requires
        forall|i: int| 0 <= i < s.len() ==> ideographic(#[trigger] s[i]),
    ensures
        cjk_count(s) == s.len(),
    decreases s.len(),
{
    if s.len() > 0 {
        let rest = s.drop_last();
        assert forall|i: int| 0 <= i < rest.len() implies ideographic(#[trigger] rest[i]) by {
            assert(rest[i] == s[i]);
        }
        lemma_count_all(rest);
        assert(ideographic(s[s.len() - 1]));
    }
}

proof fn lemma_count_none(s: Seq<char>)
    requires
        forall|i: int| 0 <= i < s.len() ==> !ideographic(#[trigger] s[i]),
    ensures
        cjk_count(s) == 0,
    decreases s.len(),
{
    if s.len() > 0 {
        let rest = s.drop_last();
        assert forall|i: int| 0 <= i < rest.len() implies !ideographic(#[trigger] rest[i]) by {
            assert(rest[i] == s[i]);
        }
        lemma_count_none(rest);
        assert(!ideographic(s[s.len() - 1]));
    }
}

/// A text of ideographs counts for a token each, a text without any for a token every three
/// characters, begun ones counted whole, and no text for nothing.
pub proof fn tokens_follow_the_script(text: Seq<char>)
    ensures
        text.len() == 0 ==> tokens_of(text) == 1,
        text.len() > 0 && (forall|i: int| 0 <= i < text.len() ==> ideographic(#[trigger] text[i]))
            ==> tokens_of(text) == text.len(),
        text.len() > 0 && (forall|i: int| 0 <= i < text.len() ==> !ideographic(#[trigger] text[i]))
            ==> text.len() <= 3 * tokens_of(text) < text.len() + 3,
{
    if forall|i: int| 0 <= i < text.len() ==> ideographic(#[trigger] text[i]) {
        lemma_count_all(text);
    }
    if forall|i: int| 0 <= i < text.len() ==> !ideographic(#[trigger] text[i]) {
        lemma_count_none(text);
    }
}

/// In a text of both scripts each counts by itself.
pub proof fn tokens_of_both_scripts(a: Seq<char>, b: Seq<char>)
    requires
        a.len() > 0,
        forall|i: int| 0 <= i < a.len() ==> ideographic(#[trigger] a[i]),
        forall|i: int| 0 <= i < b.len() ==> !ideographic(#[trigger] b[i]),
    ensures
        a.len() + b.len() / 3 <= tokens_of(a + b) <= a.len() + b.len() / 3 + 1,
        3 * (tokens_of(a + b) - a.len()) >= b.len(),
        tokens_of(b + a) == tokens_of(a + b),
{
    lemma_count_all(a);
    lemma_count_none(b);
    lemma_count_sum(a, b);
    lemma_count_sum(b, a);
}

/// A text counts for a third of its characters at least, and for each of them at most.
pub proof fn tokens_measure_the_length(text: Seq<char>)
    ensures
        text.len() <= 3 * tokens_of(text),
        1 <= tokens_of(text),
        text.len() > 0 ==> tokens_of(text) <= text.len(),
{
    lemma_count_bound(text);
}

/// A text counts for no less than a part of it, and two texts put together count for no more
/// than the two by themselves.
pub proof fn tokens_of_parts(a: Seq<char>, b: Seq<char>)
    ensures
        tokens_of(a) <= tokens_of(a + b),
        tokens_of(b) <= tokens_of(a + b),
        tokens_of(a + b) <= tokens_of(a) + tokens_of(b),
{
    lemma_count_sum(a, b);
    lemma_count_bound(a);
    lemma_count_bound(b);
    lemma_count_bound(a + b);
}

/// The text of a message.
pub open spec fn text_of(message: ChatMessageView) -> Seq<char> {
    match message {
        ChatMessageView::System(text) => text,
        ChatMessageView::User(text) => text,
        ChatMessageView::Assistant { content, tool_calls } => content,
        ChatMessageView::Tool { tool_call_id, name, content } => content,
    }
}

/// The calls of a message.
pub open spec fn calls_of(message: ChatMessageView) -> Seq<ToolCallView> {
    match message {
        ChatMessageView::Assistant { content, tool_calls } => tool_calls,
        _ => Seq::empty(),
    }
}

proof fn lemma_calls(content: Seq<char>, calls: Seq<ToolCallView>)
    ensures
        crate::context::calls_tokens(content, calls) >= sat(tokens_of(content) as int),
        forall|k: int|
            0 <= k < calls.len() ==> crate::context::calls_tokens(content, calls) >= sat(
                tokens_of(content) as int + tokens_of((#[trigger] calls[k]).arguments),
            ),
    decreases calls.len(),
{
    if calls.len() > 0 {
        let rest = calls.drop_last();
        lemma_calls(content, rest);
        assert(forall|k: int| 0 <= k < rest.len() ==> rest[k] == calls[k]);
    }
}

/// A message of any kind counts for its whole text: for no less than the text by itself, and
/// so for a third of its characters; and one with calls for their arguments besides.
pub proof fn a_message_counts_for_its_text(message: ChatMessageView)
    ensures
        message_tokens(message) >= sat(tokens_of(text_of(message)) as int),
        message_tokens(message) < u64::MAX ==> 3 * message_tokens(message) >= text_of(
            message,
        ).len(),
        calls_of(message).len() == 0 ==> message_tokens(message) == tokens_of(text_of(message)),
        forall|k: int|
            0 <= k < calls_of(message).len() ==> message_tokens(message) >= sat(
                tokens_of(text_of(message)) as int + tokens_of(
                    (#[trigger] calls_of(message)[k]).arguments,
                ),
            ),
{
    tokens_measure_the_length(text_of(message));
    if let ChatMessageView::Assistant { content, tool_calls } = message {
        lemma_calls(content, tool_calls);
    }
}

/// The same text counts for the same in a message of any kind, and a longer text for no less.
pub proof fn kinds_of_messages_count_alike(
    text: Seq<char>,
    more: Seq<char>,
    id: Seq<char>,
    name: Seq<char>,
)
    ensures
        ({
            let n = message_tokens(ChatMessageView::User(text));
            let longer = ChatMessageView::Tool { tool_call_id: id, name, content: text + more };
            &&& n == tokens_of(text)
            &&& message_tokens(ChatMessageView::System(text)) == n
            &&& message_tokens(
                ChatMessageView::Assistant { content: text, tool_calls: Seq::empty() },
            ) == n
            &&& message_tokens(
                ChatMessageView::Tool { tool_call_id: id, name, content: text },
            ) == n
            &&& message_tokens(longer) >= n
            &&& message_tokens(longer) >= message_tokens(ChatMessageView::User(more))
        }),
{
    tokens_of_parts(text, more);
}

/// Another call adds its arguments to what a message counts for.
pub proof fn a_call_counts_for_its_arguments(
    content: Seq<char>,
    calls: Seq<ToolCallView>,
    call: ToolCallView,
)
    ensures
        message_tokens(ChatMessageView::Assistant { content, tool_calls: calls.push(call) })
            == sat(
            message_tokens(ChatMessageView::Assistant { content, tool_calls: calls }) + tokens_of(
                call.arguments,
            ),
        ),
{
    assert(calls.push(call).drop_last() =~= calls);
}

proof fn lemma_message_bounds(message: ChatMessageView)
    ensures
        0 <= message_tokens(message),
{
    tokens_measure_the_length(text_of(message));
    if let ChatMessageView::Assistant { content, tool_calls } = message {
        lemma_calls(content, tool_calls);
    }
}

proof fn lemma_messages_bounds(messages: Seq<ChatMessageView>)
    ensures
        0 <= messages_tokens(messages) <= u64::MAX,
    decreases messages.len(),
{
    if messages.len() > 0 {
        lemma_messages_bounds(messages.drop_last());
        lemma_message_bounds(messages.last());
    }
}

/// A conversation counts for its parts, whatever their order: two of them put together count
/// for the sum of the two, and a single message for itself.
pub proof fn a_conversation_counts_for_its_parts(
    a: Seq<ChatMessageView>,
    b: Seq<ChatMessageView>,
    message: ChatMessageView,
)
    ensures
        messages_tokens(Seq::<ChatMessageView>::empty()) == 0,
        messages_tokens(seq![message]) == sat(message_tokens(message)),
        messages_tokens(a + b) == sat(messages_tokens(a) + messages_tokens(b)),
        messages_tokens(a + b) == messages_tokens(b + a),
{
    assert(seq![message].drop_last() =~= Seq::<ChatMessageView>::empty());
    assert(seq![message].last() == message);
    assert(messages_tokens(seq![message].drop_last()) == 0);
    lemma_conversation_sum(a, b);
    lemma_conversation_sum(b, a);
}

proof fn lemma_conversation_sum(a: Seq<ChatMessageView>, b: Seq<ChatMessageView>)
    ensures
        messages_tokens(a + b) == sat(messages_tokens(a) + messages_tokens(b)),
    decreases b.len(),
{
    lemma_messages_bounds(a);
    if b.len() == 0 {
        assert(a + b =~= a);
    } else {
        assert((a + b).drop_last() =~= a + b.drop_last());
        lemma_conversation_sum(a, b.drop_last());
        lemma_messages_bounds(b.drop_last());
        lemma_message_bounds(b.last());
    }
}

/// Every message of a conversation counts: the whole is no smaller than any one of them.
pub proof fn every_message_counts(messages: Seq<ChatMessageView>, k: int)
    requires
        0 <= k < messages.len(),
    ensures
        messages_tokens(messages) >= sat(message_tokens(messages[k])),
        messages_tokens(messages) < u64::MAX ==> 3 * messages_tokens(messages) >= text_of(
            messages[k],
        ).len(),
    decreases messages.len(),
{
    a_message_counts_for_its_text(messages[k]);
    lemma_messages_bounds(messages.drop_last());
    lemma_message_bounds(messages.last());
    if k < messages.len() - 1 {
        every_message_counts(messages.drop_last(), k);
    }
}

proof fn lemma_tools_bounds(start: int, tools: Seq<ToolDefView>)
    requires
        0 <= start <= u64::MAX,
    ensures
        start <= tools_tokens(start, tools) <= u64::MAX,
        forall|k: int|
            0 <= k < tools.len() ==> tools_tokens(start, tools) >= sat(
                start + tokens_of((#[trigger] tools[k]).name) + tokens_of(tools[k].description)
                    + tokens_of(json_text(tools[k].parameters)),
            ),
    decreases tools.len(),
{
    if tools.len() > 0 {
        let rest = tools.drop_last();
        lemma_tools_bounds(start, rest);
        assert(forall|k: int| 0 <= k < rest.len() ==> rest[k] == tools[k]);
    }
}

/// A request counts for all that is in it: the system prompt, its messages with eight tokens
/// around each, and the name, description and schema of every tool.
pub proof fn a_request_counts_for_all_its_parts(
    system: Seq<char>,
    messages: Seq<ChatMessageView>,
    tools: Seq<ToolDefView>,
)
    ensures
        0 <= request_tokens(system, messages, tools) <= u64::MAX,
        request_tokens(system, messages, tools) >= sat(
            tokens_of(system) + messages_tokens(messages) + 8 * messages.len(),
        ),
        tools.len() == 0 ==> request_tokens(system, messages, tools) == sat(
            tokens_of(system) + messages_tokens(messages) + 8 * messages.len(),
        ),
        forall|k: int|
            0 <= k < tools.len() ==> request_tokens(system, messages, tools) >= sat(
                tokens_of(system) + messages_tokens(messages) + 8 * messages.len() + tokens_of(
                    (#[trigger] tools[k]).name,
                ) + tokens_of(tools[k].description) + tokens_of(json_text(tools[k].parameters)),
            ),
        forall|k: int|
            0 <= k < messages.len() ==> request_tokens(system, messages, tools) >= sat(
                message_tokens(#[trigger] messages[k]),
            ),
{
    tokens_measure_the_length(system);
    lemma_messages_bounds(messages);
    let start = sat(tokens_of(system) + messages_tokens(messages));
    lemma_tools_bounds(start, tools);
    assert forall|k: int| 0 <= k < messages.len() implies request_tokens(system, messages, tools)
        >= sat(message_tokens(#[trigger] messages[k])) by {
        every_message_counts(messages, k);
    }
}

/// Another message adds what it counts for and eight tokens to a request without tools.
pub proof fn a_message_adds_to_a_request(
    system: Seq<char>,
    messages: Seq<ChatMessageView>,
    message: ChatMessageView,
)
    ensures
        ({
            let before = request_tokens(system, messages, Seq::empty());
            let after = request_tokens(system, messages.push(message), Seq::empty());
            after == sat(before + message_tokens(message) + 8)
        }),
{
    tokens_measure_the_length(system);
    lemma_messages_bounds(messages);
    lemma_message_bounds(message);
    assert(messages.push(message).drop_last() =~= messages);
}

/// Another tool adds its name, description and schema to a request.
pub proof fn a_tool_adds_to_a_request(
    system: Seq<char>,
    messages: Seq<ChatMessageView>,
    tools: Seq<ToolDefView>,
    tool: ToolDefView,
)
    ensures
        request_tokens(system, messages, tools.push(tool)) == sat(
            request_tokens(system, messages, tools) + tokens_of(tool.name) + tokens_of(
                tool.description,
            ) + tokens_of(json_text(tool.parameters)),
        ),
{
    tokens_measure_the_length(system);
    lemma_messages_bounds(messages);
    lemma_tools_bounds(sat(tokens_of(system) + messages_tokens(messages)), tools);
    assert(tools.push(tool).drop_last() =~= tools);
}

/// What is left of a window and what is taken out of it make up the window, where there is
/// anything left.
pub proof fn what_is_left_and_taken_is_the_whole(a: int, b: int)
    requires
        0 <= a,
        0 <= b,
    ensures
        0 <= monus(a, b) <= a,
        b <= a ==> monus(a, b) + b == a,
        b >= a ==> monus(a, b) == 0,
{
}

/// What is kept is a quarter: four times as much is all there is, and no less would do.
pub proof fn a_quarter_is_kept(count: nat)
    ensures
        keep_count_of(count) <= count,
        4 * keep_count_of(count) >= count,
        4 * keep_count_of(count) < count + 4,
{
}

/// A sum is what it is up to the largest number of 64 bits, and that number beyond it.
pub proof fn sums_stop_at_the_largest(n: int)
    ensures
        n <= 0xffff_ffff_ffff_ffff ==> sat(n) == n,
        n >= 0xffff_ffff_ffff_ffff ==> sat(n) == 0xffff_ffff_ffff_ffff,
{
}

/// Pruning is for outputs of tools of more than 800 tokens alone. It keeps every message in
/// its place, and of an output the call that it answers and the tool that gave it.
pub proof fn pruning_touches_large_outputs_alone(messages: Seq<ChatMessageView>, k: int)
    requires
        0 <= k < messages.len(),
    ensures
        pruned_messages(messages).len() == messages.len(),
        !(messages[k] is Tool) ==> pruned_messages(messages)[k] == messages[k],
        messages[k] is Tool && tokens_of(text_of(messages[k])) <= 800 ==> pruned_messages(
            messages,
        )[k] == messages[k],
        messages[k] is Tool ==> {
            let after = pruned_messages(messages)[k];
            &&& after is Tool
            &&& after->tool_call_id == messages[k]->tool_call_id
            &&& after->name == messages[k]->name
        },
{
}

/// A summary is worth its while where it is less than a quarter of what it stands for, and
/// never where it is half of it; of 16000 tokens less than a third will do, and of 64000
/// less than a half.
pub proof fn what_a_summary_must_save(original: int, summary: int)
    requires
        0 < original,
        0 <= summary,
    ensures
        0 < summary && 4 * summary < original ==> shrinks(original, summary),
        shrinks(original, summary) ==> 0 < summary && 2 * summary < original,
        shrinks(original, summary) && original < 16000 ==> 4 * summary < original,
        shrinks(original, summary) && original < 64000 ==> 3 * summary < original,
        0 < summary && original >= 64000 && 2 * summary < original ==> shrinks(original, summary),
        0 < summary && original >= 16000 && 3 * summary < original ==> shrinks(original, summary),
        forall|less: int|
            shrinks(original, summary) && 0 < less <= summary ==> #[trigger] shrinks(
                original,
                less,
            ),
{
    assert forall|less: int| shrinks(original, summary) && 0 < less <= summary implies
        #[trigger] shrinks(original, less) by {
        if original >= 64_000 {
            assert(less * 2 <= summary * 2);
        } else if original >= 16_000 {
            assert(less * 3 <= summary * 3);
        } else {
            assert(less * 4 <= summary * 4);
        }
    }
}

/// A long line keeps its first 256 characters and says that it was cut; any other stays as it
/// is. Of an output the last eight lines are its end.
pub proof fn the_end_of_an_output(all: Seq<Seq<char>>, i: int)
    requires
        0 <= i < tail_of(all).len(),
    ensures
        tail_of(all).len() == if all.len() <= 8 {
            all.len()
        } else {
            8
        },
        ({
            let line = all[all.len() - tail_of(all).len() + i];
            &&& line.len() <= 256 ==> tail_of(all)[i] == line
            &&& line.len() > 256 ==> tail_of(all)[i] == line.subrange(0, 256)
                + "… [line truncated]"@
        }),
{
}

/// Whether a line tells how a call went.
pub open spec fn tells_how_it_went(line: Seq<char>) -> bool {
    let text = trim_start_of(line);
    has_prefix(text, "status:"@) || has_prefix(text, "program:"@) || has_prefix(text, "exit_code:"@)
        || has_prefix(text, "artifact:"@) || has_prefix(text, "error:"@)
}

/// Only lines that tell how a call went are picked out, each once, in their order.
pub proof fn which_lines_are_picked_out(
    all: Seq<Seq<char>>,
    line: Seq<char>,
    tail: Seq<Seq<char>>,
)
    ensures
        ({
            let before = scan_of(all, tail);
            let after = scan_of(all.push(line), tail);
            let short = truncated(line, 256);
            &&& !tells_how_it_went(line) ==> after == before
            &&& tells_how_it_went(line) && (tail.contains(short) || before.lines.contains(short))
                ==> after == before
            &&& tells_how_it_went(line) && !tail.contains(short) && !before.lines.contains(short)
                ==> (after.lines == before.lines.push(short) && after.omitted == before.omitted)
                || (after.lines == before.lines && after.omitted == before.omitted + 1)
        }),
        scan_of(Seq::empty(), tail).lines.len() == 0,
        scan_of(Seq::empty(), tail).omitted == 0,
{
    assert(all.push(line).drop_last() =~= all);
}

/// Of each kind of line two are picked out, and the others are counted.
pub proof fn two_of_a_kind_are_picked_out(
    all: Seq<Seq<char>>,
    line: Seq<char>,
    tail: Seq<Seq<char>>,
    k: int,
)
    requires
        0 <= k < 5,
        crate::context::key_of(line) == Some(k),
        !tail.contains(truncated(line, 256)),
        !scan_of(all, tail).lines.contains(truncated(line, 256)),
    ensures
        scan_of(all, tail).counts[k] < 2 ==> scan_of(all.push(line), tail).lines == scan_of(
            all,
            tail,
        ).lines.push(truncated(line, 256)),
        scan_of(all, tail).counts[k] >= 2 ==> scan_of(all.push(line), tail).omitted == scan_of(
            all,
            tail,
        ).omitted + 1,
{
    assert(all.push(line).drop_last() =~= all);
}

/// Lines, each behind a line feed.
pub open spec fn behind(out: Seq<char>, lines: Seq<Seq<char>>) -> Seq<char>
    decreases lines.len(),
{
    if lines.len() == 0 {
        out
    } else {
        behind(out.push('\n') + lines[0], lines.drop_first())
    }
}

proof fn lemma_behind(out: Seq<char>, lines: Seq<Seq<char>>)
    ensures
        behind(out, lines).len() >= out.len(),
        behind(out, lines).subrange(0, out.len() as int) == out,
    decreases lines.len(),
{
    if lines.len() > 0 {
        let more = out.push('\n') + lines[0];
        let whole = behind(out, lines);
        lemma_behind(more, lines.drop_first());
        assert(whole.subrange(0, out.len() as int) =~= out) by {
            assert forall|i: int| 0 <= i < out.len() implies whole[i] == #[trigger] out[i] by {
                assert(whole.subrange(0, more.len() as int)[i] == more[i]);
            }
        }
    } else {
        assert(out.subrange(0, out.len() as int) =~= out);
    }
}

proof fn lemma_tokens_grow(text: Seq<char>, n: int)
    requires
        0 <= n <= text.len(),
    ensures
        tokens_of(text.subrange(0, n)) <= tokens_of(text),
{
    let a = text.subrange(0, n);
    let b = text.subrange(n, text.len() as int);
    assert(text =~= a + b);
    lemma_count_sum(a, b);
    lemma_count_bound(b);
    lemma_count_bound(a);
}

/// The end of an output is kept whole where it fits.
pub proof fn an_end_that_fits_is_kept(out: Seq<char>, lines: Seq<Seq<char>>, max: int)
    requires
        tokens_of(behind(out, lines)) <= max,
    ensures
        with_tail(out, lines, max) == behind(out, lines),
    decreases lines.len(),
{
    if lines.len() > 0 {
        let more = out.push('\n') + lines[0];
        lemma_behind(more, lines.drop_first());
        lemma_tokens_grow(behind(out, lines), more.len() as int);
        an_end_that_fits_is_kept(more, lines.drop_first(), max);
    }
}

proof fn lemma_line_behind(out: Seq<char>, line: Seq<char>, max: int, head: Seq<char>)
    requires
        has_prefix(out, head),
    ensures
        has_prefix(with_line(out, line, max), head),
{
    let more = out.push('\n') + line;
    assert(more.subrange(0, head.len() as int) =~= out.subrange(0, head.len() as int));
}

proof fn lemma_lines_behind(out: Seq<char>, lines: Seq<Seq<char>>, max: int, head: Seq<char>)
    requires
        has_prefix(out, head),
    ensures
        has_prefix(with_lines(out, lines, max), head),
    decreases lines.len(),
{
    if lines.len() > 0 {
        lemma_lines_behind(out, lines.drop_last(), max, head);
        lemma_line_behind(with_lines(out, lines.drop_last(), max), lines.last(), max, head);
    }
}

proof fn lemma_tail_behind(out: Seq<char>, lines: Seq<Seq<char>>, max: int, head: Seq<char>)
    requires
        has_prefix(out, head),
    ensures
        has_prefix(with_tail(out, lines, max), head),
    decreases lines.len(),
{
    if lines.len() > 0 {
        let more = out.push('\n') + lines[0];
        lemma_line_behind(out, "[remaining tail lines omitted]"@, max, head);
        if tokens_of(more) <= max {
            assert(more.subrange(0, head.len() as int) =~= out.subrange(0, head.len() as int));
            lemma_tail_behind(more, lines.drop_first(), max, head);
        }
    }
}

/// An output that was pruned begins by saying so, and how long it was.
pub proof fn a_pruned_output_says_how_long_it_was(content: Seq<char>)
    ensures
        has_prefix(
            pruned_output(content),
            "[output pruned: "@ + decimal_of(tokens_of(content)) + " tokens, digest "@ + digest_of(
                content,
                16,
            ) + "]"@,
        ),
{
    let head = "[output pruned: "@ + decimal_of(tokens_of(content)) + " tokens, digest "@
        + digest_of(content, 16) + "]"@;
    let first = crate::context::prune_head(content);
    assert(first.subrange(0, head.len() as int) =~= head);
    let all = lines_of(content);
    let tail = tail_of(all);
    let scan = scan_of(all, tail);
    lemma_lines_behind(first, scan.lines, crate::context::MAX_KEY_TOKENS as int, head);
    let keys = with_lines(first, scan.lines, crate::context::MAX_KEY_TOKENS as int);
    let omitted = scan.omitted + crate::context::left_out(
        first,
        scan.lines,
        crate::context::MAX_KEY_TOKENS as int,
    );
    let said = "["@ + decimal_of(omitted) + " additional key lines omitted]"@;
    lemma_line_behind(keys, said, crate::context::MAX_KEY_TOKENS as int, head);
    let marked = if omitted > 0 {
        with_line(keys, said, crate::context::MAX_KEY_TOKENS as int)
    } else {
        keys
    };
    lemma_line_behind(marked, "--- tail ---"@, crate::context::MAX_PRUNED_TOKENS as int, head);
    let split = if all.len() > 8 {
        with_line(marked, "--- tail ---"@, crate::context::MAX_PRUNED_TOKENS as int)
    } else {
        marked
    };
    lemma_tail_behind(split, tail, crate::context::MAX_PRUNED_TOKENS as int, head);
}

/// Whether a line gives a field of a name, and says something of it.
pub open spec fn says_of(line: Seq<char>, name: Seq<char>) -> bool {
    split_once_of(line, ':') matches Some((before, value)) && trim_of(before) == name && trim_of(
        value,
    ).len() > 0
}

/// Whether a text gives a field of a name.
pub open spec fn has_field(text: Seq<char>, name: Seq<char>) -> bool {
    exists|i: int|
        0 <= i < full_lines(lines_of(text)).len() && says_of(
            #[trigger] full_lines(lines_of(text))[i],
            name,
        )
}

proof fn lemma_field_given(text: Seq<char>, k: int)
    requires
        is_summary(text),
        0 <= k < 9,
    ensures
        has_field(text, summary_fields()[k]),
{
    let all = full_lines(lines_of(text));
    assert(given_once(all, k));
    let i = choose|i: int|
        #![trigger all[i]]
        0 <= i < all.len() && gives_field(all[i], k) && forall|j: int|
            0 <= j < all.len() && gives_field(#[trigger] all[j], k) ==> j == i;
    assert(says_of(all[i], summary_fields()[k]));
}

/// A summary says what was wanted, what was decided and done, what comes next and what failed:
/// no field of it is missing or empty.
pub proof fn a_summary_says_everything(text: Seq<char>)
    requires
        is_summary(text),
    ensures
        has_field(text, "Goal"@),
        has_field(text, "Constraints"@),
        has_field(text, "Decisions"@),
        has_field(text, "Completed"@),
        has_field(text, "In progress"@),
        has_field(text, "Next exact action"@),
        has_field(text, "Relevant files and revisions"@),
        has_field(text, "Verification status"@),
        has_field(text, "Failed attempts and why"@),
{
    lemma_field_given(text, 0);
    lemma_field_given(text, 1);
    lemma_field_given(text, 2);
    lemma_field_given(text, 3);
    lemma_field_given(text, 4);
    lemma_field_given(text, 5);
    lemma_field_given(text, 6);
    lemma_field_given(text, 7);
    lemma_field_given(text, 8);
}

/// A summary says nothing else, and nothing twice.
pub proof fn a_summary_says_nothing_else(text: Seq<char>, i: int, j: int, k: int)
    requires
        is_summary(text),
        0 <= i < full_lines(lines_of(text)).len(),
        0 <= j < full_lines(lines_of(text)).len(),
        0 <= k < 9,
    ensures
        exists|k: int|
            0 <= k < 9 && says_of(full_lines(lines_of(text))[i], #[trigger] summary_fields()[k]),
        says_of(full_lines(lines_of(text))[i], summary_fields()[k]) && says_of(
            full_lines(lines_of(text))[j],
            summary_fields()[k],
        ) ==> i == j,
{
    let all = full_lines(lines_of(text));
    assert(crate::context::gives_some(all[i]));
    let f = choose|f: int| 0 <= f < 9 && gives_field(all[i], f);
    assert(says_of(all[i], summary_fields()[f]));
    assert(given_once(all, k));
    let one = choose|i: int|
        #![trigger all[i]]
        0 <= i < all.len() && gives_field(all[i], k) && forall|j: int|
            0 <= j < all.len() && gives_field(#[trigger] all[j], k) ==> j == i;
    if says_of(all[i], summary_fields()[k]) && says_of(all[j], summary_fields()[k]) {
        assert(gives_field(all[i], k));
        assert(gives_field(all[j], k));
    }
}

/// A line that was picked out is either there or counted.
pub proof fn what_is_left_out_is_counted(
    out: Seq<char>,
    lines: Seq<Seq<char>>,
    line: Seq<char>,
    max: int,
)
    ensures
        with_lines(out, lines.push(line), max) == with_lines(out, lines, max) ==> left_out(
            out,
            lines.push(line),
            max,
        ) == left_out(out, lines, max) + 1,
        with_lines(out, lines.push(line), max) != with_lines(out, lines, max) ==> with_lines(
            out,
            lines.push(line),
            max,
        ) == with_lines(out, lines, max).push('\n') + line && left_out(out, lines.push(line), max)
            == left_out(out, lines, max),
        left_out(out, Seq::empty(), max) == 0,
{
    assert(lines.push(line).drop_last() =~= lines);
    let before = with_lines(out, lines, max);
    assert((before.push('\n') + line).len() > before.len());
}

/// An output of more than 800 tokens is pruned, to no more than as many.
pub proof fn how_long_an_output_may_be(messages: Seq<ChatMessageView>, k: int)
    requires
        0 <= k < messages.len(),
        messages[k] is Tool,
    ensures
        tokens_of(text_of(messages[k])) <= 800 ==> pruned_messages(messages)[k] == messages[k],
        tokens_of(text_of(messages[k])) > 800 ==> text_of(pruned_messages(messages)[k])
            == pruned_output(text_of(messages[k])),
{
}

} // verus!
