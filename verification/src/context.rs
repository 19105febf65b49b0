//! The budget of a model's context: estimating, pruning and summarising.
//!
//! The session keeps everything; what is sent to a model is a projection of it. The
//! functions here say how large a projection is and make it smaller.
use crate::digest::digest;
use crate::digest::digest_of;
use crate::json::json_text;
use crate::json::json_to_text;
use crate::message::extend_messages;
use crate::message::ChatMessage;
use crate::message::ChatMessageView;
use crate::message::ToolCallView;
use crate::message::ToolDef;
use crate::message::ToolDefView;
use crate::text::decimal;
use crate::text::decimal_of;
use crate::text::from_chars;
use crate::text::has_prefix;
use crate::text::lines;
use crate::text::lines_of;
use crate::text::owned;
use crate::text::same;
use crate::text::slice;
use crate::text::split_once;
use crate::text::split_once_of;
use crate::text::starts_with;
use crate::text::to_chars;
use crate::text::trim;
use crate::text::trim_of;
use crate::text::trim_start;
use crate::text::trim_start_of;
use crate::text::views;
use crate::text::views_push;
use vstd::prelude::*;
use vstd::string::*;

verus! {

/// Whether `c` is one of the ideographs or CJK punctuation marks that count as a token each.
pub open spec fn is_cjk(c: char) -> bool {
    0x4E00 <= c as u32 <= 0x9FFF || 0x3000 <= c as u32 <= 0x303F
}

/// How many characters of `s` are CJK.
pub open spec fn cjk_count(s: Seq<char>) -> nat
    decreases s.len(),
{
    if s.len() == 0 {
        0
    } else {
        cjk_count(s.drop_last()) + (if is_cjk(s.last()) {
            1nat
        } else {
            0
        })
    }
}

/// The estimated number of tokens of a text: one for each CJK character and one for
/// every three others, and at least one.
pub open spec fn tokens_of(s: Seq<char>) -> nat {
    let count = cjk_count(s) + (s.len() - cjk_count(s) + 2) / 3;
    if count < 1 {
        1
    } else {
        count as nat
    }
}

proof fn lemma_cjk_bound(s: Seq<char>)
    ensures
        cjk_count(s) <= s.len(),
    decreases s.len(),
{
    if s.len() > 0 {
        lemma_cjk_bound(s.drop_last());
    }
}

/// A text counts for no more tokens than it has characters, if it has any.
pub proof fn lemma_tokens_bound(s: Seq<char>)
    ensures
        tokens_of(s) <= s.len() + 1,
        1 <= tokens_of(s),
{
    lemma_cjk_bound(s);
}

/// The estimated number of tokens of a text, for want of a tokenizer.
pub fn estimate_tokens(text: &str) -> (r: u64)
    ensures
        r == tokens_of(text@),
        r >= 1,
{
    let chars = to_chars(text);
    let mut cjk: usize = 0;
    let mut i: usize = 0;
    while i < chars.len()
        invariant
            i <= chars@.len(),
            chars@ == text@,
            cjk <= i,
            cjk == cjk_count(text@.take(i as int)),
        decreases chars@.len() - i,
    {
        proof {
            let next = text@.take(i + 1);
            assert(next.drop_last() =~= text@.take(i as int));
        }
        let c: u32 = chars[i] as u32;
        if (0x4E00 <= c && c <= 0x9FFF) || (0x3000 <= c && c <= 0x303F) {
            cjk += 1;
        }
        i += 1;
    }
    assert(text@.take(i as int) =~= text@);
    let other: usize = chars.len() - cjk;
    let groups: usize = other / 3 + (if other % 3 == 0 {
        0
    } else {
        1
    });
    assert(groups == (other + 2) / 3);
    let total: u64 = cjk as u64 + groups as u64;
    if total < 1 {
        1
    } else {
        total
    }
}

/// A sum that stops at the largest 64-bit number.
pub open spec fn sat(n: int) -> int {
    if n > u64::MAX {
        u64::MAX as int
    } else {
        n
    }
}

fn sat_add(a: u64, b: u64) -> (r: u64)
    ensures
        r == sat(a + b),
{
    if a > u64::MAX - b {
        u64::MAX
    } else {
        a + b
    }
}

/// The tokens of some text and of the arguments of some calls.
pub open spec fn calls_tokens(content: Seq<char>, calls: Seq<ToolCallView>) -> int
    decreases calls.len(),
{
    if calls.len() == 0 {
        tokens_of(content) as int
    } else {
        sat(calls_tokens(content, calls.drop_last()) + tokens_of(calls.last().arguments))
    }
}

/// The estimated number of tokens of a message.
pub open spec fn message_tokens(message: ChatMessageView) -> int {
    match message {
        ChatMessageView::System(text) => tokens_of(text) as int,
        ChatMessageView::User(text) => tokens_of(text) as int,
        ChatMessageView::Assistant { content, tool_calls } => calls_tokens(content, tool_calls),
        ChatMessageView::Tool { tool_call_id, name, content } => tokens_of(content) as int,
    }
}

/// The estimated number of tokens of some messages.
pub open spec fn messages_tokens(messages: Seq<ChatMessageView>) -> int
    decreases messages.len(),
{
    if messages.len() == 0 {
        0
    } else {
        sat(messages_tokens(messages.drop_last()) + message_tokens(messages.last()))
    }
}

/// The estimated number of tokens of a message.
pub fn estimate_message(message: &ChatMessage) -> (r: u64)
    ensures
        r == message_tokens(message@),
{
    match message {
        ChatMessage::System(text) => estimate_tokens(text.as_str()),
        ChatMessage::User(text) => estimate_tokens(text.as_str()),
        ChatMessage::Assistant { content, tool_calls } => {
            let mut total: u64 = estimate_tokens(content.as_str());
            let mut i: usize = 0;
            let ghost calls = views(tool_calls@);
            while i < tool_calls.len()
                invariant
                    i <= tool_calls@.len(),
                    calls == views(tool_calls@),
                    total == calls_tokens(content@, calls.take(i as int)),
                decreases tool_calls@.len() - i,
            {
                proof {
                    let next = calls.take(i + 1);
                    assert(next.drop_last() =~= calls.take(i as int));
                    assert(next.last() == tool_calls@[i as int]@);
                }
                total = sat_add(total, estimate_tokens(tool_calls[i].arguments.as_str()));
                i += 1;
            }
            assert(calls.take(i as int) =~= calls);
            total
        },
        ChatMessage::Tool { tool_call_id, name, content } => estimate_tokens(content.as_str()),
    }
}

/// The estimated number of tokens of some messages.
pub fn estimate_messages(messages: &Vec<ChatMessage>) -> (r: u64)
    ensures
        r == messages_tokens(views(messages@)),
{
    let mut total: u64 = 0;
    let mut i: usize = 0;
    while i < messages.len()
        invariant
            i <= messages@.len(),
            total == messages_tokens(views(messages@).take(i as int)),
        decreases messages@.len() - i,
    {
        proof {
            let next = views(messages@).take(i + 1);
            assert(next.drop_last() =~= views(messages@).take(i as int));
            assert(next.last() == messages@[i as int]@);
        }
        total = sat_add(total, estimate_message(&messages[i]));
        i += 1;
    }
    assert(views(messages@).take(i as int) =~= views(messages@));
    total
}

/// A start value and the tokens of the names, descriptions and schemas of some tools.
pub open spec fn tools_tokens(start: int, tools: Seq<ToolDefView>) -> int
    decreases tools.len(),
{
    if tools.len() == 0 {
        start
    } else {
        let tool = tools.last();
        let before = tools_tokens(start, tools.drop_last());
        sat(
            sat(sat(before + tokens_of(tool.name)) + tokens_of(tool.description)) + tokens_of(
                json_text(tool.parameters),
            ),
        )
    }
}

/// How many tokens the frame of one message counts for.
pub const MESSAGE_OVERHEAD: u64 = 8;

/// The estimated number of tokens of a request: system prompt, messages, tool schemas,
/// and a frame for each message.
pub open spec fn request_tokens(
    system_prompt: Seq<char>,
    messages: Seq<ChatMessageView>,
    tools: Seq<ToolDefView>,
) -> int {
    sat(
        tools_tokens(sat(tokens_of(system_prompt) + messages_tokens(messages)), tools) + sat(
            messages.len() * MESSAGE_OVERHEAD,
        ),
    )
}

/// The estimated number of tokens of a request.
pub fn estimate_request(
    system_prompt: &str,
    messages: &Vec<ChatMessage>,
    tools: &Vec<ToolDef>,
) -> (r: u64)
    ensures
        r == request_tokens(system_prompt@, views(messages@), views(tools@)),
{
    let mut total: u64 = estimate_tokens(system_prompt);
    total = sat_add(total, estimate_messages(messages));
    let ghost start = total as int;
    let mut i: usize = 0;
    while i < tools.len()
        invariant
            i <= tools@.len(),
            total == tools_tokens(start, views(tools@).take(i as int)),
        decreases tools@.len() - i,
    {
        proof {
            let next = views(tools@).take(i + 1);
            assert(next.drop_last() =~= views(tools@).take(i as int));
            assert(next.last() == tools@[i as int]@);
        }
        let tool = &tools[i];
        total = sat_add(total, estimate_tokens(tool.name.as_str()));
        total = sat_add(total, estimate_tokens(tool.description.as_str()));
        let schema = json_to_text(&tool.parameters);
        total = sat_add(total, estimate_tokens(schema.as_str()));
        i += 1;
    }
    assert(views(tools@).take(i as int) =~= views(tools@));
    let count: u64 = messages.len() as u64;
    let frames: u64 = if count > u64::MAX / MESSAGE_OVERHEAD {
        u64::MAX
    } else {
        count * MESSAGE_OVERHEAD
    };
    assert(frames == sat(views(messages@).len() * MESSAGE_OVERHEAD));
    sat_add(total, frames)
}

/// `a - b`, but not below 0.
pub open spec fn monus(a: int, b: int) -> int {
    if a < b {
        0
    } else {
        a - b
    }
}

/// What a context window leaves for input.
pub fn usable_input(context_window: u64, max_output_tokens: u64, safety_reserve: u64) -> (r: u64)
    ensures
        r == monus(monus(context_window as int, max_output_tokens as int), safety_reserve as int),
{
    let left: u64 = if context_window < max_output_tokens {
        0
    } else {
        context_window - max_output_tokens
    };
    if left < safety_reserve {
        0
    } else {
        left - safety_reserve
    }
}

/// Whether a request no longer fits.
pub open spec fn overflows(projected: u64, usable: u64) -> bool {
    projected > usable
}

/// Whether a request no longer fits and the history has to be compacted.
pub fn should_compact(projected: u64, usable: u64) -> (r: bool)
    ensures
        r == overflows(projected, usable),
{
    projected > usable
}

/// The least number of complete turns that a compaction keeps as they are. A turn is what
/// the user or the model said, with the results of the tools that it called.
pub const MIN_KEEP_TURNS: usize = 2;

/// How many of `count` messages a compaction keeps at least: a quarter, rounded up.
pub open spec fn keep_count_of(count: nat) -> nat {
    ((count + 3) / 4) as nat
}

/// How many of `count` messages a compaction keeps at least.
pub fn keep_count(count: usize) -> (r: usize)
    ensures
        r == keep_count_of(count as nat),
{
    let quarter: usize = count / 4 + (if count % 4 == 0 {
        0
    } else {
        1
    });
    assert(quarter == (count + 3) / 4);
    quarter
}

/// A tool output of more tokens than this is pruned.
pub const MAX_TOOL_OUTPUT_TOKENS: u64 = 800;

/// A pruned output has at most this many tokens.
pub const MAX_PRUNED_TOKENS: u64 = 800;

/// The head and the key lines of a pruned output have at most this many tokens.
pub const MAX_KEY_TOKENS: u64 = 400;

/// At most this many lines of one key are kept.
pub const MAX_LINES_PER_KEY: usize = 2;

/// A kept line has at most this many characters, and a mark where it was cut.
pub const MAX_LINE_CHARS: usize = 256;

/// How many lines at the end of an output are kept.
pub const TAIL_LINES: usize = 8;

/// A line cut to `max` characters, with a mark where it was longer.
pub open spec fn truncated(line: Seq<char>, max: int) -> Seq<char> {
    if line.len() > max {
        line.subrange(0, max) + "… [line truncated]"@
    } else {
        line
    }
}

/// A line cut to `max_chars` characters, with a mark where it was longer.
pub fn truncate_line(line: &str, max_chars: usize) -> (r: String)
    ensures
        r@ == truncated(line@, max_chars as int),
{
    let chars = to_chars(line);
    if chars.len() > max_chars {
        let mut out = slice(&chars, 0, max_chars);
        out.append("… [line truncated]");
        out
    } else {
        from_chars(&chars)
    }
}

/// `out` with `line` on a line of its own, where that stays within `max` tokens.
pub open spec fn with_line(out: Seq<char>, line: Seq<char>, max: int) -> Seq<char> {
    if tokens_of(out.push('\n') + line) <= max {
        out.push('\n') + line
    } else {
        out
    }
}

/// Appends `line` on a line of its own, where that stays within `max_tokens`; says
/// whether it did.
pub fn push_line_within_budget(out: &mut String, line: &str, max_tokens: u64) -> (r: bool)
    ensures
        final(out)@ == with_line(old(out)@, line@, max_tokens as int),
        r == (tokens_of(old(out)@.push('\n') + line@) <= max_tokens),
{
    let mut longer = out.clone();
    longer.push('\n');
    longer.append(line);
    if estimate_tokens(longer.as_str()) <= max_tokens {
        *out = longer;
        true
    } else {
        false
    }
}

/// Which key a line of a tool output starts with.
pub open spec fn key_of(line: Seq<char>) -> Option<int> {
    let text = trim_start_of(line);
    if has_prefix(text, "status:"@) {
        Some(0)
    } else if has_prefix(text, "program:"@) {
        Some(1)
    } else if has_prefix(text, "exit_code:"@) {
        Some(2)
    } else if has_prefix(text, "artifact:"@) {
        Some(3)
    } else if has_prefix(text, "error:"@) {
        Some(4)
    } else {
        None
    }
}

fn key_kind(line: &str) -> (r: Option<usize>)
    ensures
        match r {
            Some(k) => key_of(line@) == Some(k as int) && k < 5,
            None => key_of(line@) is None,
        },
{
    let text = trim_start(line);
    if starts_with(text.as_str(), "status:") {
        Some(0)
    } else if starts_with(text.as_str(), "program:") {
        Some(1)
    } else if starts_with(text.as_str(), "exit_code:") {
        Some(2)
    } else if starts_with(text.as_str(), "artifact:") {
        Some(3)
    } else if starts_with(text.as_str(), "error:") {
        Some(4)
    } else {
        None
    }
}

/// The last lines of an output, cut to length.
pub open spec fn tail_of(all: Seq<Seq<char>>) -> Seq<Seq<char>> {
    let start = if all.len() > TAIL_LINES {
        all.len() - TAIL_LINES
    } else {
        0
    };
    Seq::new((all.len() - start) as nat, |i: int| truncated(all[start + i], MAX_LINE_CHARS as int))
}

/// What a scan of the lines for keys has found.
pub struct KeyScan {
    /// The lines to keep.
    pub lines: Seq<Seq<char>>,
    /// How many lines of each key are kept.
    pub counts: Seq<nat>,
    /// How many lines were left out for having too many of their key.
    pub omitted: nat,
}

/// The scan before the first line.
pub open spec fn no_keys() -> KeyScan {
    KeyScan { lines: Seq::empty(), counts: seq![0nat, 0nat, 0nat, 0nat, 0nat], omitted: 0 }
}

/// The scan of one more line: a line with a key is kept once, cut to length, unless the
/// tail holds it, or enough lines of its key are kept.
pub open spec fn scan_line(scan: KeyScan, line: Seq<char>, tail: Seq<Seq<char>>) -> KeyScan {
    let bounded = truncated(line, MAX_LINE_CHARS as int);
    match key_of(line) {
        Some(k) => if tail.contains(bounded) || scan.lines.contains(bounded) {
            scan
        } else if scan.counts[k] >= MAX_LINES_PER_KEY {
            KeyScan { omitted: scan.omitted + 1, ..scan }
        } else {
            KeyScan {
                lines: scan.lines.push(bounded),
                counts: scan.counts.update(k, scan.counts[k] + 1),
                ..scan
            }
        },
        None => scan,
    }
}

/// The scan of all lines.
pub open spec fn scan_of(all: Seq<Seq<char>>, tail: Seq<Seq<char>>) -> KeyScan
    decreases all.len(),
{
    if all.len() == 0 {
        no_keys()
    } else {
        scan_line(scan_of(all.drop_last(), tail), all.last(), tail)
    }
}

/// `out` with each line that still fits.
pub open spec fn with_lines(out: Seq<char>, more: Seq<Seq<char>>, max: int) -> Seq<char>
    decreases more.len(),
{
    if more.len() == 0 {
        out
    } else {
        with_line(with_lines(out, more.drop_last(), max), more.last(), max)
    }
}

/// How many of the lines do not fit.
pub open spec fn left_out(out: Seq<char>, more: Seq<Seq<char>>, max: int) -> nat
    decreases more.len(),
{
    if more.len() == 0 {
        0
    } else {
        let before = with_lines(out, more.drop_last(), max);
        left_out(out, more.drop_last(), max) + (if tokens_of(before.push('\n') + more.last())
            <= max {
            0nat
        } else {
            1nat
        })
    }
}

/// `out` with the lines up to the first that does not fit, and a mark in its place.
pub open spec fn with_tail(out: Seq<char>, more: Seq<Seq<char>>, max: int) -> Seq<char>
    decreases more.len(),
{
    if more.len() == 0 {
        out
    } else if tokens_of(out.push('\n') + more[0]) <= max {
        with_tail(out.push('\n') + more[0], more.drop_first(), max)
    } else {
        with_line(out, "[remaining tail lines omitted]"@, max)
    }
}

/// The first line of a pruned output: how large it was, and a digest of it.
pub open spec fn prune_head(content: Seq<char>) -> Seq<char> {
    "[output pruned: "@ + decimal_of(tokens_of(content)) + " tokens, digest "@ + digest_of(
        content,
        16,
    ) + "]"@
}

/// A large tool output made small: its size and digest, its key lines, its last lines.
pub open spec fn pruned_output(content: Seq<char>) -> Seq<char> {
    let all = lines_of(content);
    let tail = tail_of(all);
    let scan = scan_of(all, tail);
    let keys = with_lines(prune_head(content), scan.lines, MAX_KEY_TOKENS as int);
    let omitted = scan.omitted + left_out(
        prune_head(content),
        scan.lines,
        MAX_KEY_TOKENS as int,
    );
    let marked = if omitted > 0 {
        with_line(
            keys,
            "["@ + decimal_of(omitted) + " additional key lines omitted]"@,
            MAX_KEY_TOKENS as int,
        )
    } else {
        keys
    };
    let split = if all.len() > TAIL_LINES {
        with_line(marked, "--- tail ---"@, MAX_PRUNED_TOKENS as int)
    } else {
        marked
    };
    with_tail(split, tail, MAX_PRUNED_TOKENS as int)
}

/// Whether `list` holds `text`.
pub fn list_contains(list: &Vec<String>, text: &str) -> (r: bool)
    ensures
        r == views(list@).contains(text@),
{
    let mut i: usize = 0;
    while i < list.len()
        invariant
            i <= list@.len(),
            forall|j: int| 0 <= j < i ==> list@[j]@ != text@,
        decreases list@.len() - i,
    {
        if same(list[i].as_str(), text) {
            assert(views(list@)[i as int] == text@);
            return true;
        }
        i += 1;
    }
    proof {
        if views(list@).contains(text@) {
            let k = choose|k: int| 0 <= k < views(list@).len() && views(list@)[k] == text@;
            assert(list@[k]@ == text@);
        }
    }
    false
}

fn tail_lines(all: &Vec<String>) -> (r: Vec<String>)
    ensures
        views(r@) == tail_of(views(all@)),
{
    let start: usize = if all.len() > TAIL_LINES {
        all.len() - TAIL_LINES
    } else {
        0
    };
    let mut out: Vec<String> = Vec::new();
    let mut i: usize = start;
    while i < all.len()
        invariant
            start == (if all@.len() > TAIL_LINES {
                all@.len() - TAIL_LINES
            } else {
                0
            }),
            start <= i <= all@.len(),
            views(out@) == tail_of(views(all@)).take(i - start),
        decreases all@.len() - i,
    {
        let line = truncate_line(all[i].as_str(), MAX_LINE_CHARS);
        proof {
            views_push(out@, line);
        }
        out.push(line);
        i += 1;
        assert(views(out@) =~= tail_of(views(all@)).take(i - start));
    }
    assert(tail_of(views(all@)).take(i - start) =~= tail_of(views(all@)));
    out
}

/// The views of the counters of a scan.
spec fn counts_view(counts: Seq<usize>) -> Seq<nat> {
    Seq::new(counts.len(), |i: int| counts[i] as nat)
}

fn scan_keys(all: &Vec<String>, tail: &Vec<String>) -> (r: (Vec<String>, usize))
    ensures
        views(r.0@) == scan_of(views(all@), views(tail@)).lines,
        r.1 == scan_of(views(all@), views(tail@)).omitted,
        r.0@.len() + r.1 <= all@.len(),
{
    let mut kept: Vec<String> = Vec::new();
    let mut counts: Vec<usize> = vec![0usize, 0, 0, 0, 0];
    let mut omitted: usize = 0;
    let mut i: usize = 0;
    proof {
        assert(views(kept@) =~= no_keys().lines);
        assert(counts_view(counts@) =~= no_keys().counts);
    }
    while i < all.len()
        invariant
            i <= all@.len(),
            counts@.len() == 5,
            kept@.len() + omitted <= i,
            forall|k: int| 0 <= k < 5 ==> counts@[k] <= kept@.len(),
            ({
                let scan = scan_of(views(all@).take(i as int), views(tail@));
                &&& views(kept@) == scan.lines
                &&& counts_view(counts@) == scan.counts
                &&& omitted == scan.omitted
            }),
        decreases all@.len() - i,
    {
        let ghost before = scan_of(views(all@).take(i as int), views(tail@));
        proof {
            let next = views(all@).take(i + 1);
            assert(next.drop_last() =~= views(all@).take(i as int));
            assert(next.last() == all@[i as int]@);
        }
        let line = &all[i];
        if let Some(k) = key_kind(line.as_str()) {
            let bounded = truncate_line(line.as_str(), MAX_LINE_CHARS);
            let held = list_contains(tail, bounded.as_str()) || list_contains(
                &kept,
                bounded.as_str(),
            );
            if !held {
                if counts[k] >= MAX_LINES_PER_KEY {
                    assert(counts_view(counts@)[k as int] >= MAX_LINES_PER_KEY);
                    omitted += 1;
                } else {
                    let ghost old_counts = counts@;
                    let n: usize = counts[k];
                    counts.set(k, n + 1);
                    proof {
                        views_push(kept@, bounded);
                        assert(counts_view(counts@) =~= counts_view(old_counts).update(
                            k as int,
                            (old_counts[k as int] + 1) as nat,
                        ));
                    }
                    kept.push(bounded);
                }
            }
        }
        i += 1;
    }
    assert(views(all@).take(i as int) =~= views(all@));
    (kept, omitted)
}

/// A large tool output made small.
///
/// What remains is a head with its size and digest, the lines that name a status, a
/// program, an exit code, an artifact or an error, even from far above the end, and the
/// last lines.
pub fn prune_tool_output(content: &str) -> (r: String)
    ensures
        r@ == pruned_output(content@),
        tokens_of(r@) <= MAX_PRUNED_TOKENS,
{
    let all = lines(content);
    let tail = tail_lines(&all);
    let (kept, over) = scan_keys(&all, &tail);
    let mut out = owned("[output pruned: ");
    let size: u64 = estimate_tokens(content);
    let count = decimal(size as u128);
    out.append(count.as_str());
    out.append(" tokens, digest ");
    let mark = digest(content, 16);
    out.append(mark.as_str());
    out.append("]");
    let ghost head = out@;
    proof {
        assert(head =~= prune_head(content@));
        lemma_head_small(content@, mark@, size);
    }
    let mut omitted: usize = over;
    let mut i: usize = 0;
    while i < kept.len()
        invariant
            i <= kept@.len(),
            over + kept@.len() <= all@.len(),
            omitted == over + left_out(head, views(kept@).take(i as int), MAX_KEY_TOKENS as int),
            omitted <= over + i,
            out@ == with_lines(head, views(kept@).take(i as int), MAX_KEY_TOKENS as int),
            tokens_of(out@) <= MAX_KEY_TOKENS,
        decreases kept@.len() - i,
    {
        proof {
            let next = views(kept@).take(i + 1);
            assert(next.drop_last() =~= views(kept@).take(i as int));
            assert(next.last() == kept@[i as int]@);
        }
        let total: usize = all.len();
        assert(over + i < total);
        if !push_line_within_budget(&mut out, kept[i].as_str(), MAX_KEY_TOKENS) {
            omitted += 1;
        }
        i += 1;
    }
    assert(views(kept@).take(i as int) =~= views(kept@));
    if omitted > 0 {
        let mut marker = owned("[");
        let number = decimal(omitted as u128);
        marker.append(number.as_str());
        marker.append(" additional key lines omitted]");
        let _fits = push_line_within_budget(&mut out, marker.as_str(), MAX_KEY_TOKENS);
    }
    if all.len() > TAIL_LINES {
        let _fits = push_line_within_budget(&mut out, "--- tail ---", MAX_PRUNED_TOKENS);
    }
    let ghost split = out@;
    let mut j: usize = 0;
    assert(views(tail@).skip(0) =~= views(tail@));
    while j < tail.len()
        invariant
            j <= tail@.len(),
            tokens_of(out@) <= MAX_PRUNED_TOKENS,
            with_tail(out@, views(tail@).skip(j as int), MAX_PRUNED_TOKENS as int) == with_tail(
                split,
                views(tail@),
                MAX_PRUNED_TOKENS as int,
            ),
            with_tail(split, views(tail@), MAX_PRUNED_TOKENS as int) == pruned_output(content@),
        decreases tail@.len() - j,
    {
        proof {
            let rest = views(tail@).skip(j as int);
            assert(rest[0] == tail@[j as int]@);
            assert(rest.drop_first() =~= views(tail@).skip(j + 1));
        }
        if !push_line_within_budget(&mut out, tail[j].as_str(), MAX_PRUNED_TOKENS) {
            let _fits = push_line_within_budget(
                &mut out,
                "[remaining tail lines omitted]",
                MAX_PRUNED_TOKENS,
            );
            return out;
        }
        j += 1;
    }
    out
}

proof fn lemma_decimal_len(n: nat, k: nat)
    requires
        n < pow10(k),
        k >= 1,
    ensures
        decimal_of(n).len() <= k,
    decreases k,
{
    if n >= 10 {
        assert(k > 1) by {
            reveal_with_fuel(pow10, 3);
        }
        assert(pow10(k) == 10 * pow10((k - 1) as nat));
        assert(n / 10 < pow10((k - 1) as nat));
        lemma_decimal_len(n / 10, (k - 1) as nat);
    }
}

/// 10 to the power of `k`.
spec fn pow10(k: nat) -> nat
    decreases k,
{
    if k == 0 {
        1
    } else {
        10 * pow10((k - 1) as nat)
    }
}

proof fn lemma_head_small(content: Seq<char>, mark: Seq<char>, size: u64)
    requires
        size == tokens_of(content),
        mark == digest_of(content, 16),
    ensures
        tokens_of(prune_head(content)) <= MAX_KEY_TOKENS,
{
    reveal_strlit("[output pruned: ");
    reveal_strlit(" tokens, digest ");
    reveal_strlit("]");
    assert(size < pow10(20)) by {
        reveal_with_fuel(pow10, 21);
    }
    lemma_decimal_len(size as nat, 20);
    lemma_tokens_bound(prune_head(content));
}

/// A message with its tool output pruned, where it is one and large.
pub open spec fn pruned_message(message: ChatMessageView) -> ChatMessageView {
    match message {
        ChatMessageView::Tool { tool_call_id, name, content } => if tokens_of(content)
            > MAX_TOOL_OUTPUT_TOKENS {
            ChatMessageView::Tool { tool_call_id, name, content: pruned_output(content) }
        } else {
            message
        },
        _ => message,
    }
}

/// Messages with their large tool outputs pruned.
pub open spec fn pruned_messages(messages: Seq<ChatMessageView>) -> Seq<ChatMessageView> {
    Seq::new(messages.len(), |i: int| pruned_message(messages[i]))
}

/// The messages with every large tool output pruned.
pub fn prune_messages(messages: Vec<ChatMessage>) -> (r: Vec<ChatMessage>)
    ensures
        views(r@) == pruned_messages(views(messages@)),
{
    let mut out: Vec<ChatMessage> = Vec::new();
    let mut i: usize = 0;
    while i < messages.len()
        invariant
            i <= messages@.len(),
            views(out@) == pruned_messages(views(messages@)).take(i as int),
        decreases messages@.len() - i,
    {
        let next = match &messages[i] {
            ChatMessage::Tool { tool_call_id, name, content } => {
                let kept = if estimate_tokens(content.as_str()) > MAX_TOOL_OUTPUT_TOKENS {
                    prune_tool_output(content.as_str())
                } else {
                    content.clone()
                };
                ChatMessage::Tool {
                    tool_call_id: tool_call_id.clone(),
                    name: name.clone(),
                    content: kept,
                }
            },
            other => other.clone(),
        };
        proof {
            assert(next@ == pruned_message(messages@[i as int]@));
            views_push(out@, next);
        }
        out.push(next);
        i += 1;
        assert(views(out@) =~= pruned_messages(views(messages@)).take(i as int));
    }
    assert(pruned_messages(views(messages@)).take(i as int) =~= pruned_messages(views(messages@)));
    out
}

/// What a model is told to summarise a conversation by.
pub const SUMMARY_SCHEMA: &'static str =
    "请把下面的会话事实压缩为结构化摘要，严格按以下字段：

Goal
Constraints
Decisions
Completed
In progress
Next exact action
Relevant files and revisions
Verification status
Failed attempts and why

要求：只保留用户内容、已提交的 assistant 内容、工具证据和结构化状态；
不要从 reasoning 提炼事实；不要编造不存在的细节。输出纯文本，字段用
'Field: value' 格式。";

/// The messages of a request for a summary: what to do, then what to summarise.
pub open spec fn summary_request_of(messages: Seq<ChatMessageView>) -> Seq<ChatMessageView> {
    seq![ChatMessageView::System(SUMMARY_SCHEMA@)] + messages
}

/// The messages of a request for a summary.
pub fn compaction_request_messages(messages: &Vec<ChatMessage>) -> (r: Vec<ChatMessage>)
    ensures
        views(r@) == summary_request_of(views(messages@)),
{
    let mut out: Vec<ChatMessage> = Vec::new();
    out.push(ChatMessage::System(owned(SUMMARY_SCHEMA)));
    assert(views(out@) =~= seq![ChatMessageView::System(SUMMARY_SCHEMA@)]);
    extend_messages(&mut out, messages);
    out
}

/// The fields of a summary.
pub open spec fn summary_fields() -> Seq<Seq<char>> {
    seq![
        "Goal"@,
        "Constraints"@,
        "Decisions"@,
        "Completed"@,
        "In progress"@,
        "Next exact action"@,
        "Relevant files and revisions"@,
        "Verification status"@,
        "Failed attempts and why"@,
    ]
}

/// Whether a line gives field `k` of a summary a value.
pub open spec fn gives_field(line: Seq<char>, k: int) -> bool {
    match split_once_of(line, ':') {
        Some((name, value)) => trim_of(name) == summary_fields()[k] && trim_of(value).len() > 0,
        None => false,
    }
}

/// Whether a line gives some field of a summary a value.
pub open spec fn gives_some(line: Seq<char>) -> bool {
    exists|k: int| 0 <= k < 9 && gives_field(line, k)
}

/// The lines that say something.
pub open spec fn full_lines(all: Seq<Seq<char>>) -> Seq<Seq<char>> {
    all.filter(|line: Seq<char>| trim_of(line).len() > 0)
}

/// Whether exactly one of the lines gives field `k`.
pub open spec fn given_once(all: Seq<Seq<char>>, k: int) -> bool {
    exists|i: int|
        #![trigger all[i]]
        0 <= i < all.len() && gives_field(all[i], k) && forall|j: int|
            0 <= j < all.len() && gives_field(#[trigger] all[j], k) ==> j == i
}

/// Whether every line gives a field and every field is given by exactly one line.
pub open spec fn is_summary(text: Seq<char>) -> bool {
    let all = full_lines(lines_of(text));
    &&& forall|i: int| 0 <= i < all.len() ==> gives_some(#[trigger] all[i])
    &&& forall|k: int| 0 <= k < 9 ==> #[trigger] given_once(all, k)
}

fn field_index(name: &str) -> (r: Option<usize>)
    ensures
        match r {
            Some(k) => k < 9 && summary_fields()[k as int] == name@,
            None => forall|k: int| 0 <= k < 9 ==> #[trigger] summary_fields()[k] != name@,
        },
{
    if same(name, "Goal") {
        Some(0)
    } else if same(name, "Constraints") {
        Some(1)
    } else if same(name, "Decisions") {
        Some(2)
    } else if same(name, "Completed") {
        Some(3)
    } else if same(name, "In progress") {
        Some(4)
    } else if same(name, "Next exact action") {
        Some(5)
    } else if same(name, "Relevant files and revisions") {
        Some(6)
    } else if same(name, "Verification status") {
        Some(7)
    } else if same(name, "Failed attempts and why") {
        Some(8)
    } else {
        None
    }
}

proof fn lemma_fields_differ(i: int, j: int)
    requires
        0 <= i < 9,
        0 <= j < 9,
        summary_fields()[i] == summary_fields()[j],
    ensures
        i == j,
{
    reveal_strlit("Goal");
    reveal_strlit("Constraints");
    reveal_strlit("Decisions");
    reveal_strlit("Completed");
    reveal_strlit("In progress");
    reveal_strlit("Next exact action");
    reveal_strlit("Relevant files and revisions");
    reveal_strlit("Verification status");
    reveal_strlit("Failed attempts and why");
    let s = summary_fields();
    assert(s[0][0] == 'G' && s[1][2] == 'n' && s[2][0] == 'D' && s[3][2] == 'm' && s[4][0] == 'I'
        && s[5][0] == 'N' && s[6][0] == 'R' && s[7][0] == 'V' && s[8][0] == 'F');
    assert(s[1][0] == 'C' && s[3][0] == 'C');
}

/// The trimmed text of a summary that gives every field exactly once, each on a line of
/// its own as `Field: value`; the empty text otherwise.
pub fn parse_summary(text: &str) -> (r: String)
    ensures
        r@ == if is_summary(trim_of(text@)) {
            trim_of(text@)
        } else {
            Seq::empty()
        },
{
    let trimmed = trim(text);
    let all = lines(trimmed.as_str());
    let ghost pred = |line: Seq<char>| trim_of(line).len() > 0;
    let ghost whole = full_lines(views(all@));
    let mut seen: Vec<bool> = vec![false, false, false, false, false, false, false, false, false];
    let ghost mut used: Seq<Seq<char>> = Seq::empty();
    let ghost mut owner: Seq<int> = Seq::new(9, |k: int| -1);
    let mut i: usize = 0;
    proof {
        assert(views(all@).take(0) =~= Seq::<Seq<char>>::empty());
        assert(full_lines(views(all@).take(0)) =~= Seq::<Seq<char>>::empty());
    }
    while i < all.len()
        invariant
            trimmed@ == trim_of(text@),
            views(all@) == lines_of(trimmed@),
            whole == full_lines(views(all@)),
            i <= all@.len(),
            seen@.len() == 9,
            owner.len() == 9,
            used == full_lines(views(all@).take(i as int)),
            used.len() <= whole.len(),
            forall|j: int| 0 <= j < used.len() ==> whole[j] == used[j],
            forall|j: int| 0 <= j < used.len() ==> gives_some(#[trigger] used[j]),
            forall|k: int|
                #![trigger seen@[k]]
                0 <= k < 9 && seen@[k] ==> 0 <= owner[k] < used.len() && gives_field(
                    used[owner[k]],
                    k,
                ),
            forall|j: int, k: int|
                #![trigger gives_field(used[j], k)]
                0 <= j < used.len() && 0 <= k < 9 && gives_field(used[j], k) ==> seen@[k]
                    && owner[k] == j,
        decreases all@.len() - i,
    {
        let line = &all[i];
        let ghost next = views(all@).take(i + 1);
        proof {
            assert(next.drop_last() =~= views(all@).take(i as int));
            assert(next.last() == line@);
            lemma_full_lines_step(views(all@), i as int);
        }
        let content = trim(line.as_str());
        if content.as_str().is_empty() {
            i += 1;
            continue;
        }
        let ghost before = used;
        proof {
            used = before.push(line@);
        }
        let ghost at = before.len() as int;
        match split_once(line.as_str(), ':') {
            Some((name, value)) => {
                let key = trim(name.as_str());
                let worth = trim(value.as_str());
                match field_index(key.as_str()) {
                    Some(k) => {
                        if seen[k] || worth.as_str().is_empty() {
                            proof {
                                assert(whole[at] == line@);
                                if worth@.len() == 0 {
                                    assert forall|m: int| 0 <= m < 9 implies !gives_field(
                                        whole[at],
                                        m,
                                    ) by {}
                                } else {
                                    assert(gives_field(whole[at], k as int));
                                    assert(gives_field(whole[owner[k as int]], k as int));
                                    assert(!given_once(whole, k as int));
                                }
                                assert(!is_summary(trimmed@));
                            }
                            return String::new();
                        }
                        seen.set(k, true);
                        proof {
                            owner = owner.update(k as int, at);
                            assert(gives_field(used[at], k as int));
                            assert forall|j: int, m: int|
                                #![trigger gives_field(used[j], m)]
                                0 <= j < used.len() && 0 <= m < 9 && gives_field(
                                    used[j],
                                    m,
                                ) implies seen@[m] && owner[m] == j by {
                                if j == at {
                                    lemma_fields_differ(m, k as int);
                                } else {
                                    assert(before[j] == used[j]);
                                    assert(gives_field(before[j], m));
                                }
                            }
                            assert forall|m: int|
                                #![trigger seen@[m]]
                                0 <= m < 9 && seen@[m] implies 0 <= owner[m] < used.len()
                                && gives_field(used[owner[m]], m) by {
                                if m != k {
                                    assert(gives_field(before[owner[m]], m));
                                }
                            }
                            assert forall|j: int| 0 <= j < used.len() implies gives_some(
                                #[trigger] used[j],
                            ) by {
                                if j < at {
                                    assert(used[j] == before[j]);
                                } else {
                                    assert(gives_field(used[at], k as int));
                                }
                            }
                        }
                    },
                    None => {
                        proof {
                            assert(whole[at] == line@);
                            assert forall|m: int| 0 <= m < 9 implies !gives_field(
                                whole[at],
                                m,
                            ) by {}
                            assert(!is_summary(trimmed@));
                        }
                        return String::new();
                    },
                }
            },
            None => {
                proof {
                    assert(whole[at] == line@);
                    assert forall|m: int| 0 <= m < 9 implies !gives_field(whole[at], m) by {}
                    assert(!is_summary(trimmed@));
                }
                return String::new();
            },
        }
        i += 1;
    }
    proof {
        assert(views(all@).take(i as int) =~= views(all@));
        assert(used =~= whole);
    }
    let mut k: usize = 0;
    while k < 9
        invariant
            trimmed@ == trim_of(text@),
            views(all@) == lines_of(trimmed@),
            whole == full_lines(views(all@)),
            k <= 9,
            seen@.len() == 9,
            forall|m: int| 0 <= m < k ==> seen@[m],
            forall|j: int, m: int|
                #![trigger gives_field(whole[j], m)]
                0 <= j < whole.len() && 0 <= m < 9 && gives_field(whole[j], m) ==> seen@[m],
        decreases 9 - k,
    {
        if !seen[k] {
            proof {
                assert(forall|j: int|
                    0 <= j < whole.len() ==> !gives_field(#[trigger] whole[j], k as int));
                assert(!given_once(whole, k as int));
                assert(!is_summary(trimmed@));
            }
            return String::new();
        }
        k += 1;
    }
    proof {
        assert(whole == full_lines(lines_of(trimmed@)));
        assert forall|i: int| 0 <= i < whole.len() implies gives_some(#[trigger] whole[i]) by {
            assert(used[i] == whole[i]);
        }
        assert forall|k: int| 0 <= k < 9 implies #[trigger] given_once(whole, k) by {
            assert(seen@[k]);
            let i = owner[k];
            assert(gives_field(whole[i], k));
            assert forall|j: int|
                0 <= j < whole.len() && gives_field(#[trigger] whole[j], k) implies j == i by {
                assert(gives_field(used[j], k));
            }
        }
        assert(is_summary(trimmed@));
    }
    trimmed
}

proof fn lemma_full_lines_step(all: Seq<Seq<char>>, i: int)
    requires
        0 <= i < all.len(),
    ensures
        full_lines(all.take(i + 1)) == if trim_of(all[i]).len() > 0 {
            full_lines(all.take(i)).push(all[i])
        } else {
            full_lines(all.take(i))
        },
        full_lines(all.take(i + 1)).len() <= full_lines(all).len(),
        forall|j: int|
            0 <= j < full_lines(all.take(i + 1)).len() ==> full_lines(all)[j] == full_lines(
                all.take(i + 1),
            )[j],
{
    let pred = |line: Seq<char>| trim_of(line).len() > 0;
    let next = all.take(i + 1);
    assert(next.drop_last() =~= all.take(i));
    assert(next.last() == all[i]);
    assert(full_lines(next) == next.filter(pred));
    assert(full_lines(all.take(i)) == all.take(i).filter(pred));
    reveal(Seq::filter);
    Seq::filter_distributes_over_add(next, all.skip(i + 1), pred);
    assert(next + all.skip(i + 1) =~= all);
    assert(full_lines(all) == next.filter(pred) + all.skip(i + 1).filter(pred));
}

/// Whether a summary is enough smaller than what it stands for: at most one half of 64,000
/// tokens or more, one third of 16,000 or more, one quarter of less.
pub open spec fn shrinks(original_tokens: int, summary_tokens: int) -> bool {
    let ratio = if original_tokens >= 64_000 {
        2int
    } else if original_tokens >= 16_000 {
        3
    } else {
        4
    };
    &&& 0 < summary_tokens < original_tokens
    &&& summary_tokens * ratio < original_tokens
}

/// Whether a summary is enough smaller than what it stands for.
pub fn is_significant_shrink(original_tokens: u64, summary_tokens: u64) -> (r: bool)
    ensures
        r == shrinks(original_tokens as int, summary_tokens as int),
{
    if summary_tokens == 0 || summary_tokens >= original_tokens {
        return false;
    }
    let ratio: u64 = if original_tokens >= 64_000 {
        2
    } else if original_tokens >= 16_000 {
        3
    } else {
        4
    };
    summary_tokens <= (original_tokens - 1) / ratio
}

proof fn lemma_with_lines_bound(out: Seq<char>, more: Seq<Seq<char>>, max: int)
    requires
        tokens_of(out) <= max,
    ensures
        tokens_of(with_lines(out, more, max)) <= max,
    decreases more.len(),
{
    if more.len() > 0 {
        lemma_with_lines_bound(out, more.drop_last(), max);
    }
}

proof fn lemma_with_tail_bound(out: Seq<char>, more: Seq<Seq<char>>, max: int)
    requires
        tokens_of(out) <= max,
    ensures
        tokens_of(with_tail(out, more, max)) <= max,
    decreases more.len(),
{
    if more.len() > 0 && tokens_of(out.push('\n') + more[0]) <= max {
        lemma_with_tail_bound(out.push('\n') + more[0], more.drop_first(), max);
    }
}

/// A pruned output stays within its limit, whatever was pruned.
pub proof fn pruned_output_is_bounded(content: Seq<char>)
    requires
        content.len() < u64::MAX,
    ensures
        tokens_of(pruned_output(content)) <= MAX_PRUNED_TOKENS,
{
    let all = lines_of(content);
    let tail = tail_of(all);
    let scan = scan_of(all, tail);
    lemma_tokens_bound(content);
    lemma_head_small(content, digest_of(content, 16), tokens_of(content) as u64);
    lemma_with_lines_bound(prune_head(content), scan.lines, MAX_KEY_TOKENS as int);
    let keys = with_lines(prune_head(content), scan.lines, MAX_KEY_TOKENS as int);
    let omitted = scan.omitted + left_out(
        prune_head(content),
        scan.lines,
        MAX_KEY_TOKENS as int,
    );
    let marked = if omitted > 0 {
        with_line(
            keys,
            "["@ + decimal_of(omitted) + " additional key lines omitted]"@,
            MAX_KEY_TOKENS as int,
        )
    } else {
        keys
    };
    let split = if all.len() > TAIL_LINES {
        with_line(marked, "--- tail ---"@, MAX_PRUNED_TOKENS as int)
    } else {
        marked
    };
    lemma_with_tail_bound(split, tail, MAX_PRUNED_TOKENS as int);
}

/// Pruning keeps the number and the order of the messages, leaves everything but tool
/// outputs as it was, and leaves no tool output over the limit.
pub proof fn pruning_bounds_every_output(messages: Seq<ChatMessageView>, i: int)
    requires
        0 <= i < messages.len(),
        messages[i] matches ChatMessageView::Tool { tool_call_id, name, content } ==> content.len()
            < u64::MAX,
    ensures
        pruned_messages(messages).len() == messages.len(),
        match pruned_messages(messages)[i] {
            ChatMessageView::Tool { tool_call_id, name, content } => tokens_of(content)
                <= MAX_TOOL_OUTPUT_TOKENS,
            other => other == messages[i],
        },
{
    if let ChatMessageView::Tool { tool_call_id, name, content } = messages[i] {
        pruned_output_is_bounded(content);
    }
}

/// Pruning what is pruned changes nothing more.
pub proof fn pruning_twice_is_pruning_once(messages: Seq<ChatMessageView>)
    requires
        forall|i: int|
            0 <= i < messages.len() ==> (#[trigger] messages[i] matches ChatMessageView::Tool {
                tool_call_id,
                name,
                content,
            } ==> content.len() < u64::MAX),
    ensures
        pruned_messages(pruned_messages(messages)) == pruned_messages(messages),
{
    let once = pruned_messages(messages);
    assert forall|i: int| 0 <= i < once.len() implies pruned_messages(once)[i] == once[i] by {
        pruning_bounds_every_output(messages, i);
    }
    assert(pruned_messages(once) =~= once);
}

/// A summary that a compaction may commit is smaller than what it replaces.
pub proof fn shrinking_is_strict(original_tokens: int, summary_tokens: int)
    requires
        shrinks(original_tokens, summary_tokens),
    ensures
        0 < summary_tokens,
        2 * summary_tokens < original_tokens,
{
}

} // verus!
