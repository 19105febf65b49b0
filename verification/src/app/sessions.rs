//! The sessions of a workspace: which there are, and what can be told of them without
//! reading them whole.
use crate::clock::date_of;
use crate::clock::fmt_time_short;
use crate::clock::short_text;
use crate::ids::hyphenated;
use crate::ids::uuid_parse;
use crate::ids::SessionId;
use crate::text::clip;
use crate::text::clipped;
use crate::text::decimal;
use crate::text::decimal_of;
use crate::text::ends_with;
use crate::text::has_prefix;
use crate::text::has_suffix;
use crate::text::join;
use crate::text::join_of;
use crate::text::lines;
use crate::text::lines_of;
use crate::text::lower;
use crate::text::lower_of;
use crate::text::opt_view;
use crate::text::owned;
use crate::text::slice;
use crate::text::starts_with;
use crate::text::take;
use crate::text::take_of;
use crate::text::to_chars;
use crate::text::trim;
use crate::text::trim_of;
use crate::text::views;
use crate::text::views_push;
use vstd::prelude::*;
use vstd::string::*;

verus! {

/// Which session to work in.
#[derive(Debug, Clone, PartialEq, Eq)]
pub enum SessionTarget {
    /// A new one.
    New,
    /// The last one of the workspace.
    Continue,
    /// The one of this name, or whose name begins so.
    Resume(String),
}

/// The most sessions that are listed.
pub const MAX_SESSION_CHOICES: usize = 100;

/// How many lines of a session are read for a preview.
pub const MAX_PREVIEW_LINES: usize = 500;

/// How many messages a preview shows.
pub const PREVIEW_MESSAGES: usize = 6;

/// Whether a byte is white space.
pub open spec fn is_space_byte(byte: u8) -> bool {
    byte == 0x20 || byte == 0x09 || byte == 0x0a || byte == 0x0c || byte == 0x0d
}

/// Counts lines that are not empty.
#[derive(Debug, Clone, Copy, PartialEq, Eq, Structural)]
pub struct LineCounter {
    /// The lines that have ended.
    pub ended: usize,
    /// Whether there is something on the line that has not.
    pub open: bool,
}

/// The counter after one more byte.
pub open spec fn counted(counter: LineCounter, byte: u8) -> LineCounter {
    if byte == 0x0a {
        LineCounter {
            ended: if counter.open && counter.ended < usize::MAX {
                (counter.ended + 1) as usize
            } else {
                counter.ended
            },
            open: false,
        }
    } else {
        LineCounter { open: counter.open || !is_space_byte(byte), ..counter }
    }
}

/// The counter after some bytes.
pub open spec fn counted_all(counter: LineCounter, bytes: Seq<u8>) -> LineCounter
    decreases bytes.len(),
{
    if bytes.len() == 0 {
        counter
    } else {
        counted(counted_all(counter, bytes.drop_last()), bytes.last())
    }
}

impl LineCounter {
    /// A counter of nothing.
    pub fn new() -> (r: Self)
        ensures
            r == (LineCounter { ended: 0, open: false }),
    {
        LineCounter { ended: 0, open: false }
    }

    /// Counts some bytes.
    pub fn feed(&mut self, bytes: &[u8])
        ensures
            *final(self) == counted_all(*old(self), bytes@),
    {
        let ghost before = *self;
        let mut i: usize = 0;
        assert(bytes@.take(0) =~= Seq::<u8>::empty());
        while i < bytes.len()
            invariant
                i <= bytes@.len(),
                *self == counted_all(before, bytes@.take(i as int)),
            decreases bytes@.len() - i,
        {
            let byte: u8 = bytes[i];
            proof {
                let next = bytes@.take(i + 1);
                assert(next.drop_last() =~= bytes@.take(i as int));
                assert(next.last() == byte);
            }
            if byte == 0x0a {
                if self.open && self.ended < usize::MAX {
                    self.ended = self.ended + 1;
                }
                self.open = false;
            } else if !(byte == 0x20 || byte == 0x09 || byte == 0x0c || byte == 0x0d) {
                self.open = true;
            }
            i += 1;
        }
        assert(bytes@.take(i as int) =~= bytes@);
    }

    /// How many lines there were; the last one counts though it has not ended.
    pub fn total(&self) -> (r: usize)
        ensures
            r == if self.open && self.ended < usize::MAX {
                self.ended + 1
            } else {
                self.ended as int
            },
    {
        if self.open && self.ended < usize::MAX {
            self.ended + 1
        } else {
            self.ended
        }
    }
}

/// How many lines of some bytes are not empty.
pub open spec fn filled_lines(bytes: Seq<u8>) -> int {
    let counter = counted_all(LineCounter { ended: 0, open: false }, bytes);
    if counter.open && counter.ended < usize::MAX {
        counter.ended + 1
    } else {
        counter.ended as int
    }
}

/// How many events a session holds: its lines that are not empty, whatever they say.
pub fn count_jsonl_lines(bytes: &[u8]) -> (r: usize)
    ensures
        r == filled_lines(bytes@),
{
    let mut counter = LineCounter::new();
    counter.feed(bytes);
    counter.total()
}

/// It does not matter in which pieces bytes are counted.
pub proof fn pieces_do_not_matter(counter: LineCounter, a: Seq<u8>, b: Seq<u8>)
    ensures
        counted_all(counted_all(counter, a), b) == counted_all(counter, a + b),
    decreases b.len(),
{
    if b.len() == 0 {
        assert(a + b =~= a);
    } else {
        pieces_do_not_matter(counter, a, b.drop_last());
        assert((a + b).drop_last() =~= a + b.drop_last());
    }
}

/// A line of a session, as far as previews read it.
#[derive(Debug)]
pub enum HeadLine {
    /// A line that says nothing to a preview: empty, too long, unreadable, or another event.
    Skipped,
    /// A message of the user.
    User(String),
    /// A message of the model.
    Assistant(String),
}

/// What a [`HeadLine`] says.
pub enum HeadLineView {
    Skipped,
    User(Seq<char>),
    Assistant(Seq<char>),
}

impl View for HeadLine {
    type V = HeadLineView;

    open spec fn view(&self) -> HeadLineView {
        match *self {
            HeadLine::Skipped => HeadLineView::Skipped,
            HeadLine::User(text) => HeadLineView::User(text@),
            HeadLine::Assistant(text) => HeadLineView::Assistant(text@),
        }
    }
}

/// The lines that previews read.
pub open spec fn head_of(all: Seq<HeadLineView>) -> Seq<HeadLineView> {
    if all.len() > MAX_PREVIEW_LINES {
        all.take(MAX_PREVIEW_LINES as int)
    } else {
        all
    }
}

/// The first message of the user.
pub open spec fn first_user(all: Seq<HeadLineView>) -> Option<Seq<char>>
    decreases all.len(),
{
    if all.len() == 0 {
        None
    } else {
        match all[0] {
            HeadLineView::User(text) => Some(text),
            _ => first_user(all.drop_first()),
        }
    }
}

/// The first line of a text.
pub open spec fn first_line_of(text: Seq<char>) -> Seq<char> {
    if lines_of(text).len() > 0 {
        lines_of(text)[0]
    } else {
        Seq::empty()
    }
}

/// The title of a session: the first line of the first message of the user, not too much of
/// it; nothing where there is none among the first lines.
pub open spec fn title_of(all: Seq<HeadLineView>) -> Seq<char> {
    match first_user(head_of(all)) {
        Some(text) => clipped(first_line_of(text), 40),
        None => Seq::empty(),
    }
}

/// The title of a session.
pub fn first_user_preview(all: &Vec<HeadLine>) -> (r: String)
    ensures
        r@ == title_of(views(all@)),
{
    let count: usize = if all.len() > MAX_PREVIEW_LINES {
        MAX_PREVIEW_LINES
    } else {
        all.len()
    };
    let ghost head = head_of(views(all@));
    let mut i: usize = 0;
    assert(head.skip(0) =~= head);
    while i < count
        invariant
            i <= count == head.len(),
            count <= all@.len(),
            head == head_of(views(all@)),
            first_user(head.skip(i as int)) == first_user(head),
        decreases count - i,
    {
        assert(head[i as int] == all@[i as int]@);
        assert(head.skip(i as int)[0] == head[i as int]);
        assert(head.skip(i as int).drop_first() =~= head.skip(i + 1));
        if let HeadLine::User(text) = &all[i] {
            let parts = lines(text.as_str());
            if parts.len() > 0 {
                assert(lines_of(text@)[0] == parts@[0]@);
                return clip(parts[0].as_str(), 40);
            }
            let empty = String::new();
            return clip(empty.as_str(), 40);
        }
        i += 1;
    }
    String::new()
}

/// A title is one line of at most 41 characters.
pub proof fn titles_are_short(all: Seq<HeadLineView>)
    ensures
        title_of(all).len() <= 41,
{
    reveal_strlit("…");
}

/// Only the first lines of a session are read for its title.
pub proof fn late_messages_do_not_count(all: Seq<HeadLineView>, more: Seq<HeadLineView>)
    requires
        all.len() >= MAX_PREVIEW_LINES,
    ensures
        title_of(all + more) == title_of(all),
{
    assert(head_of(all + more) =~= head_of(all));
}

/// A line of a preview.
#[derive(Debug, Clone, PartialEq, Eq)]
pub struct MenuPreviewLine {
    pub is_user: bool,
    pub text: String,
}

/// What a [`MenuPreviewLine`] says.
pub struct PreviewView {
    pub is_user: bool,
    pub text: Seq<char>,
}

impl View for MenuPreviewLine {
    type V = PreviewView;

    open spec fn view(&self) -> PreviewView {
        PreviewView { is_user: self.is_user, text: self.text@ }
    }
}

/// Whether a line opens or closes a block of code.
pub open spec fn is_fence(line: Seq<char>) -> bool {
    has_prefix(line, "```"@) || has_prefix(line, "~~~"@)
}

/// The first line, from line `i` on, that is neither empty nor code, without the space
/// around it; nothing where there is none.
pub open spec fn plain_line(all: Seq<Seq<char>>, i: int, in_code: bool) -> Seq<char>
    decreases all.len() - i,
{
    if i < 0 || i >= all.len() {
        Seq::empty()
    } else {
        let line = trim_of(all[i]);
        if is_fence(line) {
            plain_line(all, i + 1, !in_code)
        } else if in_code || line.len() == 0 {
            plain_line(all, i + 1, in_code)
        } else {
            line
        }
    }
}

fn first_plain_line(text: &str) -> (r: String)
    ensures
        r@ == plain_line(lines_of(text@), 0, false),
{
    let all = lines(text);
    let ghost whole = lines_of(text@);
    let mut in_code = false;
    let mut i: usize = 0;
    while i < all.len()
        invariant
            i <= all@.len(),
            views(all@) == whole,
            whole == lines_of(text@),
            plain_line(whole, i as int, in_code) == plain_line(whole, 0, false),
        decreases all@.len() - i,
    {
        assert(whole[i as int] == all@[i as int]@);
        let line = trim(all[i].as_str());
        if starts_with(line.as_str(), "```") || starts_with(line.as_str(), "~~~") {
            in_code = !in_code;
        } else if !in_code && !line.as_str().is_empty() {
            return line;
        }
        i += 1;
    }
    String::new()
}

/// A message in a preview; none for a message that is nothing but code.
pub open spec fn preview_of(line: HeadLineView) -> Option<PreviewView> {
    match line {
        HeadLineView::Skipped => None,
        HeadLineView::User(text) => if plain_line(lines_of(text), 0, false).len() == 0 {
            None
        } else {
            Some(
                PreviewView {
                    is_user: true,
                    text: clipped(plain_line(lines_of(text), 0, false), 60),
                },
            )
        },
        HeadLineView::Assistant(text) => if plain_line(lines_of(text), 0, false).len() == 0 {
            None
        } else {
            Some(
                PreviewView {
                    is_user: false,
                    text: clipped(plain_line(lines_of(text), 0, false), 60),
                },
            )
        },
    }
}

/// The preview of some lines.
pub open spec fn previews(all: Seq<HeadLineView>) -> Seq<PreviewView>
    decreases all.len(),
{
    if all.len() == 0 {
        Seq::empty()
    } else {
        let before = previews(all.drop_last());
        match preview_of(all.last()) {
            Some(line) => if before.len() < PREVIEW_MESSAGES {
                before.push(line)
            } else {
                before
            },
            None => before,
        }
    }
}

fn preview(line: &HeadLine) -> (r: Option<MenuPreviewLine>)
    ensures
        opt_view(r) == preview_of(line@),
{
    let (is_user, text) = match line {
        HeadLine::Skipped => {
            return None;
        },
        HeadLine::User(text) => (true, text),
        HeadLine::Assistant(text) => (false, text),
    };
    let title = first_plain_line(text.as_str());
    if title.as_str().is_empty() {
        None
    } else {
        Some(MenuPreviewLine { is_user, text: clip(title.as_str(), 60) })
    }
}

/// The first messages of a session, each by its first line that is no code.
pub fn session_dialogue_preview(all: &Vec<HeadLine>) -> (r: Vec<MenuPreviewLine>)
    ensures
        views(r@) == previews(head_of(views(all@))),
{
    let count: usize = if all.len() > MAX_PREVIEW_LINES {
        MAX_PREVIEW_LINES
    } else {
        all.len()
    };
    let ghost head = head_of(views(all@));
    let mut out: Vec<MenuPreviewLine> = Vec::new();
    let mut i: usize = 0;
    assert(views(out@) =~= previews(head.take(0)));
    while i < count
        invariant
            i <= count == head.len(),
            count <= all@.len(),
            head == head_of(views(all@)),
            views(out@) == previews(head.take(i as int)),
            out@.len() <= PREVIEW_MESSAGES,
        decreases count - i,
    {
        proof {
            let next = head.take(i + 1);
            assert(next.drop_last() =~= head.take(i as int));
            assert(next.last() == all@[i as int]@);
            assert(views(out@).len() == out@.len());
        }
        if out.len() < PREVIEW_MESSAGES {
            if let Some(line) = preview(&all[i]) {
                proof {
                    views_push(out@, line);
                }
                out.push(line);
            }
        }
        i += 1;
    }
    assert(head.take(i as int) =~= head);
    out
}

/// A preview holds at most six messages, each of one line that is not empty, opens no block
/// of code, and has at most 61 characters.
pub proof fn previews_are_short(all: Seq<HeadLineView>)
    ensures
        previews(all).len() <= PREVIEW_MESSAGES,
        forall|i: int|
            0 <= i < previews(all).len() ==> {
                &&& 0 < (#[trigger] previews(all)[i]).text.len() <= 61
                &&& !is_fence(previews(all)[i].text)
            },
    decreases all.len(),
{
    reveal_strlit("…");
    if all.len() > 0 {
        previews_are_short(all.drop_last());
        match all.last() {
            HeadLineView::Skipped => {},
            HeadLineView::User(text) => {
                let line = plain_line(lines_of(text), 0, false);
                lemma_plain_line(lines_of(text), 0, false);
                if line.len() > 0 {
                    lemma_clipped_fence(line);
                }
            },
            HeadLineView::Assistant(text) => {
                let line = plain_line(lines_of(text), 0, false);
                lemma_plain_line(lines_of(text), 0, false);
                if line.len() > 0 {
                    lemma_clipped_fence(line);
                }
            },
        }
    }
}

proof fn lemma_plain_line(all: Seq<Seq<char>>, i: int, in_code: bool)
    ensures
        plain_line(all, i, in_code).len() > 0 ==> !is_fence(plain_line(all, i, in_code)),
    decreases all.len() - i,
{
    if 0 <= i < all.len() {
        lemma_plain_line(all, i + 1, !in_code);
        lemma_plain_line(all, i + 1, in_code);
    }
}

proof fn lemma_clipped_fence(line: Seq<char>)
    requires
        !is_fence(line),
    ensures
        !is_fence(clipped(line, 60)),
{
    reveal_strlit("```");
    reveal_strlit("~~~");
    reveal_strlit("…");
    let cut = clipped(line, 60);
    if line.len() > 60 && is_fence(cut) {
        assert(cut.subrange(0, 3) =~= line.subrange(0, 3));
    }
}

/// A line of a preview, as it is shown.
pub open spec fn shown_line(line: PreviewView) -> Seq<char> {
    (if line.is_user {
        "你 "@
    } else {
        "AI "@
    }) + line.text
}

/// The lines of a preview, as they are shown.
pub open spec fn shown_lines(all: Seq<PreviewView>) -> Seq<Seq<char>> {
    Seq::new(all.len(), |i: int| shown_line(all[i]))
}

/// A preview as a text.
pub fn preview_lines_to_body(all: &[MenuPreviewLine]) -> (r: String)
    ensures
        r@ == if all@.len() == 0 {
            "（无对话记录）"@
        } else {
            join_of(shown_lines(views(all@)), "\n"@)
        },
{
    if all.len() == 0 {
        return owned("（无对话记录）");
    }
    let mut parts: Vec<String> = Vec::new();
    let ghost shown = shown_lines(views(all@));
    let mut i: usize = 0;
    assert(views(parts@) =~= shown.take(0));
    while i < all.len()
        invariant
            i <= all@.len(),
            shown == shown_lines(views(all@)),
            views(parts@) == shown.take(i as int),
        decreases all@.len() - i,
    {
        assert(shown[i as int] == shown_line(all@[i as int]@));
        let mark = if all[i].is_user {
            "你 "
        } else {
            "AI "
        };
        let line = owned(mark).concat(all[i].text.as_str());
        proof {
            views_push(parts@, line);
        }
        parts.push(line);
        assert(views(parts@) =~= shown.take(i + 1));
        i += 1;
    }
    assert(shown.take(i as int) =~= shown);
    join(&parts, "\n")
}

/// The session of a full name.
pub fn parse_session_id(value: &str) -> (r: Result<SessionId, String>)
    ensures
        match r {
            Ok(id) => uuid_parse(value@) == Some(id.0),
            Err(error) => uuid_parse(value@) is None && error@ == "无效 session id: "@ + value@,
        },
{
    match SessionId::parse(value) {
        Some(id) => Ok(id),
        None => Err(owned("无效 session id: ").concat(value)),
    }
}

/// A text in lower case.
pub open spec fn lowered(text: Seq<char>) -> Seq<char> {
    text.map_values(|c: char| lower_of(c))
}

/// The session that a file of this name holds, by its text, where its name begins with
/// `prefix`.
pub open spec fn session_of(name: Seq<char>, prefix: Seq<char>) -> Option<Seq<char>> {
    let stem = name.subrange(0, name.len() - ".jsonl"@.len());
    if has_suffix(name, ".jsonl"@) && has_prefix(lowered(stem), prefix) && uuid_parse(
        stem,
    ) is Some {
        Some(stem)
    } else {
        None
    }
}

/// The sessions among some files whose names begin with `prefix`.
pub open spec fn sessions_of(names: Seq<Seq<char>>, prefix: Seq<char>) -> Seq<Seq<char>>
    decreases names.len(),
{
    if names.len() == 0 {
        Seq::empty()
    } else {
        let before = sessions_of(names.drop_last(), prefix);
        match session_of(names.last(), prefix) {
            Some(stem) => before.push(stem),
            None => before,
        }
    }
}

fn session_in(name: &str, prefix: &str) -> (r: Option<String>)
    ensures
        opt_view(r) == session_of(name@, prefix@),
{
    proof {
        reveal_strlit(".jsonl");
    }
    if !ends_with(name, ".jsonl") {
        return None;
    }
    let chars = to_chars(name);
    let end: usize = chars.len() - 6;
    let stem = slice(&chars, 0, end);
    let small = lower(stem.as_str());
    if starts_with(small.as_str(), prefix) && SessionId::parse(stem.as_str()).is_some() {
        Some(stem)
    } else {
        None
    }
}

fn find_sessions(names: &Vec<String>, prefix: &str) -> (r: Vec<String>)
    ensures
        views(r@) == sessions_of(views(names@), prefix@),
{
    let mut found: Vec<String> = Vec::new();
    let ghost all = views(names@);
    let mut i: usize = 0;
    assert(views(found@) =~= sessions_of(all.take(0), prefix@));
    while i < names.len()
        invariant
            i <= names@.len(),
            all == views(names@),
            views(found@) == sessions_of(all.take(i as int), prefix@),
        decreases names@.len() - i,
    {
        proof {
            let next = all.take(i + 1);
            assert(next.drop_last() =~= all.take(i as int));
            assert(next.last() == names@[i as int]@);
        }
        if let Some(stem) = session_in(names[i].as_str(), prefix) {
            proof {
                views_push(found@, stem);
            }
            found.push(stem);
        }
        i += 1;
    }
    assert(all.take(i as int) =~= all);
    found
}

/// Why a session could not be told by the beginning of its name.
pub open spec fn ambiguity(prefix: Seq<char>, found: Seq<Seq<char>>) -> Seq<char> {
    if found.len() == 0 {
        "没有找到以 `"@ + prefix + "` 开头的 session；用 `tpi sessions` 列出全部会话"@
    } else {
        "`"@ + prefix + "` 匹配 "@ + decimal_of(found.len())
            + " 个 session，请提供更长前缀："@ + join_of(found, ", "@)
            + "（`tpi sessions` 可查看完整 id）"@
    }
}

/// The session of a full name, or the only one of the workspace whose name begins so,
/// whatever the case. Nothing is guessed: with no such session, or more than one, there is
/// an error that says so. `names` are the names of the files in the sessions directory.
pub open spec fn session_named(value: Seq<char>, names: Seq<Seq<char>>) -> Result<u128, Seq<char>> {
    let prefix = lowered(trim_of(value));
    let found = sessions_of(names, prefix);
    match uuid_parse(value) {
        Some(id) => Ok(id),
        None => if prefix.len() == 0 {
            Err("session id 为空；用 `tpi sessions` 列出可恢复会话"@)
        } else if found.len() == 1 {
            match uuid_parse(found[0]) {
                Some(id) => Ok(id),
                None => Err(Seq::empty()),
            }
        } else {
            Err(ambiguity(prefix, found))
        },
    }
}

/// The session of a full name, or the only one of the workspace whose name begins so,
/// whatever the case. Nothing is guessed: with no such session, or more than one, there is
/// an error that says so. `names` are the names of the files in the sessions directory.
pub fn resolve_session_id_prefix(value: &str, names: &Vec<String>) -> (r: Result<SessionId, String>)
    ensures
        match r {
            Ok(session) => session_named(value@, views(names@)) == Ok::<u128, Seq<char>>(
                session.0,
            ),
            Err(error) => session_named(value@, views(names@)) == Err::<u128, Seq<char>>(error@),
        },
        r is Err && uuid_parse(value@) is None ==> sessions_of(
            views(names@),
            lowered(trim_of(value@)),
        ).len() != 1 || trim_of(value@).len() == 0,
{
    if let Some(id) = SessionId::parse(value) {
        return Ok(id);
    }
    let trimmed = trim(value);
    let prefix = lower(trimmed.as_str());
    if prefix.as_str().is_empty() {
        return Err(owned("session id 为空；用 `tpi sessions` 列出可恢复会话"));
    }
    let found = find_sessions(names, prefix.as_str());
    assert(views(found@).len() == found@.len());
    if found.len() == 1 {
        proof {
            lemma_sessions_parse(views(names@), prefix@);
            assert(views(found@)[0] == found@[0]@);
        }
        match SessionId::parse(found[0].as_str()) {
            Some(id) => Ok(id),
            None => Err(String::new()),
        }
    } else if found.len() == 0 {
        Err(
            owned("没有找到以 `").concat(prefix.as_str()).concat(
                "` 开头的 session；用 `tpi sessions` 列出全部会话",
            ),
        )
    } else {
        let count = decimal(found.len() as u128);
        let listed = join(&found, ", ");
        Err(
            owned("`").concat(prefix.as_str()).concat("` 匹配 ").concat(count.as_str()).concat(
                " 个 session，请提供更长前缀：",
            ).concat(listed.as_str()).concat("（`tpi sessions` 可查看完整 id）"),
        )
    }
}

proof fn lemma_sessions_parse(names: Seq<Seq<char>>, prefix: Seq<char>)
    ensures
        forall|i: int|
            0 <= i < sessions_of(names, prefix).len() ==> uuid_parse(
                #[trigger] sessions_of(names, prefix)[i],
            ) is Some,
    decreases names.len(),
{
    if names.len() > 0 {
        lemma_sessions_parse(names.drop_last(), prefix);
    }
}

/// A session of the workspace: when it last changed, in nanoseconds, which it is, and the
/// number of its file.
#[derive(Debug, Clone, Copy, PartialEq, Eq, Structural)]
pub struct SessionFile {
    pub modified: i128,
    pub id: SessionId,
    pub file: usize,
}

/// Where a session belongs among sessions in order: behind all that changed no earlier.
pub open spec fn rank(sorted: Seq<SessionFile>, file: SessionFile) -> int
    decreases sorted.len(),
{
    if sorted.len() == 0 || sorted.last().modified >= file.modified {
        sorted.len() as int
    } else {
        rank(sorted.drop_last(), file)
    }
}

/// Sessions in the order of their last change, the latest first; those that changed at the
/// same time stay in the order in which they were found.
pub open spec fn newest_first(files: Seq<SessionFile>) -> Seq<SessionFile>
    decreases files.len(),
{
    if files.len() == 0 {
        Seq::empty()
    } else {
        let sorted = newest_first(files.drop_last());
        sorted.insert(rank(sorted, files.last()), files.last())
    }
}

proof fn lemma_rank(sorted: Seq<SessionFile>, file: SessionFile)
    ensures
        0 <= rank(sorted, file) <= sorted.len(),
        rank(sorted, file) > 0 ==> sorted[rank(sorted, file) - 1].modified >= file.modified,
        forall|i: int|
            rank(sorted, file) <= i < sorted.len() ==> (#[trigger] sorted[i]).modified
                < file.modified,
    decreases sorted.len(),
{
    if sorted.len() > 0 && sorted.last().modified < file.modified {
        lemma_rank(sorted.drop_last(), file);
        let k = rank(sorted, file);
        assert forall|i: int| k <= i < sorted.len() implies (#[trigger] sorted[i]).modified
            < file.modified by {
            if i < sorted.len() - 1 {
                assert(sorted.drop_last()[i] == sorted[i]);
            }
        }
    }
}

/// Putting sessions in order loses none and makes none up, and the later change comes first.
pub proof fn newest_first_is_an_order(files: Seq<SessionFile>)
    ensures
        newest_first(files).to_multiset() == files.to_multiset(),
        newest_first(files).len() == files.len(),
        forall|i: int, j: int|
            0 <= i < j < files.len() ==> (#[trigger] newest_first(files)[i]).modified >= (
            #[trigger] newest_first(files)[j]).modified,
    decreases files.len(),
{
    if files.len() == 0 {
        assert(newest_first(files) =~= files);
    } else {
        let front = files.drop_last();
        let last = files.last();
        let sorted = newest_first(front);
        newest_first_is_an_order(front);
        lemma_rank(sorted, last);
        let k = rank(sorted, last);
        let after = newest_first(files);
        sorted.insert_ensures(k, last);
        vstd::seq_lib::to_multiset_insert(sorted, k, last);
        assert(files =~= front.push(last));
        vstd::seq_lib::to_multiset_build(front, last);
        assert forall|i: int, j: int| 0 <= i < j < files.len() implies (
        #[trigger] after[i]).modified >= (#[trigger] after[j]).modified by {
            let a = if i < k {
                i
            } else {
                i - 1
            };
            let b = if j < k {
                j
            } else {
                j - 1
            };
            if i == k {
                assert(after[j] == sorted[b]);
            } else if j == k {
                assert(after[i] == sorted[a]);
                if a < k - 1 {
                    assert(sorted[a].modified >= sorted[k - 1].modified);
                }
            } else {
                assert(after[i] == sorted[a]);
                assert(after[j] == sorted[b]);
            }
        }
    }
}

/// The sessions of a workspace, the latest first, at most a hundred.
pub open spec fn offered(files: Seq<SessionFile>) -> Seq<SessionFile> {
    if newest_first(files).len() > MAX_SESSION_CHOICES {
        newest_first(files).take(MAX_SESSION_CHOICES as int)
    } else {
        newest_first(files)
    }
}

/// The sessions of a workspace, the latest first, at most a hundred.
pub fn order_sessions(files: &Vec<SessionFile>) -> (r: Vec<SessionFile>)
    ensures
        r@ == offered(files@),
{
    let mut sorted: Vec<SessionFile> = Vec::new();
    let mut i: usize = 0;
    assert(sorted@ =~= newest_first(files@.take(0)));
    while i < files.len()
        invariant
            i <= files@.len(),
            sorted@ == newest_first(files@.take(i as int)),
        decreases files@.len() - i,
    {
        proof {
            let next = files@.take(i + 1);
            assert(next.drop_last() =~= files@.take(i as int));
            assert(next.last() == files@[i as int]);
        }
        let file = files[i];
        let mut k: usize = sorted.len();
        assert(sorted@.take(k as int) =~= sorted@);
        while k > 0 && sorted[k - 1].modified < file.modified
            invariant
                k <= sorted@.len(),
                rank(sorted@.take(k as int), file) == rank(sorted@, file),
            decreases k,
        {
            assert(sorted@.take(k as int).drop_last() =~= sorted@.take(k - 1));
            k -= 1;
        }
        sorted.insert(k, file);
        i += 1;
    }
    assert(files@.take(i as int) =~= files@);
    if sorted.len() > MAX_SESSION_CHOICES {
        sorted.truncate(MAX_SESSION_CHOICES);
        assert(sorted@ =~= newest_first(files@).take(MAX_SESSION_CHOICES as int));
    }
    sorted
}

/// The session of the workspace that changed last.
pub open spec fn latest_of(sorted: Seq<SessionFile>) -> Result<SessionId, Seq<char>> {
    if sorted.len() > 0 {
        Ok(sorted[0].id)
    } else {
        Err("当前 workspace 没有历史 session"@)
    }
}

/// The session of the workspace that changed last.
pub fn latest_session_id(sorted: &Vec<SessionFile>) -> (r: Result<SessionId, String>)
    ensures
        match r {
            Ok(id) => latest_of(sorted@) == Ok::<SessionId, Seq<char>>(id),
            Err(error) => latest_of(sorted@) == Err::<SessionId, Seq<char>>(error@),
        },
{
    if sorted.len() > 0 {
        Ok(sorted[0].id)
    } else {
        Err(owned("当前 workspace 没有历史 session"))
    }
}

/// What is said when a session is gone on with: its title and the beginning of its name.
pub open spec fn resume_label(log: Option<(SessionId, Seq<char>)>) -> Seq<char> {
    match log {
        None => "已恢复会话"@,
        Some((id, title)) => if title.len() == 0 {
            "已恢复会话（"@ + take_of(hyphenated(id.0), 13) + "…）"@
        } else {
            "已恢复会话「"@ + title + "」（"@ + take_of(hyphenated(id.0), 13) + "…）"@
        },
    }
}

/// What is said when a session is gone on with. `title` is that of the session.
pub fn session_resume_label(id: Option<SessionId>, title: &str) -> (r: String)
    ensures
        r@ == resume_label(
            match id {
                Some(id) => Some((id, title@)),
                None => None,
            },
        ),
{
    match id {
        None => owned("已恢复会话"),
        Some(id) => {
            let name = id.to_text();
            let short = take(name.as_str(), 13);
            if title.is_empty() {
                owned("已恢复会话（").concat(short.as_str()).concat("…）")
            } else {
                owned("已恢复会话「").concat(title).concat("」（").concat(
                    short.as_str(),
                ).concat("…）")
            }
        },
    }
}

/// A session in the menu: its title, when it changed, and how many events it holds.
pub open spec fn menu_label(title: Seq<char>, seconds: int, events: nat) -> Seq<char> {
    (if title.len() == 0 {
        "(无标题)"@
    } else {
        title
    }) + " · "@ + short_text(date_of(seconds)) + " · "@ + decimal_of(events) + " 事件"@
}

/// A session in the menu.
pub fn session_menu_label(title: &str, seconds: i64, events: usize) -> (r: String)
    ensures
        r@ == menu_label(title@, seconds as int, events as nat),
{
    let shown = if title.is_empty() {
        owned("(无标题)")
    } else {
        owned(title)
    };
    let date = fmt_time_short(seconds);
    let count = decimal(events as u128);
    shown.concat(" · ").concat(date.as_str()).concat(" · ").concat(count.as_str()).concat(
        " 事件",
    )
}

} // verus!
