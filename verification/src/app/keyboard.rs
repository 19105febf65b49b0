//! What comes from the keyboard.
//!
//! Some terminals send a pasted text as keys, between two marks: Escape and `[200~` before
//! it, Escape and `[201~` after it. Here the marks are found and the keys between them
//! become one paste, so that a line end in it submits nothing. Keys that only look like the
//! beginning of a mark are handed on as they came.
use crate::text::views;
use crate::text::views_push;
use vstd::prelude::*;
use vstd::string::*;

verus! {

/// What happened to a key.
#[derive(Debug, Clone, Copy, PartialEq, Eq, Structural)]
pub enum KeyEventKind {
    Press,
    Repeat,
    Release,
}

/// Whether what happened to a key edits: a key that is held down goes on editing, and
/// letting it go does nothing.
pub open spec fn edits(kind: KeyEventKind) -> bool {
    kind == KeyEventKind::Press || kind == KeyEventKind::Repeat
}

/// Whether what happened to a key edits.
pub fn is_actionable_key_kind(kind: KeyEventKind) -> (r: bool)
    ensures
        r == edits(kind),
{
    match kind {
        KeyEventKind::Press => true,
        KeyEventKind::Repeat => true,
        KeyEventKind::Release => false,
    }
}

/// A key, as far as it matters here.
#[derive(Debug, Clone, Copy, PartialEq, Eq, Structural)]
pub enum KeyCode {
    Char(char),
    Enter,
    Tab,
    Esc,
    Insert,
    Other,
}

/// A key with its modifiers and what happened to it.
#[derive(Debug, Clone, Copy, PartialEq, Eq, Structural)]
pub struct Key {
    pub code: KeyCode,
    pub control: bool,
    pub shift: bool,
    pub alt: bool,
    pub kind: KeyEventKind,
}

/// An event of the terminal. `event` is the number under which the whole event is kept;
/// `key` is there where it is one of a key.
#[derive(Debug, Clone, Copy, PartialEq, Eq, Structural)]
pub struct Input {
    pub event: u64,
    pub key: Option<Key>,
}

/// What to do with what came from the keyboard.
#[derive(Debug, Clone, PartialEq, Eq)]
pub enum Output {
    /// Hand the event on.
    Send(Input),
    /// Hand the key on as one that was typed.
    Typed(Input),
    /// Paste a text.
    Paste(String),
    /// Paste what is on the clipboard.
    ReadClipboard,
}

/// What an [`Output`] says.
pub enum OutputView {
    Send(Input),
    Typed(Input),
    Paste(Seq<char>),
    ReadClipboard,
}

impl View for Output {
    type V = OutputView;

    open spec fn view(&self) -> OutputView {
        match *self {
            Output::Send(input) => OutputView::Send(input),
            Output::Typed(input) => OutputView::Typed(input),
            Output::Paste(text) => OutputView::Paste(text@),
            Output::ReadClipboard => OutputView::ReadClipboard,
        }
    }
}

/// Whether a key pastes: `v` with Control, or Insert with Shift.
pub open spec fn pastes(key: Key) -> bool {
    (key.code == KeyCode::Char('v') && key.control) || (key.code == KeyCode::Insert && key.shift)
}

/// Whether a key pastes.
pub fn is_paste_shortcut(key: &Key) -> (r: bool)
    ensures
        r == pastes(*key),
{
    match key.code {
        KeyCode::Char('v') => key.control,
        KeyCode::Insert => key.shift,
        _ => false,
    }
}

/// Whether a key is Escape alone.
pub open spec fn is_escape(key: Key) -> bool {
    key.kind == KeyEventKind::Press && key.code == KeyCode::Esc && !key.control && !key.shift
        && !key.alt
}

/// Whether a key is Escape alone.
pub fn is_plain_escape(key: &Key) -> (r: bool)
    ensures
        r == is_escape(*key),
{
    key.kind == KeyEventKind::Press && key.code == KeyCode::Esc && !key.control && !key.shift
        && !key.alt
}

/// Whether an event is the pressing of a character, whatever the modifiers.
pub open spec fn is_char(input: Input, c: char) -> bool {
    input.key matches Some(key) && key.kind == KeyEventKind::Press && key.code == KeyCode::Char(c)
}

/// Whether an event is the pressing of a character, whatever the modifiers.
pub fn is_sequence_char(input: &Input, c: char) -> (r: bool)
    ensures
        r == is_char(*input, c),
{
    match input.key {
        Some(key) => key.kind == KeyEventKind::Press && key.code == KeyCode::Char(c),
        None => false,
    }
}

/// The character that a key stands for in a pasted text.
pub open spec fn pasted_char(key: Key) -> Option<char> {
    if key.control || key.alt {
        None
    } else {
        match key.code {
            KeyCode::Char(c) => Some(c),
            KeyCode::Enter => Some('\n'),
            KeyCode::Tab => Some('\t'),
            _ => None,
        }
    }
}

/// The character that a key stands for in a pasted text.
pub fn paste_char(key: &Key) -> (r: Option<char>)
    ensures
        r == pasted_char(*key),
{
    if key.control || key.alt {
        return None;
    }
    match key.code {
        KeyCode::Char(c) => Some(c),
        KeyCode::Enter => Some('\n'),
        KeyCode::Tab => Some('\t'),
        _ => None,
    }
}

/// What follows Escape and `[` in the mark before a paste.
pub open spec fn start_tail() -> Seq<char> {
    seq!['2', '0', '0', '~']
}

/// What follows Escape in the mark after a paste.
pub open spec fn end_tail() -> Seq<char> {
    seq!['[', '2', '0', '1', '~']
}

/// Where the decoder is.
#[derive(Debug, Clone, Copy, PartialEq, Eq, Structural)]
pub enum Mode {
    /// Nothing is open.
    Idle,
    /// Escape was pressed.
    Escaped,
    /// Escape and `[` were pressed, and some of what follows.
    Opening,
    /// A text is being pasted.
    Pasting,
    /// Escape was pressed within a text, and some of what follows.
    Closing,
}

/// How long to wait for the next event.
#[derive(Debug, Clone, Copy, PartialEq, Eq, Structural)]
pub enum Wait {
    /// As long as it takes.
    Forever,
    /// As long as the keys of a mark take to follow each other.
    Probe,
    /// As long as the keys of a pasted text take to follow each other.
    Pause,
}

/// Finds pasted texts among keys.
#[derive(Debug)]
pub struct Decoder {
    mode: Mode,
    seen: Vec<Input>,
    text: String,
}

/// What a [`Decoder`] holds.
pub struct DecoderView {
    pub mode: Mode,
    /// The events of a mark so far; for the mark after a text, without Escape.
    pub seen: Seq<Input>,
    /// The pasted text so far.
    pub text: Seq<char>,
}

impl View for Decoder {
    type V = DecoderView;

    closed spec fn view(&self) -> DecoderView {
        DecoderView { mode: self.mode, seen: self.seen@, text: self.text@ }
    }
}

/// Nothing is open.
pub open spec fn idle() -> DecoderView {
    DecoderView { mode: Mode::Idle, seen: Seq::empty(), text: Seq::empty() }
}

/// Whether what is held fits where the decoder is.
pub open spec fn decoder_wf(d: DecoderView) -> bool {
    match d.mode {
        Mode::Idle => d == idle(),
        Mode::Escaped => d.seen.len() == 1 && d.text.len() == 0,
        Mode::Opening => 2 <= d.seen.len() < 6 && d.text.len() == 0,
        Mode::Pasting => d.seen.len() == 0,
        Mode::Closing => d.seen.len() < 5,
    }
}

/// One step of the decoder: what it holds after it, what to do, and which events come again.
pub struct Advance {
    pub after: DecoderView,
    pub outputs: Seq<OutputView>,
    pub again: Seq<Input>,
}

/// All events are handed on.
pub open spec fn sends(inputs: Seq<Input>) -> Seq<OutputView> {
    Seq::new(inputs.len(), |i: int| OutputView::Send(inputs[i]))
}

/// The pasted text, where there is any.
pub open spec fn flushed(text: Seq<char>) -> Seq<OutputView> {
    if text.len() == 0 {
        Seq::empty()
    } else {
        seq![OutputView::Paste(text)]
    }
}

/// The characters that events stand for in a pasted text, as far as they stand for any.
pub open spec fn pasted(inputs: Seq<Input>) -> Seq<char>
    decreases inputs.len(),
{
    if inputs.len() == 0 {
        Seq::empty()
    } else {
        let before = pasted(inputs.drop_last());
        match inputs.last().key {
            Some(key) => match pasted_char(key) {
                Some(c) => before.push(c),
                None => before,
            },
            None => before,
        }
    }
}

/// The events that stand for no character in a pasted text.
pub open spec fn unpasted(inputs: Seq<Input>) -> Seq<Input>
    decreases inputs.len(),
{
    if inputs.len() == 0 {
        Seq::empty()
    } else {
        let before = unpasted(inputs.drop_last());
        if inputs.last().key is Some && pasted_char(inputs.last().key->0) is Some {
            before
        } else {
            before.push(inputs.last())
        }
    }
}

/// What was taken for the mark after a text is a part of the text.
pub open spec fn reopened(d: DecoderView, seen: Seq<Input>) -> Advance {
    Advance {
        after: DecoderView {
            mode: Mode::Pasting,
            seen: Seq::empty(),
            text: d.text.push('\u{1b}') + pasted(seen),
        },
        outputs: Seq::empty(),
        again: unpasted(seen),
    }
}

/// One step of the decoder with one event. Letting a key go means nothing.
pub open spec fn advance(d: DecoderView, input: Input) -> Advance {
    let seen = d.seen.push(input);
    let none = Seq::<Input>::empty();
    if input.key matches Some(key) && key.kind == KeyEventKind::Release {
        Advance { after: d, outputs: Seq::empty(), again: none }
    } else {
        match d.mode {
            Mode::Idle => match input.key {
                None => Advance { after: d, outputs: seq![OutputView::Send(input)], again: none },
                Some(key) => if key.kind == KeyEventKind::Press && pastes(key) {
                    Advance { after: d, outputs: seq![OutputView::ReadClipboard], again: none }
                } else if is_escape(key) {
                    Advance {
                        after: DecoderView { mode: Mode::Escaped, seen, text: d.text },
                        outputs: Seq::empty(),
                        again: none,
                    }
                } else {
                    Advance { after: d, outputs: seq![OutputView::Typed(input)], again: none }
                },
            },
            Mode::Escaped => if is_char(input, '[') {
                Advance {
                    after: DecoderView { mode: Mode::Opening, seen, text: d.text },
                    outputs: Seq::empty(),
                    again: none,
                }
            } else {
                Advance { after: idle(), outputs: sends(d.seen), again: seq![input] }
            },
            Mode::Opening => if is_char(input, start_tail()[d.seen.len() - 2]) {
                if seen.len() == 6 {
                    Advance {
                        after: DecoderView {
                            mode: Mode::Pasting,
                            seen: none,
                            text: Seq::empty(),
                        },
                        outputs: Seq::empty(),
                        again: none,
                    }
                } else {
                    Advance {
                        after: DecoderView { mode: Mode::Opening, seen, text: d.text },
                        outputs: Seq::empty(),
                        again: none,
                    }
                }
            } else {
                Advance { after: idle(), outputs: sends(seen), again: none }
            },
            Mode::Pasting => if input.key is Some && input.key->0.kind == KeyEventKind::Press
                && is_escape(input.key->0) {
                Advance {
                    after: DecoderView { mode: Mode::Closing, seen: none, text: d.text },
                    outputs: Seq::empty(),
                    again: none,
                }
            } else if input.key is Some && input.key->0.kind == KeyEventKind::Press && pasted_char(
                input.key->0,
            ) is Some {
                Advance {
                    after: DecoderView { text: d.text.push(pasted_char(input.key->0)->0), ..d },
                    outputs: Seq::empty(),
                    again: none,
                }
            } else {
                Advance {
                    after: idle(),
                    outputs: flushed(d.text).push(OutputView::Send(input)),
                    again: none,
                }
            },
            Mode::Closing => if is_char(input, end_tail()[d.seen.len() as int]) {
                if seen.len() == 5 {
                    Advance { after: idle(), outputs: flushed(d.text), again: none }
                } else {
                    Advance {
                        after: DecoderView { mode: Mode::Closing, seen, text: d.text },
                        outputs: Seq::empty(),
                        again: none,
                    }
                }
            } else {
                reopened(d, seen)
            },
        }
    }
}

/// How many events have not found their place yet.
pub open spec fn pending(d: DecoderView, inputs: Seq<Input>) -> nat {
    inputs.len() + d.seen.len() + if d.mode == Mode::Closing {
        1nat
    } else {
        0nat
    }
}

/// What the decoder does with some events, one after the other.
pub open spec fn play(d: DecoderView, inputs: Seq<Input>) -> (DecoderView, Seq<OutputView>)
    decreases pending(d, inputs), inputs.len(),
    when decoder_wf(d)
    via play_ends
{
    if inputs.len() == 0 {
        (d, Seq::empty())
    } else {
        let step = advance(d, inputs[0]);
        let rest = play(step.after, step.again + inputs.skip(1));
        (rest.0, step.outputs + rest.1)
    }
}

proof fn lemma_unpasted(inputs: Seq<Input>)
    ensures
        unpasted(inputs).len() <= inputs.len(),
    decreases inputs.len(),
{
    if inputs.len() > 0 {
        lemma_unpasted(inputs.drop_last());
    }
}

#[via_fn]
proof fn play_ends(d: DecoderView, inputs: Seq<Input>) {
    if inputs.len() > 0 {
        let step = advance(d, inputs[0]);
        lemma_unpasted(d.seen.push(inputs[0]));
    }
}

proof fn lemma_advance_wf(d: DecoderView, input: Input)
    requires
        decoder_wf(d),
    ensures
        decoder_wf(advance(d, input).after),
{
}

/// What the decoder does when nothing follows in time: what was taken for a mark is handed
/// on, and a text that was never closed is pasted.
pub open spec fn timed_out(d: DecoderView) -> (DecoderView, Seq<OutputView>) {
    match d.mode {
        Mode::Idle => (d, Seq::empty()),
        Mode::Escaped => (idle(), sends(d.seen)),
        Mode::Opening => (idle(), sends(d.seen)),
        Mode::Pasting => (idle(), flushed(d.text)),
        Mode::Closing => {
            let step = reopened(d, d.seen);
            play(step.after, step.again)
        },
    }
}

fn emit(outputs: &mut Vec<Output>, output: Output)
    ensures
        views(final(outputs)@) == views(old(outputs)@).push(output@),
{
    proof {
        views_push(outputs@, output);
    }
    outputs.push(output);
}

fn send_all(outputs: &mut Vec<Output>, inputs: &Vec<Input>)
    ensures
        views(final(outputs)@) == views(old(outputs)@) + sends(inputs@),
{
    let ghost before = views(outputs@);
    let mut i: usize = 0;
    assert(before + sends(inputs@).take(0) =~= before);
    while i < inputs.len()
        invariant
            i <= inputs@.len(),
            views(outputs@) == before + sends(inputs@).take(i as int),
        decreases inputs@.len() - i,
    {
        emit(outputs, Output::Send(inputs[i]));
        assert(views(outputs@) =~= before + sends(inputs@).take(i + 1));
        i += 1;
    }
    assert(sends(inputs@).take(i as int) =~= sends(inputs@));
}

/// How long to wait for the next event.
pub open spec fn wait_in(mode: Mode) -> Wait {
    match mode {
        Mode::Idle => Wait::Forever,
        Mode::Pasting => Wait::Pause,
        _ => Wait::Probe,
    }
}

impl Decoder {
    /// A decoder with nothing open.
    pub fn new() -> (r: Self)
        ensures
            r@ == idle(),
    {
        Decoder { mode: Mode::Idle, seen: Vec::new(), text: String::new() }
    }

    /// How long to wait for the next event.
    pub fn wait(&self) -> (r: Wait)
        ensures
            r == wait_in(self@.mode),
    {
        match self.mode {
            Mode::Idle => Wait::Forever,
            Mode::Pasting => Wait::Pause,
            _ => Wait::Probe,
        }
    }

    fn reset(&mut self)
        ensures
            final(self)@ == idle(),
    {
        self.mode = Mode::Idle;
        self.seen = Vec::new();
        self.text = String::new();
    }

    fn flush(&mut self, outputs: &mut Vec<Output>)
        ensures
            final(self)@ == idle(),
            views(final(outputs)@) == views(old(outputs)@) + flushed(old(self)@.text),
    {
        let ghost before = views(outputs@);
        if !self.text.as_str().is_empty() {
            emit(outputs, Output::Paste(self.text.clone()));
        }
        assert(views(outputs@) =~= before + flushed(self@.text));
        self.reset();
    }

    fn reopen(&mut self) -> (again: Vec<Input>)
        ensures
            final(self)@ == reopened(old(self)@, old(self)@.seen).after,
            again@ == reopened(old(self)@, old(self)@.seen).again,
    {
        let mut again: Vec<Input> = Vec::new();
        let ghost start = self.text@.push('\u{1b}');
        let ghost seen = self.seen@;
        self.text.push('\u{1b}');
        let mut i: usize = 0;
        assert(start + pasted(seen.take(0)) =~= start);
        assert(unpasted(seen.take(0)) =~= again@);
        while i < self.seen.len()
            invariant
                i <= self.seen@.len(),
                self.seen@ == seen,
                self.text@ == start + pasted(seen.take(i as int)),
                again@ == unpasted(seen.take(i as int)),
            decreases self.seen@.len() - i,
        {
            let input = self.seen[i];
            let c = match input.key {
                Some(key) => paste_char(&key),
                None => None,
            };
            proof {
                let next = seen.take(i + 1);
                assert(next.drop_last() =~= seen.take(i as int));
                assert(next.last() == input);
            }
            match c {
                Some(c) => {
                    self.text.push(c);
                    assert(self.text@ =~= start + pasted(seen.take(i + 1)));
                },
                None => {
                    again.push(input);
                },
            }
            i += 1;
        }
        assert(seen.take(i as int) =~= seen);
        self.mode = Mode::Pasting;
        self.seen = Vec::new();
        again
    }

    fn step(&mut self, input: Input, outputs: &mut Vec<Output>) -> (again: Vec<Input>)
        requires
            decoder_wf(old(self)@),
        ensures
            final(self)@ == advance(old(self)@, input).after,
            views(final(outputs)@) == views(old(outputs)@) + advance(old(self)@, input).outputs,
            again@ == advance(old(self)@, input).again,
            decoder_wf(final(self)@),
    {
        let ghost before = views(outputs@);
        let ghost step = advance(self@, input);
        proof {
            lemma_advance_wf(self@, input);
            assert(before + Seq::<OutputView>::empty() =~= before);
        }
        let mut again: Vec<Input> = Vec::new();
        if let Some(key) = input.key {
            if key.kind == KeyEventKind::Release {
                return again;
            }
        }
        match self.mode {
            Mode::Idle => {
                match input.key {
                    None => emit(outputs, Output::Send(input)),
                    Some(key) => if key.kind == KeyEventKind::Press && is_paste_shortcut(&key) {
                        emit(outputs, Output::ReadClipboard);
                    } else if is_plain_escape(&key) {
                        self.mode = Mode::Escaped;
                        self.seen.push(input);
                    } else {
                        emit(outputs, Output::Typed(input));
                    },
                }
                assert(views(outputs@) =~= before + step.outputs);
            },
            Mode::Escaped => {
                if is_sequence_char(&input, '[') {
                    self.mode = Mode::Opening;
                    self.seen.push(input);
                } else {
                    send_all(outputs, &self.seen);
                    self.reset();
                    again.push(input);
                    assert(again@ =~= seq![input]);
                }
            },
            Mode::Opening => {
                let expected = match self.seen.len() {
                    2 => '2',
                    5 => '~',
                    _ => '0',
                };
                assert(expected == start_tail()[self.seen@.len() - 2]);
                let matched = is_sequence_char(&input, expected);
                self.seen.push(input);
                if !matched {
                    send_all(outputs, &self.seen);
                    self.reset();
                } else if self.seen.len() == 6 {
                    self.mode = Mode::Pasting;
                    self.seen = Vec::new();
                    self.text = String::new();
                }
            },
            Mode::Pasting => {
                let mut taken = false;
                if let Some(key) = input.key {
                    if key.kind == KeyEventKind::Press {
                        if is_plain_escape(&key) {
                            self.mode = Mode::Closing;
                            taken = true;
                        } else if let Some(c) = paste_char(&key) {
                            self.text.push(c);
                            taken = true;
                        }
                    }
                }
                if !taken {
                    self.flush(outputs);
                    emit(outputs, Output::Send(input));
                    assert(views(outputs@) =~= before + step.outputs);
                }
            },
            Mode::Closing => {
                let expected = match self.seen.len() {
                    0 => '[',
                    1 => '2',
                    2 => '0',
                    3 => '1',
                    _ => '~',
                };
                assert(expected == end_tail()[self.seen@.len() as int]);
                let matched = is_sequence_char(&input, expected);
                self.seen.push(input);
                if !matched {
                    again = self.reopen();
                } else if self.seen.len() == 5 {
                    self.flush(outputs);
                }
            },
        }
        assert(self@.seen =~= step.after.seen);
        assert(self@.text =~= step.after.text);
        again
    }

    fn run(&mut self, inputs: Vec<Input>, outputs: &mut Vec<Output>)
        requires
            decoder_wf(old(self)@),
        ensures
            final(self)@ == play(old(self)@, inputs@).0,
            views(final(outputs)@) == views(old(outputs)@) + play(old(self)@, inputs@).1,
            decoder_wf(final(self)@),
    {
        let mut queue = inputs;
        let ghost start = self@;
        let ghost before = views(outputs@);
        let ghost mut done = Seq::<OutputView>::empty();
        assert(done + play(self@, queue@).1 =~= play(self@, queue@).1);
        assert(before + done =~= before);
        while queue.len() > 0
            invariant
                decoder_wf(self@),
                play(self@, queue@).0 == play(start, inputs@).0,
                done + play(self@, queue@).1 == play(start, inputs@).1,
                views(outputs@) == before + done,
            decreases pending(self@, queue@), queue@.len(),
        {
            let ghost d = self@;
            let ghost all = queue@;
            let first = queue.remove(0);
            assert(queue@ =~= all.skip(1));
            let ghost step = advance(d, first);
            proof {
                lemma_unpasted(d.seen.push(first));
            }
            let mut again = self.step(first, outputs);
            again.append(&mut queue);
            queue = again;
            proof {
                assert(queue@ =~= step.again + all.skip(1));
                let rest = play(step.after, queue@);
                assert(play(d, all) == (rest.0, step.outputs + rest.1));
                assert(done + (step.outputs + rest.1) =~= (done + step.outputs) + rest.1);
                assert(views(outputs@) =~= before + (done + step.outputs));
                done = done + step.outputs;
            }
        }
        assert(done + play(self@, queue@).1 =~= done);
    }

    /// Takes in an event.
    pub fn feed(&mut self, input: Input) -> (outputs: Vec<Output>)
        requires
            decoder_wf(old(self)@),
        ensures
            final(self)@ == play(old(self)@, seq![input]).0,
            views(outputs@) == play(old(self)@, seq![input]).1,
            decoder_wf(final(self)@),
    {
        let mut outputs: Vec<Output> = Vec::new();
        let mut inputs: Vec<Input> = Vec::new();
        inputs.push(input);
        assert(inputs@ =~= seq![input]);
        self.run(inputs, &mut outputs);
        assert(views(outputs@) =~= play(old(self)@, seq![input]).1);
        outputs
    }

    /// Takes in that nothing followed in time.
    pub fn time_out(&mut self) -> (outputs: Vec<Output>)
        requires
            decoder_wf(old(self)@),
        ensures
            final(self)@ == timed_out(old(self)@).0,
            views(outputs@) == timed_out(old(self)@).1,
            decoder_wf(final(self)@),
    {
        let mut outputs: Vec<Output> = Vec::new();
        assert(views(outputs@) =~= Seq::<OutputView>::empty());
        let ghost all = timed_out(self@).1;
        match self.mode {
            Mode::Idle => {},
            Mode::Escaped => {
                send_all(&mut outputs, &self.seen);
                self.reset();
            },
            Mode::Opening => {
                send_all(&mut outputs, &self.seen);
                self.reset();
            },
            Mode::Pasting => self.flush(&mut outputs),
            Mode::Closing => {
                let again = self.reopen();
                self.run(again, &mut outputs);
            },
        }
        assert(views(outputs@) =~= all);
        outputs
    }
}

proof fn lemma_play_first(d: DecoderView, input: Input, rest: Seq<Input>)
    requires
        decoder_wf(d),
        advance(d, input).again.len() == 0,
    ensures
        play(d, seq![input] + rest).0 == play(advance(d, input).after, rest).0,
        play(d, seq![input] + rest).1 == advance(d, input).outputs + play(
            advance(d, input).after,
            rest,
        ).1,
{
    let all = seq![input] + rest;
    assert(all.skip(1) =~= rest);
    assert(advance(d, input).again + rest =~= rest);
}

/// Whether events are those of a mark: Escape, then the characters of `tail`.
pub open spec fn is_mark(inputs: Seq<Input>, tail: Seq<char>) -> bool {
    &&& inputs.len() == tail.len() + 1
    &&& inputs[0].key matches Some(key) && is_escape(key)
    &&& forall|i: int| 0 <= i < tail.len() ==> is_char(#[trigger] inputs[i + 1], tail[i])
}

/// Whether every event is a pressed key that stands for a character.
pub open spec fn is_text(inputs: Seq<Input>) -> bool {
    forall|i: int|
        0 <= i < inputs.len() ==> {
            &&& (#[trigger] inputs[i]).key is Some
            &&& inputs[i].key->0.kind == KeyEventKind::Press
            &&& pasted_char(inputs[i].key->0) is Some
        }
}

proof fn lemma_text(d: DecoderView, keys: Seq<Input>, rest: Seq<Input>)
    requires
        d.mode == Mode::Pasting,
        decoder_wf(d),
        is_text(keys),
    ensures
        play(d, keys + rest) == play(DecoderView { text: d.text + pasted(keys), ..d }, rest),
    decreases keys.len(),
{
    if keys.len() == 0 {
        assert(keys + rest =~= rest);
        assert(d.text + pasted(keys) =~= d.text);
    } else {
        let last = keys.last();
        let front = keys.drop_last();
        assert forall|i: int| 0 <= i < front.len() implies {
            &&& (#[trigger] front[i]).key is Some
            &&& front[i].key->0.kind == KeyEventKind::Press
            &&& pasted_char(front[i].key->0) is Some
        } by {
            assert(keys[i] == front[i]);
        }
        assert(keys + rest =~= front + (seq![last] + rest));
        lemma_text(d, front, seq![last] + rest);
        let mid = DecoderView { text: d.text + pasted(front), ..d };
        assert(keys[keys.len() - 1] == last);
        let end = DecoderView { text: d.text + pasted(keys), ..d };
        assert(mid.text.push(pasted_char(last.key->0)->0) =~= end.text);
        assert(advance(mid, last).after == end);
        lemma_play_first(mid, last, rest);
        assert(play(mid, seq![last] + rest).1 =~= play(end, rest).1);
    }
}

proof fn lemma_opening(open: Seq<Input>, rest: Seq<Input>)
    requires
        is_mark(open, seq!['['] + start_tail()),
    ensures
        play(idle(), open + rest) == play(
            DecoderView { mode: Mode::Pasting, seen: Seq::empty(), text: Seq::empty() },
            rest,
        ),
{
    let tail = seq!['['] + start_tail();
    assert(is_char(open[0int + 1], tail[0]));
    assert(is_char(open[1int + 1], tail[1]));
    assert(is_char(open[2int + 1], tail[2]));
    assert(is_char(open[3int + 1], tail[3]));
    assert(is_char(open[4int + 1], tail[4]));
    let none = Seq::<char>::empty();
    let d1 = DecoderView { mode: Mode::Escaped, seen: open.take(1), text: none };
    let d2 = DecoderView { mode: Mode::Opening, seen: open.take(2), text: none };
    let d3 = DecoderView { mode: Mode::Opening, seen: open.take(3), text: none };
    let d4 = DecoderView { mode: Mode::Opening, seen: open.take(4), text: none };
    let d5 = DecoderView { mode: Mode::Opening, seen: open.take(5), text: none };
    let d6 = DecoderView { mode: Mode::Pasting, seen: Seq::empty(), text: none };
    assert(advance(idle(), open[0]).after.seen =~= d1.seen);
    assert(d1.seen.push(open[1]) =~= d2.seen);
    assert(d2.seen.push(open[2]) =~= d3.seen);
    assert(d3.seen.push(open[3]) =~= d4.seen);
    assert(d4.seen.push(open[4]) =~= d5.seen);
    assert(d5.seen.push(open[5]).len() == 6);
    assert(advance(idle(), open[0]).after == d1);
    assert(advance(d1, open[1]).after == d2);
    assert(advance(d2, open[2]).after == d3);
    assert(advance(d3, open[3]).after == d4);
    assert(advance(d4, open[4]).after == d5);
    assert(advance(d5, open[5]).after == d6);
    assert(open + rest =~= seq![open[0]] + (open.skip(1) + rest));
    assert(open.skip(1) + rest =~= seq![open[1]] + (open.skip(2) + rest));
    assert(open.skip(2) + rest =~= seq![open[2]] + (open.skip(3) + rest));
    assert(open.skip(3) + rest =~= seq![open[3]] + (open.skip(4) + rest));
    assert(open.skip(4) + rest =~= seq![open[4]] + (open.skip(5) + rest));
    assert(open.skip(5) + rest =~= seq![open[5]] + rest);
    lemma_play_first(idle(), open[0], open.skip(1) + rest);
    lemma_play_first(d1, open[1], open.skip(2) + rest);
    lemma_play_first(d2, open[2], open.skip(3) + rest);
    lemma_play_first(d3, open[3], open.skip(4) + rest);
    lemma_play_first(d4, open[4], open.skip(5) + rest);
    lemma_play_first(d5, open[5], rest);
    assert(play(idle(), open + rest).1 =~= play(d6, rest).1);
}

proof fn lemma_closing(text: Seq<char>, close: Seq<Input>)
    requires
        is_mark(close, end_tail()),
    ensures
        play(DecoderView { mode: Mode::Pasting, seen: Seq::empty(), text }, close) == (
            idle(),
            flushed(text),
        ),
{
    let tail = end_tail();
    assert(is_char(close[0int + 1], tail[0]));
    assert(is_char(close[1int + 1], tail[1]));
    assert(is_char(close[2int + 1], tail[2]));
    assert(is_char(close[3int + 1], tail[3]));
    assert(is_char(close[4int + 1], tail[4]));
    let d0 = DecoderView { mode: Mode::Pasting, seen: Seq::empty(), text };
    let d1 = DecoderView { mode: Mode::Closing, seen: Seq::empty(), text };
    let d2 = DecoderView { mode: Mode::Closing, seen: close.subrange(1, 2), text };
    let d3 = DecoderView { mode: Mode::Closing, seen: close.subrange(1, 3), text };
    let d4 = DecoderView { mode: Mode::Closing, seen: close.subrange(1, 4), text };
    let d5 = DecoderView { mode: Mode::Closing, seen: close.subrange(1, 5), text };
    assert(d1.seen.push(close[1]) =~= d2.seen);
    assert(d2.seen.push(close[2]) =~= d3.seen);
    assert(d3.seen.push(close[3]) =~= d4.seen);
    assert(d4.seen.push(close[4]) =~= d5.seen);
    assert(d5.seen.push(close[5]).len() == 5);
    assert(advance(d0, close[0]).after == d1);
    assert(advance(d1, close[1]).after == d2);
    assert(advance(d2, close[2]).after == d3);
    assert(advance(d3, close[3]).after == d4);
    assert(advance(d4, close[4]).after == d5);
    assert(advance(d5, close[5]).after == idle());
    let none = Seq::<Input>::empty();
    assert(close =~= seq![close[0]] + close.skip(1));
    assert(close.skip(1) =~= seq![close[1]] + close.skip(2));
    assert(close.skip(2) =~= seq![close[2]] + close.skip(3));
    assert(close.skip(3) =~= seq![close[3]] + close.skip(4));
    assert(close.skip(4) =~= seq![close[4]] + close.skip(5));
    assert(close.skip(5) =~= seq![close[5]] + none);
    lemma_play_first(d0, close[0], close.skip(1));
    lemma_play_first(d1, close[1], close.skip(2));
    lemma_play_first(d2, close[2], close.skip(3));
    lemma_play_first(d3, close[3], close.skip(4));
    lemma_play_first(d4, close[4], close.skip(5));
    lemma_play_first(d5, close[5], none);
    assert(play(d0, close).1 =~= flushed(text));
}

/// A text between the two marks becomes one paste of exactly that text, with its line ends,
/// and nothing of the marks or of the text is handed on as keys.
pub proof fn a_marked_text_is_pasted_whole(open: Seq<Input>, keys: Seq<Input>, close: Seq<Input>)
    requires
        is_mark(open, seq!['['] + start_tail()),
        is_text(keys),
        is_mark(close, end_tail()),
    ensures
        play(idle(), open + keys + close) == (idle(), flushed(pasted(keys))),
{
    assert(open + keys + close =~= open + (keys + close));
    lemma_opening(open, keys + close);
    let d = DecoderView { mode: Mode::Pasting, seen: Seq::empty(), text: Seq::empty() };
    lemma_text(d, keys, close);
    assert(d.text + pasted(keys) =~= pasted(keys));
    lemma_closing(pasted(keys), close);
}

/// Escape that nothing follows is handed on.
pub proof fn a_lone_escape_is_kept(input: Input)
    requires
        input.key matches Some(key) && is_escape(key),
    ensures
        timed_out(play(idle(), seq![input]).0) == (idle(), seq![OutputView::Send(input)]),
        play(idle(), seq![input]).1.len() == 0,
{
    let none = Seq::<Input>::empty();
    assert(seq![input] =~= seq![input] + none);
    lemma_play_first(idle(), input, none);
    let d = advance(idle(), input).after;
    assert(sends(d.seen) =~= seq![OutputView::Send(input)]);
}

/// Keys that only look like the beginning of the mark before a text are handed on, in their
/// order.
pub proof fn a_broken_mark_is_kept(d: DecoderView, input: Input)
    requires
        decoder_wf(d),
        d.mode == Mode::Opening,
        input.key matches Some(key) ==> key.kind != KeyEventKind::Release,
        !is_char(input, start_tail()[d.seen.len() - 2]),
    ensures
        play(d, seq![input]) == (idle(), sends(d.seen.push(input))),
{
    let none = Seq::<Input>::empty();
    assert(seq![input] =~= seq![input] + none);
    lemma_play_first(d, input, none);
    assert(play(d, seq![input]).1 =~= sends(d.seen.push(input)));
}

/// A typed key is handed on at once, one by one, as long as no mark is open.
pub proof fn typing_is_not_delayed(input: Input)
    requires
        input.key matches Some(key) && key.kind != KeyEventKind::Release && !(key.kind
            == KeyEventKind::Press && pastes(key)) && !is_escape(key),
    ensures
        play(idle(), seq![input]) == (idle(), seq![OutputView::Typed(input)]),
{
    let none = Seq::<Input>::empty();
    assert(seq![input] =~= seq![input] + none);
    lemma_play_first(idle(), input, none);
    assert(play(idle(), seq![input]).1 =~= seq![OutputView::Typed(input)]);
}

} // verus!
