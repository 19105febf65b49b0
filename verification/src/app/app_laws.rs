//! What the program around the runs is for: that what the user says and chooses is done, and
//! what happened is told.

use crate::agent::AwaitingInput;
use crate::agent::LiveEventView;
use crate::agent::RequestInputQuestion;
use crate::app::commands::SlashFacts;
use crate::app::commands::SlashStep;
use crate::app::commands::SlashStepView;
use crate::app::commands::instead_of_list;
use crate::app::commands::said_after;
use crate::app::commands::step_of;
use crate::app::controller::ServiceAction;
use crate::app::controller::service_of;
use crate::app::diff::change_of;
use crate::app::diff::changes_of;
use crate::app::diff::diff_text;
use crate::app::diff::last_run;
use crate::app::diff::shown_from;
use crate::app::effects::PlatformCallView;
use crate::app::effects::call_for;
use crate::app::headless::all_told;
use crate::app::headless::exit_code_of;
use crate::app::headless::reason_word;
use crate::app::headless::status_word;
use crate::app::headless::told_at_the_end;
use crate::app::intent::AppCommandView;
use crate::app::intent::AppEffect;
use crate::app::interactive::CurrentView;
use crate::app::interactive::InteractiveView;
use crate::app::interactive::LoopActionView;
use crate::app::interactive::after_failure;
use crate::app::interactive::after_resuming;
use crate::app::interactive::after_turn;
use crate::app::interactive::begun_with;
use crate::app::interactive::has_work;
use crate::app::interactive::next_of;
use crate::app::interactive::performed;
use crate::app::interactive::said_of_resuming;
use crate::app::interactive::turn_ended;
use crate::app::interactive::turn_lines;
use crate::app::interactive::with_message;
use crate::app::interactive::with_model;
use crate::app::interactive::with_session;
use crate::app::interactive::with_theme;
use crate::app::keyboard::DecoderView;
use crate::app::keyboard::Input;
use crate::app::keyboard::Key;
use crate::app::keyboard::KeyCode;
use crate::app::keyboard::KeyEventKind;
use crate::app::keyboard::Mode;
use crate::app::keyboard::Wait;
use crate::app::keyboard::advance;
use crate::app::keyboard::edits;
use crate::app::keyboard::is_escape;
use crate::app::keyboard::is_text;
use crate::app::keyboard::pasted;
use crate::app::keyboard::pasted_char;
use crate::app::keyboard::pastes;
use crate::app::keyboard::timed_out;
use crate::app::keyboard::wait_in;
use crate::app::pointer::HitTarget;
use crate::app::pointer::MouseKind;
use crate::app::pointer::MouseStepView;
use crate::app::pointer::PointerActionView;
use crate::app::pointer::PointerHitView;
use crate::app::pointer::Rect;
use crate::app::pointer::Screen;
use crate::app::pointer::hit_of;
use crate::app::pointer::lies_in;
use crate::app::pointer::mouse_step;
use crate::app::sessions::HeadLineView;
use crate::app::sessions::LineCounter;
use crate::app::sessions::SessionFile;
use crate::app::sessions::SessionTarget;
use crate::app::sessions::counted_all;
use crate::app::sessions::first_user;
use crate::app::sessions::head_of;
use crate::app::sessions::is_space_byte;
use crate::app::sessions::latest_of;
use crate::app::sessions::lowered;
use crate::app::sessions::menu_label;
use crate::app::sessions::newest_first;
use crate::app::sessions::newest_first_is_an_order;
use crate::app::sessions::offered;
use crate::app::sessions::preview_of;
use crate::app::sessions::resume_label;
use crate::app::sessions::session_named;
use crate::app::sessions::session_of;
use crate::app::sessions::sessions_of;
use crate::app::sessions::title_of;
use crate::app::slash::command_of;
use crate::app::slash::registered;
use crate::app::turn::DialogueView;
use crate::app::turn::ExitGuard;
use crate::app::turn::Interrupt;
use crate::app::turn::RetryView;
use crate::app::turn::after_run;
use crate::app::turn::awaits;
use crate::app::turn::can_choose;
use crate::app::turn::discards;
use crate::app::turn::elsewhere;
use crate::app::turn::end_notice;
use crate::app::turn::failed_with;
use crate::app::turn::friendly;
use crate::app::turn::prompt_error;
use crate::app::turn::prompt_fault;
use crate::app::turn::retry_notice;
use crate::app::turn::target_fault;
use crate::app::turn::told;
use crate::app::turn::warning_of;
use crate::app::ui_effects::UiActionView;
use crate::app::ui_effects::UiEffect;
use crate::app::ui_effects::copy_notice;
use crate::app::ui_effects::effect_of;
use crate::bytes::lemma_encode_concat;
use crate::bytes::size_of;
use crate::ids::SessionId;
use crate::ids::hyphenated;
use crate::ids::uuid_parse;
use crate::outcome::ToolStatus;
use crate::session::CompletionReason;
use crate::session::SessionEventView;
use crate::text::decimal_of;
use crate::text::has_prefix;
use crate::text::has_suffix;
use crate::text::has_text;
use crate::text::join_of;
use crate::text::trim_of;
use vstd::prelude::*;
use vstd::string::*;

verus! {

/// Whether something stands on a line.
pub open spec fn is_filled(line: Seq<u8>) -> bool {
    exists|i: int| 0 <= i < line.len() && !is_space_byte(#[trigger] line[i])
}

/// A line counts once it ends where something stands on it, and not otherwise.
pub proof fn filled_lines_count(counter: LineCounter, line: Seq<u8>)
    requires
        counter.ended < usize::MAX,
        forall|i: int| 0 <= i < line.len() ==> #[trigger] line[i] != 0x0a,
    ensures
        ({
            let filled = counter.open || is_filled(line);
            let read = counted_all(counter, line);
            let after = counted_all(counter, line.push(0x0a));
            &&& read.ended == counter.ended
            &&& read.open == filled
            &&& after.ended == counter.ended + if filled {
                1int
            } else {
                0
            }
            &&& !after.open
        }),
    decreases line.len(),
{
    assert(line.push(0x0a).drop_last() =~= line);
    if line.len() == 0 {
        assert(!is_filled(line));
    } else {
        let rest = line.drop_last();
        let last = line.last();
        assert forall|i: int| 0 <= i < rest.len() implies #[trigger] rest[i] != 0x0a by {
            assert(rest[i] == line[i]);
        }
        filled_lines_count(counter, rest);
        assert(line[line.len() - 1] != 0x0a);
        if is_filled(rest) {
            let i = choose|i: int| 0 <= i < rest.len() && !is_space_byte(#[trigger] rest[i]);
            assert(!is_space_byte(line[i]));
            assert(is_filled(line));
        }
        if is_filled(line) && is_space_byte(last) {
            let i = choose|i: int| 0 <= i < line.len() && !is_space_byte(#[trigger] line[i]);
            assert(!is_space_byte(rest[i]));
            assert(is_filled(rest));
        }
        if !is_space_byte(last) {
            assert(!is_space_byte(line[line.len() - 1]));
            assert(is_filled(line));
        }
        assert(counted_all(counter, line) == crate::app::sessions::counted(
            counted_all(counter, rest),
            last,
        ));
        assert(counted_all(counter, line).open == (counter.open || is_filled(line)));
    }
    assert(counted_all(counter, line.push(0x0a)) == crate::app::sessions::counted(
        counted_all(counter, line),
        0x0a,
    ));
}

/// Blanks, tabs and line ends are no contents of a line; letters are.
pub proof fn what_fills_no_line(byte: u8)
    ensures
        is_space_byte(byte) == (byte == 32 || byte == 9 || byte == 10 || byte == 12 || byte == 13),
{
}

/// A session is called by what the user said first in it.
pub proof fn the_first_message_of_the_user(all: Seq<HeadLineView>, k: int)
    ensures
        0 <= k < all.len() && all[k] is User && (forall|i: int|
            0 <= i < k ==> !((#[trigger] all[i]) is User)) ==> first_user(all) == Some(
            all[k]->User_0,
        ),
        (forall|i: int| 0 <= i < all.len() ==> !((#[trigger] all[i]) is User)) ==> first_user(all)
            is None,
    decreases all.len(),
{
    if all.len() > 0 {
        let rest = all.drop_first();
        the_first_message_of_the_user(rest, k - 1);
        if forall|i: int| 0 <= i < all.len() ==> !((#[trigger] all[i]) is User) {
            assert forall|i: int| 0 <= i < rest.len() implies !((#[trigger] rest[i]) is User) by {
                assert(rest[i] == all[i + 1]);
            }
            assert(!(all[0] is User));
        }
        if 0 < k < all.len() && all[k] is User && (forall|i: int|
            0 <= i < k ==> !((#[trigger] all[i]) is User)) {
            assert(!(all[0] is User));
            assert(rest[k - 1] == all[k]);
            assert forall|i: int| 0 <= i < k - 1 implies !((#[trigger] rest[i]) is User) by {
                assert(rest[i] == all[i + 1]);
            }
        }
    }
}

/// A preview says who spoke, and of what was said no more than 60 characters and a mark.
pub proof fn previews_say_who_spoke(text: Seq<char>)
    ensures
        preview_of(HeadLineView::Skipped) is None,
        preview_of(HeadLineView::User(text)) matches Some(line) ==> line.is_user
            && line.text.len() <= 61,
        preview_of(HeadLineView::Assistant(text)) matches Some(line) ==> !line.is_user
            && line.text.len() <= 61,
        (preview_of(HeadLineView::User(text)) is Some) == (preview_of(
            HeadLineView::Assistant(text),
        ) is Some),
        preview_of(HeadLineView::User(text)) is Some ==> preview_of(
            HeadLineView::User(text),
        )->0.text == preview_of(HeadLineView::Assistant(text))->0.text,
{
    reveal_strlit("…");
}

/// A file is a session where it is named by an identifier and `.jsonl`; the session of a
/// beginning is one whose name begins so, whatever the case.
pub proof fn what_a_session_file_is(stem: Seq<char>, prefix: Seq<char>)
    ensures
        session_of(stem + ".jsonl"@, prefix) == if uuid_parse(stem) is Some && has_prefix(
            lowered(stem),
            prefix,
        ) {
            Some(stem)
        } else {
            None
        },
{
    let name = stem + ".jsonl"@;
    assert(name.subrange(0, name.len() - ".jsonl"@.len()) =~= stem);
    assert(name.subrange(name.len() - ".jsonl"@.len(), name.len() as int) =~= ".jsonl"@);
}

/// All sessions of a beginning are found, and no others.
pub proof fn sessions_are_found(names: Seq<Seq<char>>, prefix: Seq<char>, k: int)
    ensures
        forall|i: int|
            0 <= i < sessions_of(names, prefix).len() ==> exists|j: int|
                0 <= j < names.len() && session_of(#[trigger] names[j], prefix) == Some(
                    #[trigger] sessions_of(names, prefix)[i],
                ),
        0 <= k < names.len() && session_of(names[k], prefix) is Some ==> sessions_of(
            names,
            prefix,
        ).contains(session_of(names[k], prefix)->0),
        sessions_of(names, prefix).len() <= names.len(),
    decreases names.len(),
{
    if names.len() > 0 {
        let rest = names.drop_last();
        let last = names.last();
        sessions_are_found(rest, prefix, k);
        let before = sessions_of(rest, prefix);
        let all = sessions_of(names, prefix);
        assert forall|i: int| 0 <= i < all.len() implies exists|j: int|
            0 <= j < names.len() && session_of(#[trigger] names[j], prefix) == Some(
                #[trigger] all[i],
            ) by {
            if i < before.len() {
                let j = choose|j: int|
                    0 <= j < rest.len() && session_of(#[trigger] rest[j], prefix) == Some(
                        before[i],
                    );
                assert(names[j] == rest[j]);
                assert(session_of(names[j], prefix) == Some(all[i]));
            } else {
                assert(names[names.len() - 1] == last);
                assert(session_of(names[names.len() - 1], prefix) == Some(all[i]));
            }
        }
        if 0 <= k < names.len() && session_of(names[k], prefix) is Some {
            let stem = session_of(names[k], prefix)->0;
            if k < rest.len() {
                assert(rest[k] == names[k]);
                let i = choose|i: int| 0 <= i < before.len() && before[i] == stem;
                assert(all[i] == stem);
            } else {
                assert(all[all.len() - 1] == stem);
            }
        }
    }
}

/// A session is named by its identifier, or by a beginning that no other session has; and
/// nothing is guessed.
pub proof fn sessions_are_not_guessed(value: Seq<char>, names: Seq<Seq<char>>)
    ensures
        uuid_parse(value) is Some ==> session_named(value, names) == Ok::<u128, Seq<char>>(
            uuid_parse(value)->0,
        ),
        uuid_parse(value) is None && trim_of(value).len() == 0 ==> session_named(value, names)
            is Err,
        uuid_parse(value) is None && session_named(value, names) is Ok ==> sessions_of(
            names,
            lowered(trim_of(value)),
        ).len() == 1 && uuid_parse(sessions_of(names, lowered(trim_of(value)))[0]) == Some(
            session_named(value, names)->Ok_0,
        ),
{
}

/// The sessions that are offered are the hundred that changed last, the latest first; none
/// that is left out changed later than one that is not.
pub proof fn the_latest_sessions_are_offered(files: Seq<SessionFile>, i: int, j: int)
    ensures
        offered(files).len() <= 100,
        files.len() <= 100 ==> offered(files).to_multiset() == files.to_multiset(),
        0 <= i < j < offered(files).len() ==> offered(files)[i].modified
            >= offered(files)[j].modified,
        offered(files).len() <= i < files.len() && 0 <= j < offered(files).len()
            ==> newest_first(files)[i].modified <= offered(files)[j].modified,
        files.len() > 0 ==> offered(files).len() > 0,
{
    newest_first_is_an_order(files);
    if 0 <= i < j < offered(files).len() {
        assert(offered(files)[i] == newest_first(files)[i]);
        assert(offered(files)[j] == newest_first(files)[j]);
    }
    if offered(files).len() <= i < files.len() && 0 <= j < offered(files).len() {
        assert(offered(files)[j] == newest_first(files)[j]);
    }
}

/// A command means the same wherever it is read: the one reading leaves the program, starts a
/// session, compacts or makes a turn again where the other does; and a window is opened by the
/// name that was asked for.
pub proof fn both_readings_agree(message: Seq<char>, facts: SlashFacts, last: Option<RetryView>)
    requires
        trim_of(message) == message,
    ensures
        step_of(message, facts, last) is Quit == (command_of(message) == Some(
            AppCommandView::Quit,
        )),
        step_of(message, facts, last) is NewSession == (command_of(message) == Some(
            AppCommandView::StartNewSession,
        )),
        step_of(message, facts, last) is Compact == (command_of(message) == Some(
            AppCommandView::CompactNow,
        )),
        step_of(message, facts, last) is Cancel ==> command_of(message) == Some(
            AppCommandView::CancelRun,
        ) && facts.running,
        command_of(message) == Some(AppCommandView::CancelRun) && facts.running ==> step_of(
            message,
            facts,
            last,
        ) is Cancel,
        step_of(message, facts, last) is Retry ==> command_of(message) == Some(
            AppCommandView::RetryLast,
        ) && last is Some && step_of(message, facts, last)->Retry_message == last->0.message,
        command_of(message) == Some(AppCommandView::RetryLast) && last is Some ==> step_of(
            message,
            facts,
            last,
        ) is Retry,
        step_of(message, facts, last) is NotCommand ==> command_of(message) is None,
        command_of(message) is None ==> step_of(message, facts, last) is NotCommand || step_of(
            message,
            facts,
            last,
        ) is ShowMcp,
{
    lemma_words();
}

proof fn lemma_words()
    ensures
        "/quit"@.len() == 5,
        "/quit"@[1] == 'q',
        "/exit"@.len() == 5,
        "/exit"@[1] == 'e',
        "/cancel"@.len() == 7,
        "/cancel"@[1] == 'c',
        "/new"@.len() == 4,
        "/new"@[1] == 'n',
        "/compact"@.len() == 8,
        "/compact"@[1] == 'c',
        "/retry"@.len() == 6,
        "/retry"@[1] == 'r',
        "/mcp"@.len() == 4,
        "/mcp"@[1] == 'm',
        "/settings"@.len() == 9,
        "/settings"@[1] == 's',
        "/model"@.len() == 6,
        "/model"@[1] == 'm',
        "/help"@.len() == 5,
        "/help"@[1] == 'h',
        "/session"@.len() == 8,
        "/session"@[1] == 's',
        "/sessions"@.len() == 9,
        "/sessions"@[1] == 's',
        "/theme"@.len() == 6,
        "/theme"@[1] == 't',
        "/diff"@.len() == 5,
        "/diff"@[1] == 'd',
        "/doctor"@.len() == 7,
        "/doctor"@[1] == 'd',
        "/thinking"@.len() == 9,
        "/thinking"@[1] == 't',
        "/settings"@[3] == 't',
        "/sessions"@[3] == 's',
        "/model"@[2] == 'o',
        "/mcp "@.len() == 5,
        forall|w: Seq<char>| #[trigger] has_prefix(w, "/mcp "@) ==> w.len() >= 5 && w[1] == 'm'
            && w[2] == 'c',
{
    reveal_strlit("/quit");
    reveal_strlit("/exit");
    reveal_strlit("/cancel");
    reveal_strlit("/new");
    reveal_strlit("/compact");
    reveal_strlit("/retry");
    reveal_strlit("/mcp");
    reveal_strlit("/settings");
    reveal_strlit("/model");
    reveal_strlit("/help");
    reveal_strlit("/session");
    reveal_strlit("/sessions");
    reveal_strlit("/theme");
    reveal_strlit("/diff");
    reveal_strlit("/doctor");
    reveal_strlit("/thinking");
    reveal_strlit("/mcp ");
    let mark = "/mcp "@;
    assert forall|w: Seq<char>| #[trigger] has_prefix(w, mark) implies w.len() >= 5 && w[1] == 'm'
        && w[2] == 'c' by {
        assert(w.subrange(0, 5)[1] == w[1]);
        assert(w.subrange(0, 5)[2] == w[2]);
    }
}

/// What does not begin with a slash is no command.
pub proof fn commands_begin_with_a_slash(
    message: Seq<char>,
    facts: SlashFacts,
    last: Option<RetryView>,
)
    requires
        message.len() == 0 || message[0] != '/',
    ensures
        step_of(message, facts, last) is NotCommand,
{
    reveal_strlit("/quit");
    reveal_strlit("/exit");
    reveal_strlit("/cancel");
    reveal_strlit("/new");
    reveal_strlit("/compact");
    reveal_strlit("/retry");
    reveal_strlit("/mcp ");
    reveal_strlit("/mcp");
    reveal_strlit("/settings");
    reveal_strlit("/model");
    reveal_strlit("/help");
    reveal_strlit("/session");
    reveal_strlit("/sessions");
    reveal_strlit("/theme");
    reveal_strlit("/diff");
    reveal_strlit("/doctor");
    reveal_strlit("/thinking");
    if has_prefix(message, "/mcp "@) {
        assert(message.subrange(0, "/mcp "@.len() as int)[0] == message[0]);
    }
}

/// What the user says is run as it was said, once its turn comes: with the question that it
/// answers, and with the compaction that was asked for, which is then no longer asked for.
pub proof fn a_message_is_run_as_it_was_said(state: InteractiveView, facts: SlashFacts)
    requires
        state.current is None,
        state.theme is None,
        state.model is None,
        state.session is None,
        state.retry is None,
        state.messages.len() > 0,
        state.messages[0].len() == 0 || state.messages[0][0] != '/',
    ensures
        ({
            let (after, action) = next_of(state, facts);
            &&& action == (LoopActionView::Run {
                message: state.messages[0],
                answers: state.dialogue.pending_question is Some,
                discard: false,
                compact: state.compact,
            })
            &&& after.messages == state.messages.skip(1)
            &&& after.current == Some(CurrentView { message: state.messages[0], again: false })
            &&& !after.compact
            &&& after.dialogue.pending_question is None
            &&& after.dialogue.last_failed == state.dialogue.last_failed
        }),
{
    commands_begin_with_a_slash(state.messages[0], facts, state.dialogue.last_failed);
}

/// What the user chose comes before what the user said, and nothing comes while a turn is
/// under way.
pub proof fn choices_come_first(state: InteractiveView, facts: SlashFacts)
    ensures
        state.current is Some ==> next_of(state, facts) == (state, LoopActionView::Wait),
        state.current is None && state.theme is Some ==> next_of(state, facts).1
            == LoopActionView::ApplyTheme(state.theme->0),
        state.current is None && state.theme is None && state.model is Some ==> next_of(
            state,
            facts,
        ).1 is UseModel || next_of(state, facts).1 is Say,
        state.current is None && state.theme is None && state.model is None && state.session
            is Some && uuid_parse(state.session->0) is Some ==> next_of(state, facts).1
            == LoopActionView::Resume(crate::ids::SessionId(uuid_parse(state.session->0)->0)),
        state.current is None && state.theme is None && state.model is None && state.session
            is None && state.retry is Some ==> {
            let action = next_of(state, facts).1;
            &&& action is Run
            &&& action->Run_message.len() == 0
            &&& !action->answers
            &&& action->compact == state.compact
        },
        next_of(state, facts).1 is Run ==> next_of(state, facts).0.current is Some,
        next_of(state, facts).1 is Wait ==> next_of(state, facts).0 == state,
{
}

/// A turn that failed for want of the model, or in an error, can be made again as it was
/// said; and a turn that ended in any other way cannot.
pub proof fn what_failed_can_be_made_again(
    dialogue: DialogueView,
    message: Seq<char>,
    reason: CompletionReason,
    awaiting: Option<AwaitingInput>,
    again: bool,
)
    ensures
        ({
            let failed = reason == CompletionReason::ProviderInterrupted || reason
                == CompletionReason::ProviderUnavailable || reason == CompletionReason::Error;
            let after = after_run(dialogue, message, reason, awaiting);
            let ended = turn_ended(dialogue, CurrentView { message, again }, reason, awaiting);
            &&& failed ==> after.last_failed == Some(RetryView { message, reason })
            &&& !failed ==> after.last_failed is None
            &&& ended.last_failed == after.last_failed
            &&& (retry_notice(reason) is Some) == failed
            &&& reason == CompletionReason::AwaitingUserInput && awaiting is Some
                ==> after.pending_question == Some(awaiting->0.text@)
            &&& reason != CompletionReason::AwaitingUserInput ==> after.pending_question
                == dialogue.pending_question
            &&& !again ==> ended == after
            &&& again ==> ended.pending_question == dialogue.pending_question
        }),
{
}

/// The program ends by pressing twice within two seconds, and never by pressing once or while
/// a run is on: a run is cancelled by that.
pub proof fn leaving_takes_two_presses(guard: ExitGuard, first: u64, second: u64)
    requires
        0 < first <= second,
    ensures
        guard.pressed(true, first).0 == Interrupt::CancelRun,
        guard.pressed(true, first).1 == guard,
        (ExitGuard { armed_at: 0 }).pressed(false, first).0 == Interrupt::Arm,
        ({
            let once = (ExitGuard { armed_at: 0 }).pressed(false, first).1;
            let twice = once.pressed(false, second).0;
            &&& second - first < 2000 ==> twice == Interrupt::Exit
            &&& second - first >= 2000 ==> twice == Interrupt::Arm
        }),
{
}

/// A single prompt fails where the model could not be reached or the run ended in an error,
/// and then says where the session is.
pub proof fn when_a_prompt_fails(reason: CompletionReason, path: Seq<char>)
    ensures
        (prompt_error(reason, path) is Some) == (reason == CompletionReason::Error || reason
            == CompletionReason::ProviderUnavailable),
        prompt_error(reason, path) is Some ==> has_suffix(prompt_error(reason, path)->0, path),
        (warning_of(reason) is Some) == (reason == CompletionReason::WallTimeExceeded || reason
            == CompletionReason::ProviderInterrupted),
{
    if let Some(text) = prompt_error(reason, path) {
        assert(text.subrange(text.len() - path.len(), text.len() as int) =~= path);
    }
}

/// A prompt is refused where there is none or it is too long, and a session where there is to
/// be none.
pub proof fn what_is_refused(
    prompt: Seq<char>,
    max_bytes: usize,
    target: SessionTarget,
    no_session: bool,
)
    ensures
        (prompt_fault(prompt, max_bytes) is None) == (prompt.len() > 0 && size_of(prompt)
            <= max_bytes),
        (target_fault(target, no_session) is None) == (!no_session || target is New),
{
}

/// Answers are offered for choice where every question has some.
pub proof fn when_answers_are_offered(
    questions: Seq<RequestInputQuestion>,
    question: RequestInputQuestion,
)
    ensures
        !can_choose(Seq::<RequestInputQuestion>::empty()),
        question.options@.len() == 0 ==> !can_choose(questions.push(question)),
        can_choose(questions) && question.options@.len() > 0 ==> can_choose(
            questions.push(question),
        ),
        question.options@.len() > 0 ==> can_choose(seq![question]),
{
    let more = questions.push(question);
    assert(more[questions.len() as int] == question);
    if can_choose(questions) && question.options@.len() > 0 {
        assert forall|i: int| 0 <= i < more.len() implies (
        #[trigger] more[i]).options@.len() > 0 by {
            if i < questions.len() {
                assert(more[i] == questions[i]);
            }
        }
    }
}

/// The program ends with 0 where the model came to its end, with 130 where the run was cut
/// short by the user or the clock, and with 1 otherwise.
pub proof fn what_the_program_ends_with(reason: CompletionReason)
    ensures
        (exit_code_of(reason) == 0) == (reason == CompletionReason::Stop),
        (exit_code_of(reason) == 130) == (reason == CompletionReason::Cancelled || reason
            == CompletionReason::WallTimeExceeded),
        exit_code_of(reason) == 0 || exit_code_of(reason) == 130 || exit_code_of(reason) == 1,
{
}

/// Every event of a run is told, in its place; what the model said and what tools wrote is
/// told whole, and of a tool its name.
pub proof fn events_are_told_in_order(
    events: Seq<LiveEventView>,
    awaiting: Option<AwaitingInput>,
    k: int,
)
    requires
        0 <= k < events.len(),
    ensures
        all_told(events, awaiting).len() == events.len() + if awaiting is Some {
            1int
        } else {
            0
        },
        ({
            let line = all_told(events, awaiting)[k];
            &&& line.v == 1
            &&& match events[k] {
                LiveEventView::StepStarted { step } => line.kind == "step_started"@ && line.step
                    == Some(step),
                LiveEventView::AssistantDelta { request_id, kind, text } => line.kind
                    == "assistant_delta"@ && line.delta == Some(text),
                LiveEventView::ToolStarted { call_id, name, arguments } => line.kind
                    == "tool_started"@ && line.tool == Some(name),
                LiveEventView::ToolCompleted {
                    call_id,
                    name,
                    status,
                    duration_ms,
                    exit_code,
                    output,
                    diff,
                } => line.kind == "tool_completed"@ && line.tool == Some(name) && line.delta
                    == Some(output) && line.tool_status == Some(status_word(status)),
                LiveEventView::ToolOutputDelta { call_id, stream, text } => line.kind
                    == "tool_output_delta"@ && line.delta == Some(text),
                _ => line.kind == "notice"@ && line.delta is None,
            }
        }),
        awaiting is Some ==> all_told(events, awaiting).last().kind == "input_requested"@
            && all_told(events, awaiting).last().delta == Some(awaiting->0.text@),
{
}

/// The end of a run is told with its reason and the whole answer.
pub proof fn the_end_is_told(reason: CompletionReason, text: Seq<char>)
    ensures
        told_at_the_end(reason, text).kind == "run_completed"@,
        told_at_the_end(reason, text).reason == Some(reason_word(reason)),
        told_at_the_end(reason, text).assistant_text == Some(text),
        told_at_the_end(reason, text).v == 1,
{
}

/// States of tools and reasons are told by different words.
pub proof fn words_tell_states_apart(a: ToolStatus, b: ToolStatus)
    ensures
        (status_word(a) == status_word(b)) == (a == b),
{
    reveal_strlit("Succeeded");
    reveal_strlit("Failed");
    reveal_strlit("TimedOut");
    reveal_strlit("Cancelled");
    reveal_strlit("Interrupted");
    reveal_strlit("Rejected");
    assert("Succeeded"@.len() == 9 && "Failed"@.len() == 6 && "TimedOut"@.len() == 8
        && "Cancelled"@.len() == 9 && "Interrupted"@.len() == 11 && "Rejected"@.len() == 8);
    assert("Succeeded"@[0] == 'S' && "Cancelled"@[0] == 'C' && "TimedOut"@[0] == 'T'
        && "Rejected"@[0] == 'R');
}

/// Letters, line ends and tabs are pasted as they are; keys with Control or Alt are not.
pub proof fn what_keys_paste(key: Key)
    ensures
        key.control || key.alt ==> pasted_char(key) is None,
        !key.control && !key.alt ==> match key.code {
            KeyCode::Char(c) => pasted_char(key) == Some(c),
            KeyCode::Enter => pasted_char(key) == Some('\n'),
            KeyCode::Tab => pasted_char(key) == Some('\t'),
            _ => pasted_char(key) is None,
        },
        pastes(key) == ((key.control && key.code == KeyCode::Char('v')) || (key.shift && key.code
            == KeyCode::Insert)),
{
}

/// A pasted text has a character for each of its keys, in their order.
pub proof fn every_key_of_a_text_is_pasted(inputs: Seq<Input>, k: int)
    requires
        is_text(inputs),
    ensures
        pasted(inputs).len() == inputs.len(),
        0 <= k < inputs.len() ==> Some(pasted(inputs)[k]) == pasted_char(inputs[k].key->0),
    decreases inputs.len(),
{
    if inputs.len() > 0 {
        let rest = inputs.drop_last();
        assert forall|i: int| 0 <= i < rest.len() implies {
            &&& (#[trigger] rest[i]).key is Some
            &&& rest[i].key->0.kind == KeyEventKind::Press
            &&& pasted_char(rest[i].key->0) is Some
        } by {
            assert(rest[i] == inputs[i]);
        }
        every_key_of_a_text_is_pasted(rest, k);
        assert(inputs[inputs.len() - 1].key is Some);
    }
}

/// Letting go of a key does nothing.
pub proof fn letting_go_does_nothing(d: DecoderView, input: Input)
    requires
        input.key matches Some(key) && key.kind == KeyEventKind::Release,
    ensures
        advance(d, input).after == d,
        advance(d, input).outputs.len() == 0,
        advance(d, input).again.len() == 0,
{
}

/// A rectangle holds its first row and column and not what comes after its last.
pub proof fn what_a_rectangle_holds(rect: Rect, column: u16, row: u16)
    ensures
        rect.width > 0 && rect.height > 0 ==> lies_in(rect, rect.x, rect.y),
        column == rect.x + rect.width ==> !lies_in(rect, column, row),
        row == rect.y + rect.height ==> !lies_in(rect, column, row),
        column < rect.x || row < rect.y ==> !lies_in(rect, column, row),
        rect.x <= column && column + 1 <= rect.x + rect.width && rect.y <= row && row + 1 <= rect.y
            + rect.height ==> lies_in(rect, column, row),
{
}

/// The sidebar lies over the scrollbar, and both over the conversation; there a card lies over
/// a link.
pub proof fn what_lies_on_top(screen: Screen, column: u16, row: u16)
    ensures
        ({
            let hit = hit_of(screen, column, row);
            let on_sidebar = screen.sidebar is Some && lies_in(screen.sidebar->0, column, row);
            let on_bar = screen.scrollbar is Some && lies_in(screen.scrollbar->0, column, row);
            &&& on_sidebar && screen.sidebar_entry is Some ==> hit == PointerHitView::SidebarEntry(
                screen.sidebar_entry->0,
            )
            &&& on_sidebar && screen.sidebar_entry is None ==> hit == PointerHitView::Sidebar
            &&& !on_sidebar && on_bar ==> hit == PointerHitView::Scrollbar
            &&& !on_sidebar && !on_bar && screen.text is None && screen.target is None ==> hit
                == PointerHitView::Nowhere
            &&& !on_sidebar && !on_bar && (screen.text is Some || screen.target is Some) ==> hit
                is Transcript && hit->Transcript_text == screen.text
            &&& !on_sidebar && !on_bar ==> match screen.target {
                Some(HitTarget::Tool(id)) => hit is Transcript && hit->Transcript_action == Some(
                    PointerActionView::Tool(id),
                ),
                Some(HitTarget::Reasoning(id)) => hit is Transcript && hit->Transcript_action
                    == Some(PointerActionView::Reasoning(id)),
                None => screen.text is Some && screen.link is Some ==> hit->Transcript_action
                    == Some(PointerActionView::Link(screen.link->0@)),
            }
        }),
{
}

/// The wheel scrolls what it is over, up or down as it turns; and while a window is open
/// nothing behind it is hit.
pub proof fn the_wheel_and_the_window(screen: Screen, kind: MouseKind, column: u16, row: u16)
    ensures
        ({
            let on_sidebar = screen.sidebar is Some && lies_in(screen.sidebar->0, column, row);
            &&& mouse_step(screen, MouseKind::ScrollUp, column, row, false) == if on_sidebar {
                MouseStepView::SidebarScroll(true)
            } else {
                MouseStepView::Scroll(true)
            }
            &&& mouse_step(screen, MouseKind::ScrollDown, column, row, false) == if on_sidebar {
                MouseStepView::SidebarScroll(false)
            } else {
                MouseStepView::Scroll(false)
            }
            &&& mouse_step(screen, MouseKind::ScrollUp, column, row, true)
                == MouseStepView::Scroll(true)
            &&& mouse_step(screen, kind, column, row, true) matches MouseStepView::Pointer {
                kind: what,
                column: x,
                row: y,
                hit,
            } ==> hit == PointerHitView::Nowhere && what == kind && x == column && y == row
            &&& mouse_step(screen, MouseKind::Moved, column, row, false)
                == (MouseStepView::Pointer {
                kind: MouseKind::Moved,
                column,
                row,
                hit: hit_of(screen, column, row),
            })
            &&& on_sidebar && column == screen.sidebar->0.x + screen.sidebar->0.width - 1
                ==> mouse_step(screen, MouseKind::LeftDown, column, row, false)
                == MouseStepView::SidebarJump((row - screen.sidebar->0.y) as u16)
        }),
{
}

/// Whether an address leads to the web: without the space around it, and whatever the case,
/// it begins so.
pub open spec fn leads_to_the_web(url: Seq<char>) -> bool {
    let text = lowered(trim_of(url));
    has_prefix(text, "https://"@) || has_prefix(text, "http://"@)
}

/// Only addresses of the web are opened, and these as they are; what is copied, shown and
/// said is what was asked for.
pub proof fn effects_are_what_was_asked_for(effect: AppEffect)
    ensures
        match effect {
            AppEffect::OpenUrl(url) => (call_for(effect) is Ok) == leads_to_the_web(url@) && (
            call_for(effect) is Ok ==> call_for(effect) == Ok::<PlatformCallView, Seq<char>>(
                PlatformCallView::OpenUrl(url@),
            )),
            AppEffect::CopyToClipboard(text) => call_for(effect) == Ok::<
                PlatformCallView,
                Seq<char>,
            >(PlatformCallView::CopyToClipboard(text@)),
            AppEffect::SetTerminalTitle(title) => call_for(effect) == Ok::<
                PlatformCallView,
                Seq<char>,
            >(PlatformCallView::SetTerminalTitle(title@)),
            AppEffect::Notify(message) => call_for(effect) == Ok::<PlatformCallView, Seq<char>>(
                PlatformCallView::Notify(message@),
            ),
            AppEffect::Draw => call_for(effect) == Ok::<PlatformCallView, Seq<char>>(
                PlatformCallView::Nothing,
            ),
            AppEffect::OpenFilePicker { filter } => call_for(effect) is Err,
        },
{
}

/// What the user asks of the screen is done: the run is cancelled, the program left, an
/// address of the web opened and any other refused, and what is selected copied, if anything
/// is.
pub proof fn what_the_screen_asks_for(effect: UiEffect, selected: Seq<char>, short: Seq<char>)
    ensures
        match effect {
            UiEffect::CancelRun => effect_of(effect, selected, short).0 is CancelRun,
            UiEffect::Quit => effect_of(effect, selected, short).0 is Quit,
            UiEffect::ResumeSession(_) => effect_of(effect, selected, short).0 is Nothing,
            UiEffect::OpenUrl(url) => effect_of(effect, selected, short).0 == if leads_to_the_web(
                url@,
            ) {
                UiActionView::Open(url@)
            } else {
                UiActionView::Nothing
            },
            UiEffect::CopyText(text) => effect_of(effect, selected, short).0
                == UiActionView::CopyText(text@),
            UiEffect::CopySelection => effect_of(effect, selected, short).0 == if selected.len()
                > 0 {
                UiActionView::CopySelection(selected)
            } else {
                UiActionView::Nothing
            },
        },
        copy_notice(UiActionView::CopySelection(selected), true).1,
        !copy_notice(UiActionView::CopySelection(selected), false).1,
        !copy_notice(UiActionView::CopyText(selected), true).1,
        copy_notice(UiActionView::Nothing, true).0 is None,
{
}

/// A command cancels the run or leaves the session where that is what it says, and nothing
/// else does.
pub proof fn what_commands_do_to_the_session(command: AppCommandView)
    ensures
        (service_of(command) == ServiceAction::CancelRun) == (command is CancelRun),
        (service_of(command) == ServiceAction::ResetConversation) == (command is StartNewSession),
{
}

/// A lost connection is told in plain words, and any other failure as it is.
pub proof fn failures_are_told(error: Seq<char>)
    ensures
        !has_text(error, "connection failed"@) && !has_text(error, "stream interrupted"@)
            ==> friendly(error) == error,
        has_text(error, "connection failed"@) ==> friendly(error) == friendly(
            "connection failed"@,
        ),
        has_text(error, "stream interrupted"@) ==> friendly(error) == friendly(
            "connection failed"@,
        ),
{
    let none = Seq::<char>::empty();
    crate::text_laws::a_part_occurs(none, "connection failed"@, none);
    assert(none + "connection failed"@ + none =~= "connection failed"@);
}

/// A change is shown where a file was edited or written with success.
pub proof fn which_changes_are_shown(event: SessionEventView)
    ensures
        change_of(event) is Some ==> event is ToolCompleted
            && event->ToolCompleted_outcome.status == ToolStatus::Succeeded && (
        event->ToolCompleted_outcome.session_metadata.tool == "edit"@
            || event->ToolCompleted_outcome.session_metadata.tool == "write"@) && change_of(event)
            == event->ToolCompleted_outcome.session_metadata.diff,
        event is ToolCompleted && event->ToolCompleted_outcome.status == ToolStatus::Succeeded && (
        event->ToolCompleted_outcome.session_metadata.tool == "edit"@
            || event->ToolCompleted_outcome.session_metadata.tool == "write"@) ==> change_of(event)
            == event->ToolCompleted_outcome.session_metadata.diff,
{
}

/// What is shown is what the last run changed.
pub proof fn the_last_run_is_shown(events: Seq<SessionEventView>, k: int)
    ensures
        0 <= last_run(events) <= events.len(),
        last_run(events) > 0 ==> events[last_run(events) - 1] is RunStarted,
        last_run(events) <= k < events.len() ==> !(events[k] is RunStarted),
    decreases events.len(),
{
    if events.len() > 0 && !(events.last() is RunStarted) {
        the_last_run_is_shown(events.drop_last(), k);
        if last_run(events) <= k < events.len() - 1 {
            assert(events.drop_last()[k] == events[k]);
        }
    }
}

/// Changes are shown in their order.
pub proof fn changes_keep_their_order(events: Seq<SessionEventView>, event: SessionEventView)
    ensures
        changes_of(events.push(event)) == match change_of(event) {
            Some(diff) => changes_of(events).push(diff),
            None => changes_of(events),
        },
{
    assert(events.push(event).drop_last() =~= events);
}

proof fn lemma_shown(changes: Seq<Seq<char>>, i: int, shown: Seq<char>)
    requires
        0 < i <= changes.len(),
        shown == join_of(changes.take(i), "\n---\n\n"@),
        size_of(join_of(changes, "\n---\n\n"@)) <= 49152,
    ensures
        shown_from(changes, i, shown) == join_of(changes, "\n---\n\n"@),
    decreases changes.len() - i,
{
    let sep = "\n---\n\n"@;
    if i == changes.len() {
        assert(changes.take(i) =~= changes);
    } else {
        let begun = shown + sep;
        let next = begun + changes[i];
        let longer = changes.take(i + 1);
        assert(longer.drop_last() =~= changes.take(i));
        assert(longer.last() == changes[i]);
        assert(next == join_of(longer, sep));
        lemma_join_grows(changes, sep, i + 1);
        lemma_encode_concat(begun, changes[i]);
        lemma_shown(changes, i + 1, next);
    }
}

proof fn lemma_join_grows(parts: Seq<Seq<char>>, sep: Seq<char>, n: int)
    requires
        0 <= n <= parts.len(),
    ensures
        size_of(join_of(parts.take(n), sep)) <= size_of(join_of(parts, sep)),
    decreases parts.len() - n,
{
    if n == parts.len() {
        assert(parts.take(n) =~= parts);
    } else {
        lemma_join_grows(parts, sep, n + 1);
        let longer = parts.take(n + 1);
        assert(longer.drop_last() =~= parts.take(n));
        let front = join_of(parts.take(n), sep);
        if n > 0 {
            assert(join_of(longer, sep) == front + sep + parts[n]);
            lemma_encode_concat(front + sep, parts[n]);
            lemma_encode_concat(front, sep);
        } else {
            assert(front =~= Seq::<char>::empty());
            lemma_encode_concat(front, join_of(longer, sep));
            assert(front + join_of(longer, sep) =~= join_of(longer, sep));
        }
    }
}

/// Changes that fit are shown whole, all of them, with a line between each two.
pub proof fn what_fits_is_shown_whole(events: Seq<SessionEventView>)
    requires
        changes_of(events.skip(last_run(events))).len() > 0,
        size_of(join_of(changes_of(events.skip(last_run(events))), "\n---\n\n"@)) <= 49152,
    ensures
        diff_text(events) == join_of(changes_of(events.skip(last_run(events))), "\n---\n\n"@),
{
    let changes = changes_of(events.skip(last_run(events)));
    let none = Seq::<char>::empty();
    let first = changes.take(1);
    assert(first.len() == 1 && first[0] == changes[0]);
    assert(join_of(first, "\n---\n\n"@) == changes[0]);
    lemma_join_grows(changes, "\n---\n\n"@, 1);
    assert(none + changes[0] =~= changes[0]);
    lemma_encode_concat(none, none);
    assert(none + none =~= none);
    assert(size_of(none) == 0);
    lemma_shown(changes, 1, changes[0]);
}

/// What the user says answers a question where there is one, and leaves none open; it does not
/// touch what can be made again.
pub proof fn saying_something_answers(dialogue: DialogueView)
    ensures
        awaits(dialogue) == (dialogue.pending_question is Some),
        !awaits(told(dialogue)),
        told(dialogue).last_failed == dialogue.last_failed,
{
}

/// A turn that could not be carried on can be made again with the same message.
pub proof fn what_could_not_be_carried_on(dialogue: DialogueView, message: Seq<char>)
    ensures
        failed_with(dialogue, message).last_failed is Some,
        failed_with(dialogue, message).last_failed->0.message == message,
        failed_with(dialogue, message).last_failed->0.reason == CompletionReason::Error,
        failed_with(dialogue, message).pending_question == dialogue.pending_question,
        !discards(failed_with(dialogue, message)),
{
}

/// Only what broke off is taken away before it is made again; and in another session there is
/// nothing to make again.
pub proof fn what_is_taken_away_first(dialogue: DialogueView)
    ensures
        discards(dialogue) == (dialogue.last_failed is Some && dialogue.last_failed->0.reason
            == CompletionReason::ProviderInterrupted),
        elsewhere(dialogue).last_failed is None,
        elsewhere(dialogue).pending_question == dialogue.pending_question,
{
}

/// A key edits when it goes down and while it is held, and not when it is let go.
pub proof fn when_a_key_edits()
    ensures
        edits(KeyEventKind::Press),
        edits(KeyEventKind::Repeat),
        !edits(KeyEventKind::Release),
{
}

/// The next key is waited for without end where nothing is open, and not for long where
/// something is.
pub proof fn how_long_a_key_is_waited_for(mode: Mode)
    ensures
        (wait_in(mode) == Wait::Forever) == (mode == Mode::Idle),
        (wait_in(mode) == Wait::Pause) == (mode == Mode::Pasting),
{
}

/// The latest session is the first of those in order, and there is one where there is any.
pub proof fn which_session_is_the_latest(sorted: Seq<SessionFile>)
    ensures
        (latest_of(sorted) is Ok) == (sorted.len() > 0),
        sorted.len() > 0 ==> latest_of(sorted)->Ok_0 == sorted[0].id,
{
}

/// A session that is gone on with is named by its title and the beginning of its name.
pub proof fn sessions_are_named(id: SessionId, title: Seq<char>, seconds: int, events: nat)
    ensures
        title.len() > 0 ==> has_text(resume_label(Some((id, title))), "「"@ + title + "」"@),
        title.len() > 0 ==> has_prefix(menu_label(title, seconds, events), title + " · "@),
        has_suffix(menu_label(title, seconds, events), decimal_of(events) + " 事件"@),
{
    let label = menu_label(title, seconds, events);
    let n = label.len() as int;
    let tail = decimal_of(events) + " 事件"@;
    assert(label.subrange(n - tail.len(), n) =~= tail);
    if title.len() > 0 {
        let head = title + " · "@;
        assert(label.subrange(0, head.len() as int) =~= head);
        let text = resume_label(Some((id, title)));
        let name = crate::text::take_of(hyphenated(id.0), 13);
        reveal_strlit("已恢复会话「");
        reveal_strlit("已恢复会话");
        reveal_strlit("「");
        reveal_strlit("」（");
        reveal_strlit("」");
        reveal_strlit("（");
        assert("已恢复会话「"@ =~= "已恢复会话"@ + "「"@);
        assert("」（"@ =~= "」"@ + "（"@);
        let part = "「"@ + title + "」"@;
        let rest = "（"@ + name + "…）"@;
        crate::text_laws::a_part_occurs("已恢复会话"@, part, rest);
        assert(text =~= "已恢复会话"@ + part + rest);
    }
}

/// What was done for a command is said where it changes the session.
pub proof fn what_is_said_of_commands(step: SlashStep)
    ensures
        (said_after(step) is Some) == (step is NewSession || step is Cancel || step is Compact),
{
}

/// The list of sessions is shown where there are any, and otherwise it is said why not.
pub proof fn when_sessions_are_listed(listed: Result<usize, String>)
    ensures
        (instead_of_list(listed) is None) == (listed is Ok && listed->Ok_0 > 0),
        listed is Err ==> has_suffix(instead_of_list(listed)->0, listed->Err_0@),
{
    if listed is Err {
        let text = instead_of_list(listed)->0;
        let error = listed->Err_0@;
        let n = text.len() as int;
        assert(text.subrange(n - error.len(), n) =~= error);
    }
}

/// A session begins with what was said already, and with nothing else.
pub proof fn how_a_session_begins(prompt: Seq<char>)
    ensures
        prompt.len() > 0 ==> begun_with(prompt).messages == seq![prompt],
        prompt.len() == 0 ==> begun_with(prompt).messages.len() == 0,
        begun_with(prompt).theme is None && begun_with(prompt).model is None && begun_with(
            prompt,
        ).session is None && begun_with(prompt).retry is None && !begun_with(prompt).compact
            && begun_with(prompt).current is None,
        !awaits(begun_with(prompt).dialogue) && begun_with(prompt).dialogue.last_failed is None,
{
}

/// What is said and chosen is kept until it is done: what is said last comes last, and a choice
/// touches nothing else.
pub proof fn what_is_asked_for_is_kept(state: InteractiveView, text: Seq<char>)
    ensures
        with_message(state, text).messages == state.messages.push(text),
        with_message(state, text).dialogue == state.dialogue && with_message(state, text).current
            == state.current && with_message(state, text).theme == state.theme && with_message(
            state,
            text,
        ).model == state.model && with_message(state, text).session == state.session,
        with_theme(state, text).theme == Some(text) && with_theme(state, text).messages
            == state.messages && with_theme(state, text).model == state.model && with_theme(
            state,
            text,
        ).session == state.session && with_theme(state, text).current == state.current,
        with_model(state, text).model == Some(text) && with_model(state, text).messages
            == state.messages && with_model(state, text).theme == state.theme && with_model(
            state,
            text,
        ).session == state.session && with_model(state, text).current == state.current,
        with_session(state, text).session == Some(text) && with_session(state, text).messages
            == state.messages && with_session(state, text).theme == state.theme && with_session(
            state,
            text,
        ).model == state.model && with_session(state, text).current == state.current,
{
}

/// Once a turn is over, nothing runs, and what was said meanwhile is still to be done; one that
/// could not be carried on can be made again with its message.
pub proof fn what_is_left_after_a_turn(
    state: InteractiveView,
    reason: CompletionReason,
    awaiting: Option<AwaitingInput>,
)
    requires
        state.current is Some,
    ensures
        after_turn(state, reason, awaiting).current is None,
        after_turn(state, reason, awaiting).messages == state.messages,
        after_turn(state, reason, awaiting).dialogue.last_failed is Some ==> after_turn(
            state,
            reason,
            awaiting,
        ).dialogue.last_failed->0.message == state.current->0.message,
        reason == CompletionReason::Stop ==> after_turn(
            state,
            reason,
            awaiting,
        ).dialogue.last_failed is None,
        reason == CompletionReason::AwaitingUserInput && awaiting is Some && !state.current->0.again
            ==> after_turn(state, reason, awaiting).dialogue.pending_question == Some(
            awaiting->0.text@,
        ),
        after_failure(state).current is None,
        after_failure(state).messages == state.messages,
        after_failure(state).dialogue == failed_with(state.dialogue, state.current->0.message),
        turn_lines(state.current->0, reason).len() > 0,
        turn_lines(state.current->0, reason).len() > 1 ==> state.current->0.again,
{
}

/// Another session is worked in only where that could be done, and otherwise it is said why
/// not and nothing changes.
pub proof fn going_on_elsewhere(
    state: InteractiveView,
    result: Result<(SessionId, String), String>,
)
    ensures
        result is Err ==> after_resuming(state, result is Ok) == state && has_suffix(
            said_of_resuming(result),
            result->Err_0@,
        ),
        result is Ok ==> after_resuming(state, result is Ok).dialogue.last_failed is None
            && after_resuming(state, result is Ok).messages == state.messages
            && after_resuming(state, result is Ok).dialogue.pending_question
            == state.dialogue.pending_question,
{
    if result is Err {
        let text = said_of_resuming(result);
        let error = result->Err_0@;
        let n = text.len() as int;
        assert(text.subrange(n - error.len(), n) =~= error);
    }
}

/// What is asked for by a command is done next: a turn again, a compaction with the next run,
/// or a new session with nothing to make again. No command touches what was said.
pub proof fn what_commands_prepare(state: InteractiveView, step: SlashStepView)
    ensures
        step is Compact ==> performed(state, step).compact,
        step matches SlashStepView::Retry { message, .. } ==> performed(state, step).retry == Some(
            message,
        ),
        step is NewSession ==> performed(state, step).dialogue.last_failed is None,
        !(step is Compact) ==> performed(state, step).compact == state.compact,
        !(step is Retry) ==> performed(state, step).retry == state.retry,
        !(step is NewSession) ==> performed(state, step).dialogue == state.dialogue,
        performed(state, step).messages == state.messages && performed(state, step).model
            == state.model && performed(state, step).session == state.session && performed(
            state,
            step,
        ).theme == state.theme,
{
}

/// There is something to do where something was said or chosen.
pub proof fn when_there_is_work(state: InteractiveView, text: Seq<char>)
    ensures
        has_work(with_message(state, text)),
        has_work(with_theme(state, text)),
        has_work(with_model(state, text)),
        has_work(with_session(state, text)),
        !has_work(begun_with(Seq::empty())),
        state.retry is Some ==> has_work(state),
{
}

/// The end of every run is told, except where the model waits for an answer.
pub proof fn every_end_is_told(reason: CompletionReason)
    ensures
        (end_notice(reason) is None) == (reason == CompletionReason::AwaitingUserInput),
        reason == CompletionReason::Stop ==> end_notice(reason) == Some("run 完成"@),
        reason == CompletionReason::Cancelled ==> end_notice(reason) == Some("run 已取消（Esc）"@),
{
}

/// A command is known by its name, and what leads to the end is known.
pub proof fn which_commands_are_known()
    ensures
        registered("help"@),
        registered("new"@),
        registered("compact"@),
        registered("retry"@),
        registered("quit"@),
        !registered(Seq::empty()),
{
    let all = crate::app::slash::registry();
    assert(all[0].name == "help"@);
    assert(all[6].name == "new"@);
    assert(all[12].name == "compact"@);
    assert(all[13].name == "retry"@);
    assert(all[14].name == "quit"@);
    reveal_strlit("help");
    reveal_strlit("settings");
    reveal_strlit("model");
    reveal_strlit("session");
    reveal_strlit("sessions");
    reveal_strlit("theme");
    reveal_strlit("new");
    reveal_strlit("cancel");
    reveal_strlit("thinking");
    reveal_strlit("diff");
    reveal_strlit("doctor");
    reveal_strlit("mcp");
    reveal_strlit("compact");
    reveal_strlit("retry");
    reveal_strlit("quit");
    reveal_strlit("exit");
    assert forall|i: int| 0 <= i < all.len() implies (#[trigger] all[i]).name.len() > 0 by {}
}

/// Escape is the key alone, when it goes down.
pub proof fn what_escape_is(key: Key)
    ensures
        is_escape(key) ==> key.code == KeyCode::Esc && key.kind == KeyEventKind::Press
            && !key.control && !key.alt && !key.shift,
        key.code == KeyCode::Esc && key.kind == KeyEventKind::Press && !key.control && !key.alt
            && !key.shift ==> is_escape(key),
{
}

/// What was begun ends where nothing follows: a text that was pasted is handed on.
pub proof fn waiting_ends_what_was_begun(d: DecoderView)
    ensures
        d.mode == Mode::Idle ==> timed_out(d).0 == d && timed_out(d).1.len() == 0,
        d.mode == Mode::Pasting ==> timed_out(d).0.mode == Mode::Idle,
        d.mode == Mode::Escaped || d.mode == Mode::Opening ==> timed_out(d).0.mode == Mode::Idle,
{
}

/// A session is titled by what the user said first, within its first 500 lines and by no more
/// than 40 characters of it.
pub proof fn what_a_session_is_titled(all: Seq<HeadLineView>)
    ensures
        all.len() <= 500 ==> head_of(all) == all,
        all.len() > 500 ==> head_of(all) == all.subrange(0, 500),
        first_user(head_of(all)) is None ==> title_of(all).len() == 0,
        title_of(all).len() <= 40 + "…"@.len(),
{
}

} // verus!
