//! What running a program is for: that the program that is meant is started with the
//! arguments that it is given, and that what it wrote and how it ended is known.

use crate::bytes::le_bytes;
use crate::path::path_components;
use crate::path::path_extension;
use crate::path::path_is_absolute;
use crate::path::path_join;
use crate::path::path_with_extension;
use crate::process::frame::FrameReadView;
use crate::process::frame::frame_bytes;
use crate::process::frame::frame_of;
use crate::process::frame::start_fault;
use crate::process::host::EndReason;
use crate::process::host::HostRunView;
use crate::process::host::after_frame;
use crate::process::host::came_to;
use crate::process::host::ended_before;
use crate::process::host::exit_codes_are_read_back;
use crate::process::host::exit_payload;
use crate::process::host::frame_error;
use crate::process::host::no_output;
use crate::process::host::stopped;
use crate::process::host::tail_of;
use crate::process::resolver::bare;
use crate::process::resolver::cmd_line;
use crate::process::resolver::cmd_quoted;
use crate::process::resolver::first_there;
use crate::process::resolver::is_batch;
use crate::process::resolver::names_a_place;
use crate::process::resolver::places_in;
use crate::process::resolver::resolved_of;
use crate::process::resolver::unix_places;
use crate::process::resolver::windows_places;
use crate::text::decimal_of;
use crate::text::has_prefix;
use crate::text::has_suffix;
use crate::text::has_text;
use crate::text::lowercase_of;
use crate::text_laws::a_part_occurs;
use crate::text_laws::parts_of_parts_occur;
use vstd::prelude::*;
use vstd::string::*;

verus! {

/// Of what a program writes the end is kept, 24 kilobytes of it, and all of it where there is
/// no more.
pub proof fn what_is_kept_of_the_output(bytes: Seq<u8>)
    ensures
        tail_of(bytes).len() == if bytes.len() <= 24576 {
            bytes.len() as int
        } else {
            24576
        },
        tail_of(bytes) == bytes.skip(bytes.len() - tail_of(bytes).len()),
{
    assert(bytes.skip(0) =~= bytes);
}

/// What is written on a stream is added to that stream and counted there, and to no other.
pub proof fn streams_are_kept_apart(run: HostRunView, bytes: Seq<u8>)
    ensures
        ({
            let first = after_frame(run, 1, seq![0u8] + bytes);
            let second = after_frame(run, 1, seq![1u8] + bytes);
            &&& first.output.stdout == tail_of(run.output.stdout + bytes)
            &&& first.output.stderr == run.output.stderr
            &&& first.output.stderr_total == run.output.stderr_total
            &&& run.output.stdout_total + bytes.len() <= u64::MAX ==> first.output.stdout_total
                == run.output.stdout_total + bytes.len()
            &&& second.output.stderr == tail_of(run.output.stderr + bytes)
            &&& second.output.stdout == run.output.stdout
            &&& second.output.stdout_total == run.output.stdout_total
            &&& run.output.stderr_total + bytes.len() <= u64::MAX ==> second.output.stderr_total
                == run.output.stderr_total + bytes.len()
            &&& first.exited == run.exited
            &&& second.exited == run.exited
            &&& first.output.exit_code == run.output.exit_code
            &&& frame_error(1, seq![0u8] + bytes) is None
            &&& frame_error(1, seq![1u8] + bytes) is None
        }),
{
    assert((seq![0u8] + bytes).skip(1) =~= bytes);
    assert((seq![1u8] + bytes).skip(1) =~= bytes);
}

/// The code that a program ends with is known once it is told, and changes nothing else.
pub proof fn the_end_of_a_program_is_known(run: HostRunView, code: i32)
    ensures
        ({
            let after = after_frame(run, 2, exit_payload(code as int));
            &&& after.output.exit_code == Some(code)
            &&& after.exited
            &&& after.output.stdout == run.output.stdout
            &&& after.output.stderr == run.output.stderr
            &&& after.terminated == run.terminated
            &&& after.output.ended_by == run.output.ended_by
            &&& frame_error(2, exit_payload(code as int)) is None
        }),
{
    exit_codes_are_read_back(code);
}

/// A frame that is wrong is told and changes nothing.
pub proof fn wrong_frames_change_nothing(run: HostRunView, kind: u8, payload: Seq<u8>)
    ensures
        frame_error(kind, payload) is Some ==> after_frame(run, kind, payload) == run,
        kind != 1 && kind != 2 ==> frame_error(kind, payload) is Some,
        kind == 1 && payload.len() == 0 ==> frame_error(kind, payload) is Some,
        kind == 1 && payload.len() > 0 && payload[0] > 1 ==> frame_error(kind, payload) is Some,
        kind == 2 && payload.len() != 4 ==> frame_error(kind, payload) is Some,
{
}

/// A program that was stopped ended for the first reason that it was stopped for, and keeps
/// what it wrote.
pub proof fn the_first_reason_counts(run: HostRunView, first: EndReason, second: EndReason)
    requires
        !run.terminated,
    ensures
        ({
            let once = stopped(run, first);
            &&& once.terminated
            &&& once.output.ended_by == first
            &&& stopped(once, second) == once
            &&& once.output.stdout == run.output.stdout
            &&& once.output.stderr == run.output.stderr
            &&& once.output.exit_code == run.output.exit_code
            &&& once.exited == run.exited
        }),
{
}

/// A program is not started where it was cancelled or its time is up, and then nothing of it
/// was written.
pub proof fn when_a_program_is_not_started(
    cancelled: bool,
    time_left: bool,
    reason: EndReason,
    launcher: Option<&'static str>,
)
    ensures
        (ended_before(cancelled, time_left) is None) == (!cancelled && time_left),
        cancelled ==> ended_before(cancelled, time_left) == Some(EndReason::Cancelled),
        !cancelled && !time_left ==> ended_before(cancelled, time_left) == Some(
            EndReason::TimedOut,
        ),
        no_output(reason, launcher).ended_by == reason,
        no_output(reason, launcher).exit_code is None,
        no_output(reason, launcher).stdout.len() == 0,
        no_output(reason, launcher).stderr.len() == 0,
        no_output(reason, launcher).stdout_total == 0,
        no_output(reason, launcher).launcher == launcher,
{
}

/// A host starts with a frame of the first kind that is no larger than 16 megabytes.
pub proof fn what_a_host_starts_with(kind: u8, count: u32)
    ensures
        (start_fault(kind, count) is None) == (kind == 0 && count <= 16777216),
{
}

proof fn lemma_first_there(exists: Seq<bool>, i: int, k: int)
    requires
        0 <= i <= k < exists.len(),
        exists[k],
        forall|j: int| i <= j < k ==> !#[trigger] exists[j],
    ensures
        first_there(exists, i) == Some(k),
    decreases k - i,
{
    if i < k {
        assert(!exists[i]);
        lemma_first_there(exists, i + 1, k);
    }
}

proof fn lemma_none_there(exists: Seq<bool>, i: int)
    requires
        0 <= i,
        forall|j: int| i <= j < exists.len() ==> !#[trigger] exists[j],
    ensures
        first_there(exists, i) is None,
    decreases exists.len() - i,
{
    if i < exists.len() {
        assert(!exists[i]);
        lemma_none_there(exists, i + 1);
    }
}

/// The program that is meant is the one at the first place where there is something; a batch
/// script is started by way of the command interpreter, where there are such; and where there
/// is nothing at any place the name stays as it is.
pub proof fn the_first_place_counts(
    program: Seq<char>,
    candidates: Seq<Seq<char>>,
    exists: Seq<bool>,
    scripts: bool,
    k: int,
)
    requires
        exists.len() == candidates.len(),
    ensures
        0 <= k < exists.len() && exists[k] && (forall|j: int|
            0 <= j < k ==> !#[trigger] exists[j]) ==> {
            let found = resolved_of(program, candidates, exists, scripts);
            &&& found.path == candidates[k]
            &&& (found.launcher is Some) == (scripts && is_batch(candidates[k]))
        },
        (forall|j: int| 0 <= j < exists.len() ==> !#[trigger] exists[j]) ==> resolved_of(
            program,
            candidates,
            exists,
            scripts,
        ).path == program && resolved_of(program, candidates, exists, scripts).launcher is None,
{
    if 0 <= k < exists.len() && exists[k] && (forall|j: int|
        0 <= j < k ==> !#[trigger] exists[j]) {
        lemma_first_there(exists, 0, k);
    }
    if forall|j: int| 0 <= j < exists.len() ==> !#[trigger] exists[j] {
        lemma_none_there(exists, 0);
    }
}

/// A name is looked for in every directory, in their order; and what names a place itself is
/// looked for there alone.
pub proof fn where_a_program_is_looked_for(
    program: Seq<char>,
    dirs: Seq<Seq<char>>,
    exts: Seq<Seq<char>>,
    k: int,
)
    ensures
        !names_a_place(program) ==> unix_places(program, dirs).len() == dirs.len(),
        !names_a_place(program) && 0 <= k < dirs.len() ==> unix_places(program, dirs)[k]
            == path_join(dirs[k], program),
        names_a_place(program) ==> unix_places(program, dirs).len() == 0,
        names_a_place(program) ==> windows_places(program, exts, dirs).len() == exts.len() + 1
            && windows_places(program, exts, dirs).last() == program,
        !names_a_place(program) && dirs.len() > 0 ==> windows_places(program, exts, dirs).last()
            == path_join(dirs.last(), program),
{
}

/// An argument is put in quotes where it would fall apart otherwise, and only there.
pub proof fn when_arguments_are_quoted(arg: Seq<char>)
    ensures
        arg.len() > 0 && !has_text(arg, " "@) && !has_text(arg, "\""@) ==> cmd_quoted(arg) == arg,
        arg.len() == 0 || has_text(arg, " "@) || has_text(arg, "\""@) ==> cmd_quoted(arg).len()
            >= 2 && cmd_quoted(arg)[0] == '"' && cmd_quoted(arg).last() == '"',
        has_text(arg, " "@) && !has_text(arg, "\""@) ==> cmd_quoted(arg) == "\""@ + arg + "\""@,
{
    reveal_strlit("\"");
    if has_text(arg, " "@) && !has_text(arg, "\""@) {
        crate::text_laws::nothing_to_replace(arg, "\""@, "\\\""@);
    }
}

/// A script is started by its name in quotes, with every argument behind it.
pub proof fn every_argument_is_given(script: Seq<char>, args: Seq<Seq<char>>, k: int)
    ensures
        has_prefix(cmd_line(script, args), "\""@ + script + "\""@),
        args.len() == 0 ==> cmd_line(script, args) == "\""@ + script + "\""@,
        args.len() > 0 ==> has_suffix(cmd_line(script, args), " "@ + cmd_quoted(args.last())),
        0 <= k < args.len() ==> has_text(cmd_line(script, args), " "@ + cmd_quoted(args[k])),
    decreases args.len(),
{
    let name = "\""@ + script + "\""@;
    let line = cmd_line(script, args);
    if args.len() == 0 {
        assert(line.subrange(0, name.len() as int) =~= name);
    } else {
        every_argument_is_given(script, args.drop_last(), k);
        let front = cmd_line(script, args.drop_last());
        let tail = " "@ + cmd_quoted(args.last());
        let none = Seq::<char>::empty();
        assert(line =~= front + tail);
        assert(line.subrange(0, name.len() as int) =~= front.subrange(0, name.len() as int));
        assert(line.subrange(line.len() - tail.len(), line.len() as int) =~= tail);
        if k == args.len() - 1 {
            a_part_occurs(front, tail, none);
            assert(front + tail + none =~= line);
        } else if 0 <= k < args.len() {
            parts_of_parts_occur(none, front, tail, " "@ + cmd_quoted(args[k]));
            assert(none + front + tail =~= line);
        }
    }
}

/// A number is written in four bytes, the least first.
pub proof fn the_least_byte_comes_first(n: u32)
    ensures
        le_bytes(n).len() == 4,
        n == le_bytes(n)[0] + 256 * le_bytes(n)[1] + 65536 * le_bytes(n)[2] + 16777216 * le_bytes(
            n,
        )[3],
        n < 256 ==> le_bytes(n)[0] == n,
{
}

/// A command that ended or was stopped comes to what it wrote; one whose end was never told
/// comes to an error.
pub proof fn what_a_command_came_to(run: HostRunView)
    ensures
        (came_to(run) is Ok) == (run.exited || run.terminated),
        came_to(run) is Ok ==> came_to(run)->Ok_0 == run.output,
{
}

/// A wrong frame is told by what is wrong with it.
pub proof fn what_is_wrong_with_a_frame(kind: u8, payload: Seq<u8>)
    ensures
        kind == 2 && payload.len() != 4 ==> frame_error(kind, payload) == Some(
            "invalid process-host exit frame"@,
        ),
        kind > 2 ==> frame_error(kind, payload) == Some(
            "unknown process-host message kind "@ + decimal_of(kind as nat),
        ),
        kind == 1 && payload.len() > 0 && payload[0] > 1 ==> frame_error(kind, payload) == Some(
            "invalid process-host stream id "@ + decimal_of(payload[0] as nat),
        ),
        kind == 2 && payload.len() == 4 ==> frame_error(kind, payload) is None,
        kind == 1 && payload.len() > 0 && payload[0] <= 1 ==> frame_error(kind, payload) is None,
{
}

/// A program that is given with a directory names a place, and so does one that is given from
/// the root; a bare name does not.
pub proof fn what_names_a_place(program: Seq<char>)
    ensures
        path_components(program).len() >= 2 ==> names_a_place(program),
        path_is_absolute(program) ==> names_a_place(program),
        path_components(program).len() < 2 && !path_is_absolute(program) ==> !names_a_place(
            program,
        ),
{
}

/// Batch files are known by their ending, in whatever letters.
pub proof fn what_a_batch_file_is(path: Seq<char>)
    ensures
        is_batch(path) == (path_extension(path) is Some && (lowercase_of(path_extension(path)->0)
            == "bat"@ || lowercase_of(path_extension(path)->0) == "cmd"@)),
        path_extension(path) is None ==> !is_batch(path),
{
}

/// In a directory a program is looked for under every ending, where it is given without one,
/// and under its own name last.
pub proof fn how_a_program_may_be_called(
    dir: Seq<char>,
    program: Seq<char>,
    exts: Seq<Seq<char>>,
    k: int,
)
    ensures
        places_in(dir, program, exts).len() > 0,
        places_in(dir, program, exts).last() == path_join(dir, program),
        has_text(program, "."@) && 0 <= k < places_in(dir, program, exts).len() ==> places_in(
            dir,
            program,
            exts,
        )[k] == path_join(dir, program),
        !has_text(program, "."@) && 0 <= k < exts.len() ==> places_in(dir, program, exts)[k]
            == path_with_extension(path_join(dir, program), bare(exts[k])),
{
}

/// A frame is its length, its kind and what it holds, and is read whole or not at all.
pub proof fn what_a_frame_holds(kind: u8, payload: Seq<u8>, bytes: Seq<u8>, ended: bool)
    ensures
        frame_bytes(kind, payload).len() == payload.len() + 5,
        frame_bytes(kind, payload)[4] == kind,
        frame_bytes(kind, payload).subrange(5, 5int + payload.len()) == payload,
        frame_of(bytes, ended) matches FrameReadView::Frame { kind, payload, used } ==> used == 5
            + payload.len() && used <= bytes.len() && kind == bytes[4] && payload
            == bytes.subrange(5, used as int) && payload.len() <= 67_108_864,
        bytes.len() < 5 && !ended ==> frame_of(bytes, ended) is More,
        bytes.len() == 0 && ended ==> frame_of(bytes, ended) is Closed,
        0 < bytes.len() < 5 && ended ==> frame_of(bytes, ended) is Broken,
{
    assert(frame_bytes(kind, payload).subrange(5, 5int + payload.len()) =~= payload);
}

} // verus!
