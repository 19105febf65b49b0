//! A command that runs in a host.
use crate::bytes::append_range;
use crate::bytes::copy_range;
use crate::bytes::from_le;
use crate::bytes::le_bytes;
use crate::bytes::le_value;
use crate::bytes::to_le;
use crate::process::frame::MSG_EXIT;
use crate::process::frame::MSG_OUTPUT;
use crate::process::frame::STREAM_STDERR;
use crate::process::frame::STREAM_STDOUT;
use crate::text::decimal;
use crate::text::decimal_of;
use crate::text::owned;
use vstd::prelude::*;
use vstd::string::*;

verus! {

/// How a command ended.
#[derive(Debug, Clone, Copy, PartialEq, Eq, Structural)]
pub enum EndReason {
    Exited,
    Cancelled,
    TimedOut,
}

/// How many bytes of each stream are kept: the last ones.
pub const OUTPUT_BUDGET: usize = 24576;

/// What a command came to.
#[derive(Debug)]
pub struct HostRunOutput {
    pub exit_code: Option<i32>,
    /// The end of what it wrote on the first stream.
    pub stdout: Vec<u8>,
    /// The end of what it wrote on the second stream.
    pub stderr: Vec<u8>,
    /// How much it wrote on the first stream.
    pub stdout_total: u64,
    /// How much it wrote on the second stream.
    pub stderr_total: u64,
    pub ended_by: EndReason,
    /// How it was started, where that was not directly.
    pub launcher: Option<&'static str>,
}

/// What a [`HostRunOutput`] says.
pub struct HostOutputView {
    pub exit_code: Option<i32>,
    pub stdout: Seq<u8>,
    pub stderr: Seq<u8>,
    pub stdout_total: u64,
    pub stderr_total: u64,
    pub ended_by: EndReason,
    pub launcher: Option<&'static str>,
}

impl View for HostRunOutput {
    type V = HostOutputView;

    open spec fn view(&self) -> HostOutputView {
        HostOutputView {
            exit_code: self.exit_code,
            stdout: self.stdout@,
            stderr: self.stderr@,
            stdout_total: self.stdout_total,
            stderr_total: self.stderr_total,
            ended_by: self.ended_by,
            launcher: self.launcher,
        }
    }
}

/// Nothing has come of a command yet.
pub open spec fn no_output(ended_by: EndReason, launcher: Option<&'static str>) -> HostOutputView {
    HostOutputView {
        exit_code: None,
        stdout: Seq::empty(),
        stderr: Seq::empty(),
        stdout_total: 0,
        stderr_total: 0,
        ended_by,
        launcher,
    }
}

/// What comes of a command that was never started.
pub fn terminal_without_start(ended_by: EndReason, launcher: Option<&'static str>) -> (r:
    HostRunOutput)
    ensures
        r@ == no_output(ended_by, launcher),
{
    HostRunOutput {
        exit_code: None,
        stdout: Vec::new(),
        stderr: Vec::new(),
        stdout_total: 0,
        stderr_total: 0,
        ended_by,
        launcher,
    }
}

/// The last bytes, as many as there is a budget for.
pub open spec fn tail_of(bytes: Seq<u8>) -> Seq<u8> {
    if bytes.len() > OUTPUT_BUDGET {
        bytes.skip(bytes.len() - OUTPUT_BUDGET)
    } else {
        bytes
    }
}

/// Adds bytes to a stream, of which only the end is kept.
pub fn append_bounded(buffer: &mut Vec<u8>, bytes: &[u8])
    ensures
        final(buffer)@ == tail_of(old(buffer)@ + bytes@),
        final(buffer)@.len() <= OUTPUT_BUDGET,
{
    let ghost whole = buffer@ + bytes@;
    let more: usize = bytes.len();
    if more >= OUTPUT_BUDGET {
        *buffer = copy_range(bytes, more - OUTPUT_BUDGET, more);
        assert(buffer@ =~= tail_of(whole));
    } else {
        let room: usize = OUTPUT_BUDGET - more;
        if buffer.len() > room {
            let mut kept: Vec<u8> = Vec::new();
            let drop: usize = buffer.len() - room;
            let ghost all = buffer@;
            let mut i: usize = drop;
            while i < buffer.len()
                invariant
                    drop <= i <= buffer@.len(),
                    buffer@ == all,
                    kept@ == all.subrange(drop as int, i as int),
                decreases buffer@.len() - i,
            {
                kept.push(buffer[i]);
                i += 1;
                assert(kept@ =~= all.subrange(drop as int, i as int));
            }
            *buffer = kept;
        }
        append_range(buffer, bytes, 0, more);
        assert(buffer@ =~= tail_of(whole));
    }
}

/// However a stream comes in, its last bytes are kept.
pub proof fn the_end_is_kept(a: Seq<u8>, b: Seq<u8>)
    ensures
        tail_of(tail_of(a) + b) == tail_of(a + b),
{
    assert(tail_of(tail_of(a) + b) =~= tail_of(a + b));
}

/// A number of four bytes with a sign.
pub open spec fn signed_value(n: int) -> int {
    if n >= 0x8000_0000 {
        n - 0x1_0000_0000
    } else {
        n
    }
}

fn to_signed(n: u32) -> (r: i32)
    ensures
        r == signed_value(n as int),
{
    if n >= 0x8000_0000 {
        let below: u32 = 0xffff_ffff - n;
        -1 - (below as i32)
    } else {
        n as i32
    }
}

/// The payload of a frame that tells the end of a command.
pub open spec fn exit_payload(code: int) -> Seq<u8> {
    le_bytes(
        if code < 0 {
            (code + 0x1_0000_0000) as u32
        } else {
            code as u32
        },
    )
}

/// The payload of a frame that tells the end of a command.
pub fn exit_frame_payload(code: i32) -> (r: Vec<u8>)
    ensures
        r@ == exit_payload(code as int),
{
    if code < 0 {
        to_le((code as i64 + 0x1_0000_0000) as u32)
    } else {
        to_le(code as u32)
    }
}

/// The code that a command ended with is read back.
pub proof fn exit_codes_are_read_back(code: i32)
    ensures
        signed_value(le_value(exit_payload(code as int))) == code,
{
    if code < 0 {
        crate::bytes::le_round_trip((code + 0x1_0000_0000) as u32);
    } else {
        crate::bytes::le_round_trip(code as u32);
    }
}

/// A command that runs in a host.
#[derive(Debug)]
pub struct HostRun {
    pub output: HostRunOutput,
    /// Whether its end was told.
    pub exited: bool,
    /// Whether it was stopped.
    pub terminated: bool,
}

/// What a [`HostRun`] holds.
pub struct HostRunView {
    pub output: HostOutputView,
    pub exited: bool,
    pub terminated: bool,
}

/// What a command came to: a host that ended without telling the end of the command, though it
/// was not stopped, is an error.
pub open spec fn came_to(run: HostRunView) -> Result<HostOutputView, Seq<char>> {
    if run.terminated || run.exited {
        Ok(run.output)
    } else {
        Err("process-host exited without an Exit frame"@)
    }
}

impl View for HostRun {
    type V = HostRunView;

    open spec fn view(&self) -> HostRunView {
        HostRunView {
            output: self.output@,
            exited: self.exited,
            terminated: self.terminated,
        }
    }
}

/// Whether no more is kept of a stream than there is a budget for.
pub open spec fn host_wf(run: HostRunView) -> bool {
    run.output.stdout.len() <= OUTPUT_BUDGET && run.output.stderr.len() <= OUTPUT_BUDGET
}

/// A sum that stops at the largest number.
pub open spec fn grown(total: u64, more: int) -> u64 {
    if total + more > u64::MAX {
        u64::MAX
    } else {
        (total + more) as u64
    }
}

/// Whether a frame is one of output.
pub open spec fn is_output(kind: u8, payload: Seq<u8>) -> bool {
    kind == MSG_OUTPUT && payload.len() > 0 && (payload[0] == STREAM_STDOUT || payload[0]
        == STREAM_STDERR)
}

/// Whether a frame is one that tells the end.
pub open spec fn is_exit(kind: u8, payload: Seq<u8>) -> bool {
    kind == MSG_EXIT && payload.len() == 4
}

/// A run after it was stopped; only the first reason counts.
pub open spec fn stopped(run: HostRunView, reason: EndReason) -> HostRunView {
    if run.terminated {
        run
    } else {
        HostRunView {
            output: HostOutputView { ended_by: reason, ..run.output },
            terminated: true,
            ..run
        }
    }
}

/// The command after a frame.
pub open spec fn after_frame(run: HostRunView, kind: u8, payload: Seq<u8>) -> HostRunView {
    if is_output(kind, payload) {
        let bytes = payload.skip(1);
        if payload[0] == STREAM_STDOUT {
            HostRunView {
                output: HostOutputView {
                    stdout: tail_of(run.output.stdout + bytes),
                    stdout_total: grown(run.output.stdout_total, bytes.len() as int),
                    ..run.output
                },
                ..run
            }
        } else {
            HostRunView {
                output: HostOutputView {
                    stderr: tail_of(run.output.stderr + bytes),
                    stderr_total: grown(run.output.stderr_total, bytes.len() as int),
                    ..run.output
                },
                ..run
            }
        }
    } else if is_exit(kind, payload) {
        HostRunView {
            output: HostOutputView {
                exit_code: Some(signed_value(le_value(payload)) as i32),
                ..run.output
            },
            exited: true,
            ..run
        }
    } else {
        run
    }
}

/// What is wrong with a frame.
pub open spec fn frame_error(kind: u8, payload: Seq<u8>) -> Option<Seq<char>> {
    if is_output(kind, payload) || is_exit(kind, payload) {
        None
    } else if kind == MSG_OUTPUT {
        if payload.len() == 0 {
            Some("invalid empty process-host output frame"@)
        } else {
            Some("invalid process-host stream id "@ + decimal_of(payload[0] as nat))
        }
    } else if kind == MSG_EXIT {
        Some("invalid process-host exit frame"@)
    } else {
        Some("unknown process-host message kind "@ + decimal_of(kind as nat))
    }
}

fn grow(total: u64, more: usize) -> (r: u64)
    ensures
        r == grown(total, more as int),
{
    let step: u64 = more as u64;
    if total > u64::MAX - step {
        u64::MAX
    } else {
        total + step
    }
}

impl HostRun {
    /// A command that was started.
    pub fn new(launcher: Option<&'static str>) -> (r: Self)
        ensures
            r@ == (HostRunView {
                output: no_output(EndReason::Exited, launcher),
                exited: false,
                terminated: false,
            }),
            host_wf(r@),
    {
        HostRun {
            output: terminal_without_start(EndReason::Exited, launcher),
            exited: false,
            terminated: false,
        }
    }

    /// Takes in that the command was stopped; only the first reason counts.
    pub fn stop(&mut self, reason: EndReason) -> (stops: bool)
        requires
            host_wf(old(self)@),
        ensures
            stops == !old(self)@.terminated,
            final(self)@ == stopped(old(self)@, reason),
            host_wf(final(self)@),
    {
        if self.terminated {
            return false;
        }
        self.terminated = true;
        self.output.ended_by = reason;
        true
    }

    /// Takes in a frame of the host. Nothing changes on a frame that is wrong.
    pub fn frame(&mut self, kind: u8, payload: &[u8]) -> (r: Result<(), String>)
        requires
            host_wf(old(self)@),
        ensures
            final(self)@ == after_frame(old(self)@, kind, payload@),
            match r {
                Ok(()) => frame_error(kind, payload@) is None,
                Err(error) => frame_error(kind, payload@) == Some(error@),
            },
            host_wf(final(self)@),
    {
        let count: usize = payload.len();
        if kind == MSG_OUTPUT {
            if count == 0 {
                return Err(owned("invalid empty process-host output frame"));
            }
            let stream: u8 = payload[0];
            if stream != STREAM_STDOUT && stream != STREAM_STDERR {
                let id = decimal(stream as u128);
                return Err(owned("invalid process-host stream id ").concat(id.as_str()));
            }
            let bytes = copy_range(payload, 1, count);
            assert(bytes@ =~= payload@.skip(1));
            let more: usize = bytes.len();
            if stream == STREAM_STDOUT {
                self.output.stdout_total = grow(self.output.stdout_total, more);
                append_bounded(&mut self.output.stdout, bytes.as_slice());
            } else {
                self.output.stderr_total = grow(self.output.stderr_total, more);
                append_bounded(&mut self.output.stderr, bytes.as_slice());
            }
            return Ok(());
        }
        if kind == MSG_EXIT {
            if count != 4 {
                return Err(owned("invalid process-host exit frame"));
            }
            let code: u32 = from_le(payload, 0);
            assert(payload@.subrange(0, 4) =~= payload@);
            self.output.exit_code = Some(to_signed(code));
            self.exited = true;
            return Ok(());
        }
        let id = decimal(kind as u128);
        Err(owned("unknown process-host message kind ").concat(id.as_str()))
    }

    /// What the command came to: a host that ended without telling the end of the command,
    /// though it was not stopped, is an error.
    pub fn finish(self) -> (r: Result<HostRunOutput, String>)
        ensures
            match r {
                Ok(output) => came_to(self@) == Ok::<HostOutputView, Seq<char>>(output@),
                Err(error) => came_to(self@) == Err::<HostOutputView, Seq<char>>(error@),
            },
    {
        if !self.terminated && !self.exited {
            return Err(owned("process-host exited without an Exit frame"));
        }
        Ok(self.output)
    }
}

/// Processes cannot be kept together.
#[derive(Debug, Clone, PartialEq, Eq)]
pub struct IsolationError(pub String);

impl IsolationError {
    /// The error in words.
    pub fn to_text(&self) -> (r: String)
        ensures
            r@ == "process isolation unavailable: "@ + self.0@,
    {
        owned("process isolation unavailable: ").concat(self.0.as_str())
    }
}

/// How a command ends that may not be started now.
pub open spec fn ended_before(cancelled: bool, time_left: bool) -> Option<EndReason> {
    if cancelled {
        Some(EndReason::Cancelled)
    } else if !time_left {
        Some(EndReason::TimedOut)
    } else {
        None
    }
}

/// Whether a command may be started now: not where it was cancelled or its time is up.
pub fn may_start(cancelled: bool, time_left: bool, launcher: Option<&'static str>) -> (r: Result<
    (),
    HostRunOutput,
>)
    ensures
        match r {
            Ok(()) => ended_before(cancelled, time_left) is None,
            Err(output) => ended_before(cancelled, time_left) matches Some(reason) && output@
                == no_output(reason, launcher),
        },
{
    if cancelled {
        Err(terminal_without_start(EndReason::Cancelled, launcher))
    } else if !time_left {
        Err(terminal_without_start(EndReason::TimedOut, launcher))
    } else {
        Ok(())
    }
}

} // verus!
