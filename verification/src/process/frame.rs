//! The frames between the program and a host.
use crate::bytes::append_range;
use crate::bytes::copy_range;
use crate::bytes::from_le;
use crate::bytes::le_bytes;
use crate::bytes::le_round_trip;
use crate::bytes::le_value;
use crate::bytes::to_le;
use crate::text::owned;
use vstd::prelude::*;
use vstd::string::*;

verus! {

/// What a host is to start.
pub const MSG_START: u8 = 0;

/// Output of the command.
pub const MSG_OUTPUT: u8 = 1;

/// The end of the command.
pub const MSG_EXIT: u8 = 2;

/// Output on the first stream.
pub const STREAM_STDOUT: u8 = 0;

/// Output on the second stream.
pub const STREAM_STDERR: u8 = 1;

/// The longest payload that is read.
pub const MAX_FRAME_BYTES: u32 = 67108864;

/// The longest description of a command that a host reads.
pub const MAX_START_BYTES: u32 = 16777216;

/// The bytes of a frame.
pub open spec fn frame_bytes(kind: u8, payload: Seq<u8>) -> Seq<u8> {
    le_bytes(payload.len() as u32).push(kind) + payload
}

/// The bytes of a frame, in one piece; none where the payload is too long for a frame.
pub fn encode_frame(kind: u8, payload: &[u8]) -> (r: Option<Vec<u8>>)
    ensures
        match r {
            Some(bytes) => payload@.len() <= u32::MAX && bytes@ == frame_bytes(kind, payload@),
            None => payload@.len() > u32::MAX,
        },
{
    let count: usize = payload.len();
    if count as u64 > u32::MAX as u64 {
        return None;
    }
    let mut out = to_le(count as u32);
    out.push(kind);
    append_range(&mut out, payload, 0, count);
    assert(out@ =~= frame_bytes(kind, payload@));
    Some(out)
}

/// What the beginning of some bytes is.
#[derive(Debug)]
pub enum FrameRead {
    /// A frame, and how many bytes it takes.
    Frame { kind: u8, payload: Vec<u8>, used: usize },
    /// The beginning of a frame; more bytes are needed.
    More,
    /// Nothing, and nothing follows.
    Closed,
    /// No frame.
    Broken(String),
}

/// What a [`FrameRead`] says.
pub enum FrameReadView {
    Frame { kind: u8, payload: Seq<u8>, used: int },
    More,
    Closed,
    Broken(Seq<char>),
}

impl View for FrameRead {
    type V = FrameReadView;

    open spec fn view(&self) -> FrameReadView {
        match *self {
            FrameRead::Frame { kind, payload, used } => FrameReadView::Frame {
                kind,
                payload: payload@,
                used: used as int,
            },
            FrameRead::More => FrameReadView::More,
            FrameRead::Closed => FrameReadView::Closed,
            FrameRead::Broken(error) => FrameReadView::Broken(error@),
        }
    }
}

/// What the beginning of some bytes is; `ended` says that nothing follows them.
pub open spec fn frame_of(bytes: Seq<u8>, ended: bool) -> FrameReadView {
    if bytes.len() < 5 {
        if !ended {
            FrameReadView::More
        } else if bytes.len() == 0 {
            FrameReadView::Closed
        } else {
            FrameReadView::Broken("process-host frame header truncated"@)
        }
    } else {
        let count = le_value(bytes.take(4));
        if count > MAX_FRAME_BYTES {
            FrameReadView::Broken("process-host frame too large"@)
        } else if bytes.len() < 5 + count {
            if ended {
                FrameReadView::Broken("process-host frame truncated"@)
            } else {
                FrameReadView::More
            }
        } else {
            FrameReadView::Frame {
                kind: bytes[4],
                payload: bytes.subrange(5, 5 + count),
                used: 5 + count,
            }
        }
    }
}

/// What the beginning of some bytes is; `ended` says that nothing follows them.
pub fn read_frame(bytes: &[u8], ended: bool) -> (r: FrameRead)
    ensures
        r@ == frame_of(bytes@, ended),
{
    let held: usize = bytes.len();
    if held < 5 {
        return if !ended {
            FrameRead::More
        } else if held == 0 {
            FrameRead::Closed
        } else {
            FrameRead::Broken(owned("process-host frame header truncated"))
        };
    }
    let count: u32 = from_le(bytes, 0);
    assert(bytes@.subrange(0, 4) =~= bytes@.take(4));
    if count > MAX_FRAME_BYTES {
        return FrameRead::Broken(owned("process-host frame too large"));
    }
    let end: usize = 5 + count as usize;
    if held < end {
        return if ended {
            FrameRead::Broken(owned("process-host frame truncated"))
        } else {
            FrameRead::More
        };
    }
    FrameRead::Frame { kind: bytes[4], payload: copy_range(bytes, 5, end), used: end }
}

/// A frame is read back as it was written, whatever follows it.
pub proof fn frames_are_read_back(kind: u8, payload: Seq<u8>, rest: Seq<u8>, ended: bool)
    requires
        payload.len() <= MAX_FRAME_BYTES,
    ensures
        frame_of(frame_bytes(kind, payload) + rest, ended) == (FrameReadView::Frame {
            kind,
            payload,
            used: 5 + payload.len() as int,
        }),
{
    let bytes = frame_bytes(kind, payload) + rest;
    let count = payload.len() as u32;
    le_round_trip(count);
    assert(bytes.take(4) =~= le_bytes(count));
    assert(bytes[4] == kind);
    assert(bytes.subrange(5, 5 + payload.len() as int) =~= payload);
}

/// A frame is never taken for one before all of it is there.
pub proof fn frames_are_awaited(kind: u8, payload: Seq<u8>, n: int)
    requires
        payload.len() <= MAX_FRAME_BYTES,
        0 <= n < 5 + payload.len() as int,
    ensures
        frame_of(frame_bytes(kind, payload).take(n), false) == FrameReadView::More,
{
    let whole = frame_bytes(kind, payload);
    let count = payload.len() as u32;
    le_round_trip(count);
    if n >= 5 {
        assert(whole.take(n).take(4) =~= le_bytes(count));
    }
}

/// What is wrong with the first frame that a host got.
pub open spec fn start_fault(kind: u8, count: u32) -> Option<Seq<char>> {
    if kind != MSG_START {
        Some("process-host: expected MSG_START, got "@ + crate::text::decimal_of(kind as nat))
    } else if count > MAX_START_BYTES {
        Some("process-host: spec too large"@)
    } else {
        None
    }
}

/// Why a host does not start: `kind` and `count` are those of the first frame that it got.
pub fn check_start(kind: u8, count: u32) -> (r: Result<(), String>)
    ensures
        match r {
            Ok(_) => start_fault(kind, count) is None,
            Err(error) => start_fault(kind, count) == Some(error@),
        },
{
    if kind != MSG_START {
        let got = crate::text::decimal(kind as u128);
        return Err(owned("process-host: expected MSG_START, got ").concat(got.as_str()));
    }
    if count > MAX_START_BYTES {
        return Err(owned("process-host: spec too large"));
    }
    Ok(())
}

} // verus!
