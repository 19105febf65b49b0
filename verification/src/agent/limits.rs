//! Limits of a run.
use crate::config::LimitsConfig;
use crate::session::CompletionReason;
use vstd::prelude::*;

verus! {

/// A run was cancelled by the user.
pub const CANCEL_CAUSE_USER: u8 = 0;

/// A run was cancelled for its wall time.
pub const CANCEL_CAUSE_WALL_TIME: u8 = 1;

/// Why a watchdog ended.
#[derive(Debug, Clone, Copy, PartialEq, Eq, Structural)]
pub enum BudgetEnd {
    WallTimeExceeded,
    NotExceeded,
}

/// The reason that a cancelled run ends with.
pub open spec fn cancel_reason_of(cause: u8) -> CompletionReason {
    if cause == CANCEL_CAUSE_WALL_TIME {
        CompletionReason::WallTimeExceeded
    } else {
        CompletionReason::Cancelled
    }
}

/// The reason that a cancelled run ends with.
pub fn cancel_reason_for_cause(cause: u8) -> (r: CompletionReason)
    ensures
        r == cancel_reason_of(cause),
{
    if cause == CANCEL_CAUSE_WALL_TIME {
        CompletionReason::WallTimeExceeded
    } else {
        CompletionReason::Cancelled
    }
}

/// The wall time of a watchdog in seconds, for a number of minutes: at least a minute.
pub open spec fn watchdog_of(minutes: int) -> int {
    (if minutes < 1 {
        1
    } else {
        minutes
    }) * 60
}

/// The wall time of a watchdog in seconds: that of the limits, and at least a minute.
pub fn watchdog_seconds(limits: &LimitsConfig) -> (r: u64)
    requires
        limits.max_wall_time_minutes <= u64::MAX / 60,
    ensures
        r == watchdog_of(limits.max_wall_time_minutes as int),
{
    let minutes: u64 = if limits.max_wall_time_minutes < 1 {
        1
    } else {
        limits.max_wall_time_minutes
    };
    minutes * 60
}

/// The wall time in seconds for a number of minutes, if there is a limit at all, up to the
/// largest number.
pub open spec fn wall_of(minutes: int) -> Option<int> {
    if minutes == 0 {
        None
    } else if minutes * 60 > u64::MAX {
        Some(u64::MAX as int)
    } else {
        Some(minutes * 60)
    }
}

/// The wall time in seconds that a run is given, if it is limited at all, up to the largest
/// number.
pub fn run_wall_seconds(limits: &LimitsConfig) -> (r: Option<u64>)
    ensures
        match r {
            Some(seconds) => wall_of(limits.max_wall_time_minutes as int) == Some(seconds as int),
            None => wall_of(limits.max_wall_time_minutes as int) is None,
        },
{
    if limits.max_wall_time_minutes == 0 {
        return None;
    }
    if limits.max_wall_time_minutes > u64::MAX / 60 {
        Some(u64::MAX)
    } else {
        Some(limits.max_wall_time_minutes * 60)
    }
}

/// After how many seconds of `wall` the user is warned: when a tenth of it is left.
pub open spec fn warning_of(wall: int) -> int {
    wall - wall / 10
}

/// After how many seconds of `wall` the user is warned: when a tenth of it is left.
pub fn warn_after(wall: u64) -> (r: u64)
    ensures
        r == warning_of(wall as int),
        r <= wall,
{
    wall - wall / 10
}

/// The clock ends a run for its wall time, and anything else ends it as cancelled.
pub proof fn only_the_clock_ends_for_time(cause: u8)
    ensures
        (cancel_reason_of(cause) == CompletionReason::WallTimeExceeded) == (cause == 1),
        cause != 1 ==> cancel_reason_of(cause) == CompletionReason::Cancelled,
{
}

/// A watchdog waits the minutes that it is given, and one where it is given none. A run
/// without a limit has no end, and any other a minute for each that it is given.
pub proof fn minutes_have_sixty_seconds(minutes: int)
    requires
        0 <= minutes,
    ensures
        minutes > 0 ==> watchdog_of(minutes) == 60 * minutes,
        minutes == 0 ==> watchdog_of(minutes) == 60,
        (wall_of(minutes) is None) == (minutes == 0),
        0 < minutes && 60 * minutes <= u64::MAX ==> wall_of(minutes) == Some(60 * minutes),
        60 * minutes > u64::MAX ==> wall_of(minutes) == Some(u64::MAX as int),
{
}

/// The user is warned when a tenth of the time is left: before the end, and not before nine
/// tenths are over.
pub proof fn a_tenth_is_left_at_the_warning(wall: int)
    requires
        0 <= wall,
    ensures
        9 * wall <= 10 * warning_of(wall) < 9 * wall + 10,
        wall >= 10 ==> warning_of(wall) < wall,
{
}

} // verus!
