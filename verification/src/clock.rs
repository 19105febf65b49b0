//! Points in time, as they are shown.
use crate::text::decimal;
use crate::text::decimal_of;
use crate::text::owned;
use vstd::prelude::*;
use vstd::string::*;

verus! {

/// The year, month, day, hour and minute, in UTC, of a number of seconds since 1970, where
/// there is such a date.
pub uninterp spec fn date_of(seconds: int) -> Option<(i32, u8, u8, u8, u8)>;

/// `time::OffsetDateTime::from_unix_timestamp`, and the fields of the date that it gives;
/// nothing for a number of seconds that is out of its range.
#[verifier::external_body]
fn date_fields(seconds: i64) -> (r: Option<(i32, u8, u8, u8, u8)>)
    ensures
        r == date_of(seconds as int),
{
    match time::OffsetDateTime::from_unix_timestamp(seconds) {
        Ok(t) => Some((t.year(), u8::from(t.month()), t.day(), t.hour(), t.minute())),
        Err(_) => None,
    }
}

/// A text of zeros.
pub open spec fn zeros(n: int) -> Seq<char> {
    Seq::new(n as nat, |i: int| '0')
}

/// A number with zeros before it, so that it is at least `width` characters long.
pub open spec fn padded(n: nat, width: int) -> Seq<char> {
    let digits = decimal_of(n);
    if digits.len() < width {
        zeros(width - digits.len()) + digits
    } else {
        digits
    }
}

/// A year: four characters at least, with the sign of a negative one among them.
pub open spec fn year_text(year: int) -> Seq<char> {
    if year < 0 {
        "-"@ + padded((-year) as nat, 3)
    } else {
        padded(year as nat, 4)
    }
}

fn pad(n: u128, width: usize) -> (r: String)
    ensures
        r@ == padded(n as nat, width as int),
{
    let digits = decimal(n);
    let chars = crate::text::to_chars(digits.as_str());
    let mut out = String::new();
    if chars.len() < width {
        let missing: usize = width - chars.len();
        let mut i: usize = 0;
        assert(out@ =~= zeros(0));
        while i < missing
            invariant
                i <= missing,
                out@ == zeros(i as int),
            decreases missing - i,
        {
            out.push('0');
            i += 1;
            assert(out@ =~= zeros(i as int));
        }
        out.concat(digits.as_str())
    } else {
        digits
    }
}

fn year_string(year: i32) -> (r: String)
    ensures
        r@ == year_text(year as int),
{
    if year < 0 {
        let digits = pad((-(year as i64)) as u128, 3);
        owned("-").concat(digits.as_str())
    } else {
        pad(year as u128, 4)
    }
}

/// A time without its date.
pub open spec fn hour_text(hour: u8, minute: u8) -> Seq<char> {
    padded(hour as nat, 2) + ":"@ + padded(minute as nat, 2)
}

/// A date as `MM-DD HH:MM`; nothing where there is no such date.
pub open spec fn short_text(date: Option<(i32, u8, u8, u8, u8)>) -> Seq<char> {
    match date {
        Some((year, month, day, hour, minute)) => padded(month as nat, 2) + "-"@ + padded(
            day as nat,
            2,
        ) + " "@ + hour_text(hour, minute),
        None => Seq::empty(),
    }
}

/// A date as `YYYY-MM-DD HH:MM`; nothing where there is no such date.
pub open spec fn long_text(date: Option<(i32, u8, u8, u8, u8)>) -> Seq<char> {
    match date {
        Some((year, month, day, hour, minute)) => year_text(year as int) + "-"@ + short_text(
            date,
        ),
        None => Seq::empty(),
    }
}

/// A date as `MM-DD HH:MM`.
pub fn short_date(date: Option<(i32, u8, u8, u8, u8)>) -> (r: String)
    ensures
        r@ == short_text(date),
{
    match date {
        Some((_, month, day, hour, minute)) => {
            let m = pad(month as u128, 2);
            let d = pad(day as u128, 2);
            let h = pad(hour as u128, 2);
            let n = pad(minute as u128, 2);
            let clock = h.concat(":").concat(n.as_str());
            m.concat("-").concat(d.as_str()).concat(" ").concat(clock.as_str())
        },
        None => String::new(),
    }
}

/// A date as `YYYY-MM-DD HH:MM`.
pub fn long_date(date: Option<(i32, u8, u8, u8, u8)>) -> (r: String)
    ensures
        r@ == long_text(date),
{
    match date {
        Some((year, _, _, _, _)) => {
            let y = year_string(year);
            let rest = short_date(date);
            y.concat("-").concat(rest.as_str())
        },
        None => String::new(),
    }
}

/// A number of seconds since 1970 as `MM-DD HH:MM`.
pub fn fmt_time_short(seconds: i64) -> (r: String)
    ensures
        r@ == short_text(date_of(seconds as int)),
{
    short_date(date_fields(seconds))
}

/// A number of seconds since 1970 as `YYYY-MM-DD HH:MM`.
pub fn fmt_session_datetime(seconds: i64) -> (r: String)
    ensures
        r@ == long_text(date_of(seconds as int)),
{
    long_date(date_fields(seconds))
}

/// The nanoseconds since 1970 of a point in time that is written as RFC 3339 says.
pub uninterp spec fn rfc3339_nanos(text: Seq<char>) -> Option<i128>;

/// `time::OffsetDateTime::parse` with the format of RFC 3339, and
/// `unix_timestamp_nanos` of what it gives; nothing where it gives an error.
#[verifier::external_body]
fn parse_rfc3339(text: &str) -> (r: Option<i128>)
    ensures
        r == rfc3339_nanos(text@),
{
    match time::OffsetDateTime::parse(text, &time::format_description::well_known::Rfc3339) {
        Ok(t) => Some(t.unix_timestamp_nanos()),
        Err(_) => None,
    }
}

/// The milliseconds in a number of nanoseconds, without what is less than one.
pub open spec fn whole_millis(nanos: Option<i128>) -> int {
    match nanos {
        Some(n) => if n >= 0 {
            n / 1_000_000
        } else {
            -((-n) / 1_000_000)
        },
        None => 0,
    }
}

/// The milliseconds in a number of nanoseconds, without what is less than one; 0 where
/// there is no number.
pub fn millis(nanos: Option<i128>) -> (r: i128)
    ensures
        r == whole_millis(nanos),
{
    match nanos {
        Some(n) => if n >= 0 {
            (n as u128 / 1_000_000) as i128
        } else if n == i128::MIN {
            -170141183460469231731687303715884
        } else {
            let size: u128 = (-n) as u128;
            -((size / 1_000_000) as i128)
        },
        None => 0,
    }
}

/// The milliseconds since 1970 of a point in time that is written as RFC 3339 says; 0 for
/// any other text.
pub fn event_time_ms(text: &str) -> (r: i128)
    ensures
        r == whole_millis(rfc3339_nanos(text@)),
{
    millis(parse_rfc3339(text))
}

} // verus!
