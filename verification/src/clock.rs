//! Points in time, the time of day, and the clock that both are read from.
//!
//! Nothing can be known beforehand of what the clock says, so the two
//! functions that read it promise little. Functions that need the time
//! come in pairs: one takes the time as an argument and says exactly what it
//! does with it, the other reads the clock and calls the first.

use crate::decimal::{decimal_nat, decimal_two, is_digit, to_decimal_two};
use vstd::prelude::*;
use vstd::string::*;

verus! {

/// A point in time: seconds since the start of 1970, and nanoseconds past
/// that second.
#[derive(Copy, Clone, Debug, PartialEq, Eq, Structural)]
pub struct Timestamp {
    pub sec: i64,
    pub nsec: i32,
}

impl Timestamp {
    /// Whether this point in time lies strictly later than `other`:
    /// seconds decide, and nanoseconds where the seconds are equal.
    pub open spec fn is_after(self, other: Timestamp) -> bool {
        self.sec > other.sec || (self.sec == other.sec && self.nsec > other.nsec)
    }

    /// Whether the nanoseconds are those of a part of a second, as they
    /// are in every reading of the clock.
    pub open spec fn is_reading(self) -> bool {
        0 <= self.nsec < 1_000_000_000
    }

    /// The point in time that lies `nsec` nanoseconds past second `sec`.
    pub fn new(sec: i64, nsec: i32) -> (t: Timestamp)
        ensures
            t == (Timestamp { sec, nsec }),
    {
        Timestamp { sec, nsec }
    }

    /// Whether this point in time lies strictly later than `other`.
    pub fn after(&self, other: &Timestamp) -> (b: bool)
        ensures
            b == self.is_after(*other),
    {
        self.sec > other.sec || (self.sec == other.sec && self.nsec > other.nsec)
    }
}

/// A time of day.
#[derive(Copy, Clone, Debug, PartialEq, Eq, Structural)]
pub struct ClockTime {
    pub hour: i32,
    pub minute: i32,
    pub second: i32,
}

impl ClockTime {
    /// Whether hour, minute and second are those of a clock: hours up to
    /// 23, minutes up to 59, and seconds up to 60, which leaves room for a
    /// leap second.
    pub open spec fn is_time_of_day(self) -> bool {
        0 <= self.hour <= 23 && 0 <= self.minute <= 59 && 0 <= self.second <= 60
    }

    /// The time of day with the given hour, minute and second.
    pub fn new(hour: i32, minute: i32, second: i32) -> (c: ClockTime)
        ensures
            c == (ClockTime { hour, minute, second }),
    {
        ClockTime { hour, minute, second }
    }
}

/// The tag that marks a message with the time of day: hour, minute and
/// second in square brackets, two digits each, with colons between them.
pub open spec fn stamp(clock: ClockTime) -> Seq<char> {
    "["@ + decimal_two(clock.hour as int) + ":"@ + decimal_two(clock.minute as int) + ":"@
        + decimal_two(clock.second as int) + "]"@
}

/// The tag of a time of day is ten characters long: the brackets at both
/// ends, the colons in their places, and digits in between.
pub proof fn stamp_is_ten_characters(clock: ClockTime)
    requires
        clock.is_time_of_day(),
    ensures
        stamp(clock).len() == 10,
        stamp(clock)[0] == '[',
        stamp(clock)[3] == ':',
        stamp(clock)[6] == ':',
        stamp(clock)[9] == ']',
        forall|i: int|
            0 < i < 9 && i != 3 && i != 6 ==> is_digit(#[trigger] stamp(clock)[i]),
{
    reveal_strlit("[");
    reveal_strlit(":");
    reveal_strlit("]");
    two_digits(clock.hour as int);
    two_digits(clock.minute as int);
    two_digits(clock.second as int);
}

proof fn two_digits(n: int)
    requires
        0 <= n < 100,
    ensures
        decimal_two(n).len() == 2,
        is_digit(decimal_two(n)[0]),
        is_digit(decimal_two(n)[1]),
{
    reveal_with_fuel(decimal_nat, 2);
}

/// Writes the tag for a time of day.
pub fn stamp_text(clock: ClockTime) -> (tag: String)
    ensures
        tag@ == stamp(clock),
{
    let mut tag: String = String::from_str("[");
    tag.append(to_decimal_two(clock.hour).as_str());
    tag.append(":");
    tag.append(to_decimal_two(clock.minute).as_str());
    tag.append(":");
    tag.append(to_decimal_two(clock.second).as_str());
    tag.append("]");
    tag
}

/// Reads the system clock with `get_time` of the `time` crate. Believed of
/// it: the nanoseconds are those of a part of a second, which the crate
/// checks before it hands the time out. Which point in time comes back is
/// not known.
#[verifier::external_body]
pub(crate) fn current_time() -> (now: Timestamp)
    ensures
        0 <= now.nsec < 1_000_000_000,
{
    let spec = time::get_time();
    Timestamp { sec: spec.sec, nsec: spec.nsec }
}

/// Reads the local time of day with `now` of the `time` crate. Believed of
/// it: hour, minute and second lie in the ranges that the crate documents
/// for them, the second allowing for a leap second. Which time of day comes
/// back is not known. The crate gives up where the system cannot turn its
/// clock into a local time.
#[verifier::external_body]
pub(crate) fn local_clock() -> (clock: ClockTime)
    ensures
        0 <= clock.hour <= 23,
        0 <= clock.minute <= 59,
        0 <= clock.second <= 60,
{
    let tm = time::now();
    ClockTime { hour: tm.tm_hour, minute: tm.tm_min, second: tm.tm_sec }
}

} // verus!
