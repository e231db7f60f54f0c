//! Points in civil time, and the seconds between them.

use vstd::prelude::*;

verus! {

/// A point in time: seconds since the beginning of 1970, and the nanoseconds
/// after them. Nanoseconds from a second on are those of a leap second, which
/// counts as part of the second before it.
#[derive(Debug, Clone, Copy, PartialEq, Eq, Structural)]
pub struct UtcTime {
    pub secs: i64,
    pub nanos: u32,
}

/// The point in time that `chrono` reads from an RFC 3339 text, as its seconds
/// and nanoseconds; none where the text is not one.
pub uninterp spec fn rfc3339(text: Seq<char>) -> Option<(i64, u32)>;

/// `chrono::DateTime::parse_from_rfc3339`, with `timestamp` and
/// `timestamp_subsec_nanos` of what it gives: the point in time of the text, if
/// it is one. As the year has four digits and an offset is less than a day, the
/// seconds stay within narrow bounds.
#[verifier::external_body]
fn parse_rfc3339(text: &str) -> (r: Option<UtcTime>)
    ensures
        match r {
            Some(t) => rfc3339(text@) == Some((t.secs, t.nanos)) && -100_000_000_000 <= t.secs
                <= 300_000_000_000 && t.nanos < 2_000_000_000,
            None => rfc3339(text@) is None,
        },
{
    match chrono::DateTime::parse_from_rfc3339(text) {
        Ok(t) => Some(UtcTime { secs: t.timestamp(), nanos: t.timestamp_subsec_nanos() }),
        Err(_) => None,
    }
}

impl UtcTime {
    /// The time is one of this or any near era.
    pub open spec fn wf(self) -> bool {
        -10_000_000_000_000 <= self.secs <= 10_000_000_000_000 && self.nanos < 2_000_000_000
    }

    /// The second of the day.
    pub open spec fn of_day(self) -> int {
        self.secs as int % 86_400
    }

    /// The leap second between two times that has yet to be counted: one where
    /// the earlier time of day is in it.
    pub open spec fn leap_between(self, earlier: UtcTime) -> int {
        if self.of_day() > earlier.of_day() && earlier.nanos >= 1_000_000_000 {
            1
        } else if self.of_day() < earlier.of_day() && self.nanos >= 1_000_000_000 {
            -1
        } else {
            0
        }
    }

    /// The nanoseconds from `earlier` to this time.
    pub open spec fn nanos_since(self, earlier: UtcTime) -> int {
        (self.secs - earlier.secs + self.leap_between(earlier)) * 1_000_000_000 + self.nanos
            - earlier.nanos
    }

    /// The whole seconds from `earlier` to this time, their fraction dropped.
    pub open spec fn seconds_since_spec(self, earlier: UtcTime) -> int {
        let n = self.nanos_since(earlier);
        if n >= 0 {
            n / 1_000_000_000
        } else {
            -((-n) / 1_000_000_000)
        }
    }

    /// The point in time of an RFC 3339 text, if it is one.
    pub fn parse(text: &str) -> (r: Option<UtcTime>)
        ensures
            match r {
                Some(t) => rfc3339(text@) == Some((t.secs, t.nanos)) && t.wf(),
                None => rfc3339(text@) is None,
            },
    {
        parse_rfc3339(text)
    }

    fn second_of_day(self) -> (r: u64)
        requires
            self.wf(),
        ensures
            r == self.of_day(),
    {
        let shifted: u64 = (self.secs + 17_280_000_000_000) as u64;
        assert((self.secs + 17_280_000_000_000) % 86_400 == self.secs as int % 86_400);
        shifted % 86_400
    }

    /// The whole seconds from `earlier` to this time, their fraction dropped.
    pub fn seconds_since(self, earlier: UtcTime) -> (r: i64)
        requires
            self.wf(),
            earlier.wf(),
        ensures
            r == self.seconds_since_spec(earlier),
            -30_000_000_000_000 <= r <= 30_000_000_000_000,
    {
        let a: u64 = self.second_of_day();
        let b: u64 = earlier.second_of_day();
        let leap: i128 = if a > b && earlier.nanos >= 1_000_000_000 {
            1
        } else if a < b && self.nanos >= 1_000_000_000 {
            -1
        } else {
            0
        };
        let n: i128 = (self.secs as i128 - earlier.secs as i128 + leap) * 1_000_000_000
            + self.nanos as i128 - earlier.nanos as i128;
        if n >= 0 {
            (n as u128 / 1_000_000_000) as i64
        } else {
            -(((-n) as u128 / 1_000_000_000) as i64)
        }
    }
}

/// Time passes evenly: between times without leap seconds, a second later there
/// is a second less to go.
pub proof fn law_time_passes(close: UtcTime, now: UtcTime, passed: int)
    requires
        close.nanos < 1_000_000_000,
        now.nanos < 1_000_000_000,
        0 <= passed,
        now.secs + passed <= i64::MAX,
    ensures
        ({
            let later = UtcTime { secs: (now.secs + passed) as i64, nanos: now.nanos };
            close.nanos_since(later) == close.nanos_since(now) - passed * 1_000_000_000
        }),
{
}

/// Between times without leap seconds the whole seconds are those that fit in the
/// time between them, counted towards zero.
pub proof fn law_whole_seconds(later: UtcTime, earlier: UtcTime)
    requires
        later.nanos < 1_000_000_000,
        earlier.nanos < 1_000_000_000,
    ensures
        ({
            let s = later.seconds_since_spec(earlier);
            let secs = later.secs - earlier.secs;
            &&& later.nanos == earlier.nanos ==> s == secs
            &&& later.nanos > earlier.nanos && secs >= 0 ==> s == secs
            &&& later.nanos > earlier.nanos && secs < 0 ==> s == secs + 1
            &&& later.nanos < earlier.nanos && secs > 0 ==> s == secs - 1
            &&& later.nanos < earlier.nanos && secs <= 0 ==> s == secs
        }),
{
}

/// A leap second counts where the earlier time of day is in it, forwards or back.
pub proof fn law_leap_second(later: UtcTime, earlier: UtcTime)
    ensures
        ({
            let plain = (later.secs - earlier.secs) * 1_000_000_000 + later.nanos - earlier.nanos;
            let a = later.secs as int % 86_400;
            let b = earlier.secs as int % 86_400;
            &&& a > b && earlier.nanos >= 1_000_000_000 ==> later.nanos_since(earlier) == plain
                + 1_000_000_000
            &&& a < b && later.nanos >= 1_000_000_000 ==> later.nanos_since(earlier) == plain
                - 1_000_000_000
            &&& a == b || (a > b && earlier.nanos < 1_000_000_000) || (a < b && later.nanos
                < 1_000_000_000) ==> later.nanos_since(earlier) == plain
        }),
{
}

} // verus!
