//! Points in time, in UTC.

use vstd::prelude::*;

verus! {

/// Seconds in a day.
pub const DAY: i64 = 86_400;

/// A point in time: whole seconds since 1970-01-01 00:00:00 UTC, and the nanoseconds behind them.
#[derive(Clone, Copy, Debug, PartialEq, Eq, Structural)]
pub struct Timestamp {
    pub secs: i64,
    pub nanos: u32,
}

/// 1970-01-01 00:00:00.
pub open spec fn epoch() -> Timestamp {
    Timestamp { secs: 0, nanos: 0 }
}

impl Timestamp {
    /// 1970-01-01 00:00:00.
    pub fn unix_epoch() -> (r: Timestamp)
        ensures
            r == epoch(),
    {
        Timestamp { secs: 0, nanos: 0 }
    }

    /// Whether this point lies before `other`.
    pub open spec fn earlier(self, other: Timestamp) -> bool {
        self.secs < other.secs || (self.secs == other.secs && self.nanos < other.nanos)
    }

    /// The later of the two points.
    pub open spec fn latest(self, other: Timestamp) -> Timestamp {
        if self.earlier(other) {
            other
        } else {
            self
        }
    }

    /// Midnight at the start of this point's day.
    pub open spec fn midnight(self) -> Timestamp {
        Timestamp { secs: (self.secs - self.secs % DAY) as i64, nanos: 0 }
    }

    /// Whether this point lies before `other`.
    pub fn is_before(&self, other: &Timestamp) -> (r: bool)
        ensures
            r == self.earlier(*other),
    {
        self.secs < other.secs || (self.secs == other.secs && self.nanos < other.nanos)
    }

    /// The later of the two points.
    pub fn later_of(&self, other: &Timestamp) -> (r: Timestamp)
        ensures
            r == self.latest(*other),
    {
        if self.is_before(other) {
            *other
        } else {
            *self
        }
    }

    /// Midnight at the start of this point's day: a multiple of a day, not later than this point
    /// and less than a day before it.
    pub fn start_of_day(&self) -> (r: Timestamp)
        requires
            self.secs >= i64::MIN + DAY,
        ensures
            r == self.midnight(),
            r.secs % DAY == 0,
            r.secs <= self.secs < r.secs + DAY,
            !self.earlier(r),
    {
        let rest: i64 = self.secs % DAY;
        let within: i64 = if rest < 0 {
            rest + DAY
        } else {
            rest
        };
        proof {
            lemma_day_remainder(self.secs as int);
        }
        assert(within == self.secs % DAY);
        Timestamp { secs: self.secs - within, nanos: 0 }
    }
}

/// The point in time that `chrono::NaiveDateTime::parse_from_str` reads from a text in a format, if
/// it reads one.
pub uninterp spec fn timestamp_of_text(text: Seq<char>, format: Seq<char>) -> Option<Timestamp>;

/// Calls `chrono::NaiveDateTime::parse_from_str` and takes the point in time, in UTC, that it reads.
/// Whether it reads one, and which, depends on the text and the format alone.
#[verifier::external_body]
pub(crate) fn parse_timestamp(text: &str, format: &str) -> (r: Option<Timestamp>)
    ensures
        r == timestamp_of_text(text@, format@),
{
    chrono::NaiveDateTime::parse_from_str(text, format).ok().map(
        |t| Timestamp {
            secs: t.and_utc().timestamp(),
            nanos: t.and_utc().timestamp_subsec_nanos(),
        },
    )
}

/// The point in time that `chrono::DateTime::parse_from_rfc3339` reads from a text, if it reads one.
pub uninterp spec fn timestamp_of_rfc3339(text: Seq<char>) -> Option<Timestamp>;

/// Calls `chrono::DateTime::parse_from_rfc3339` and takes the point in time that it reads, in UTC.
/// Whether it reads one, and which, depends on the text alone.
#[verifier::external_body]
pub(crate) fn parse_rfc3339(text: &str) -> (r: Option<Timestamp>)
    ensures
        r == timestamp_of_rfc3339(text@),
{
    chrono::DateTime::parse_from_rfc3339(text).ok().map(
        |t| Timestamp { secs: t.timestamp(), nanos: t.timestamp_subsec_nanos() },
    )
}

proof fn lemma_day_remainder(n: int)
    ensures
        (n - n % (DAY as int)) % (DAY as int) == 0,
{
}

// ---------------------------------------------------------------------------------------------
// Laws

/// Of two points in time one is before the other unless they are the same; it is the one with fewer
/// seconds, or with fewer nanoseconds in the same second.
pub proof fn law_points_in_time_are_in_order(a: Timestamp, b: Timestamp)
    ensures
        a.earlier(b) <==> a.secs < b.secs || a.secs == b.secs && a.nanos < b.nanos,
        a != b ==> a.earlier(b) != b.earlier(a),
        !a.earlier(a),
{
}

/// The later of two points is one of them, and neither of them is after it.
pub proof fn law_later_point_is_not_before_either(a: Timestamp, b: Timestamp)
    ensures
        a.latest(b) == a || a.latest(b) == b,
        a.secs <= a.latest(b).secs,
        b.secs <= a.latest(b).secs,
        a.latest(b).secs == a.secs ==> a.nanos <= a.latest(b).nanos,
        a.latest(b).secs == b.secs ==> b.nanos <= a.latest(b).nanos,
{
}

/// Midnight starts the day: it is a whole number of days from the epoch, and less than a day passes
/// from it to the point itself.
pub proof fn law_midnight_starts_the_day(t: Timestamp)
    requires
        t.secs >= i64::MIN + 86_400,
    ensures
        t.midnight().secs % 86_400 == 0,
        t.midnight().secs <= t.secs < t.midnight().secs + 86_400,
        t.midnight().nanos == 0,
{
    lemma_day_remainder(t.secs as int);
}

/// The epoch is where seconds are counted from.
pub proof fn law_epoch_is_zero()
    ensures
        epoch().secs == 0,
        epoch().nanos == 0,
{
}

} // verus!
