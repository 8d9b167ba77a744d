//! Points in time.

use vstd::prelude::*;

verus! {

/// An instant: whole seconds since the Unix epoch and nanoseconds within the
/// second (at or above one billion inside a leap second).
#[derive(Clone, Copy, Debug, PartialEq, Eq, Structural)]
pub struct Timestamp {
    pub secs: i64,
    pub nanos: u32,
}

impl DeepView for Timestamp {
    type V = Timestamp;

    open spec fn deep_view(&self) -> Timestamp {
        *self
    }
}

/// The first second of the calendar: January 1 of the year -262143.
pub const CALENDAR_FIRST: i64 = -8_334_601_228_800;

/// The last second of the calendar: December 31 of the year 262142.
pub const CALENDAR_LAST: i64 = 8_210_266_876_799;

/// The RFC 3339 text of an instant, with as many fraction digits as it needs.
pub uninterp spec fn rfc3339_text(secs: i64, nanos: u32) -> Seq<char>;

impl Timestamp {
    /// Milliseconds since the epoch. Instants beyond the calendar saturate.
    pub open spec fn millis_spec(&self) -> i64 {
        if self.secs > CALENDAR_LAST {
            i64::MAX
        } else if self.secs < CALENDAR_FIRST {
            i64::MIN
        } else {
            (self.secs * 1000 + self.nanos / 1_000_000) as i64
        }
    }

    /// Whether the instant is an ordinary one of the years 1970 to 9999,
    /// outside any leap second.
    pub open spec fn ordinary(&self) -> bool {
        0 <= self.secs < 253_402_300_800 && self.nanos < 1_000_000_000
    }

    /// Whether the instant falls on a date of the calendar.
    pub open spec fn in_calendar(&self) -> bool {
        CALENDAR_FIRST <= self.secs <= CALENDAR_LAST
    }

    /// The instant of a stored millisecond count; counts outside the calendar
    /// stand for the epoch.
    pub open spec fn of_stored_millis(ms: i64) -> Timestamp {
        if Self::of_millis(ms).in_calendar() {
            Self::of_millis(ms)
        } else {
            Timestamp { secs: 0, nanos: 0 }
        }
    }

    /// The instant of a stored millisecond count.
    pub fn from_stored_millis(ms: i64) -> (r: Timestamp)
        ensures
            r == Self::of_stored_millis(ms),
    {
        let t = Self::from_millis(ms);
        if CALENDAR_FIRST <= t.secs && t.secs <= CALENDAR_LAST {
            t
        } else {
            Timestamp { secs: 0, nanos: 0 }
        }
    }

    /// The instant of a millisecond count; counts outside the calendar stand
    /// for `other`.
    pub open spec fn of_millis_or(ms: i64, other: Timestamp) -> Timestamp {
        if Self::of_millis(ms).in_calendar() {
            Self::of_millis(ms)
        } else {
            other
        }
    }

    /// The instant of a millisecond count, or `other`.
    pub fn from_millis_or(ms: i64, other: Timestamp) -> (r: Timestamp)
        ensures
            r == Self::of_millis_or(ms, other),
    {
        let t = Self::from_millis(ms);
        if CALENDAR_FIRST <= t.secs && t.secs <= CALENDAR_LAST {
            t
        } else {
            other
        }
    }

    /// Milliseconds since the epoch.
    pub fn millis(&self) -> (r: i64)
        ensures
            r == self.millis_spec(),
    {
        if self.secs > CALENDAR_LAST {
            i64::MAX
        } else if self.secs < CALENDAR_FIRST {
            i64::MIN
        } else {
            self.secs * 1000 + (self.nanos / 1_000_000) as i64
        }
    }

    /// The instant of a millisecond count.
    pub open spec fn of_millis(ms: i64) -> Timestamp {
        Timestamp { secs: (ms as int / 1000) as i64, nanos: (ms as int % 1000 * 1_000_000) as u32 }
    }

    /// The instant of a millisecond count.
    pub fn from_millis(ms: i64) -> (r: Timestamp)
        ensures
            r == Self::of_millis(ms),
            r.in_calendar() ==> r.millis_spec() == ms,
    {
        let q: i64 = ms / 1000;
        let rem: i64 = ms % 1000;
        if rem < 0 {
            Timestamp { secs: q - 1, nanos: ((rem + 1000) * 1_000_000) as u32 }
        } else {
            Timestamp { secs: q, nanos: (rem * 1_000_000) as u32 }
        }
    }

    /// The current time.
    pub fn now() -> (r: Timestamp) {
        let (secs, nanos) = clock_now();
        Timestamp { secs, nanos }
    }

    /// The RFC 3339 text of this instant.
    pub fn to_rfc3339(&self) -> (r: String)
        ensures
            r@ == rfc3339_text(self.secs, self.nanos),
    {
        format_rfc3339(self.secs, self.nanos)
    }
}

/// `chrono::Utc::now` as seconds and nanoseconds.
#[verifier::external_body]
fn clock_now() -> (r: (i64, u32)) {
    let now = chrono::Utc::now();
    (now.timestamp(), now.timestamp_subsec_nanos())
}

/// `DateTime::to_rfc3339_opts` with automatic fraction digits and a `Z`
/// suffix, the form in which an instant is serialised. Seconds and nanoseconds
/// that name no instant stand for the epoch.
#[verifier::external_body]
fn format_rfc3339(secs: i64, nanos: u32) -> (r: String)
    ensures
        r@ == rfc3339_text(secs, nanos),
{
    let at = chrono::DateTime::from_timestamp(secs, nanos).unwrap_or_default();
    at.to_rfc3339_opts(chrono::SecondsFormat::AutoSi, true)
}

} // verus!
