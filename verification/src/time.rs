//! Points in time, as plain values.

use vstd::prelude::*;

verus! {

pub const NANOS_PER_SEC: u32 = 1_000_000_000;

pub const SECS_PER_DAY: i64 = 86_400;

/// The first second of the year -262143, where the calendar of `chrono` begins.
pub const MIN_SECS: i64 = -8_334_601_228_800;

/// The last second of the year 262142, where the calendar of `chrono` ends.
pub const MAX_SECS: i64 = 8_210_266_876_799;

/// A point in time in UTC: the seconds since the Unix epoch and the nanoseconds within that second.
///
/// It holds what `chrono::DateTime<Utc>` holds. A leap second is written as the 59th second of its
/// minute with a billion nanoseconds or more.
#[derive(Clone, Copy, Debug, PartialEq, Eq, Structural)]
pub struct Timestamp {
    secs: i64,
    nanos: u32,
}

/// Whether there is a point in time with these seconds and nanoseconds.
pub open spec fn is_timestamp(secs: int, nanos: int) -> bool {
    &&& MIN_SECS <= secs <= MAX_SECS
    &&& 0 <= nanos
    &&& nanos < NANOS_PER_SEC || (nanos < 2 * NANOS_PER_SEC && secs % 60 == 59)
}

impl Timestamp {
    /// The point in time is in the calendar.
    #[verifier::type_invariant]
    pub closed spec fn wf(self) -> bool {
        is_timestamp(self.secs as int, self.nanos as int)
    }

    /// The seconds since the Unix epoch.
    pub closed spec fn spec_secs(self) -> int {
        self.secs as int
    }

    /// The nanoseconds since the last full second.
    pub closed spec fn spec_nanos(self) -> int {
        self.nanos as int
    }

    /// The second of the day.
    pub open spec fn second_of_day(self) -> int {
        self.spec_secs() % (SECS_PER_DAY as int)
    }

    /// Whether this point in time comes before the other.
    pub open spec fn is_before(self, other: Timestamp) -> bool {
        self.spec_secs() < other.spec_secs() || (self.spec_secs() == other.spec_secs()
            && self.spec_nanos() < other.spec_nanos())
    }

    /// Whether the same time of day, `days` days later, is still in the calendar.
    pub open spec fn days_later_fits(self, days: int) -> bool {
        let secs = self.spec_secs() + days * SECS_PER_DAY;
        secs < MAX_SECS || (secs == MAX_SECS && self.spec_nanos() < NANOS_PER_SEC)
    }

    /// Whether `other` is the same time of day as this, `days` days later.
    pub open spec fn is_days_later(self, other: Timestamp, days: int) -> bool {
        &&& other.spec_secs() == self.spec_secs() + days * SECS_PER_DAY
        &&& other.spec_nanos() == self.spec_nanos()
    }

    /// The point in time with these seconds and nanoseconds, if there is one.
    pub fn new(secs: i64, nanos: u32) -> (t: Option<Timestamp>)
        ensures
            t is Some <==> is_timestamp(secs as int, nanos as int),
            t matches Some(t) ==> t.spec_secs() == secs && t.spec_nanos() == nanos && t.wf(),
    {
        if secs < MIN_SECS || secs > MAX_SECS || nanos >= 2_000_000_000 {
            return None;
        }
        if nanos >= NANOS_PER_SEC {
            let into_minute: i64 = secs % 60;
            if into_minute != 59 && into_minute != -1 {
                return None;
            }
        }
        Some(Timestamp { secs, nanos })
    }

    /// The Unix epoch.
    pub closed spec fn unix_epoch() -> Timestamp {
        Timestamp { secs: 0, nanos: 0 }
    }

    /// The Unix epoch.
    pub fn epoch() -> (t: Timestamp)
        ensures
            t == Timestamp::unix_epoch(),
            t.spec_secs() == 0,
            t.spec_nanos() == 0,
            t.wf(),
    {
        Timestamp { secs: 0, nanos: 0 }
    }

    pub fn secs(&self) -> (secs: i64)
        ensures
            secs == self.spec_secs(),
            MIN_SECS <= secs <= MAX_SECS,
    {
        proof {
            use_type_invariant(self);
        }
        self.secs
    }

    pub fn nanos(&self) -> (nanos: u32)
        ensures
            nanos == self.spec_nanos(),
            is_timestamp(self.spec_secs(), nanos as int),
    {
        proof {
            use_type_invariant(self);
        }
        self.nanos
    }

    /// Whether the same time of day, one day later, is still in the calendar.
    pub fn day_later_fits(&self) -> (fits: bool)
        ensures
            fits == self.days_later_fits(1),
    {
        proof {
            use_type_invariant(self);
        }
        let secs: i64 = self.secs + SECS_PER_DAY;
        secs < MAX_SECS || (secs == MAX_SECS && self.nanos < NANOS_PER_SEC)
    }

    /// Whether this point in time comes before the other.
    pub fn before(&self, other: &Timestamp) -> (b: bool)
        ensures
            b == self.is_before(*other),
    {
        self.secs < other.secs || (self.secs == other.secs && self.nanos < other.nanos)
    }
}

/// The nanoseconds from `then` to `now`, negative where `then` is the later one.
///
/// Leap seconds are not counted, except for `then` or `now` itself being in one: then it counts
/// when the other one's time of day is later.
pub open spec fn nanos_between(now: Timestamp, then: Timestamp) -> int {
    let leap = if now.second_of_day() > then.second_of_day() && then.spec_nanos() >= NANOS_PER_SEC {
        1int
    } else if now.second_of_day() < then.second_of_day() && now.spec_nanos() >= NANOS_PER_SEC {
        -1int
    } else {
        0int
    };
    (now.spec_secs() - then.spec_secs() + leap) * NANOS_PER_SEC + now.spec_nanos()
        - then.spec_nanos()
}

/// The Unix epoch is where the seconds are counted from.
pub proof fn law_epoch_is_zero()
    ensures
        Timestamp::unix_epoch().spec_secs() == 0,
        Timestamp::unix_epoch().spec_nanos() == 0,
{
}

/// Reads the clock with `chrono::Utc::now`.
///
/// Nothing is claimed of the time that it gives, except that it is in the calendar. `chrono` panics
/// where the system clock stands before the Unix epoch, or beyond the calendar.
#[verifier::external_body]
pub(crate) fn utc_now() -> (now: Timestamp)
    ensures
        now.wf(),
{
    let now = chrono::Utc::now();
    Timestamp { secs: now.timestamp(), nanos: now.timestamp_subsec_nanos() }
}

/// Subtracts with `chrono::DateTime::signed_duration_since`, which is what `-` between two
/// `chrono::DateTime` calls.
///
/// The result is the whole seconds and the nanoseconds of the difference, both with its sign. They
/// add up to the nanoseconds between the two points in time.
#[verifier::external_body]
fn signed_duration_since(now: Timestamp, then: Timestamp) -> (parts: (i64, i32))
    ensures
        parts.0 * NANOS_PER_SEC + parts.1 == nanos_between(now, then),
        -NANOS_PER_SEC < parts.1 < NANOS_PER_SEC,
{
    let now = chrono::DateTime::from_timestamp(now.secs, now.nanos).unwrap();
    let then = chrono::DateTime::from_timestamp(then.secs, then.nanos).unwrap();
    let delta = now.signed_duration_since(then);
    (delta.num_seconds(), delta.subsec_nanos())
}

/// Adds days with `chrono::DateTime::add`, which is what `+` between a `chrono::DateTime` and
/// `chrono::Days` calls.
///
/// The result is the same time of day, that many days later. `chrono` panics where it lies outside
/// of the calendar.
#[verifier::external_body]
fn add_days(t: Timestamp, days: u32) -> (later: Timestamp)
    requires
        t.days_later_fits(days as int),
    ensures
        t.is_days_later(later, days as int),
{
    let t = chrono::DateTime::from_timestamp(t.secs, t.nanos).unwrap();
    let later = t + chrono::Days::new(days.into());
    Timestamp { secs: later.timestamp(), nanos: later.timestamp_subsec_nanos() }
}

/// The nanoseconds from `then` to `now`, negative where `then` is the later one.
pub fn signed_nanos_between(now: Timestamp, then: Timestamp) -> (nanos: i128)
    ensures
        nanos == nanos_between(now, then),
{
    let (secs, nanos): (i64, i32) = signed_duration_since(now, then);
    secs as i128 * 1_000_000_000 + nanos as i128
}

/// The nanoseconds that passed from `then` to `now`, if `then` is not the later one.
pub fn nanos_since(now: Timestamp, then: Timestamp) -> (nanos: Option<u128>)
    ensures
        nanos is Some <==> nanos_between(now, then) >= 0,
        nanos matches Some(n) ==> n == nanos_between(now, then),
{
    let nanos: i128 = signed_nanos_between(now, then);
    if nanos < 0 {
        None
    } else {
        Some(nanos as u128)
    }
}

/// Whether more than a day lies between `then` and `now`, by the calendar.
pub fn is_day_past(then: Timestamp, now: Timestamp) -> (past: bool)
    requires
        then.days_later_fits(1),
    ensures
        past == day_past(then, now),
{
    let later = add_days(then, 1);
    later.before(&now)
}

/// Whether the same time of day one day after `then` lies before `now`.
pub open spec fn day_past(then: Timestamp, now: Timestamp) -> bool {
    let secs = then.spec_secs() + SECS_PER_DAY;
    secs < now.spec_secs() || (secs == now.spec_secs() && then.spec_nanos() < now.spec_nanos())
}

} // verus!
