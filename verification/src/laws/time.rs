//! What holds of points in time.

use crate::time::{day_past, is_timestamp, nanos_between, Timestamp};
use vstd::prelude::*;

verus! {

/// The calendar begins and ends with a day. A second has a billion nanoseconds, and only the last
/// one of a minute may be followed by a leap second.
pub proof fn law_calendar(secs: int, nanos: int)
    ensures
        is_timestamp(secs, nanos) ==> -8_334_601_228_800 <= secs < 8_210_266_876_800 && 0 <= nanos
            < 2_000_000_000,
        -8_334_601_228_800 <= secs < 8_210_266_876_800 && 0 <= nanos < 1_000_000_000
            ==> is_timestamp(secs, nanos),
        nanos >= 1_000_000_000 ==> (is_timestamp(secs, nanos) <==> is_timestamp(
            secs,
            nanos - 1_000_000_000,
        ) && nanos < 2_000_000_000 && (secs + 1) % 60 == 0),
        -8_334_601_228_800int % 86_400 == 0,
        8_210_266_876_800int % 86_400 == 0,
{
}

/// Away from leap seconds, the time between two points is their difference in seconds and
/// nanoseconds.
pub proof fn law_time_between(now: Timestamp, then: Timestamp)
    requires
        0 <= now.spec_nanos() < 1_000_000_000,
        0 <= then.spec_nanos() < 1_000_000_000,
    ensures
        nanos_between(now, then) == (now.spec_secs() - then.spec_secs()) * 1_000_000_000
            + now.spec_nanos() - then.spec_nanos(),
        nanos_between(now, then) > 0 <==> then.is_before(now),
        nanos_between(now, then) > 86_400_000_000_000 <==> day_past(then, now),
{
}

/// A leap second counts exactly where it lies before the other point in its day: then it makes the
/// time between them one second longer.
pub proof fn law_leap_second_counts(now: Timestamp, then: Timestamp)
    ensures
        ({
            let plain = (now.spec_secs() - then.spec_secs()) * 1_000_000_000 + now.spec_nanos()
                - then.spec_nanos();
            let now_of_day = now.spec_secs() % 86_400;
            let then_of_day = then.spec_secs() % 86_400;
            &&& then_of_day < now_of_day && then.spec_nanos() >= 1_000_000_000
                ==> nanos_between(now, then) == plain + 1_000_000_000
            &&& now_of_day < then_of_day && now.spec_nanos() >= 1_000_000_000
                ==> nanos_between(now, then) == plain - 1_000_000_000
            &&& then_of_day == now_of_day ==> nanos_between(now, then) == plain
            &&& then_of_day < now_of_day && then.spec_nanos() < 1_000_000_000
                ==> nanos_between(now, then) == plain
            &&& now_of_day < then_of_day && now.spec_nanos() < 1_000_000_000
                ==> nanos_between(now, then) == plain
        }),
{
}

/// The time from one point to another is the time back, with the other sign.
pub proof fn law_time_back(a: Timestamp, b: Timestamp)
    ensures
        nanos_between(a, b) == -nanos_between(b, a),
        nanos_between(a, a) == 0,
{
}

/// Of two points in time one comes before the other, or they have the same seconds and nanoseconds.
pub proof fn law_before_is_an_order(a: Timestamp, b: Timestamp, c: Timestamp)
    ensures
        !(a.is_before(b) && b.is_before(a)),
        a.is_before(b) || b.is_before(a) || (a.spec_secs() == b.spec_secs() && a.spec_nanos()
            == b.spec_nanos()),
        a.is_before(b) && b.is_before(c) ==> a.is_before(c),
        a.spec_secs() < b.spec_secs() ==> a.is_before(b),
        a.spec_secs() == b.spec_secs() && a.spec_nanos() < b.spec_nanos() ==> a.is_before(b),
{
}

/// A number of days later, just so many days have passed. More than a day has passed exactly when
/// the point one day later comes before the present.
pub proof fn law_days_pass(then: Timestamp, later: Timestamp, days: int, now: Timestamp)
    requires
        then.is_days_later(later, days),
    ensures
        nanos_between(later, then) == days * 86_400_000_000_000,
        later.spec_nanos() == then.spec_nanos(),
        days == 1 ==> (day_past(then, now) <==> later.is_before(now)),
{
    assert(later.spec_secs() == then.spec_secs() + days * 86_400);
    assert(later.second_of_day() == then.second_of_day()) by (nonlinear_arith)
        requires
            later.second_of_day() == later.spec_secs() % 86_400,
            then.second_of_day() == then.spec_secs() % 86_400,
            later.spec_secs() == then.spec_secs() + days * 86_400,
    ;
}

/// There is a point in time so many days later if the calendar reaches that far. A leap second at its
/// very end does not count.
pub proof fn law_days_later_is_in_the_calendar(t: Timestamp, days: int)
    requires
        is_timestamp(t.spec_secs(), t.spec_nanos()),
        days >= 0,
    ensures
        t.days_later_fits(days) <==> {
            let secs = t.spec_secs() + days * 86_400;
            &&& is_timestamp(secs, t.spec_nanos())
            &&& !(secs == 8_210_266_876_799 && t.spec_nanos() >= 1_000_000_000)
        },
{
    let secs = t.spec_secs() + days * 86_400;
    assert(secs % 60 == t.spec_secs() % 60);
}

} // verus!
