//! Runs of days of one kind: where a run that is probed midnight by midnight
//! ends, and what holds of that end.

use vstd::prelude::*;
use crate::calendar::HolidayCalendar;
use crate::error::DayKindError;
use crate::kind::DayKind;
use crate::zoned::{midnights_ascend, ZonedTime};

verus! {

/// The end of the run of `kind` that is probed from `step` on, one local
/// midnight at a time.
///
/// The run ends at `limit` where `limit` comes before the next midnight, and
/// else at the first midnight whose day is of another kind. It has no end
/// where the time zone database fails to give a midnight, or the local day of
/// one, before that.
pub open spec fn run_end(
    calendar: &HolidayCalendar,
    kind: DayKind,
    step: ZonedTime,
    limit: Option<ZonedTime>,
) -> Result<ZonedTime, DayKindError>
    decreases i64::MAX - step.secs,
{
    match step.next_midnight() {
        None => Err(DayKindError::NoNextMidnight),
        Some(midnight) => if limit is Some && limit->0.before(midnight) {
            Ok(limit->0)
        } else {
            match midnight.kind_in(calendar) {
                None => Err(DayKindError::NoLocalDay),
                Some(k) => if k != kind {
                    Ok(midnight)
                } else {
                    run_end(calendar, kind, midnight, limit)
                },
            }
        },
    }
}

/// A run that is probed without a limit ends at a local midnight later than
/// the instant it was probed from; with a limit it ends there or at the
/// limit, and never after the limit.
pub proof fn run_end_advances(
    calendar: &HolidayCalendar,
    kind: DayKind,
    step: ZonedTime,
    limit: Option<ZonedTime>,
)
    ensures
        run_end(calendar, kind, step, limit) matches Ok(end) ==> {
            ||| limit == Some(end)
            ||| step.secs < end.secs && end.nanos == 0 && end.zone == step.zone
        },
        run_end(calendar, kind, step, limit) matches Ok(end) ==> (limit matches Some(l)
            ==> end.at_or_before(l)),
    decreases i64::MAX - step.secs,
{
    if let Some(midnight) = step.next_midnight() {
        if !(limit is Some && limit->0.before(midnight)) {
            if midnight.kind_in(calendar) == Some(kind) {
                run_end_advances(calendar, kind, midnight, limit);
            }
        }
    }
}

/// A run ends at its limit or at a local midnight that follows the instant it
/// was probed from, and there on a day of another kind.
pub proof fn run_ends_at_limit_or_change(
    calendar: &HolidayCalendar,
    kind: DayKind,
    step: ZonedTime,
    limit: Option<ZonedTime>,
)
    ensures
        run_end(calendar, kind, step, limit) matches Ok(end) ==> {
            ||| limit == Some(end)
            ||| {
                &&& step.reaches_midnight(end)
                &&& end.kind_in(calendar) matches Some(k) && k != kind
            }
        },
    decreases i64::MAX - step.secs,
{
    if let Some(midnight) = step.next_midnight() {
        if !(limit is Some && limit->0.before(midnight)) {
            if midnight.kind_in(calendar) == Some(kind) {
                run_ends_at_limit_or_change(calendar, kind, midnight, limit);
                if let Ok(end) = run_end(calendar, kind, step, limit) {
                    if limit != Some(end) {
                        let n = choose|n: nat| n >= 1 && midnight.nth_midnight(n) == Some(end);
                        assert(step.nth_midnight(n + 1) == Some(end));
                    }
                }
            } else if midnight.kind_in(calendar) is Some {
                assert(midnight.nth_midnight(0) == Some(midnight));
                assert(step.nth_midnight(1) == Some(midnight));
            }
        }
    }
}

/// Every local midnight inside a run falls on a day of the run's kind.
pub proof fn run_is_constant_by_day(
    calendar: &HolidayCalendar,
    kind: DayKind,
    step: ZonedTime,
    limit: Option<ZonedTime>,
    n: nat,
)
    requires
        n >= 1,
    ensures
        run_end(calendar, kind, step, limit) matches Ok(end) ==> (step.nth_midnight(n) matches Some(
            m,
        ) ==> m.before(end) ==> m.kind_in(calendar) == Some(kind)),
    decreases i64::MAX - step.secs,
{
    if let Some(midnight) = step.next_midnight() {
        midnights_ascend(midnight, (n - 1) as nat);
        if !(limit is Some && limit->0.before(midnight)) {
            if midnight.kind_in(calendar) == Some(kind) {
                if n > 1 {
                    run_is_constant_by_day(calendar, kind, midnight, limit, (n - 1) as nat);
                }
            }
        }
    }
}

/// Every instant inside a run falls on a day of the run's kind, provided that
/// throughout the run the local day stays the same from an instant up to the
/// local midnight that follows it.
pub proof fn run_is_constant(
    calendar: &HolidayCalendar,
    kind: DayKind,
    step: ZonedTime,
    limit: Option<ZonedTime>,
    t: ZonedTime,
)
    requires
        step.kind_in(calendar) == Some(kind),
        t.zone == step.zone,
        step.at_or_before(t),
        run_end(calendar, kind, step, limit) matches Ok(end) && t.before(end),
        forall|m: ZonedTime|
            m.zone == step.zone && step.at_or_before(m) && m.at_or_before(t)
                ==> #[trigger] m.holds_local_day(),
    ensures
        t.kind_in(calendar) == Some(kind),
    decreases i64::MAX - step.secs,
{
    let midnight = step.next_midnight()->0;
    assert(step.holds_local_day());
    if t.before(midnight) {
        assert(t.local_day() == step.local_day());
    } else {
        run_is_constant(calendar, kind, midnight, limit, t);
    }
}

/// A run without a limit ends no later than any local midnight on a day of
/// another kind, where the time zone database gives the midnights up to that
/// one and their local days.
pub proof fn run_ends_at_first_change(
    calendar: &HolidayCalendar,
    kind: DayKind,
    step: ZonedTime,
    n: nat,
)
    requires
        n >= 1,
        step.nth_midnight(n) matches Some(e) && e.kind_in(calendar) matches Some(k) && k != kind,
        forall|i: nat|
            1 <= i < n ==> {
                &&& (#[trigger] step.nth_midnight(i)) matches Some(d)
                &&& d.kind_in(calendar) is Some
            },
    ensures
        run_end(calendar, kind, step, None) matches Ok(end) && exists|j: nat|
            1 <= j <= n && step.nth_midnight(j) == Some(end),
    decreases n,
{
    let midnight = step.next_midnight()->0;
    assert(midnight.nth_midnight(0) == Some(midnight));
    assert(step.nth_midnight(1) == Some(midnight));
    if n > 1 && midnight.kind_in(calendar) == Some(kind) {
        assert forall|i: nat| 1 <= i < n - 1 implies {
            &&& (#[trigger] midnight.nth_midnight(i)) matches Some(d)
            &&& d.kind_in(calendar) is Some
        } by {
            assert(step.nth_midnight(i + 1) == midnight.nth_midnight(i));
        }
        run_ends_at_first_change(calendar, kind, midnight, (n - 1) as nat);
        let end = run_end(calendar, kind, step, None)->Ok_0;
        let j = choose|j: nat| 1 <= j <= n - 1 && midnight.nth_midnight(j) == Some(end);
        assert(step.nth_midnight(j + 1) == Some(end));
    }
}

} // verus!
