//! Finding where a kind of day next begins.

use vstd::prelude::*;
use crate::calendar::HolidayCalendar;
use crate::error::DayKindError;
use crate::kind::DayKind;
use crate::laws::next_start_finds_first_day;
use crate::run::{run_end, run_end_advances};
use crate::slicer::SliceIterator;
use crate::zoned::ZonedTime;

verus! {

impl DayKind {
    /// The start of the first slice of this kind in the slicing without an
    /// end that starts at `from`: `from` itself where its local day is of this
    /// kind, and else what the search finds from the end of the run that
    /// `from` is in.
    pub open spec fn spec_next_start(self, from: ZonedTime, calendar: &HolidayCalendar) -> Result<
        ZonedTime,
        DayKindError,
    >
        decreases i64::MAX - from.secs,
    {
        match from.kind_in(calendar) {
            None => Err(DayKindError::NoLocalDay),
            Some(kind) => if kind == self {
                Ok(from)
            } else {
                match run_end(calendar, kind, from, None) {
                    Err(e) => Err(e),
                    Ok(end) => {
                        proof {
                            run_end_advances(calendar, kind, from, None);
                        }
                        self.spec_next_start(end, calendar)
                    },
                }
            },
        }
    }

    /// Whether `found` is the `n`-th local midnight after `from` (`from` itself
    /// for `n == 0`), falls on a day of this kind, and is the first to do so:
    /// `from` and the midnights before `found` fall on days of other kinds.
    pub open spec fn first_starts_at(
        self,
        from: ZonedTime,
        calendar: &HolidayCalendar,
        n: nat,
        found: ZonedTime,
    ) -> bool {
        &&& from.nth_midnight(n) == Some(found)
        &&& found.kind_in(calendar) == Some(self)
        &&& forall|i: nat|
            i < n ==> {
                &&& (#[trigger] from.nth_midnight(i)) matches Some(earlier)
                &&& earlier.kind_in(calendar) matches Some(kind)
                &&& kind != self
            }
    }

    /// Returns the next instant, at or after `dt`, at which a run of days of
    /// this kind starts. Where the local day of `dt` is of this kind already,
    /// that is `dt` itself.
    ///
    /// Returns an error where the time zone database cannot say on which
    /// local day an instant of the search falls, or gives no next midnight
    /// before a day of this kind is found.
    pub fn next_start(&self, dt: &ZonedTime, calendar: &HolidayCalendar) -> (found: Result<
        ZonedTime,
        DayKindError,
    >)
        ensures
            found == self.spec_next_start(*dt, calendar),
            dt.kind_in(calendar) == Some(*self) ==> found == Ok::<ZonedTime, DayKindError>(*dt),
            found matches Ok(start) ==> exists|n: nat|
                self.first_starts_at(*dt, calendar, n, start),
    {
        proof {
            next_start_finds_first_day(*self, *dt, calendar);
        }
        let mut slices = SliceIterator::from_dt(*dt, calendar);
        loop
            invariant
                slices.end is None,
                slices.calendar == calendar,
                self.spec_next_start(slices.start, calendar) == self.spec_next_start(
                    *dt,
                    calendar,
                ),
                self.spec_next_start(*dt, calendar) matches Ok(start) ==> exists|n: nat|
                    self.first_starts_at(*dt, calendar, n, start),
            decreases i64::MAX - slices.start.secs,
        {
            match slices.start.day_kind(calendar) {
                None => {
                    return Err(DayKindError::NoLocalDay);
                },
                Some(kind) => {
                    if kind == *self {
                        return Ok(slices.start);
                    }
                    proof {
                        run_end_advances(calendar, kind, slices.start, None);
                    }
                },
            }
            match slices.next() {
                Err(e) => {
                    return Err(e);
                },
                Ok(_) => {},
            }
        }
    }
}

} // verus!
