//! The holiday calendar: the set of holidays that the classifier consults.

use vstd::prelude::*;
use crate::date::OrdinalDate;

verus! {

/// A holiday calendar, given as the list of its holidays.
///
/// The list may be in any order and may repeat a date. A calendar is expected
/// to list every day that counts as a holiday in its own right, the eves
/// among them (such as New Year's Eve): the classifier recognises the day
/// before a holiday by its ordinal within the year, and so never across the
/// turn of a year.
#[derive(Debug, Clone, PartialEq, Eq)]
pub struct HolidayCalendar {
    pub holidays: Vec<OrdinalDate>,
}

impl HolidayCalendar {
    /// Whether `holiday` is the first holiday of the calendar on or after
    /// `date`.
    pub open spec fn is_upcoming(self, date: OrdinalDate, holiday: OrdinalDate) -> bool {
        &&& self.holidays@.contains(holiday)
        &&& !holiday.before(date)
        &&& forall|i: int|
            0 <= i < self.holidays@.len() && !(#[trigger] self.holidays@[i]).before(date)
                ==> !self.holidays@[i].before(holiday)
    }

    /// The first holiday on or after `date`, if the calendar lists one.
    pub open spec fn upcoming(self, date: OrdinalDate) -> Option<OrdinalDate> {
        if exists|holiday: OrdinalDate| self.is_upcoming(date, holiday) {
            Some(choose|holiday: OrdinalDate| self.is_upcoming(date, holiday))
        } else {
            None
        }
    }

    /// The ordinal of the first holiday on or after `date`.
    pub open spec fn upcoming_ordinal(self, date: OrdinalDate) -> Option<u32> {
        match self.upcoming(date) {
            Some(holiday) => Some(holiday.ordinal),
            None => None,
        }
    }

    /// At most one date is the first holiday on or after `date`.
    pub proof fn upcoming_is_unique(self, date: OrdinalDate, a: OrdinalDate, b: OrdinalDate)
        requires
            self.is_upcoming(date, a),
            self.is_upcoming(date, b),
        ensures
            a == b,
    {
        let i = choose|i: int| 0 <= i < self.holidays@.len() && self.holidays@[i] == a;
        let j = choose|j: int| 0 <= j < self.holidays@.len() && self.holidays@[j] == b;
        assert(!self.holidays@[i].before(b));
        assert(!self.holidays@[j].before(a));
    }

    /// A day that the calendar lists is itself the first holiday on or after
    /// it.
    pub proof fn listed_day_is_upcoming(self, date: OrdinalDate)
        requires
            self.holidays@.contains(date),
        ensures
            self.upcoming(date) == Some(date),
    {
        assert(self.is_upcoming(date, date));
        let found = choose|holiday: OrdinalDate| self.is_upcoming(date, holiday);
        self.upcoming_is_unique(date, date, found);
    }

    /// A calendar with the given holidays.
    pub fn new(holidays: Vec<OrdinalDate>) -> (calendar: HolidayCalendar)
        ensures
            calendar.holidays == holidays,
    {
        HolidayCalendar { holidays }
    }

    /// Finds the first holiday on or after `date` and returns it behind its
    /// ordinal, or `None` where every listed holiday is earlier than `date`.
    pub fn next_upcoming_holiday(&self, date: &OrdinalDate) -> (found: Option<(u32, OrdinalDate)>)
        ensures
            found == match self.upcoming(*date) {
                Some(holiday) => Some((holiday.ordinal, holiday)),
                None => None,
            },
            found matches Some(pair) ==> self.is_upcoming(*date, pair.1),
            found is None <==> forall|i: int|
                0 <= i < self.holidays@.len() ==> (#[trigger] self.holidays@[i]).before(*date),
    {
        let mut best: Option<OrdinalDate> = None;
        let mut i: usize = 0;
        while i < self.holidays.len()
            invariant
                i <= self.holidays@.len(),
                best matches Some(b) ==> {
                    &&& exists|k: int| 0 <= k < i && self.holidays@[k] == b
                    &&& !b.before(*date)
                },
                best is None ==> forall|k: int|
                    0 <= k < i ==> (#[trigger] self.holidays@[k]).before(*date),
                best matches Some(b) ==> forall|k: int|
                    0 <= k < i && !(#[trigger] self.holidays@[k]).before(*date)
                        ==> !self.holidays@[k].before(b),
            decreases self.holidays@.len() - i,
        {
            let candidate = self.holidays[i];
            if !candidate.is_before(date) {
                let better = match best {
                    Some(b) => candidate.is_before(&b),
                    None => true,
                };
                if better {
                    best = Some(candidate);
                }
            }
            i += 1;
        }
        match best {
            Some(b) => {
                proof {
                    assert(self.is_upcoming(*date, b));
                    let c = choose|holiday: OrdinalDate| self.is_upcoming(*date, holiday);
                    self.upcoming_is_unique(*date, b, c);
                }
                Some((b.ordinal, b))
            },
            None => {
                proof {
                    assert forall|holiday: OrdinalDate| !self.is_upcoming(*date, holiday) by {
                        if self.holidays@.contains(holiday) {
                            let k = choose|k: int|
                                0 <= k < self.holidays@.len() && self.holidays@[k] == holiday;
                            assert(self.holidays@[k].before(*date));
                        }
                    }
                }
                None
            },
        }
    }
}

} // verus!
