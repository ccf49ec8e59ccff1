//! The three kinds of day and the rule that tells them apart.

use vstd::prelude::*;
use crate::calendar::HolidayCalendar;
use crate::date::{CalendarDay, Weekday};

verus! {

/// The classification of a calendar day.
#[derive(Debug, Clone, Copy, PartialEq, Eq, Structural)]
pub enum DayKind {
    Weekday,
    DayBeforeHoliday,
    Holiday,
}

/// The kind of a day, from its weekday, its ordinal within the year and the
/// ordinal of the first holiday on or after it.
///
/// A Sunday is a holiday whatever the calendar says. Otherwise the day is a
/// holiday where the upcoming holiday has its ordinal, and a day before a
/// holiday where the upcoming holiday has the next ordinal or the day is a
/// Saturday. Being a holiday takes precedence over being the day before one.
/// Where the calendar lists no holiday on or after the day (`None`), only the
/// weekday counts.
pub open spec fn spec_classify(weekday: Weekday, ordinal: u32, holiday_ordinal: Option<u32>)
    -> DayKind {
    if weekday == Weekday::Sun {
        DayKind::Holiday
    } else if holiday_ordinal == Some(ordinal) {
        DayKind::Holiday
    } else if (holiday_ordinal matches Some(h) && h == ordinal + 1) || weekday == Weekday::Sat {
        DayKind::DayBeforeHoliday
    } else {
        DayKind::Weekday
    }
}

/// Executable form of [`spec_classify`].
#[verifier::when_used_as_spec(spec_classify)]
pub fn classify(weekday: Weekday, ordinal: u32, holiday_ordinal: Option<u32>) -> (kind: DayKind)
    ensures
        kind == spec_classify(weekday, ordinal, holiday_ordinal),
{
    if weekday == Weekday::Sun {
        return DayKind::Holiday;
    }
    match holiday_ordinal {
        Some(h) => {
            if ordinal == h {
                DayKind::Holiday
            } else if (h >= 1 && ordinal == h - 1) || weekday == Weekday::Sat {
                DayKind::DayBeforeHoliday
            } else {
                DayKind::Weekday
            }
        },
        None => {
            if weekday == Weekday::Sat {
                DayKind::DayBeforeHoliday
            } else {
                DayKind::Weekday
            }
        },
    }
}

/// Something that falls on a calendar day and so has a kind under a holiday
/// calendar.
pub trait HasDayKind {
    /// The kind of the day under `calendar`.
    spec fn kind_in(&self, calendar: &HolidayCalendar) -> DayKind;

    /// Classifies the day under `calendar`.
    fn day_kind(&self, calendar: &HolidayCalendar) -> (kind: DayKind)
        ensures
            kind == self.kind_in(calendar),
    ;
}

impl HasDayKind for CalendarDay {
    open spec fn kind_in(&self, calendar: &HolidayCalendar) -> DayKind {
        spec_classify(self.weekday, self.date.ordinal, calendar.upcoming_ordinal(self.date))
    }

    fn day_kind(&self, calendar: &HolidayCalendar) -> (kind: DayKind) {
        if self.weekday == Weekday::Sun {
            return DayKind::Holiday;
        }
        let holiday_ordinal = match calendar.next_upcoming_holiday(&self.date) {
            Some(pair) => Some(pair.0),
            None => None,
        };
        classify(self.weekday, self.date.ordinal, holiday_ordinal)
    }
}

/// Classifies `d` under `calendar`.
pub fn day_kind<D: HasDayKind>(d: &D, calendar: &HolidayCalendar) -> (kind: DayKind)
    ensures
        kind == d.kind_in(calendar),
{
    d.day_kind(calendar)
}

} // verus!
