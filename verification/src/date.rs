//! Calendar dates as plain values.

use vstd::prelude::*;

verus! {

/// A day of the week.
#[derive(Debug, Clone, Copy, PartialEq, Eq, Structural)]
pub enum Weekday {
    Mon,
    Tue,
    Wed,
    Thu,
    Fri,
    Sat,
    Sun,
}

impl Weekday {
    /// The weekday that lies `index` days after a Monday, for `index` below
    /// seven; any larger index gives Sunday.
    pub open spec fn spec_from_monday_index(index: u32) -> Weekday {
        if index == 0 {
            Weekday::Mon
        } else if index == 1 {
            Weekday::Tue
        } else if index == 2 {
            Weekday::Wed
        } else if index == 3 {
            Weekday::Thu
        } else if index == 4 {
            Weekday::Fri
        } else if index == 5 {
            Weekday::Sat
        } else {
            Weekday::Sun
        }
    }

    /// Executable form of [`Weekday::spec_from_monday_index`].
    pub fn from_monday_index(index: u32) -> (day: Weekday)
        ensures
            day == Weekday::spec_from_monday_index(index),
    {
        match index {
            0 => Weekday::Mon,
            1 => Weekday::Tue,
            2 => Weekday::Wed,
            3 => Weekday::Thu,
            4 => Weekday::Fri,
            5 => Weekday::Sat,
            _ => Weekday::Sun,
        }
    }
}

/// A date given by its year and its 1-based day of the year.
#[derive(Debug, Clone, Copy, PartialEq, Eq, Structural)]
pub struct OrdinalDate {
    pub year: i32,
    pub ordinal: u32,
}

impl OrdinalDate {
    /// Whether `self` is an earlier date than `other`.
    pub open spec fn before(self, other: OrdinalDate) -> bool {
        self.year < other.year || (self.year == other.year && self.ordinal < other.ordinal)
    }

    /// Executable form of [`OrdinalDate::before`].
    pub fn is_before(&self, other: &OrdinalDate) -> (b: bool)
        ensures
            b == self.before(*other),
    {
        self.year < other.year || (self.year == other.year && self.ordinal < other.ordinal)
    }
}

/// One calendar day as the classifier reads it: its date and its weekday.
#[derive(Debug, Clone, Copy, PartialEq, Eq, Structural)]
pub struct CalendarDay {
    pub date: OrdinalDate,
    pub weekday: Weekday,
}

impl CalendarDay {
    /// The day with the given year, ordinal within the year and number of
    /// days from Monday to its weekday.
    pub open spec fn spec_from_parts(year: i32, ordinal: u32, days_from_monday: u32)
        -> CalendarDay {
        CalendarDay {
            date: OrdinalDate { year, ordinal },
            weekday: Weekday::spec_from_monday_index(days_from_monday),
        }
    }

    /// Executable form of [`CalendarDay::spec_from_parts`].
    pub fn from_parts(year: i32, ordinal: u32, days_from_monday: u32) -> (day: CalendarDay)
        ensures
            day == CalendarDay::spec_from_parts(year, ordinal, days_from_monday),
    {
        CalendarDay {
            date: OrdinalDate { year, ordinal },
            weekday: Weekday::from_monday_index(days_from_monday),
        }
    }
}

} // verus!
