//! Classification of calendar days into ordinary weekdays, days before a
//! holiday and holidays, against a caller-supplied holiday calendar, and two
//! operations built on it: cutting a range of time into the maximal runs of
//! one classification, and finding the next instant at which a given
//! classification begins.
//!
//! Instants are plain values: seconds and nanoseconds since the Unix epoch
//! together with the name of an IANA time zone. The only questions put to the
//! time zone database are "which local calendar day is this instant on?" and
//! "when is the next local midnight?"; everything else is verified here.

pub mod date;
pub mod error;
pub mod calendar;
pub mod kind;
pub mod zoned;
pub mod run;
pub mod slicer;
pub mod finder;
pub mod laws;

pub use calendar::HolidayCalendar;
pub use date::{CalendarDay, OrdinalDate, Weekday};
pub use kind::{classify, day_kind, DayKind, HasDayKind};
pub use error::DayKindError;
pub use slicer::{slice_on_day_kind, DayKindSlice, SliceIterator};
pub use zoned::{Zone, ZonedTime};
