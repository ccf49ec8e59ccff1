//! Instants in a time zone, and the two questions put to the time zone
//! database: the local calendar day of an instant, and the local midnight
//! that follows it.

use vstd::prelude::*;
use chrono::{DateTime, Datelike, Offset, TimeZone};
use chrono_tz::Tz;
use crate::calendar::HolidayCalendar;
use crate::date::CalendarDay;
use crate::kind::{DayKind, HasDayKind};

verus! {

/// A time zone of the IANA database, by its name (`"Europe/Stockholm"`).
#[derive(Debug, Clone, Copy, PartialEq, Eq)]
pub struct Zone {
    pub name: &'static str,
}

/// An instant, read in a time zone.
///
/// `secs` counts the non-leap seconds since 1970-01-01 00:00:00 UTC and
/// `nanos` the nanoseconds into that second. Instants are ordered by `secs`,
/// then `nanos`; the zone plays no part in the order.
#[derive(Debug, Clone, Copy, PartialEq, Eq)]
pub struct ZonedTime {
    pub zone: Zone,
    pub secs: i64,
    pub nanos: u32,
}

/// The local date of the instant `secs` in the zone named `zone`, as chrono
/// and chrono-tz compute it: the year, the ordinal within the year, and the
/// number of days from Monday to its weekday. `None` where the zone is
/// unknown or the instant or its local date lies outside the dates that
/// chrono represents.
pub uninterp spec fn local_date_of(zone: Seq<char>, secs: i64) -> Option<(i32, u32, u32)>;

/// The instant of the first local midnight after the local date of the
/// instant `secs` in the zone named `zone`, as chrono and chrono-tz compute
/// it. `None` where the zone is unknown, a date involved lies outside the
/// dates that chrono represents, or the zone's clocks skip or repeat that
/// midnight.
pub uninterp spec fn next_midnight_of(zone: Seq<char>, secs: i64) -> Option<i64>;

/// Asks chrono for the local date of an instant: parses the zone name with
/// chrono-tz's `Tz::from_str`, shifts the UTC date and time of
/// `DateTime::from_timestamp` by the offset that `Tz::offset_from_utc_datetime`
/// gives (`NaiveDateTime::checked_add_offset`), and reads the date's `year`,
/// `ordinal` and `weekday`. The contract only gives the result its name.
#[verifier::external_body]
fn local_date_at(zone: &str, secs: i64) -> (found: Option<(i32, u32, u32)>)
    ensures
        found == local_date_of(zone@, secs),
{
    let tz: Tz = zone.parse().ok()?;
    let utc = DateTime::from_timestamp(secs, 0)?.naive_utc();
    let date = utc.checked_add_offset(tz.offset_from_utc_datetime(&utc).fix())?.date();
    Some((date.year(), date.ordinal(), date.weekday().num_days_from_monday()))
}

/// Asks chrono for the next local midnight: takes the local date as
/// [`local_date_at`] does, its successor by `NaiveDate::succ_opt`, that day's
/// 00:00:00 by `NaiveDate::and_hms_opt`, and the one instant at which the zone
/// shows that local time, by `TimeZone::from_local_datetime` on chrono-tz's
/// `Tz` and `MappedLocalTime::single`; the result is its `timestamp`. The
/// contract only gives the result its name.
#[verifier::external_body]
fn next_midnight_at(zone: &str, secs: i64) -> (found: Option<i64>)
    ensures
        found == next_midnight_of(zone@, secs),
{
    let tz: Tz = zone.parse().ok()?;
    let utc = DateTime::from_timestamp(secs, 0)?.naive_utc();
    let local = utc.checked_add_offset(tz.offset_from_utc_datetime(&utc).fix())?;
    let midnight = local.date().succ_opt()?.and_hms_opt(0, 0, 0)?;
    Some(tz.from_local_datetime(&midnight).single()?.timestamp())
}

impl ZonedTime {
    /// Whether `self` is an earlier instant than `other`.
    pub open spec fn before(self, other: ZonedTime) -> bool {
        self.secs < other.secs || (self.secs == other.secs && self.nanos < other.nanos)
    }

    /// Whether `self` is no later than `other`.
    pub open spec fn at_or_before(self, other: ZonedTime) -> bool {
        !other.before(self)
    }

    /// The local calendar day that the instant falls on.
    pub open spec fn local_day(self) -> Option<CalendarDay> {
        match local_date_of(self.zone.name@, self.secs) {
            Some(parts) => Some(CalendarDay::spec_from_parts(parts.0, parts.1, parts.2)),
            None => None,
        }
    }

    /// The instant in the same zone at the full second `secs`, where that is
    /// later than `self`.
    pub open spec fn spec_later_at(self, secs: Option<i64>) -> Option<ZonedTime> {
        match secs {
            Some(m) => if self.secs < m {
                Some(ZonedTime { zone: self.zone, secs: m, nanos: 0 })
            } else {
                None
            },
            None => None,
        }
    }

    /// The first local midnight after the instant's local day, where the time
    /// zone database gives one that is later than the instant.
    pub open spec fn next_midnight(self) -> Option<ZonedTime> {
        self.spec_later_at(next_midnight_of(self.zone.name@, self.secs))
    }

    /// Whether `self` and `other` are the same instant, in whatever zones.
    pub open spec fn same_instant(self, other: ZonedTime) -> bool {
        self.secs == other.secs && self.nanos == other.nanos
    }

    /// The instant itself for `n == 0`, and else the `n`-th of the local
    /// midnights that follow it, where the time zone database gives them all.
    pub open spec fn nth_midnight(self, n: nat) -> Option<ZonedTime>
        decreases n,
    {
        if n == 0 {
            Some(self)
        } else {
            match self.next_midnight() {
                Some(midnight) => midnight.nth_midnight((n - 1) as nat),
                None => None,
            }
        }
    }

    /// Whether `other` is one of the local midnights that follow `self`.
    pub open spec fn reaches_midnight(self, other: ZonedTime) -> bool {
        exists|n: nat| n >= 1 && self.nth_midnight(n) == Some(other)
    }

    /// Whether the local day stays the same from `self` up to the local
    /// midnight that follows it.
    pub open spec fn holds_local_day(self) -> bool {
        forall|later: ZonedTime|
            #![trigger later.local_day()]
            {
                &&& later.zone == self.zone
                &&& self.at_or_before(later)
                &&& self.next_midnight() matches Some(midnight)
                &&& later.before(midnight)
            } ==> later.local_day() == self.local_day()
    }

    /// The kind of the instant's local day under `calendar`.
    pub open spec fn kind_in(self, calendar: &HolidayCalendar) -> Option<DayKind> {
        match self.local_day() {
            Some(day) => Some(day.kind_in(calendar)),
            None => None,
        }
    }

    /// Executable form of [`ZonedTime::before`].
    pub fn is_before(&self, other: &ZonedTime) -> (b: bool)
        ensures
            b == self.before(*other),
    {
        self.secs < other.secs || (self.secs == other.secs && self.nanos < other.nanos)
    }

    /// Executable form of [`ZonedTime::at_or_before`].
    pub fn is_at_or_before(&self, other: &ZonedTime) -> (b: bool)
        ensures
            b == self.at_or_before(*other),
    {
        !other.is_before(self)
    }

    /// The local calendar day of the instant, or `None` where the time zone
    /// database has none for it.
    pub fn to_local_day(&self) -> (day: Option<CalendarDay>)
        ensures
            day == self.local_day(),
    {
        match local_date_at(self.zone.name, self.secs) {
            Some(parts) => Some(CalendarDay::from_parts(parts.0, parts.1, parts.2)),
            None => None,
        }
    }

    /// Takes `secs` for an instant in the zone of `self` if it is later than
    /// `self`: the search for the end of a run steps on only by such instants.
    pub fn later_at(&self, secs: Option<i64>) -> (later: Option<ZonedTime>)
        ensures
            later == self.spec_later_at(secs),
            later matches Some(m) ==> self.before(m),
    {
        match secs {
            Some(m) => if self.secs < m {
                Some(ZonedTime { zone: self.zone, secs: m, nanos: 0 })
            } else {
                None
            },
            None => None,
        }
    }

    /// The local midnight that ends the instant's local day, or `None` where
    /// the time zone database has none that is later than the instant.
    pub fn to_next_midnight(&self) -> (midnight: Option<ZonedTime>)
        ensures
            midnight == self.next_midnight(),
            midnight matches Some(m) ==> self.before(m) && m.zone == self.zone && m.nanos == 0,
    {
        self.later_at(next_midnight_at(self.zone.name, self.secs))
    }

    /// Classifies the instant's local day under `calendar`, or returns `None`
    /// where the instant has no local day.
    pub fn day_kind(&self, calendar: &HolidayCalendar) -> (kind: Option<DayKind>)
        ensures
            kind == self.kind_in(calendar),
    {
        match self.to_local_day() {
            Some(day) => Some(day.day_kind(calendar)),
            None => None,
        }
    }
}

/// The local midnights that follow an instant come later and later, and stay
/// in its zone.
pub proof fn midnights_ascend(t: ZonedTime, n: nat)
    ensures
        t.nth_midnight(n) matches Some(m) ==> {
            &&& m.zone == t.zone
            &&& t.at_or_before(m)
            &&& n >= 1 ==> t.secs < m.secs && m.nanos == 0
        },
    decreases n,
{
    if n > 0 {
        if let Some(midnight) = t.next_midnight() {
            midnights_ascend(midnight, (n - 1) as nat);
        }
    }
}

/// The `b`-th midnight after the `a`-th midnight is the `a + b`-th.
pub proof fn midnights_compose(t: ZonedTime, a: nat, b: nat)
    ensures
        t.nth_midnight(a + b) == match t.nth_midnight(a) {
            Some(m) => m.nth_midnight(b),
            None => None,
        },
    decreases a,
{
    if a > 0 {
        if let Some(midnight) = t.next_midnight() {
            midnights_compose(midnight, (a - 1) as nat, b);
            assert((a + b - 1) as nat == (a - 1) as nat + b);
        }
    }
}

/// The midnights before the `n`-th are given too, and are earlier.
pub proof fn earlier_midnights_exist(t: ZonedTime, n: nat, i: nat)
    requires
        t.nth_midnight(n) is Some,
        i <= n,
    ensures
        t.nth_midnight(i) matches Some(earlier) && earlier.nth_midnight((n - i) as nat)
            == t.nth_midnight(n) && (i < n ==> earlier.secs < t.nth_midnight(n)->0.secs),
{
    midnights_compose(t, i, (n - i) as nat);
    assert(i + (n - i) as nat == n);
    midnights_ascend(t.nth_midnight(i)->0, (n - i) as nat);
}

} // verus!
