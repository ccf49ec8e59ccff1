use chrono::{Datelike, TimeZone};
use chrono_tz::{Tz, TZ_VARIANTS};
use day_kind::{
    CalendarDay, DayKind, HolidayCalendar, OrdinalDate, Weekday, Zone, ZonedTime,
};

fn at(zone: &'static str, secs: i64) -> ZonedTime {
    ZonedTime { zone: Zone { name: zone }, secs, nanos: 0 }
}

fn day(year: i32, ordinal: u32, weekday: Weekday) -> CalendarDay {
    CalendarDay { date: OrdinalDate { year, ordinal }, weekday }
}

#[test]
fn local_day_of_a_stockholm_midnight() {
    // 2020-09-17 00:00:00 +02:00, a Thursday, the 261st day of the year.
    assert_eq!(
        at("Europe/Stockholm", 1600293600).to_local_day(),
        Some(day(2020, 261, Weekday::Thu))
    );
    // One second earlier it is still Wednesday.
    assert_eq!(
        at("Europe/Stockholm", 1600293599).to_local_day(),
        Some(day(2020, 260, Weekday::Wed))
    );
}

#[test]
fn local_day_is_read_in_the_zone() {
    // 2020-12-31 23:30:00 UTC is half past midnight on New Year's Day in
    // Stockholm.
    assert_eq!(at("UTC", 1609457400).to_local_day(), Some(day(2020, 366, Weekday::Thu)));
    assert_eq!(
        at("Europe/Stockholm", 1609457400).to_local_day(),
        Some(day(2021, 1, Weekday::Fri))
    );
    assert_eq!(
        at("America/New_York", 1609457400).to_local_day(),
        Some(day(2020, 366, Weekday::Thu))
    );
}

#[test]
fn local_day_ignores_the_nanoseconds() {
    let mut t = at("Europe/Stockholm", 1600293599);
    t.nanos = 999_999_999;
    assert_eq!(t.to_local_day(), Some(day(2020, 260, Weekday::Wed)));
}

#[test]
fn local_day_agrees_with_chrono_in_every_zone() {
    for tz in TZ_VARIANTS {
        for secs in [0i64, 1600293600, 1603576800, -3225223727, 4102444800] {
            let dt = tz.timestamp_opt(secs, 0).unwrap();
            let expected = day(
                dt.year(),
                dt.ordinal(),
                Weekday::from_monday_index(dt.weekday().num_days_from_monday()),
            );
            assert_eq!(at(tz.name(), secs).to_local_day(), Some(expected), "{}", tz.name());
        }
    }
}

#[test]
fn an_unknown_zone_has_no_local_day() {
    assert_eq!(at("Europe/Atlantis", 1600293600).to_local_day(), None);
    assert_eq!(at("", 1600293600).to_local_day(), None);
    assert_eq!(at("Europe/Atlantis", 1600293600).to_next_midnight(), None);
    assert_eq!(
        at("Europe/Atlantis", 1600293600).day_kind(&HolidayCalendar::new(vec![])),
        None
    );
}

#[test]
fn an_instant_out_of_range_has_no_local_day() {
    assert_eq!(at("Europe/Stockholm", i64::MAX).to_local_day(), None);
    assert_eq!(at("Europe/Stockholm", i64::MIN).to_local_day(), None);
    assert_eq!(at("Europe/Stockholm", i64::MAX).to_next_midnight(), None);
    assert_eq!(at("Europe/Stockholm", i64::MIN).to_next_midnight(), None);
}

#[test]
fn next_midnight_from_midnight_and_from_midday() {
    let midnight = at("Europe/Stockholm", 1600293600);
    let next = at("Europe/Stockholm", 1600380000);
    assert_eq!(midnight.to_next_midnight(), Some(next));
    assert_eq!(at("Europe/Stockholm", 1600293600 + 12 * 3600).to_next_midnight(), Some(next));
    assert_eq!(at("Europe/Stockholm", 1600380000 - 1).to_next_midnight(), Some(next));
}

#[test]
fn next_midnight_drops_the_nanoseconds() {
    let mut t = at("Europe/Stockholm", 1600380000 - 1);
    t.nanos = 999_999_999;
    assert_eq!(t.to_next_midnight(), Some(at("Europe/Stockholm", 1600380000)));
}

#[test]
fn next_midnight_follows_the_wall_clock_over_a_clock_change() {
    // 2020-10-25 has 25 hours in Stockholm, 2020-03-29 has 23.
    assert_eq!(
        at("Europe/Stockholm", 1603576800).to_next_midnight(),
        Some(at("Europe/Stockholm", 1603576800 + 25 * 3600))
    );
    assert_eq!(
        at("Europe/Stockholm", 1585436400).to_next_midnight(),
        Some(at("Europe/Stockholm", 1585436400 + 23 * 3600))
    );
}

#[test]
fn next_midnight_is_missing_where_the_clocks_skip_it() {
    // In São Paulo the clocks went from 2018-11-04 00:00 straight to 01:00.
    let noon_before = at("America/Sao_Paulo", 1541257200);
    assert_eq!(
        noon_before.to_local_day(),
        Some(day(2018, 307, Weekday::Sat))
    );
    assert_eq!(noon_before.to_next_midnight(), None);
}

#[test]
fn next_midnight_agrees_with_chrono_in_every_zone() {
    for tz in TZ_VARIANTS {
        for secs in [0i64, 1600293600, 1603576800, 1585436400, 1541257200] {
            let local = tz.timestamp_opt(secs, 0).unwrap().naive_local();
            let midnight = local.date().succ_opt().unwrap().and_hms_opt(0, 0, 0).unwrap();
            let expected = tz
                .from_local_datetime(&midnight)
                .single()
                .map(|dt| at(tz.name(), dt.timestamp()));
            assert_eq!(at(tz.name(), secs).to_next_midnight(), expected, "{}", tz.name());
        }
    }
}

#[test]
fn zone_names_round_trip() {
    for tz in TZ_VARIANTS {
        let parsed: Tz = tz.name().parse().unwrap();
        assert_eq!(parsed, tz);
    }
}

#[test]
fn instants_are_ordered_by_seconds_then_nanoseconds() {
    let a = ZonedTime { zone: Zone { name: "UTC" }, secs: 10, nanos: 5 };
    let b = ZonedTime { zone: Zone { name: "UTC" }, secs: 10, nanos: 6 };
    let c = ZonedTime { zone: Zone { name: "Europe/Stockholm" }, secs: 11, nanos: 0 };
    let d = ZonedTime { zone: Zone { name: "Europe/Stockholm" }, secs: -11, nanos: u32::MAX };
    assert!(a.is_before(&b));
    assert!(!b.is_before(&a));
    assert!(!a.is_before(&a));
    assert!(b.is_before(&c));
    assert!(d.is_before(&a));
    assert!(a.is_at_or_before(&a));
    assert!(a.is_at_or_before(&b));
    assert!(!c.is_at_or_before(&b));
}

#[test]
fn the_kind_of_an_instant_is_that_of_its_local_day() {
    // Sweden's National Day, 2020-06-06, was a Saturday.
    let calendar = HolidayCalendar::new(vec![OrdinalDate { year: 2020, ordinal: 158 }]);
    let friday_noon = at("Europe/Stockholm", 1591351200);
    assert_eq!(friday_noon.to_local_day(), Some(day(2020, 157, Weekday::Fri)));
    assert_eq!(friday_noon.day_kind(&calendar), Some(DayKind::DayBeforeHoliday));
    assert_eq!(
        at("Europe/Stockholm", 1591351200 + 86400).day_kind(&calendar),
        Some(DayKind::Holiday)
    );
    assert_eq!(
        at("Europe/Stockholm", 1591351200 - 86400).day_kind(&calendar),
        Some(DayKind::Weekday)
    );
}

#[test]
fn only_a_later_second_is_taken_for_the_next_midnight() {
    let t = ZonedTime { zone: Zone { name: "UTC" }, secs: 100, nanos: 7 };
    assert_eq!(t.later_at(None), None);
    assert_eq!(t.later_at(Some(99)), None);
    assert_eq!(t.later_at(Some(100)), None);
    assert_eq!(t.later_at(Some(101)), Some(at("UTC", 101)));
    assert_eq!(t.later_at(Some(i64::MAX)), Some(at("UTC", i64::MAX)));
}

#[test]
fn a_calendar_day_from_its_parts() {
    assert_eq!(CalendarDay::from_parts(2020, 261, 3), day(2020, 261, Weekday::Thu));
    assert_eq!(CalendarDay::from_parts(-5, 1, 0), day(-5, 1, Weekday::Mon));
    assert_eq!(CalendarDay::from_parts(2020, 366, 9), day(2020, 366, Weekday::Sun));
}
