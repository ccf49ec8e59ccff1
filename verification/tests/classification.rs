use day_kind::{
    classify, day_kind, CalendarDay, DayKind, HasDayKind, HolidayCalendar, OrdinalDate, Weekday,
};

fn date(year: i32, ordinal: u32) -> OrdinalDate {
    OrdinalDate { year, ordinal }
}

fn day(year: i32, ordinal: u32, weekday: Weekday) -> CalendarDay {
    CalendarDay { date: date(year, ordinal), weekday }
}

const ALL_WEEKDAYS: [Weekday; 7] = [
    Weekday::Mon,
    Weekday::Tue,
    Weekday::Wed,
    Weekday::Thu,
    Weekday::Fri,
    Weekday::Sat,
    Weekday::Sun,
];

#[test]
fn classify_follows_the_rule_in_order() {
    // A Sunday is a holiday before the calendar is looked at.
    assert_eq!(classify(Weekday::Sun, 100, None), DayKind::Holiday);
    assert_eq!(classify(Weekday::Sun, 100, Some(101)), DayKind::Holiday);
    assert_eq!(classify(Weekday::Sun, 100, Some(200)), DayKind::Holiday);
    // The day is the upcoming holiday.
    assert_eq!(classify(Weekday::Wed, 100, Some(100)), DayKind::Holiday);
    assert_eq!(classify(Weekday::Sat, 100, Some(100)), DayKind::Holiday);
    // The upcoming holiday is tomorrow.
    assert_eq!(classify(Weekday::Wed, 100, Some(101)), DayKind::DayBeforeHoliday);
    // A Saturday comes before a Sunday.
    assert_eq!(classify(Weekday::Sat, 100, Some(150)), DayKind::DayBeforeHoliday);
    assert_eq!(classify(Weekday::Sat, 100, None), DayKind::DayBeforeHoliday);
    // Anything else.
    assert_eq!(classify(Weekday::Wed, 100, Some(102)), DayKind::Weekday);
    assert_eq!(classify(Weekday::Wed, 100, Some(99)), DayKind::Weekday);
    assert_eq!(classify(Weekday::Fri, 100, None), DayKind::Weekday);
}

#[test]
fn classify_at_the_edges_of_the_ordinals() {
    assert_eq!(classify(Weekday::Mon, 0, Some(0)), DayKind::Holiday);
    assert_eq!(classify(Weekday::Mon, 1, Some(0)), DayKind::Weekday);
    assert_eq!(classify(Weekday::Mon, 0, Some(1)), DayKind::DayBeforeHoliday);
    assert_eq!(classify(Weekday::Mon, u32::MAX, Some(0)), DayKind::Weekday);
    assert_eq!(classify(Weekday::Mon, u32::MAX, Some(u32::MAX)), DayKind::Holiday);
    assert_eq!(
        classify(Weekday::Mon, u32::MAX - 1, Some(u32::MAX)),
        DayKind::DayBeforeHoliday
    );
}

#[test]
fn every_sunday_is_a_holiday() {
    let empty = HolidayCalendar::new(vec![]);
    let listed = HolidayCalendar::new(vec![date(2020, 100), date(2020, 102)]);
    for ordinal in 1..=366 {
        let sunday = day(2020, ordinal, Weekday::Sun);
        assert_eq!(sunday.day_kind(&empty), DayKind::Holiday);
        assert_eq!(sunday.day_kind(&listed), DayKind::Holiday);
    }
}

#[test]
fn a_saturday_is_a_day_before_a_holiday_unless_listed() {
    let calendar = HolidayCalendar::new(vec![date(2020, 361), date(2021, 1)]);
    for ordinal in 1..=366 {
        let saturday = day(2020, ordinal, Weekday::Sat);
        let expected = if ordinal == 361 {
            DayKind::Holiday
        } else {
            DayKind::DayBeforeHoliday
        };
        assert_eq!(saturday.day_kind(&calendar), expected, "ordinal {}", ordinal);
    }
}

#[test]
fn a_listed_day_is_a_holiday_on_any_weekday() {
    let calendar = HolidayCalendar::new(vec![date(2020, 45)]);
    for weekday in ALL_WEEKDAYS {
        assert_eq!(day(2020, 45, weekday).day_kind(&calendar), DayKind::Holiday);
    }
}

#[test]
fn the_day_before_a_listed_day() {
    let calendar = HolidayCalendar::new(vec![date(2020, 45)]);
    assert_eq!(day(2020, 44, Weekday::Tue).day_kind(&calendar), DayKind::DayBeforeHoliday);
    assert_eq!(day(2020, 44, Weekday::Sun).day_kind(&calendar), DayKind::Holiday);
    assert_eq!(day(2020, 43, Weekday::Tue).day_kind(&calendar), DayKind::Weekday);
    assert_eq!(day(2020, 46, Weekday::Tue).day_kind(&calendar), DayKind::Weekday);
}

#[test]
fn a_holiday_that_is_also_an_eve_is_a_holiday() {
    let calendar = HolidayCalendar::new(vec![date(2020, 45), date(2020, 46)]);
    assert_eq!(day(2020, 45, Weekday::Tue).day_kind(&calendar), DayKind::Holiday);
    assert_eq!(day(2020, 46, Weekday::Wed).day_kind(&calendar), DayKind::Holiday);
}

#[test]
fn the_eve_is_not_found_across_the_turn_of_the_year() {
    // Only New Year's Day is listed: the last day of 2020, a Thursday, is then
    // an ordinary day.
    let bare = HolidayCalendar::new(vec![date(2021, 1)]);
    assert_eq!(day(2020, 366, Weekday::Thu).day_kind(&bare), DayKind::Weekday);
    // With New Year's Eve listed it is a holiday, and the day before it an eve.
    let full = HolidayCalendar::new(vec![date(2020, 366), date(2021, 1)]);
    assert_eq!(day(2020, 366, Weekday::Thu).day_kind(&full), DayKind::Holiday);
    assert_eq!(day(2020, 365, Weekday::Wed).day_kind(&full), DayKind::DayBeforeHoliday);
}

#[test]
fn ordinals_are_compared_without_the_year() {
    // The only holiday is a year away and has the day's ordinal.
    let calendar = HolidayCalendar::new(vec![date(2021, 6)]);
    assert_eq!(day(2020, 6, Weekday::Mon).day_kind(&calendar), DayKind::Holiday);
    assert_eq!(day(2020, 5, Weekday::Mon).day_kind(&calendar), DayKind::DayBeforeHoliday);
}

#[test]
fn the_free_function_agrees_with_the_method() {
    let calendar = HolidayCalendar::new(vec![date(2020, 45)]);
    for ordinal in 40..50 {
        for weekday in ALL_WEEKDAYS {
            let d = day(2020, ordinal, weekday);
            assert_eq!(day_kind(&d, &calendar), d.day_kind(&calendar));
        }
    }
}

#[test]
fn next_upcoming_holiday_is_inclusive() {
    let calendar = HolidayCalendar::new(vec![date(2020, 10), date(2020, 20)]);
    assert_eq!(calendar.next_upcoming_holiday(&date(2020, 10)), Some((10, date(2020, 10))));
    assert_eq!(calendar.next_upcoming_holiday(&date(2020, 20)), Some((20, date(2020, 20))));
}

#[test]
fn next_upcoming_holiday_is_the_earliest_that_is_not_past() {
    let calendar = HolidayCalendar::new(vec![
        date(2021, 1),
        date(2020, 200),
        date(2020, 20),
        date(2020, 100),
        date(2020, 20),
    ]);
    assert_eq!(calendar.next_upcoming_holiday(&date(2019, 300)), Some((20, date(2020, 20))));
    assert_eq!(calendar.next_upcoming_holiday(&date(2020, 1)), Some((20, date(2020, 20))));
    assert_eq!(calendar.next_upcoming_holiday(&date(2020, 21)), Some((100, date(2020, 100))));
    assert_eq!(calendar.next_upcoming_holiday(&date(2020, 101)), Some((200, date(2020, 200))));
    assert_eq!(calendar.next_upcoming_holiday(&date(2020, 201)), Some((1, date(2021, 1))));
    assert_eq!(calendar.next_upcoming_holiday(&date(2021, 1)), Some((1, date(2021, 1))));
}

#[test]
fn next_upcoming_holiday_is_none_past_the_last() {
    let calendar = HolidayCalendar::new(vec![date(2020, 10), date(2020, 20)]);
    assert_eq!(calendar.next_upcoming_holiday(&date(2020, 21)), None);
    assert_eq!(calendar.next_upcoming_holiday(&date(2021, 1)), None);
    assert_eq!(HolidayCalendar::new(vec![]).next_upcoming_holiday(&date(2020, 1)), None);
}

#[test]
fn dates_are_ordered_by_year_then_ordinal() {
    assert!(date(2020, 366).is_before(&date(2021, 1)));
    assert!(date(2020, 1).is_before(&date(2020, 2)));
    assert!(!date(2020, 2).is_before(&date(2020, 2)));
    assert!(!date(2021, 1).is_before(&date(2020, 366)));
    assert!(date(-1, 5).is_before(&date(0, 1)));
}

#[test]
fn weekdays_count_from_monday() {
    for (index, weekday) in ALL_WEEKDAYS.into_iter().enumerate() {
        assert_eq!(Weekday::from_monday_index(index as u32), weekday);
    }
    assert_eq!(Weekday::from_monday_index(7), Weekday::Sun);
    assert_eq!(Weekday::from_monday_index(u32::MAX), Weekday::Sun);
}
