//! What holds of every classification, every slicing and every search.

use vstd::prelude::*;
use crate::calendar::HolidayCalendar;
use crate::date::{CalendarDay, Weekday};
use crate::error::DayKindError;
use crate::kind::{DayKind, HasDayKind};
use crate::run::{
    run_end, run_end_advances, run_ends_at_first_change, run_ends_at_limit_or_change,
    run_is_constant, run_is_constant_by_day,
};
use crate::slicer::{DayKindSlice, SliceIterator};
use crate::zoned::{earlier_midnights_exist, midnights_compose, ZonedTime};

verus! {

/// Every Sunday is a holiday, whatever the calendar lists.
pub proof fn sunday_is_holiday(day: CalendarDay, calendar: &HolidayCalendar)
    requires
        day.weekday == Weekday::Sun,
    ensures
        day.kind_in(calendar) == DayKind::Holiday,
{
}

/// A Saturday is a day before a holiday, unless the first holiday on or after
/// it has the Saturday's own ordinal, as the Saturday itself has where the
/// calendar lists it: then it is a holiday.
pub proof fn saturday_is_day_before_holiday(day: CalendarDay, calendar: &HolidayCalendar)
    requires
        day.weekday == Weekday::Sat,
    ensures
        calendar.upcoming_ordinal(day.date) != Some(day.date.ordinal) ==> day.kind_in(calendar)
            == DayKind::DayBeforeHoliday,
        calendar.upcoming_ordinal(day.date) == Some(day.date.ordinal) ==> day.kind_in(calendar)
            == DayKind::Holiday,
        calendar.holidays@.contains(day.date) ==> day.kind_in(calendar) == DayKind::Holiday,
{
    if calendar.holidays@.contains(day.date) {
        calendar.listed_day_is_upcoming(day.date);
    }
}

/// A day that the calendar lists is a holiday.
pub proof fn listed_day_is_holiday(day: CalendarDay, calendar: &HolidayCalendar)
    requires
        calendar.holidays@.contains(day.date),
    ensures
        day.kind_in(calendar) == DayKind::Holiday,
{
    calendar.listed_day_is_upcoming(day.date);
}

/// Each slice of a slicing is what the slicing yields with its cursor at the
/// slice's start, and the slices after it are what the slicing yields from
/// the slice's end on. Every slice starts in the zone of the first; each but
/// the first starts where the one before it ends, at a local midnight that
/// follows the start of the slicing.
pub proof fn slice_is_yielded_at_its_start(
    slicing: SliceIterator<'_>,
    slices: Seq<DayKindSlice>,
    i: int,
)
    requires
        slicing.remaining() == Ok::<Seq<DayKindSlice>, DayKindError>(slices),
        0 <= i < slices.len(),
    ensures
        slicing.resumed_at(slices[i].range.start).spec_next() == Ok::<
            Option<DayKindSlice>,
            DayKindError,
        >(Some(slices[i])),
        slicing.resumed_at(slices[i].range.end).remaining() == Ok::<
            Seq<DayKindSlice>,
            DayKindError,
        >(slices.subrange(i + 1, slices.len() as int)),
        slices[i].range.start.zone == slicing.start.zone,
        i == 0 ==> slices[i].range.start == slicing.start,
        i > 0 ==> slices[i].range.start == slices[i - 1].range.end,
        i > 0 ==> slicing.start.reaches_midnight(slices[i].range.start),
    decreases i,
{
    slicing.next_advances();
    let first = slicing.spec_next()->Ok_0->0;
    let advanced = slicing.advanced(first);
    let rest = advanced.remaining()->Ok_0;
    assert(slices =~= seq![first] + rest);
    assert(slicing.resumed_at(slicing.start) == slicing);
    assert(slicing.resumed_at(first.range.end) == advanced);
    if i == 0 {
        assert(slices.subrange(1, slices.len() as int) =~= rest);
    } else {
        slice_is_yielded_at_its_start(advanced, rest, i - 1);
        assert(slices[i] == rest[i - 1]);
        assert(advanced.resumed_at(slices[i].range.start) == slicing.resumed_at(
            slices[i].range.start,
        ));
        assert(advanced.resumed_at(slices[i].range.end) == slicing.resumed_at(
            slices[i].range.end,
        ));
        assert(rest.subrange(i, rest.len() as int) =~= slices.subrange(
            i + 1,
            slices.len() as int,
        ));
        // The first slice does not end at the limit, for a slice follows it.
        advanced.next_advances();
        run_end_advances(slicing.calendar, first.kind, slicing.start, slicing.end);
        run_ends_at_limit_or_change(slicing.calendar, first.kind, slicing.start, slicing.end);
        assert(slicing.start.reaches_midnight(first.range.end));
        if i > 1 {
            let a = choose|n: nat| n >= 1 && slicing.start.nth_midnight(n) == Some(first.range.end);
            let b = choose|n: nat|
                n >= 1 && first.range.end.nth_midnight(n) == Some(slices[i].range.start);
            midnights_compose(slicing.start, a, b);
            assert(slicing.start.nth_midnight(a + b) == Some(slices[i].range.start));
        }
    }
}

/// Whether each slice but the first starts where the slice before it ends.
pub open spec fn each_follows_the_last(slices: Seq<DayKindSlice>) -> bool {
    forall|i: int, j: int|
        #![trigger slices[i], slices[j]]
        0 <= i && j == i + 1 && j < slices.len() ==> slices[i].range.end == slices[j].range.start
}

/// A slicing yields no slice, and stops without an error, only once its
/// cursor has reached its end.
pub proof fn nothing_remains_only_at_the_end(slicing: SliceIterator<'_>)
    requires
        slicing.remaining() == Ok::<Seq<DayKindSlice>, DayKindError>(Seq::empty()),
    ensures
        slicing.exhausted(),
{
    if let Ok(Some(more)) = slicing.spec_next() {
        if let Ok(rest) = slicing.advanced(more).remaining() {
            assert((seq![more] + rest).len() > 0);
        }
    }
}

/// The last slice of a slicing ends at the instant at which the slicing ends.
pub proof fn last_slice_ends_the_range(slicing: SliceIterator<'_>, slices: Seq<DayKindSlice>)
    requires
        slicing.remaining() == Ok::<Seq<DayKindSlice>, DayKindError>(slices),
        slices.len() > 0,
    ensures
        slicing.end matches Some(end) && slices.last().range.end.same_instant(end) && (end.zone
            == slicing.start.zone ==> slices.last().range.end == end),
{
    let last = slices.len() - 1;
    slice_is_yielded_at_its_start(slicing, slices, last);
    let at_last = slicing.resumed_at(slices[last].range.start);
    at_last.next_advances();
    run_end_advances(slicing.calendar, slices[last].kind, at_last.start, slicing.end);
    assert(slices.subrange(last + 1, slices.len() as int) =~= Seq::<DayKindSlice>::empty());
    nothing_remains_only_at_the_end(slicing.resumed_at(slices[last].range.end));
}

/// The slices of a slicing that ends cover its range exactly: no slice is
/// empty, each starts where the one before it ends, the first starts at the
/// start of the range and the last ends at its end. Only a slicing with an
/// end ends, and it yields no slice only where its range is empty.
pub proof fn slices_cover_the_range(slicing: SliceIterator<'_>, slices: Seq<DayKindSlice>)
    requires
        slicing.remaining() == Ok::<Seq<DayKindSlice>, DayKindError>(slices),
    ensures
        slicing.end is Some,
        forall|i: int|
            0 <= i < slices.len() ==> (#[trigger] slices[i]).range.start.before(
                slices[i].range.end,
            ),
        each_follows_the_last(slices),
        slices.len() == 0 <==> slicing.end->0.at_or_before(slicing.start),
        slices.len() > 0 ==> slices[0].range.start == slicing.start,
        slices.len() > 0 ==> slices.last().range.end.same_instant(slicing.end->0),
        slices.len() > 0 && slicing.end->0.zone == slicing.start.zone ==> slices.last().range.end
            == slicing.end->0,
{
    assert forall|i: int| 0 <= i < slices.len() implies (#[trigger] slices[i]).range.start.before(
        slices[i].range.end,
    ) by {
        slice_is_yielded_at_its_start(slicing, slices, i);
        slicing.resumed_at(slices[i].range.start).next_advances();
    }
    assert forall|i: int, j: int|
        #![trigger slices[i], slices[j]]
        0 <= i && j == i + 1 && j < slices.len() implies slices[i].range.end
        == slices[j].range.start by {
        slice_is_yielded_at_its_start(slicing, slices, j);
    }
    if slices.len() > 0 {
        slice_is_yielded_at_its_start(slicing, slices, 0);
        last_slice_ends_the_range(slicing, slices);
        slicing.next_advances();
    } else {
        assert(slices =~= Seq::<DayKindSlice>::empty());
        nothing_remains_only_at_the_end(slicing);
    }
}

/// In a row of slices that are not empty and of which each starts where the
/// one before it ends, a slice ends no later than any slice after it starts.
pub proof fn slices_in_a_row_are_in_order(slices: Seq<DayKindSlice>, i: int, j: int)
    requires
        forall|k: int|
            0 <= k < slices.len() ==> (#[trigger] slices[k]).range.start.before(
                slices[k].range.end,
            ),
        each_follows_the_last(slices),
        0 <= i < j < slices.len(),
    ensures
        slices[i].range.end.at_or_before(slices[j].range.start),
    decreases j - i,
{
    if i + 1 < j {
        slices_in_a_row_are_in_order(slices, i, j - 1);
        assert(slices[j - 1].range.start.before(slices[j - 1].range.end));
    }
    assert(slices[j - 1].range.end == slices[j].range.start);
}

/// In such a row, an instant no earlier than the start of the `i`-th slice
/// and earlier than the end of the last lies in the `i`-th slice or a later
/// one.
pub proof fn some_slice_in_a_row_holds(slices: Seq<DayKindSlice>, t: ZonedTime, i: int) -> (k: int)
    requires
        each_follows_the_last(slices),
        0 <= i < slices.len(),
        slices[i].range.start.at_or_before(t),
        t.before(slices.last().range.end),
    ensures
        i <= k < slices.len(),
        slices[k].range.start.at_or_before(t),
        t.before(slices[k].range.end),
    decreases slices.len() - i,
{
    if t.before(slices[i].range.end) {
        i
    } else {
        assert(slices[i].range.end == slices[i + 1].range.start);
        some_slice_in_a_row_holds(slices, t, i + 1)
    }
}

/// The slices of a slicing come in the order of time: a slice ends no later
/// than any slice after it starts.
pub proof fn slices_are_in_order(
    slicing: SliceIterator<'_>,
    slices: Seq<DayKindSlice>,
    i: int,
    j: int,
)
    requires
        slicing.remaining() == Ok::<Seq<DayKindSlice>, DayKindError>(slices),
        0 <= i < j < slices.len(),
    ensures
        slices[i].range.end.at_or_before(slices[j].range.start),
{
    slices_cover_the_range(slicing, slices);
    slices_in_a_row_are_in_order(slices, i, j);
}

/// Every instant of the range of a slicing lies in one of its slices, and in
/// no other.
pub proof fn every_instant_lies_in_one_slice(
    slicing: SliceIterator<'_>,
    slices: Seq<DayKindSlice>,
    t: ZonedTime,
) -> (i: int)
    requires
        slicing.remaining() == Ok::<Seq<DayKindSlice>, DayKindError>(slices),
        slicing.start.at_or_before(t),
        slicing.end matches Some(end) && t.before(end),
    ensures
        0 <= i < slices.len(),
        slices[i].range.start.at_or_before(t),
        t.before(slices[i].range.end),
        forall|j: int|
            0 <= j < slices.len() && (#[trigger] slices[j]).range.start.at_or_before(t) && t.before(
                slices[j].range.end,
            ) ==> j == i,
{
    slices_cover_the_range(slicing, slices);
    let i = some_slice_in_a_row_holds(slices, t, 0);
    assert forall|j: int|
        0 <= j < slices.len() && (#[trigger] slices[j]).range.start.at_or_before(t) && t.before(
            slices[j].range.end,
        ) implies j == i by {
        if i < j {
            slices_in_a_row_are_in_order(slices, i, j);
        } else if j < i {
            slices_in_a_row_are_in_order(slices, j, i);
        }
    }
    i
}

/// Two slices that follow one another are of different kinds.
pub proof fn adjacent_slices_differ(slicing: SliceIterator<'_>, slices: Seq<DayKindSlice>, i: int)
    requires
        slicing.remaining() == Ok::<Seq<DayKindSlice>, DayKindError>(slices),
        0 < i < slices.len(),
    ensures
        slices[i - 1].kind != slices[i].kind,
{
    slice_is_yielded_at_its_start(slicing, slices, i - 1);
    slice_is_yielded_at_its_start(slicing, slices, i);
    let before = slicing.resumed_at(slices[i - 1].range.start);
    let after = slicing.resumed_at(slices[i].range.start);
    before.next_advances();
    after.next_advances();
    run_ends_at_limit_or_change(slicing.calendar, slices[i - 1].kind, before.start, slicing.end);
}

/// Where one slice ends and the next starts is a local midnight that follows
/// the start of the slicing.
pub proof fn inner_boundaries_are_midnights(
    slicing: SliceIterator<'_>,
    slices: Seq<DayKindSlice>,
    i: int,
)
    requires
        slicing.remaining() == Ok::<Seq<DayKindSlice>, DayKindError>(slices),
        0 <= i < slices.len() - 1,
    ensures
        slicing.start.reaches_midnight(slices[i].range.end),
        slices[i].range.end == slices[i + 1].range.start,
{
    slice_is_yielded_at_its_start(slicing, slices, i + 1);
}

/// A slice has the kind of the local day of its start and of every local
/// midnight inside it.
pub proof fn slices_are_constant_by_day(
    slicing: SliceIterator<'_>,
    slices: Seq<DayKindSlice>,
    i: int,
    n: nat,
)
    requires
        slicing.remaining() == Ok::<Seq<DayKindSlice>, DayKindError>(slices),
        0 <= i < slices.len(),
    ensures
        slices[i].range.start.nth_midnight(n) matches Some(m) ==> m.before(slices[i].range.end)
            ==> m.kind_in(slicing.calendar) == Some(slices[i].kind),
{
    slice_is_yielded_at_its_start(slicing, slices, i);
    let at = slicing.resumed_at(slices[i].range.start);
    at.next_advances();
    if n >= 1 {
        run_is_constant_by_day(slicing.calendar, slices[i].kind, at.start, slicing.end, n);
    }
}

/// Every instant of a slice, read in the zone of the slicing, falls on a day
/// of the slice's kind, provided that throughout the slice the local day stays
/// the same from an instant up to the local midnight that follows it.
pub proof fn slices_are_constant(
    slicing: SliceIterator<'_>,
    slices: Seq<DayKindSlice>,
    i: int,
    t: ZonedTime,
)
    requires
        slicing.remaining() == Ok::<Seq<DayKindSlice>, DayKindError>(slices),
        0 <= i < slices.len(),
        t.zone == slicing.start.zone,
        slices[i].range.start.at_or_before(t),
        t.before(slices[i].range.end),
        forall|m: ZonedTime|
            m.zone == slicing.start.zone && slices[i].range.start.at_or_before(m) && m.at_or_before(
                t,
            ) ==> #[trigger] m.holds_local_day(),
    ensures
        t.kind_in(slicing.calendar) == Some(slices[i].kind),
{
    slice_is_yielded_at_its_start(slicing, slices, i);
    let at = slicing.resumed_at(slices[i].range.start);
    at.next_advances();
    run_is_constant(slicing.calendar, slices[i].kind, at.start, slicing.end, t);
}

/// Where the local day of `from` is of the kind sought, the search returns
/// `from`.
pub proof fn next_start_is_inclusive(target: DayKind, from: ZonedTime, calendar: &HolidayCalendar)
    requires
        from.kind_in(calendar) == Some(target),
    ensures
        target.spec_next_start(from, calendar) == Ok::<ZonedTime, DayKindError>(from),
{
}

/// What the search returns is the first of `from` and the local midnights
/// after it that falls on a day of the kind sought.
pub proof fn next_start_finds_first_day(
    target: DayKind,
    from: ZonedTime,
    calendar: &HolidayCalendar,
)
    ensures
        target.spec_next_start(from, calendar) matches Ok(found) ==> exists|n: nat|
            target.first_starts_at(from, calendar, n, found),
    decreases i64::MAX - from.secs,
{
    if let Ok(found) = target.spec_next_start(from, calendar) {
        let kind = from.kind_in(calendar)->0;
        if kind == target {
            assert(target.first_starts_at(from, calendar, 0, found));
        } else {
            let end = run_end(calendar, kind, from, None)->Ok_0;
            run_end_advances(calendar, kind, from, None);
            run_ends_at_limit_or_change(calendar, kind, from, None);
            next_start_finds_first_day(target, end, calendar);
            let a = choose|a: nat| a >= 1 && from.nth_midnight(a) == Some(end);
            let b = choose|b: nat| target.first_starts_at(end, calendar, b, found);
            midnights_compose(from, a, b);
            assert forall|i: nat| i < a + b implies {
                &&& (#[trigger] from.nth_midnight(i)) matches Some(earlier)
                &&& earlier.kind_in(calendar) matches Some(k)
                &&& k != target
            } by {
                if i < a {
                    earlier_midnights_exist(from, a, i);
                    if i >= 1 {
                        run_is_constant_by_day(calendar, kind, from, None, i);
                    }
                } else {
                    midnights_compose(from, a, (i - a) as nat);
                    assert(a + (i - a) as nat == i);
                    assert(end.nth_midnight((i - a) as nat) == from.nth_midnight(i));
                }
            }
            assert(target.first_starts_at(from, calendar, a + b, found));
        }
    }
}

/// Where one of `from` and the local midnights after it is the first to fall
/// on a day of the kind sought, the search returns it.
pub proof fn next_start_finds_every_first_day(
    target: DayKind,
    from: ZonedTime,
    calendar: &HolidayCalendar,
    n: nat,
    found: ZonedTime,
)
    requires
        target.first_starts_at(from, calendar, n, found),
    ensures
        target.spec_next_start(from, calendar) == Ok::<ZonedTime, DayKindError>(found),
    decreases n,
{
    if n > 0 {
        assert(from.nth_midnight(0) == Some(from));
        let kind = from.kind_in(calendar)->0;
        run_ends_at_first_change(calendar, kind, from, n);
        let end = run_end(calendar, kind, from, None)->Ok_0;
        let j = choose|j: nat| 1 <= j <= n && from.nth_midnight(j) == Some(end);
        midnights_compose(from, j, (n - j) as nat);
        assert(j + (n - j) as nat == n);
        assert forall|i: nat| i < n - j implies {
            &&& (#[trigger] end.nth_midnight(i)) matches Some(earlier)
            &&& earlier.kind_in(calendar) matches Some(k)
            &&& k != target
        } by {
            midnights_compose(from, j, i);
            assert(from.nth_midnight(j + i) == end.nth_midnight(i));
        }
        assert(target.first_starts_at(end, calendar, (n - j) as nat, found));
        next_start_finds_every_first_day(target, end, calendar, (n - j) as nat, found);
    }
}

} // verus!
