//! Cutting time into the maximal runs of one kind of day.

use vstd::prelude::*;
use std::ops::Range;
use crate::calendar::HolidayCalendar;
use crate::error::DayKindError;
use crate::kind::DayKind;
use crate::run::{run_end, run_end_advances};
use crate::zoned::ZonedTime;

verus! {

/// A stretch of time on which the kind of day is constant.
#[derive(Debug, PartialEq, Eq)]
pub struct DayKindSlice {
    /// The instants of the slice: from `start` up to, not including, `end`.
    pub range: Range<ZonedTime>,
    /// The kind of every local day that the slice touches.
    pub kind: DayKind,
}

impl Clone for DayKindSlice {
    fn clone(&self) -> (copy: Self)
        ensures
            copy == *self,
    {
        DayKindSlice {
            range: Range { start: self.range.start, end: self.range.end },
            kind: self.kind,
        }
    }
}

/// The cursor of a slicing: where the next slice starts, where the slicing
/// stops (`None`: nowhere), and the calendar it classifies by.
#[derive(Debug)]
pub struct SliceIterator<'a> {
    pub start: ZonedTime,
    pub end: Option<ZonedTime>,
    pub calendar: &'a HolidayCalendar,
}

impl<'a> Clone for SliceIterator<'a> {
    fn clone(&self) -> (copy: Self)
        ensures
            copy == *self,
    {
        SliceIterator { start: self.start, end: self.end, calendar: self.calendar }
    }
}

impl<'a> SliceIterator<'a> {
    /// A slicing without an end, from `start` on.
    pub fn from_dt(start: ZonedTime, calendar: &'a HolidayCalendar) -> (slicing: Self)
        ensures
            slicing.start == start,
            slicing.end is None,
            slicing.calendar == calendar,
    {
        SliceIterator { start, end: None, calendar }
    }

    /// Whether the slicing has reached its end.
    pub open spec fn exhausted(self) -> bool {
        self.end matches Some(end) && end.at_or_before(self.start)
    }

    /// What [`SliceIterator::next`] yields in this state: nothing where the
    /// slicing is exhausted, and else the slice that starts at the cursor, has
    /// the kind of the cursor's local day and ends where that run ends.
    pub open spec fn spec_next(self) -> Result<Option<DayKindSlice>, DayKindError> {
        if self.exhausted() {
            Ok(None)
        } else {
            match self.start.kind_in(self.calendar) {
                None => Err(DayKindError::NoLocalDay),
                Some(kind) => match run_end(self.calendar, kind, self.start, self.end) {
                    Err(e) => Err(e),
                    Ok(end) => Ok(Some(DayKindSlice { range: (self.start..end), kind })),
                },
            }
        }
    }

    /// The state in which a slicing continues after it has yielded `slice`.
    pub open spec fn advanced(self, slice: DayKindSlice) -> Self {
        SliceIterator { start: slice.range.end, end: self.end, calendar: self.calendar }
    }

    /// The same slicing with its cursor at `start`.
    pub open spec fn resumed_at(self, start: ZonedTime) -> Self {
        SliceIterator { start, end: self.end, calendar: self.calendar }
    }

    /// Every slice that the slicing still yields, in order, or the error that
    /// stops it.
    pub open spec fn remaining(self) -> Result<Seq<DayKindSlice>, DayKindError>
        decreases i64::MAX - self.start.secs, u32::MAX - self.start.nanos,
    {
        match self.spec_next() {
            Err(e) => Err(e),
            Ok(None) => Ok(Seq::empty()),
            Ok(Some(slice)) => {
                proof {
                    self.next_advances();
                }
                match self.advanced(slice).remaining() {
                    Err(e) => Err(e),
                    Ok(rest) => Ok(seq![slice] + rest),
                }
            },
        }
    }

    /// A slice that is yielded starts at the cursor, is not empty, and does
    /// not reach beyond the end of the slicing.
    pub proof fn next_advances(self)
        ensures
            self.spec_next() matches Ok(Some(slice)) ==> {
                &&& slice.range.start == self.start
                &&& self.start.before(slice.range.end)
                &&& self.start.kind_in(self.calendar) == Some(slice.kind)
                &&& self.end matches Some(end) ==> slice.range.end.at_or_before(end)
            },
    {
        if !self.exhausted() {
            if let Some(kind) = self.start.kind_in(self.calendar) {
                run_end_advances(self.calendar, kind, self.start, self.end);
            }
        }
    }

    /// Yields the next slice and moves the cursor to its end.
    ///
    /// Returns `Ok(None)`, and leaves the cursor, once the cursor has reached
    /// the end of the slicing. Returns an error, and leaves the cursor, where
    /// the time zone database cannot say on which local day the cursor or a
    /// probed midnight falls, or has no next midnight to probe.
    pub fn next(&mut self) -> (out: Result<Option<DayKindSlice>, DayKindError>)
        ensures
            out == old(self).spec_next(),
            final(self).end == old(self).end,
            final(self).calendar == old(self).calendar,
            final(self).start == match out {
                Ok(Some(slice)) => slice.range.end,
                _ => old(self).start,
            },
            out == Ok::<Option<DayKindSlice>, DayKindError>(None) <==> old(self).exhausted(),
            out matches Ok(Some(slice)) ==> {
                &&& slice.range.start == old(self).start
                &&& slice.range.start.before(slice.range.end)
                &&& old(self).start.kind_in(old(self).calendar) == Some(slice.kind)
                &&& old(self).end matches Some(end) ==> slice.range.end.at_or_before(end)
            },
    {
        if let Some(end) = self.end {
            if end.is_at_or_before(&self.start) {
                return Ok(None);
            }
        }
        let start_kind = match self.start.day_kind(self.calendar) {
            Some(kind) => kind,
            None => {
                return Err(DayKindError::NoLocalDay);
            },
        };
        let mut step = self.start;

        loop
            invariant
                run_end(self.calendar, start_kind, step, self.end) == run_end(
                    self.calendar,
                    start_kind,
                    self.start,
                    self.end,
                ),
                *self == *old(self),
                !self.exhausted(),
                self.start.kind_in(self.calendar) == Some(start_kind),
            decreases i64::MAX - step.secs,
        {
            proof {
                self.next_advances();
            }
            let next_day = match step.to_next_midnight() {
                Some(midnight) => midnight,
                None => {
                    return Err(DayKindError::NoNextMidnight);
                },
            };

            // We reached the end of the slicing.
            if let Some(end) = self.end {
                if end.is_before(&next_day) {
                    let res = DayKindSlice { range: (self.start..end), kind: start_kind };

                    // Move the cursor forward to mark the end.
                    self.start = end;
                    return Ok(Some(res));
                }
            }
            match next_day.day_kind(self.calendar) {
                None => {
                    return Err(DayKindError::NoLocalDay);
                },
                Some(kind) => {
                    if kind != start_kind {
                        let res = DayKindSlice { range: (self.start..next_day), kind: start_kind };
                        self.start = next_day;
                        return Ok(Some(res));
                    }
                },
            }

            step = next_day;
        }
    }

    /// Runs the slicing to its end and returns the slices it yields, in
    /// order, or the error that stops it. A slicing without an end runs until
    /// the time zone database gives no further midnight, and so ends in an
    /// error.
    pub fn collect(self) -> (out: Result<Vec<DayKindSlice>, DayKindError>)
        ensures
            match out {
                Ok(slices) => self.remaining() == Ok::<Seq<DayKindSlice>, DayKindError>(slices@),
                Err(e) => self.remaining() == Err::<Seq<DayKindSlice>, DayKindError>(e),
            },
    {
        let mut slicing = self;
        let mut slices: Vec<DayKindSlice> = Vec::new();
        loop
            invariant
                match slicing.remaining() {
                    Ok(rest) => self.remaining() == Ok::<Seq<DayKindSlice>, DayKindError>(
                        slices@ + rest,
                    ),
                    Err(e) => self.remaining() == Err::<Seq<DayKindSlice>, DayKindError>(e),
                },
            decreases i64::MAX - slicing.start.secs, u32::MAX - slicing.start.nanos,
        {
            let ghost before = slicing;
            match slicing.next() {
                Err(e) => {
                    return Err(e);
                },
                Ok(None) => {
                    assert(slices@ + Seq::<DayKindSlice>::empty() =~= slices@);
                    return Ok(slices);
                },
                Ok(Some(slice)) => {
                    proof {
                        assert(slicing == before.advanced(slice));
                        if let Ok(rest) = slicing.remaining() {
                            assert(slices@ + (seq![slice] + rest) =~= slices@.push(slice) + rest);
                        }
                    }
                    slices.push(slice);
                },
            }
        }
    }
}

/// Slices `range` into the maximal runs of one kind of day under `calendar`.
///
/// The slicing starts at `range.start` and stops at `range.end`. Only the
/// instant of `range.end` is used: local days and midnights are those of the
/// zone of `range.start`. A range that ends before it starts is refused.
pub fn slice_on_day_kind<'a>(range: Range<ZonedTime>, calendar: &'a HolidayCalendar) -> (slicing:
    Result<SliceIterator<'a>, DayKindError>)
    ensures
        range.end.before(range.start) ==> slicing == Err::<SliceIterator<'a>, DayKindError>(
            DayKindError::InvalidRange,
        ),
        !range.end.before(range.start) ==> slicing == Ok::<SliceIterator<'a>, DayKindError>(
            SliceIterator { start: range.start, end: Some(range.end), calendar },
        ),
{
    if range.end.is_before(&range.start) {
        Err(DayKindError::InvalidRange)
    } else {
        Ok(SliceIterator { start: range.start, end: Some(range.end), calendar })
    }
}

} // verus!
