//! Calendar dates and the month partitioner: an inclusive day range that is
//! aligned to month boundaries is split into one `(first day, last day)`
//! pair per calendar month, in chronological order, with no gaps and no
//! overlaps.

use vstd::prelude::*;

verus! {

/// The earliest year a `Date` may hold.
pub const MIN_YEAR: i64 = -262143;

/// The latest year a `Date` may hold.
pub const MAX_YEAR: i64 = 262143;

/// A proleptic Gregorian calendar date.
#[derive(Clone, Copy, PartialEq, Eq, Structural, Debug)]
pub struct Date {
    pub year: i64,
    pub month: u8,
    pub day: u8,
}

pub open spec fn spec_is_leap_year(year: int) -> bool {
    (year % 4 == 0 && year % 100 != 0) || year % 400 == 0
}

pub open spec fn spec_days_in_month(year: int, month: int) -> int {
    if month == 2 {
        if spec_is_leap_year(year) {
            29
        } else {
            28
        }
    } else if month == 4 || month == 6 || month == 9 || month == 11 {
        30
    } else {
        31
    }
}

/// The months elapsed from year zero, January: a total order on the months
/// of the calendar.
pub open spec fn spec_month_index(d: Date) -> int {
    d.year * 12 + d.month - 1
}

/// The calendar day after `d`, ignoring the year bounds.
pub open spec fn spec_next_day(d: Date) -> Date {
    if d.day < spec_days_in_month(d.year as int, d.month as int) {
        Date { year: d.year, month: d.month, day: (d.day + 1) as u8 }
    } else if d.month < 12 {
        Date { year: d.year, month: (d.month + 1) as u8, day: 1 }
    } else {
        Date { year: (d.year + 1) as i64, month: 1, day: 1 }
    }
}

impl Date {
    /// Within the supported year span, with a month and a day the calendar
    /// has.
    pub open spec fn valid(self) -> bool {
        &&& MIN_YEAR <= self.year <= MAX_YEAR
        &&& 1 <= self.month <= 12
        &&& 1 <= self.day <= spec_days_in_month(self.year as int, self.month as int)
    }

    pub fn new(year: i64, month: u8, day: u8) -> (r: Date)
        ensures
            r.year == year,
            r.month == month,
            r.day == day,
    {
        Date { year, month, day }
    }
}

fn is_leap_year(year: i64) -> (r: bool)
    requires
        MIN_YEAR <= year <= MAX_YEAR,
    ensures
        r == spec_is_leap_year(year as int),
{
    (year % 4 == 0 && year % 100 != 0) || year % 400 == 0
}

fn days_in_month(year: i64, month: u8) -> (r: u8)
    requires
        MIN_YEAR <= year <= MAX_YEAR,
        1 <= month <= 12,
    ensures
        r == spec_days_in_month(year as int, month as int),
{
    if month == 2 {
        if is_leap_year(year) {
            29
        } else {
            28
        }
    } else if month == 4 || month == 6 || month == 9 || month == 11 {
        30
    } else {
        31
    }
}

/// A month-boundary violation of the requested range: the range must run
/// from the first day of a month to the last day of a month.
#[derive(Clone, Copy, PartialEq, Eq, Structural, Debug)]
pub enum InvalidRangeError {
    FromNotFirstDay,
    ToNotLastDay,
}

impl InvalidRangeError {
    /// The wording the command line reports for this violation.
    pub fn message(&self) -> (r: String)
        ensures
            *self is FromNotFirstDay ==> r@ == "from must be 1st day of month"@,
            *self is ToNotLastDay ==> r@ == "to must be last day of month"@,
    {
        match self {
            InvalidRangeError::FromNotFirstDay => "from must be 1st day of month".to_string(),
            InvalidRangeError::ToNotLastDay => "to must be last day of month".to_string(),
        }
    }
}

/// The first day of the month `i` months after `from`'s month.
pub open spec fn spec_nth_month_start(from: Date, i: int) -> Date {
    let m = spec_month_index(from) + i;
    Date { year: (m / 12) as i64, month: (m % 12 + 1) as u8, day: 1 }
}

/// The last day of the month `i` months after `from`'s month.
pub open spec fn spec_nth_month_end(from: Date, i: int) -> Date {
    let start = spec_nth_month_start(from, i);
    Date {
        year: start.year,
        month: start.month,
        day: spec_days_in_month(start.year as int, start.month as int) as u8,
    }
}

/// Splits the inclusive range `[from, to]` into one `(month_start,
/// month_end)` pair per calendar month.
///
/// The range must be month-aligned: `from` the first day of its month and
/// `to` the last day of its month, or the matching error is returned. On
/// success the pairs cover every month from `from`'s through `to`'s in
/// order: the first pair starts at `from`, the last pair ends exactly at
/// `to`, and each pair begins on the day after the previous pair ends.
pub fn get_monthly_date_ranges(from: Date, to: Date) -> (r: Result<
    Vec<(Date, Date)>,
    InvalidRangeError,
>)
    requires
        from.valid(),
        to.valid(),
        from.day == 1 && to.day == spec_days_in_month(to.year as int, to.month as int)
            ==> spec_month_index(from) <= spec_month_index(to),
    ensures
        from.day != 1 <==> r == Result::<Vec<(Date, Date)>, InvalidRangeError>::Err(
            InvalidRangeError::FromNotFirstDay,
        ),
        from.day == 1 && to.day != spec_days_in_month(to.year as int, to.month as int) <==> r
            == Result::<Vec<(Date, Date)>, InvalidRangeError>::Err(
            InvalidRangeError::ToNotLastDay,
        ),
        r is Ok <==> from.day == 1 && to.day == spec_days_in_month(
            to.year as int,
            to.month as int,
        ),
        r is Ok ==> {
            let months = r->Ok_0@;
            &&& months.len() == spec_month_index(to) - spec_month_index(from) + 1
            &&& forall|i: int|
                0 <= i < months.len() ==> #[trigger] months[i] == (
                spec_nth_month_start(from, i),
                spec_nth_month_end(from, i),
            )
            &&& months[0].0 == from
            &&& months[months.len() - 1].1 == to
            &&& forall|i: int|
                0 <= i < months.len() - 1 ==> (#[trigger] months[i + 1]).0 == spec_next_day(
                    months[i].1,
                )
        },
{
    if from.day != 1 {
        return Err(InvalidRangeError::FromNotFirstDay);
    }
    if to.day != days_in_month(to.year, to.month) {
        return Err(InvalidRangeError::ToNotLastDay);
    }

    let mut result: Vec<(Date, Date)> = Vec::new();
    let mut start = from;

    proof {
        assert(spec_nth_month_start(from, 0) == from) by {
            lemma_month_index_roundtrip(from);
        }
    }

    loop
        invariant_except_break
            start.valid(),
            start.day == 1,
            spec_month_index(from) <= spec_month_index(start) <= spec_month_index(to),
            start == spec_nth_month_start(from, result@.len() as int),
            result@.len() == spec_month_index(start) - spec_month_index(from),
        invariant
            from.valid(),
            to.valid(),
            from.day == 1,
            to.day == spec_days_in_month(to.year as int, to.month as int),
            forall|i: int|
                0 <= i < result@.len() ==> #[trigger] result@[i] == (
                spec_nth_month_start(from, i),
                spec_nth_month_end(from, i),
            ),
        ensures
            result@.len() == spec_month_index(to) - spec_month_index(from) + 1,
            forall|i: int|
                0 <= i < result@.len() ==> #[trigger] result@[i] == (
                spec_nth_month_start(from, i),
                spec_nth_month_end(from, i),
            ),
        decreases spec_month_index(to) - spec_month_index(start),
    {
        let end = Date::new(start.year, start.month, days_in_month(start.year, start.month));
        proof {
            lemma_month_index_roundtrip(start);
            assert(end == spec_nth_month_end(from, result@.len() as int));
        }
        result.push((start, end));
        if to.year == end.year && to.month == end.month && to.day == end.day {
            proof {
                assert(end == to);
                assert(result@.len() == spec_month_index(to) - spec_month_index(from) + 1);
            }
            break;
        }
        proof {
            // `to` lies in a strictly later month: were the months equal,
            // both being last days would force `end == to`.
            if spec_month_index(start) == spec_month_index(to) {
                lemma_month_index_injective(start, to);
                assert(false);
            }
        }
        start = if start.month == 12 {
            Date::new(start.year + 1, 1, 1)
        } else {
            Date::new(start.year, start.month + 1, 1)
        };
        proof {
            lemma_next_month_start(from, result@.len() as int - 1, start);
        }
    }

    proof {
        let months = result@;
        let last = months.len() - 1;
        assert(months.len() >= 1);
        assert(months[last] == (spec_nth_month_start(from, last), spec_nth_month_end(from, last)));
        assert(spec_month_index(spec_nth_month_start(from, last)) == spec_month_index(from) + last)
            by {
            lemma_nth_month_start_index(from, last);
        }
        assert(months[last].1 == to) by {
            lemma_month_index_injective(months[last].1, to);
        }
        assert(months[0].0 == from) by {
            lemma_month_index_roundtrip(from);
        }
        assert(forall|i: int|
            0 <= i < months.len() - 1 ==> (#[trigger] months[i + 1]).0 == spec_next_day(
                months[i].1,
            )) by {
            assert forall|i: int|
                0 <= i < months.len() - 1 implies (#[trigger] months[i + 1]).0 == spec_next_day(
                months[i].1,
            ) by {
                lemma_month_start_follows_month_end(from, i);
            }
        }
    }
    Ok(result)
}

/// The month index of the `i`-th month start is `i` past `from`'s.
proof fn lemma_nth_month_start_index(from: Date, i: int)
    requires
        MIN_YEAR * 12 <= spec_month_index(from) + i <= MAX_YEAR * 12 + 11,
    ensures
        spec_month_index(spec_nth_month_start(from, i)) == spec_month_index(from) + i,
        spec_nth_month_start(from, i).day == 1,
        1 <= spec_nth_month_start(from, i).month <= 12,
        MIN_YEAR <= spec_nth_month_start(from, i).year <= MAX_YEAR,
{
    let m = spec_month_index(from) + i;
    let start = spec_nth_month_start(from, i);
    assert(0 <= m % 12 < 12 && m == 12 * (m / 12) + m % 12) by (nonlinear_arith);
    assert(MIN_YEAR <= m / 12 <= MAX_YEAR) by (nonlinear_arith)
        requires
            MIN_YEAR * 12 <= m <= MAX_YEAR * 12 + 11,
    ;
    assert(start.year == m / 12);
    assert(start.month == m % 12 + 1);
    assert(spec_month_index(start) == (m / 12) * 12 + m % 12) by (nonlinear_arith)
        requires
            start.year == m / 12,
            start.month == m % 12 + 1,
            spec_month_index(start) == start.year * 12 + start.month - 1,
    ;
}

/// Recovering year and month from a first-of-month date's month index gives
/// the date back.
proof fn lemma_month_index_roundtrip(d: Date)
    requires
        1 <= d.month <= 12,
        d.day == 1,
    ensures
        spec_nth_month_start(d, 0) == d,
{
    let m = spec_month_index(d);
    assert(m == d.year * 12 + (d.month - 1));
    assert(m / 12 == d.year && m % 12 == d.month - 1) by (nonlinear_arith)
        requires
            m == d.year * 12 + (d.month - 1),
            0 <= d.month - 1 < 12,
    ;
}

/// Two dates of one month with the same day of month are equal.
proof fn lemma_month_index_injective(a: Date, b: Date)
    requires
        1 <= a.month <= 12,
        1 <= b.month <= 12,
        spec_month_index(a) == spec_month_index(b),
        a.day == b.day,
    ensures
        a == b,
{
    assert(a.year == b.year && a.month == b.month) by (nonlinear_arith)
        requires
            a.year * 12 + a.month - 1 == b.year * 12 + b.month - 1,
            1 <= a.month <= 12,
            1 <= b.month <= 12,
    ;
}

/// Stepping to the next calendar month advances the month index by one.
proof fn lemma_next_month_start(from: Date, i: int, next: Date)
    requires
        next.day == 1,
        1 <= next.month <= 12,
        MIN_YEAR * 12 <= spec_month_index(from) + i <= MAX_YEAR * 12 + 11,
        spec_month_index(next) == spec_month_index(from) + i + 1,
    ensures
        next == spec_nth_month_start(from, i + 1),
{
    lemma_month_index_roundtrip(next);
    assert(spec_nth_month_start(next, 0) == spec_nth_month_start(from, i + 1));
}

/// Each month's first day is the day after the previous month's last day.
proof fn lemma_month_start_follows_month_end(from: Date, i: int)
    requires
        MIN_YEAR * 12 <= spec_month_index(from) + i,
        spec_month_index(from) + i + 1 <= MAX_YEAR * 12 + 11,
    ensures
        spec_nth_month_start(from, i + 1) == spec_next_day(spec_nth_month_end(from, i)),
{
    lemma_nth_month_start_index(from, i);
    let m = spec_month_index(from) + i;
    let start = spec_nth_month_start(from, i);
    let end = spec_nth_month_end(from, i);
    assert(end.year == start.year && end.month == start.month);
    assert(spec_month_index(end) == m);
    let next = spec_next_day(end);
    assert(end.day == spec_days_in_month(end.year as int, end.month as int));
    assert(next.day == 1);
    if end.month < 12 {
        assert(spec_month_index(next) == m + 1);
    } else {
        assert(next.year == end.year + 1 && next.month == 1);
        assert(spec_month_index(next) == (end.year + 1) * 12) by (nonlinear_arith)
            requires
                spec_month_index(next) == next.year * 12 + next.month - 1,
                next.year == end.year + 1,
                next.month == 1,
        ;
        assert(spec_month_index(end) == end.year * 12 + 11);
        assert(spec_month_index(next) == m + 1) by (nonlinear_arith)
            requires
                spec_month_index(next) == (end.year + 1) * 12,
                end.year * 12 + 11 == m,
    ;
    }
    lemma_next_month_start(from, i, next);
}

} // verus!
