//! Working-day arithmetic on dates given as day numbers counted from
//! 1970-01-01 (a Thursday).  The embedding program converts calendar
//! dates to and from day numbers.

use vstd::prelude::*;

verus! {

/// Upper bound on day numbers this module handles (several million
/// years; keeps every intermediate sum inside `i64`).
pub const MAX_DAY: i64 = 1000000000000;

/// The weekday of a day number: 0 is Sunday through 6 is Saturday.
/// Day 0, 1970-01-01, was a Thursday (4).
pub open spec fn spec_weekday(day: int) -> int {
    (day + 4) % 7
}

/// The same day if it is a weekday; the following Monday for a weekend
/// day.
pub open spec fn spec_next_working_day(day: int) -> int {
    if spec_weekday(day) == 6 {
        day + 2
    } else if spec_weekday(day) == 0 {
        day + 1
    } else {
        day
    }
}

/// `rem` more working days after `day`, one at a time.
pub open spec fn spec_add_working_days(day: int, rem: int) -> int
    decreases rem,
{
    if rem <= 0 {
        day
    } else {
        spec_add_working_days(spec_next_working_day(day + 1), rem - 1)
    }
}

/// The end date of a stretch of `days` working days from `start`: full
/// weeks first, then the leftovers day by day, never landing on a
/// weekend.
pub open spec fn spec_end_date(start: int, days: int) -> int {
    let s = spec_next_working_day(start);
    let advanced = spec_next_working_day(s + (days / 5) * 7);
    spec_add_working_days(advanced, days % 5)
}

/// The weekday of a day number.
pub fn weekday(day: i64) -> (r: i64)
    requires
        0 <= day <= MAX_DAY,
    ensures
        r == spec_weekday(day as int),
{
    (day + 4) % 7
}

/// The same day if it is a weekday; the following Monday otherwise.
pub fn get_next_working_day(day: i64) -> (r: i64)
    requires
        0 <= day <= MAX_DAY,
    ensures
        r == spec_next_working_day(day as int),
        day <= r <= day + 2,
{
    let wd = weekday(day);
    if wd == 6 {
        day + 2
    } else if wd == 0 {
        day + 1
    } else {
        day
    }
}

/// The end date of `days` working days from `start`.
pub fn get_end_date(start: i64, days: i64) -> (r: i64)
    requires
        0 <= start <= MAX_DAY,
        0 <= days <= MAX_DAY,
    ensures
        r == spec_end_date(start as int, days as int),
{
    let start_adj = get_next_working_day(start);
    let num_weeks = days / 5;
    let mut end = start_adj + num_weeks * 7;
    proof {
        assert(num_weeks * 7 <= days * 7) by (nonlinear_arith)
            requires
                0 <= num_weeks <= days,
        ;
        assert(days / 5 <= days);
    }
    end = get_next_working_day_wide(end);
    let remaining = days % 5;
    let ghost target = spec_end_date(start as int, days as int);
    proof {
        assert(target == spec_add_working_days(end as int, remaining as int));
    }
    let mut left = remaining;
    while left > 0
        invariant
            0 <= left <= 4,
            0 <= end <= MAX_DAY * 8 + 20 + (4 - left) * 3,
            target == spec_add_working_days(end as int, left as int),
        decreases left,
    {
        end = end + 1;
        end = get_next_working_day_wide(end);
        left = left - 1;
    }
    end
}

/// The same as `get_next_working_day`, on the wider intermediate range
/// that full-week advancement can reach.
fn get_next_working_day_wide(day: i64) -> (r: i64)
    requires
        0 <= day <= MAX_DAY * 8 + 40,
    ensures
        r == spec_next_working_day(day as int),
        day <= r <= day + 2,
{
    let wd = (day + 4) % 7;
    if wd == 6 {
        day + 2
    } else if wd == 0 {
        day + 1
    } else {
        day
    }
}

} // verus!
