use vstd::prelude::*;

verus! {

/// Number of days in `month` (1 = January ... 12 = December) of a non-leap
/// year; zero outside that range.
pub open spec fn month_length(month: int) -> int {
    if month == 1 || month == 3 || month == 5 || month == 7 || month == 8 || month == 10
        || month == 12 {
        31
    } else if month == 4 || month == 6 || month == 9 || month == 11 {
        30
    } else if month == 2 {
        28
    } else {
        0
    }
}

/// Number of days of a non-leap year that come before the first of `month`.
pub open spec fn days_before(month: int) -> int
    decreases month,
{
    if month <= 1 {
        0
    } else {
        days_before(month - 1) + month_length(month - 1)
    }
}

proof fn lemma_days_before_bounds(month: int)
    requires
        month <= 13,
    ensures
        0 <= days_before(month) <= 365,
        month <= 12 ==> days_before(month) <= 334,
        month <= 12 ==> days_before(month) + month_length(month) <= 365,
    decreases month,
{
    if month > 1 {
        lemma_days_before_bounds(month - 1);
        reveal_with_fuel(days_before, 12);
    }
}

/// Day of the year (1 = January 1st) of `day_of_month` in `month`, in a
/// non-leap year. A month below 1 adds no days; month 13 adds the whole year.
pub fn day_of_year(month: i32, day_of_month: i32) -> (r: i32)
    requires
        month <= 13,
        day_of_month <= i32::MAX - 365,
    ensures
        r == day_of_month + days_before(month as int),
        1 <= month && 1 <= day_of_month <= month_length(month as int) ==> 1 <= r <= 365,
{
    let days_in_month: [i32; 13] = [0, 31, 28, 31, 30, 31, 30, 31, 31, 30, 31, 30, 31];
    let mut result: i32 = day_of_month;
    let mut i: i32 = 1;
    proof {
        lemma_days_before_bounds(month as int);
    }
    while i < month
        invariant
            1 <= i,
            month <= 13,
            month >= 1 ==> i <= month,
            month < 1 ==> i == 1,
            day_of_month <= i32::MAX - 365,
            days_in_month@ == seq![0i32, 31, 28, 31, 30, 31, 30, 31, 31, 30, 31, 30, 31],
            result == day_of_month + days_before(i as int),
        decreases month - i,
    {
        proof {
            lemma_days_before_bounds(i as int);
            lemma_days_before_bounds(i + 1);
        }
        result = result + days_in_month[i as usize];
        i = i + 1;
    }
    assert(days_before(month as int) == days_before(i as int));
    result
}

} // verus!
