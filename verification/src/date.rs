//! Calendar dates of the proleptic Gregorian calendar, over `chrono`.

use chrono::Datelike;
use vstd::prelude::*;

verus! {

/// The first year that a date can lie in.
pub const FIRST_YEAR: i32 = -262_143;

/// The last year that a date can lie in.
pub const LAST_YEAR: i32 = 262_142;

/// Gregorian leap years.
pub open spec fn leap_year(year: int) -> bool {
    year % 4 == 0 && (year % 100 != 0 || year % 400 == 0)
}

/// The number of days of a month.
pub open spec fn days_in_month(year: int, month: int) -> int {
    if month == 2 {
        if leap_year(year) {
            29
        } else {
            28
        }
    } else if month == 4 || month == 6 || month == 9 || month == 11 {
        30
    } else {
        31
    }
}

/// `year`-`month`-`day` is a day of the calendar.
pub open spec fn valid_ymd(year: int, month: int, day: int) -> bool {
    &&& FIRST_YEAR <= year <= LAST_YEAR
    &&& 1 <= month <= 12
    &&& 1 <= day <= days_in_month(year, month)
}

/// The number of days between 1 January of year 1 and 1 January of `year`.
pub open spec fn days_before_year(year: int) -> int {
    365 * (year - 1) + (year - 1) / 4 - (year - 1) / 100 + (year - 1) / 400
}

/// The number of days of `year` before its month `month`.
pub open spec fn days_before_month(year: int, month: int) -> int
    decreases month,
{
    if month <= 1 {
        0
    } else {
        days_before_month(year, month - 1) + days_in_month(year, month - 1)
    }
}

/// The number of a day, counted so that 1 January of year 1 is day 1.
pub open spec fn day_number(year: int, month: int, day: int) -> int {
    days_before_year(year) + days_before_month(year, month) + day
}

/// The number is that of a day in a year that a date can lie in.
pub open spec fn day_number_in_range(number: int) -> bool {
    day_number(FIRST_YEAR as int, 1, 1) <= number <= day_number(LAST_YEAR as int, 12, 31)
}

/// `chrono::NaiveDate::from_ymd_opt`, with the date handed out as its number
/// `num_days_from_ce`: there is such a date exactly when the calendar has the
/// day and its year is in range, and the number counts days from 1 January of
/// year 1, which is day 1.
#[verifier::external_body]
fn chrono_day_number(year: i32, month: u32, day: u32) -> (r: Option<i32>)
    ensures
        r is Some <==> valid_ymd(year as int, month as int, day as int),
        r is Some ==> r->0 == day_number(year as int, month as int, day as int),
{
    chrono::NaiveDate::from_ymd_opt(year, month, day).map(|d| d.num_days_from_ce())
}

/// `chrono::NaiveDate::from_num_days_from_ce_opt`, with the date handed out as
/// its year, month and day: there is such a date exactly when the day lies in a
/// year in range, and it is the one day of the calendar with that number.
#[verifier::external_body]
fn chrono_ymd(number: i32) -> (r: Option<(i32, u32, u32)>)
    ensures
        r is Some <==> day_number_in_range(number as int),
        r matches Some((y, m, d)) ==> valid_ymd(y as int, m as int, d as int) && day_number(
            y as int,
            m as int,
            d as int,
        ) == number,
{
    chrono::NaiveDate::from_num_days_from_ce_opt(number).map(|d| (d.year(), d.month(), d.day()))
}

/// A year, with its sign unless it has four digits and is not negative.
pub open spec fn year_text(year: int) -> Seq<char> {
    if 0 <= year <= 9999 {
        crate::text::decimal_text(year as nat, 4)
    } else if year < 0 {
        seq!['-'] + crate::text::decimal_text((-year) as nat, 4)
    } else {
        seq!['+'] + crate::text::decimal_text(year as nat, 4)
    }
}

/// A date as `YYYY-MM-DD`.
pub open spec fn date_text(year: int, month: int, day: int) -> Seq<char> {
    year_text(year).push('-') + crate::text::decimal_text(month as nat, 2).push('-')
        + crate::text::decimal_text(day as nat, 2)
}

/// The text of the date that `chrono::NaiveDate::from_num_days_from_ce_opt`
/// gives for a day number, as `chrono` displays a `NaiveDate`: year, month and
/// day with hyphens between them, the year padded to four digits, the month and
/// the day to two, and the year signed outside of 0 to 9999.
#[verifier::external_body]
fn chrono_text(number: i32) -> (r: Option<String>)
    ensures
        r is Some <==> day_number_in_range(number as int),
        r is Some ==> forall|y: int, m: int, d: int|
            valid_ymd(y, m, d) && #[trigger] day_number(y, m, d) == number ==> r->0@ == date_text(
                y,
                m,
                d,
            ),
{
    chrono::NaiveDate::from_num_days_from_ce_opt(number).map(|d| d.to_string())
}

/// A calendar date.
#[derive(Clone, Copy, Debug, PartialEq, Eq, Structural, Hash)]
pub struct Date {
    /// Days since 31 December of the year before year 1.
    pub days_from_ce: i32,
}

impl Date {
    /// The date lies in the range of years that dates have.
    pub open spec fn valid(self) -> bool {
        day_number_in_range(self.days_from_ce as int)
    }

    /// The date of a year, month and day, if the calendar has it.
    pub fn from_ymd_opt(year: i32, month: u32, day: u32) -> (r: Option<Date>)
        ensures
            r is Some <==> valid_ymd(year as int, month as int, day as int),
            r matches Some(d) ==> d.valid() && d.days_from_ce == day_number(
                year as int,
                month as int,
                day as int,
            ),
    {
        let number: Option<i32> = chrono_day_number(year, month, day);
        match number {
            Some(n) => {
                proof {
                    lemma_valid_in_range(year as int, month as int, day as int);
                }
                Some(Date { days_from_ce: n })
            },
            None => None,
        }
    }

    /// The date with a day number, if it lies in the range of years.
    pub fn from_num_days_from_ce_opt(number: i32) -> (r: Option<Date>)
        ensures
            r is Some <==> day_number_in_range(number as int),
            r matches Some(d) ==> d.valid() && d.days_from_ce == number,
    {
        match chrono_ymd(number) {
            Some(_) => Some(Date { days_from_ce: number }),
            None => None,
        }
    }

    /// The year, month and day of the date.
    pub fn ymd(&self) -> (r: (i32, u32, u32))
        requires
            self.valid(),
        ensures
            valid_ymd(r.0 as int, r.1 as int, r.2 as int),
            day_number(r.0 as int, r.1 as int, r.2 as int) == self.days_from_ce,
    {
        match chrono_ymd(self.days_from_ce) {
            Some(r) => r,
            None => {
                assert(false);
                (0, 0, 0)
            },
        }
    }

    /// The date as `YYYY-MM-DD`.
    pub fn to_text(&self) -> (r: String)
        requires
            self.valid(),
        ensures
            forall|y: int, m: int, d: int|
                valid_ymd(y, m, d) && #[trigger] day_number(y, m, d) == self.days_from_ce ==> r@
                    == date_text(y, m, d),
    {
        match chrono_text(self.days_from_ce) {
            Some(text) => text,
            None => {
                assert(false);
                String::new()
            },
        }
    }

    /// Calendar days from `earlier` to this date; negative if it comes first.
    pub fn days_since(&self, earlier: Date) -> (r: i64)
        ensures
            r == self.days_from_ce - earlier.days_from_ce,
    {
        self.days_from_ce as i64 - earlier.days_from_ce as i64
    }
}

/// The days of a year before a month are those of the months before it.
proof fn lemma_months(year: int)
    ensures
        days_before_month(year, 1) == 0,
        days_before_month(year, 2) == 31,
        forall|m: int|
            1 <= m <= 12 ==> 0 <= #[trigger] days_before_month(year, m) && days_before_month(
                year,
                m,
            ) + days_in_month(year, m) <= 365 + (if leap_year(year) {
                1int
            } else {
                0int
            }),
        forall|m: int, n: int|
            1 <= m < n <= 12 ==> #[trigger] days_before_month(year, m) + days_in_month(year, m)
                <= #[trigger] days_before_month(year, n),
{
    reveal_with_fuel(days_before_month, 13);
}

/// Division by a constant steps up exactly at its multiples.
proof fn lemma_quotient_steps(y: int)
    ensures
        (y + 1) / 4 == y / 4 + (if (y + 1) % 4 == 0 {
            1int
        } else {
            0int
        }),
        (y + 1) / 100 == y / 100 + (if (y + 1) % 100 == 0 {
            1int
        } else {
            0int
        }),
        (y + 1) / 400 == y / 400 + (if (y + 1) % 400 == 0 {
            1int
        } else {
            0int
        }),
{
}

/// A multiple of 400 is one of 100, and a multiple of 100 is one of 4.
proof fn lemma_multiples(year: int)
    ensures
        year % 400 == 0 ==> year % 100 == 0,
        year % 100 == 0 ==> year % 4 == 0,
{
}

/// From one year to the next the count grows by 365, and one more in a leap
/// year.
proof fn lemma_year_step(year: int)
    ensures
        days_before_year(year + 1) == days_before_year(year) + 365 + (if leap_year(year) {
            1int
        } else {
            0int
        }),
{
    let y = year - 1;
    lemma_quotient_steps(y);
    lemma_multiples(year);
    let (a4, a100, a400) = (y / 4, y / 100, y / 400);
    let (b4, b100, b400) = ((y + 1) / 4, (y + 1) / 100, (y + 1) / 400);
    assert(y + 1 == year);
    assert(days_before_year(year) == 365 * y + a4 - a100 + a400);
    assert(days_before_year(year + 1) == 365 * (y + 1) + b4 - b100 + b400);
}

proof fn lemma_years_ordered(a: int, b: int)
    requires
        a < b,
    ensures
        days_before_year(a) + 365 + (if leap_year(a) {
            1int
        } else {
            0int
        }) <= days_before_year(b),
    decreases b - a,
{
    lemma_year_step(a);
    if a + 1 < b {
        lemma_years_ordered(a + 1, b);
    }
}

/// Days are numbered in calendar order: an earlier year, month or day gives a
/// smaller number. So no two days share a number.
pub proof fn law_day_numbers_are_ordered(y1: int, m1: int, d1: int, y2: int, m2: int, d2: int)
    requires
        valid_ymd(y1, m1, d1),
        valid_ymd(y2, m2, d2),
    ensures
        day_number(y1, m1, d1) < day_number(y2, m2, d2) <==> (y1 < y2 || (y1 == y2 && (m1 < m2
            || (m1 == m2 && d1 < d2)))),
        day_number(y1, m1, d1) == day_number(y2, m2, d2) <==> (y1 == y2 && m1 == m2 && d1 == d2),
{
    lemma_months(y1);
    lemma_months(y2);
    if y1 < y2 {
        lemma_years_ordered(y1, y2);
    } else if y2 < y1 {
        lemma_years_ordered(y2, y1);
    }
}

proof fn lemma_valid_in_range(year: int, month: int, day: int)
    requires
        valid_ymd(year, month, day),
    ensures
        day_number_in_range(day_number(year, month, day)),
{
    assert(valid_ymd(FIRST_YEAR as int, 1, 1));
    assert(valid_ymd(LAST_YEAR as int, 12, 31));
    law_day_numbers_are_ordered(FIRST_YEAR as int, 1, 1, year, month, day);
    law_day_numbers_are_ordered(year, month, day, LAST_YEAR as int, 12, 31);
}

/// Days that follow each other have numbers that follow each other: within a
/// month, from the last day of a month to the first of the next, and from the
/// last day of a year to the first of the next. The first day of year 1 is day 1.
pub proof fn law_days_are_numbered_one_by_one(year: int, month: int, day: int)
    requires
        valid_ymd(year, month, day),
    ensures
        day_number(1, 1, 1) == 1,
        ({
            let leap = year % 400 == 0 || (year % 4 == 0 && year % 100 != 0);
            let last = if month == 2 {
                if leap {
                    29int
                } else {
                    28
                }
            } else if month == 4 || month == 6 || month == 9 || month == 11 {
                30
            } else {
                31
            };
            let next = day_number(year, month, day) + 1;
            &&& 1 <= day <= last
            &&& day < last ==> day_number(year, month, day + 1) == next
            &&& day == last && month < 12 ==> day_number(year, month + 1, 1) == next
            &&& day == last && month == 12 ==> day_number(year + 1, 1, 1) == next
        }),
{
    lemma_months(year);
    lemma_year_step(year);
    reveal_with_fuel(days_before_month, 13);
}

/// The number of a day fits in 32 bits.
pub proof fn lemma_number_fits(year: int, month: int, day: int)
    requires
        valid_ymd(year, month, day),
    ensures
        i32::MIN <= day_number(year, month, day) <= i32::MAX,
{
    lemma_valid_in_range(year, month, day);
    reveal_with_fuel(days_before_month, 13);
}

} // verus!
