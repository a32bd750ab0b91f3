//! Underlying prices of trading days, and the context of a day.

use crate::date::Date;
use crate::event::DayContext;
use crate::sorting::stable_sort;
use crate::text::parse_digits;
use vstd::prelude::*;
use vstd::string::*;

verus! {

/// The day number of 1 January 1970.
pub const EPOCH_DAY_NUMBER: i32 = 719_163;

/// Nanoseconds of one second.
pub const SECOND_NS: u64 = 1_000_000_000;

/// Seconds of one day.
pub const DAY_SECONDS: u64 = 86_400;

/// Underlying market data for a trading day (from EQUS or the built-in fallback).
#[derive(Debug, Clone, Copy, PartialEq, Eq, Structural)]
pub struct DailyUnderlyingPrice {
    pub date: Date,
    /// Nanodollars.
    pub open: i64,
    /// Nanodollars.
    pub close: i64,
    /// Total consolidated equity SHARE volume for the day, the O/S-ratio
    /// denominator. `0` in built-in fallback mode, which yields no O/S.
    pub volume: u64,
}

/// A daily bar of the underlying, as it is decoded.
#[derive(Debug, Clone, Copy, PartialEq, Eq, Structural)]
pub struct OhlcvBar {
    /// Start of the bar, UTC nanoseconds.
    pub ts_event: u64,
    /// Nanodollars.
    pub open: i64,
    /// Nanodollars.
    pub close: i64,
    pub volume: u64,
}

/// The date of a timestamp.
pub open spec fn date_of(ts: u64) -> Date {
    Date { days_from_ce: (ts / SECOND_NS / DAY_SECONDS + EPOCH_DAY_NUMBER) as i32 }
}

/// The price of a bar, under its day, if open and close are positive.
pub open spec fn price_of_bar(bar: OhlcvBar) -> Option<DailyUnderlyingPrice> {
    if bar.open > 0 && bar.close > 0 {
        Some(
            DailyUnderlyingPrice {
                date: date_of(bar.ts_event),
                open: bar.open,
                close: bar.close,
                volume: bar.volume,
            },
        )
    } else {
        None
    }
}

/// The prices of bars, in their order.
pub open spec fn prices_of_bars(bars: Seq<OhlcvBar>) -> Seq<DailyUnderlyingPrice>
    decreases bars.len(),
{
    if bars.len() == 0 {
        Seq::empty()
    } else {
        match price_of_bar(bars.last()) {
            Some(price) => prices_of_bars(bars.drop_last()).push(price),
            None => prices_of_bars(bars.drop_last()),
        }
    }
}

/// Prices under the numbers of their days.
pub open spec fn by_day(prices: Seq<DailyUnderlyingPrice>) -> Seq<(i64, DailyUnderlyingPrice)> {
    prices.map_values(|p: DailyUnderlyingPrice| (p.date.days_from_ce as i64, p))
}

/// The daily prices of bars in order of date. Bars whose open or close is not
/// positive give none; bars of one day keep their order.
pub fn prices_from_bars(bars: &Vec<OhlcvBar>) -> (r: Vec<DailyUnderlyingPrice>)
    ensures
        crate::sorting::is_stable_sort(by_day(prices_of_bars(bars@)), by_day(r@)),
{
    let mut unsorted: Vec<(i64, DailyUnderlyingPrice)> = Vec::new();
    let mut i: usize = 0;
    while i < bars.len()
        invariant
            i <= bars@.len(),
            unsorted@ == by_day(prices_of_bars(bars@.take(i as int))),
        decreases bars@.len() - i,
    {
        let bar: OhlcvBar = bars[i];
        assert(bars@.take(i + 1).drop_last() =~= bars@.take(i as int));
        let days_since_epoch: u64 = bar.ts_event / SECOND_NS / DAY_SECONDS;
        assert(days_since_epoch <= 213_503);
        let date: Option<Date> = Date::from_num_days_from_ce_opt(
            days_since_epoch as i32 + EPOCH_DAY_NUMBER,
        );
        proof {
            lemma_epoch_range();
        }
        if let Some(date) = date {
            if bar.open > 0 && bar.close > 0 {
                let price = DailyUnderlyingPrice {
                    date,
                    open: bar.open,
                    close: bar.close,
                    volume: bar.volume,
                };
                unsorted.push((date.days_from_ce as i64, price));
            }
        }
        assert(unsorted@ =~= by_day(prices_of_bars(bars@.take(i + 1))));
        i = i + 1;
    }
    assert(bars@.take(i as int) =~= bars@);
    let sorted: Vec<(i64, DailyUnderlyingPrice)> = stable_sort(unsorted);
    let mut r: Vec<DailyUnderlyingPrice> = Vec::new();
    let mut k: usize = 0;
    while k < sorted.len()
        invariant
            k <= sorted@.len(),
            r@ == sorted@.take(k as int).map_values(|p: (i64, DailyUnderlyingPrice)| p.1),
        decreases sorted@.len() - k,
    {
        r.push(sorted[k].1);
        assert(r@ =~= sorted@.take(k + 1).map_values(|p: (i64, DailyUnderlyingPrice)| p.1));
        k = k + 1;
    }
    assert(sorted@.take(k as int) =~= sorted@);
    assert(by_day(r@) =~= sorted@) by {
        assert forall|j: int| 0 <= j < sorted@.len() implies by_day(r@)[j] == sorted@[j] by {
            lemma_key_is_day(prices_of_bars(bars@), sorted@, j);
        }
    }
    r
}

proof fn lemma_key_is_day(
    prices: Seq<DailyUnderlyingPrice>,
    sorted: Seq<(i64, DailyUnderlyingPrice)>,
    k: int,
)
    requires
        sorted.to_multiset() == by_day(prices).to_multiset(),
        0 <= k < sorted.len(),
    ensures
        sorted[k].0 == sorted[k].1.date.days_from_ce,
{
    broadcast use vstd::seq_lib::group_to_multiset_ensures;

    assert(sorted.to_multiset().contains(sorted[k]));
    assert(by_day(prices).contains(sorted[k]));
    let j = choose|j: int| 0 <= j < by_day(prices).len() && by_day(prices)[j] == sorted[k];
    assert(by_day(prices)[j] == (prices[j].date.days_from_ce as i64, prices[j]));
}

/// Every day that an unsigned nanosecond timestamp can denote is a date.
proof fn lemma_epoch_range()
    ensures
        forall|n: int| 719_163 <= n <= 932_666 ==> #[trigger] crate::date::day_number_in_range(n),
{
    reveal_with_fuel(crate::date::days_before_month, 13);
    assert(crate::date::days_before_month(-262_143, 1) == 0);
    assert(crate::date::days_before_month(262_142, 12) >= 0);
}

/// Why a day cannot be profiled.
#[derive(Debug)]
pub enum DayError {
    /// The text is not of the form YYYY-MM-DD.
    MalformedDate(String),
    /// The calendar has no such day.
    InvalidDate(String),
    /// There is no underlying price for the day, which is REQUIRED for
    /// moneyness classification and Greeks.
    NoUnderlyingPrice(String),
}

impl DayError {
    /// The date that is meant.
    pub open spec fn date_text(self) -> Seq<char> {
        match self {
            DayError::MalformedDate(text) => text@,
            DayError::InvalidDate(text) => text@,
            DayError::NoUnderlyingPrice(text) => text@,
        }
    }

    /// What is wrong, in words.
    pub fn message(&self) -> (r: String)
        ensures
            r@ == match self {
                DayError::MalformedDate(_) => "Malformed date: "@ + self.date_text(),
                DayError::InvalidDate(_) => "Invalid date: "@ + self.date_text(),
                DayError::NoUnderlyingPrice(_) => "No underlying price for trading date "@
                    + self.date_text()
                    + ". Configure underlying_prices_file to cover this date, or extend the built-in fallback prices."@,
            },
    {
        match self {
            DayError::MalformedDate(text) => {
                let mut r: String = "Malformed date: ".to_owned();
                r.append(text.as_str());
                r
            },
            DayError::InvalidDate(text) => {
                let mut r: String = "Invalid date: ".to_owned();
                r.append(text.as_str());
                r
            },
            DayError::NoUnderlyingPrice(text) => {
                let mut r: String = "No underlying price for trading date ".to_owned();
                r.append(text.as_str());
                r.append(
                    ". Configure underlying_prices_file to cover this date, or extend the built-in fallback prices.",
                );
                r
            },
        }
    }
}

/// The year, month and day of a text YYYY-MM-DD: digits, with hyphens between
/// them.
pub open spec fn numbers_of(bytes: Seq<u8>) -> Option<(int, int, int)> {
    let (year, month, day) = (
        bytes.subrange(0, 4),
        bytes.subrange(5, 7),
        bytes.subrange(8, 10),
    );
    if bytes.len() == 10 && bytes[4] == 45 && bytes[7] == 45 && crate::text::all_digits(year)
        && crate::text::all_digits(month) && crate::text::all_digits(day) {
        Some(
            (
                crate::text::decimal_value(year) as int,
                crate::text::decimal_value(month) as int,
                crate::text::decimal_value(day) as int,
            ),
        )
    } else {
        None
    }
}

/// The trading date that a text YYYY-MM-DD denotes.
pub fn parse_trading_date(date_text: &str) -> (r: Result<Date, DayError>)
    ensures
        match numbers_of(date_text.spec_bytes()) {
            Some((y, m, d)) => if crate::date::valid_ymd(y, m, d) {
                r is Ok && r->Ok_0.valid() && r->Ok_0.days_from_ce == crate::date::day_number(
                    y,
                    m,
                    d,
                )
            } else {
                r is Err && r->Err_0 is InvalidDate
            },
            None => r is Err && r->Err_0 is MalformedDate,
        },
        r is Err ==> r->Err_0.date_text() == date_text@,
{
    let bytes = date_text.as_bytes();
    if bytes.len() != 10 || bytes[4] != 45 || bytes[7] != 45 {
        return Err(DayError::MalformedDate(date_text.to_owned()));
    }
    proof {
        lemma_short_numbers(bytes@.subrange(0, 4));
        lemma_short_numbers(bytes@.subrange(5, 7));
        lemma_short_numbers(bytes@.subrange(8, 10));
    }
    match (parse_digits(bytes, 0, 4), parse_digits(bytes, 5, 7), parse_digits(bytes, 8, 10)) {
        (Some(year), Some(month), Some(day)) => match Date::from_ymd_opt(
            year as i32,
            month as u32,
            day as u32,
        ) {
            Some(date) => Ok(date),
            None => Err(DayError::InvalidDate(date_text.to_owned())),
        },
        _ => Err(DayError::MalformedDate(date_text.to_owned())),
    }
}

/// At most four digits denote a number below ten thousand.
proof fn lemma_short_numbers(bytes: Seq<u8>)
    requires
        bytes.len() <= 4,
    ensures
        crate::text::all_digits(bytes) ==> crate::text::decimal_value(bytes) < 10_000,
{
    assert(vstd::arithmetic::power::pow(10, 4) == 10_000) by {
        reveal_with_fuel(vstd::arithmetic::power::pow, 6);
    }
    if crate::text::all_digits(bytes) {
        crate::text::lemma_decimal_value_bound(bytes, 4);
    }
}

/// The first price of a date.
pub open spec fn price_on(prices: Seq<DailyUnderlyingPrice>, date: Date) -> Option<
    DailyUnderlyingPrice,
>
    decreases prices.len(),
{
    if prices.len() == 0 {
        None
    } else if prices[0].date == date {
        Some(prices[0])
    } else {
        price_on(prices.drop_first(), date)
    }
}

/// The first price of a date.
pub fn find_price(prices: &Vec<DailyUnderlyingPrice>, date: Date) -> (r: Option<
    DailyUnderlyingPrice,
>)
    ensures
        r == price_on(prices@, date),
{
    let mut i: usize = 0;
    assert(prices@.skip(0) =~= prices@);
    while i < prices.len()
        invariant
            i <= prices@.len(),
            price_on(prices@, date) == price_on(prices@.skip(i as int), date),
        decreases prices@.len() - i,
    {
        if prices[i].date == date {
            return Some(prices[i]);
        }
        assert(prices@.skip(i as int).drop_first() =~= prices@.skip(i + 1));
        i = i + 1;
    }
    None
}

/// The context of a trading day. Without an underlying price there is none: a
/// price of zero would silently misclassify every contract.
pub fn day_context(
    date_text: &str,
    trading_date: Date,
    utc_offset: i32,
    day_epoch_ns: i64,
    prices: &Vec<DailyUnderlyingPrice>,
) -> (r: Result<DayContext, DayError>)
    ensures
        match price_on(prices@, trading_date) {
            Some(price) => r == Ok::<DayContext, DayError>(
                DayContext {
                    trading_date,
                    utc_offset,
                    day_epoch_ns,
                    underlying_open: price.open,
                    underlying_close: price.close,
                },
            ),
            None => r is Err && r->Err_0 is NoUnderlyingPrice && r->Err_0.date_text()
                == date_text@,
        },
{
    match find_price(prices, trading_date) {
        Some(price) => Ok(
            DayContext {
                trading_date,
                utc_offset,
                day_epoch_ns,
                underlying_open: price.open,
                underlying_close: price.close,
            },
        ),
        None => Err(DayError::NoUnderlyingPrice(date_text.to_owned())),
    }
}

/// A day has a context exactly when some price is of its date.
pub proof fn law_context_needs_a_price(prices: Seq<DailyUnderlyingPrice>, date: Date)
    ensures
        price_on(prices, date) is Some <==> exists|i: int|
            0 <= i < prices.len() && (#[trigger] prices[i]).date == date,
    decreases prices.len(),
{
    if prices.len() > 0 {
        law_context_needs_a_price(prices.drop_first(), date);
        if prices[0].date == date {
            assert(prices[0].date == date);
        } else {
            if exists|i: int| 0 <= i < prices.len() && (#[trigger] prices[i]).date == date {
                let i = choose|i: int| 0 <= i < prices.len() && (#[trigger] prices[i]).date == date;
                assert(prices.drop_first()[i - 1].date == date);
            }
            if price_on(prices.drop_first(), date) is Some {
                let j = choose|j: int|
                    0 <= j < prices.drop_first().len() && (#[trigger] prices.drop_first()[j]).date
                        == date;
                assert(prices[j + 1].date == date);
            }
        }
    }
}

/// The price of a bar by its fields: there where open and close are positive,
/// with open, close and volume as they are, under the day of its timestamp. Day
/// 719163 is the first of the epoch, and each has 86400 seconds.
pub proof fn law_price_by_its_bar(bar: OhlcvBar)
    ensures
        price_of_bar(bar) is Some <==> bar.open > 0 && bar.close > 0,
        price_of_bar(bar) matches Some(price) ==> {
            let day = (price.date.days_from_ce - 719_163) * 86_400_000_000_000;
            &&& price.open == bar.open && price.close == bar.close && price.volume == bar.volume
            &&& day <= bar.ts_event < day + 86_400_000_000_000
        },
{
}

/// Every bar with a positive open and close gives one price, in order, and no
/// other bar gives one.
pub proof fn law_prices_are_those_of_the_priced_bars(bars: Seq<OhlcvBar>)
    ensures
        prices_of_bars(bars) == bars.filter(
            |bar: OhlcvBar| bar.open > 0 && bar.close > 0,
        ).map_values(|bar: OhlcvBar| price_of_bar(bar)->0),
    decreases bars.len(),
{
    reveal(Seq::filter);
    let priced = |bar: OhlcvBar| bar.open > 0 && bar.close > 0;
    let price = |bar: OhlcvBar| price_of_bar(bar)->0;
    if bars.len() > 0 {
        law_prices_are_those_of_the_priced_bars(bars.drop_last());
        if priced(bars.last()) {
            assert(bars.filter(priced).map_values(price) =~= bars.drop_last().filter(
                priced,
            ).map_values(price).push(price(bars.last())));
        }
    } else {
        assert(bars.filter(priced).map_values(price) =~= Seq::<DailyUnderlyingPrice>::empty());
    }
}

/// The price of a date is the first that is of it.
pub proof fn law_first_price_of_a_date(prices: Seq<DailyUnderlyingPrice>, date: Date)
    ensures
        price_on(prices, date) matches Some(price) ==> exists|i: int|
            0 <= i < prices.len() && #[trigger] prices[i] == price && price.date == date && forall|
                j: int,
            |
                0 <= j < i ==> (#[trigger] prices[j]).date != date,
    decreases prices.len(),
{
    if prices.len() > 0 {
        let rest = prices.drop_first();
        law_first_price_of_a_date(rest, date);
        if prices[0].date == date {
            assert(prices[0] == price_on(prices, date)->0);
        } else if let Some(price) = price_on(rest, date) {
            let i = choose|i: int|
                0 <= i < rest.len() && #[trigger] rest[i] == price && price.date == date && forall|
                    j: int,
                |
                    0 <= j < i ==> (#[trigger] rest[j]).date != date;
            assert(prices[i + 1] == price);
            assert forall|j: int| 0 <= j < i + 1 implies (#[trigger] prices[j]).date != date by {
                if j > 0 {
                    assert(rest[j - 1].date != date);
                }
            }
        }
    }
}

} // verus!
