//! Decisions of the command line: which configuration is loaded and where the
//! underlying prices come from.

use crate::date::Date;
use crate::underlying::DailyUnderlyingPrice;
use vstd::prelude::*;
use vstd::string::*;

verus! {

/// An argument names the configuration that follows it.
pub open spec fn is_config_flag(args: Seq<String>, i: int) -> bool {
    1 <= i < args.len() - 1 && args[i]@ == "--config"@
}

/// The place of the configuration path among the arguments: behind the first
/// `--config` that has an argument behind it. The first argument is the
/// program.
pub fn parse_args(args: &Vec<String>) -> (r: Option<usize>)
    ensures
        match r {
            Some(path) => is_config_flag(args@, path - 1) && forall|j: int|
                0 <= j < path - 1 ==> !#[trigger] is_config_flag(args@, j),
            None => forall|j: int| !#[trigger] is_config_flag(args@, j),
        },
        r matches Some(path) ==> 2 <= path < args@.len() && args@[path - 1]@ == "--config"@
            && forall|j: int| 1 <= j < path - 1 ==> (#[trigger] args@[j])@ != "--config"@,
        r is None ==> forall|j: int|
            1 <= j < args@.len() - 1 ==> (#[trigger] args@[j])@ != "--config"@,
{
    let flag: String = "--config".to_owned();
    let mut i: usize = 1;
    while i < args.len()
        invariant
            1 <= i,
            i <= args@.len() || args@.len() == 0,
            flag@ == "--config"@,
            forall|j: int| 0 <= j < i ==> !#[trigger] is_config_flag(args@, j),
        decreases args@.len() - i,
    {
        if args[i] == flag && i + 1 < args.len() {
            assert(is_config_flag(args@, i as int));
            assert forall|j: int| 1 <= j < i implies (#[trigger] args@[j])@ != "--config"@ by {
                assert(!is_config_flag(args@, j));
            }
            return Some(i + 1);
        }
        assert(!is_config_flag(args@, i as int));
        i = i + 1;
    }
    assert forall|j: int| 1 <= j < args@.len() - 1 implies (#[trigger] args@[j])@
        != "--config"@ by {
        assert(!is_config_flag(args@, j));
    }
    None
}

/// Where the underlying prices come from.
#[derive(Debug)]
pub enum PriceSource {
    /// The file at a path; a failure to load it is an error.
    File(String),
    /// The built-in prices.
    Fallback,
}

/// There are no prices for a symbol: it has no prices file, and the built-in
/// prices are of another symbol.
#[derive(Debug)]
pub struct NoPriceSource {
    pub symbol: String,
}

/// Chooses the source of the underlying prices: a configured file, or for the
/// symbol NVDA without one the built-in prices. No other symbol is priced by
/// them.
pub fn price_source(prices_file: &Option<String>, symbol: &String) -> (r: Result<
    PriceSource,
    NoPriceSource,
>)
    ensures
        match prices_file {
            Some(path) => r matches Ok(PriceSource::File(p)) && p@ == path@,
            None => if symbol@ == "NVDA"@ {
                r matches Ok(PriceSource::Fallback)
            } else {
                r matches Err(e) && e.symbol@ == symbol@
            },
        },
{
    match prices_file {
        Some(path) => Ok(PriceSource::File(path.clone())),
        None => {
            let built_in: String = "NVDA".to_owned();
            if *symbol == built_in {
                Ok(PriceSource::Fallback)
            } else {
                Err(NoPriceSource { symbol: symbol.clone() })
            }
        },
    }
}

/// A price of a day of which only open and close are known, in nanodollars.
pub open spec fn price_at(
    year: int,
    month: int,
    day: int,
    open: i64,
    close: i64,
) -> DailyUnderlyingPrice {
    DailyUnderlyingPrice {
        date: Date { days_from_ce: crate::date::day_number(year, month, day) as i32 },
        open,
        close,
        volume: 0,
    }
}

/// The built-in prices: NVDA, 13 to 24 November 2025.
pub open spec fn fallback_prices() -> Seq<DailyUnderlyingPrice> {
    seq![
        price_at(2025, 11, 13, 191_050_000_000, 186_860_000_000),
        price_at(2025, 11, 14, 182_860_000_000, 190_170_000_000),
        price_at(2025, 11, 17, 185_970_000_000, 186_600_000_000),
        price_at(2025, 11, 18, 183_380_000_000, 181_360_000_000),
        price_at(2025, 11, 19, 184_790_000_000, 186_520_000_000),
        price_at(2025, 11, 20, 195_950_000_000, 180_640_000_000),
        price_at(2025, 11, 21, 181_240_000_000, 178_880_000_000),
        price_at(2025, 11, 24, 179_490_000_000, 182_550_000_000),
    ]
}

/// Fallback NVDA prices for an 8-day OPRA window (Nov 13-24 2025).
/// Used when no prices file is configured.
pub fn load_nvda_fallback_prices() -> (r: Vec<DailyUnderlyingPrice>)
    ensures
        r@ == fallback_prices(),
{
    let r: Vec<DailyUnderlyingPrice> = vec![
        dp(2025, 11, 13, 191_050_000_000, 186_860_000_000),
        dp(2025, 11, 14, 182_860_000_000, 190_170_000_000),
        dp(2025, 11, 17, 185_970_000_000, 186_600_000_000),
        dp(2025, 11, 18, 183_380_000_000, 181_360_000_000),
        dp(2025, 11, 19, 184_790_000_000, 186_520_000_000),
        dp(2025, 11, 20, 195_950_000_000, 180_640_000_000),
        dp(2025, 11, 21, 181_240_000_000, 178_880_000_000),
        dp(2025, 11, 24, 179_490_000_000, 182_550_000_000),
    ];
    assert(r@ =~= fallback_prices());
    r
}

/// A price of a day of the calendar.
fn dp(y: i32, m: u32, d: u32, open: i64, close: i64) -> (r: DailyUnderlyingPrice)
    requires
        crate::date::valid_ymd(y as int, m as int, d as int),
    ensures
        r == price_at(y as int, m as int, d as int, open, close),
{
    match Date::from_ymd_opt(y, m, d) {
        Some(date) => DailyUnderlyingPrice { date, open, close, volume: 0 },
        None => {
            assert(false);
            DailyUnderlyingPrice { date: Date { days_from_ce: 0 }, open, close, volume: 0 }
        },
    }
}

} // verus!
