//! Enriched options event type.
//!
//! `OptionsEvent` wraps a raw CMBP-1 record with parsed contract metadata,
//! moneyness classification, and the current underlying price. Option prices
//! are in nanodollars; a price that is undefined is `None`.

use crate::contract::{ContractInfo, ContractType};
use crate::date::Date;
use crate::fraction::Fraction;
use crate::options_math::moneyness::{Moneyness, MoneynessRatio};
use vstd::prelude::*;

verus! {

/// Day-level context passed to trackers at the start of each trading day.
///
/// Provides information that is constant for the entire day: trading date,
/// UTC offset (DST-aware), day epoch, and underlying open/close prices.
/// This avoids hardcoding timezone assumptions in individual trackers.
#[derive(Debug, Clone, Copy, PartialEq, Eq, Structural)]
pub struct DayContext {
    pub trading_date: Date,
    /// UTC offset in hours (e.g., -5 for EST, -4 for EDT).
    pub utc_offset: i32,
    /// Midnight UTC in nanoseconds for the current trading day.
    pub day_epoch_ns: i64,
    /// Underlying stock opening price (nanodollars).
    pub underlying_open: i64,
    /// Underlying stock closing price (nanodollars).
    pub underlying_close: i64,
}

/// Action type for CMBP-1 records.
#[derive(Debug, Clone, Copy, PartialEq, Eq, Structural)]
pub enum Action {
    /// Quote update (BBO change).
    Quote,
    /// Trade execution.
    Trade,
    /// Other (modify, cancel, clear — rare in CMBP-1).
    Other,
}

/// Side of the event.
#[derive(Debug, Clone, Copy, PartialEq, Eq, Structural)]
pub enum Side {
    Bid,
    Ask,
    /// No side is given.
    Unspecified,
}

/// Enriched options event passed to all trackers.
pub struct OptionsEvent<'a> {
    /// Event timestamp (UTC nanoseconds since epoch).
    pub ts_event: i64,
    /// dbn instrument_id.
    pub instrument_id: u32,
    /// Parsed contract metadata (strike, expiry, call/put).
    pub contract: &'a ContractInfo,
    /// Whether this is a quote update or trade.
    pub action: Action,
    /// Aggressor side.
    pub side: Side,
    /// Trade price. `None` for quote-only events, and where it is undefined
    /// (sentinel).
    pub trade_price: Option<i64>,
    /// Trade size in contracts. 0 for quote-only events.
    pub trade_size: u32,
    /// Best bid price. `None` if undefined (sentinel).
    pub bid_px: Option<i64>,
    /// Best ask price. `None` if undefined (sentinel).
    pub ask_px: Option<i64>,
    /// Best bid size in contracts.
    pub bid_sz: u32,
    /// Best ask size in contracts.
    pub ask_sz: u32,
    /// Days to expiration (0 = 0DTE).
    pub dte: i64,
    /// Moneyness classification.
    pub moneyness: Moneyness,
    /// Strike / underlying_price ratio, where there is a positive price.
    pub moneyness_ratio: Option<MoneynessRatio>,
    /// Current underlying stock price in dollars.
    pub underlying_price: Fraction,
    /// Originating venue.
    pub publisher_id: u16,
    /// Best-bid venue of the consolidated book.
    pub bid_pb: u16,
    /// Best-ask venue of the consolidated book.
    pub ask_pb: u16,
    /// Matching-engine-sending delta in nanoseconds.
    pub ts_in_delta: i32,
    /// Raw flags byte.
    pub flags: u8,
    /// Capture-server timestamp (UTC nanoseconds).
    pub ts_recv: i64,
}

impl<'a> OptionsEvent<'a> {
    /// Both sides are defined and the ask is above the bid.
    pub open spec fn open_market(self) -> bool {
        self.bid_px is Some && self.ask_px is Some && self.ask_px->0 > self.bid_px->0
    }

    /// The mid-price in dollars.
    pub open spec fn mid_of(self) -> Option<Fraction> {
        if self.open_market() {
            Some(
                Fraction {
                    num: (self.bid_px->0 + self.ask_px->0) as i128,
                    den: 2_000_000_000,
                },
            )
        } else {
            None
        }
    }

    /// The spread in dollars.
    pub open spec fn spread_of(self) -> Option<Fraction> {
        if self.open_market() {
            Some(
                Fraction {
                    num: (self.ask_px->0 - self.bid_px->0) as i128,
                    den: 1_000_000_000,
                },
            )
        } else {
            None
        }
    }

    /// The spread as a percentage of the mid-price, where that is positive.
    pub open spec fn spread_pct_of(self) -> Option<Fraction> {
        if self.open_market() && self.bid_px->0 + self.ask_px->0 > 0 {
            Some(
                Fraction {
                    num: ((self.ask_px->0 - self.bid_px->0) * 200) as i128,
                    den: (self.bid_px->0 + self.ask_px->0) as u128,
                },
            )
        } else {
            None
        }
    }

    /// The market is open and the bid is positive.
    pub open spec fn valid_bbo(self) -> bool {
        self.open_market() && self.bid_px->0 > 0
    }

    pub open spec fn zero_dte(self) -> bool {
        self.dte == 0
    }

    pub open spec fn trade(self) -> bool {
        self.action == Action::Trade
    }

    pub open spec fn call(self) -> bool {
        self.contract.contract_type == ContractType::Call
    }

    pub open spec fn atm(self) -> bool {
        self.moneyness == Moneyness::Atm
    }

    /// Mid-price of the option BBO in dollars.
    ///
    /// Returns `None` if either side is undefined OR if the quote is
    /// locked/crossed (`ask <= bid`). Strict-aligned with
    /// [`spread`](Self::spread) and [`has_valid_bbo`](Self::has_valid_bbo).
    pub fn option_mid(&self) -> (r: Option<Fraction>)
        ensures
            r == self.mid_of(),
    {
        match (self.bid_px, self.ask_px) {
            (Some(bid), Some(ask)) => if ask > bid {
                Some(Fraction { num: bid as i128 + ask as i128, den: 2_000_000_000 })
            } else {
                None
            },
            _ => None,
        }
    }

    /// BBO spread in dollars.
    ///
    /// Returns `None` if either side is undefined OR if the quote is
    /// locked/crossed (`ask <= bid`): a locked quote is not a valid spread
    /// observation.
    pub fn spread(&self) -> (r: Option<Fraction>)
        ensures
            r == self.spread_of(),
    {
        match (self.bid_px, self.ask_px) {
            (Some(bid), Some(ask)) => if ask > bid {
                Some(Fraction { num: ask as i128 - bid as i128, den: 1_000_000_000 })
            } else {
                None
            },
            _ => None,
        }
    }

    /// Spread as percentage of mid-price.
    pub fn spread_pct(&self) -> (r: Option<Fraction>)
        ensures
            r == self.spread_pct_of(),
    {
        match (self.bid_px, self.ask_px) {
            (Some(bid), Some(ask)) => {
                let sum: i128 = bid as i128 + ask as i128;
                if ask > bid && sum > 0 {
                    Some(Fraction { num: (ask as i128 - bid as i128) * 200, den: sum as u128 })
                } else {
                    None
                }
            },
            _ => None,
        }
    }

    /// Whether this is a 0DTE contract.
    pub fn is_zero_dte(&self) -> (r: bool)
        ensures
            r == self.zero_dte(),
    {
        self.dte == 0
    }

    /// Whether this event is a trade.
    pub fn is_trade(&self) -> (r: bool)
        ensures
            r == self.trade(),
    {
        self.action == Action::Trade
    }

    /// Whether this contract is a call.
    pub fn is_call(&self) -> (r: bool)
        ensures
            r == self.call(),
    {
        self.contract.contract_type == ContractType::Call
    }

    /// Whether the BBO is valid (both sides defined, ask > bid > 0).
    pub fn has_valid_bbo(&self) -> (r: bool)
        ensures
            r == self.valid_bbo(),
    {
        match (self.bid_px, self.ask_px) {
            (Some(bid), Some(ask)) => bid > 0 && ask > bid,
            _ => false,
        }
    }

    /// Whether this contract is near ATM (within the configured range).
    pub fn is_atm(&self) -> (r: bool)
        ensures
            r == self.atm(),
    {
        self.moneyness == Moneyness::Atm
    }
}

/// The accessors agree: a mid-price is defined exactly when a spread is, and
/// exactly when a spread percentage is, unless the two prices of an open market
/// add up to nothing or less.
pub proof fn law_bbo_accessors_agree(event: OptionsEvent)
    requires
        event.open_market() ==> event.bid_px->0 + event.ask_px->0 > 0,
    ensures
        event.mid_of() is Some <==> event.spread_of() is Some,
        event.mid_of() is Some <==> event.spread_pct_of() is Some,
{
}

/// A valid BBO has a positive mid-price, a positive spread and a spread
/// percentage.
pub proof fn law_valid_bbo_has_mid_and_spread(event: OptionsEvent)
    requires
        event.valid_bbo(),
    ensures
        event.mid_of() is Some && event.mid_of()->0.num > 0,
        event.spread_of() is Some && event.spread_of()->0.num > 0,
        event.spread_pct_of() is Some,
{
}

/// The accessors by the two prices of the quote, in nanodollars. A mid-price and
/// a spread are there exactly when both prices are and the ask is above the bid:
/// half their sum and their difference. The spread in percent is a hundred times
/// their quotient.
pub proof fn law_accessors_by_the_prices(event: OptionsEvent)
    ensures
        event.bid_px is None || event.ask_px is None ==> event.mid_of() is None
            && event.spread_of() is None && event.spread_pct_of() is None && !event.valid_bbo(),
        event.bid_px matches Some(bid) ==> event.ask_px matches Some(ask) ==> {
            &&& event.mid_of() is Some <==> bid < ask
            &&& event.spread_of() is Some <==> bid < ask
            &&& event.spread_pct_of() is Some <==> bid < ask && bid + ask > 0
            &&& event.valid_bbo() <==> 0 < bid < ask
            &&& event.mid_of() matches Some(mid) ==> mid.is_quotient(bid + ask, 2_000_000_000)
            &&& event.spread_of() matches Some(spread) ==> spread.is_quotient(
                ask - bid,
                1_000_000_000,
            )
            &&& event.spread_pct_of() matches Some(pct) ==> pct.is_quotient(
                200 * (ask - bid),
                bid + ask,
            )
        },
        event.zero_dte() <==> event.dte == 0,
        event.trade() <==> event.action == Action::Trade,
        event.call() <==> event.contract.contract_type == ContractType::Call,
        event.atm() <==> event.moneyness == Moneyness::Atm,
{
}

} // verus!
