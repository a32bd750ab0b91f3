//! OptionsEffectiveSpreadTracker: realized execution cost analysis.
//!
//! Computes the gap between *quoted* spread (what the BBO shows) and
//! *effective* spread (what traders actually pay). Key metrics:
//!
//! - **Effective spread**: 2 × |trade_price − mid| for each trade
//! - **Trade-through rate**: fraction of trades outside the BBO
//! - **Realized spread per size bucket**: cost varies with trade size
//! - **Intraday effective spread curve**: minute-level for the trading window
//!
//! All bucketed by DTE (0DTE focus) and moneyness (ATM focus).

use crate::event::{DayContext, OptionsEvent};
use crate::fraction::Fraction;
use crate::history::TrackerCall;
use crate::observation::{Channel, Effect, IvProblem, IvSolution};
use crate::report::{share, Key, Row, Value};
use crate::report_utils::{dte_bucket_index, moneyness_index, DTE_LABELS, MONEYNESS_LABELS};
use crate::session::DEFAULT_UTC_OFFSET;
use crate::{OptionsTracker, COUNTER_LIMIT};
use vstd::prelude::*;

verus! {

/// The largest size of each size bucket but the last.
pub const SIZE_BUCKET_BOUNDS: [u32; 5] = [1, 5, 10, 50, 100];

/// Size bucket labels.
pub const SIZE_BUCKET_LABELS: [&'static str; 6] = ["1", "2-5", "6-10", "11-50", "51-100", "100+"];

pub const N_SIZE_BUCKETS: usize = 6;

/// Cells of the grid of DTE buckets and moneyness classes.
pub const N_CELLS: usize = 20;

/// The bucket of a trade size.
pub open spec fn size_bucket_of(size: int) -> int {
    if size <= 1 {
        0
    } else if size <= 5 {
        1
    } else if size <= 10 {
        2
    } else if size <= 50 {
        3
    } else if size <= 100 {
        4
    } else {
        5
    }
}

/// Map a trade size to a bucket index (0-5).
pub fn size_bucket_index(size: u32) -> (r: usize)
    ensures
        r == size_bucket_of(size as int),
        r < N_SIZE_BUCKETS,
{
    let mut i: usize = 0;
    while i < 5
        invariant
            i <= 5,
            forall|j: int| 0 <= j < i ==> size > #[trigger] SIZE_BUCKET_BOUNDS[j],
        decreases 5 - i,
    {
        let bound: u32 = SIZE_BUCKET_BOUNDS[i];
        if size <= bound {
            assert(i >= 1 ==> size > SIZE_BUCKET_BOUNDS[i - 1]);
            return i;
        }
        i = i + 1;
    }
    assert(size > SIZE_BUCKET_BOUNDS[4]);
    N_SIZE_BUCKETS - 1
}

/// Where trades took place relative to the quotes.
pub struct OptionsEffectiveSpreadTracker {
    utc_offset: i32,
    /// Trades by DTE bucket and moneyness class, row by row.
    cell_trades: [u64; 20],
    /// Trades by size bucket.
    size_trades: [u64; 6],
    trades_inside_bbo: u64,
    trades_at_bbo: u64,
    trades_outside_bbo: u64,
    trades_inside_bbo_0dte_atm: u64,
    trades_at_bbo_0dte_atm: u64,
    trades_outside_bbo_0dte_atm: u64,
    total_trades: u64,
    n_days: u32,
}

/// Trades by where they took place.
pub struct TradeLocations {
    pub inside: nat,
    pub at: nat,
    pub outside: nat,
}

impl TradeLocations {
    /// No trade yet.
    pub open spec fn zero() -> TradeLocations {
        TradeLocations { inside: 0, at: 0, outside: 0 }
    }

    /// All trades, wherever they took place.
    pub open spec fn total(self) -> nat {
        self.inside + self.at + self.outside
    }

    /// With one more trade at a price, against a bid and an ask: inside strictly
    /// between them, at one of them, or outside.
    pub open spec fn with(self, price: int, bid: int, ask: int) -> TradeLocations {
        if bid < price < ask {
            TradeLocations { inside: self.inside + 1, ..self }
        } else if price == bid || price == ask {
            TradeLocations { at: self.at + 1, ..self }
        } else {
            TradeLocations { outside: self.outside + 1, ..self }
        }
    }

    /// The rows of the report.
    pub open spec fn rows(self, group: &'static str) -> Seq<Row> {
        seq![
            Row::within("trade_location", group, "inside_bbo", Value::Count(self.inside as u64)),
            Row::within("trade_location", group, "at_bbo", Value::Count(self.at as u64)),
            Row::within("trade_location", group, "outside_bbo", Value::Count(self.outside as u64)),
            Row::within(
                "trade_location",
                group,
                "trade_through_rate",
                crate::report::share_of(self.outside, self.total(), 1),
            ),
            Row::within(
                "trade_location",
                group,
                "price_improvement_rate",
                crate::report::share_of(self.inside, self.total(), 1),
            ),
        ]
    }
}

/// The state of an [`OptionsEffectiveSpreadTracker`].
#[verifier::ext_equal]
pub struct EffectiveSpreadState {
    pub utc_offset: i32,
    pub cell_trades: Seq<nat>,
    pub size_trades: Seq<nat>,
    pub all: TradeLocations,
    pub dte0_atm: TradeLocations,
    pub total_trades: nat,
    pub n_days: nat,
}

impl EffectiveSpreadState {
    /// Before the first trade.
    pub open spec fn start() -> EffectiveSpreadState {
        EffectiveSpreadState {
            utc_offset: DEFAULT_UTC_OFFSET,
            cell_trades: Seq::new(20, |i: int| 0nat),
            size_trades: Seq::new(6, |i: int| 0nat),
            all: TradeLocations::zero(),
            dte0_atm: TradeLocations::zero(),
            total_trades: 0,
            n_days: 0,
        }
    }
}

/// The sum of the first `n` numbers.
pub open spec fn sum_of(counts: Seq<nat>, n: int) -> nat
    decreases n,
{
    if n <= 0 {
        0
    } else {
        sum_of(counts, n - 1) + counts[n - 1]
    }
}

/// The event is a trade at a defined price against a valid quote.
pub open spec fn priced_trade(event: OptionsEvent<'_>) -> bool {
    &&& event.trade() && event.trade_size > 0
    &&& event.valid_bbo()
    &&& event.trade_price is Some && event.trade_price->0 > 0
}

/// Twice the distance of the trade price from the mid-price, in dollars.
pub open spec fn effective_spread_of(event: OptionsEvent<'_>) -> Fraction {
    let gap = 2 * event.trade_price->0 - (event.bid_px->0 + event.ask_px->0);
    Fraction {
        num: (if gap < 0 {
            -gap
        } else {
            gap
        }) as i128,
        den: 1_000_000_000,
    }
}

/// The cell of an event in the grid of DTE buckets and moneyness classes.
pub open spec fn cell_of(event: OptionsEvent<'_>) -> int {
    crate::report_utils::bucket_of(event.dte as int) * 5 + crate::report_utils::index_of(
        event.moneyness,
    )
}

/// The rows of one cell: effective and quoted spread, and their quotient.
pub open spec fn cell_rows(cell: int) -> Seq<Row> {
    let d = cell / 5;
    let m = cell % 5;
    let effective = Channel::EffectiveSpread(d as usize, m as usize);
    let quoted = Channel::QuotedSpread(d as usize, m as usize);
    seq![
        Row {
            key: Key::Four(
                "by_dte_moneyness",
                DTE_LABELS[d],
                MONEYNESS_LABELS[m],
                "effective_spread",
            ),
            value: Value::MeanStdCount(effective),
        },
        Row {
            key: Key::Four("by_dte_moneyness", DTE_LABELS[d], MONEYNESS_LABELS[m], "quoted_spread"),
            value: Value::MeanStdCount(quoted),
        },
        Row {
            key: Key::Four(
                "by_dte_moneyness",
                DTE_LABELS[d],
                MONEYNESS_LABELS[m],
                "effective_vs_quoted_ratio",
            ),
            value: Value::MeanQuotient(effective, quoted),
        },
    ]
}

/// The rows of the first `n` cells, without the cells that have no trade.
pub open spec fn grid_rows(cell_trades: Seq<nat>, n: int) -> Seq<Row>
    decreases n,
{
    if n <= 0 {
        Seq::empty()
    } else if cell_trades[n - 1] > 0 {
        grid_rows(cell_trades, n - 1) + cell_rows(n - 1)
    } else {
        grid_rows(cell_trades, n - 1)
    }
}

/// The rows of the first `n` size buckets, without those that have no trade.
pub open spec fn size_rows(size_trades: Seq<nat>, n: int) -> Seq<Row>
    decreases n,
{
    if n <= 0 {
        Seq::empty()
    } else if size_trades[n - 1] > 0 {
        size_rows(size_trades, n - 1).push(
            Row::at(
                "by_size_bucket",
                Value::SizeBucket {
                    label: SIZE_BUCKET_LABELS[n - 1],
                    channel: Channel::EffectiveSpreadBySize((n - 1) as usize),
                },
            ),
        )
    } else {
        size_rows(size_trades, n - 1)
    }
}

impl View for OptionsEffectiveSpreadTracker {
    type V = EffectiveSpreadState;

    closed spec fn view(&self) -> EffectiveSpreadState {
        EffectiveSpreadState {
            utc_offset: self.utc_offset,
            cell_trades: Seq::new(20, |i: int| self.cell_trades[i] as nat),
            size_trades: Seq::new(6, |i: int| self.size_trades[i] as nat),
            all: TradeLocations {
                inside: self.trades_inside_bbo as nat,
                at: self.trades_at_bbo as nat,
                outside: self.trades_outside_bbo as nat,
            },
            dte0_atm: TradeLocations {
                inside: self.trades_inside_bbo_0dte_atm as nat,
                at: self.trades_at_bbo_0dte_atm as nat,
                outside: self.trades_outside_bbo_0dte_atm as nat,
            },
            total_trades: self.total_trades as nat,
            n_days: self.n_days as nat,
        }
    }
}

impl Default for OptionsEffectiveSpreadTracker {
    fn default() -> (r: Self)
        ensures
            r@ == EffectiveSpreadState::start(),
            Self::valid(r@),
    {
        Self::new()
    }
}

impl OptionsEffectiveSpreadTracker {
    /// A tracker that has seen nothing.
    pub fn new() -> (r: Self)
        ensures
            r@ == EffectiveSpreadState::start(),
            Self::valid(r@),
    {
        let r = OptionsEffectiveSpreadTracker {
            utc_offset: DEFAULT_UTC_OFFSET,
            cell_trades: [0; 20],
            size_trades: [0; 6],
            trades_inside_bbo: 0,
            trades_at_bbo: 0,
            trades_outside_bbo: 0,
            trades_inside_bbo_0dte_atm: 0,
            trades_at_bbo_0dte_atm: 0,
            trades_outside_bbo_0dte_atm: 0,
            total_trades: 0,
            n_days: 0,
        };
        proof {
            lemma_zero_sum(r@.cell_trades, 20);
            lemma_zero_sum(r@.size_trades, 6);
        }
        r
    }
}

proof fn lemma_zero_sum(counts: Seq<nat>, n: int)
    requires
        0 <= n <= counts.len(),
        forall|i: int| 0 <= i < counts.len() ==> #[trigger] counts[i] == 0,
    ensures
        sum_of(counts, n) == 0,
    decreases n,
{
    if n > 0 {
        lemma_zero_sum(counts, n - 1);
    }
}

/// One more in one place is one more in the sum.
proof fn lemma_sum_update(counts: Seq<nat>, at: int, n: int)
    requires
        0 <= at < counts.len(),
        0 <= n <= counts.len(),
    ensures
        sum_of(counts.update(at, counts[at] + 1), n) == sum_of(counts, n) + (if at < n {
            1nat
        } else {
            0
        }),
    decreases n,
{
    if n > 0 {
        lemma_sum_update(counts, at, n - 1);
    }
}

/// A part is not more than the sum.
proof fn lemma_part_of_sum(counts: Seq<nat>, at: int, n: int)
    requires
        0 <= at < n <= counts.len(),
    ensures
        counts[at] <= sum_of(counts, n),
    decreases n,
{
    if at < n - 1 {
        lemma_part_of_sum(counts, at, n - 1);
    }
}

impl OptionsTracker for OptionsEffectiveSpreadTracker {
    /// Every trade took place inside, at or outside of the quote, is in one
    /// cell of the grid and in one size bucket.
    open spec fn valid(s: EffectiveSpreadState) -> bool {
        &&& s.cell_trades.len() == 20 && s.size_trades.len() == 6
        &&& s.all.total() == s.total_trades
        &&& sum_of(s.cell_trades, 20) == s.total_trades
        &&& sum_of(s.size_trades, 6) == s.total_trades
        &&& s.dte0_atm.inside <= s.all.inside
        &&& s.dte0_atm.at <= s.all.at
        &&& s.dte0_atm.outside <= s.all.outside
        &&& s.total_trades <= u64::MAX
    }

    open spec fn room(s: EffectiveSpreadState) -> bool {
        s.total_trades <= COUNTER_LIMIT && s.n_days < u32::MAX
    }

    open spec fn begun(s: EffectiveSpreadState, ctx: DayContext) -> EffectiveSpreadState {
        EffectiveSpreadState { utc_offset: ctx.utc_offset, ..s }
    }

    open spec fn after_event(
        s: EffectiveSpreadState,
        event: OptionsEvent<'_>,
    ) -> EffectiveSpreadState {
        let (price, bid, ask) = (
            event.trade_price->0 as int,
            event.bid_px->0 as int,
            event.ask_px->0 as int,
        );
        let cell = cell_of(event);
        let size = size_bucket_of(event.trade_size as int);
        if !priced_trade(event) {
            s
        } else {
            EffectiveSpreadState {
                cell_trades: s.cell_trades.update(cell, s.cell_trades[cell] + 1),
                size_trades: s.size_trades.update(size, s.size_trades[size] + 1),
                all: s.all.with(price, bid, ask),
                dte0_atm: if event.zero_dte() && event.atm() {
                    s.dte0_atm.with(price, bid, ask)
                } else {
                    s.dte0_atm
                },
                total_trades: s.total_trades + 1,
                ..s
            }
        }
    }

    /// The effective and the quoted spread enter the statistics of the trade's
    /// cell, the effective spread that of its size, and for a contract at the
    /// money that expires today both enter the curves.
    open spec fn event_effects(s: EffectiveSpreadState, event: OptionsEvent<'_>) -> Seq<Effect> {
        let effective = effective_spread_of(event);
        let quoted = event.spread_of()->0;
        let d = crate::report_utils::bucket_of(event.dte as int) as usize;
        let m = crate::report_utils::index_of(event.moneyness) as usize;
        let size = size_bucket_of(event.trade_size as int) as usize;
        if !priced_trade(event) {
            Seq::empty()
        } else {
            seq![
                Effect::observed(Channel::EffectiveSpread(d, m), effective),
                Effect::observed(Channel::QuotedSpread(d, m), quoted),
                Effect::observed(Channel::EffectiveSpreadBySize(size), effective),
            ] + if event.zero_dte() && event.atm() {
                seq![
                    Effect::traced(
                        Channel::EffectiveSpreadCurve,
                        event.ts_event,
                        effective,
                        s.utc_offset,
                    ),
                    Effect::traced(
                        Channel::QuotedSpreadCurve,
                        event.ts_event,
                        quoted,
                        s.utc_offset,
                    ),
                ]
            } else {
                Seq::empty()
            }
        }
    }

    open spec fn after_day(s: EffectiveSpreadState) -> EffectiveSpreadState {
        EffectiveSpreadState { n_days: s.n_days + 1, ..s }
    }

    open spec fn day_effects(s: EffectiveSpreadState) -> Seq<Effect> {
        Seq::empty()
    }

    open spec fn after_reset(s: EffectiveSpreadState) -> EffectiveSpreadState {
        s
    }

    open spec fn pending(s: EffectiveSpreadState) -> Seq<IvProblem> {
        Seq::empty()
    }

    open spec fn after_solution(
        s: EffectiveSpreadState,
        problem: IvProblem,
        solution: IvSolution,
    ) -> EffectiveSpreadState {
        s
    }

    open spec fn solution_effects(
        s: EffectiveSpreadState,
        problem: IvProblem,
        solution: IvSolution,
    ) -> Seq<Effect> {
        Seq::empty()
    }

    open spec fn report(s: EffectiveSpreadState) -> Seq<Row> {
        seq![
            Row::at("tracker", Value::Text("OptionsEffectiveSpreadTracker")),
            Row::at("n_days", Value::Count(s.n_days as u64)),
            Row::at("total_trades", Value::Count(s.total_trades as u64)),
        ] + s.all.rows("all") + s.dte0_atm.rows("0dte_atm") + seq![
            Row::at("by_dte_moneyness", Value::EmptyObject),
        ] + grid_rows(s.cell_trades, 20) + seq![Row::at("by_size_bucket", Value::EmptyArray)]
            + size_rows(s.size_trades, 6) + seq![
            Row::curve_at(
                "intraday_effective_spread_0dte_atm",
                Channel::EffectiveSpreadCurve,
                "mean_effective_spread",
            ),
            Row::curve_at(
                "intraday_quoted_spread_0dte_atm",
                Channel::QuotedSpreadCurve,
                "mean_quoted_spread",
            ),
        ]
    }

    open spec fn label() -> &'static str {
        "OptionsEffectiveSpreadTracker"
    }

    fn has_room(&self) -> bool {
        self.total_trades <= COUNTER_LIMIT && self.n_days < u32::MAX
    }

    fn begin_day(&mut self, ctx: &DayContext) {
        self.utc_offset = ctx.utc_offset;
    }

    fn process_event(&mut self, event: &OptionsEvent<'_>, regime: u8) -> Vec<Effect> {
        let ghost before = self@;
        let mut effects: Vec<Effect> = Vec::new();
        if !event.is_trade() || event.trade_size == 0 || !event.has_valid_bbo() {
            return effects;
        }
        let (trade_price, bid, ask): (i64, i64, i64) = match (
            event.trade_price,
            event.bid_px,
            event.ask_px,
        ) {
            (Some(price), Some(bid), Some(ask)) => (price, bid, ask),
            _ => {
                return effects;
            },
        };
        if trade_price <= 0 {
            return effects;
        }
        let quoted_spread = Fraction { num: ask as i128 - bid as i128, den: 1_000_000_000 };
        let gap: i128 = 2 * trade_price as i128 - (bid as i128 + ask as i128);
        let effective_spread = Fraction {
            num: if gap < 0 {
                -gap
            } else {
                gap
            },
            den: 1_000_000_000,
        };
        let dte_idx: usize = dte_bucket_index(event.dte);
        let mon_idx: usize = moneyness_index(event.moneyness);
        let size_idx: usize = size_bucket_index(event.trade_size);
        effects.push(Effect::observe(Channel::EffectiveSpread(dte_idx, mon_idx), effective_spread));
        effects.push(Effect::observe(Channel::QuotedSpread(dte_idx, mon_idx), quoted_spread));
        effects.push(Effect::observe(Channel::EffectiveSpreadBySize(size_idx), effective_spread));
        let cell: usize = dte_idx * 5 + mon_idx;
        proof {
            lemma_part_of_sum(before.cell_trades, cell as int, 20);
            lemma_part_of_sum(before.size_trades, size_idx as int, 6);
            lemma_sum_update(before.cell_trades, cell as int, 20);
            lemma_sum_update(before.size_trades, size_idx as int, 6);
            assert(before.cell_trades[cell as int] == self.cell_trades[cell as int]);
            assert(before.size_trades[size_idx as int] == self.size_trades[size_idx as int]);
        }
        self.cell_trades[cell] = self.cell_trades[cell] + 1;
        self.size_trades[size_idx] = self.size_trades[size_idx] + 1;
        self.total_trades = self.total_trades + 1;
        let inside: bool = trade_price > bid && trade_price < ask;
        let at_bbo: bool = trade_price == bid || trade_price == ask;
        if inside {
            self.trades_inside_bbo = self.trades_inside_bbo + 1;
        } else if at_bbo {
            self.trades_at_bbo = self.trades_at_bbo + 1;
        } else {
            self.trades_outside_bbo = self.trades_outside_bbo + 1;
        }
        if event.is_zero_dte() && event.is_atm() {
            if inside {
                self.trades_inside_bbo_0dte_atm = self.trades_inside_bbo_0dte_atm + 1;
            } else if at_bbo {
                self.trades_at_bbo_0dte_atm = self.trades_at_bbo_0dte_atm + 1;
            } else {
                self.trades_outside_bbo_0dte_atm = self.trades_outside_bbo_0dte_atm + 1;
            }
            let ts: i64 = event.ts_event;
            effects.push(
                Effect::trace(Channel::EffectiveSpreadCurve, ts, effective_spread, self.utc_offset),
            );
            effects.push(
                Effect::trace(Channel::QuotedSpreadCurve, ts, quoted_spread, self.utc_offset),
            );
        }
        assert(self@ =~= Self::after_event(before, *event));
        assert(effects@ =~= Self::event_effects(before, *event));
        effects
    }

    fn end_of_day(&mut self, day_index: u32) -> Vec<Effect> {
        self.n_days = self.n_days + 1;
        Vec::new()
    }

    fn reset_day(&mut self) {
    }

    fn awaits_solution(&self, problem: &IvProblem) -> bool {
        false
    }

    fn resolve(&mut self, problem: &IvProblem, solution: &IvSolution) -> Vec<Effect> {
        Vec::new()
    }

    fn finalize(&self) -> Vec<Row> {
        let mut rows: Vec<Row> = vec![
            Row::top("tracker", Value::Text("OptionsEffectiveSpreadTracker")),
            Row::top("n_days", Value::Count(self.n_days as u64)),
            Row::top("total_trades", Value::Count(self.total_trades)),
        ];
        let mut all: Vec<Row> = location_rows(
            "all",
            self.trades_inside_bbo,
            self.trades_at_bbo,
            self.trades_outside_bbo,
        );
        let mut dte0_atm: Vec<Row> = location_rows(
            "0dte_atm",
            self.trades_inside_bbo_0dte_atm,
            self.trades_at_bbo_0dte_atm,
            self.trades_outside_bbo_0dte_atm,
        );
        rows.append(&mut all);
        rows.append(&mut dte0_atm);
        rows.push(Row::top("by_dte_moneyness", Value::EmptyObject));
        let ghost head = rows@;
        let mut cell: usize = 0;
        assert(head + grid_rows(self@.cell_trades, 0) =~= rows@);
        while cell < N_CELLS
            invariant
                cell <= 20,
                rows@ == head + grid_rows(self@.cell_trades, cell as int),
            decreases 20 - cell,
        {
            assert(self@.cell_trades[cell as int] == self.cell_trades[cell as int]);
            if self.cell_trades[cell] > 0 {
                let d: usize = cell / 5;
                let m: usize = cell % 5;
                let effective = Channel::EffectiveSpread(d, m);
                let quoted = Channel::QuotedSpread(d, m);
                let (dte_label, mon_label) = (DTE_LABELS[d], MONEYNESS_LABELS[m]);
                rows.push(
                    Row {
                        key: Key::Four(
                            "by_dte_moneyness",
                            dte_label,
                            mon_label,
                            "effective_spread",
                        ),
                        value: Value::MeanStdCount(effective),
                    },
                );
                rows.push(
                    Row {
                        key: Key::Four("by_dte_moneyness", dte_label, mon_label, "quoted_spread"),
                        value: Value::MeanStdCount(quoted),
                    },
                );
                rows.push(
                    Row {
                        key: Key::Four(
                            "by_dte_moneyness",
                            dte_label,
                            mon_label,
                            "effective_vs_quoted_ratio",
                        ),
                        value: Value::MeanQuotient(effective, quoted),
                    },
                );
            }
            assert(rows@ =~= head + grid_rows(self@.cell_trades, cell + 1));
            cell = cell + 1;
        }
        rows.push(Row::top("by_size_bucket", Value::EmptyArray));
        let ghost middle = rows@;
        let mut size: usize = 0;
        assert(middle + size_rows(self@.size_trades, 0) =~= rows@);
        while size < N_SIZE_BUCKETS
            invariant
                size <= 6,
                rows@ == middle + size_rows(self@.size_trades, size as int),
            decreases 6 - size,
        {
            assert(self@.size_trades[size as int] == self.size_trades[size as int]);
            if self.size_trades[size] > 0 {
                let label = SIZE_BUCKET_LABELS[size];
                rows.push(
                    Row::top(
                        "by_size_bucket",
                        Value::SizeBucket { label, channel: Channel::EffectiveSpreadBySize(size) },
                    ),
                );
            }
            assert(rows@ =~= middle + size_rows(self@.size_trades, size + 1));
            size = size + 1;
        }
        rows.push(
            Row::curve(
                "intraday_effective_spread_0dte_atm",
                Channel::EffectiveSpreadCurve,
                "mean_effective_spread",
            ),
        );
        rows.push(
            Row::curve(
                "intraday_quoted_spread_0dte_atm",
                Channel::QuotedSpreadCurve,
                "mean_quoted_spread",
            ),
        );
        assert(rows@ =~= Self::report(self@));
        rows
    }

    fn name(&self) -> &'static str {
        "OptionsEffectiveSpreadTracker"
    }
}

/// The rows of trade locations, with the rates of trades outside and inside.
fn location_rows(group: &'static str, inside: u64, at: u64, outside: u64) -> (rows: Vec<Row>)
    requires
        inside + at + outside <= u64::MAX,
    ensures
        rows@ == (TradeLocations {
            inside: inside as nat,
            at: at as nat,
            outside: outside as nat,
        }).rows(group),
{
    let total: u64 = inside + at + outside;
    vec![
        Row::deep("trade_location", group, "inside_bbo", Value::Count(inside)),
        Row::deep("trade_location", group, "at_bbo", Value::Count(at)),
        Row::deep("trade_location", group, "outside_bbo", Value::Count(outside)),
        Row::deep("trade_location", group, "trade_through_rate", share(outside, total, 1)),
        Row::deep("trade_location", group, "price_improvement_rate", share(inside, total, 1)),
    ]
}

/// A trade inside of the quote costs less than the quoted spread, one at the
/// quote exactly that, and one outside more.
pub proof fn law_location_orders_cost(event: OptionsEvent<'_>)
    requires
        priced_trade(event),
    ensures
        ({
            let (price, bid, ask) = (event.trade_price->0, event.bid_px->0, event.ask_px->0);
            let effective = effective_spread_of(event);
            let quoted = event.spread_of()->0;
            &&& (bid < price < ask) == effective.lt(quoted)
            &&& (price == bid || price == ask) == effective.same_value(quoted)
            &&& (price < bid || ask < price) == quoted.lt(effective)
        }),
{
    let e = effective_spread_of(event).num as int;
    let q = event.spread_of()->0.num as int;
    let n = 1_000_000_000int;
    assert((e * n < q * n) == (e < q) && (q * n < e * n) == (q < e) && (e * n == q * n) == (e
        == q)) by (nonlinear_arith)
        requires
            n > 0,
    ;
}

/// The statistics that an event enters.
pub open spec fn feeds(channel: Channel, event: OptionsEvent<'_>) -> bool {
    priced_trade(event) && match channel {
        Channel::EffectiveSpread(d, m) => d < 4 && m < 5 && cell_of(event) == d * 5 + m,
        Channel::QuotedSpread(d, m) => d < 4 && m < 5 && cell_of(event) == d * 5 + m,
        Channel::EffectiveSpreadBySize(b) => size_bucket_of(event.trade_size as int) == b,
        Channel::EffectiveSpreadCurve | Channel::QuotedSpreadCurve => event.zero_dte()
            && event.atm(),
        _ => false,
    }
}

/// Over any history, the total is the number of priced trades, and each of them
/// is counted where it took place, in its cell and in its size bucket.
pub proof fn law_priced_trades_are_counted<'a>(
    s: EffectiveSpreadState,
    calls: Seq<TrackerCall<'a>>,
)
    requires
        OptionsEffectiveSpreadTracker::valid(s),
    ensures
        ({
            let after = crate::history::after_history::<OptionsEffectiveSpreadTracker>(s, calls);
            &&& after.total_trades == s.total_trades + crate::history::count_events(
                calls,
                |e: OptionsEvent<'a>| priced_trade(e),
            )
            &&& after.all.inside == s.all.inside + crate::history::count_events(
                calls,
                |e: OptionsEvent<'a>|
                    priced_trade(e) && e.bid_px->0 < e.trade_price->0 < e.ask_px->0,
            )
            &&& after.all.at == s.all.at + crate::history::count_events(
                calls,
                |e: OptionsEvent<'a>|
                    priced_trade(e) && (e.trade_price->0 == e.bid_px->0 || e.trade_price->0
                        == e.ask_px->0),
            )
            &&& after.all.outside == s.all.outside + crate::history::count_events(
                calls,
                |e: OptionsEvent<'a>|
                    priced_trade(e) && (e.trade_price->0 < e.bid_px->0 || e.ask_px->0
                        < e.trade_price->0),
            )
            &&& after.dte0_atm.total() == s.dte0_atm.total() + crate::history::count_events(
                calls,
                |e: OptionsEvent<'a>| priced_trade(e) && e.zero_dte() && e.atm(),
            )
            &&& after.cell_trades.len() == 20 && after.size_trades.len() == 6
            &&& forall|c: int|
                0 <= c < 20 ==> #[trigger] after.cell_trades[c] == s.cell_trades[c]
                    + crate::history::count_events(
                    calls,
                    |e: OptionsEvent<'a>| priced_trade(e) && cell_of(e) == c,
                )
            &&& forall|b: int|
                0 <= b < 6 ==> #[trigger] after.size_trades[b] == s.size_trades[b]
                    + crate::history::count_events(
                    calls,
                    |e: OptionsEvent<'a>|
                        priced_trade(e) && size_bucket_of(e.trade_size as int) == b,
                )
            &&& after.n_days == s.n_days + crate::history::count_days(calls)
        }),
    decreases calls.len(),
{
    if calls.len() > 0 {
        law_priced_trades_are_counted(s, calls.drop_last());
    }
}

/// An event is observed once in each statistic that it feeds.
proof fn lemma_event_observations(s: EffectiveSpreadState, e: OptionsEvent<'_>, channel: Channel)
    ensures
        crate::history::observations(OptionsEffectiveSpreadTracker::event_effects(s, e), channel)
            == crate::history::one_if(feeds(channel, e)),
{
    reveal_with_fuel(crate::history::observed_first, 6);
}

/// What the end of a day adds to the observations.
proof fn lemma_day_observations(s: EffectiveSpreadState, channel: Channel)
    ensures
        crate::history::observations(OptionsEffectiveSpreadTracker::day_effects(s), channel) == 0,
{
    reveal_with_fuel(crate::history::observed_first, 1);
}

/// Over any history, each statistic has one observation for every priced trade
/// that belongs to it. So the statistics of a cell and of a size bucket have as
/// many as the tracker counts trades there.
pub proof fn law_priced_trades_are_observed<'a>(
    s: EffectiveSpreadState,
    calls: Seq<TrackerCall<'a>>,
    channel: Channel,
)
    requires
        OptionsEffectiveSpreadTracker::valid(s),
    ensures
        ({
            let after = crate::history::after_history::<OptionsEffectiveSpreadTracker>(s, calls);
            let effects = crate::history::history_effects::<OptionsEffectiveSpreadTracker>(
                s,
                calls,
            );
            let events = crate::history::count_events(
                calls,
                |e: OptionsEvent<'a>| feeds(channel, e),
            );
            let n = crate::history::observations(effects, channel);
            &&& n == events
            &&& after.cell_trades.len() == 20 && after.size_trades.len() == 6
            &&& match channel {
                Channel::EffectiveSpread(d, m) => d < 4 && m < 5 ==> n == after.cell_trades[d * 5
                    + m] - s.cell_trades[d * 5 + m],
                Channel::QuotedSpread(d, m) => d < 4 && m < 5 ==> n == after.cell_trades[d * 5 + m]
                    - s.cell_trades[d * 5 + m],
                Channel::EffectiveSpreadBySize(b) => b < 6 ==> n == after.size_trades[b as int]
                    - s.size_trades[b as int],
                _ => true,
            }
        }),
    decreases calls.len(),
{
    if calls.len() == 0 {
        crate::history::lemma_no_observations(channel);
    } else {
        let rest = crate::history::after_history::<OptionsEffectiveSpreadTracker>(
            s,
            calls.drop_last(),
        );
        law_priced_trades_are_observed(s, calls.drop_last(), channel);
        crate::history::lemma_last_call::<OptionsEffectiveSpreadTracker>(s, calls, channel);
        match calls.last() {
            TrackerCall::Event(event) => lemma_event_observations(rest, event, channel),
            TrackerCall::End => lemma_day_observations(rest, channel),
            _ => {},
        }
    }
}

/// What a trade contributes, by its price and the quote: twice the distance of
/// the price from the mid-price, whichever side of it the price is on, and the
/// quoted spread, in the statistics of its DTE bucket and moneyness class, of
/// its size, and for a contract at the money that expires on its day at the
/// time of the trade. Only a trade with a size and a positive price against a
/// quote with the ask above a positive bid contributes.
pub proof fn law_spreads_of_a_trade(
    s: EffectiveSpreadState,
    e: OptionsEvent<'_>,
    d: usize,
    m: usize,
    b: usize,
)
    requires
        d < 4 && m < 5 && b < 6,
    ensures
        ({
            let effects = OptionsEffectiveSpreadTracker::event_effects(s, e);
            let traded = e.action == crate::event::Action::Trade && e.trade_size > 0
                && e.trade_price is Some && e.trade_price->0 > 0 && e.bid_px is Some
                && e.ask_px is Some && 0 < e.bid_px->0 < e.ask_px->0;
            let (price, bid, ask) = (
                e.trade_price->0 as int,
                e.bid_px->0 as int,
                e.ask_px->0 as int,
            );
            let cost = if 2 * price >= bid + ask {
                2 * price - bid - ask
            } else {
                bid + ask - 2 * price
            };
            let quoted = ask - bid;
            let in_cell = traded && crate::report_utils::bucket_of(e.dte as int) == d
                && crate::report_utils::index_of(e.moneyness) == m;
            let own = traded && e.dte == 0 && e.moneyness
                == crate::options_math::moneyness::Moneyness::Atm;
            let of_size = traded && size_bucket_of(e.trade_size as int) == b;
            let (ts, at) = (e.ts_event, s.utc_offset);
            let dollar = 1_000_000_000int;
            &&& crate::history::observes(
                effects,
                Channel::EffectiveSpread(d, m),
                in_cell,
                cost,
                dollar,
            )
            &&& crate::history::observes(
                effects,
                Channel::QuotedSpread(d, m),
                in_cell,
                quoted,
                dollar,
            )
            &&& crate::history::observes(
                effects,
                Channel::EffectiveSpreadBySize(b),
                of_size,
                cost,
                dollar,
            )
            &&& crate::history::traces(
                effects,
                Channel::EffectiveSpreadCurve,
                own,
                ts,
                at,
                cost,
                dollar,
            )
            &&& crate::history::traces(
                effects,
                Channel::QuotedSpreadCurve,
                own,
                ts,
                at,
                quoted,
                dollar,
            )
        }),
{
    crate::event::law_accessors_by_the_prices(e);
    lemma_event_observations(s, e, Channel::EffectiveSpread(d, m));
    lemma_event_observations(s, e, Channel::QuotedSpread(d, m));
    lemma_event_observations(s, e, Channel::EffectiveSpreadBySize(b));
    lemma_event_observations(s, e, Channel::EffectiveSpreadCurve);
    lemma_event_observations(s, e, Channel::QuotedSpreadCurve);
}

/// Trades as far above the mid-price as below it have the same effective spread,
/// and one further away has a greater one.
pub proof fn law_effective_spread_is_the_distance_from_the_mid(
    a: OptionsEvent<'_>,
    b: OptionsEvent<'_>,
)
    requires
        a.trade_price is Some && a.bid_px is Some && a.ask_px is Some,
        b.trade_price is Some && b.bid_px == a.bid_px && b.ask_px == a.ask_px,
    ensures
        ({
            let (x, y) = (effective_spread_of(a), effective_spread_of(b));
            let sum = a.bid_px->0 + a.ask_px->0;
            &&& a.trade_price->0 + b.trade_price->0 == sum ==> x.same_value(y)
            &&& 2 * a.trade_price->0 >= sum && b.trade_price->0 > a.trade_price->0 ==> x.lt(y)
            &&& 2 * a.trade_price->0 <= sum && b.trade_price->0 < a.trade_price->0 ==> x.lt(y)
        }),
{
}

/// Where a trade took place, by its price and the quote, and the counters that
/// it moves: each by one, and no others.
pub proof fn law_trade_is_counted_where_it_took_place(
    s: EffectiveSpreadState,
    e: OptionsEvent<'_>,
)
    ensures
        ({
            let after = OptionsEffectiveSpreadTracker::after_event(s, e);
            let traded = e.action == crate::event::Action::Trade && e.trade_size > 0
                && e.trade_price is Some && e.trade_price->0 > 0 && e.bid_px is Some
                && e.ask_px is Some && 0 < e.bid_px->0 < e.ask_px->0;
            let (price, bid, ask) = (e.trade_price->0, e.bid_px->0, e.ask_px->0);
            let own = traded && e.dte == 0 && e.moneyness
                == crate::options_math::moneyness::Moneyness::Atm;
            let inside = bid < price < ask;
            let outside = price < bid || ask < price;
            let one = |hit: bool| crate::history::one_if(hit);
            &&& after.total_trades == s.total_trades + one(traded)
            &&& after.all.inside == s.all.inside + one(traded && inside)
            &&& after.all.outside == s.all.outside + one(traded && outside)
            &&& after.all.at == s.all.at + one(traded && !inside && !outside)
            &&& after.dte0_atm.inside == s.dte0_atm.inside + one(own && inside)
            &&& after.dte0_atm.outside == s.dte0_atm.outside + one(own && outside)
            &&& after.dte0_atm.at == s.dte0_atm.at + one(own && !inside && !outside)
            &&& after.n_days == s.n_days
        }),
{
}

/// The buckets of trade sizes: one contract, up to 5, up to 10, up to 50, up to
/// 100, and more.
pub proof fn law_size_buckets(size: int)
    requires
        size > 0,
    ensures
        size_bucket_of(size) == 0 <==> size == 1,
        size_bucket_of(size) == 1 <==> 2 <= size <= 5,
        size_bucket_of(size) == 2 <==> 6 <= size <= 10,
        size_bucket_of(size) == 3 <==> 11 <= size <= 50,
        size_bucket_of(size) == 4 <==> 51 <= size <= 100,
        size_bucket_of(size) == 5 <==> size > 100,
{
}

/// Over any history, points are traced under the UTC offset of the last day that
/// began.
pub proof fn law_effective_spread_offset_is_that_of_the_day(
    s: EffectiveSpreadState,
    calls: Seq<TrackerCall<'_>>,
)
    ensures
        crate::history::after_history::<OptionsEffectiveSpreadTracker>(s, calls).utc_offset
            == crate::history::offset_after(s.utc_offset, calls),
    decreases calls.len(),
{
    if calls.len() > 0 {
        law_effective_spread_offset_is_that_of_the_day(s, calls.drop_last());
    }
}

/// The rows of a cell stand in the report exactly when the cell has a trade.
proof fn lemma_grid_rows(cell_trades: Seq<nat>, n: int, row: Row)
    requires
        0 <= n <= 20,
    ensures
        grid_rows(cell_trades, n).contains(row) <==> exists|c: int|
            0 <= c < n && cell_trades[c] > 0 && #[trigger] cell_rows(c).contains(row),
    decreases n,
{
    if n > 0 {
        lemma_grid_rows(cell_trades, n - 1, row);
        let before = grid_rows(cell_trades, n - 1);
        lemma_rows_of_sum(before, cell_rows(n - 1), row);
        if before.contains(row) {
            let c = choose|c: int|
                0 <= c < n - 1 && cell_trades[c] > 0 && #[trigger] cell_rows(c).contains(row);
            assert(cell_rows(c).contains(row));
        }
        if cell_trades[n - 1] > 0 && cell_rows(n - 1).contains(row) {
            assert(0 <= n - 1 < n);
        }
    }
}

/// What a concatenation holds.
proof fn lemma_rows_of_sum(a: Seq<Row>, b: Seq<Row>, row: Row)
    ensures
        (a + b).contains(row) <==> a.contains(row) || b.contains(row),
{
    if a.contains(row) {
        let i = choose|i: int| 0 <= i < a.len() && a[i] == row;
        assert((a + b)[i] == row);
    }
    if b.contains(row) {
        let i = choose|i: int| 0 <= i < b.len() && b[i] == row;
        assert((a + b)[a.len() + i] == row);
    }
    if (a + b).contains(row) {
        let i = choose|i: int| 0 <= i < (a + b).len() && (a + b)[i] == row;
        if i < a.len() {
            assert(a[i] == row);
        } else {
            assert(b[i - a.len()] == row);
        }
    }
}

/// Of the grid, the report shows a DTE bucket and a moneyness class exactly
/// when some trade was of both: under their labels, the effective spread, the
/// quoted spread, and the quotient of the two.
pub proof fn law_grid_shows_the_cells_with_trades(cell_trades: Seq<nat>, d: usize, m: usize)
    requires
        d < 4,
        m < 5,
    ensures
        ({
            let rows = grid_rows(cell_trades, 20);
            let at = |name: &'static str|
                Key::Four(
                    "by_dte_moneyness",
                    DTE_LABELS[d as int],
                    MONEYNESS_LABELS[m as int],
                    name,
                );
            let effective = Channel::EffectiveSpread(d, m);
            let quoted = Channel::QuotedSpread(d, m);
            let shown = cell_trades[d * 5 + m] > 0;
            &&& rows.contains(
                (Row { key: at("effective_spread"), value: Value::MeanStdCount(effective) }),
            ) <==> shown
            &&& rows.contains(
                (Row { key: at("quoted_spread"), value: Value::MeanStdCount(quoted) }),
            ) <==> shown
            &&& rows.contains(
                (Row {
                    key: at("effective_vs_quoted_ratio"),
                    value: Value::MeanQuotient(effective, quoted),
                }),
            ) <==> shown
        }),
{
    let cell = d * 5 + m;
    let rows = cell_rows(cell);
    assert(cell / 5 == d && cell % 5 == m);
    assert(rows.contains(rows[0]) && rows.contains(rows[1]) && rows.contains(rows[2]));
    assert forall|k: int, c: int|
        0 <= k < 3 && 0 <= c < 20 && #[trigger] cell_rows(c).contains(
            #[trigger] rows[k],
        ) implies c == cell by {
        let other = cell_rows(c);
        let l = choose|l: int| 0 <= l < other.len() && other[l] == rows[k];
        assert(other.len() == 3);
        assert(l == 0 || l == 1 || l == 2);
        assert(c / 5 == d && c % 5 == m);
    }
    lemma_grid_rows(cell_trades, 20, rows[0]);
    lemma_grid_rows(cell_trades, 20, rows[1]);
    lemma_grid_rows(cell_trades, 20, rows[2]);
}

/// Of the sizes, the report shows a bucket exactly when some trade was of it.
pub proof fn law_sizes_show_the_buckets_with_trades(size_trades: Seq<nat>, n: int, b: usize)
    requires
        0 <= n <= 6,
    ensures
        size_rows(size_trades, n).contains(
            (Row {
                key: Key::One("by_size_bucket"),
                value: Value::SizeBucket {
                    label: SIZE_BUCKET_LABELS[b as int],
                    channel: Channel::EffectiveSpreadBySize(b),
                },
            }),
        ) <==> b < n && size_trades[b as int] > 0,
    decreases n,
{
    if n > 0 {
        law_sizes_show_the_buckets_with_trades(size_trades, n - 1, b);
        let row = Row {
            key: Key::One("by_size_bucket"),
            value: Value::SizeBucket {
                label: SIZE_BUCKET_LABELS[b as int],
                channel: Channel::EffectiveSpreadBySize(b),
            },
        };
        let before = size_rows(size_trades, n - 1);
        if size_trades[n - 1] > 0 {
            let last = size_rows(size_trades, n).last();
            assert(size_rows(size_trades, n) =~= before + seq![last]);
            lemma_rows_of_sum(before, seq![last], row);
            if b == n - 1 {
                assert(seq![last][0] == row);
            }
        }
    }
}

/// What a tracker reports of its trades after any history from its start: the
/// number of days and of priced trades, how many of these were inside, at and
/// outside the quote, and the outside and the inside ones as shares of all.
pub proof fn law_effective_spread_report_is_that_of_the_history<'a>(calls: Seq<TrackerCall<'a>>)
    ensures
        ({
            let s = crate::history::after_history::<OptionsEffectiveSpreadTracker>(
                EffectiveSpreadState::start(),
                calls,
            );
            let rows = OptionsEffectiveSpreadTracker::report(s);
            let days = crate::history::count_days(calls);
            let trades = crate::history::count_events(
                calls,
                |e: OptionsEvent<'a>| priced_trade(e),
            );
            let inside = crate::history::count_events(
                calls,
                |e: OptionsEvent<'a>|
                    priced_trade(e) && e.bid_px->0 < e.trade_price->0 < e.ask_px->0,
            );
            let touching = crate::history::count_events(
                calls,
                |e: OptionsEvent<'a>|
                    priced_trade(e) && (e.trade_price->0 == e.bid_px->0 || e.trade_price->0
                        == e.ask_px->0),
            );
            let outside = crate::history::count_events(
                calls,
                |e: OptionsEvent<'a>|
                    priced_trade(e) && (e.trade_price->0 < e.bid_px->0 || e.ask_px->0
                        < e.trade_price->0),
            );
            let located = |name: &'static str, value: Value|
                Row::within("trade_location", "all", name, value);
            &&& rows[1] == Row::at("n_days", Value::Count(days as u64))
            &&& rows[2] == Row::at("total_trades", Value::Count(trades as u64))
            &&& rows[3] == located("inside_bbo", Value::Count(inside as u64))
            &&& rows[4] == located("at_bbo", Value::Count(touching as u64))
            &&& rows[5] == located("outside_bbo", Value::Count(outside as u64))
            &&& rows[6] == located(
                "trade_through_rate",
                crate::report::share_of(outside, trades, 1),
            )
            &&& rows[7] == located(
                "price_improvement_rate",
                crate::report::share_of(inside, trades, 1),
            )
        }),
{
    let start = EffectiveSpreadState::start();
    lemma_zero_sum(start.cell_trades, 20);
    lemma_zero_sum(start.size_trades, 6);
    law_priced_trades_are_counted(start, calls);
    lemma_located(start, calls);
}

/// Every priced trade is in one place.
proof fn lemma_located(s: EffectiveSpreadState, calls: Seq<TrackerCall<'_>>)
    requires
        s.all.total() == s.total_trades,
    ensures
        ({
            let after = crate::history::after_history::<OptionsEffectiveSpreadTracker>(s, calls);
            after.all.total() == after.total_trades
        }),
    decreases calls.len(),
{
    if calls.len() > 0 {
        lemma_located(s, calls.drop_last());
    }
}

} // verus!
