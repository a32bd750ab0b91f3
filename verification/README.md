# OPRA Statistical Profiler

Statistical profiling of OPRA options data. Consolidated top-of-book files
(`.dbn.zst`, CMBP-1 or CBBO) are read once, each record is enriched with its
contract, moneyness and underlying price, and composable trackers turn the events
into JSON profiles.

The logic is a Verus library: its behaviour is stated in contracts and proved.

- `src/` — the library. Records are accounted for (`loader`), symbols parsed
  (`contract`), events enriched and dispatched (`profiler`), and trackers
  (`trackers/`) decide which value enters which statistic. Prices are integers,
  and what is derived from them is an exact `Fraction`. Laws that relate several
  functions are the `law_*` proof functions.
- `tests/` — tests of the library.
- `app/` — the command line around it: TOML, DBN decoding, the floating-point
  pricing model and accumulators (`hft_statistics`), and JSON.

A run dispatches to a group of trackers: the built-in ones that the configuration
enables, or any others, one after the other (`tracker_set`). What a tracker's
counters and statistics amount to over a whole history of calls is stated with
the tracker, in terms of `history`.

What a tracker wants done with the statistics is a sequence of `Effect`s, which
the application performs. An implied volatility is stated as a problem and handed
back as a solution.

Outside crates are called through trusted items with contracts of their own:
`chrono` for the calendar (`date`), `ahash` for the contract map and the sets of
contracts (`contract`, `trackers/quality`), and `dbn` with `time` for symbology
(`contract`).
