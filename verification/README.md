# rust_maphf_sandbox

Synthetic tick data for the Micro E-mini S&P 500, laid out for `hftbacktest`: a
scenario of market themes (bullish, bearish, sideways, flash crash, correction) is
given tick budgets, cut into randomly sized segments by a budgeted Markov process,
and each segment is generated phase by phase.

`src/` is the verified library. It holds everything that is integer logic:

- the scenario builder and its validation (weights in parts per billion);
- the phases of each theme and how a segment is divided among them;
- the tick budgets, the theme transitions and the plan of segments, with the
  random choices made through `rand`'s `StdRng`;
- the seeds, event flags and nanosecond timestamps of generated trades;
- the raw binary and `.npy` layouts of event records, and their decoding;
- the choice of a backtest session's data source.

Prices are floating-point and stay outside the library: `app/` draws them from
`market-data-source`, rounds them to the tick size, compares them to decide the
trade side, and assembles `hftbacktest` events. It also writes files (CSV, `.npz`
through `zip`, raw binary), prints progress, and runs backtests.
