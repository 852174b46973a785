//! Synthetic high-frequency market data: the integer core of a theme-based,
//! budgeted Markov scenario generator whose output is laid out for `hftbacktest`.
//!
//! - `types`: market themes and the continuity state carried across segments.
//! - `generator`: the scenario recipe and its builder, the phase structure of each
//!   theme, the tick budgets and theme transitions of the plan, and the flags and
//!   timestamps of generated trades.
//! - `io`: the raw binary and `.npy` byte layouts of event records.
//! - `session`: where a backtest session takes its events from.

pub mod generator;
pub mod io;
pub mod session;
pub mod types;

pub use generator::ScenarioBuilder;
pub use types::{MarketState, MarketTheme};
