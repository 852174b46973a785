//! The scenario generator: recipes, theme phases, the budgeted Markov plan and
//! the stamping of generated trades.

pub mod builder;
pub mod events;
pub mod markov;
pub mod theme;

pub use crate::types::MarketTheme;
pub use builder::{Scenario, ScenarioBuilder};
