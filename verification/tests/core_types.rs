use rust_maphf_sandbox::types::{MarketState, MarketTheme};

/// Verifies that `MarketState::new` correctly assigns all initialization values.
#[test]
fn test_market_state_initialization() {
    let price = 5000.0;
    let ts = 1672531200000;
    let seed = 42;
    let state = MarketState::new(f64::to_bits(price), ts, seed);

    assert_eq!(f64::from_bits(state.last_price_bits), price);
    assert_eq!(state.last_timestamp_ms, ts);
    assert_eq!(state.base_seed, seed);
    assert_eq!(state.segment_count, 0);
}

/// Ensures that different `MarketTheme` variants are not considered equal.
#[test]
fn test_market_theme_uniqueness() {
    let t1 = MarketTheme::Bullish;
    let t2 = MarketTheme::Bearish;
    assert_ne!(t1, t2);
}

#[test]
fn at_date_starts_at_midnight_utc() {
    let state = MarketState::at_date(2023, 1, 1, f64::to_bits(5000.0), 42);
    assert_eq!(state.last_timestamp_ms, 1672531200000);
    assert_eq!(f64::from_bits(state.last_price_bits), 5000.0);
    assert_eq!(state.base_seed, 42);
    assert_eq!(state.segment_count, 0);
}

#[test]
fn at_date_handles_epoch_leap_days_and_earlier_years() {
    assert_eq!(MarketState::at_date(1970, 1, 1, 0, 0).last_timestamp_ms, 0);
    // 2024 is a leap year: 2024-03-01 is 60 days after 2024-01-01.
    let jan = MarketState::at_date(2024, 1, 1, 0, 0).last_timestamp_ms;
    let mar = MarketState::at_date(2024, 3, 1, 0, 0).last_timestamp_ms;
    assert_eq!(mar - jan, 60 * 86_400_000);
    // 2000-02-29 exists (divisible by 400).
    assert_eq!(MarketState::at_date(2000, 2, 29, 0, 0).last_timestamp_ms, 951782400000);
    // 1969-12-31 is one day before the epoch.
    assert_eq!(MarketState::at_date(1969, 12, 31, 0, 0).last_timestamp_ms, -86_400_000);
}
