//! Event flags and timestamps of generated trades.
//!
//! Every generated tick is a trade seen both by the exchange and locally; the
//! exchange timestamp advances by one millisecond per tick, and the local
//! timestamp trails it by one millisecond of simulated latency.

use hftbacktest::types::{BUY_EVENT, EXCH_EVENT, LOCAL_EVENT, SELL_EVENT, TRADE_EVENT};
use vstd::prelude::*;

use crate::types::MarketState;

verus! {

/// Nanoseconds in one millisecond.
pub const NANOS_PER_MILLI: i64 = 1_000_000;

/// `hftbacktest::types::TRADE_EVENT`, which its source defines as 2.
#[verifier::external_body]
fn trade_event_flag() -> (r: u64)
    ensures
        r == 2,
{
    TRADE_EVENT
}

/// `hftbacktest::types::EXCH_EVENT`, which its source defines as `1 << 31`.
#[verifier::external_body]
fn exch_event_flag() -> (r: u64)
    ensures
        r == 0x8000_0000,
{
    EXCH_EVENT
}

/// `hftbacktest::types::LOCAL_EVENT`, which its source defines as `1 << 30`.
#[verifier::external_body]
fn local_event_flag() -> (r: u64)
    ensures
        r == 0x4000_0000,
{
    LOCAL_EVENT
}

/// `hftbacktest::types::BUY_EVENT`, which its source defines as `1 << 29`.
#[verifier::external_body]
fn buy_event_flag() -> (r: u64)
    ensures
        r == 0x2000_0000,
{
    BUY_EVENT
}

/// `hftbacktest::types::SELL_EVENT`, which its source defines as `1 << 28`.
#[verifier::external_body]
fn sell_event_flag() -> (r: u64)
    ensures
        r == 0x1000_0000,
{
    SELL_EVENT
}

/// The flags of a trade handled by both the exchange and the local processor,
/// with the initiator's side.
pub open spec fn spec_trade_flags(buy: bool) -> u64 {
    2u64 | 0x8000_0000u64 | 0x4000_0000u64 | (if buy { 0x2000_0000u64 } else { 0x1000_0000u64 })
}

/// The flags of a trade: trade, exchange and local event, buyer- or seller-initiated.
pub fn trade_flags(buy: bool) -> (ev: u64)
    ensures
        ev == spec_trade_flags(buy),
{
    let side = if buy {
        buy_event_flag()
    } else {
        sell_event_flag()
    };
    trade_event_flag() | exch_event_flag() | local_event_flag() | side
}

/// The integer header of one generated trade event.
#[derive(Debug, Clone, Copy, PartialEq, Eq, Structural)]
pub struct TradeStamp {
    /// Event flags.
    pub ev: u64,
    /// Exchange timestamp in nanoseconds.
    pub exch_ts: i64,
    /// Local timestamp in nanoseconds.
    pub local_ts: i64,
}

/// Exchange timestamp (ns) of the `k`-th tick (from 0) after a last timestamp of `ts_ms`.
pub open spec fn stamp_exch_ts(ts_ms: int, k: int) -> int {
    (ts_ms + k + 1) * NANOS_PER_MILLI
}

/// Local timestamp (ns) of the `k`-th tick (from 0) after a last timestamp of `ts_ms`.
pub open spec fn stamp_local_ts(ts_ms: int, k: int) -> int {
    (ts_ms + k + 2) * NANOS_PER_MILLI
}

/// `n` ticks after a last timestamp of `ts_ms` can be stamped in nanoseconds
/// without leaving the range of an `i64`.
pub open spec fn stamps_fit(ts_ms: int, n: int) -> bool {
    n > 0 ==> i64::MIN <= stamp_exch_ts(ts_ms, 0) && stamp_local_ts(ts_ms, n - 1) <= i64::MAX
}

impl MarketState {
    /// The seed of the next raw segment, `base_seed + segment_count`; counts the segment.
    pub fn next_segment_seed(&mut self) -> (seed: u64)
        requires
            old(self).base_seed + old(self).segment_count <= u64::MAX,
            old(self).segment_count < u64::MAX,
        ensures
            seed == old(self).base_seed + old(self).segment_count,
            final(self).segment_count == old(self).segment_count + 1,
            final(self).base_seed == old(self).base_seed,
            final(self).last_timestamp_ms == old(self).last_timestamp_ms,
            final(self).last_price_bits == old(self).last_price_bits,
    {
        let seed = self.base_seed + self.segment_count;
        self.segment_count = self.segment_count + 1;
        seed
    }

    /// Stamps one trade per entry of `buy_sides` (true for a buyer-initiated trade):
    /// the `k`-th trade happens `k + 1` milliseconds after the last timestamp and
    /// is received locally one millisecond later. The last timestamp moves to the
    /// last trade.
    pub fn stamp_trades(&mut self, buy_sides: &Vec<bool>) -> (stamps: Vec<TradeStamp>)
        requires
            stamps_fit(old(self).last_timestamp_ms as int, buy_sides@.len() as int),
        ensures
            stamps@.len() == buy_sides@.len(),
            forall|k: int|
                0 <= k < stamps@.len() ==> (#[trigger] stamps@[k]).ev == spec_trade_flags(buy_sides@[k])
                    && stamps@[k].exch_ts == stamp_exch_ts(old(self).last_timestamp_ms as int, k)
                    && stamps@[k].local_ts == stamp_local_ts(old(self).last_timestamp_ms as int, k),
            final(self).last_timestamp_ms == old(self).last_timestamp_ms + buy_sides@.len(),
            final(self).base_seed == old(self).base_seed,
            final(self).segment_count == old(self).segment_count,
            final(self).last_price_bits == old(self).last_price_bits,
    {
        let n = buy_sides.len();
        let ghost ts0 = self.last_timestamp_ms as int;
        let mut stamps: Vec<TradeStamp> = Vec::new();
        let mut ts: i64 = self.last_timestamp_ms;
        let mut k: usize = 0;
        while k < n
            invariant
                n == buy_sides@.len(),
                stamps_fit(ts0, n as int),
                0 <= k <= n,
                ts == ts0 + k,
                stamps@.len() == k,
                forall|j: int|
                    0 <= j < k ==> (#[trigger] stamps@[j]).ev == spec_trade_flags(buy_sides@[j])
                        && stamps@[j].exch_ts == stamp_exch_ts(ts0, j)
                        && stamps@[j].local_ts == stamp_local_ts(ts0, j),
            decreases n - k,
        {
            ts = ts + 1;
            let ev = trade_flags(buy_sides[k]);
            stamps.push(TradeStamp { ev, exch_ts: ts * NANOS_PER_MILLI, local_ts: (ts + 1) * NANOS_PER_MILLI });
            k = k + 1;
        }
        self.last_timestamp_ms = ts;
        stamps
    }
}

/// Timestamps are continuous: within a segment each trade comes exactly one
/// millisecond after the previous one, and the next segment, stamped from the
/// moved last timestamp, continues one millisecond after the last trade of this one.
pub proof fn lemma_stamps_continuous(ts_ms: int, n: int, k: int)
    requires
        0 <= k,
        0 < n,
    ensures
        stamp_exch_ts(ts_ms, k + 1) == stamp_exch_ts(ts_ms, k) + NANOS_PER_MILLI,
        stamp_local_ts(ts_ms, k) == stamp_exch_ts(ts_ms, k) + NANOS_PER_MILLI,
        stamp_exch_ts(ts_ms + n, 0) == stamp_exch_ts(ts_ms, n - 1) + NANOS_PER_MILLI,
        stamp_exch_ts(ts_ms, k) / NANOS_PER_MILLI as int == ts_ms + k + 1,
        stamp_exch_ts(ts_ms + n, k) == stamp_exch_ts(ts_ms, n + k),
        stamp_local_ts(ts_ms + n, k) == stamp_local_ts(ts_ms, n + k),
{
    assert(stamp_exch_ts(ts_ms, k) / NANOS_PER_MILLI as int == ts_ms + k + 1) by (nonlinear_arith);
}

} // verus!
