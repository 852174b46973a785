//! The phase structure of each market theme and the split of a segment among phases.

use vstd::prelude::*;

use crate::types::MarketTheme;

verus! {

/// One uniform parameter set of the underlying stochastic generator.
///
/// Each kind names one fixed set of volatility, trend strength and trend direction.
#[derive(Debug, Clone, Copy, PartialEq, Eq, Structural)]
pub enum PhaseKind {
    /// Low volatility, weak upward trend.
    Bullish,
    /// Medium volatility, moderate downward trend.
    Bearish,
    /// Very low volatility, no trend.
    Sideways,
    /// The plunge of a flash crash: very high volatility, strong downward trend.
    FlashCrashPlunge,
    /// The snapback of a flash crash: high volatility, strong upward trend.
    FlashCrashSnapback,
    /// The slide of a correction: elevated volatility, downward trend.
    CorrectionSlide,
    /// The bottom of a correction: low volatility, no trend.
    CorrectionBottom,
    /// The recovery of a correction: elevated volatility, upward trend.
    CorrectionRecover,
}

/// The internal segments of a theme: a single phase, or several phases in order
/// with their relative durations in percent.
#[derive(Debug)]
pub enum RegimePhase {
    Atomic(PhaseKind),
    Sequence(Vec<PhaseKind>, Vec<u32>),
}

/// One phase of a segment together with the number of ticks it runs for.
#[derive(Debug, Clone, Copy, PartialEq, Eq, Structural)]
pub struct PhaseSegment {
    pub phase: PhaseKind,
    pub ticks: usize,
}

/// The phases of a theme, in order.
pub open spec fn theme_phase_kinds(theme: MarketTheme) -> Seq<PhaseKind> {
    match theme {
        MarketTheme::Bullish => seq![PhaseKind::Bullish],
        MarketTheme::Bearish => seq![PhaseKind::Bearish],
        MarketTheme::Sideways => seq![PhaseKind::Sideways],
        MarketTheme::FlashCrash => seq![PhaseKind::FlashCrashPlunge, PhaseKind::FlashCrashSnapback],
        MarketTheme::Correction => seq![
            PhaseKind::CorrectionSlide,
            PhaseKind::CorrectionBottom,
            PhaseKind::CorrectionRecover,
        ],
    }
}

/// The relative durations (percent) of the phases of a multi-phase theme.
pub open spec fn theme_phase_weights(theme: MarketTheme) -> Seq<u32> {
    match theme {
        MarketTheme::FlashCrash => seq![40u32, 60u32],
        MarketTheme::Correction => seq![30u32, 40u32, 30u32],
        _ => seq![],
    }
}

/// Whether a theme runs through several phases.
pub open spec fn theme_is_sequence(theme: MarketTheme) -> bool {
    theme == MarketTheme::FlashCrash || theme == MarketTheme::Correction
}

/// Sum of the first `n` weights.
pub open spec fn weight_sum(ws: Seq<u32>, n: int) -> int
    decreases n,
{
    if n <= 0 {
        0
    } else {
        weight_sum(ws, n - 1) + ws[n - 1]
    }
}

/// The ticks a phase of weight `w` percent receives out of `total` (rounded down).
pub open spec fn phase_share(total: int, w: int) -> int {
    total * w / 100
}

/// The ticks taken by the phases before phase `i`, for `i` below the last phase.
pub open spec fn shares_before(total: int, ws: Seq<u32>, i: int) -> int
    decreases i,
{
    if i <= 0 {
        0
    } else {
        shares_before(total, ws, i - 1) + phase_share(total, ws[i - 1] as int)
    }
}

/// The ticks of phase `i`: its share, and for the last phase whatever is left.
pub open spec fn phase_ticks(total: int, ws: Seq<u32>, i: int) -> int {
    if i == ws.len() - 1 {
        total - shares_before(total, ws, i)
    } else {
        phase_share(total, ws[i] as int)
    }
}

/// The phases among the first `i` that get at least one tick, with their ticks.
pub open spec fn split_prefix(ks: Seq<PhaseKind>, ws: Seq<u32>, total: int, i: int) -> Seq<PhaseSegment>
    decreases i,
{
    if i <= 0 {
        seq![]
    } else {
        let t = phase_ticks(total, ws, i - 1);
        if t > 0 {
            split_prefix(ks, ws, total, i - 1).push(PhaseSegment { phase: ks[i - 1], ticks: t as usize })
        } else {
            split_prefix(ks, ws, total, i - 1)
        }
    }
}

/// Total ticks of a list of phase segments.
pub open spec fn segments_total(s: Seq<PhaseSegment>) -> int
    decreases s.len(),
{
    if s.len() == 0 {
        0
    } else {
        segments_total(s.drop_last()) + s.last().ticks
    }
}

/// The ticks of the first `i` phases, zero-tick phases included.
pub open spec fn ticks_before(total: int, ws: Seq<u32>, i: int) -> int
    decreases i,
{
    if i <= 0 {
        0
    } else {
        ticks_before(total, ws, i - 1) + phase_ticks(total, ws, i - 1)
    }
}

proof fn lemma_weight_sum_nonneg(ws: Seq<u32>, i: int)
    ensures
        0 <= weight_sum(ws, i),
    decreases i,
{
    if i > 0 {
        lemma_weight_sum_nonneg(ws, i - 1);
    }
}

proof fn lemma_weight_sum_monotone(ws: Seq<u32>, i: int, j: int)
    requires
        0 <= i <= j,
    ensures
        0 <= weight_sum(ws, i) <= weight_sum(ws, j),
    decreases j,
{
    lemma_weight_sum_nonneg(ws, i);
    if j > i {
        lemma_weight_sum_monotone(ws, i, j - 1);
    }
}

proof fn lemma_shares_scaled(total: int, ws: Seq<u32>, i: int)
    requires
        total >= 0,
        0 <= i <= ws.len(),
    ensures
        0 <= shares_before(total, ws, i),
        shares_before(total, ws, i) * 100 <= total * weight_sum(ws, i),
    decreases i,
{
    if i > 0 {
        lemma_shares_scaled(total, ws, i - 1);
        let w = ws[i - 1] as int;
        let sb = shares_before(total, ws, i - 1);
        let s = weight_sum(ws, i - 1);
        assert(0 <= phase_share(total, w) && phase_share(total, w) * 100 <= total * w)
            by (nonlinear_arith)
            requires
                total >= 0,
                w >= 0,
        ;
        assert(total * (s + w) == total * s + total * w) by (nonlinear_arith);
    }
}

/// The phases before `i` never take more than the whole segment while their
/// weights add up to at most one hundred percent.
proof fn lemma_shares_fit(total: int, ws: Seq<u32>, i: int)
    requires
        total >= 0,
        0 <= i <= ws.len(),
        weight_sum(ws, i) <= 100,
    ensures
        0 <= shares_before(total, ws, i) <= total,
{
    lemma_shares_scaled(total, ws, i);
    lemma_weight_sum_monotone(ws, 0, i);
    let sb = shares_before(total, ws, i);
    let s = weight_sum(ws, i);
    assert(sb <= total) by (nonlinear_arith)
        requires
            sb * 100 <= total * s,
            0 <= s <= 100,
            total >= 0,
    ;
}

proof fn lemma_ticks_before(total: int, ws: Seq<u32>, i: int)
    requires
        0 <= i < ws.len(),
    ensures
        ticks_before(total, ws, i) == shares_before(total, ws, i),
    decreases i,
{
    if i > 0 {
        lemma_ticks_before(total, ws, i - 1);
    }
}

proof fn lemma_split_prefix_total(ks: Seq<PhaseKind>, ws: Seq<u32>, total: int, i: int)
    requires
        0 <= i <= ws.len(),
        forall|j: int| 0 <= j < i ==> 0 <= #[trigger] phase_ticks(total, ws, j) <= usize::MAX,
    ensures
        segments_total(split_prefix(ks, ws, total, i)) == ticks_before(total, ws, i),
        forall|j: int|
            0 <= j < split_prefix(ks, ws, total, i).len() ==> #[trigger] split_prefix(ks, ws, total, i)[j].ticks > 0,
    decreases i,
{
    if i > 0 {
        lemma_split_prefix_total(ks, ws, total, i - 1);
        let t = phase_ticks(total, ws, i - 1);
        let prev = split_prefix(ks, ws, total, i - 1);
        if t > 0 {
            let cur = prev.push(PhaseSegment { phase: ks[i - 1], ticks: t as usize });
            assert(cur.drop_last() =~= prev);
        }
    }
}

/// The phases of a segment together run for exactly the segment's ticks, and in a
/// sequence no phase is left with zero ticks.
pub proof fn lemma_split_covers_segment(phases: RegimePhase, total: usize)
    requires
        phases.wf(),
    ensures
        segments_total(phases.split(total as int)) == total,
        phases is Sequence ==> forall|j: int|
            0 <= j < phases.split(total as int).len() ==> #[trigger] phases.split(total as int)[j].ticks > 0,
{
    match phases {
        RegimePhase::Atomic(k) => {
            let s = seq![PhaseSegment { phase: k, ticks: total }];
            assert(s.drop_last() =~= Seq::<PhaseSegment>::empty());
            reveal_with_fuel(segments_total, 2);
        },
        RegimePhase::Sequence(ks, ws) => {
            let n = ws@.len() as int;
            let t = total as int;
            lemma_shares_fit(t, ws@, n - 1);
            assert forall|j: int| 0 <= j < n implies 0 <= #[trigger] phase_ticks(t, ws@, j) <= usize::MAX by {
                if j < n - 1 {
                    lemma_weight_sum_monotone(ws@, j + 1, n - 1);
                    lemma_shares_fit(t, ws@, j + 1);
                    lemma_shares_fit(t, ws@, j);
                }
            }
            lemma_split_prefix_total(ks@, ws@, t, n);
            lemma_ticks_before(t, ws@, n - 1);
        },
    }
}

/// Divides a segment of `total_ticks` ticks among the phases of a theme.
pub fn split_segment(phases: &RegimePhase, total_ticks: usize) -> (parts: Vec<PhaseSegment>)
    requires
        phases.wf(),
    ensures
        parts@ == phases.split(total_ticks as int),
        segments_total(parts@) == total_ticks,
{
    proof {
        lemma_split_covers_segment(*phases, total_ticks);
    }
    match phases {
        RegimePhase::Atomic(k) => vec![PhaseSegment { phase: *k, ticks: total_ticks }],
        RegimePhase::Sequence(ks, ws) => {
            let n = ks.len();
            let ghost total = total_ticks as int;
            let mut parts: Vec<PhaseSegment> = Vec::new();
            let mut used: usize = 0;
            let mut i: usize = 0;
            while i < n
                invariant
                    n == ks@.len(),
                    ks@.len() == ws@.len(),
                    n > 0,
                    weight_sum(ws@, n - 1) <= 100,
                    total == total_ticks,
                    0 <= i <= n,
                    i < n ==> used == shares_before(total, ws@, i as int),
                    used <= total_ticks,
                    parts@ == split_prefix(ks@, ws@, total, i as int),
                decreases n - i,
            {
                proof {
                    lemma_shares_fit(total, ws@, n - 1);
                    if i < n - 1 {
                        lemma_weight_sum_monotone(ws@, i + 1, n - 1);
                        lemma_shares_fit(total, ws@, i + 1);
                    }
                }
                let t: usize = if i == n - 1 {
                    total_ticks - used
                } else {
                    let w: u128 = ws[i] as u128;
                    let share: u128 = (total_ticks as u128) * w / 100;
                    assert(share == phase_share(total, ws@[i as int] as int));
                    share as usize
                };
                assert(t == phase_ticks(total, ws@, i as int));
                if t > 0 {
                    parts.push(PhaseSegment { phase: ks[i], ticks: t });
                }
                used = used + t;
                i = i + 1;
            }
            parts
        },
    }
}

/// How a segment of `total` ticks of a theme is divided among its phases.
pub open spec fn theme_split(theme: MarketTheme, total: int) -> Seq<PhaseSegment> {
    let ks = theme_phase_kinds(theme);
    if theme_is_sequence(theme) {
        split_prefix(ks, theme_phase_weights(theme), total, ks.len() as int)
    } else {
        seq![PhaseSegment { phase: ks[0], ticks: total as usize }]
    }
}

impl RegimePhase {
    /// The phases, in order.
    pub open spec fn kinds(&self) -> Seq<PhaseKind> {
        match self {
            RegimePhase::Atomic(k) => seq![*k],
            RegimePhase::Sequence(ks, _) => ks@,
        }
    }

    /// The relative durations of a sequence (empty for a single phase).
    pub open spec fn weights(&self) -> Seq<u32> {
        match self {
            RegimePhase::Atomic(_) => seq![],
            RegimePhase::Sequence(_, ws) => ws@,
        }
    }

    /// A sequence has one weight per phase, at least one phase, and the weights of
    /// all phases but the last add up to at most one hundred percent.
    pub open spec fn wf(&self) -> bool {
        match self {
            RegimePhase::Atomic(_) => true,
            RegimePhase::Sequence(ks, ws) => {
                &&& ks@.len() > 0
                &&& ks@.len() == ws@.len()
                &&& weight_sum(ws@, ws@.len() - 1) <= 100
            },
        }
    }

    /// How a segment of `total` ticks is divided among the phases: a single phase
    /// takes it all; in a sequence every phase but the last takes its share rounded
    /// down, the last takes the rest, and phases left with no tick are dropped.
    pub open spec fn split(&self, total: int) -> Seq<PhaseSegment> {
        match self {
            RegimePhase::Atomic(k) => seq![PhaseSegment { phase: *k, ticks: total as usize }],
            RegimePhase::Sequence(ks, ws) => split_prefix(ks@, ws@, total, ks@.len() as int),
        }
    }
}

impl MarketTheme {
    /// Divides a segment of `total_ticks` ticks of this theme among its phases.
    pub fn split_ticks(&self, total_ticks: usize) -> (parts: Vec<PhaseSegment>)
        ensures
            parts@ == theme_split(*self, total_ticks as int),
            segments_total(parts@) == total_ticks,
    {
        let phases = self.get_phases();
        split_segment(&phases, total_ticks)
    }

    /// The phases of this theme: one phase for the steady themes, a plunge and a
    /// snapback (40% / 60%) for a flash crash, a slide, a bottom and a recovery
    /// (30% / 40% / 30%) for a correction.
    pub fn get_phases(&self) -> (r: RegimePhase)
        ensures
            r.kinds() == theme_phase_kinds(*self),
            r.weights() == theme_phase_weights(*self),
            (r is Sequence) == theme_is_sequence(*self),
            r.wf(),
    {
        match self {
            MarketTheme::Bullish => RegimePhase::Atomic(PhaseKind::Bullish),
            MarketTheme::Bearish => RegimePhase::Atomic(PhaseKind::Bearish),
            MarketTheme::Sideways => RegimePhase::Atomic(PhaseKind::Sideways),
            MarketTheme::FlashCrash => {
                let ks = vec![PhaseKind::FlashCrashPlunge, PhaseKind::FlashCrashSnapback];
                let ws: Vec<u32> = vec![40, 60];
                assert(ks@ == theme_phase_kinds(*self));
                assert(ws@ == theme_phase_weights(*self));
                assert(weight_sum(ws@, 1) == 40) by {
                    reveal_with_fuel(weight_sum, 2);
                }
                RegimePhase::Sequence(ks, ws)
            },
            MarketTheme::Correction => {
                let ks = vec![
                    PhaseKind::CorrectionSlide,
                    PhaseKind::CorrectionBottom,
                    PhaseKind::CorrectionRecover,
                ];
                let ws: Vec<u32> = vec![30, 40, 30];
                assert(ks@ == theme_phase_kinds(*self));
                assert(ws@ == theme_phase_weights(*self));
                assert(weight_sum(ws@, 2) == 70) by {
                    reveal_with_fuel(weight_sum, 3);
                }
                RegimePhase::Sequence(ks, ws)
            },
        }
    }
}

} // verus!
