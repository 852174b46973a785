//! The budgeted Markov engine: per-theme tick budgets, theme transitions and the
//! plan of segments that a scenario runs through.
//!
//! Every random choice goes through `rand`'s `StdRng`, seeded from the scenario.

use rand::rngs::StdRng;
use rand::seq::SliceRandom;
use rand::{Rng, SeedableRng};
use vstd::prelude::*;

use crate::generator::builder::{Scenario, ThemeWeight, WEIGHT_ONE};
use crate::generator::theme::{segments_total, theme_split, PhaseKind, PhaseSegment};
use crate::types::MarketTheme;

verus! {

/// `rand`'s standard generator, carried through opaquely.
#[verifier::external_type_specification]
#[verifier::external_body]
pub struct ExStdRng(StdRng);

/// `rand`'s `StdRng::seed_from_u64`: a generator seeded from `seed`. Nothing is
/// stated of its state.
#[verifier::external_body]
fn seeded_rng(seed: u64) -> StdRng {
    StdRng::seed_from_u64(seed)
}

/// `rand`'s `Rng::gen_range` on `min..max`: a value of the half-open range. The
/// call panics on an empty range, which `requires` rules out; which value comes
/// back depends on the generator's state and is not stated.
#[verifier::external_body]
fn roll_segment_len(rng: &mut StdRng, min: usize, max: usize) -> (r: usize)
    requires
        min < max,
    ensures
        min <= r < max,
{
    rng.gen_range(min..max)
}

/// `rand`'s `SliceRandom::choose`: `None` on an empty slice, which it returns at
/// once without touching the generator, otherwise one of its elements. Which
/// element depends on the generator's state and is not stated.
#[verifier::external_body]
fn choose_theme(themes: &Vec<MarketTheme>, rng: &mut StdRng) -> (r: Option<MarketTheme>)
    ensures
        r is None <==> themes@.len() == 0,
        r matches Some(t) ==> themes@.contains(t),
        themes@.len() == 0 ==> *final(rng) == *old(rng),
{
    themes.as_slice().choose(rng).copied()
}

/// The number of ticks still owed to one theme.
#[derive(Debug, Clone, Copy, PartialEq, Eq, Structural)]
pub struct ThemeBudget {
    pub theme: MarketTheme,
    pub ticks: usize,
}

/// One segment of the plan: a theme and the number of ticks it runs for.
#[derive(Debug, Clone, Copy, PartialEq, Eq, Structural)]
pub struct PlannedSegment {
    pub theme: MarketTheme,
    pub ticks: usize,
}

/// The ticks a weight of `w` parts per billion earns out of `total`: the share
/// rounded down, nothing for a weight that is not positive, at most `usize::MAX`.
pub open spec fn raw_budget(total: int, w: int) -> int {
    if w <= 0 {
        0
    } else if total * w / (WEIGHT_ONE as int) > usize::MAX {
        usize::MAX as int
    } else {
        total * w / (WEIGHT_ONE as int)
    }
}

/// The rounded-down budget of every theme, in the order of the weights.
pub open spec fn raw_budgets(ws: Seq<ThemeWeight>, total: int) -> Seq<ThemeBudget> {
    Seq::new(
        ws.len(),
        |i: int| ThemeBudget { theme: ws[i].theme, ticks: raw_budget(total, ws[i].weight_ppb as int) as usize },
    )
}

/// The sum of a list of budgets.
pub open spec fn budget_total(b: Seq<ThemeBudget>) -> int
    decreases b.len(),
{
    if b.len() == 0 {
        0
    } else {
        budget_total(b.drop_last()) + b.last().ticks
    }
}

/// The rounded-down budgets add up without overflowing a `usize`.
pub open spec fn budgets_fit(scenario: &Scenario) -> bool {
    budget_total(raw_budgets(scenario.theme_weights@, scenario.total_ticks as int)) <= usize::MAX
}

/// The starting budgets: the rounded-down shares, with whatever rounding left
/// over added to the first theme.
pub open spec fn scenario_budgets(scenario: &Scenario) -> Seq<ThemeBudget> {
    let total = scenario.total_ticks as int;
    let raw = raw_budgets(scenario.theme_weights@, total);
    let sum = budget_total(raw);
    if sum < total {
        raw.update(0, ThemeBudget { theme: raw[0].theme, ticks: (raw[0].ticks + (total - sum)) as usize })
    } else {
        raw
    }
}

/// No theme occurs twice in a list of budgets.
pub open spec fn budget_themes_unique(b: Seq<ThemeBudget>) -> bool {
    forall|i: int, j: int| 0 <= i < b.len() && 0 <= j < b.len() && i != j ==> b[i].theme != b[j].theme
}

/// The budget of theme `t` (zero when `t` has none).
pub open spec fn budget_of(b: Seq<ThemeBudget>, t: MarketTheme) -> int {
    if exists|i: int| 0 <= i < b.len() && b[i].theme == t {
        b[choose|i: int| 0 <= i < b.len() && b[i].theme == t].ticks as int
    } else {
        0
    }
}

/// The themes whose budget is not used up, in order.
pub open spec fn available_themes_spec(b: Seq<ThemeBudget>) -> Seq<MarketTheme>
    decreases b.len(),
{
    if b.len() == 0 {
        seq![]
    } else if b.last().ticks > 0 {
        available_themes_spec(b.drop_last()).push(b.last().theme)
    } else {
        available_themes_spec(b.drop_last())
    }
}

/// The theme a scenario starts with: `Sideways` when it has ticks to run, else the first theme.
pub open spec fn starting_theme_spec(b: Seq<ThemeBudget>) -> MarketTheme {
    if budget_of(b, MarketTheme::Sideways) > 0 {
        MarketTheme::Sideways
    } else {
        b[0].theme
    }
}

/// The total ticks of a plan.
pub open spec fn plan_total(p: Seq<PlannedSegment>) -> int
    decreases p.len(),
{
    if p.len() == 0 {
        0
    } else {
        plan_total(p.drop_last()) + p.last().ticks
    }
}

/// The ticks a plan gives to theme `t`.
pub open spec fn theme_total(p: Seq<PlannedSegment>, t: MarketTheme) -> int
    decreases p.len(),
{
    if p.len() == 0 {
        0
    } else {
        theme_total(p.drop_last(), t) + (if p.last().theme == t { p.last().ticks as int } else { 0 })
    }
}

proof fn lemma_budget_of_index(b: Seq<ThemeBudget>, i: int)
    requires
        budget_themes_unique(b),
        0 <= i < b.len(),
    ensures
        budget_of(b, b[i].theme) == b[i].ticks,
{
}

proof fn lemma_budget_of_absent(b: Seq<ThemeBudget>, t: MarketTheme)
    requires
        forall|i: int| 0 <= i < b.len() ==> b[i].theme != t,
    ensures
        budget_of(b, t) == 0,
{
}

proof fn lemma_budget_total_nonneg(b: Seq<ThemeBudget>)
    ensures
        budget_total(b) >= 0,
    decreases b.len(),
{
    if b.len() > 0 {
        lemma_budget_total_nonneg(b.drop_last());
    }
}

proof fn lemma_budget_total_take(b: Seq<ThemeBudget>, i: int)
    requires
        0 <= i < b.len(),
    ensures
        budget_total(b.take(i + 1)) == budget_total(b.take(i)) + b[i].ticks,
        budget_total(b.take(i + 1)) <= budget_total(b),
    decreases b.len() - i,
{
    assert(b.take(i + 1).drop_last() =~= b.take(i));
    if i + 1 < b.len() {
        lemma_budget_total_take(b, i + 1);
    } else {
        assert(b.take(i + 1) =~= b);
    }
}

proof fn lemma_budget_total_update(b: Seq<ThemeBudget>, k: int, nb: ThemeBudget)
    requires
        0 <= k < b.len(),
    ensures
        budget_total(b.update(k, nb)) == budget_total(b) - b[k].ticks + nb.ticks,
    decreases b.len(),
{
    let u = b.update(k, nb);
    if k == b.len() - 1 {
        assert(u.drop_last() =~= b.drop_last());
    } else {
        lemma_budget_total_update(b.drop_last(), k, nb);
        assert(u.drop_last() =~= b.drop_last().update(k, nb));
    }
}

proof fn lemma_budget_positive_member(b: Seq<ThemeBudget>)
    requires
        budget_total(b) > 0,
    ensures
        exists|i: int| 0 <= i < b.len() && b[i].ticks > 0,
    decreases b.len(),
{
    if b.last().ticks == 0 {
        lemma_budget_positive_member(b.drop_last());
        let i = choose|i: int| 0 <= i < b.drop_last().len() && b.drop_last()[i].ticks > 0;
        assert(b[i].ticks > 0);
    }
}

proof fn lemma_budget_zero_total(b: Seq<ThemeBudget>)
    requires
        budget_total(b) == 0,
    ensures
        forall|i: int| 0 <= i < b.len() ==> b[i].ticks == 0,
    decreases b.len(),
{
    if b.len() > 0 {
        lemma_budget_total_nonneg(b.drop_last());
        lemma_budget_zero_total(b.drop_last());
        assert forall|i: int| 0 <= i < b.len() implies b[i].ticks == 0 by {
            if i < b.len() - 1 {
                assert(b[i] == b.drop_last()[i]);
            }
        }
    }
}

proof fn lemma_available_member(b: Seq<ThemeBudget>, t: MarketTheme)
    ensures
        available_themes_spec(b).contains(t) <==> exists|i: int| 0 <= i < b.len() && b[i].theme == t && b[i].ticks > 0,
    decreases b.len(),
{
    if b.len() > 0 {
        let prev = b.drop_last();
        lemma_available_member(prev, t);
        if available_themes_spec(b).contains(t) {
            if b.last().ticks > 0 && b.last().theme == t {
                assert(b[b.len() - 1].theme == t);
            } else {
                let a = available_themes_spec(b);
                let k = choose|k: int| 0 <= k < a.len() && a[k] == t;
                if b.last().ticks > 0 {
                    assert(a == available_themes_spec(prev).push(b.last().theme));
                    assert(available_themes_spec(prev)[k] == t);
                }
                assert(available_themes_spec(prev).contains(t));
                let i = choose|i: int| 0 <= i < prev.len() && prev[i].theme == t && prev[i].ticks > 0;
                assert(b[i] == prev[i]);
            }
        }
        if exists|i: int| 0 <= i < b.len() && b[i].theme == t && b[i].ticks > 0 {
            let i = choose|i: int| 0 <= i < b.len() && b[i].theme == t && b[i].ticks > 0;
            if i == b.len() - 1 {
                assert(available_themes_spec(b).last() == t);
            } else {
                assert(prev[i] == b[i]);
                assert(available_themes_spec(prev).contains(t));
                let a0 = available_themes_spec(prev);
                let k = choose|k: int| 0 <= k < a0.len() && a0[k] == t;
                if b.last().ticks > 0 {
                    assert(available_themes_spec(b)[k] == t);
                }
            }
        }
    }
}

proof fn lemma_plan_total_nonneg(p: Seq<PlannedSegment>)
    ensures
        plan_total(p) >= 0,
    decreases p.len(),
{
    if p.len() > 0 {
        lemma_plan_total_nonneg(p.drop_last());
    }
}

proof fn lemma_plan_push(p: Seq<PlannedSegment>, s: PlannedSegment, t: MarketTheme)
    ensures
        plan_total(p.push(s)) == plan_total(p) + s.ticks,
        theme_total(p.push(s), t) == theme_total(p, t) + (if s.theme == t { s.ticks as int } else { 0 }),
{
    assert(p.push(s).drop_last() =~= p);
}

/// The ticks a weight of `weight_ppb` parts per billion earns out of `total_ticks`.
fn budget_share(total_ticks: usize, weight_ppb: i64) -> (ticks: usize)
    ensures
        ticks == raw_budget(total_ticks as int, weight_ppb as int),
{
    if weight_ppb <= 0 {
        0
    } else {
        let tt: u128 = total_ticks as u128;
        let wu: u128 = weight_ppb as u128;
        assert(tt * wu <= 0xffff_ffff_ffff_ffff * 0x7fff_ffff_ffff_ffff) by (nonlinear_arith)
            requires
                tt <= 0xffff_ffff_ffff_ffff,
                wu <= 0x7fff_ffff_ffff_ffff,
        ;
        let share: u128 = tt * wu / (WEIGHT_ONE as u128);
        if share > usize::MAX as u128 {
            usize::MAX
        } else {
            share as usize
        }
    }
}

/// The starting budgets of a scenario: each theme's share of the total ticks,
/// rounded down, with the ticks left over by rounding added to the first theme.
/// Together they cover at least the total.
pub fn initial_budgets(scenario: &Scenario) -> (b: Vec<ThemeBudget>)
    requires
        scenario.wf(),
        budgets_fit(scenario),
    ensures
        b@ == scenario_budgets(scenario),
        budget_total(b@) >= scenario.total_ticks,
        budget_total(raw_budgets(scenario.theme_weights@, scenario.total_ticks as int)) <= scenario.total_ticks
            ==> budget_total(b@) == scenario.total_ticks,
        budget_themes_unique(b@),
        b@.len() == scenario.theme_weights@.len(),
        forall|i: int| 0 <= i < b@.len() ==> b@[i].theme == scenario.theme_weights@[i].theme,
{
    let ghost total = scenario.total_ticks as int;
    let ghost raw = raw_budgets(scenario.theme_weights@, total);
    let n = scenario.theme_weights.len();
    let mut b: Vec<ThemeBudget> = Vec::new();
    let mut sum: usize = 0;
    let mut i: usize = 0;
    while i < n
        invariant
            n == scenario.theme_weights@.len(),
            raw == raw_budgets(scenario.theme_weights@, total),
            total == scenario.total_ticks,
            budget_total(raw) <= usize::MAX,
            0 <= i <= n,
            b@ == raw.take(i as int),
            sum == budget_total(raw.take(i as int)),
        decreases n - i,
    {
        let ticks: usize = budget_share(scenario.total_ticks, scenario.theme_weights[i].weight_ppb);
        assert(ticks == raw[i as int].ticks);
        proof {
            lemma_budget_total_take(raw, i as int);
        }
        b.push(ThemeBudget { theme: scenario.theme_weights[i].theme, ticks });
        sum = sum + ticks;
        i = i + 1;
        assert(b@ =~= raw.take(i as int));
    }
    assert(raw.take(n as int) =~= raw);
    if sum < scenario.total_ticks {
        let first = b[0];
        proof {
            lemma_budget_total_update(b@, 0, ThemeBudget { theme: first.theme, ticks: (first.ticks + (total - sum)) as usize });
            lemma_budget_total_take(raw, 0);
            assert(raw.take(0) =~= Seq::<ThemeBudget>::empty());
        }
        b.set(0, ThemeBudget { theme: first.theme, ticks: first.ticks + (scenario.total_ticks - sum) });
    }
    b
}

/// Whether the rounded-down budgets of a scenario add up without overflowing a `usize`.
pub fn check_budgets_fit(scenario: &Scenario) -> (ok: bool)
    ensures
        ok == budgets_fit(scenario),
{
    let ghost total = scenario.total_ticks as int;
    let ghost raw = raw_budgets(scenario.theme_weights@, total);
    let n = scenario.theme_weights.len();
    let mut sum: u128 = 0;
    let mut i: usize = 0;
    while i < n
        invariant
            n == scenario.theme_weights@.len(),
            raw == raw_budgets(scenario.theme_weights@, total),
            total == scenario.total_ticks,
            0 <= i <= n,
            sum == budget_total(raw.take(i as int)),
            sum <= i * 0xffff_ffff_ffff_ffff,
        decreases n - i,
    {
        let ticks: usize = budget_share(scenario.total_ticks, scenario.theme_weights[i].weight_ppb);
        assert(ticks == raw[i as int].ticks);
        proof {
            lemma_budget_total_take(raw, i as int);
        }
        sum = sum + ticks as u128;
        i = i + 1;
    }
    assert(raw.take(n as int) =~= raw);
    sum <= usize::MAX as u128
}

/// Finds the position of theme `t` in a list of budgets.
fn find_budget(b: &Vec<ThemeBudget>, t: MarketTheme) -> (r: Option<usize>)
    ensures
        r matches Some(i) ==> i < b@.len() && b@[i as int].theme == t,
        r is None ==> forall|i: int| 0 <= i < b@.len() ==> b@[i].theme != t,
{
    let n = b.len();
    let mut i: usize = 0;
    while i < n
        invariant
            n == b@.len(),
            0 <= i <= n,
            forall|j: int| 0 <= j < i ==> b@[j].theme != t,
        decreases n - i,
    {
        if b[i].theme == t {
            return Some(i);
        }
        i = i + 1;
    }
    None
}

/// The themes whose budget is not used up, in the order of the budgets.
pub fn available_themes(b: &Vec<ThemeBudget>) -> (r: Vec<MarketTheme>)
    ensures
        r@ == available_themes_spec(b@),
        forall|t: MarketTheme|
            #![trigger r@.contains(t)]
            r@.contains(t) <==> exists|i: int| 0 <= i < b@.len() && b@[i].theme == t && b@[i].ticks > 0,
{
    let n = b.len();
    let mut r: Vec<MarketTheme> = Vec::new();
    let mut i: usize = 0;
    while i < n
        invariant
            n == b@.len(),
            0 <= i <= n,
            r@ == available_themes_spec(b@.take(i as int)),
        decreases n - i,
    {
        assert(b@.take(i + 1).drop_last() =~= b@.take(i as int));
        if b[i].ticks > 0 {
            r.push(b[i].theme);
        }
        i = i + 1;
    }
    assert(b@.take(n as int) =~= b@);
    assert forall|t: MarketTheme| #![trigger r@.contains(t)]
        r@.contains(t) <==> exists|i: int| 0 <= i < b@.len() && b@[i].theme == t && b@[i].ticks > 0 by {
        lemma_available_member(b@, t);
    }
    r
}

/// The theme a scenario starts with: `Sideways` when it has ticks to run, for a
/// quiet start, otherwise the first theme.
pub fn starting_theme(b: &Vec<ThemeBudget>) -> (r: MarketTheme)
    requires
        b@.len() > 0,
        budget_themes_unique(b@),
    ensures
        r == starting_theme_spec(b@),
{
    match find_budget(b, MarketTheme::Sideways) {
        Some(i) => {
            proof {
                lemma_budget_of_index(b@, i as int);
            }
            if b[i].ticks > 0 {
                MarketTheme::Sideways
            } else {
                b[0].theme
            }
        },
        None => {
            proof {
                lemma_budget_of_absent(b@, MarketTheme::Sideways);
            }
            b[0].theme
        },
    }
}

/// The length of a segment: the rolled length, cut to the current theme's budget
/// and to the ticks still owed.
pub fn segment_len(roll: usize, budget: usize, remaining: usize) -> (len: usize)
    ensures
        len <= roll,
        len <= budget,
        len <= remaining,
        len == roll || len == budget || len == remaining,
{
    let len: usize = if roll < budget {
        roll
    } else {
        budget
    };
    if remaining < len {
        remaining
    } else {
        len
    }
}

/// Picks the next theme at random among those with ticks left, or `Sideways`
/// when every budget is used up.
fn pick_next_theme(b: &Vec<ThemeBudget>, rng: &mut StdRng) -> (r: MarketTheme)
    ensures
        available_themes_spec(b@).len() == 0 ==> r == MarketTheme::Sideways && *final(rng) == *old(rng),
        available_themes_spec(b@).len() > 0 ==> available_themes_spec(b@).contains(r),
{
    let available = available_themes(b);
    match choose_theme(&available, rng) {
        Some(t) => t,
        None => MarketTheme::Sideways,
    }
}

/// Plans the segments of a scenario, in the order they are generated.
///
/// Starting from the initial theme, each step rolls a segment length in
/// `min_segment_ticks..max_segment_ticks`, cuts it to the current theme's budget
/// and to the ticks still owed, charges it to that budget, and picks the next
/// theme at random among those with ticks left. A theme with nothing left is
/// skipped. A roll of zero (possible only when `min_segment_ticks` is zero) still
/// makes a one-tick segment, so the plan goes on until every tick is planned.
///
/// Every segment has at least one tick, fewer than `max_segment_ticks` (or a
/// single tick), and belongs to a theme of the scenario; no theme runs beyond its
/// budget. The plan covers exactly `total_ticks`, and when the budgets add up to
/// exactly the total, every theme runs for exactly its budget.
pub fn plan_segments(scenario: &Scenario) -> (plan: Vec<PlannedSegment>)
    requires
        scenario.wf(),
        budgets_fit(scenario),
        scenario.total_ticks > 0 ==> scenario.min_segment_ticks < scenario.max_segment_ticks,
    ensures
        forall|k: int|
            0 <= k < plan@.len() ==> {
                &&& (#[trigger] plan@[k]).ticks > 0
                &&& plan@[k].ticks < scenario.max_segment_ticks || plan@[k].ticks == 1
                &&& exists|i: int| 0 <= i < scenario.theme_weights@.len() && scenario.theme_weights@[i].theme == plan@[k].theme
            },
        plan_total(plan@) == scenario.total_ticks,
        forall|i: int|
            0 <= i < scenario_budgets(scenario).len() ==> theme_total(plan@, scenario_budgets(scenario)[i].theme)
                <= scenario_budgets(scenario)[i].ticks,
        budget_total(scenario_budgets(scenario)) == scenario.total_ticks ==> forall|i: int|
            0 <= i < scenario_budgets(scenario).len() ==> theme_total(plan@, scenario_budgets(scenario)[i].theme)
                == scenario_budgets(scenario)[i].ticks,
        forall|k: int|
            0 <= k < plan@.len() ==> (#[trigger] plan@[k]).ticks >= scenario.min_segment_ticks || k == plan@.len() - 1
                || theme_total(plan@.take(k + 1), plan@[k].theme) == budget_of(scenario_budgets(scenario), plan@[k].theme),
        plan@.len() > 0 && budget_of(scenario_budgets(scenario), starting_theme_spec(scenario_budgets(scenario))) > 0
            ==> plan@[0].theme == starting_theme_spec(scenario_budgets(scenario)),
{
    let mut budgets = initial_budgets(scenario);
    let ghost init = budgets@;
    let mut rng = seeded_rng(scenario.seed);
    let mut plan: Vec<PlannedSegment> = Vec::new();
    let mut remaining: usize = scenario.total_ticks;
    let mut current = starting_theme(&budgets);
    let ghost start = current;
    assert(plan@ =~= Seq::<PlannedSegment>::empty());
    assert forall|i: int| 0 <= i < init.len() implies init[i].ticks - budgets@[i].ticks == theme_total(plan@, init[i].theme) by {
    }
    while remaining > 0
        invariant
            init == scenario_budgets(scenario),
            init.len() == scenario.theme_weights@.len(),
            forall|i: int| 0 <= i < init.len() ==> init[i].theme == scenario.theme_weights@[i].theme,
            budget_themes_unique(init),
            budget_total(init) >= scenario.total_ticks,
            scenario.total_ticks > 0 ==> scenario.min_segment_ticks < scenario.max_segment_ticks,
            budgets@.len() == init.len(),
            budget_themes_unique(budgets@),
            forall|i: int|
                0 <= i < init.len() ==> budgets@[i].theme == init[i].theme && budgets@[i].ticks <= init[i].ticks,
            forall|i: int|
                0 <= i < init.len() ==> init[i].ticks - budgets@[i].ticks == theme_total(plan@, init[i].theme),
            budget_total(budgets@) + plan_total(plan@) == budget_total(init),
            plan_total(plan@) + remaining == scenario.total_ticks,
            forall|k: int|
                0 <= k < plan@.len() ==> {
                    &&& (#[trigger] plan@[k]).ticks > 0
                    &&& plan@[k].ticks < scenario.max_segment_ticks || plan@[k].ticks == 1
                    &&& exists|i: int| 0 <= i < init.len() && init[i].theme == plan@[k].theme
                },
            forall|k: int|
                0 <= k < plan@.len() ==> (#[trigger] plan@[k]).ticks >= scenario.min_segment_ticks
                    || theme_total(plan@.take(k + 1), plan@[k].theme) == budget_of(init, plan@[k].theme)
                    || (k == plan@.len() - 1 && remaining == 0),
            start == starting_theme_spec(init),
            plan@.len() == 0 ==> budgets@ == init,
            plan@.len() == 0 && budget_of(init, start) > 0 ==> current == start,
            plan@.len() > 0 && budget_of(init, start) > 0 ==> plan@[0].theme == start,
        decreases 2 * remaining + (if budget_of(budgets@, current) > 0 { 0int } else { 1int }),
    {
        let idx = find_budget(&budgets, current);
        let (found, i) = match idx {
            Some(i) => (true, i),
            None => (false, 0),
        };
        let max_possible: usize = if found { budgets[i].ticks } else { 0 };
        proof {
            if found {
                lemma_budget_of_index(budgets@, i as int);
            } else {
                lemma_budget_of_absent(budgets@, current);
            }
        }
        if max_possible == 0 {
            proof {
                lemma_budget_positive_member(budgets@);
                let j = choose|j: int| 0 <= j < budgets@.len() && budgets@[j].ticks > 0;
                lemma_available_member(budgets@, budgets@[j].theme);
            }
            current = pick_next_theme(&budgets, &mut rng);
            proof {
                lemma_available_member(budgets@, current);
                let j = choose|j: int| 0 <= j < budgets@.len() && budgets@[j].theme == current && budgets@[j].ticks > 0;
                lemma_budget_of_index(budgets@, j);
            }
            continue;
        }
        proof {
            lemma_plan_total_nonneg(plan@);
        }
        let roll = roll_segment_len(&mut rng, scenario.min_segment_ticks, scenario.max_segment_ticks);
        let cut: usize = segment_len(roll, max_possible, remaining);
        let segment_len: usize = if cut == 0 {
            1
        } else {
            cut
        };
        let ghost old_plan = plan@;
        let ghost old_budgets = budgets@;
        let seg = PlannedSegment { theme: current, ticks: segment_len };
        plan.push(seg);
        remaining = remaining - segment_len;
        let nb = ThemeBudget { theme: current, ticks: max_possible - segment_len };
        budgets.set(i, nb);
        proof {
            lemma_plan_push(old_plan, seg, current);
            lemma_budget_total_update(old_budgets, i as int, nb);
            assert forall|j: int| 0 <= j < init.len() implies init[j].ticks - budgets@[j].ticks == theme_total(
                plan@,
                init[j].theme,
            ) by {
                lemma_plan_push(old_plan, seg, init[j].theme);
            }
            assert forall|k: int| 0 <= k < plan@.len() implies (#[trigger] plan@[k]).ticks >= scenario.min_segment_ticks
                || theme_total(plan@.take(k + 1), plan@[k].theme) == budget_of(init, plan@[k].theme)
                || (k == plan@.len() - 1 && remaining == 0) by {
                if k < plan@.len() - 1 {
                    assert(plan@[k] == old_plan[k]);
                    assert(plan@.take(k + 1) =~= old_plan.take(k + 1));
                } else {
                    assert(plan@.take(k + 1) =~= plan@);
                    lemma_budget_of_index(init, i as int);
                }
            }
            assert forall|k: int| 0 <= k < plan@.len() implies {
                &&& (#[trigger] plan@[k]).ticks > 0
                &&& plan@[k].ticks < scenario.max_segment_ticks || plan@[k].ticks == 1
                &&& exists|i: int| 0 <= i < init.len() && init[i].theme == plan@[k].theme
            } by {
                if k == plan@.len() - 1 {
                    assert(init[i as int].theme == current);
                } else {
                    assert(plan@[k] == old_plan[k]);
                }
            }
        }
        current = pick_next_theme(&budgets, &mut rng);
    }
    proof {
        if budget_total(init) == scenario.total_ticks {
            lemma_budget_zero_total(budgets@);
        }
    }
    plan
}

/// One uniform run of the generator: a phase of a planned segment's theme.
#[derive(Debug, Clone, Copy, PartialEq, Eq, Structural)]
pub struct PhaseRun {
    pub theme: MarketTheme,
    pub phase: PhaseKind,
    pub ticks: usize,
}

/// The runs of one planned segment: its theme's phases with their ticks.
pub open spec fn segment_runs(s: PlannedSegment) -> Seq<PhaseRun> {
    theme_split(s.theme, s.ticks as int).map_values(
        |p: PhaseSegment| PhaseRun { theme: s.theme, phase: p.phase, ticks: p.ticks },
    )
}

/// The runs of a plan, segment after segment.
pub open spec fn plan_runs(p: Seq<PlannedSegment>) -> Seq<PhaseRun>
    decreases p.len(),
{
    if p.len() == 0 {
        seq![]
    } else {
        plan_runs(p.drop_last()) + segment_runs(p.last())
    }
}

/// The total ticks of a list of runs.
pub open spec fn runs_total(r: Seq<PhaseRun>) -> int
    decreases r.len(),
{
    if r.len() == 0 {
        0
    } else {
        runs_total(r.drop_last()) + r.last().ticks
    }
}

proof fn lemma_runs_total_push(r: Seq<PhaseRun>, x: PhaseRun)
    ensures
        runs_total(r.push(x)) == runs_total(r) + x.ticks,
{
    assert(r.push(x).drop_last() =~= r);
}

proof fn lemma_segments_total_take(s: Seq<PhaseSegment>, j: int)
    requires
        0 <= j < s.len(),
    ensures
        segments_total(s.take(j + 1)) == segments_total(s.take(j)) + s[j].ticks,
{
    assert(s.take(j + 1).drop_last() =~= s.take(j));
}

/// Breaks a plan into the uniform runs the generator executes: every segment of a
/// single-phase theme is one run; a multi-phase theme's segment is divided among
/// its phases. The runs cover exactly the plan's ticks.
pub fn phase_runs(plan: &Vec<PlannedSegment>) -> (runs: Vec<PhaseRun>)
    ensures
        runs@ == plan_runs(plan@),
        runs_total(runs@) == plan_total(plan@),
{
    let n = plan.len();
    let mut runs: Vec<PhaseRun> = Vec::new();
    let mut i: usize = 0;
    assert(plan@.take(0) =~= Seq::<PlannedSegment>::empty());
    while i < n
        invariant
            n == plan@.len(),
            0 <= i <= n,
            runs@ == plan_runs(plan@.take(i as int)),
            runs_total(runs@) == plan_total(plan@.take(i as int)),
        decreases n - i,
    {
        let seg = plan[i];
        let parts = seg.theme.split_ticks(seg.ticks);
        let ghost before = runs@;
        let m = parts.len();
        let mut j: usize = 0;
        assert(parts@.take(0) =~= Seq::<PhaseSegment>::empty());
        while j < m
            invariant
                m == parts@.len(),
                parts@ == theme_split(seg.theme, seg.ticks as int),
                0 <= j <= m,
                runs@ == before + segment_runs(seg).take(j as int),
                runs_total(runs@) == runs_total(before) + segments_total(parts@.take(j as int)),
            decreases m - j,
        {
            let part = parts[j];
            let run = PhaseRun { theme: seg.theme, phase: part.phase, ticks: part.ticks };
            proof {
                lemma_runs_total_push(runs@, run);
                lemma_segments_total_take(parts@, j as int);
            }
            runs.push(run);
            j = j + 1;
            assert(runs@ =~= before + segment_runs(seg).take(j as int));
        }
        proof {
            assert(segment_runs(seg).take(m as int) =~= segment_runs(seg));
            assert(parts@.take(m as int) =~= parts@);
            assert(plan@.take(i + 1).drop_last() =~= plan@.take(i as int));
        }
        i = i + 1;
    }
    assert(plan@.take(n as int) =~= plan@);
    runs
}

} // verus!
