//! The scenario recipe and its validating builder.
//!
//! Theme weights are fractions of the total tick count, written in parts per
//! billion (`WEIGHT_ONE` is the whole).

use vstd::prelude::*;

use crate::types::MarketTheme;

verus! {

/// One whole, in parts per billion.
pub const WEIGHT_ONE: i64 = 1_000_000_000;

/// How far the weights of a scenario may add up away from one whole (one part per million).
pub const WEIGHT_TOLERANCE: i64 = 1_000;

/// The seed a scenario gets when none was set.
pub const DEFAULT_SEED: u64 = 42;

/// The share of the total ticks given to one theme, in parts per billion.
#[derive(Debug, Clone, Copy, PartialEq, Eq, Structural)]
pub struct ThemeWeight {
    pub theme: MarketTheme,
    pub weight_ppb: i64,
}

/// A complete market recipe: the tick budget, the theme shares, the seed and the
/// bounds of a segment's random length.
#[derive(Debug)]
pub struct Scenario {
    /// Total number of events to generate.
    pub total_ticks: usize,
    /// Each theme with its share of `total_ticks`, in parts per billion.
    pub theme_weights: Vec<ThemeWeight>,
    /// Seed of every random choice of the scenario.
    pub seed: u64,
    /// Lower bound (inclusive) of a segment's rolled length.
    pub min_segment_ticks: usize,
    /// Upper bound (exclusive) of a segment's rolled length.
    pub max_segment_ticks: usize,
}

/// Why a scenario could not be built.
#[derive(Debug, Clone, Copy, PartialEq, Eq, Structural)]
pub enum ScenarioError {
    /// No theme was added.
    NoThemes,
    /// The weights do not add up to one whole; `total_ppb` is what they add up to.
    WeightSum { total_ppb: i128 },
}

/// No theme occurs twice.
pub open spec fn themes_unique(s: Seq<ThemeWeight>) -> bool {
    forall|i: int, j: int| 0 <= i < s.len() && 0 <= j < s.len() && i != j ==> s[i].theme != s[j].theme
}

/// Whether a theme occurs in the weights.
pub open spec fn has_theme(s: Seq<ThemeWeight>, t: MarketTheme) -> bool {
    exists|i: int| 0 <= i < s.len() && s[i].theme == t
}

/// The weights after setting the weight of `t` to `w`: an existing entry is
/// replaced in place, a new theme is appended.
pub open spec fn upsert_weight(s: Seq<ThemeWeight>, t: MarketTheme, w: i64) -> Seq<ThemeWeight> {
    if has_theme(s, t) {
        let i = choose|i: int| 0 <= i < s.len() && s[i].theme == t;
        s.update(i, ThemeWeight { theme: t, weight_ppb: w })
    } else {
        s.push(ThemeWeight { theme: t, weight_ppb: w })
    }
}

/// The sum of all weights.
pub open spec fn weight_total(s: Seq<ThemeWeight>) -> int
    decreases s.len(),
{
    if s.len() == 0 {
        0
    } else {
        weight_total(s.drop_last()) + s.last().weight_ppb
    }
}

/// Whether weights adding up to `total` count as one whole.
pub open spec fn weights_balanced(total: int) -> bool {
    -WEIGHT_TOLERANCE <= total - WEIGHT_ONE <= WEIGHT_TOLERANCE
}

impl Scenario {
    /// At least one theme, none twice.
    pub open spec fn wf(&self) -> bool {
        &&& self.theme_weights@.len() > 0
        &&& themes_unique(self.theme_weights@)
    }

    /// Whether the scenario has at least one theme and none twice.
    pub fn is_well_formed(&self) -> (ok: bool)
        ensures
            ok == self.wf(),
    {
        let n = self.theme_weights.len();
        if n == 0 {
            return false;
        }
        let mut i: usize = 0;
        while i < n
            invariant
                n == self.theme_weights@.len(),
                0 <= i <= n,
                forall|a: int, b: int| 0 <= a < i && 0 <= b < n && a != b ==> self.theme_weights@[a].theme != self.theme_weights@[b].theme,
            decreases n - i,
        {
            let mut j: usize = 0;
            while j < n
                invariant
                    n == self.theme_weights@.len(),
                    0 <= i < n,
                    0 <= j <= n,
                    forall|b: int| 0 <= b < j && b != i ==> self.theme_weights@[i as int].theme != self.theme_weights@[b].theme,
                decreases n - j,
            {
                if j != i && self.theme_weights[i].theme == self.theme_weights[j].theme {
                    return false;
                }
                j = j + 1;
            }
            i = i + 1;
        }
        true
    }
}

/// Collects the requirements of a scenario and validates them.
pub struct ScenarioBuilder {
    total_ticks: usize,
    theme_weights: Vec<ThemeWeight>,
    seed: Option<u64>,
    min_segment_ticks: usize,
    max_segment_ticks: usize,
}

impl ScenarioBuilder {
    #[verifier::type_invariant]
    spec fn inv(&self) -> bool {
        themes_unique(self.theme_weights@)
    }

    /// The requested number of ticks.
    pub closed spec fn spec_total_ticks(&self) -> usize {
        self.total_ticks
    }

    /// The themes added so far, with their weights, in the order first added.
    pub closed spec fn spec_weights(&self) -> Seq<ThemeWeight> {
        self.theme_weights@
    }

    /// The seed, if one was set.
    pub closed spec fn spec_seed(&self) -> Option<u64> {
        self.seed
    }

    /// The lower bound of a segment's rolled length.
    pub closed spec fn spec_min_segment_ticks(&self) -> usize {
        self.min_segment_ticks
    }

    /// The upper bound of a segment's rolled length.
    pub closed spec fn spec_max_segment_ticks(&self) -> usize {
        self.max_segment_ticks
    }

    /// Starts a recipe for `total_ticks` ticks, with no theme, no seed and
    /// segments of 5,000 to 20,000 ticks.
    pub fn new(total_ticks: usize) -> (r: Self)
        ensures
            r.spec_total_ticks() == total_ticks,
            r.spec_weights() == Seq::<ThemeWeight>::empty(),
            r.spec_seed() == None::<u64>,
            r.spec_min_segment_ticks() == 5_000,
            r.spec_max_segment_ticks() == 20_000,
    {
        ScenarioBuilder {
            total_ticks,
            theme_weights: Vec::new(),
            seed: None,
            min_segment_ticks: 5_000,
            max_segment_ticks: 20_000,
        }
    }

    /// Sets the root seed of the simulation.
    pub fn seed(self, seed: u64) -> (r: Self)
        ensures
            r.spec_seed() == Some(seed),
            r.spec_total_ticks() == self.spec_total_ticks(),
            r.spec_weights() == self.spec_weights(),
            r.spec_min_segment_ticks() == self.spec_min_segment_ticks(),
            r.spec_max_segment_ticks() == self.spec_max_segment_ticks(),
    {
        proof {
            use_type_invariant(&self);
        }
        let ScenarioBuilder { total_ticks, theme_weights, seed: _, min_segment_ticks, max_segment_ticks } = self;
        ScenarioBuilder { total_ticks, theme_weights, seed: Some(seed), min_segment_ticks, max_segment_ticks }
    }

    /// Sets the bounds of a segment's rolled length: from `min` up to, but not including, `max`.
    pub fn segment_range(self, min: usize, max: usize) -> (r: Self)
        ensures
            r.spec_min_segment_ticks() == min,
            r.spec_max_segment_ticks() == max,
            r.spec_seed() == self.spec_seed(),
            r.spec_total_ticks() == self.spec_total_ticks(),
            r.spec_weights() == self.spec_weights(),
    {
        proof {
            use_type_invariant(&self);
        }
        let ScenarioBuilder { total_ticks, theme_weights, seed, min_segment_ticks: _, max_segment_ticks: _ } = self;
        ScenarioBuilder { total_ticks, theme_weights, seed, min_segment_ticks: min, max_segment_ticks: max }
    }

    /// Gives `theme` the share `weight_ppb` of the total ticks; a theme added
    /// again keeps its place and takes the new weight.
    pub fn add_theme(self, theme: MarketTheme, weight_ppb: i64) -> (r: Self)
        ensures
            r.spec_weights() == upsert_weight(self.spec_weights(), theme, weight_ppb),
            r.spec_seed() == self.spec_seed(),
            r.spec_total_ticks() == self.spec_total_ticks(),
            r.spec_min_segment_ticks() == self.spec_min_segment_ticks(),
            r.spec_max_segment_ticks() == self.spec_max_segment_ticks(),
    {
        proof {
            use_type_invariant(&self);
        }
        let ScenarioBuilder { total_ticks, mut theme_weights, seed, min_segment_ticks, max_segment_ticks } = self;
        let ghost old_weights = theme_weights@;
        let entry = ThemeWeight { theme, weight_ppb };
        let n = theme_weights.len();
        let mut i: usize = 0;
        while i < n
            invariant
                n == theme_weights@.len(),
                theme_weights@ == old_weights,
                0 <= i <= n,
                forall|j: int| 0 <= j < i ==> theme_weights@[j].theme != theme,
            ensures
                0 <= i <= n,
                i < n ==> theme_weights@[i as int].theme == theme,
                forall|j: int| 0 <= j < i ==> theme_weights@[j].theme != theme,
            decreases n - i,
        {
            if theme_weights[i].theme == theme {
                break;
            }
            i = i + 1;
        }
        if i < n {
            assert(has_theme(old_weights, theme));
            let ghost k = choose|k: int| 0 <= k < old_weights.len() && old_weights[k].theme == theme;
            assert(k == i as int);
            theme_weights.set(i, entry);
        } else {
            assert(!has_theme(old_weights, theme));
            theme_weights.push(entry);
        }
        assert(themes_unique(theme_weights@));
        ScenarioBuilder { total_ticks, theme_weights, seed, min_segment_ticks, max_segment_ticks }
    }

    /// Validates the recipe: it needs at least one theme, and the weights must
    /// add up to one whole within one part per million. The seed defaults to 42.
    pub fn build(self) -> (r: Result<Scenario, ScenarioError>)
        ensures
            r is Ok <==> self.spec_weights().len() > 0 && weights_balanced(weight_total(self.spec_weights())),
            r == Err::<Scenario, ScenarioError>(ScenarioError::NoThemes) <==> self.spec_weights().len() == 0,
            r matches Err(ScenarioError::WeightSum { total_ppb }) ==> {
                &&& self.spec_weights().len() > 0
                &&& total_ppb == weight_total(self.spec_weights())
                &&& !weights_balanced(total_ppb as int)
            },
            r matches Ok(s) ==> {
                &&& s.wf()
                &&& s.total_ticks == self.spec_total_ticks()
                &&& s.theme_weights@ == self.spec_weights()
                &&& s.seed == (match self.spec_seed() { Some(v) => v, None => DEFAULT_SEED })
                &&& s.min_segment_ticks == self.spec_min_segment_ticks()
                &&& s.max_segment_ticks == self.spec_max_segment_ticks()
            },
    {
        proof {
            use_type_invariant(&self);
        }
        let ScenarioBuilder { total_ticks, theme_weights, seed, min_segment_ticks, max_segment_ticks } = self;
        if theme_weights.len() == 0 {
            return Err(ScenarioError::NoThemes);
        }
        let n = theme_weights.len();
        let mut total: i128 = 0;
        let mut i: usize = 0;
        while i < n
            invariant
                n == theme_weights@.len(),
                0 <= i <= n,
                total == weight_total(theme_weights@.take(i as int)),
                -(i as int) * 0x8000_0000_0000_0000 <= total <= (i as int) * 0x8000_0000_0000_0000,
            decreases n - i,
        {
            proof {
                assert(theme_weights@.take(i + 1).drop_last() =~= theme_weights@.take(i as int));
            }
            total = total + theme_weights[i].weight_ppb as i128;
            i = i + 1;
        }
        assert(theme_weights@.take(n as int) =~= theme_weights@);
        let diff: i128 = total - WEIGHT_ONE as i128;
        if diff < -(WEIGHT_TOLERANCE as i128) || diff > WEIGHT_TOLERANCE as i128 {
            return Err(ScenarioError::WeightSum { total_ppb: total });
        }
        let seed = match seed {
            Some(v) => v,
            None => DEFAULT_SEED,
        };
        Ok(Scenario { total_ticks, theme_weights, seed, min_segment_ticks, max_segment_ticks })
    }
}

} // verus!
