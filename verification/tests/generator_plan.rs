use rust_maphf_sandbox::generator::builder::{Scenario, ScenarioError, ThemeWeight, WEIGHT_ONE};
use rust_maphf_sandbox::generator::markov::{
    available_themes, check_budgets_fit, segment_len, initial_budgets, phase_runs, plan_segments, starting_theme, PlannedSegment,
    ThemeBudget,
};
use rust_maphf_sandbox::generator::theme::{PhaseKind, PhaseSegment, RegimePhase};
use rust_maphf_sandbox::generator::{MarketTheme, ScenarioBuilder};
use rust_maphf_sandbox::session::{choose_data_source, DataSourceKind, SessionError};

/// A weight written as a fraction, in parts per billion.
fn ppb(w: f64) -> i64 {
    (w * 1e9).round() as i64
}

fn planned_total(plan: &[PlannedSegment]) -> usize {
    plan.iter().map(|s| s.ticks).sum()
}

fn theme_ticks(plan: &[PlannedSegment], theme: MarketTheme) -> usize {
    plan.iter().filter(|s| s.theme == theme).map(|s| s.ticks).sum()
}

/// Checks if the `ScenarioBuilder` correctly validates that weights must sum to 1.0.
#[test]
fn test_scenario_builder_validation_weights_sum() {
    // Valid sum (1.0)
    let scenario = ScenarioBuilder::new(100)
        .add_theme(MarketTheme::Bullish, ppb(0.5))
        .add_theme(MarketTheme::Sideways, ppb(0.5))
        .build();
    assert!(scenario.is_ok());

    // Invalid sum (0.9)
    let scenario = ScenarioBuilder::new(100)
        .add_theme(MarketTheme::Bullish, ppb(0.4))
        .add_theme(MarketTheme::Sideways, ppb(0.5))
        .build();
    assert!(scenario.is_err());
}

/// Ensures that a scenario cannot be built without any themes.
#[test]
fn test_scenario_builder_validation_empty_themes() {
    let scenario = ScenarioBuilder::new(100).build();
    assert!(scenario.is_err());
}

#[test]
fn builder_reports_errors_and_defaults() {
    assert_eq!(ScenarioBuilder::new(10).build().unwrap_err(), ScenarioError::NoThemes);
    let err = ScenarioBuilder::new(10)
        .add_theme(MarketTheme::Bullish, ppb(0.4))
        .add_theme(MarketTheme::Sideways, ppb(0.5))
        .build()
        .unwrap_err();
    assert_eq!(err, ScenarioError::WeightSum { total_ppb: 900_000_000 });

    // Within one part per million of one whole is accepted.
    let ok = ScenarioBuilder::new(10).add_theme(MarketTheme::Bullish, WEIGHT_ONE + 1_000).build();
    assert!(ok.is_ok());
    let off = ScenarioBuilder::new(10).add_theme(MarketTheme::Bullish, WEIGHT_ONE + 1_001).build();
    assert_eq!(off.unwrap_err(), ScenarioError::WeightSum { total_ppb: 1_000_001_001 });

    let s = ScenarioBuilder::new(77).add_theme(MarketTheme::Bearish, WEIGHT_ONE).build().unwrap();
    assert_eq!(s.seed, 42);
    assert_eq!(s.total_ticks, 77);
    assert_eq!(s.min_segment_ticks, 5_000);
    assert_eq!(s.max_segment_ticks, 20_000);
}

#[test]
fn builder_replaces_a_theme_in_place() {
    let s = ScenarioBuilder::new(10)
        .seed(7)
        .segment_range(2, 9)
        .add_theme(MarketTheme::Bullish, ppb(0.9))
        .add_theme(MarketTheme::Sideways, ppb(0.5))
        .add_theme(MarketTheme::Bullish, ppb(0.5))
        .build()
        .unwrap();
    assert_eq!(
        s.theme_weights,
        vec![
            ThemeWeight { theme: MarketTheme::Bullish, weight_ppb: 500_000_000 },
            ThemeWeight { theme: MarketTheme::Sideways, weight_ppb: 500_000_000 },
        ]
    );
    assert_eq!(s.seed, 7);
    assert_eq!((s.min_segment_ticks, s.max_segment_ticks), (2, 9));
}

#[test]
fn themes_have_their_phases() {
    match MarketTheme::FlashCrash.get_phases() {
        RegimePhase::Sequence(ks, ws) => {
            assert_eq!(ks, vec![PhaseKind::FlashCrashPlunge, PhaseKind::FlashCrashSnapback]);
            assert_eq!(ws, vec![40, 60]);
        }
        _ => panic!("flash crash has two phases"),
    }
    match MarketTheme::Correction.get_phases() {
        RegimePhase::Sequence(ks, ws) => {
            assert_eq!(
                ks,
                vec![PhaseKind::CorrectionSlide, PhaseKind::CorrectionBottom, PhaseKind::CorrectionRecover]
            );
            assert_eq!(ws, vec![30, 40, 30]);
        }
        _ => panic!("correction has three phases"),
    }
    assert!(matches!(MarketTheme::Sideways.get_phases(), RegimePhase::Atomic(PhaseKind::Sideways)));
}

#[test]
fn segments_split_among_phases() {
    assert_eq!(
        MarketTheme::FlashCrash.split_ticks(1000),
        vec![
            PhaseSegment { phase: PhaseKind::FlashCrashPlunge, ticks: 400 },
            PhaseSegment { phase: PhaseKind::FlashCrashSnapback, ticks: 600 },
        ]
    );
    assert_eq!(
        MarketTheme::Correction.split_ticks(11),
        vec![
            PhaseSegment { phase: PhaseKind::CorrectionSlide, ticks: 3 },
            PhaseSegment { phase: PhaseKind::CorrectionBottom, ticks: 4 },
            PhaseSegment { phase: PhaseKind::CorrectionRecover, ticks: 4 },
        ]
    );
    // Phases whose share rounds down to nothing are skipped; the last takes the rest.
    assert_eq!(
        MarketTheme::Correction.split_ticks(2),
        vec![PhaseSegment { phase: PhaseKind::CorrectionRecover, ticks: 2 }]
    );
    assert_eq!(
        MarketTheme::Bullish.split_ticks(5),
        vec![PhaseSegment { phase: PhaseKind::Bullish, ticks: 5 }]
    );
}

#[test]
fn budgets_round_down_and_give_the_rest_to_the_first_theme() {
    let s = ScenarioBuilder::new(100)
        .add_theme(MarketTheme::Bearish, 333_333_333)
        .add_theme(MarketTheme::Bullish, 333_333_333)
        .add_theme(MarketTheme::Sideways, 333_333_334)
        .build()
        .unwrap();
    let b = initial_budgets(&s);
    assert_eq!(
        b,
        vec![
            ThemeBudget { theme: MarketTheme::Bearish, ticks: 34 },
            ThemeBudget { theme: MarketTheme::Bullish, ticks: 33 },
            ThemeBudget { theme: MarketTheme::Sideways, ticks: 33 },
        ]
    );
    assert_eq!(starting_theme(&b), MarketTheme::Sideways);

    // A non-positive weight earns nothing.
    let s = ScenarioBuilder::new(10)
        .add_theme(MarketTheme::Bullish, ppb(1.5))
        .add_theme(MarketTheme::Bearish, ppb(-0.5))
        .build()
        .unwrap();
    let b = initial_budgets(&s);
    assert_eq!(b[0].ticks, 15);
    assert_eq!(b[1].ticks, 0);
    assert_eq!(available_themes(&b), vec![MarketTheme::Bullish]);
    assert_eq!(starting_theme(&b), MarketTheme::Bullish);
}

#[test]
fn plan_covers_the_total_ticks() {
    let total_ticks = 10_000;
    let scenario = ScenarioBuilder::new(total_ticks)
        .seed(123)
        .segment_range(500, 1000)
        .add_theme(MarketTheme::Bullish, ppb(0.3))
        .add_theme(MarketTheme::Sideways, ppb(0.7))
        .build()
        .unwrap();
    let plan = plan_segments(&scenario);
    assert_eq!(planned_total(&plan), total_ticks);
    assert_eq!(theme_ticks(&plan, MarketTheme::Bullish), 3000);
    assert_eq!(theme_ticks(&plan, MarketTheme::Sideways), 7000);
    assert!(plan.iter().all(|s| s.ticks > 0 && s.ticks < 1000));
    // A quiet start.
    assert_eq!(plan[0].theme, MarketTheme::Sideways);

    let runs = phase_runs(&plan);
    assert_eq!(runs.iter().map(|r| r.ticks).sum::<usize>(), total_ticks);
}

#[test]
fn plan_is_reproducible_from_the_seed() {
    let scenario = ScenarioBuilder::new(1000)
        .seed(789)
        .add_theme(MarketTheme::FlashCrash, ppb(0.5))
        .add_theme(MarketTheme::Correction, ppb(0.5))
        .build()
        .unwrap();
    let p1 = plan_segments(&scenario);
    let p2 = plan_segments(&scenario);
    assert_eq!(p1, p2);
    assert_eq!(phase_runs(&p1), phase_runs(&p2));
    assert_eq!(planned_total(&p1), 1000);
}

#[test]
fn plan_cuts_rolls_to_budget_and_remaining_ticks() {
    // Every roll is exactly 3, so a single theme runs 3, 3, 3 and then the last tick.
    let scenario = ScenarioBuilder::new(10)
        .segment_range(3, 4)
        .add_theme(MarketTheme::Bearish, WEIGHT_ONE)
        .build()
        .unwrap();
    let plan = plan_segments(&scenario);
    let lens: Vec<usize> = plan.iter().map(|s| s.ticks).collect();
    assert_eq!(lens, vec![3, 3, 3, 1]);
    assert!(plan.iter().all(|s| s.theme == MarketTheme::Bearish));
}

#[test]
fn flash_crash_segments_run_plunge_then_snapback() {
    let scenario = ScenarioBuilder::new(100)
        .segment_range(50, 51)
        .add_theme(MarketTheme::FlashCrash, WEIGHT_ONE)
        .build()
        .unwrap();
    let plan = plan_segments(&scenario);
    assert_eq!(plan.len(), 2);
    let runs = phase_runs(&plan);
    let kinds: Vec<(PhaseKind, usize)> = runs.iter().map(|r| (r.phase, r.ticks)).collect();
    assert_eq!(
        kinds,
        vec![
            (PhaseKind::FlashCrashPlunge, 20),
            (PhaseKind::FlashCrashSnapback, 30),
            (PhaseKind::FlashCrashPlunge, 20),
            (PhaseKind::FlashCrashSnapback, 30),
        ]
    );
}

#[test]
fn empty_scenario_plans_nothing() {
    let scenario = ScenarioBuilder::new(0).add_theme(MarketTheme::Sideways, WEIGHT_ONE).build().unwrap();
    assert!(plan_segments(&scenario).is_empty());
}

#[test]
fn scenario_checks_report_what_the_plan_needs() {
    let good = ScenarioBuilder::new(10).add_theme(MarketTheme::Bullish, WEIGHT_ONE).build().unwrap();
    assert!(good.is_well_formed());
    assert!(check_budgets_fit(&good));
    let dup = Scenario {
        total_ticks: 10,
        theme_weights: vec![
            ThemeWeight { theme: MarketTheme::Bullish, weight_ppb: 1 },
            ThemeWeight { theme: MarketTheme::Bullish, weight_ppb: 2 },
        ],
        seed: 1,
        min_segment_ticks: 1,
        max_segment_ticks: 2,
    };
    assert!(!dup.is_well_formed());
    let empty = Scenario { theme_weights: vec![], ..dup };
    assert!(!empty.is_well_formed());
    let huge = Scenario {
        total_ticks: usize::MAX,
        theme_weights: vec![
            ThemeWeight { theme: MarketTheme::Bullish, weight_ppb: 2 * WEIGHT_ONE },
            ThemeWeight { theme: MarketTheme::Bearish, weight_ppb: WEIGHT_ONE },
        ],
        seed: 1,
        min_segment_ticks: 1,
        max_segment_ticks: 2,
    };
    assert!(!check_budgets_fit(&huge));
}

#[test]
fn session_reads_events_first_then_files() {
    assert_eq!(choose_data_source(true, true, true), Ok(DataSourceKind::Events));
    assert_eq!(choose_data_source(false, true, true), Ok(DataSourceKind::NpzFile));
    assert_eq!(choose_data_source(false, true, false), Ok(DataSourceKind::BinFile));
    assert_eq!(choose_data_source(false, false, true), Err(SessionError::NoDataSource));
}

#[test]
fn segment_length_is_the_roll_cut_to_budget_and_remaining() {
    assert_eq!(segment_len(700, 5000, 9000), 700);
    assert_eq!(segment_len(700, 300, 9000), 300);
    assert_eq!(segment_len(700, 5000, 20), 20);
    assert_eq!(segment_len(0, 5, 5), 0);
}

#[test]
fn one_million_ticks_split_by_the_documented_percentages() {
    let scenario = ScenarioBuilder::new(1_000_000)
        .seed(42)
        .segment_range(5_000, 20_000)
        .add_theme(MarketTheme::Bullish, ppb(0.25))
        .add_theme(MarketTheme::Sideways, ppb(0.50))
        .add_theme(MarketTheme::FlashCrash, ppb(0.10))
        .add_theme(MarketTheme::Correction, ppb(0.15))
        .build()
        .unwrap();
    let budgets: Vec<usize> = initial_budgets(&scenario).iter().map(|b| b.ticks).collect();
    assert_eq!(budgets, vec![250_000, 500_000, 100_000, 150_000]);
    let plan = plan_segments(&scenario);
    assert_eq!(planned_total(&plan), 1_000_000);
    assert_eq!(theme_ticks(&plan, MarketTheme::Bullish), 250_000);
    assert_eq!(theme_ticks(&plan, MarketTheme::Sideways), 500_000);
    assert_eq!(theme_ticks(&plan, MarketTheme::FlashCrash), 100_000);
    assert_eq!(theme_ticks(&plan, MarketTheme::Correction), 150_000);
    assert!(plan.iter().all(|s| s.ticks < 20_000));
    let runs = phase_runs(&plan);
    assert_eq!(runs.iter().map(|r| r.ticks).sum::<usize>(), 1_000_000);
}

#[test]
fn fifty_thousand_tick_pipeline_plan_is_complete() {
    let scenario = ScenarioBuilder::new(50_000)
        .seed(12345)
        .segment_range(1000, 5000)
        .add_theme(MarketTheme::Bullish, ppb(0.2))
        .add_theme(MarketTheme::Sideways, ppb(0.4))
        .add_theme(MarketTheme::FlashCrash, ppb(0.2))
        .add_theme(MarketTheme::Correction, ppb(0.2))
        .build()
        .unwrap();
    let plan = plan_segments(&scenario);
    assert_eq!(planned_total(&plan), 50_000);
    // Every segment shorter than the minimum ends its theme's budget or the plan.
    for (k, s) in plan.iter().enumerate() {
        assert!(s.ticks >= 1000 || k == plan.len() - 1 || !plan[k + 1..].iter().any(|t| t.theme == s.theme));
    }
}

#[test]
fn short_budgets_give_one_segment_per_theme() {
    let scenario = ScenarioBuilder::new(10)
        .seed(1)
        .add_theme(MarketTheme::Bullish, ppb(0.25))
        .add_theme(MarketTheme::Bearish, ppb(0.75))
        .build()
        .unwrap();
    let plan = plan_segments(&scenario);
    assert_eq!(
        plan,
        vec![
            PlannedSegment { theme: MarketTheme::Bullish, ticks: 3 },
            PlannedSegment { theme: MarketTheme::Bearish, ticks: 7 },
        ]
    );
}

#[test]
fn zero_rolls_still_plan_every_tick() {
    // Every roll is zero: each segment is a single tick.
    let scenario = ScenarioBuilder::new(5)
        .segment_range(0, 1)
        .add_theme(MarketTheme::Sideways, WEIGHT_ONE)
        .build()
        .unwrap();
    let plan = plan_segments(&scenario);
    assert_eq!(plan, vec![PlannedSegment { theme: MarketTheme::Sideways, ticks: 1 }; 5]);

    let scenario = ScenarioBuilder::new(100)
        .seed(3)
        .segment_range(0, 4)
        .add_theme(MarketTheme::Bullish, ppb(0.5))
        .add_theme(MarketTheme::Correction, ppb(0.5))
        .build()
        .unwrap();
    let plan = plan_segments(&scenario);
    assert_eq!(planned_total(&plan), 100);
    assert_eq!(theme_ticks(&plan, MarketTheme::Bullish), 50);
    assert_eq!(theme_ticks(&plan, MarketTheme::Correction), 50);
    assert!(plan.iter().all(|s| s.ticks >= 1 && s.ticks < 4));
}
