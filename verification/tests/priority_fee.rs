use transaction_bench::priority_fee::{
    pareto_fee, power_law_fee, scheduled_fee_at, tiered_fee, Binary64, FeeDistribution, FeeTier,
    PremiumPlan, PriorityFeeMode, PriorityFeeStats, ShapedDraw,
};

fn number(x: f64) -> Binary64 {
    Binary64 { bits: x.to_bits() }
}

/// The power law, with its arithmetic done in floating point.
fn power_law(u: f64, max: u64, beta: f64) -> u64 {
    let x = 1.0 - (1.0 - u).powf(1.0 / beta);
    power_law_fee((x * max as f64).round() as u64, max)
}

/// The bounded Pareto distribution, with its arithmetic done in floating point.
fn pareto(u: f64, max: u64, alpha: f64) -> u64 {
    let ratio = (1.0 / max as f64).powf(alpha);
    let x = (1.0 - u * (1.0 - ratio)).powf(-1.0 / alpha);
    pareto_fee(x.round() as u64, max)
}

/// The weighted pick, with its arithmetic done in floating point.
fn tiered(mut pick: f64, tiers: &Vec<FeeTier>) -> u64 {
    let below_zero: Vec<bool> = tiers
        .iter()
        .map(|tier| {
            pick -= f64::from_bits(tier.weight.bits);
            pick < 0.0
        })
        .collect();
    tiered_fee(&below_zero, tiers)
}

fn no_draw() -> ShapedDraw {
    ShapedDraw { rounded_fee: 0, below_zero: vec![] }
}

#[test]
fn test_scheduled_fee_ramps_to_max() {
    // Positions 0..=3 map exactly to fees 0, 1, 2, 3, then the ramp wraps.
    let observed: Vec<u64> = (0..8).map(|t| scheduled_fee_at(t, 3, 4)).collect();
    assert_eq!(observed, vec![0, 1, 2, 3, 0, 1, 2, 3]);

    // Fees are floor(position * 3 / 7).
    let observed: Vec<u64> = (0..8).map(|t| scheduled_fee_at(t, 3, 8)).collect();
    assert_eq!(observed, vec![0, 0, 0, 1, 1, 2, 2, 3]);

    // Endpoints are reachable for a round period.
    assert_eq!(scheduled_fee_at(0, 1000, 100), 0);
    assert_eq!(scheduled_fee_at(99, 1000, 100), 1000);
    assert_eq!(scheduled_fee_at(100, 1000, 100), 0);

    // A period of one millisecond is degenerate.
    assert_eq!(scheduled_fee_at(0, 100, 1), 0);
    assert_eq!(scheduled_fee_at(42, 100, 1), 0);
}

#[test]
fn test_scheduled_fee_of_large_numbers() {
    let period = u64::MAX;
    assert_eq!(scheduled_fee_at(period - 1, u64::MAX, period), u64::MAX);
    assert_eq!(scheduled_fee_at((period - 1) / 2, u64::MAX, period), u64::MAX / 2);
}

#[test]
fn test_power_law_fee_endpoints_and_skew() {
    // Endpoints: u = 0 -> 0, u -> 1 -> max.
    assert_eq!(power_law(0.0, 1000, 2.0), 0);
    assert_eq!(power_law(1.0, 1000, 2.0), 1000);
    // beta = 1 is uniform: the median draw sits at max/2.
    assert_eq!(power_law(0.5, 1000, 1.0), 500);
    // beta > 1 skews low, larger beta lower still.
    assert!(power_law(0.5, 1000, 2.0) < 500);
    assert!(power_law(0.5, 1000, 4.0) < power_law(0.5, 1000, 2.0));
}

#[test]
fn test_power_law_fee_stays_within_max() {
    // The nearest floating-point number lies above this maximum.
    let max = (1u64 << 54) + 3;
    assert!((max as f64) as u64 > max);
    assert_eq!(power_law(1.0, max, 2.0), max);
}

#[test]
fn test_pareto_fee_endpoints_and_tail() {
    // Bounded to [1, max]: u = 0 -> 1, u -> 1 -> max.
    assert_eq!(pareto(0.0, 1000, 1.0), 1);
    assert_eq!(pareto(1.0, 1000, 1.0), 1000);
    // Heavy tail: over three decades the median draw stays tiny.
    assert!(pareto(0.5, 1000, 1.0) < 10);
    // The degenerate range [1, 1] always yields 1.
    assert_eq!(pareto(0.7, 1, 1.0), 1);
}

#[test]
fn test_pareto_fee_bounds() {
    assert_eq!(pareto_fee(0, 1000), 1);
    assert_eq!(pareto_fee(1001, 1000), 1000);
    assert_eq!(pareto_fee(7, 0), 0);
}

#[test]
fn test_tiered_fee_weighted_pick() {
    let tiers = vec![
        FeeTier { fee: 0, weight: number(90.0) },
        FeeTier { fee: 500, weight: number(9.0) },
        FeeTier { fee: 1000, weight: number(1.0) },
    ];
    // Cumulative boundaries: [0, 90) -> 0, [90, 99) -> 500, [99, 100) -> 1000.
    assert_eq!(tiered(0.0, &tiers), 0);
    assert_eq!(tiered(89.9, &tiers), 0);
    assert_eq!(tiered(90.0, &tiers), 500);
    assert_eq!(tiered(98.9, &tiers), 500);
    assert_eq!(tiered(99.0, &tiers), 1000);
    // Overshoot from rounding falls back to the last tier.
    assert_eq!(tiered(100.0, &tiers), 1000);
}

#[test]
fn test_tiered_fee_without_tiers_or_flags() {
    assert_eq!(tiered_fee(&vec![true], &vec![]), 0);
    let tiers = vec![FeeTier { fee: 3, weight: number(1.0) }, FeeTier { fee: 4, weight: number(1.0) }];
    assert_eq!(tiered_fee(&vec![], &tiers), 4);
}

#[test]
fn test_premium_plan_exact_count_and_even_spread() {
    let plan = PremiumPlan { total: 10, premium_count: 3, premium_fee: 500 };
    let premium_indices: Vec<u64> = (0..10).filter(|&i| plan.is_premium(i)).collect();
    assert_eq!(premium_indices, vec![3, 6, 9]);
    assert_eq!(plan.fee_at(6), 500);
    assert_eq!(plan.fee_at(0), 0);
}

#[test]
fn test_premium_plan_edge_counts() {
    // Without premium transactions nobody pays extra.
    let none = PremiumPlan { total: 5, premium_count: 0, premium_fee: 7 };
    assert!((0..5).all(|i| none.fee_at(i) == 0));

    // When all are premium, everybody does.
    let all = PremiumPlan { total: 5, premium_count: 5, premium_fee: 7 };
    assert!((0..5).all(|i| all.fee_at(i) == 7));
}

#[test]
fn test_premium_plan_prefix_is_proportional() {
    let plan = PremiumPlan { total: 1000, premium_count: 100, premium_fee: 1 };
    assert_eq!((0..250).filter(|&i| plan.is_premium(i)).count(), 25);
    assert_eq!((0..1000).filter(|&i| plan.is_premium(i)).count(), 100);
}

#[test]
fn test_premium_plan_of_large_numbers() {
    let plan = PremiumPlan { total: u64::MAX, premium_count: u64::MAX - 1, premium_fee: 1 };
    assert!(!plan.is_premium(0));
    assert!(plan.is_premium(u64::MAX - 1));
    assert!(!PremiumPlan { total: 0, premium_count: 3, premium_fee: 1 }.is_premium(0));
}

#[test]
fn test_premium_slots_are_spread_evenly() {
    let plan = PremiumPlan { total: 97, premium_count: 23, premium_fee: 1 };
    for len in 0..97u64 {
        for from in 0..(97 - len) {
            let held = (from..from + len).filter(|&i| plan.is_premium(i)).count() as u64;
            assert!(held == len * 23 / 97 || held == len * 23 / 97 + 1);
        }
    }
}

#[test]
fn test_resolve_by_mode() {
    let draw = ShapedDraw { rounded_fee: 30, below_zero: vec![false, true] };
    assert_eq!(PriorityFeeMode::BaseOnly.resolve(3, 7, &draw), 0);
    let plan = PremiumPlan { total: 10, premium_count: 3, premium_fee: 500 };
    assert_eq!(PriorityFeeMode::Premium(plan).resolve(3, 7, &draw), 500);
    assert_eq!(PriorityFeeMode::Premium(plan).resolve(4, 7, &draw), 0);
    assert_eq!(PriorityFeeMode::Scheduled { max: 3, period_ms: 4 }.resolve(0, 6, &draw), 2);
    let power_law = FeeDistribution::PowerLaw { max: 20, beta: number(2.0) };
    assert_eq!(PriorityFeeMode::Random(power_law).resolve(0, 0, &draw), 20);
    let pareto = FeeDistribution::Pareto { max: 100, alpha: number(1.0) };
    assert_eq!(PriorityFeeMode::Random(pareto).resolve(0, 0, &draw), 30);
    let tiers = vec![FeeTier { fee: 1, weight: number(1.0) }, FeeTier { fee: 2, weight: number(1.0) }];
    assert_eq!(PriorityFeeMode::Random(FeeDistribution::Tiered { tiers }).resolve(0, 0, &draw), 2);
}

#[test]
fn test_uniform_draws_fill_their_range() {
    let distribution = FeeDistribution::Uniform { max: 3 };
    let mut seen = [false; 4];
    for _ in 0..1000 {
        seen[distribution.sample(&no_draw()) as usize] = true;
    }
    assert_eq!(seen, [true; 4]);
    assert_eq!(FeeDistribution::Uniform { max: 0 }.sample(&no_draw()), 0);
}

#[test]
fn test_range_checks_agree_with_floating_point() {
    for x in [
        0.0, -0.0, 1.0, -1.0, 0.5, 1.0000000000000002, 2.0, f64::MIN_POSITIVE, f64::MAX,
        f64::INFINITY, f64::NEG_INFINITY, f64::NAN, 5e-324,
    ] {
        assert_eq!(number(x).is_positive_finite(), !(x <= 0.0 || !x.is_finite()));
        assert_eq!(number(x).is_in_unit_interval(), !(x <= 0.0 || !x.is_finite() || x > 1.0));
    }
}

#[test]
fn test_stats_take_over_from_others() {
    let mut common = PriorityFeeStats::default();
    let mut task = PriorityFeeStats::default();
    common.record(u64::MAX);
    task.record(2);
    task.record(3);
    common.absorb(&mut task);
    assert_eq!(task.read_and_reset(), (0, 0));
    assert_eq!(common.read_and_reset(), (4, 3));
}

#[test]
fn test_stats_add_up_and_reset() {
    let mut stats = PriorityFeeStats::default();
    stats.record(5);
    stats.record(7);
    assert_eq!(stats.read_and_reset(), (12, 2));
    assert_eq!(stats.read_and_reset(), (0, 0));
    stats.record(u64::MAX);
    stats.record(3);
    assert_eq!(stats.read_and_reset(), (2, 2));
}

#[test]
fn test_every_fee_is_reported_once() {
    let mut common = PriorityFeeStats::default();
    let mut task = PriorityFeeStats::default();
    common.record(5);
    let first = common.read_and_reset();
    task.record(7);
    task.record(11);
    common.record(13);
    common.absorb(&mut task);
    let second = common.read_and_reset();
    common.record(17);
    common.absorb(&mut task);
    let third = common.read_and_reset();
    assert_eq!((first, second, third), ((5, 1), (31, 3), (17, 1)));
    assert_eq!(first.0 + second.0 + third.0, 5 + 7 + 11 + 13 + 17);
}

#[test]
fn test_power_law_fee_grows_with_the_draw() {
    assert_eq!(power_law_fee(0, 100), 0);
    assert_eq!(power_law_fee(99, 100), 99);
    assert_eq!(power_law_fee(101, 100), 100);
    let fees: Vec<u64> =
        (0..=1_000).map(|i| power_law(i as f64 / 1_000.0, 1_000_000, 3.0)).collect();
    assert!(fees.windows(2).all(|pair| pair[0] <= pair[1]));
}

#[test]
fn test_only_premium_uses_the_index() {
    let draw = ShapedDraw { rounded_fee: 30, below_zero: vec![false, true] };
    let tiers =
        vec![FeeTier { fee: 1, weight: number(1.0) }, FeeTier { fee: 2, weight: number(1.0) }];
    for (mode, fee) in [
        (PriorityFeeMode::BaseOnly, 0),
        (PriorityFeeMode::Random(FeeDistribution::Uniform { max: 9 }), 7),
        (PriorityFeeMode::Random(FeeDistribution::PowerLaw { max: 20, beta: number(2.0) }), 20),
        (PriorityFeeMode::Random(FeeDistribution::Pareto { max: 100, alpha: number(1.0) }), 30),
        (PriorityFeeMode::Random(FeeDistribution::Tiered { tiers }), 2),
        (PriorityFeeMode::Scheduled { max: 3, period_ms: 4 }, 2),
    ] {
        for index in [0, 3, 4, u64::MAX] {
            assert_eq!(mode.resolve_drawn(index, 6, 7, &draw), fee);
        }
    }
    let plan = PremiumPlan { total: 10, premium_count: 3, premium_fee: 500 };
    let premium = PriorityFeeMode::Premium(plan);
    assert_eq!(premium.resolve_drawn(3, 6, 7, &draw), 500);
    assert_eq!(premium.resolve_drawn(4, 6, 7, &draw), 0);
}

#[test]
fn test_uniform_number_is_the_fee() {
    let distribution = FeeDistribution::Uniform { max: 9 };
    assert_eq!(distribution.sample_drawn(0, &no_draw()), 0);
    assert_eq!(distribution.sample_drawn(9, &no_draw()), 9);
    let mode = PriorityFeeMode::Random(distribution);
    assert!((0..100).all(|index| mode.resolve(index, 0, &no_draw()) <= 9));
}
