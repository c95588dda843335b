use ore_miner::fee::compute_budget;
use ore_miner::fee::cutoff_seconds;
use ore_miner::fee::fee_tier;
use ore_miner::fee::include_reset;
use ore_miner::fee::pick_bus;
use ore_miner::fee::priority_fee;
use ore_miner::fee::roll_reset_inclusion;
use ore_miner::fee::should_reset;
use ore_miner::fee::FeeTier;
use ore_miner::fee::HIGH_PRIORITY_FEE;
use ore_miner::fee::LOW_PRIORITY_FEE;
use ore_miner::fee::MEDIUM_PRIORITY_FEE;
use ore_miner::fee::ULTRA_PRIORITY_FEE;
use rand::rngs::StdRng;
use rand::Rng;
use rand::SeedableRng;

#[test]
fn fee_tier_boundaries_are_exact() {
    assert_eq!(fee_tier(0), FeeTier::Low);
    assert_eq!(fee_tier(16), FeeTier::Low);
    assert_eq!(fee_tier(17), FeeTier::Medium);
    assert_eq!(fee_tier(19), FeeTier::Medium);
    assert_eq!(fee_tier(20), FeeTier::High);
    assert_eq!(fee_tier(23), FeeTier::High);
    assert_eq!(fee_tier(24), FeeTier::Ultra);
    assert_eq!(fee_tier(u32::MAX), FeeTier::Ultra);
}

#[test]
fn priority_fee_follows_tier() {
    assert_eq!(priority_fee(FeeTier::Low), LOW_PRIORITY_FEE);
    assert_eq!(priority_fee(FeeTier::Medium), MEDIUM_PRIORITY_FEE);
    assert_eq!(priority_fee(FeeTier::High), HIGH_PRIORITY_FEE);
    assert_eq!(priority_fee(FeeTier::Ultra), ULTRA_PRIORITY_FEE);
}

#[test]
fn compute_budget_adds_reset_surcharge() {
    assert_eq!(compute_budget(false), 500_000);
    assert_eq!(compute_budget(true), 600_000);
}

#[test]
fn only_the_zero_draw_includes_reset() {
    assert!(include_reset(0));
    assert!(!include_reset(1));
    assert!(!include_reset(50));
    assert!(!include_reset(99));
}

#[test]
fn reset_inclusion_rate_converges_to_one_percent() {
    // a fixed seed sequence; the empirical inclusion rate over many trials
    // must sit near 1/100
    let mut rng = StdRng::seed_from_u64(42);
    let trials = 100_000u32;
    let mut included = 0u32;
    for _ in 0..trials {
        let draw: u64 = rng.gen_range(0..100);
        if include_reset(draw) {
            included += 1;
        }
    }
    // expectation 1000; allow a generous statistical tolerance
    assert!(included >= 800, "rate too low: {included}");
    assert!(included <= 1200, "rate too high: {included}");
}

#[test]
fn bus_pick_stays_in_range() {
    for _ in 0..1_000 {
        assert!(pick_bus() < 8);
    }
}

#[test]
fn reset_roll_runs() {
    // a smoke check only: the draw itself is random
    let _ = roll_reset_inclusion();
}

#[test]
fn reset_eligibility_boundary() {
    // eligible once an epoch (300 s) less the 5 s buffer has passed
    assert!(should_reset(0, 295));
    assert!(!should_reset(0, 294));
    assert!(should_reset(100, 395));
    assert!(should_reset(i64::MAX - 10, i64::MAX - 5));
}

#[test]
fn cutoff_counts_remaining_window() {
    // window of 60 s from the last proof, less the buffer, less now
    assert_eq!(cutoff_seconds(100, 5, 120), 35);
    assert_eq!(cutoff_seconds(100, 0, 159), 1);
    assert_eq!(cutoff_seconds(100, 0, 160), 0);
    assert_eq!(cutoff_seconds(100, 5, 1_000), 0);
    assert_eq!(cutoff_seconds(0, 0, -40), 100);
}
