//! Fee and submission policy.
//!
//! The winning difficulty selects a priority-fee tier and the compute
//! budget of the submission. Independently, a 1-in-100 draw decides whether
//! an epoch-reset action is appended (only when the epoch is old enough to
//! be reset), and a bus account is picked uniformly at random to spread
//! load — a placeholder policy, kept as specified even though it may pick
//! an already drained bus.

use vstd::prelude::*;

verus! {

/// Priority-fee tiers, by winning difficulty.
#[derive(Clone, Copy, PartialEq, Eq, Debug)]
pub enum FeeTier {
    Low,
    Medium,
    High,
    Ultra,
}

/// The tier a difficulty pays: below 17 low, 17 to 19 medium, 20 to 23
/// high, 24 and above ultra.
pub open spec fn tier_spec(difficulty: u32) -> FeeTier {
    if difficulty < 17 {
        FeeTier::Low
    } else if difficulty < 20 {
        FeeTier::Medium
    } else if difficulty < 24 {
        FeeTier::High
    } else {
        FeeTier::Ultra
    }
}

/// Selects the priority-fee tier for a winning difficulty.
pub fn fee_tier(difficulty: u32) -> (t: FeeTier)
    ensures
        t == tier_spec(difficulty),
{
    if difficulty < 17 {
        FeeTier::Low
    } else if difficulty < 20 {
        FeeTier::Medium
    } else if difficulty < 24 {
        FeeTier::High
    } else {
        FeeTier::Ultra
    }
}

/// Default priority fee of each tier, in micro-lamports per compute unit.
pub const LOW_PRIORITY_FEE: u64 = 1_000;

pub const MEDIUM_PRIORITY_FEE: u64 = 10_000;

pub const HIGH_PRIORITY_FEE: u64 = 100_000;

pub const ULTRA_PRIORITY_FEE: u64 = 1_000_000;

/// The priority fee a tier pays.
pub open spec fn priority_fee_spec(t: FeeTier) -> u64 {
    match t {
        FeeTier::Low => LOW_PRIORITY_FEE,
        FeeTier::Medium => MEDIUM_PRIORITY_FEE,
        FeeTier::High => HIGH_PRIORITY_FEE,
        FeeTier::Ultra => ULTRA_PRIORITY_FEE,
    }
}

/// The priority fee paid at a tier.
pub fn priority_fee(t: FeeTier) -> (f: u64)
    ensures
        f == priority_fee_spec(t),
{
    match t {
        FeeTier::Low => LOW_PRIORITY_FEE,
        FeeTier::Medium => MEDIUM_PRIORITY_FEE,
        FeeTier::High => HIGH_PRIORITY_FEE,
        FeeTier::Ultra => ULTRA_PRIORITY_FEE,
    }
}

/// Base compute budget of a submission.
pub const BASE_COMPUTE_BUDGET: u32 = 500_000;

/// The compute-budget surcharge added when an epoch-reset action is
/// included.
pub const RESET_COMPUTE_SURCHARGE: u32 = 100_000;

/// The compute budget of a submission, with the reset surcharge when the
/// reset action is included.
pub fn compute_budget(with_reset: bool) -> (b: u32)
    ensures
        b == (if with_reset {
            BASE_COMPUTE_BUDGET + RESET_COMPUTE_SURCHARGE
        } else {
            BASE_COMPUTE_BUDGET as int
        }),
{
    if with_reset {
        BASE_COMPUTE_BUDGET + RESET_COMPUTE_SURCHARGE
    } else {
        BASE_COMPUTE_BUDGET
    }
}

/// Relies on rand::thread_rng and Rng::gen_range: a value drawn uniformly
/// from `[0, n)`.
#[verifier::external_body]
fn random_below(n: u64) -> (r: u64)
    requires
        1 <= n,
    ensures
        r < n,
{
    rand::Rng::gen_range(&mut rand::thread_rng(), 0..n)
}

/// The number of equally likely reset draws; only the zero draw includes
/// the reset action, a 1-in-100 chance.
pub const RESET_DRAW_BOUND: u64 = 100;

/// Whether a reset draw includes the epoch-reset action: exactly the zero
/// draw does.
pub fn include_reset(draw: u64) -> (b: bool)
    ensures
        b == (draw == 0),
{
    draw == 0
}

/// Draws whether to attempt an epoch reset: true for one draw in a hundred.
pub fn roll_reset_inclusion() -> (b: bool) {
    let draw = random_below(RESET_DRAW_BOUND);
    include_reset(draw)
}

/// Relies on ore_api::consts::BUS_COUNT: the program exposes eight bus
/// accounts.
#[verifier::external_body]
fn ore_bus_count() -> (r: u64)
    ensures
        r == 8,
{
    ore_api::consts::BUS_COUNT as u64
}

/// Picks the index of the bus account a submission is sent to, uniformly at
/// random.
pub fn pick_bus() -> (i: u64)
    ensures
        i < 8,
{
    let n = ore_bus_count();
    random_below(n)
}

/// Relies on ore_api::consts::EPOCH_DURATION: an epoch lasts five minutes,
/// 300 seconds.
#[verifier::external_body]
fn ore_epoch_duration() -> (r: i64)
    ensures
        r == 300,
{
    ore_api::consts::EPOCH_DURATION
}

/// Seconds shaved off the epoch boundary before a reset is attempted.
pub const RESET_BUFFER_SECONDS: i64 = 5;

/// Whether the epoch may be reset: at least an epoch, less the buffer, has
/// passed since the last reset. The boundary saturates at the integer
/// limit.
pub open spec fn reset_eligible_spec(last_reset_at: i64, now: i64) -> bool {
    let boundary = if last_reset_at + 300 > i64::MAX {
        i64::MAX as int
    } else {
        last_reset_at + 300
    };
    boundary - RESET_BUFFER_SECONDS <= now
}

/// Decides whether the epoch-reset action is currently legal, from the
/// epoch's last reset time and the current time.
pub fn should_reset(last_reset_at: i64, now: i64) -> (b: bool)
    ensures
        b == reset_eligible_spec(last_reset_at, now),
{
    let ed = ore_epoch_duration();
    let boundary = if last_reset_at > i64::MAX - ed {
        i64::MAX
    } else {
        last_reset_at + ed
    };
    boundary - RESET_BUFFER_SECONDS <= now
}

/// The window, in seconds, within which a proof is expected to be mined
/// against before the next one is due.
pub const MINING_WINDOW_SECONDS: i64 = 60;

/// The cutoff of a round: the seconds left of the mining window after the
/// caller's buffer, clamped at zero. Intermediate sums saturate at the
/// integer limits.
pub open spec fn cutoff_spec(last_hash_at: i64, buffer_seconds: i64, now: i64) -> int {
    let deadline = if last_hash_at + 60 > i64::MAX {
        i64::MAX as int
    } else {
        last_hash_at + 60
    };
    let withdrawn = if deadline - buffer_seconds < i64::MIN {
        i64::MIN as int
    } else {
        deadline - buffer_seconds
    };
    let remaining = if withdrawn - now > i64::MAX {
        i64::MAX as int
    } else if withdrawn - now < i64::MIN {
        i64::MIN as int
    } else {
        withdrawn - now
    };
    if remaining > 0 {
        remaining
    } else {
        0
    }
}

/// How many seconds a round may run before its cutoff: the time left until
/// the mining window of the last proof closes, less the caller's buffer.
pub fn cutoff_seconds(last_hash_at: i64, buffer_seconds: i64, now: i64) -> (r: u64)
    requires
        0 <= buffer_seconds,
    ensures
        r as int == cutoff_spec(last_hash_at, buffer_seconds, now),
{
    let deadline = if last_hash_at > i64::MAX - MINING_WINDOW_SECONDS {
        i64::MAX
    } else {
        last_hash_at + MINING_WINDOW_SECONDS
    };
    let withdrawn = if deadline < i64::MIN + buffer_seconds {
        i64::MIN
    } else {
        deadline - buffer_seconds
    };
    let remaining = if now >= 0 {
        if withdrawn < i64::MIN + now {
            i64::MIN
        } else {
            withdrawn - now
        }
    } else {
        if withdrawn > i64::MAX + now {
            i64::MAX
        } else {
            withdrawn - now
        }
    };
    if remaining > 0 {
        remaining as u64
    } else {
        0
    }
}

} // verus!

