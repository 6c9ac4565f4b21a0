//! Budget tiers, memory pressure levels and the advisory hint table.

use vstd::prelude::*;

verus! {

/// Execution budget tiers, from most to least privileged.
#[derive(Debug, Clone, Copy, PartialEq, Eq, Structural)]
pub enum BudgetTier {
    /// Active tab with immediate user intent.
    Foreground,
    /// Background tab that may run at a reduced priority.
    VisibleBackground,
    /// Background tab that may run only in short idle bursts.
    IdleBackground,
}

impl Default for BudgetTier {
    fn default() -> (t: BudgetTier)
        ensures
            t == BudgetTier::Foreground,
    {
        BudgetTier::Foreground
    }
}

/// Coarse memory pressure signal.
#[derive(Debug, Clone, Copy, PartialEq, Eq, Structural)]
pub enum MemoryPressure {
    Low,
    Moderate,
    Severe,
}

impl Default for MemoryPressure {
    fn default() -> (p: MemoryPressure)
        ensures
            p == MemoryPressure::Low,
    {
        MemoryPressure::Low
    }
}

/// Position of a tier in the privilege order: a higher rank is less privileged.
pub open spec fn tier_rank(tier: BudgetTier) -> int {
    match tier {
        BudgetTier::Foreground => 0,
        BudgetTier::VisibleBackground => 1,
        BudgetTier::IdleBackground => 2,
    }
}

/// Position of a pressure level in the severity order.
pub open spec fn pressure_level(pressure: MemoryPressure) -> int {
    match pressure {
        MemoryPressure::Low => 0,
        MemoryPressure::Moderate => 1,
        MemoryPressure::Severe => 2,
    }
}

/// Budget tier assigned to a tab; the policy signal applied to the engine.
#[derive(Debug, Clone, Copy, PartialEq, Eq, Structural)]
pub struct ExecutionBudget {
    pub tier: BudgetTier,
}

impl Default for ExecutionBudget {
    fn default() -> (b: ExecutionBudget)
        ensures
            b.tier == BudgetTier::Foreground,
    {
        ExecutionBudget { tier: BudgetTier::Foreground }
    }
}

/// Advisory signals derived from a budget and the memory pressure.
///
/// The engine may apply or ignore them; they never change script semantics
/// on their own.
#[derive(Debug, Clone, Copy, PartialEq, Eq, Structural)]
pub struct ExecutionBudgetHints {
    /// Shortest timer period in milliseconds that the tab should be held to;
    /// `None` requests no clamp.
    pub max_timer_frequency: Option<u64>,
    /// Whether background JavaScript is generally allowed to run.
    pub allow_background_js: bool,
    /// Whether WebAssembly should be allowed.
    pub allow_wasm: bool,
    /// Whether workers should be allowed.
    pub allow_workers: bool,
    /// Hint that the engine may suspend the tab if that is safe.
    pub prefer_suspend: bool,
}

/// The hint table: one row per tier, one column per pressure level.
pub open spec fn hints_spec(tier: BudgetTier, pressure: MemoryPressure) -> ExecutionBudgetHints {
    let h = |clamp: Option<u64>, js: bool, wasm: bool, workers: bool, suspend: bool|
        ExecutionBudgetHints {
            max_timer_frequency: clamp,
            allow_background_js: js,
            allow_wasm: wasm,
            allow_workers: workers,
            prefer_suspend: suspend,
        };
    match tier {
        BudgetTier::Foreground => match pressure {
            MemoryPressure::Low => h(None, true, true, true, false),
            MemoryPressure::Moderate => h(None, true, true, true, false),
            MemoryPressure::Severe => h(Some(50), true, false, false, false),
        },
        BudgetTier::VisibleBackground => match pressure {
            MemoryPressure::Low => h(Some(100), true, true, true, false),
            MemoryPressure::Moderate => h(Some(250), true, false, false, false),
            MemoryPressure::Severe => h(Some(500), false, false, false, true),
        },
        BudgetTier::IdleBackground => match pressure {
            MemoryPressure::Low => h(Some(500), false, false, false, true),
            MemoryPressure::Moderate => h(Some(1000), false, false, false, true),
            MemoryPressure::Severe => h(Some(2000), false, false, false, true),
        },
    }
}

/// `a` grants nothing that `b` does not: every allowance of `a` is one of
/// `b`, its timer clamp is at least as strict, and it prefers suspension
/// whenever `b` does.
pub open spec fn no_more_permissive(a: ExecutionBudgetHints, b: ExecutionBudgetHints) -> bool {
    &&& a.allow_background_js ==> b.allow_background_js
    &&& a.allow_wasm ==> b.allow_wasm
    &&& a.allow_workers ==> b.allow_workers
    &&& b.prefer_suspend ==> a.prefer_suspend
    &&& match (a.max_timer_frequency, b.max_timer_frequency) {
        (None, None) => true,
        (None, Some(_)) => false,
        (Some(_), None) => true,
        (Some(pa), Some(pb)) => pa >= pb,
    }
}

impl ExecutionBudgetHints {
    fn new(
        max_timer_frequency: Option<u64>,
        allow_background_js: bool,
        allow_wasm: bool,
        allow_workers: bool,
        prefer_suspend: bool,
    ) -> (h: ExecutionBudgetHints)
        ensures
            h.max_timer_frequency == max_timer_frequency,
            h.allow_background_js == allow_background_js,
            h.allow_wasm == allow_wasm,
            h.allow_workers == allow_workers,
            h.prefer_suspend == prefer_suspend,
    {
        ExecutionBudgetHints {
            max_timer_frequency,
            allow_background_js,
            allow_wasm,
            allow_workers,
            prefer_suspend,
        }
    }
}

const TIMER_20HZ_MS: u64 = 50;
const TIMER_10HZ_MS: u64 = 100;
const TIMER_4HZ_MS: u64 = 250;
const TIMER_2HZ_MS: u64 = 500;
const TIMER_1HZ_MS: u64 = 1000;
const TIMER_HALF_HZ_MS: u64 = 2000;

/// Maps a budget and a pressure level to advisory hints.
pub fn map_execution_hints(budget: ExecutionBudget, pressure: MemoryPressure) -> (h:
    ExecutionBudgetHints)
    ensures
        h == hints_spec(budget.tier, pressure),
{
    match budget.tier {
        BudgetTier::Foreground => match pressure {
            MemoryPressure::Low | MemoryPressure::Moderate => ExecutionBudgetHints::new(
                None,
                true,
                true,
                true,
                false,
            ),
            MemoryPressure::Severe => ExecutionBudgetHints::new(
                Some(TIMER_20HZ_MS),
                true,
                false,
                false,
                false,
            ),
        },
        BudgetTier::VisibleBackground => match pressure {
            MemoryPressure::Low => ExecutionBudgetHints::new(
                Some(TIMER_10HZ_MS),
                true,
                true,
                true,
                false,
            ),
            MemoryPressure::Moderate => ExecutionBudgetHints::new(
                Some(TIMER_4HZ_MS),
                true,
                false,
                false,
                false,
            ),
            MemoryPressure::Severe => ExecutionBudgetHints::new(
                Some(TIMER_2HZ_MS),
                false,
                false,
                false,
                true,
            ),
        },
        BudgetTier::IdleBackground => match pressure {
            MemoryPressure::Low => ExecutionBudgetHints::new(
                Some(TIMER_2HZ_MS),
                false,
                false,
                false,
                true,
            ),
            MemoryPressure::Moderate => ExecutionBudgetHints::new(
                Some(TIMER_1HZ_MS),
                false,
                false,
                false,
                true,
            ),
            MemoryPressure::Severe => ExecutionBudgetHints::new(
                Some(TIMER_HALF_HZ_MS),
                false,
                false,
                false,
                true,
            ),
        },
    }
}

/// The tier a budget is demoted to under a pressure level.
pub open spec fn demoted_tier_spec(tier: BudgetTier, pressure: MemoryPressure) -> BudgetTier {
    match (pressure, tier) {
        (MemoryPressure::Low, t) => t,
        (MemoryPressure::Moderate, BudgetTier::Foreground) => BudgetTier::Foreground,
        (MemoryPressure::Moderate, _) => BudgetTier::IdleBackground,
        (MemoryPressure::Severe, BudgetTier::Foreground) => BudgetTier::VisibleBackground,
        (MemoryPressure::Severe, _) => BudgetTier::IdleBackground,
    }
}

/// Applies memory pressure to a tier. Pressure only ever demotes.
pub fn demote_tier(tier: BudgetTier, pressure: MemoryPressure) -> (t: BudgetTier)
    ensures
        t == demoted_tier_spec(tier, pressure),
        tier_rank(t) >= tier_rank(tier),
{
    match (pressure, tier) {
        (MemoryPressure::Low, tier) => tier,
        (MemoryPressure::Moderate, BudgetTier::Foreground) => BudgetTier::Foreground,
        (MemoryPressure::Moderate, BudgetTier::VisibleBackground) => BudgetTier::IdleBackground,
        (MemoryPressure::Moderate, BudgetTier::IdleBackground) => BudgetTier::IdleBackground,
        (MemoryPressure::Severe, BudgetTier::Foreground) => BudgetTier::VisibleBackground,
        (MemoryPressure::Severe, BudgetTier::VisibleBackground) => BudgetTier::IdleBackground,
        (MemoryPressure::Severe, BudgetTier::IdleBackground) => BudgetTier::IdleBackground,
    }
}

/// Hints never grow more permissive as pressure rises, at any fixed tier:
/// Severe grants no more than Moderate, which grants no more than Low.
pub proof fn lemma_hints_monotonic_in_pressure(
    tier: BudgetTier,
    higher: MemoryPressure,
    lower: MemoryPressure,
)
    requires
        pressure_level(higher) >= pressure_level(lower),
    ensures
        no_more_permissive(hints_spec(tier, higher), hints_spec(tier, lower)),
{
}

/// Pressure never promotes: the demoted tier ranks at least as low as the
/// original one, for every tier and every pressure level.
pub proof fn lemma_pressure_never_promotes(tier: BudgetTier, pressure: MemoryPressure)
    ensures
        tier_rank(demoted_tier_spec(tier, pressure)) >= tier_rank(tier),
{
}

} // verus!
