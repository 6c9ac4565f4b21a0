use owl::policy::{
    demote_tier, map_execution_hints, BudgetTier, ExecutionBudget, ExecutionBudgetHints,
    MemoryPressure,
};

const TIERS: [BudgetTier; 3] = [
    BudgetTier::Foreground,
    BudgetTier::VisibleBackground,
    BudgetTier::IdleBackground,
];
const PRESSURES: [MemoryPressure; 3] = [
    MemoryPressure::Low,
    MemoryPressure::Moderate,
    MemoryPressure::Severe,
];

fn hints(tier: BudgetTier, pressure: MemoryPressure) -> ExecutionBudgetHints {
    map_execution_hints(ExecutionBudget { tier }, pressure)
}

fn no_more_permissive(a: ExecutionBudgetHints, b: ExecutionBudgetHints) -> bool {
    (!a.allow_background_js || b.allow_background_js)
        && (!a.allow_wasm || b.allow_wasm)
        && (!a.allow_workers || b.allow_workers)
        && (!b.prefer_suspend || a.prefer_suspend)
        && match (a.max_timer_frequency, b.max_timer_frequency) {
            (None, Some(_)) => false,
            (Some(pa), Some(pb)) => pa >= pb,
            _ => true,
        }
}

#[test]
fn hint_table_values() {
    let h = hints(BudgetTier::Foreground, MemoryPressure::Moderate);
    assert_eq!(h, ExecutionBudgetHints {
        max_timer_frequency: None,
        allow_background_js: true,
        allow_wasm: true,
        allow_workers: true,
        prefer_suspend: false,
    });
    let h = hints(BudgetTier::Foreground, MemoryPressure::Severe);
    assert_eq!((h.max_timer_frequency, h.allow_background_js, h.allow_wasm, h.allow_workers, h.prefer_suspend), (Some(50), true, false, false, false));
    let h = hints(BudgetTier::VisibleBackground, MemoryPressure::Low);
    assert_eq!((h.max_timer_frequency, h.allow_background_js, h.allow_wasm, h.allow_workers, h.prefer_suspend), (Some(100), true, true, true, false));
    let h = hints(BudgetTier::VisibleBackground, MemoryPressure::Moderate);
    assert_eq!((h.max_timer_frequency, h.allow_background_js, h.allow_wasm, h.allow_workers, h.prefer_suspend), (Some(250), true, false, false, false));
    let h = hints(BudgetTier::VisibleBackground, MemoryPressure::Severe);
    assert_eq!((h.max_timer_frequency, h.allow_background_js, h.allow_wasm, h.allow_workers, h.prefer_suspend), (Some(500), false, false, false, true));
    assert_eq!(hints(BudgetTier::IdleBackground, MemoryPressure::Low).max_timer_frequency, Some(500));
    assert_eq!(hints(BudgetTier::IdleBackground, MemoryPressure::Moderate).max_timer_frequency, Some(1000));
    let h = hints(BudgetTier::IdleBackground, MemoryPressure::Severe);
    assert_eq!((h.max_timer_frequency, h.allow_background_js, h.allow_wasm, h.allow_workers, h.prefer_suspend), (Some(2000), false, false, false, true));
}

#[test]
fn hints_never_loosen_as_pressure_rises() {
    for tier in TIERS {
        assert!(no_more_permissive(hints(tier, MemoryPressure::Severe), hints(tier, MemoryPressure::Moderate)));
        assert!(no_more_permissive(hints(tier, MemoryPressure::Moderate), hints(tier, MemoryPressure::Low)));
    }
}

#[test]
fn pressure_never_promotes() {
    let rank = |t: BudgetTier| match t {
        BudgetTier::Foreground => 0,
        BudgetTier::VisibleBackground => 1,
        BudgetTier::IdleBackground => 2,
    };
    for tier in TIERS {
        for pressure in PRESSURES {
            assert!(rank(demote_tier(tier, pressure)) >= rank(tier));
        }
    }
    assert_eq!(demote_tier(BudgetTier::Foreground, MemoryPressure::Moderate), BudgetTier::Foreground);
    assert_eq!(demote_tier(BudgetTier::Foreground, MemoryPressure::Severe), BudgetTier::VisibleBackground);
    assert_eq!(demote_tier(BudgetTier::VisibleBackground, MemoryPressure::Moderate), BudgetTier::IdleBackground);
    assert_eq!(demote_tier(BudgetTier::VisibleBackground, MemoryPressure::Low), BudgetTier::VisibleBackground);
}

#[test]
fn defaults() {
    assert_eq!(BudgetTier::default(), BudgetTier::Foreground);
    assert_eq!(MemoryPressure::default(), MemoryPressure::Low);
    assert_eq!(ExecutionBudget::default().tier, BudgetTier::Foreground);
}
