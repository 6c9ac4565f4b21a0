use std::cell::RefCell;
use std::rc::Rc;

use owl::diagnostics::ExecutionFeedbackAggregateReport;
use owl::feedback::{
    EngineExecutionFeedback, EngineFeedbackProvider, FeedbackAgeClass, FeedbackAgingWindows,
    FeedbackStalenessTag,
};
use owl::governor::{EngineScheduler, ExecutionGovernor, JSExecutionGovernor, TabUpdate};
use owl::policy::{BudgetTier, ExecutionBudget, ExecutionBudgetHints, MemoryPressure};
use owl::tabs::{TabId, TabState};

#[derive(Debug, Clone, Copy, PartialEq)]
enum Call {
    State(TabId, TabState),
    Budget(TabId, ExecutionBudget),
    Hints(TabId, ExecutionBudgetHints),
}

#[derive(Debug)]
struct DummyEngine {
    feedback: EngineExecutionFeedback,
    calls: RefCell<Vec<Call>>,
}

impl DummyEngine {
    fn new() -> Self {
        Self {
            feedback: EngineExecutionFeedback {
                has_long_tasks: true,
                worker_count: 2,
                wasm_active: true,
                js_blocking_render: false,
            },
            calls: RefCell::new(Vec::new()),
        }
    }

    fn call_count(&self) -> usize {
        self.calls.borrow().len()
    }

    fn last_state(&self, tab: TabId) -> Option<TabState> {
        self.calls.borrow().iter().rev().find_map(|c| match c {
            Call::State(t, s) if *t == tab => Some(*s),
            _ => None,
        })
    }

    fn last_budget(&self, tab: TabId) -> Option<ExecutionBudget> {
        self.calls.borrow().iter().rev().find_map(|c| match c {
            Call::Budget(t, b) if *t == tab => Some(*b),
            _ => None,
        })
    }

    fn last_hints(&self, tab: TabId) -> Option<ExecutionBudgetHints> {
        self.calls.borrow().iter().rev().find_map(|c| match c {
            Call::Hints(t, h) if *t == tab => Some(*h),
            _ => None,
        })
    }
}

impl EngineFeedbackProvider for DummyEngine {
    fn poll_execution_feedback(&self, _tab: TabId) -> EngineExecutionFeedback {
        self.feedback
    }
}

impl EngineScheduler for DummyEngine {
    fn apply_tab_state(&self, tab: TabId, state: TabState) {
        self.calls.borrow_mut().push(Call::State(tab, state));
    }

    fn apply_execution_budget(&self, tab: TabId, budget: ExecutionBudget) {
        self.calls.borrow_mut().push(Call::Budget(tab, budget));
    }

    fn apply_execution_hints(&self, tab: TabId, hints: ExecutionBudgetHints) {
        self.calls.borrow_mut().push(Call::Hints(tab, hints));
    }
}

fn no_calls(updates: &[TabUpdate]) -> bool {
    updates
        .iter()
        .all(|u| u.budget.is_none() && u.hints.is_none() && u.state.is_none())
}

#[test]
fn debug_line_is_read_only_and_stable() {
    let engine = Rc::new(DummyEngine::new());
    let mut governor = ExecutionGovernor::new(engine);
    let tab = TabId::new(1);

    governor.poll_execution_feedback(tab);
    let snapshot = governor.get_execution_feedback(tab).expect("missing feedback");

    let before = snapshot.sample_count();
    let line1 = snapshot.debug_line(true, None).to_string();
    let line2 = snapshot.debug_line(true, None).to_string();
    let after = snapshot.sample_count();

    assert_eq!(before, after);
    assert_eq!(line1, line2);
    assert!(line1.contains("tab=1"));
    assert!(line1.contains("staleness="));
}

#[test]
fn aggregate_report_is_read_only() {
    let engine = Rc::new(DummyEngine::new());
    let mut governor = ExecutionGovernor::new(engine);
    let tab1 = TabId::new(1);
    let tab2 = TabId::new(2);

    governor.poll_execution_feedback(tab1);
    governor.poll_execution_feedback(tab2);

    let windows = FeedbackAgingWindows {
        recent: 3600 * 1000,
        expired: 7200 * 1000,
    };

    {
        let aggregate = governor.execution_feedback_snapshot();
        let report = aggregate.debug_report(windows, true).to_string();

        assert!(report.contains("sampled_tabs=2"));
        assert!(report.contains("long_tasks=2"));
        assert!(report.contains("age{recent=2 aging=0 expired=0}"));
        assert!(report.contains("max_age_ms="));
    }

    let snapshot = governor.get_execution_feedback(tab1).expect("missing feedback");
    assert_eq!(snapshot.sample_count(), 1);
}

#[test]
fn debug_line_text_is_exact() {
    let engine = Rc::new(DummyEngine::new());
    let mut governor = ExecutionGovernor::new(engine);
    let tab = TabId::new(42);
    governor.poll_execution_feedback_at(tab, 1000);
    let snapshot = governor.get_execution_feedback_at(tab, 1700).unwrap();
    assert_eq!(snapshot.age(), 700);
    let windows = FeedbackAgingWindows { recent: 500, expired: 1000 };
    assert_eq!(snapshot.age_class(windows), FeedbackAgeClass::Aging);
    assert_eq!(
        snapshot.debug_line(true, Some(windows)).to_string(),
        "tab=42 long_tasks=true workers=2 wasm=true js_blocking_render=false staleness=Fresh age_class=Aging"
    );
    assert_eq!(
        snapshot.debug_line(false, None).to_string(),
        "tab=42 long_tasks=true workers=2 wasm=true js_blocking_render=false"
    );
}

#[test]
fn aggregate_report_text_is_exact() {
    let engine = Rc::new(DummyEngine::new());
    let mut governor = ExecutionGovernor::new(engine);
    governor.poll_execution_feedback_at(TabId::new(1), 1000);
    governor.poll_execution_feedback_at(TabId::new(2), 2000);
    governor.poll_execution_feedback_at(TabId::new(2), 2500);
    let aggregate = governor.execution_feedback_snapshot_at(4000);
    let windows = FeedbackAgingWindows { recent: 2000, expired: 2800 };
    assert_eq!(aggregate.sampled_tab_count(), 2);
    assert_eq!(aggregate.count_by_staleness(FeedbackStalenessTag::Fresh), 1);
    assert_eq!(aggregate.count_by_staleness(FeedbackStalenessTag::Stale), 1);
    assert_eq!(aggregate.count_wasm_active(), 2);
    assert_eq!(aggregate.count_js_blocking_render(), 0);
    assert_eq!(aggregate.max_feedback_age(), Some(3000));
    assert_eq!(aggregate.average_feedback_age(), Some(2250));
    let dist = aggregate.age_distribution(windows);
    assert_eq!((dist.recent, dist.aging, dist.expired), (1, 0, 1));
    assert_eq!(
        aggregate.debug_report(windows, true).to_string(),
        "sampled_tabs=2 long_tasks=2 wasm_active=2 js_blocking_render=0 staleness{fresh=1 stale=1 unknown=0} age{recent=1 aging=0 expired=1} max_age_ms=3000 avg_age_ms=2250"
    );
    let empty = ExecutionGovernor::new(Rc::new(DummyEngine::new())).execution_feedback_snapshot_at(0);
    let report: ExecutionFeedbackAggregateReport = empty.debug_report(windows, false);
    assert_eq!(
        report.to_string(),
        "sampled_tabs=0 long_tasks=0 wasm_active=0 js_blocking_render=0 age{recent=0 aging=0 expired=0} max_age_ms=NA avg_age_ms=NA"
    );
}

#[test]
fn foreground_override_keeps_active_tab_foreground() {
    let engine = Rc::new(DummyEngine::new());
    let mut governor = ExecutionGovernor::new(engine.clone());
    let tab = TabId::new(1);
    governor.on_tab_state_changed_at(tab, TabState::Active, 0);
    governor.record_user_input_at(tab, 100);
    assert_eq!(engine.last_state(tab), Some(TabState::Active));
    assert_eq!(engine.last_budget(tab), Some(ExecutionBudget { tier: BudgetTier::Foreground }));
    assert_eq!(engine.last_hints(tab).unwrap().max_timer_frequency, None);
    assert_eq!(governor.state(tab), Some(TabState::Active));
}

#[test]
fn severe_pressure_demotes_foreground() {
    let engine = Rc::new(DummyEngine::new());
    let mut governor = ExecutionGovernor::new(engine.clone());
    let tab = TabId::new(1);
    governor.on_tab_state_changed_at(tab, TabState::Active, 0);
    let updates = governor.set_memory_pressure_at(MemoryPressure::Severe, 10);
    assert_eq!(updates.len(), 1);
    assert_eq!(updates[0].budget, Some(ExecutionBudget { tier: BudgetTier::VisibleBackground }));
    assert_eq!(updates[0].state, None);
    let hints = engine.last_hints(tab).unwrap();
    assert!(!hints.allow_wasm);
    assert_eq!(hints.max_timer_frequency, Some(500));
    assert_eq!(governor.memory_pressure(), MemoryPressure::Severe);
}

#[test]
fn moderate_pressure_keeps_foreground() {
    let engine = Rc::new(DummyEngine::new());
    let mut governor = ExecutionGovernor::new(engine.clone());
    let tab = TabId::new(1);
    governor.on_tab_state_changed_at(tab, TabState::Active, 0);
    let updates = governor.set_memory_pressure_at(MemoryPressure::Moderate, 10);
    assert!(no_calls(&updates));
    assert_eq!(engine.last_budget(tab), Some(ExecutionBudget { tier: BudgetTier::Foreground }));
}

#[test]
fn background_tab_suspends_after_prolonged_idle() {
    let engine = Rc::new(DummyEngine::new());
    let mut governor = ExecutionGovernor::new(engine.clone());
    let tab = TabId::new(7);
    governor.on_tab_state_changed_at(tab, TabState::Background, 0);
    governor.reconcile(2000);
    assert_eq!(engine.last_state(tab), Some(TabState::Background));
    governor.reconcile(4500);
    assert_eq!(engine.last_state(tab), Some(TabState::Suspended));
    assert_eq!(engine.last_budget(tab), Some(ExecutionBudget { tier: BudgetTier::IdleBackground }));
}

#[test]
fn background_tab_is_deferred_while_user_active() {
    let engine = Rc::new(DummyEngine::new());
    let mut governor = ExecutionGovernor::new(engine.clone());
    let active = TabId::new(1);
    let background = TabId::new(2);
    governor.on_tab_state_changed_at(active, TabState::Active, 0);
    governor.on_tab_state_changed_at(background, TabState::Background, 100);
    assert_eq!(engine.last_state(background), Some(TabState::Suspended));
    assert_eq!(engine.last_budget(background), Some(ExecutionBudget { tier: BudgetTier::VisibleBackground }));
    governor.record_user_input_at(background, 200);
    assert_eq!(engine.last_state(background), Some(TabState::Background));
}

#[test]
fn reconcile_twice_makes_no_new_calls() {
    let engine = Rc::new(DummyEngine::new());
    let mut governor = ExecutionGovernor::new(engine.clone());
    governor.on_tab_state_changed_at(TabId::new(1), TabState::Active, 0);
    governor.on_tab_state_changed_at(TabId::new(2), TabState::Background, 0);
    governor.on_tab_state_changed_at(TabId::new(3), TabState::Suspended, 0);
    let first = governor.reconcile(5000);
    assert!(!no_calls(&first));
    let calls = engine.call_count();
    let second = governor.reconcile(5000);
    assert_eq!(second.len(), 3);
    assert!(no_calls(&second));
    assert_eq!(engine.call_count(), calls);
}

#[test]
fn idle_bursts_open_twice_in_ten_seconds() {
    let engine = Rc::new(DummyEngine::new());
    let mut governor = ExecutionGovernor::new(engine.clone());
    let tab = TabId::new(3);
    governor.on_tab_state_changed_at(tab, TabState::Background, 0);
    let mut running = Vec::new();
    let mut t = 250;
    while t <= 10_000 {
        governor.reconcile(t);
        if t >= 4000 && engine.last_state(tab) == Some(TabState::Background) {
            running.push(t);
        }
        t += 250;
    }
    assert_eq!(running, vec![5000, 5250, 5500, 10_000]);
}

#[test]
fn set_budget_applies_directly_and_ignores_unknown_tabs() {
    let engine = Rc::new(DummyEngine::new());
    let mut governor = ExecutionGovernor::new(engine.clone());
    let tab = TabId::new(1);
    governor.on_tab_state_changed_at(tab, TabState::Active, 0);
    let update = governor
        .set_budget_at(tab, ExecutionBudget { tier: BudgetTier::IdleBackground }, 10)
        .unwrap();
    assert_eq!(update.budget, Some(ExecutionBudget { tier: BudgetTier::IdleBackground }));
    assert_eq!(engine.last_hints(tab).unwrap().max_timer_frequency, Some(500));
    let again = governor
        .set_budget_at(tab, ExecutionBudget { tier: BudgetTier::IdleBackground }, 20)
        .unwrap();
    assert_eq!(again.budget, None);
    assert_eq!(again.hints, None);
    let calls = engine.call_count();
    assert!(governor
        .set_budget_at(TabId::new(99), ExecutionBudget { tier: BudgetTier::Foreground }, 30)
        .is_none());
    assert_eq!(engine.call_count(), calls);
    governor.set_budget(tab, ExecutionBudget { tier: BudgetTier::Foreground });
    assert_eq!(engine.last_budget(tab), Some(ExecutionBudget { tier: BudgetTier::Foreground }));
}

#[test]
fn unknown_tab_state_is_none_and_input_does_not_track_it() {
    let engine = Rc::new(DummyEngine::new());
    let mut governor = ExecutionGovernor::new(engine.clone());
    assert_eq!(governor.state(TabId::new(5)), None);
    let updates = governor.record_user_input_at(TabId::new(5), 50);
    assert!(no_calls(&updates));
    assert_eq!(governor.state(TabId::new(5)), None);
    governor.on_tab_state_changed(TabId::new(5), TabState::Suspended);
    assert_eq!(governor.state(TabId::new(5)), Some(TabState::Suspended));
    governor.poll();
    governor.record_user_input(TabId::new(5));
    governor.set_memory_pressure(MemoryPressure::Low);
    assert_eq!(engine.last_state(TabId::new(5)), Some(TabState::Suspended));
}

#[test]
fn feedback_is_sampled_when_budget_or_state_changes() {
    let engine = Rc::new(DummyEngine::new());
    let mut governor = ExecutionGovernor::new(engine.clone());
    let tab = TabId::new(1);
    governor.on_tab_state_changed_at(tab, TabState::Active, 0);
    let snapshot = governor.get_execution_feedback_at(tab, 0).unwrap();
    assert_eq!(snapshot.sample_count(), 1);
    assert_eq!(snapshot.staleness_tag(), FeedbackStalenessTag::Fresh);
    governor.reconcile(10);
    assert_eq!(governor.get_execution_feedback_at(tab, 10).unwrap().sample_count(), 1);
    governor.set_memory_pressure_at(MemoryPressure::Severe, 20);
    let snapshot = governor.get_execution_feedback_at(tab, 30).unwrap();
    assert_eq!(snapshot.sample_count(), 2);
    assert_eq!(snapshot.staleness_tag(), FeedbackStalenessTag::Stale);
    assert_eq!(snapshot.age(), 10);
    assert!(governor.get_execution_feedback_at(TabId::new(2), 30).is_none());
}
