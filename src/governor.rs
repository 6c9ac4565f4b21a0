//! The execution governor: per-tab lifecycle bookkeeping and reconciliation.
//!
//! Times are milliseconds on a monotonic clock. Every public operation has a
//! `_at` form that takes the current time and states its effect exactly, and
//! a form that reads the governor's own clock.

use vstd::prelude::*;
use std::rc::Rc;
use crate::clock::Clock;
use crate::policy::{
    demote_tier, demoted_tier_spec, tier_rank, hints_spec, map_execution_hints, BudgetTier, ExecutionBudget,
    ExecutionBudgetHints, MemoryPressure,
};
use crate::tabs::{TabId, TabState};
use crate::feedback::{
    feedback_lookup, lemma_lookup_after_sample, sampled_spec, EngineExecutionFeedback,
    EngineFeedbackProvider, ExecutionFeedbackState, FeedbackRecord, FeedbackSamplingTrigger,
};
use crate::diagnostics::{ExecutionFeedbackAggregate, ExecutionFeedbackSnapshot};

verus! {

/// User counts as active while the last input is at most this old.
pub const ACTIVE_INPUT_WINDOW_MS: u64 = 1200;

/// User counts as idle once the last input is at least this old.
pub const IDLE_THRESHOLD_MS: u64 = 4000;

/// While the user is idle, a burst window opens once per this interval.
pub const IDLE_BURST_INTERVAL_MS: u64 = 5000;

/// How long an idle burst window stays open.
pub const IDLE_BURST_DURATION_MS: u64 = 500;

/// A tab touched at most this long ago is protected regardless of tier.
pub const TAB_INPUT_GRACE_MS: u64 = 800;

/// Engine-facing hooks driven by the governor.
///
/// All calls are fire-and-forget; the engine may ignore hints it cannot honour.
pub trait EngineScheduler: EngineFeedbackProvider {
    /// Applies a tab state transition at the engine level.
    fn apply_tab_state(&self, tab: TabId, state: TabState);

    /// Applies a budget to the engine for the given tab.
    fn apply_execution_budget(&self, tab: TabId, budget: ExecutionBudget);

    /// Applies advisory execution hints for the given tab.
    fn apply_execution_hints(&self, tab: TabId, hints: ExecutionBudgetHints);
}

/// Interface for governing script execution without rewriting scripts.
pub trait JSExecutionGovernor {
    /// Whether the governor's internal bookkeeping is consistent.
    spec fn ready(&self) -> bool;

    /// Applies a new budget to the tab.
    fn set_budget(&mut self, tab: TabId, budget: ExecutionBudget)
        requires
            old(self).ready(),
        ensures
            final(self).ready(),
    ;

    /// Notifies the governor that a tab's state has changed.
    fn on_tab_state_changed(&mut self, tab: TabId, state: TabState)
        requires
            old(self).ready(),
        ensures
            final(self).ready(),
    ;
}

/// Everything the governor keeps about one tab.
#[derive(Debug, Clone, Copy)]
pub struct TabRecord {
    pub tab: TabId,
    /// Lifecycle state last reported for the tab; `None` while only input was seen.
    pub base_state: Option<TabState>,
    /// Time of the last input on this tab.
    pub last_input_at: Option<u64>,
    /// Effective state last applied to the engine.
    pub applied_state: Option<TabState>,
    /// Budget last applied to the engine.
    pub applied_budget: Option<ExecutionBudget>,
    /// Hints last applied to the engine.
    pub applied_hints: Option<ExecutionBudgetHints>,
}

/// The engine calls made for one tab by one operation: `None` where no call was made.
#[derive(Debug, Clone, Copy, PartialEq, Eq, Structural)]
pub struct TabUpdate {
    pub tab: TabId,
    pub budget: Option<ExecutionBudget>,
    pub hints: Option<ExecutionBudgetHints>,
    pub state: Option<TabState>,
}

/// One call made on the engine.
#[derive(Debug, Clone, Copy, PartialEq, Eq, Structural)]
pub enum EngineCall {
    Budget(TabId, ExecutionBudget),
    Hints(TabId, ExecutionBudgetHints),
    State(TabId, TabState),
}

/// The engine calls of one update: budget, then hints, then state, each
/// only where the update changes it.
pub open spec fn update_calls(u: TabUpdate) -> Seq<EngineCall> {
    (match u.budget {
        Some(b) => seq![EngineCall::Budget(u.tab, b)],
        None => Seq::empty(),
    }) + (match u.hints {
        Some(h) => seq![EngineCall::Hints(u.tab, h)],
        None => Seq::empty(),
    }) + (match u.state {
        Some(st) => seq![EngineCall::State(u.tab, st)],
        None => Seq::empty(),
    })
}

/// The engine calls of `updates`, in order.
pub open spec fn calls_of(updates: Seq<TabUpdate>) -> Seq<EngineCall>
    decreases updates.len(),
{
    if updates.len() == 0 {
        Seq::empty()
    } else {
        calls_of(updates.drop_last()) + update_calls(updates.last())
    }
}

/// What recent user input says about intent at a given time.
#[derive(Debug, Clone, Copy, PartialEq, Eq, Structural)]
pub struct Intent {
    /// The last input is recent enough that the user is interacting.
    pub user_active: bool,
    /// The user has been idle for at least the idle threshold.
    pub user_idle: bool,
    /// The user is idle and an idle burst window is open.
    pub burst_open: bool,
}

/// Abstract state of a governor.
pub struct GovernorView {
    pub records: Seq<TabRecord>,
    pub last_global_input: u64,
    pub last_idle_burst: u64,
    pub pressure: MemoryPressure,
}

/// Time from `since` to `now`, zero when `since` is later.
pub open spec fn elapsed_spec(now: u64, since: u64) -> int {
    if now >= since {
        now - since
    } else {
        0
    }
}

pub open spec fn intent_spec(last_input: u64, last_burst: u64, now: u64) -> Intent {
    let since_input = elapsed_spec(now, last_input);
    let since_burst = elapsed_spec(now, last_burst);
    let idle = since_input >= IDLE_THRESHOLD_MS;
    Intent {
        user_active: since_input <= ACTIVE_INPUT_WINDOW_MS,
        user_idle: idle,
        burst_open: idle && (since_burst >= IDLE_BURST_INTERVAL_MS || since_burst
            <= IDLE_BURST_DURATION_MS),
    }
}

/// Start of the current burst window: a new window opens, at `now`, once the
/// user is idle and a full interval has passed since the last one.
pub open spec fn burst_anchor_spec(last_input: u64, last_burst: u64, now: u64) -> u64 {
    if elapsed_spec(now, last_input) >= IDLE_THRESHOLD_MS && elapsed_spec(now, last_burst)
        >= IDLE_BURST_INTERVAL_MS {
        now
    } else {
        last_burst
    }
}

/// The tab had input within the grace window.
pub open spec fn tab_recent_spec(r: TabRecord, now: u64) -> bool {
    match r.last_input_at {
        Some(t) => elapsed_spec(now, t) <= TAB_INPUT_GRACE_MS,
        None => false,
    }
}

/// Effective state and tier of a tab.
pub open spec fn tab_decision(
    base: TabState,
    intent: Intent,
    recent: bool,
    pressure: MemoryPressure,
) -> (TabState, BudgetTier) {
    match base {
        TabState::Active => (
            TabState::Active,
            demoted_tier_spec(BudgetTier::Foreground, pressure),
        ),
        TabState::Suspended => (
            TabState::Suspended,
            demoted_tier_spec(BudgetTier::IdleBackground, pressure),
        ),
        TabState::Background => {
            let tier0 = if !intent.user_active && intent.user_idle {
                BudgetTier::IdleBackground
            } else {
                BudgetTier::VisibleBackground
            };
            let allow = if intent.user_active {
                false
            } else if intent.user_idle {
                intent.burst_open
            } else {
                true
            };
            let tentative = if allow || recent {
                TabState::Background
            } else {
                TabState::Suspended
            };
            let tier = demoted_tier_spec(tier0, pressure);
            let effective = if tier == BudgetTier::IdleBackground && !intent.burst_open
                && !recent {
                TabState::Suspended
            } else {
                tentative
            };
            (effective, tier)
        },
    }
}

/// A record after reconciliation.
pub open spec fn reconciled_record(
    r: TabRecord,
    intent: Intent,
    now: u64,
    pressure: MemoryPressure,
) -> TabRecord {
    match r.base_state {
        None => r,
        Some(base) => {
            let (effective, tier) = tab_decision(base, intent, tab_recent_spec(r, now), pressure);
            TabRecord {
                applied_state: Some(effective),
                applied_budget: Some(ExecutionBudget { tier }),
                applied_hints: Some(hints_spec(tier, pressure)),
                ..r
            }
        },
    }
}

/// `Some(new)` where the applied value changes, `None` where it stays.
pub open spec fn diff<T>(old: Option<T>, new: Option<T>) -> Option<T> {
    if old == new {
        None
    } else {
        new
    }
}

/// The engine calls that reconciling a record makes.
pub open spec fn record_update(
    r: TabRecord,
    intent: Intent,
    now: u64,
    pressure: MemoryPressure,
) -> TabUpdate {
    let n = reconciled_record(r, intent, now, pressure);
    TabUpdate {
        tab: r.tab,
        budget: diff(r.applied_budget, n.applied_budget),
        hints: diff(r.applied_hints, n.applied_hints),
        state: diff(r.applied_state, n.applied_state),
    }
}

pub open spec fn view_intent(v: GovernorView, now: u64) -> Intent {
    intent_spec(v.last_global_input, v.last_idle_burst, now)
}

/// The governor after a full reconciliation pass at `now`.
pub open spec fn reconcile_spec(v: GovernorView, now: u64) -> GovernorView {
    let intent = view_intent(v, now);
    GovernorView {
        records: Seq::new(
            v.records.len(),
            |j: int| reconciled_record(v.records[j], intent, now, v.pressure),
        ),
        last_idle_burst: burst_anchor_spec(v.last_global_input, v.last_idle_burst, now),
        ..v
    }
}

/// The engine calls of a full reconciliation pass at `now`, one entry per record.
pub open spec fn reconcile_updates(v: GovernorView, now: u64) -> Seq<TabUpdate> {
    let intent = view_intent(v, now);
    Seq::new(v.records.len(), |j: int| record_update(v.records[j], intent, now, v.pressure))
}

/// No two records are about the same tab.
pub open spec fn tabs_unique(records: Seq<TabRecord>) -> bool {
    forall|i: int, j: int|
        0 <= i < records.len() && 0 <= j < records.len() && i != j ==> records[i].tab
            != records[j].tab
}

pub open spec fn has_tab(records: Seq<TabRecord>, tab: TabId) -> bool {
    exists|i: int| 0 <= i < records.len() && records[i].tab == tab
}

/// Position of the record of `tab`, or -1.
pub open spec fn tab_index(records: Seq<TabRecord>, tab: TabId) -> int {
    if has_tab(records, tab) {
        choose|i: int| 0 <= i < records.len() && records[i].tab == tab
    } else {
        -1
    }
}

pub open spec fn fresh_record(tab: TabId) -> TabRecord {
    TabRecord {
        tab,
        base_state: None,
        last_input_at: None,
        applied_state: None,
        applied_budget: None,
        applied_hints: None,
    }
}

/// Applies `f` to the record of `tab`, first adding an empty one at the end if there is none.
pub open spec fn upsert(
    records: Seq<TabRecord>,
    tab: TabId,
    f: spec_fn(TabRecord) -> TabRecord,
) -> Seq<TabRecord> {
    if has_tab(records, tab) {
        let i = tab_index(records, tab);
        records.update(i, f(records[i]))
    } else {
        records.push(f(fresh_record(tab)))
    }
}

/// Input on `tab` at `now`: stamps the global and per-tab input times and
/// restarts the idle burst cycle.
pub open spec fn mark_input_spec(v: GovernorView, tab: TabId, now: u64) -> GovernorView {
    GovernorView {
        records: upsert(v.records, tab, |r: TabRecord| TabRecord { last_input_at: Some(now), ..r }),
        last_global_input: now,
        last_idle_burst: now,
        ..v
    }
}

pub open spec fn set_base_state_spec(v: GovernorView, tab: TabId, state: TabState) -> GovernorView {
    GovernorView {
        records: upsert(v.records, tab, |r: TabRecord| TabRecord { base_state: Some(state), ..r }),
        ..v
    }
}

pub open spec fn record_user_input_spec(v: GovernorView, tab: TabId, now: u64) -> GovernorView {
    reconcile_spec(mark_input_spec(v, tab, now), now)
}

pub open spec fn set_memory_pressure_spec(
    v: GovernorView,
    pressure: MemoryPressure,
    now: u64,
) -> GovernorView {
    reconcile_spec(GovernorView { pressure, ..v }, now)
}

/// The state before the reconciliation that a state change triggers.
pub open spec fn state_change_input(
    v: GovernorView,
    tab: TabId,
    state: TabState,
    now: u64,
) -> GovernorView {
    let v1 = set_base_state_spec(v, tab, state);
    if state == TabState::Active {
        mark_input_spec(v1, tab, now)
    } else {
        v1
    }
}

pub open spec fn on_tab_state_changed_spec(
    v: GovernorView,
    tab: TabId,
    state: TabState,
    now: u64,
) -> GovernorView {
    reconcile_spec(state_change_input(v, tab, state, now), now)
}

/// The tab has a record with a known lifecycle state.
pub open spec fn is_tracked(v: GovernorView, tab: TabId) -> bool {
    has_tab(v.records, tab) && v.records[tab_index(v.records, tab)].base_state is Some
}

/// A budget set directly: stored with its hints for a tracked tab, ignored otherwise.
pub open spec fn set_budget_spec(
    v: GovernorView,
    tab: TabId,
    budget: ExecutionBudget,
) -> GovernorView {
    if is_tracked(v, tab) {
        let i = tab_index(v.records, tab);
        let r = v.records[i];
        GovernorView {
            records: v.records.update(
                i,
                TabRecord {
                    applied_budget: Some(budget),
                    applied_hints: Some(hints_spec(budget.tier, v.pressure)),
                    ..r
                },
            ),
            ..v
        }
    } else {
        v
    }
}

/// The engine calls that setting a budget directly makes.
pub open spec fn set_budget_update(
    v: GovernorView,
    tab: TabId,
    budget: ExecutionBudget,
) -> Option<TabUpdate> {
    if is_tracked(v, tab) {
        let r = v.records[tab_index(v.records, tab)];
        Some(
            TabUpdate {
                tab,
                budget: diff(r.applied_budget, Some(budget)),
                hints: diff(r.applied_hints, Some(hints_spec(budget.tier, v.pressure))),
                state: None,
            },
        )
    } else {
        None
    }
}

/// Feedback is sampled for a tab whose state or budget an update changes.
pub open spec fn samples_feedback(u: TabUpdate) -> bool {
    u.state is Some || u.budget is Some
}

/// One of the first `n` updates samples feedback for `tab`.
pub open spec fn sampled_before(updates: Seq<TabUpdate>, n: int, tab: TabId) -> bool {
    exists|j: int| 0 <= j < n && updates[j].tab == tab && samples_feedback(updates[j])
}

/// The feedback entry of `t` after the first `n` of `updates` at `now`: a
/// tab they sampled holds a record sampled at `now`, whatever the engine
/// reported; any other tab's entry is as it was.
pub open spec fn feedback_entry_after(
    before: Seq<(TabId, FeedbackRecord)>,
    after: Seq<(TabId, FeedbackRecord)>,
    updates: Seq<TabUpdate>,
    n: int,
    now: u64,
    t: TabId,
) -> bool {
    if sampled_before(updates, n, t) {
        feedback_lookup(after, t) matches Some(r) && r.last_sampled_at == now
    } else {
        feedback_lookup(after, t) == feedback_lookup(before, t)
    }
}

/// Every tab's feedback entry after all of `updates` at `now`.
pub open spec fn feedback_sampled(
    before: Seq<(TabId, FeedbackRecord)>,
    after: Seq<(TabId, FeedbackRecord)>,
    updates: Seq<TabUpdate>,
    now: u64,
) -> bool {
    forall|t: TabId| #[trigger] feedback_entry_after(before, after, updates, updates.len() as int, now, t)
}

/// The update makes no engine call.
pub open spec fn no_calls(u: TabUpdate) -> bool {
    u.budget is None && u.hints is None && u.state is None
}

/// Updates that change nothing make no engine call.
pub proof fn lemma_quiet_updates_call_nothing(updates: Seq<TabUpdate>)
    requires
        forall|j: int| 0 <= j < updates.len() ==> no_calls(#[trigger] updates[j]),
    ensures
        calls_of(updates) == Seq::<EngineCall>::empty(),
    decreases updates.len(),
{
    if updates.len() > 0 {
        let rest = updates.drop_last();
        assert forall|j: int| 0 <= j < rest.len() implies no_calls(#[trigger] rest[j]) by {
            assert(rest[j] == updates[j]);
        }
        lemma_quiet_updates_call_nothing(rest);
        assert(no_calls(updates[updates.len() - 1]));
        assert(update_calls(updates.last()) =~= Seq::<EngineCall>::empty());
        assert(calls_of(updates) =~= Seq::<EngineCall>::empty());
    }
}

/// Reconciling twice at the same time with nothing in between makes no
/// engine call the second time, and the second pass changes nothing.
pub proof fn lemma_reconcile_idempotent(v: GovernorView, now: u64)
    ensures
        reconcile_spec(reconcile_spec(v, now), now) == reconcile_spec(v, now),
        forall|j: int|
            0 <= j < v.records.len() ==> no_calls(
                #[trigger] reconcile_updates(reconcile_spec(v, now), now)[j],
            ),
        calls_of(reconcile_updates(reconcile_spec(v, now), now)) == Seq::<EngineCall>::empty(),
{
    let v1 = reconcile_spec(v, now);
    let v2 = reconcile_spec(v1, now);
    assert(view_intent(v1, now) == view_intent(v, now));
    assert forall|j: int| 0 <= j < v.records.len() implies v2.records[j] == v1.records[j]
        && no_calls(reconcile_updates(v1, now)[j]) by {
        let r = v.records[j];
        assert(v1.records[j] == reconciled_record(r, view_intent(v, now), now, v.pressure));
    }
    assert(v2.records =~= v1.records);
    lemma_quiet_updates_call_nothing(reconcile_updates(v1, now));
}

/// Memory pressure only ever demotes: in a reconciliation pass, every
/// tracked tab gets a tier at least as low under any pressure as it would
/// under low pressure, all else being equal.
pub proof fn lemma_pressure_only_demotes(v: GovernorView, pressure: MemoryPressure, now: u64, j: int)
    requires
        0 <= j < v.records.len(),
        v.records[j].base_state is Some,
    ensures
        tier_rank(
            reconcile_spec(GovernorView { pressure, ..v }, now).records[j].applied_budget->0.tier,
        ) >= tier_rank(
            reconcile_spec(
                GovernorView { pressure: MemoryPressure::Low, ..v },
                now,
            ).records[j].applied_budget->0.tier,
        ),
{
}

/// A background tab without recent input, while the user is idle, may run
/// exactly when an idle burst window is open, whatever the pressure.
pub proof fn lemma_idle_background_runs_only_in_bursts(
    intent: Intent,
    pressure: MemoryPressure,
)
    requires
        intent.user_idle,
        !intent.user_active,
    ensures
        tab_decision(TabState::Background, intent, false, pressure).0 == (if intent.burst_open {
            TabState::Background
        } else {
            TabState::Suspended
        }),
{
}

/// Idle bursts are periodic. After the last input at `t0`, which also starts
/// the burst cycle, no window is open until the interval has passed; a poll
/// at `t0 + 5000` opens a window and restarts the cycle there; that window
/// stays open for at most 500 ms; and the next one opens an interval later,
/// at `t0 + 10000`. Polls in between do not move the cycle.
pub proof fn lemma_idle_burst_periodicity(t0: u64, t: u64)
    requires
        t0 + 2 * IDLE_BURST_INTERVAL_MS <= u64::MAX,
    ensures
        t0 <= t < t0 + IDLE_BURST_INTERVAL_MS ==> !intent_spec(t0, t0, t).burst_open
            && burst_anchor_spec(t0, t0, t) == t0,
        intent_spec(t0, t0, (t0 + IDLE_BURST_INTERVAL_MS) as u64).burst_open,
        burst_anchor_spec(t0, t0, (t0 + IDLE_BURST_INTERVAL_MS) as u64) == t0
            + IDLE_BURST_INTERVAL_MS,
        ({
            let a1 = (t0 + IDLE_BURST_INTERVAL_MS) as u64;
            &&& a1 <= t <= a1 + IDLE_BURST_DURATION_MS ==> intent_spec(t0, a1, t).burst_open
                && burst_anchor_spec(t0, a1, t) == a1
            &&& a1 + IDLE_BURST_DURATION_MS < t < a1 + IDLE_BURST_INTERVAL_MS ==> !intent_spec(
                t0,
                a1,
                t,
            ).burst_open && burst_anchor_spec(t0, a1, t) == a1
            &&& intent_spec(t0, a1, (a1 + IDLE_BURST_INTERVAL_MS) as u64).burst_open
            &&& burst_anchor_spec(t0, a1, (a1 + IDLE_BURST_INTERVAL_MS) as u64) == t0 + 2
                * IDLE_BURST_INTERVAL_MS
        }),
{
}

/// Level-1 governor: tracks tab states and drives the engine's throttling hooks.
pub struct ExecutionGovernor<E: EngineScheduler> {
    engine: Rc<E>,
    clock: Clock,
    records: Vec<TabRecord>,
    last_global_input: u64,
    last_idle_burst: u64,
    memory_pressure: MemoryPressure,
    feedback: ExecutionFeedbackState,
    feedback_trigger: FeedbackSamplingTrigger,
    engine_log: Ghost<Seq<EngineCall>>,
}

fn elapsed(now: u64, since: u64) -> (d: u64)
    ensures
        d == elapsed_spec(now, since),
{
    if now >= since {
        now - since
    } else {
        0
    }
}

/// Decides a tab's effective state and tier.
pub fn decide_tab(base: TabState, intent: Intent, recent: bool, pressure: MemoryPressure) -> (r: (
    TabState,
    BudgetTier,
))
    ensures
        r == tab_decision(base, intent, recent, pressure),
{
    match base {
        TabState::Active => (TabState::Active, demote_tier(BudgetTier::Foreground, pressure)),
        TabState::Suspended => (
            TabState::Suspended,
            demote_tier(BudgetTier::IdleBackground, pressure),
        ),
        TabState::Background => {
            let tier0 = if intent.user_active {
                BudgetTier::VisibleBackground
            } else if intent.user_idle {
                BudgetTier::IdleBackground
            } else {
                BudgetTier::VisibleBackground
            };
            let allow = if intent.user_active {
                false
            } else if intent.user_idle {
                intent.burst_open
            } else {
                true
            };
            let tentative = if allow || recent {
                TabState::Background
            } else {
                TabState::Suspended
            };
            let tier = demote_tier(tier0, pressure);
            let effective = if tier == BudgetTier::IdleBackground && !intent.burst_open
                && !recent {
                TabState::Suspended
            } else {
                tentative
            };
            (effective, tier)
        },
    }
}

fn tab_recent(r: &TabRecord, now: u64) -> (b: bool)
    ensures
        b == tab_recent_spec(*r, now),
{
    match r.last_input_at {
        Some(t) => elapsed(now, t) <= TAB_INPUT_GRACE_MS,
        None => false,
    }
}

/// Reconciles one record: the record to keep and the engine calls to make.
fn reconcile_record(r: TabRecord, intent: Intent, now: u64, pressure: MemoryPressure) -> (res: (
    TabRecord,
    TabUpdate,
))
    ensures
        res.0 == reconciled_record(r, intent, now, pressure),
        res.1 == record_update(r, intent, now, pressure),
{
    match r.base_state {
        None => (r, TabUpdate { tab: r.tab, budget: None, hints: None, state: None }),
        Some(base) => {
            let recent = tab_recent(&r, now);
            let (effective, tier) = decide_tab(base, intent, recent, pressure);
            let budget = ExecutionBudget { tier };
            let hints = map_execution_hints(budget, pressure);
            let new_record = TabRecord {
                applied_state: Some(effective),
                applied_budget: Some(budget),
                applied_hints: Some(hints),
                ..r
            };
            let budget_call = if r.applied_budget == Some(budget) {
                None
            } else {
                Some(budget)
            };
            let hints_call = if r.applied_hints == Some(hints) {
                None
            } else {
                Some(hints)
            };
            let state_call = if r.applied_state == Some(effective) {
                None
            } else {
                Some(effective)
            };
            (new_record, TabUpdate { tab: r.tab, budget: budget_call, hints: hints_call, state: state_call })
        },
    }
}

/// Finds the record of `tab`.
fn find_tab(records: &Vec<TabRecord>, tab: TabId) -> (r: Option<usize>)
    requires
        tabs_unique(records@),
    ensures
        match r {
            Some(i) => i < records@.len() && records@[i as int].tab == tab && tab_index(records@, tab) == i,
            None => !has_tab(records@, tab) && tab_index(records@, tab) == -1,
        },
{
    let mut i: usize = 0;
    while i < records.len()
        invariant
            i <= records@.len(),
            tabs_unique(records@),
            forall|j: int| 0 <= j < i ==> records@[j].tab != tab,
        decreases records@.len() - i,
    {
        if records[i].tab == tab {
            proof {
                assert(has_tab(records@, tab));
                let k = tab_index(records@, tab);
                assert(records@[k].tab == tab);
                assert(records@[i as int].tab == tab);
                assert(k == i);
            }
            return Some(i);
        }
        i = i + 1;
    }
    None
}

impl<E: EngineScheduler> ExecutionGovernor<E> {
    /// Abstract state of the governor.
    pub closed spec fn view(&self) -> GovernorView {
        GovernorView {
            records: self.records@,
            last_global_input: self.last_global_input,
            last_idle_burst: self.last_idle_burst,
            pressure: self.memory_pressure,
        }
    }

    /// Every call made on the engine so far, in order.
    pub closed spec fn engine_calls(&self) -> Seq<EngineCall> {
        self.engine_log@
    }

    /// Stored engine feedback, one entry per sampled tab.
    pub closed spec fn feedback_view(&self) -> Seq<(TabId, FeedbackRecord)> {
        self.feedback@
    }

    /// The governor's bookkeeping is consistent: one record per tab, and one
    /// feedback entry per tab.
    pub closed spec fn wf(&self) -> bool {
        &&& tabs_unique(self@.records)
        &&& self.feedback.wf()
        &&& self.feedback_trigger.sample_on_state_change
        &&& self.feedback_trigger.sample_on_budget_change
    }

    /// Creates a governor driving `engine`. Its clock starts now, which also
    /// counts as the last user input.
    pub fn new(engine: Rc<E>) -> (g: Self)
        ensures
            g.wf(),
            g@.records.len() == 0,
            g@.last_global_input == 0,
            g@.last_idle_burst == 0,
            g@.pressure == MemoryPressure::Low,
            g.feedback_view().len() == 0,
            g.engine_calls().len() == 0,
    {
        ExecutionGovernor {
            engine,
            clock: Clock::start(),
            records: Vec::new(),
            last_global_input: 0,
            last_idle_burst: 0,
            memory_pressure: MemoryPressure::Low,
            feedback: ExecutionFeedbackState::new(),
            feedback_trigger: FeedbackSamplingTrigger::default(),
            engine_log: Ghost(Seq::empty()),
        }
    }

    /// Returns the last known state for a tab, if tracked.
    pub fn state(&self, tab: TabId) -> (s: Option<TabState>)
        requires
            self.wf(),
        ensures
            s == (if has_tab(self@.records, tab) {
                self@.records[tab_index(self@.records, tab)].base_state
            } else {
                None
            }),
    {
        match find_tab(&self.records, tab) {
            Some(i) => self.records[i].base_state,
            None => None,
        }
    }

    /// Current memory pressure signal.
    pub fn memory_pressure(&self) -> (p: MemoryPressure)
        ensures
            p == self@.pressure,
    {
        self.memory_pressure
    }

    /// Runs a full reconciliation pass at `now` and makes the engine calls it decides.
    pub fn reconcile(&mut self, now: u64) -> (updates: Vec<TabUpdate>)
        requires
            old(self).wf(),
        ensures
            final(self).wf(),
            final(self)@ == reconcile_spec(old(self)@, now),
            updates@ == reconcile_updates(old(self)@, now),
            feedback_sampled(old(self).feedback_view(), final(self).feedback_view(), updates@, now),
            final(self).engine_calls() == old(self).engine_calls() + calls_of(updates@),
    {
        let since_input = elapsed(now, self.last_global_input);
        let user_active = since_input <= ACTIVE_INPUT_WINDOW_MS;
        let user_idle = since_input >= IDLE_THRESHOLD_MS;
        let burst_open = if user_idle {
            let since_burst = elapsed(now, self.last_idle_burst);
            if since_burst >= IDLE_BURST_INTERVAL_MS {
                self.last_idle_burst = now;
                true
            } else {
                since_burst <= IDLE_BURST_DURATION_MS
            }
        } else {
            false
        };
        let intent = Intent { user_active, user_idle, burst_open };
        let ghost v0 = old(self)@;
        assert(intent == view_intent(v0, now));
        let pressure = self.memory_pressure;
        let n = self.records.len();
        let mut records: Vec<TabRecord> = Vec::new();
        let mut updates: Vec<TabUpdate> = Vec::new();
        let mut i: usize = 0;
        while i < n
            invariant
                n == self.records@.len(),
                self.records@ == v0.records,
                pressure == v0.pressure,
                intent == view_intent(v0, now),
                i <= n,
                records@.len() == i,
                updates@.len() == i,
                forall|j: int|
                    0 <= j < i ==> records@[j] == reconciled_record(
                        v0.records[j],
                        intent,
                        now,
                        pressure,
                    ),
                forall|j: int|
                    0 <= j < i ==> updates@[j] == record_update(
                        v0.records[j],
                        intent,
                        now,
                        pressure,
                    ),
            decreases n - i,
        {
            let (r, u) = reconcile_record(self.records[i], intent, now, pressure);
            records.push(r);
            updates.push(u);
            i = i + 1;
        }
        self.records = records;
        assert(self@.records =~= reconcile_spec(v0, now).records);
        assert(updates@ =~= reconcile_updates(v0, now));
        self.dispatch(&updates, now);
        updates
    }

    /// Position of the record of `tab`, appending an empty record first if there is none.
    fn index_or_insert(&mut self, tab: TabId) -> (i: usize)
        requires
            old(self).wf(),
        ensures
            final(self).wf(),
            final(self).feedback_view() == old(self).feedback_view(),
            final(self).engine_calls() == old(self).engine_calls(),
            final(self)@ == (GovernorView {
                records: if has_tab(old(self)@.records, tab) {
                    old(self)@.records
                } else {
                    old(self)@.records.push(fresh_record(tab))
                },
                ..old(self)@
            }),
            i < final(self)@.records.len(),
            has_tab(old(self)@.records, tab) ==> i == tab_index(old(self)@.records, tab),
            !has_tab(old(self)@.records, tab) ==> i == old(self)@.records.len(),
    {
        match find_tab(&self.records, tab) {
            Some(i) => i,
            None => {
                self.records.push(
                    TabRecord {
                        tab,
                        base_state: None,
                        last_input_at: None,
                        applied_state: None,
                        applied_budget: None,
                        applied_hints: None,
                    },
                );
                self.records.len() - 1
            },
        }
    }

    /// Stamps input on `tab` at `now` and restarts the idle burst cycle.
    fn mark_recent_input(&mut self, tab: TabId, now: u64)
        requires
            old(self).wf(),
        ensures
            final(self).wf(),
            final(self).feedback_view() == old(self).feedback_view(),
            final(self).engine_calls() == old(self).engine_calls(),
            final(self)@ == mark_input_spec(old(self)@, tab, now),
    {
        let ghost v0 = old(self)@;
        self.last_global_input = now;
        self.last_idle_burst = now;
        let i = self.index_or_insert(tab);
        let mut r = self.records[i];
        r.last_input_at = Some(now);
        self.records[i] = r;
        proof {
            let f = |r: TabRecord| TabRecord { last_input_at: Some(now), ..r };
            if has_tab(v0.records, tab) {
                assert(self@.records =~= v0.records.update(i as int, f(v0.records[i as int])));
            } else {
                assert(self@.records =~= v0.records.push(f(fresh_record(tab))));
            }
            assert(self@.records == upsert(v0.records, tab, f));
        }
    }

    /// Stores the lifecycle state reported for `tab`.
    fn set_base_state(&mut self, tab: TabId, state: TabState)
        requires
            old(self).wf(),
        ensures
            final(self).wf(),
            final(self).feedback_view() == old(self).feedback_view(),
            final(self).engine_calls() == old(self).engine_calls(),
            final(self)@ == set_base_state_spec(old(self)@, tab, state),
    {
        let ghost v0 = old(self)@;
        let i = self.index_or_insert(tab);
        let mut r = self.records[i];
        r.base_state = Some(state);
        self.records[i] = r;
        proof {
            let f = |r: TabRecord| TabRecord { base_state: Some(state), ..r };
            if has_tab(v0.records, tab) {
                assert(self@.records =~= v0.records.update(i as int, f(v0.records[i as int])));
            } else {
                assert(self@.records =~= v0.records.push(f(fresh_record(tab))));
            }
            assert(self@.records == upsert(v0.records, tab, f));
        }
    }

    /// Records a user interaction with `tab` at `now`, then reconciles.
    pub fn record_user_input_at(&mut self, tab: TabId, now: u64) -> (updates: Vec<TabUpdate>)
        requires
            old(self).wf(),
        ensures
            final(self).wf(),
            final(self)@ == record_user_input_spec(old(self)@, tab, now),
            updates@ == reconcile_updates(mark_input_spec(old(self)@, tab, now), now),
            feedback_sampled(old(self).feedback_view(), final(self).feedback_view(), updates@, now),
            final(self).engine_calls() == old(self).engine_calls() + calls_of(updates@),
    {
        self.mark_recent_input(tab, now);
        self.reconcile(now)
    }

    /// Updates the memory pressure signal at `now`, then reconciles.
    /// Pressure only ever demotes budget tiers.
    pub fn set_memory_pressure_at(&mut self, pressure: MemoryPressure, now: u64) -> (updates: Vec<
        TabUpdate,
    >)
        requires
            old(self).wf(),
        ensures
            final(self).wf(),
            final(self)@ == set_memory_pressure_spec(old(self)@, pressure, now),
            updates@ == reconcile_updates(GovernorView { pressure, ..old(self)@ }, now),
            feedback_sampled(old(self).feedback_view(), final(self).feedback_view(), updates@, now),
            final(self).engine_calls() == old(self).engine_calls() + calls_of(updates@),
    {
        self.memory_pressure = pressure;
        self.reconcile(now)
    }

    /// Stores the state reported for `tab` at `now`; a tab becoming active
    /// also counts as input on it. Then reconciles.
    pub fn on_tab_state_changed_at(&mut self, tab: TabId, state: TabState, now: u64) -> (updates:
        Vec<TabUpdate>)
        requires
            old(self).wf(),
        ensures
            final(self).wf(),
            final(self)@ == on_tab_state_changed_spec(old(self)@, tab, state, now),
            updates@ == reconcile_updates(state_change_input(old(self)@, tab, state, now), now),
            feedback_sampled(old(self).feedback_view(), final(self).feedback_view(), updates@, now),
            final(self).engine_calls() == old(self).engine_calls() + calls_of(updates@),
    {
        self.set_base_state(tab, state);
        if state == TabState::Active {
            self.mark_recent_input(tab, now);
        }
        self.reconcile(now)
    }

    /// Applies `budget` and its hints to a tracked tab directly, without
    /// deriving them; an untracked tab is left alone.
    pub fn set_budget_at(&mut self, tab: TabId, budget: ExecutionBudget, now: u64) -> (update: Option<
        TabUpdate,
    >)
        requires
            old(self).wf(),
        ensures
            final(self).wf(),
            final(self)@ == set_budget_spec(old(self)@, tab, budget),
            update == set_budget_update(old(self)@, tab, budget),
            feedback_sampled(
                old(self).feedback_view(),
                final(self).feedback_view(),
                match update {
                    Some(u) => seq![u],
                    None => seq![],
                },
                now,
            ),
            final(self).engine_calls() == old(self).engine_calls() + match update {
                Some(u) => update_calls(u),
                None => Seq::empty(),
            },
    {
        let i = match find_tab(&self.records, tab) {
            Some(i) => i,
            None => {
                assert(self.engine_calls() =~= old(self).engine_calls() + Seq::<EngineCall>::empty());
                return None;
            },
        };
        let r = self.records[i];
        if r.base_state.is_none() {
            assert(self.engine_calls() =~= old(self).engine_calls() + Seq::<EngineCall>::empty());
            return None;
        }
        let hints = map_execution_hints(budget, self.memory_pressure);
        let update = TabUpdate {
            tab,
            budget: if r.applied_budget == Some(budget) {
                None
            } else {
                Some(budget)
            },
            hints: if r.applied_hints == Some(hints) {
                None
            } else {
                Some(hints)
            },
            state: None,
        };
        self.records[i] = TabRecord { applied_budget: Some(budget), applied_hints: Some(hints), ..r };
        let updates = vec![update];
        self.dispatch(&updates, now);
        assert(updates@ =~= seq![update]);
        assert(updates@.drop_last() =~= Seq::<TabUpdate>::empty());
        assert(calls_of(Seq::<TabUpdate>::empty()) =~= Seq::<EngineCall>::empty());
        assert(updates@.last() == update);
        assert(calls_of(updates@) =~= update_calls(update));
        Some(update)
    }

    /// Records a user interaction with `tab`, then reconciles.
    pub fn record_user_input(&mut self, tab: TabId)
        requires
            old(self).wf(),
        ensures
            final(self).wf(),
            exists|now: u64|
                final(self)@ == record_user_input_spec(old(self)@, tab, now) && final(self).engine_calls() == old(self).engine_calls() + calls_of(
                    reconcile_updates(mark_input_spec(old(self)@, tab, now), now),
                ),
    {
        let now = self.clock.now_ms();
        self.record_user_input_at(tab, now);
    }

    /// Updates the memory pressure signal, then reconciles.
    pub fn set_memory_pressure(&mut self, pressure: MemoryPressure)
        requires
            old(self).wf(),
        ensures
            final(self).wf(),
            exists|now: u64|
                final(self)@ == set_memory_pressure_spec(old(self)@, pressure, now) && final(self).engine_calls() == old(self).engine_calls() + calls_of(
                    reconcile_updates(GovernorView { pressure, ..old(self)@ }, now),
                ),
    {
        let now = self.clock.now_ms();
        self.set_memory_pressure_at(pressure, now);
    }

    /// Re-runs reconciliation with no new input, advancing idle and burst timing.
    pub fn poll(&mut self)
        requires
            old(self).wf(),
        ensures
            final(self).wf(),
            exists|now: u64|
                final(self)@ == reconcile_spec(old(self)@, now) && final(self).engine_calls()
                    == old(self).engine_calls() + calls_of(reconcile_updates(old(self)@, now)),
    {
        let now = self.clock.now_ms();
        self.reconcile(now);
    }

    /// Polls the engine's feedback for `tab` and stores it as sampled at `now`.
    /// Observational only: no scheduling decision reads it.
    pub fn poll_execution_feedback_at(&mut self, tab: TabId, now: u64)
        requires
            old(self).wf(),
        ensures
            final(self).wf(),
            final(self)@ == old(self)@,
            final(self).engine_calls() == old(self).engine_calls(),
            exists|reported: EngineExecutionFeedback|
                final(self).feedback_view() == sampled_spec(
                    old(self).feedback_view(),
                    tab,
                    reported,
                    now,
                ),
    {
        let ghost fb0 = self.feedback_view();
        let reported = self.engine.poll_execution_feedback(tab);
        self.feedback.update_for_tab(tab, reported, now);
        assert(self.feedback_view() == sampled_spec(fb0, tab, reported, now));
    }

    /// Polls the engine's feedback for `tab` and stores it.
    pub fn poll_execution_feedback(&mut self, tab: TabId)
        requires
            old(self).wf(),
        ensures
            final(self).wf(),
            final(self)@ == old(self)@,
            exists|reported: EngineExecutionFeedback, now: u64|
                final(self).feedback_view() == sampled_spec(
                    old(self).feedback_view(),
                    tab,
                    reported,
                    now,
                ),
    {
        let now = self.clock.now_ms();
        self.poll_execution_feedback_at(tab, now);
    }

    /// A snapshot of the feedback stored for `tab`, taken at `now`; `None` if
    /// the tab was never sampled.
    pub fn get_execution_feedback_at(&self, tab: TabId, now: u64) -> (s: Option<
        ExecutionFeedbackSnapshot,
    >)
        requires
            self.wf(),
        ensures
            s == match feedback_lookup(self.feedback_view(), tab) {
                Some(record) => Some(ExecutionFeedbackSnapshot { tab, record, taken_at: now }),
                None => None,
            },
    {
        match self.feedback.get(tab) {
            Some(record) => Some(ExecutionFeedbackSnapshot { tab, record, taken_at: now }),
            None => None,
        }
    }

    /// A snapshot of the feedback stored for `tab`; `None` if the tab was never sampled.
    pub fn get_execution_feedback(&self, tab: TabId) -> (s: Option<ExecutionFeedbackSnapshot>)
        requires
            self.wf(),
        ensures
            match feedback_lookup(self.feedback_view(), tab) {
                Some(record) => s matches Some(snapshot) && snapshot.tab == tab && snapshot.record
                    == record,
                None => s is None,
            },
    {
        let now = self.clock.now_ms();
        self.get_execution_feedback_at(tab, now)
    }

    /// All stored feedback, taken at `now`.
    pub fn execution_feedback_snapshot_at(&self, now: u64) -> (a: ExecutionFeedbackAggregate)
        ensures
            a.records@ == self.feedback_view().map_values(|p: (TabId, FeedbackRecord)| p.1),
            a.taken_at == now,
    {
        ExecutionFeedbackAggregate { records: self.feedback.records(), taken_at: now }
    }

    /// All stored feedback.
    pub fn execution_feedback_snapshot(&self) -> (a: ExecutionFeedbackAggregate)
        ensures
            a.records@ == self.feedback_view().map_values(|p: (TabId, FeedbackRecord)| p.1),
    {
        let now = self.clock.now_ms();
        self.execution_feedback_snapshot_at(now)
    }

    /// Makes the engine calls of `updates`, in order, sampling feedback at
    /// `now` for each tab whose state or budget changed.
    fn dispatch(&mut self, updates: &Vec<TabUpdate>, now: u64)
        requires
            old(self).wf(),
        ensures
            final(self).wf(),
            final(self)@ == old(self)@,
            feedback_sampled(old(self).feedback_view(), final(self).feedback_view(), updates@, now),
            final(self).engine_calls() == old(self).engine_calls() + calls_of(updates@),
    {
        let ghost v0 = self@;
        let ghost fb0 = self.feedback_view();
        let ghost log0 = self.engine_calls();
        let mut i: usize = 0;
        while i < updates.len()
            invariant
                self.wf(),
                self@ == v0,
                self.engine_calls() == log0 + calls_of(updates@.subrange(0, i as int)),
                i <= updates@.len(),
                forall|t: TabId|
                    #[trigger] feedback_entry_after(fb0, self.feedback_view(), updates@, i as int, now, t),
            decreases updates@.len() - i,
        {
            let u = updates[i];
            let ghost fb_prev = self.feedback_view();
            let ghost before_u = self.engine_calls();
            if let Some(budget) = u.budget {
                self.engine.apply_execution_budget(u.tab, budget);
                self.engine_log = Ghost(self.engine_log@.push(EngineCall::Budget(u.tab, budget)));
            }
            if let Some(hints) = u.hints {
                self.engine.apply_execution_hints(u.tab, hints);
                self.engine_log = Ghost(self.engine_log@.push(EngineCall::Hints(u.tab, hints)));
            }
            if let Some(state) = u.state {
                self.engine.apply_tab_state(u.tab, state);
                self.engine_log = Ghost(self.engine_log@.push(EngineCall::State(u.tab, state)));
            }
            proof {
                assert(self.engine_calls() =~= before_u + update_calls(u));
                assert(updates@.subrange(0, i + 1).drop_last() =~= updates@.subrange(0, i as int));
                assert(updates@.subrange(0, i + 1).last() == u);
                assert(self.engine_calls() =~= log0 + calls_of(updates@.subrange(0, i + 1)));
            }
            if self.feedback_trigger.should_sample(u.state.is_some(), u.budget.is_some()) {
                let reported = self.engine.poll_execution_feedback(u.tab);
                self.feedback.update_for_tab(u.tab, reported, now);
                proof {
                    assert forall|t: TabId|
                        #[trigger] feedback_entry_after(fb0, self.feedback_view(), updates@, i + 1, now, t) by {
                        lemma_lookup_after_sample(fb_prev, u.tab, reported, now, t);
                        if t == u.tab {
                            assert(updates@[i as int].tab == t);
                            assert(sampled_before(updates@, i + 1, t));
                        } else {
                            if sampled_before(updates@, i + 1, t) {
                                let j = choose|j: int|
                                    0 <= j < i + 1 && updates@[j].tab == t && samples_feedback(
                                        updates@[j],
                                    );
                                assert(j != i);
                                assert(sampled_before(updates@, i as int, t));
                            }
                            assert(feedback_entry_after(fb0, fb_prev, updates@, i as int, now, t));
                        }
                    }
                }
            } else {
                proof {
                    assert forall|t: TabId|
                        sampled_before(updates@, i + 1, t) == sampled_before(
                            updates@,
                            i as int,
                            t,
                        ) by {
                        if sampled_before(updates@, i + 1, t) {
                            let j = choose|j: int|
                                0 <= j < i + 1 && updates@[j].tab == t && samples_feedback(
                                    updates@[j],
                                );
                            assert(j != i);
                        }
                    }
                    assert forall|t: TabId|
                        #[trigger] feedback_entry_after(fb0, self.feedback_view(), updates@, i + 1, now, t) by {
                        assert(feedback_entry_after(fb0, fb_prev, updates@, i as int, now, t));
                    }
                }
            }
            i = i + 1;
        }
        assert(updates@.subrange(0, updates@.len() as int) =~= updates@);
    }
}

impl<E: EngineScheduler> JSExecutionGovernor for ExecutionGovernor<E> {
    open spec fn ready(&self) -> bool {
        self.wf()
    }

    fn set_budget(&mut self, tab: TabId, budget: ExecutionBudget)
        ensures
            final(self)@ == set_budget_spec(old(self)@, tab, budget),
            final(self).engine_calls() == old(self).engine_calls() + match set_budget_update(
                old(self)@,
                tab,
                budget,
            ) {
                Some(u) => update_calls(u),
                None => Seq::empty(),
            },
    {
        let now = self.clock.now_ms();
        self.set_budget_at(tab, budget, now);
    }

    fn on_tab_state_changed(&mut self, tab: TabId, state: TabState)
        ensures
            exists|now: u64|
                final(self)@ == on_tab_state_changed_spec(old(self)@, tab, state, now) && final(self).engine_calls() == old(self).engine_calls() + calls_of(
                    reconcile_updates(state_change_input(old(self)@, tab, state, now), now),
                ),
    {
        let now = self.clock.now_ms();
        self.on_tab_state_changed_at(tab, state, now);
    }
}

} // verus!
