//! Observational execution feedback from the engine.
//!
//! Feedback is diagnostic only: it is stored and reported, and never drives
//! scheduling. It may be stale or incomplete; absence of a signal does not
//! imply absence of activity.

use vstd::prelude::*;
use crate::tabs::TabId;

verus! {

/// Execution feedback reported by the engine for one tab.
#[derive(Debug, Clone, Copy, PartialEq, Eq, Structural)]
pub struct EngineExecutionFeedback {
    /// Recent long-running script tasks were seen.
    pub has_long_tasks: bool,
    /// Approximate number of active workers.
    pub worker_count: u16,
    /// WebAssembly execution appears active.
    pub wasm_active: bool,
    /// Script appears to be blocking rendering.
    pub js_blocking_render: bool,
}

impl Default for EngineExecutionFeedback {
    fn default() -> (f: EngineExecutionFeedback)
        ensures
            !f.has_long_tasks && f.worker_count == 0 && !f.wasm_active && !f.js_blocking_render,
    {
        EngineExecutionFeedback {
            has_long_tasks: false,
            worker_count: 0,
            wasm_active: false,
            js_blocking_render: false,
        }
    }
}

/// Poll-based engine feedback provider. Polling must be cheap and non-blocking.
pub trait EngineFeedbackProvider {
    /// Polls execution feedback for a tab.
    fn poll_execution_feedback(&self, tab: TabId) -> EngineExecutionFeedback;
}

/// Whether a tab's feedback changed at its most recent sampling.
#[derive(Debug, Clone, Copy, PartialEq, Eq, Structural)]
pub enum FeedbackStalenessTag {
    /// Feedback was updated during the most recent sampling.
    Fresh,
    /// Feedback was sampled recently but did not change.
    Stale,
    /// Feedback has never been sampled for this tab.
    Unknown,
}

/// Coarse age classification of feedback.
#[derive(Debug, Clone, Copy, PartialEq, Eq, Structural)]
pub enum FeedbackAgeClass {
    Recent,
    Aging,
    Expired,
}

/// Aging windows for feedback observations, in milliseconds.
#[derive(Debug, Clone, Copy, PartialEq, Eq, Structural)]
pub struct FeedbackAgingWindows {
    pub recent: u64,
    pub expired: u64,
}

pub open spec fn classify_spec(w: FeedbackAgingWindows, age: u64) -> FeedbackAgeClass {
    if age <= w.recent {
        FeedbackAgeClass::Recent
    } else if age <= w.expired {
        FeedbackAgeClass::Aging
    } else {
        FeedbackAgeClass::Expired
    }
}

impl FeedbackAgingWindows {
    /// Classifies a feedback age into a coarse bucket.
    pub fn classify(&self, age: u64) -> (c: FeedbackAgeClass)
        ensures
            c == classify_spec(*self, age),
    {
        if age <= self.recent {
            FeedbackAgeClass::Recent
        } else if age <= self.expired {
            FeedbackAgeClass::Aging
        } else {
            FeedbackAgeClass::Expired
        }
    }
}

/// Stored feedback for one tab.
#[derive(Debug, Clone, Copy, PartialEq, Eq, Structural)]
pub struct FeedbackRecord {
    pub feedback: EngineExecutionFeedback,
    /// The feedback changed at the most recent sampling.
    pub updated_in_last_sample: bool,
    /// Time of the most recent sampling, in milliseconds.
    pub last_sampled_at: u64,
    /// Number of samplings, saturating.
    pub sample_count: u32,
}

pub open spec fn new_record_spec(feedback: EngineExecutionFeedback, at: u64) -> FeedbackRecord {
    FeedbackRecord {
        feedback,
        updated_in_last_sample: true,
        last_sampled_at: at,
        sample_count: 1,
    }
}

pub open spec fn saturating_inc(n: u32) -> u32 {
    if n < u32::MAX {
        (n + 1) as u32
    } else {
        u32::MAX
    }
}

pub open spec fn updated_record_spec(
    r: FeedbackRecord,
    feedback: EngineExecutionFeedback,
    at: u64,
) -> FeedbackRecord {
    FeedbackRecord {
        feedback,
        updated_in_last_sample: r.feedback != feedback,
        last_sampled_at: at,
        sample_count: saturating_inc(r.sample_count),
    }
}

pub open spec fn staleness_spec(r: FeedbackRecord) -> FeedbackStalenessTag {
    if r.updated_in_last_sample {
        FeedbackStalenessTag::Fresh
    } else {
        FeedbackStalenessTag::Stale
    }
}

impl FeedbackRecord {
    /// A record for feedback sampled for the first time at `at`.
    pub fn new(feedback: EngineExecutionFeedback, at: u64) -> (r: FeedbackRecord)
        ensures
            r == new_record_spec(feedback, at),
    {
        FeedbackRecord { feedback, updated_in_last_sample: true, last_sampled_at: at, sample_count: 1 }
    }

    /// Records a new sampling at `at`; returns whether the feedback changed.
    pub fn update(&mut self, feedback: EngineExecutionFeedback, at: u64) -> (changed: bool)
        ensures
            *final(self) == updated_record_spec(*old(self), feedback, at),
            changed == (old(self).feedback != feedback),
    {
        let changed = self.feedback != feedback;
        if changed {
            self.feedback = feedback;
        }
        self.updated_in_last_sample = changed;
        self.last_sampled_at = at;
        self.sample_count = if self.sample_count < u32::MAX {
            self.sample_count + 1
        } else {
            u32::MAX
        };
        changed
    }

    /// Fresh when the last sampling changed the feedback, stale otherwise.
    pub fn staleness_tag(&self) -> (t: FeedbackStalenessTag)
        ensures
            t == staleness_spec(*self),
    {
        if self.updated_in_last_sample {
            FeedbackStalenessTag::Fresh
        } else {
            FeedbackStalenessTag::Stale
        }
    }
}

/// One stored feedback record per tab.
pub open spec fn feedback_tabs_unique(s: Seq<(TabId, FeedbackRecord)>) -> bool {
    forall|i: int, j: int| 0 <= i < s.len() && 0 <= j < s.len() && i != j ==> s[i].0 != s[j].0
}

pub open spec fn feedback_has(s: Seq<(TabId, FeedbackRecord)>, tab: TabId) -> bool {
    exists|i: int| 0 <= i < s.len() && s[i].0 == tab
}

pub open spec fn feedback_index(s: Seq<(TabId, FeedbackRecord)>, tab: TabId) -> int {
    if feedback_has(s, tab) {
        choose|i: int| 0 <= i < s.len() && s[i].0 == tab
    } else {
        -1
    }
}

/// The stored record of `tab`, if it was ever sampled.
pub open spec fn feedback_lookup(s: Seq<(TabId, FeedbackRecord)>, tab: TabId) -> Option<
    FeedbackRecord,
> {
    if feedback_has(s, tab) {
        Some(s[feedback_index(s, tab)].1)
    } else {
        None
    }
}

/// Storage after sampling `feedback` for `tab` at `at`.
pub open spec fn sampled_spec(
    s: Seq<(TabId, FeedbackRecord)>,
    tab: TabId,
    feedback: EngineExecutionFeedback,
    at: u64,
) -> Seq<(TabId, FeedbackRecord)> {
    if feedback_has(s, tab) {
        let i = feedback_index(s, tab);
        s.update(i, (tab, updated_record_spec(s[i].1, feedback, at)))
    } else {
        s.push((tab, new_record_spec(feedback, at)))
    }
}


/// Sampling one tab keeps one record per tab, gives that tab its new record
/// and leaves every other tab's record as it was.
pub proof fn lemma_lookup_after_sample(
    s: Seq<(TabId, FeedbackRecord)>,
    tab: TabId,
    feedback: EngineExecutionFeedback,
    at: u64,
    t: TabId,
)
    requires
        feedback_tabs_unique(s),
    ensures
        feedback_tabs_unique(sampled_spec(s, tab, feedback, at)),
        feedback_lookup(sampled_spec(s, tab, feedback, at), t) == (if t == tab {
            Some(
                match feedback_lookup(s, tab) {
                    Some(r) => updated_record_spec(r, feedback, at),
                    None => new_record_spec(feedback, at),
                },
            )
        } else {
            feedback_lookup(s, t)
        }),
{
    let s2 = sampled_spec(s, tab, feedback, at);
    if feedback_has(s, tab) {
        let i = feedback_index(s, tab);
        assert(s[i].0 == tab);
        assert(feedback_tabs_unique(s2));
        assert(s2[i].0 == tab);
        if t == tab {
            assert(feedback_has(s2, t));
            let k = feedback_index(s2, t);
            assert(s2[k].0 == t);
            assert(k == i);
        } else if feedback_has(s, t) {
            let j = feedback_index(s, t);
            assert(s[j].0 == t);
            assert(s2[j] == s[j]);
            assert(feedback_has(s2, t));
            let k = feedback_index(s2, t);
            assert(s2[k].0 == t);
            assert(k != i);
            assert(s[k].0 == t);
        } else {
            if feedback_has(s2, t) {
                let k = feedback_index(s2, t);
                assert(s2[k].0 == t);
                assert(s[k].0 == t);
            }
        }
    } else {
        assert(s2[s.len() as int].0 == tab);
        assert(feedback_tabs_unique(s2));
        if t == tab {
            assert(feedback_has(s2, t));
            let k = feedback_index(s2, t);
            assert(s2[k].0 == t);
            assert(k == s.len());
        } else if feedback_has(s, t) {
            let j = feedback_index(s, t);
            assert(s[j].0 == t);
            assert(s2[j] == s[j]);
            assert(feedback_has(s2, t));
            let k = feedback_index(s2, t);
            assert(s2[k].0 == t);
            assert(k < s.len());
            assert(s[k].0 == t);
        } else {
            if feedback_has(s2, t) {
                let k = feedback_index(s2, t);
                assert(s2[k].0 == t);
                assert(k < s.len());
                assert(s[k].0 == t);
            }
        }
    }
}

/// Per-tab feedback storage.
pub struct ExecutionFeedbackState {
    per_tab: Vec<(TabId, FeedbackRecord)>,
}

impl ExecutionFeedbackState {
    pub closed spec fn view(&self) -> Seq<(TabId, FeedbackRecord)> {
        self.per_tab@
    }

    pub open spec fn wf(&self) -> bool {
        feedback_tabs_unique(self@)
    }

    /// Empty storage.
    pub fn new() -> (s: ExecutionFeedbackState)
        ensures
            s@.len() == 0,
            s.wf(),
    {
        ExecutionFeedbackState { per_tab: Vec::new() }
    }

    fn find(&self, tab: TabId) -> (r: Option<usize>)
        requires
            self.wf(),
        ensures
            match r {
                Some(i) => i < self@.len() && self@[i as int].0 == tab && feedback_index(self@, tab)
                    == i && feedback_has(self@, tab),
                None => !feedback_has(self@, tab),
            },
    {
        let mut i: usize = 0;
        while i < self.per_tab.len()
            invariant
                i <= self@.len(),
                feedback_tabs_unique(self@),
                forall|j: int| 0 <= j < i ==> self@[j].0 != tab,
            decreases self@.len() - i,
        {
            if self.per_tab[i].0 == tab {
                proof {
                    assert(feedback_has(self@, tab));
                    let k = feedback_index(self@, tab);
                    assert(self@[k].0 == tab);
                    assert(self@[i as int].0 == tab);
                }
                return Some(i);
            }
            i = i + 1;
        }
        None
    }

    /// Stores feedback sampled for `tab` at `at`; returns whether it changed
    /// (always, for a tab sampled for the first time).
    pub fn update_for_tab(&mut self, tab: TabId, feedback: EngineExecutionFeedback, at: u64) -> (changed: bool)
        requires
            old(self).wf(),
        ensures
            final(self).wf(),
            final(self)@ == sampled_spec(old(self)@, tab, feedback, at),
            changed == match feedback_lookup(old(self)@, tab) {
                Some(r) => r.feedback != feedback,
                None => true,
            },
    {
        match self.find(tab) {
            Some(i) => {
                let mut r = self.per_tab[i].1;
                let changed = r.update(feedback, at);
                self.per_tab[i] = (tab, r);
                changed
            },
            None => {
                self.per_tab.push((tab, FeedbackRecord::new(feedback, at)));
                true
            },
        }
    }

    /// The stored record of `tab`.
    pub fn get(&self, tab: TabId) -> (r: Option<FeedbackRecord>)
        requires
            self.wf(),
        ensures
            r == feedback_lookup(self@, tab),
    {
        match self.find(tab) {
            Some(i) => Some(self.per_tab[i].1),
            None => None,
        }
    }

    /// All stored records, in storage order.
    pub fn records(&self) -> (v: Vec<FeedbackRecord>)
        ensures
            v@ == self@.map_values(|p: (TabId, FeedbackRecord)| p.1),
    {
        let mut v: Vec<FeedbackRecord> = Vec::new();
        let mut i: usize = 0;
        while i < self.per_tab.len()
            invariant
                i <= self@.len(),
                v@ == self@.subrange(0, i as int).map_values(|p: (TabId, FeedbackRecord)| p.1),
            decreases self@.len() - i,
        {
            v.push(self.per_tab[i].1);
            i = i + 1;
            assert(v@ =~= self@.subrange(0, i as int).map_values(|p: (TabId, FeedbackRecord)| p.1));
        }
        assert(self@.subrange(0, self@.len() as int) =~= self@);
        v
    }
}

/// When to sample engine feedback opportunistically.
#[derive(Debug, Clone, Copy, PartialEq, Eq, Structural)]
pub struct FeedbackSamplingTrigger {
    pub sample_on_state_change: bool,
    pub sample_on_budget_change: bool,
}

impl Default for FeedbackSamplingTrigger {
    fn default() -> (t: FeedbackSamplingTrigger)
        ensures
            t.sample_on_state_change && t.sample_on_budget_change,
    {
        FeedbackSamplingTrigger { sample_on_state_change: true, sample_on_budget_change: true }
    }
}

impl FeedbackSamplingTrigger {
    /// Whether a tab whose state and budget did or did not change is sampled.
    pub fn should_sample(&self, state_changed: bool, budget_changed: bool) -> (b: bool)
        ensures
            b == ((state_changed && self.sample_on_state_change) || (budget_changed
                && self.sample_on_budget_change)),
    {
        (state_changed && self.sample_on_state_change) || (budget_changed
            && self.sample_on_budget_change)
    }
}

} // verus!
