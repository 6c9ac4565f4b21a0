//! Read-only views of stored feedback: per-tab snapshots, aggregates and
//! their diagnostic text. None of this may influence scheduling.

use vstd::prelude::*;
use vstd::string::StringExecFns;
use crate::feedback::{
    classify_spec, staleness_spec, EngineExecutionFeedback, FeedbackAgeClass,
    FeedbackAgingWindows, FeedbackRecord, FeedbackStalenessTag,
};
use crate::tabs::TabId;
use crate::text::{bool_string, bool_text, decimal_string, decimal_text};

verus! {

/// Age of a record at `now`, in milliseconds; zero if sampled later than `now`.
pub open spec fn age_spec(r: FeedbackRecord, now: u64) -> u64 {
    if now >= r.last_sampled_at {
        (now - r.last_sampled_at) as u64
    } else {
        0
    }
}

fn age_of(r: &FeedbackRecord, now: u64) -> (a: u64)
    ensures
        a == age_spec(*r, now),
{
    if now >= r.last_sampled_at {
        now - r.last_sampled_at
    } else {
        0
    }
}

pub open spec fn staleness_text(t: FeedbackStalenessTag) -> Seq<char> {
    match t {
        FeedbackStalenessTag::Fresh => "Fresh"@,
        FeedbackStalenessTag::Stale => "Stale"@,
        FeedbackStalenessTag::Unknown => "Unknown"@,
    }
}

pub open spec fn age_class_text(c: FeedbackAgeClass) -> Seq<char> {
    match c {
        FeedbackAgeClass::Recent => "Recent"@,
        FeedbackAgeClass::Aging => "Aging"@,
        FeedbackAgeClass::Expired => "Expired"@,
    }
}

fn append_staleness(s: &mut String, t: FeedbackStalenessTag)
    ensures
        final(s)@ == old(s)@ + staleness_text(t),
{
    match t {
        FeedbackStalenessTag::Fresh => s.append("Fresh"),
        FeedbackStalenessTag::Stale => s.append("Stale"),
        FeedbackStalenessTag::Unknown => s.append("Unknown"),
    }
}

fn append_age_class(s: &mut String, c: FeedbackAgeClass)
    ensures
        final(s)@ == old(s)@ + age_class_text(c),
{
    match c {
        FeedbackAgeClass::Recent => s.append("Recent"),
        FeedbackAgeClass::Aging => s.append("Aging"),
        FeedbackAgeClass::Expired => s.append("Expired"),
    }
}

fn append_decimal(s: &mut String, n: u64)
    ensures
        final(s)@ == old(s)@ + decimal_text(n as nat),
{
    let d = decimal_string(n);
    s.append(d.as_str());
}

fn append_bool(s: &mut String, b: bool)
    ensures
        final(s)@ == old(s)@ + bool_text(b),
{
    let t = bool_string(b);
    s.append(t.as_str());
}

/// Read-only view of one tab's stored feedback, taken at `taken_at`.
#[derive(Debug, Clone, Copy)]
pub struct ExecutionFeedbackSnapshot {
    pub tab: TabId,
    pub record: FeedbackRecord,
    pub taken_at: u64,
}

/// Compact diagnostic line for one tab's feedback.
#[derive(Debug, Clone, Copy)]
pub struct ExecutionFeedbackDebugLine {
    pub tab: TabId,
    pub feedback: EngineExecutionFeedback,
    pub staleness: Option<FeedbackStalenessTag>,
    pub age_class: Option<FeedbackAgeClass>,
}

impl ExecutionFeedbackSnapshot {
    /// The tab this snapshot is about.
    pub fn tab(&self) -> (t: TabId)
        ensures
            t == self.tab,
    {
        self.tab
    }

    /// The stored feedback.
    pub fn feedback(&self) -> (f: EngineExecutionFeedback)
        ensures
            f == self.record.feedback,
    {
        self.record.feedback
    }

    /// Fresh when the last sampling changed the feedback, stale otherwise.
    pub fn staleness_tag(&self) -> (t: FeedbackStalenessTag)
        ensures
            t == staleness_spec(self.record),
    {
        self.record.staleness_tag()
    }

    /// Milliseconds from the last sampling to when the snapshot was taken.
    pub fn age(&self) -> (a: u64)
        ensures
            a == age_spec(self.record, self.taken_at),
    {
        age_of(&self.record, self.taken_at)
    }

    /// Number of samplings recorded for the tab.
    pub fn sample_count(&self) -> (n: u32)
        ensures
            n == self.record.sample_count,
    {
        self.record.sample_count
    }

    /// Age class of the feedback under `windows`.
    pub fn age_class(&self, windows: FeedbackAgingWindows) -> (c: FeedbackAgeClass)
        ensures
            c == classify_spec(windows, age_spec(self.record, self.taken_at)),
    {
        windows.classify(self.age())
    }

    /// A debug line, with the staleness tag and the age class if asked for.
    pub fn debug_line(
        &self,
        include_staleness: bool,
        age_windows: Option<FeedbackAgingWindows>,
    ) -> (l: ExecutionFeedbackDebugLine)
        ensures
            l.tab == self.tab,
            l.feedback == self.record.feedback,
            l.staleness == (if include_staleness {
                Some(staleness_spec(self.record))
            } else {
                None
            }),
            l.age_class == match age_windows {
                Some(w) => Some(classify_spec(w, age_spec(self.record, self.taken_at))),
                None => None,
            },
    {
        ExecutionFeedbackDebugLine {
            tab: self.tab,
            feedback: self.record.feedback,
            staleness: if include_staleness {
                Some(self.staleness_tag())
            } else {
                None
            },
            age_class: match age_windows {
                Some(w) => Some(self.age_class(w)),
                None => None,
            },
        }
    }
}

pub open spec fn debug_line_text(l: ExecutionFeedbackDebugLine) -> Seq<char> {
    "tab="@ + decimal_text(l.tab.0 as nat) + " long_tasks="@ + bool_text(l.feedback.has_long_tasks)
        + " workers="@ + decimal_text(l.feedback.worker_count as nat) + " wasm="@ + bool_text(
        l.feedback.wasm_active,
    ) + " js_blocking_render="@ + bool_text(l.feedback.js_blocking_render) + match l.staleness {
        Some(t) => " staleness="@ + staleness_text(t),
        None => Seq::empty(),
    } + match l.age_class {
        Some(c) => " age_class="@ + age_class_text(c),
        None => Seq::empty(),
    }
}

impl ExecutionFeedbackDebugLine {
    /// The line as text.
    pub fn to_string(&self) -> (s: String)
        ensures
            s@ == debug_line_text(*self),
    {
        let mut s = String::new();
        s.append("tab=");
        append_decimal(&mut s, self.tab.0);
        s.append(" long_tasks=");
        append_bool(&mut s, self.feedback.has_long_tasks);
        s.append(" workers=");
        append_decimal(&mut s, self.feedback.worker_count as u64);
        s.append(" wasm=");
        append_bool(&mut s, self.feedback.wasm_active);
        s.append(" js_blocking_render=");
        append_bool(&mut s, self.feedback.js_blocking_render);
        match self.staleness {
            Some(t) => {
                s.append(" staleness=");
                append_staleness(&mut s, t);
            },
            None => {},
        }
        match self.age_class {
            Some(c) => {
                s.append(" age_class=");
                append_age_class(&mut s, c);
            },
            None => {},
        }
        assert(s@ =~= debug_line_text(*self));
        s
    }
}

/// Number of records that satisfy `p`.
pub open spec fn count_where(s: Seq<FeedbackRecord>, p: spec_fn(FeedbackRecord) -> bool) -> nat
    decreases s.len(),
{
    if s.len() == 0 {
        0
    } else {
        count_where(s.drop_last(), p) + if p(s.last()) {
            1nat
        } else {
            0nat
        }
    }
}

/// Sum of the ages of the records at `now`.
pub open spec fn total_age(s: Seq<FeedbackRecord>, now: u64) -> nat
    decreases s.len(),
{
    if s.len() == 0 {
        0
    } else {
        (total_age(s.drop_last(), now) + age_spec(s.last(), now)) as nat
    }
}

/// Largest age of the records at `now`, zero for none.
pub open spec fn max_age(s: Seq<FeedbackRecord>, now: u64) -> u64
    decreases s.len(),
{
    if s.len() == 0 {
        0
    } else {
        let m = max_age(s.drop_last(), now);
        let a = age_spec(s.last(), now);
        if a > m {
            a
        } else {
            m
        }
    }
}

proof fn lemma_count_where_bounded(s: Seq<FeedbackRecord>, p: spec_fn(FeedbackRecord) -> bool)
    ensures
        count_where(s, p) <= s.len(),
    decreases s.len(),
{
    if s.len() > 0 {
        lemma_count_where_bounded(s.drop_last(), p);
    }
}

/// Counts for one criterion; criteria with the same truth on every record count alike.
proof fn lemma_count_where_ext(
    s: Seq<FeedbackRecord>,
    p: spec_fn(FeedbackRecord) -> bool,
    q: spec_fn(FeedbackRecord) -> bool,
)
    requires
        forall|r: FeedbackRecord| #[trigger] p(r) == q(r),
    ensures
        count_where(s, p) == count_where(s, q),
    decreases s.len(),
{
    if s.len() > 0 {
        lemma_count_where_ext(s.drop_last(), p, q);
    }
}

/// What a record is counted by.
#[derive(Clone, Copy)]
enum Criterion {
    Staleness(FeedbackStalenessTag),
    LongTasks,
    WasmActive,
    JsBlockingRender,
    AgeClass(FeedbackAgingWindows, FeedbackAgeClass),
}

spec fn criterion_holds(c: Criterion, r: FeedbackRecord, now: u64) -> bool {
    match c {
        Criterion::Staleness(t) => staleness_spec(r) == t,
        Criterion::LongTasks => r.feedback.has_long_tasks,
        Criterion::WasmActive => r.feedback.wasm_active,
        Criterion::JsBlockingRender => r.feedback.js_blocking_render,
        Criterion::AgeClass(w, class) => classify_spec(w, age_spec(r, now)) == class,
    }
}

fn holds(c: Criterion, r: &FeedbackRecord, now: u64) -> (b: bool)
    ensures
        b == criterion_holds(c, *r, now),
{
    match c {
        Criterion::Staleness(t) => r.staleness_tag() == t,
        Criterion::LongTasks => r.feedback.has_long_tasks,
        Criterion::WasmActive => r.feedback.wasm_active,
        Criterion::JsBlockingRender => r.feedback.js_blocking_render,
        Criterion::AgeClass(w, class) => w.classify(age_of(r, now)) == class,
    }
}

/// Counts of sampled tabs by age class.
#[derive(Debug, Clone, Copy, PartialEq, Eq, Structural)]
pub struct FeedbackAgeDistribution {
    pub recent: usize,
    pub aging: usize,
    pub expired: usize,
}

impl Default for FeedbackAgeDistribution {
    fn default() -> (d: FeedbackAgeDistribution)
        ensures
            d.recent == 0 && d.aging == 0 && d.expired == 0,
    {
        FeedbackAgeDistribution { recent: 0, aging: 0, expired: 0 }
    }
}

/// Counts of sampled tabs by staleness tag.
#[derive(Debug, Clone, Copy, PartialEq, Eq, Structural)]
pub struct StalenessCounts {
    pub fresh: usize,
    pub stale: usize,
    pub unknown: usize,
}

/// Read-only view of all stored feedback records, taken at `taken_at`.
pub struct ExecutionFeedbackAggregate {
    pub records: Vec<FeedbackRecord>,
    pub taken_at: u64,
}

/// Aggregate figures of stored feedback, ready to be printed.
#[derive(Debug, Clone, Copy, PartialEq, Eq, Structural)]
pub struct ExecutionFeedbackAggregateReport {
    pub sampled_tabs: usize,
    pub long_tasks: usize,
    pub wasm_active: usize,
    pub js_blocking_render: usize,
    /// Present when staleness was asked for.
    pub staleness: Option<StalenessCounts>,
    pub ages: FeedbackAgeDistribution,
    /// Largest age in milliseconds; `None` when nothing was sampled.
    pub max_age_ms: Option<u64>,
    /// Mean age in whole milliseconds; `None` when nothing was sampled.
    pub avg_age_ms: Option<u64>,
}

pub open spec fn long_tasks_spec(r: FeedbackRecord) -> bool {
    r.feedback.has_long_tasks
}

pub open spec fn wasm_active_spec(r: FeedbackRecord) -> bool {
    r.feedback.wasm_active
}

pub open spec fn js_blocking_spec(r: FeedbackRecord) -> bool {
    r.feedback.js_blocking_render
}

impl ExecutionFeedbackAggregate {
    fn count(&self, c: Criterion) -> (n: usize)
        ensures
            n == count_where(self.records@, |r: FeedbackRecord| criterion_holds(c, r, self.taken_at)),
    {
        let ghost p = |r: FeedbackRecord| criterion_holds(c, r, self.taken_at);
        let mut n: usize = 0;
        let mut i: usize = 0;
        while i < self.records.len()
            invariant
                i <= self.records@.len(),
                n == count_where(self.records@.subrange(0, i as int), p),
                p == (|r: FeedbackRecord| criterion_holds(c, r, self.taken_at)),
            decreases self.records@.len() - i,
        {
            proof {
                let s = self.records@.subrange(0, i + 1);
                assert(s.drop_last() =~= self.records@.subrange(0, i as int));
                lemma_count_where_bounded(self.records@.subrange(0, i as int), p);
            }
            if holds(c, &self.records[i], self.taken_at) {
                n = n + 1;
            }
            i = i + 1;
        }
        assert(self.records@.subrange(0, i as int) =~= self.records@);
        n
    }

    /// Number of tabs with sampled feedback.
    pub fn sampled_tab_count(&self) -> (n: usize)
        ensures
            n == self.records@.len(),
    {
        self.records.len()
    }

    /// Number of tabs whose feedback has staleness `tag`.
    pub fn count_by_staleness(&self, tag: FeedbackStalenessTag) -> (n: usize)
        ensures
            n == count_where(self.records@, |r: FeedbackRecord| staleness_spec(r) == tag),
    {
        let n = self.count(Criterion::Staleness(tag));
        proof {
            lemma_count_where_ext(
                self.records@,
                |r: FeedbackRecord| criterion_holds(Criterion::Staleness(tag), r, self.taken_at),
                |r: FeedbackRecord| staleness_spec(r) == tag,
            );
        }
        n
    }

    /// Number of tabs reporting recent long-running tasks.
    pub fn count_long_tasks(&self) -> (n: usize)
        ensures
            n == count_where(self.records@, |r: FeedbackRecord| long_tasks_spec(r)),
    {
        let n = self.count(Criterion::LongTasks);
        proof {
            lemma_count_where_ext(
                self.records@,
                |r: FeedbackRecord| criterion_holds(Criterion::LongTasks, r, self.taken_at),
                |r: FeedbackRecord| long_tasks_spec(r),
            );
        }
        n
    }

    /// Number of tabs where WebAssembly appears active.
    pub fn count_wasm_active(&self) -> (n: usize)
        ensures
            n == count_where(self.records@, |r: FeedbackRecord| wasm_active_spec(r)),
    {
        let n = self.count(Criterion::WasmActive);
        proof {
            lemma_count_where_ext(
                self.records@,
                |r: FeedbackRecord| criterion_holds(Criterion::WasmActive, r, self.taken_at),
                |r: FeedbackRecord| wasm_active_spec(r),
            );
        }
        n
    }

    /// Number of tabs where script appears to block rendering.
    pub fn count_js_blocking_render(&self) -> (n: usize)
        ensures
            n == count_where(self.records@, |r: FeedbackRecord| js_blocking_spec(r)),
    {
        let n = self.count(Criterion::JsBlockingRender);
        proof {
            lemma_count_where_ext(
                self.records@,
                |r: FeedbackRecord| criterion_holds(Criterion::JsBlockingRender, r, self.taken_at),
                |r: FeedbackRecord| js_blocking_spec(r),
            );
        }
        n
    }

    /// Number of tabs whose feedback age falls in `class` under `windows`.
    pub fn count_by_age_class(&self, windows: FeedbackAgingWindows, class: FeedbackAgeClass) -> (n:
        usize)
        ensures
            n == count_where(
                self.records@,
                |r: FeedbackRecord| classify_spec(windows, age_spec(r, self.taken_at)) == class,
            ),
    {
        let n = self.count(Criterion::AgeClass(windows, class));
        proof {
            lemma_count_where_ext(
                self.records@,
                |r: FeedbackRecord|
                    criterion_holds(Criterion::AgeClass(windows, class), r, self.taken_at),
                |r: FeedbackRecord| classify_spec(windows, age_spec(r, self.taken_at)) == class,
            );
        }
        n
    }

    /// Counts of tabs in each age class under `windows`.
    pub fn age_distribution(&self, windows: FeedbackAgingWindows) -> (d: FeedbackAgeDistribution)
        ensures
            d.recent == count_where(
                self.records@,
                |r: FeedbackRecord|
                    classify_spec(windows, age_spec(r, self.taken_at)) == FeedbackAgeClass::Recent,
            ),
            d.aging == count_where(
                self.records@,
                |r: FeedbackRecord|
                    classify_spec(windows, age_spec(r, self.taken_at)) == FeedbackAgeClass::Aging,
            ),
            d.expired == count_where(
                self.records@,
                |r: FeedbackRecord|
                    classify_spec(windows, age_spec(r, self.taken_at)) == FeedbackAgeClass::Expired,
            ),
    {
        FeedbackAgeDistribution {
            recent: self.count_by_age_class(windows, FeedbackAgeClass::Recent),
            aging: self.count_by_age_class(windows, FeedbackAgeClass::Aging),
            expired: self.count_by_age_class(windows, FeedbackAgeClass::Expired),
        }
    }

    /// Largest feedback age; `None` when nothing was sampled.
    pub fn max_feedback_age(&self) -> (m: Option<u64>)
        ensures
            m == (if self.records@.len() == 0 {
                None
            } else {
                Some(max_age(self.records@, self.taken_at))
            }),
    {
        if self.records.len() == 0 {
            return None;
        }
        let mut m: u64 = 0;
        let mut i: usize = 0;
        while i < self.records.len()
            invariant
                i <= self.records@.len(),
                m == max_age(self.records@.subrange(0, i as int), self.taken_at),
            decreases self.records@.len() - i,
        {
            proof {
                let s = self.records@.subrange(0, i + 1);
                assert(s.drop_last() =~= self.records@.subrange(0, i as int));
            }
            let a = age_of(&self.records[i], self.taken_at);
            if a > m {
                m = a;
            }
            i = i + 1;
        }
        assert(self.records@.subrange(0, i as int) =~= self.records@);
        Some(m)
    }

    /// Mean feedback age in whole milliseconds; `None` when nothing was sampled.
    pub fn average_feedback_age(&self) -> (a: Option<u64>)
        ensures
            a == (if self.records@.len() == 0 {
                None
            } else {
                Some((total_age(self.records@, self.taken_at) / self.records@.len()) as u64)
            }),
    {
        let n = self.records.len();
        if n == 0 {
            return None;
        }
        let mut total: u128 = 0;
        let mut i: usize = 0;
        while i < n
            invariant
                n == self.records@.len(),
                i <= n,
                total == total_age(self.records@.subrange(0, i as int), self.taken_at),
                total <= i * 0xFFFF_FFFF_FFFF_FFFFu128,
            decreases n - i,
        {
            proof {
                let s = self.records@.subrange(0, i + 1);
                assert(s.drop_last() =~= self.records@.subrange(0, i as int));
                assert((i + 1) * 0xFFFF_FFFF_FFFF_FFFFu128 == i * 0xFFFF_FFFF_FFFF_FFFFu128
                    + 0xFFFF_FFFF_FFFF_FFFFu128) by (nonlinear_arith);
                assert(i * 0xFFFF_FFFF_FFFF_FFFFu128 <= 0xFFFF_FFFF_FFFF_FFFFu128
                    * 0xFFFF_FFFF_FFFF_FFFFu128) by (nonlinear_arith)
                    requires
                        i <= 0xFFFF_FFFF_FFFF_FFFFu128,
                ;
            }
            total = total + age_of(&self.records[i], self.taken_at) as u128;
            i = i + 1;
        }
        assert(self.records@.subrange(0, i as int) =~= self.records@);
        let avg = total / (n as u128);
        assert(avg <= 0xFFFF_FFFF_FFFF_FFFFu128) by (nonlinear_arith)
            requires
                avg == total / (n as u128),
                total <= n * 0xFFFF_FFFF_FFFF_FFFFu128,
                n >= 1,
        ;
        Some(avg as u64)
    }

    /// A report of the aggregate under `age_windows`, with staleness counts if asked for.
    pub fn debug_report(&self, age_windows: FeedbackAgingWindows, include_staleness: bool) -> (r:
        ExecutionFeedbackAggregateReport)
        ensures
            r.sampled_tabs == self.records@.len(),
            r.long_tasks == count_where(self.records@, |x: FeedbackRecord| long_tasks_spec(x)),
            r.wasm_active == count_where(self.records@, |x: FeedbackRecord| wasm_active_spec(x)),
            r.js_blocking_render == count_where(
                self.records@,
                |x: FeedbackRecord| js_blocking_spec(x),
            ),
            r.staleness == (if include_staleness {
                Some(
                    StalenessCounts {
                        fresh: count_where(
                            self.records@,
                            |x: FeedbackRecord| staleness_spec(x) == FeedbackStalenessTag::Fresh,
                        ) as usize,
                        stale: count_where(
                            self.records@,
                            |x: FeedbackRecord| staleness_spec(x) == FeedbackStalenessTag::Stale,
                        ) as usize,
                        unknown: count_where(
                            self.records@,
                            |x: FeedbackRecord| staleness_spec(x) == FeedbackStalenessTag::Unknown,
                        ) as usize,
                    },
                )
            } else {
                None
            }),
            r.ages.recent == count_where(
                self.records@,
                |x: FeedbackRecord|
                    classify_spec(age_windows, age_spec(x, self.taken_at)) == FeedbackAgeClass::Recent,
            ),
            r.ages.aging == count_where(
                self.records@,
                |x: FeedbackRecord|
                    classify_spec(age_windows, age_spec(x, self.taken_at)) == FeedbackAgeClass::Aging,
            ),
            r.ages.expired == count_where(
                self.records@,
                |x: FeedbackRecord|
                    classify_spec(age_windows, age_spec(x, self.taken_at))
                        == FeedbackAgeClass::Expired,
            ),
            r.max_age_ms == (if self.records@.len() == 0 {
                None
            } else {
                Some(max_age(self.records@, self.taken_at))
            }),
            r.avg_age_ms == (if self.records@.len() == 0 {
                None
            } else {
                Some((total_age(self.records@, self.taken_at) / self.records@.len()) as u64)
            }),
    {
        let staleness = if include_staleness {
            Some(
                StalenessCounts {
                    fresh: self.count_by_staleness(FeedbackStalenessTag::Fresh),
                    stale: self.count_by_staleness(FeedbackStalenessTag::Stale),
                    unknown: self.count_by_staleness(FeedbackStalenessTag::Unknown),
                },
            )
        } else {
            None
        };
        ExecutionFeedbackAggregateReport {
            sampled_tabs: self.sampled_tab_count(),
            long_tasks: self.count_long_tasks(),
            wasm_active: self.count_wasm_active(),
            js_blocking_render: self.count_js_blocking_render(),
            staleness,
            ages: self.age_distribution(age_windows),
            max_age_ms: self.max_feedback_age(),
            avg_age_ms: self.average_feedback_age(),
        }
    }
}

pub open spec fn usize_text(n: usize) -> Seq<char> {
    decimal_text(n as nat)
}

pub open spec fn report_text(r: ExecutionFeedbackAggregateReport) -> Seq<char> {
    "sampled_tabs="@ + usize_text(r.sampled_tabs) + " long_tasks="@ + usize_text(r.long_tasks)
        + " wasm_active="@ + usize_text(r.wasm_active) + " js_blocking_render="@ + usize_text(
        r.js_blocking_render,
    ) + " "@ + match r.staleness {
        Some(c) => "staleness{fresh="@ + usize_text(c.fresh) + " stale="@ + usize_text(c.stale)
            + " unknown="@ + usize_text(c.unknown) + "} "@,
        None => Seq::empty(),
    } + "age{recent="@ + usize_text(r.ages.recent) + " aging="@ + usize_text(r.ages.aging)
        + " expired="@ + usize_text(r.ages.expired) + "} "@ + match (r.max_age_ms, r.avg_age_ms) {
        (Some(m), Some(a)) => "max_age_ms="@ + decimal_text(m as nat) + " avg_age_ms="@
            + decimal_text(a as nat),
        _ => "max_age_ms=NA avg_age_ms=NA"@,
    }
}

impl ExecutionFeedbackAggregateReport {
    /// The report as text.
    pub fn to_string(&self) -> (s: String)
        ensures
            s@ == report_text(*self),
    {
        let mut s = String::new();
        s.append("sampled_tabs=");
        append_decimal(&mut s, self.sampled_tabs as u64);
        s.append(" long_tasks=");
        append_decimal(&mut s, self.long_tasks as u64);
        s.append(" wasm_active=");
        append_decimal(&mut s, self.wasm_active as u64);
        s.append(" js_blocking_render=");
        append_decimal(&mut s, self.js_blocking_render as u64);
        s.append(" ");
        match self.staleness {
            Some(c) => {
                s.append("staleness{fresh=");
                append_decimal(&mut s, c.fresh as u64);
                s.append(" stale=");
                append_decimal(&mut s, c.stale as u64);
                s.append(" unknown=");
                append_decimal(&mut s, c.unknown as u64);
                s.append("} ");
            },
            None => {},
        }
        s.append("age{recent=");
        append_decimal(&mut s, self.ages.recent as u64);
        s.append(" aging=");
        append_decimal(&mut s, self.ages.aging as u64);
        s.append(" expired=");
        append_decimal(&mut s, self.ages.expired as u64);
        s.append("} ");
        match (self.max_age_ms, self.avg_age_ms) {
            (Some(m), Some(a)) => {
                s.append("max_age_ms=");
                append_decimal(&mut s, m);
                s.append(" avg_age_ms=");
                append_decimal(&mut s, a);
            },
            _ => {
                s.append("max_age_ms=NA avg_age_ms=NA");
            },
        }
        assert(s@ =~= report_text(*self));
        s
    }
}

} // verus!
