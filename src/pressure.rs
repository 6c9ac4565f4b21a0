//! Memory pressure: headroom figures, their mapping to pressure levels, and
//! the hysteresis that keeps the level from flapping.
//!
//! The figures come from kernel text files that the caller reads; the
//! parsing of those files is in `procfs`.

use vstd::prelude::*;
use crate::policy::{pressure_level, MemoryPressure};

verus! {

/// Pressure thresholds as headroom per mille (0 to 1000). Lower headroom
/// means higher pressure.
///
/// Moderate starts at 20% headroom, where the kernel commonly begins to
/// reclaim memory; severe at 10%, a conservative guard against exhaustion.
#[derive(Debug, Clone, Copy, PartialEq, Eq, Structural)]
pub struct MemoryPressureThresholds {
    pub moderate_headroom_per_mille: u16,
    pub severe_headroom_per_mille: u16,
}

impl Default for MemoryPressureThresholds {
    fn default() -> (t: MemoryPressureThresholds)
        ensures
            t.moderate_headroom_per_mille == 200,
            t.severe_headroom_per_mille == 100,
    {
        MemoryPressureThresholds { moderate_headroom_per_mille: 200, severe_headroom_per_mille: 100 }
    }
}

/// Sampling and smoothing configuration of the pressure monitor, in milliseconds.
#[derive(Debug, Clone, Copy, PartialEq, Eq, Structural)]
pub struct MemoryPressureMonitorConfig {
    /// Time between two samples.
    pub sample_interval: u64,
    /// Minimum time a level holds before it may be lowered.
    pub monotonic_window: u64,
}

impl Default for MemoryPressureMonitorConfig {
    fn default() -> (c: MemoryPressureMonitorConfig)
        ensures
            c.sample_interval == 1000,
            c.monotonic_window == 3000,
    {
        MemoryPressureMonitorConfig { sample_interval: 1000, monotonic_window: 3000 }
    }
}

/// Where a reading came from.
#[derive(Debug, Clone, Copy, PartialEq, Eq, Structural)]
pub enum MemoryPressureSourceKind {
    CgroupV2,
    SystemMemInfo,
    ProcessRss,
}

/// One sample of one source.
#[derive(Debug, Clone, Copy, PartialEq, Eq, Structural)]
pub struct MemoryPressureReading {
    pub pressure: MemoryPressure,
    /// Headroom per mille, at most 1000.
    pub headroom_per_mille: u16,
    pub source: MemoryPressureSourceKind,
}

/// A source of pressure readings. `None` means the source is unavailable.
pub trait MemoryPressureSource {
    /// Samples current memory pressure.
    fn sample(&mut self, thresholds: &MemoryPressureThresholds) -> Option<MemoryPressureReading>;
}

/// Rank of a pressure level: Low 0, Moderate 1, Severe 2.
pub fn pressure_rank(pressure: MemoryPressure) -> (r: u8)
    ensures
        r == pressure_level(pressure),
{
    match pressure {
        MemoryPressure::Low => 0,
        MemoryPressure::Moderate => 1,
        MemoryPressure::Severe => 2,
    }
}

pub open spec fn pressure_for_headroom(
    headroom_per_mille: u16,
    thresholds: MemoryPressureThresholds,
) -> MemoryPressure {
    if headroom_per_mille <= thresholds.severe_headroom_per_mille {
        MemoryPressure::Severe
    } else if headroom_per_mille <= thresholds.moderate_headroom_per_mille {
        MemoryPressure::Moderate
    } else {
        MemoryPressure::Low
    }
}

/// Pressure level of a headroom figure.
pub fn map_headroom_per_mille(headroom_per_mille: u16, thresholds: &MemoryPressureThresholds) -> (p:
    MemoryPressure)
    ensures
        p == pressure_for_headroom(headroom_per_mille, *thresholds),
{
    if headroom_per_mille <= thresholds.severe_headroom_per_mille {
        MemoryPressure::Severe
    } else if headroom_per_mille <= thresholds.moderate_headroom_per_mille {
        MemoryPressure::Moderate
    } else {
        MemoryPressure::Low
    }
}

/// `min(available * 1000 / total, 1000)`, with the product saturating;
/// `None` when `total` is zero.
pub open spec fn headroom_spec(available: u64, total: u64) -> Option<u16> {
    if total == 0 {
        None
    } else {
        let product = if available * 1000 > u64::MAX {
            u64::MAX as int
        } else {
            available * 1000
        };
        let ratio = product / (total as int);
        Some(
            if ratio > 1000 {
                1000u16
            } else {
                ratio as u16
            },
        )
    }
}

/// Headroom per mille of `available` out of `total`.
pub fn headroom_per_mille(available: u64, total: u64) -> (h: Option<u16>)
    ensures
        h == headroom_spec(available, total),
{
    if total == 0 {
        return None;
    }
    let product: u64 = if available > u64::MAX / 1000 {
        assert(available * 1000 > u64::MAX) by (nonlinear_arith)
            requires
                available > u64::MAX / 1000,
        ;
        u64::MAX
    } else {
        assert(available * 1000 <= u64::MAX) by (nonlinear_arith)
            requires
                available <= u64::MAX / 1000,
        ;
        available * 1000
    };
    let ratio = product / total;
    if ratio > 1000 {
        Some(1000)
    } else {
        Some(ratio as u16)
    }
}

/// A reading for `available` bytes of headroom out of `total` bytes.
pub open spec fn reading_spec(
    available: u64,
    total: u64,
    thresholds: MemoryPressureThresholds,
    source: MemoryPressureSourceKind,
) -> Option<MemoryPressureReading> {
    match headroom_spec(available, total) {
        Some(h) => Some(
            MemoryPressureReading {
                pressure: pressure_for_headroom(h, thresholds),
                headroom_per_mille: h,
                source,
            },
        ),
        None => None,
    }
}

/// Builds the reading for `available` bytes of headroom out of `total`.
pub fn reading_for(
    available: u64,
    total: u64,
    thresholds: &MemoryPressureThresholds,
    source: MemoryPressureSourceKind,
) -> (r: Option<MemoryPressureReading>)
    ensures
        r == reading_spec(available, total, *thresholds, source),
{
    match headroom_per_mille(available, total) {
        Some(h) => Some(
            MemoryPressureReading {
                pressure: map_headroom_per_mille(h, thresholds),
                headroom_per_mille: h,
                source,
            },
        ),
        None => None,
    }
}

/// Hysteresis on pressure levels: rises are accepted at once, falls only
/// once the current level has held for the monotonic window.
#[derive(Debug, Clone, Copy, PartialEq, Eq, Structural)]
pub struct PressureSmoother {
    /// The level last reported.
    pub last: MemoryPressure,
    /// When that level was accepted, in milliseconds.
    pub last_change: u64,
    /// Minimum time a level holds before it may be lowered, in milliseconds.
    pub monotonic_window: u64,
}

pub open spec fn since_spec(now: u64, then: u64) -> int {
    if now >= then {
        now - then
    } else {
        0
    }
}

/// The smoother and the level it reports after a sample `next` at `now`.
pub open spec fn filter_spec(s: PressureSmoother, next: MemoryPressure, now: u64) -> (
    PressureSmoother,
    MemoryPressure,
) {
    if pressure_level(next) < pressure_level(s.last) && since_spec(now, s.last_change)
        < s.monotonic_window {
        (s, s.last)
    } else {
        (PressureSmoother { last: next, last_change: now, ..s }, next)
    }
}

impl PressureSmoother {
    /// A smoother at Low, whose level was accepted at time zero.
    pub fn new(monotonic_window: u64) -> (s: PressureSmoother)
        ensures
            s.last == MemoryPressure::Low,
            s.last_change == 0,
            s.monotonic_window == monotonic_window,
    {
        PressureSmoother { last: MemoryPressure::Low, last_change: 0, monotonic_window }
    }

    /// Smooths a sample `next` taken at `now` and returns the level to report.
    pub fn filter(&mut self, next: MemoryPressure, now: u64) -> (p: MemoryPressure)
        ensures
            (*final(self), p) == filter_spec(*old(self), next, now),
    {
        if pressure_rank(next) > pressure_rank(self.last) {
            self.last = next;
            self.last_change = now;
            return next;
        }
        let since = if now >= self.last_change {
            now - self.last_change
        } else {
            0
        };
        if pressure_rank(next) < pressure_rank(self.last) && since < self.monotonic_window {
            return self.last;
        }
        self.last = next;
        self.last_change = now;
        next
    }
}

/// One monitor cycle: a sample, if the sources gave one, is smoothed and
/// its level is to be published; without a sample nothing is published.
pub fn monitor_step(
    smoother: &mut PressureSmoother,
    reading: Option<MemoryPressureReading>,
    now: u64,
) -> (published: Option<MemoryPressure>)
    ensures
        match reading {
            Some(r) => (*final(smoother), published->0) == filter_spec(*old(smoother), r.pressure, now)
                && published is Some,
            None => *final(smoother) == *old(smoother) && published is None,
        },
{
    match reading {
        Some(r) => Some(smoother.filter(r.pressure, now)),
        None => None,
    }
}

/// Single-slot mailbox from the sampling worker to the consumer: a newer
/// level overwrites one that was not taken yet, so the consumer only ever
/// sees the freshest level and the slot never grows.
#[derive(Debug)]
pub struct PressureMailbox {
    latest: Option<MemoryPressure>,
}

impl PressureMailbox {
    /// The level waiting to be taken.
    pub closed spec fn pending(&self) -> Option<MemoryPressure> {
        self.latest
    }

    /// An empty mailbox.
    pub fn new() -> (m: PressureMailbox)
        ensures
            m.pending() is None,
    {
        PressureMailbox { latest: None }
    }

    /// Publishes `level`, replacing any level not taken yet.
    pub fn publish(&mut self, level: MemoryPressure)
        ensures
            final(self).pending() == Some(level),
    {
        self.latest = Some(level);
    }

    /// Takes the newest published level, if one arrived since the last call.
    pub fn drain_latest(&mut self) -> (level: Option<MemoryPressure>)
        ensures
            level == old(self).pending(),
            final(self).pending() is None,
    {
        let level = self.latest;
        self.latest = None;
        level
    }
}

/// Hysteresis: a rise in pressure is reported at once; a fall is held back,
/// with the smoother unchanged, while the current level is younger than the
/// window; once the window has passed, the lower level is reported.
pub proof fn lemma_hysteresis(s: PressureSmoother, next: MemoryPressure, now: u64)
    ensures
        pressure_level(next) > pressure_level(s.last) ==> filter_spec(s, next, now).1 == next,
        pressure_level(next) < pressure_level(s.last) && since_spec(now, s.last_change)
            < s.monotonic_window ==> filter_spec(s, next, now) == (s, s.last),
        since_spec(now, s.last_change) >= s.monotonic_window ==> filter_spec(s, next, now).1
            == next,
        pressure_level(filter_spec(s, next, now).1) >= pressure_level(next),
{
}

} // verus!
