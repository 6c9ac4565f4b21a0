//! Per-tab memory snapshots.

use vstd::prelude::*;
use crate::tabs::TabId;

verus! {

/// Memory usage of a tab process.
#[derive(Debug, Clone, Copy, PartialEq, Eq, Structural)]
pub struct MemorySnapshot {
    pub resident_bytes: u64,
}

impl Default for MemorySnapshot {
    fn default() -> (s: MemorySnapshot)
        ensures
            s.resident_bytes == 0,
    {
        MemorySnapshot { resident_bytes: 0 }
    }
}

/// Captures and stores memory usage data.
pub trait MemoryTracker {
    /// Records a snapshot for the given tab.
    fn record_snapshot(&mut self, tab: TabId, snapshot: MemorySnapshot);

    /// Returns the latest snapshot for the given tab.
    fn latest_snapshot(&self, tab: TabId) -> Option<MemorySnapshot>;
}

/// Tracker that keeps nothing.
#[derive(Debug, Default)]
pub struct NoopMemoryTracker;

impl MemoryTracker for NoopMemoryTracker {
    fn record_snapshot(&mut self, tab: TabId, snapshot: MemorySnapshot) {
    }

    fn latest_snapshot(&self, tab: TabId) -> Option<MemorySnapshot> {
        None
    }
}

} // verus!
