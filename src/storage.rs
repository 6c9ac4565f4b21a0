//! Session snapshots and their store.

use vstd::prelude::*;
use crate::tabs::{TabId, TabState};

verus! {

/// One tab of a session.
#[derive(Debug, Clone)]
pub struct TabSnapshot {
    pub id: TabId,
    pub uri: String,
    pub state: TabState,
}

/// A browsing session.
#[derive(Debug, Clone)]
pub struct SessionSnapshot {
    pub tabs: Vec<TabSnapshot>,
    pub active: Option<TabId>,
}

impl Default for SessionSnapshot {
    fn default() -> (s: SessionSnapshot)
        ensures
            s.tabs@.len() == 0,
            s.active is None,
    {
        SessionSnapshot { tabs: Vec::new(), active: None }
    }
}

/// Session persistence.
pub trait SessionStore {
    /// Loads the latest stored session, if any.
    fn load(&self) -> Option<SessionSnapshot>;

    /// Persists a session.
    fn save(&self, session: &SessionSnapshot);
}

/// Store that keeps nothing.
#[derive(Debug, Default)]
pub struct NoopSessionStore;

impl SessionStore for NoopSessionStore {
    fn load(&self) -> Option<SessionSnapshot> {
        None
    }

    fn save(&self, session: &SessionSnapshot) {
    }
}

} // verus!
