//! Tab identities and lifecycle states.

use vstd::prelude::*;
use crate::util::IdGenerator;

verus! {

/// Stable identifier for a browser tab.
#[derive(Debug, Clone, Copy, PartialEq, Eq, Structural, Hash, PartialOrd, Ord)]
pub struct TabId(pub u64);

impl TabId {
    /// Creates a new `TabId` from a raw numeric value.
    pub fn new(raw: u64) -> (id: TabId)
        ensures
            id.0 == raw,
    {
        TabId(raw)
    }

    /// Returns the raw numeric value.
    pub fn get(self) -> (raw: u64)
        ensures
            raw == self.0,
    {
        self.0
    }
}

/// High-level lifecycle state for a tab.
#[derive(Debug, Clone, Copy, PartialEq, Eq, Structural)]
pub enum TabState {
    Active,
    Background,
    Suspended,
}

/// Lightweight tab record owned by the tab manager.
#[derive(Debug, Clone, Copy, PartialEq, Eq, Structural)]
pub struct TabEntry {
    pub id: TabId,
    pub state: TabState,
}

/// Interface for tab lifecycle and state management.
pub trait TabManager {
    /// The manager's bookkeeping is consistent.
    spec fn ready(&self) -> bool;

    /// The manager can hand out another tab identifier.
    spec fn can_create(&self) -> bool;

    /// Creates a new tab and returns its record.
    fn create_tab(&mut self) -> (e: TabEntry)
        requires
            old(self).ready(),
            old(self).can_create(),
        ensures
            final(self).ready(),
    ;

    /// Marks the specified tab as active.
    fn set_active(&mut self, id: TabId) -> (found: bool)
        requires
            old(self).ready(),
        ensures
            final(self).ready(),
    ;

    /// Updates the state for a tab.
    fn set_state(&mut self, id: TabId, state: TabState) -> (found: bool)
        requires
            old(self).ready(),
        ensures
            final(self).ready(),
    ;

    /// The active tab, as a model.
    spec fn active_model(&self) -> Option<TabId>;

    /// The tabs in order, as a model.
    spec fn tabs_model(&self) -> Seq<TabEntry>;

    /// Returns the currently active tab, if any.
    fn active_tab(&self) -> (a: Option<TabId>)
        ensures
            a == self.active_model(),
    ;

    /// Returns the ordered list of tabs.
    fn tabs(&self) -> (t: &[TabEntry])
        ensures
            t@ == self.tabs_model(),
    ;
}

/// Ids are unique and all below `next`.
pub open spec fn entries_wf(entries: Seq<TabEntry>, next: u64) -> bool {
    &&& forall|i: int, j: int|
        0 <= i < entries.len() && 0 <= j < entries.len() && i != j ==> entries[i].id != entries[j].id
    &&& forall|i: int| 0 <= i < entries.len() ==> entries[i].id.0 < next
}

pub open spec fn contains_id(entries: Seq<TabEntry>, id: TabId) -> bool {
    exists|i: int| 0 <= i < entries.len() && entries[i].id == id
}

/// The tab after `a` in `entries`, wrapping around; `None` if `a` is not listed.
pub open spec fn tab_after(entries: Seq<TabEntry>, a: TabId) -> Option<TabId> {
    if contains_id(entries, a) {
        let i = choose|i: int| 0 <= i < entries.len() && entries[i].id == a;
        Some(entries[(i + 1) % (entries.len() as int)].id)
    } else {
        None
    }
}

/// Entries after a new tab is created: the active tab goes to the background.
pub open spec fn demote_active(e: TabEntry) -> TabEntry {
    if e.state == TabState::Active {
        TabEntry { state: TabState::Background, ..e }
    } else {
        e
    }
}

/// Entries after `id` is activated: it becomes active, every other tab that
/// is not suspended goes to the background.
pub open spec fn activate_entry(e: TabEntry, id: TabId) -> TabEntry {
    if e.id == id {
        TabEntry { state: TabState::Active, ..e }
    } else if e.state != TabState::Suspended {
        TabEntry { state: TabState::Background, ..e }
    } else {
        e
    }
}

/// In-memory tab manager: tabs in creation order and the active tab.
#[derive(Debug)]
pub struct BasicTabManager {
    tabs: Vec<TabEntry>,
    active: Option<TabId>,
    ids: IdGenerator,
}

impl BasicTabManager {
    /// The tabs, in order.
    pub closed spec fn entries(&self) -> Seq<TabEntry> {
        self.tabs@
    }

    /// The active tab.
    pub closed spec fn active_spec(&self) -> Option<TabId> {
        self.active
    }

    /// The identifier the next created tab gets.
    pub closed spec fn next_id(&self) -> u64 {
        self.ids.peek()
    }

    pub open spec fn wf(&self) -> bool {
        entries_wf(self.entries(), self.next_id())
    }

    /// An empty manager whose first tab gets id 1.
    pub fn new() -> (m: BasicTabManager)
        ensures
            m.wf(),
            m.entries().len() == 0,
            m.active_spec() is None,
            m.next_id() == 1,
    {
        BasicTabManager { tabs: Vec::new(), active: None, ids: IdGenerator::new(1) }
    }

    /// The tab after the active one, wrapping around; `None` without an
    /// active tab or when the active tab is not listed.
    pub fn next_tab(&self) -> (r: Option<TabId>)
        requires
            self.wf(),
        ensures
            r == match self.active_spec() {
                Some(a) => tab_after(self.entries(), a),
                None => None,
            },
    {
        let active = match self.active {
            Some(a) => a,
            None => {
                return None;
            },
        };
        let mut i: usize = 0;
        while i < self.tabs.len()
            invariant
                self.wf(),
                self.active_spec() == Some(active),
                i <= self.tabs@.len(),
                forall|j: int| 0 <= j < i ==> self.tabs@[j].id != active,
            decreases self.tabs@.len() - i,
        {
            if self.tabs[i].id == active {
                assert(self.entries()[i as int].id == active);
                let next_idx = (i + 1) % self.tabs.len();
                proof {
                    let k = choose|k: int| 0 <= k < self.entries().len() && self.entries()[k].id == active;
                    assert(k == i);
                }
                return Some(self.tabs[next_idx].id);
            }
            i = i + 1;
        }
        None
    }

    /// Creates a new active tab; the previously active tab goes to the background.
    pub fn create_tab(&mut self) -> (e: TabEntry)
        requires
            old(self).wf(),
            old(self).next_id() < u64::MAX,
        ensures
            final(self).wf(),
            e == (TabEntry { id: TabId(old(self).next_id()), state: TabState::Active }),
            final(self).entries() == old(self).entries().map_values(|x: TabEntry| demote_active(x)).push(e),
            final(self).active_spec() == Some(e.id),
            final(self).next_id() == old(self).next_id() + 1,
    {
        let ghost before = self.tabs@;
        let mut tabs: Vec<TabEntry> = Vec::new();
        let mut i: usize = 0;
        while i < self.tabs.len()
            invariant
                before == self.tabs@,
                i <= before.len(),
                tabs@ == before.subrange(0, i as int).map_values(|x: TabEntry| demote_active(x)),
            decreases before.len() - i,
        {
            let t = self.tabs[i];
            tabs.push(
                if t.state == TabState::Active {
                    TabEntry { state: TabState::Background, ..t }
                } else {
                    t
                },
            );
            i = i + 1;
            assert(tabs@ =~= before.subrange(0, i as int).map_values(|x: TabEntry| demote_active(x)));
        }
        assert(before.subrange(0, before.len() as int) =~= before);
        let id = TabId::new(self.ids.next());
        let entry = TabEntry { id, state: TabState::Active };
        tabs.push(entry);
        self.tabs = tabs;
        self.active = Some(id);
        entry
    }

    /// Activates `id` if it is listed: it becomes active and every other tab
    /// that is not suspended goes to the background. Returns whether it was listed.
    pub fn set_active(&mut self, id: TabId) -> (found: bool)
        requires
            old(self).wf(),
        ensures
            final(self).wf(),
            found == contains_id(old(self).entries(), id),
            found ==> final(self).entries() == old(self).entries().map_values(|x: TabEntry| activate_entry(x, id))
                && final(self).active_spec() == Some(id),
            !found ==> final(self).entries() == old(self).entries() && final(self).active_spec()
                == old(self).active_spec(),
            final(self).next_id() == old(self).next_id(),
    {
        let ghost before = self.tabs@;
        let mut found = false;
        let mut tabs: Vec<TabEntry> = Vec::new();
        let mut i: usize = 0;
        while i < self.tabs.len()
            invariant
                before == self.tabs@,
                i <= before.len(),
                tabs@ == before.subrange(0, i as int).map_values(|x: TabEntry| activate_entry(x, id)),
                found == exists|j: int| 0 <= j < i && before[j].id == id,
            decreases before.len() - i,
        {
            let t = self.tabs[i];
            if t.id == id {
                found = true;
            }
            tabs.push(
                if t.id == id {
                    TabEntry { state: TabState::Active, ..t }
                } else if t.state != TabState::Suspended {
                    TabEntry { state: TabState::Background, ..t }
                } else {
                    t
                },
            );
            i = i + 1;
            assert(tabs@ =~= before.subrange(0, i as int).map_values(|x: TabEntry| activate_entry(x, id)));
        }
        assert(before.subrange(0, before.len() as int) =~= before);
        if found {
            self.tabs = tabs;
            self.active = Some(id);
        }
        found
    }

    /// Sets the state of `id` if it is listed; activating it makes it the
    /// active tab, and the active tab leaving that state leaves no tab
    /// active. Returns whether it was listed.
    pub fn set_state(&mut self, id: TabId, state: TabState) -> (found: bool)
        requires
            old(self).wf(),
        ensures
            final(self).wf(),
            found == contains_id(old(self).entries(), id),
            found ==> final(self).entries() == old(self).entries().map_values(
                |x: TabEntry|
                    if x.id == id {
                        TabEntry { state, ..x }
                    } else {
                        x
                    },
            ) && final(self).active_spec() == (if state == TabState::Active {
                Some(id)
            } else if old(self).active_spec() == Some(id) {
                None
            } else {
                old(self).active_spec()
            }),
            !found ==> final(self).entries() == old(self).entries() && final(self).active_spec()
                == old(self).active_spec(),
            final(self).next_id() == old(self).next_id(),
    {
        let i = match self.position(id) {
            Some(i) => i,
            None => {
                return false;
            },
        };
        let ghost before = self.tabs@;
        let t = self.tabs[i];
        self.tabs[i] = TabEntry { state, ..t };
        proof {
            assert(self.tabs@ =~= before.map_values(
                |x: TabEntry|
                    if x.id == id {
                        TabEntry { state, ..x }
                    } else {
                        x
                    },
            ));
        }
        if state == TabState::Active {
            self.active = Some(id);
        } else if self.active == Some(id) {
            self.active = None;
        }
        true
    }

    /// Position of `id` among the tabs.
    fn position(&self, id: TabId) -> (r: Option<usize>)
        ensures
            match r {
                Some(i) => i < self.entries().len() && self.entries()[i as int].id == id,
                None => !contains_id(self.entries(), id),
            },
    {
        let mut i: usize = 0;
        while i < self.tabs.len()
            invariant
                i <= self.tabs@.len(),
                forall|j: int| 0 <= j < i ==> self.tabs@[j].id != id,
            decreases self.tabs@.len() - i,
        {
            if self.tabs[i].id == id {
                return Some(i);
            }
            i = i + 1;
        }
        None
    }
}

impl TabManager for BasicTabManager {
    open spec fn ready(&self) -> bool {
        self.wf()
    }

    open spec fn can_create(&self) -> bool {
        self.next_id() < u64::MAX
    }

    open spec fn active_model(&self) -> Option<TabId> {
        self.active_spec()
    }

    open spec fn tabs_model(&self) -> Seq<TabEntry> {
        self.entries()
    }

    fn create_tab(&mut self) -> TabEntry {
        BasicTabManager::create_tab(self)
    }

    fn set_active(&mut self, id: TabId) -> bool {
        BasicTabManager::set_active(self, id)
    }

    fn set_state(&mut self, id: TabId, state: TabState) -> bool {
        BasicTabManager::set_state(self, id, state)
    }

    fn active_tab(&self) -> Option<TabId> {
        self.active
    }

    fn tabs(&self) -> &[TabEntry] {
        self.tabs.as_slice()
    }
}

} // verus!
