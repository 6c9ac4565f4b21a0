//! The browser's tab tree: tabs and groups, their nesting and flags, the
//! active tab and recently closed tabs.

use vstd::prelude::*;
use std::collections::HashMap;

verus! {

broadcast use vstd::std_specs::hash::group_hash_axioms;

/// One tab or group of the tree.
#[derive(Debug, Clone)]
pub struct TabNode {
    pub id: u64,
    pub parent: Option<u64>,
    pub title: String,
    pub url: String,
    pub favicon_uri: Option<String>,
    pub children: Vec<u64>,
    pub is_expanded: bool,
    pub is_pinned: bool,
    pub is_muted: bool,
    pub is_suspended: bool,
    pub is_group: bool,
}

/// A tab that was closed.
#[derive(Debug, Clone)]
pub struct ClosedTab {
    pub title: String,
    pub url: String,
}

/// A saved session: a name and its tabs.
#[derive(Debug, Clone)]
pub struct SessionState {
    pub name: String,
    pub tabs: Vec<SessionTab>,
}

/// One tab of a saved session.
#[derive(Debug, Clone)]
pub struct SessionTab {
    pub title: String,
    pub url: String,
    pub is_pinned: bool,
}

/// A node of the tree as the sidebar shows it, children nested and ordered.
#[derive(Debug)]
pub struct UiTabNode {
    pub id: u64,
    pub title: String,
    pub url: String,
    pub favicon_uri: Option<String>,
    pub is_expanded: bool,
    pub is_active: bool,
    pub is_pinned: bool,
    pub is_muted: bool,
    pub is_suspended: bool,
    pub is_group: bool,
    pub children: Vec<UiTabNode>,
}

/// The tab tree.
#[derive(Debug, Clone)]
pub struct BrowserState {
    /// The id the next created node gets.
    pub next_id: u64,
    pub tabs: HashMap<u64, TabNode>,
    pub roots: Vec<u64>,
    pub active: Option<u64>,
    pub recently_closed: Vec<ClosedTab>,
}

/// Every node is stored under its own id, below `next_id`, and each of its
/// children has a larger id, also below `next_id`.
pub open spec fn tree_wf(tabs: Map<u64, TabNode>, next_id: u64) -> bool {
    forall|k: u64|
        #[trigger] tabs.contains_key(k) ==> tabs[k].id == k && k < next_id && forall|j: int|
            0 <= j < tabs[k].children@.len() ==> k < #[trigger] tabs[k].children@[j] < next_id
}

/// `n` with a flag or field changed by `f`, stored back under `id`, if `id` is present.
pub open spec fn edit_node(
    tabs: Map<u64, TabNode>,
    id: u64,
    f: spec_fn(TabNode) -> TabNode,
) -> Map<u64, TabNode> {
    if tabs.contains_key(id) {
        tabs.insert(id, f(tabs[id]))
    } else {
        tabs
    }
}

/// `b` is `a` with possibly other children.
pub open spec fn same_but_children(a: TabNode, b: TabNode) -> bool {
    &&& a.id == b.id
    &&& a.parent == b.parent
    &&& a.title == b.title
    &&& a.url == b.url
    &&& a.favicon_uri == b.favicon_uri
    &&& a.is_expanded == b.is_expanded
    &&& a.is_pinned == b.is_pinned
    &&& a.is_muted == b.is_muted
    &&& a.is_suspended == b.is_suspended
    &&& a.is_group == b.is_group
}

/// `s` without any occurrence of `x`.
pub open spec fn without_id(s: Seq<u64>, x: u64) -> Seq<u64>
    decreases s.len(),
{
    if s.len() == 0 {
        s
    } else {
        let r = without_id(s.drop_last(), x);
        if s.last() == x {
            r
        } else {
            r.push(s.last())
        }
    }
}

proof fn lemma_without_id(s: Seq<u64>, x: u64)
    ensures
        forall|j: int|
            0 <= j < without_id(s, x).len() ==> #[trigger] without_id(s, x)[j] != x && s.contains(
                without_id(s, x)[j],
            ),
    decreases s.len(),
{
    if s.len() > 0 {
        lemma_without_id(s.drop_last(), x);
        let r = without_id(s.drop_last(), x);
        assert forall|j: int| 0 <= j < without_id(s, x).len() implies #[trigger] without_id(s, x)[j]
            != x && s.contains(without_id(s, x)[j]) by {
            if j < r.len() {
                assert(s.drop_last().contains(r[j]));
                let i = choose|i: int| 0 <= i < s.drop_last().len() && s.drop_last()[i] == r[j];
                assert(s[i] == r[j]);
            } else {
                assert(s[s.len() - 1] == s.last());
            }
        }
    }
}

fn without(v: &Vec<u64>, x: u64) -> (r: Vec<u64>)
    ensures
        r@ == without_id(v@, x),
{
    let mut r: Vec<u64> = Vec::new();
    let mut i: usize = 0;
    while i < v.len()
        invariant
            i <= v@.len(),
            r@ == without_id(v@.subrange(0, i as int), x),
        decreases v@.len() - i,
    {
        proof {
            assert(v@.subrange(0, i + 1).drop_last() =~= v@.subrange(0, i as int));
        }
        if v[i] != x {
            r.push(v[i]);
        }
        i = i + 1;
    }
    assert(v@.subrange(0, i as int) =~= v@);
    r
}

fn copy_ids(v: &Vec<u64>) -> (r: Vec<u64>)
    ensures
        r@ == v@,
{
    let mut r: Vec<u64> = Vec::new();
    let mut i: usize = 0;
    while i < v.len()
        invariant
            i <= v@.len(),
            r@ == v@.subrange(0, i as int),
        decreases v@.len() - i,
    {
        r.push(v[i]);
        i = i + 1;
    }
    assert(v@.subrange(0, i as int) =~= v@);
    r
}

/// The ids of `s` that are nodes of `tabs` and whose pinned flag is `pinned`, in order.
pub open spec fn select_pinned(tabs: Map<u64, TabNode>, s: Seq<u64>, pinned: bool) -> Seq<u64>
    decreases s.len(),
{
    if s.len() == 0 {
        s
    } else {
        let r = select_pinned(tabs, s.drop_last(), pinned);
        let x = s.last();
        if tabs.contains_key(x) && tabs[x].is_pinned == pinned {
            r.push(x)
        } else {
            r
        }
    }
}

/// The ids of `s` that are nodes, pinned ones first, each part in order.
pub open spec fn ordered_spec(tabs: Map<u64, TabNode>, s: Seq<u64>) -> Seq<u64> {
    select_pinned(tabs, s, true) + select_pinned(tabs, s, false)
}

proof fn lemma_select_pinned(tabs: Map<u64, TabNode>, s: Seq<u64>, pinned: bool)
    ensures
        forall|j: int|
            0 <= j < select_pinned(tabs, s, pinned).len() ==> tabs.contains_key(
                #[trigger] select_pinned(tabs, s, pinned)[j],
            ) && s.contains(select_pinned(tabs, s, pinned)[j]),
    decreases s.len(),
{
    if s.len() > 0 {
        lemma_select_pinned(tabs, s.drop_last(), pinned);
        let r = select_pinned(tabs, s.drop_last(), pinned);
        assert forall|j: int| 0 <= j < select_pinned(tabs, s, pinned).len() implies tabs.contains_key(
            #[trigger] select_pinned(tabs, s, pinned)[j],
        ) && s.contains(select_pinned(tabs, s, pinned)[j]) by {
            if j < r.len() {
                assert(s.drop_last().contains(r[j]));
                let i = choose|i: int| 0 <= i < s.drop_last().len() && s.drop_last()[i] == r[j];
                assert(s[i] == r[j]);
            } else {
                assert(s[s.len() - 1] == s.last());
            }
        }
    }
}

/// The ids of nodes below `n` whose url is `url`, in increasing order.
pub open spec fn ids_with_url(tabs: Map<u64, TabNode>, url: Seq<char>, n: nat) -> Seq<u64>
    decreases n,
{
    if n == 0 {
        Seq::empty()
    } else {
        let r = ids_with_url(tabs, url, (n - 1) as nat);
        let k = (n - 1) as u64;
        if tabs.contains_key(k) && tabs[k].url@ == url {
            r.push(k)
        } else {
            r
        }
    }
}

/// `b` is `a` with possibly another favicon.
pub open spec fn same_but_favicon(a: TabNode, b: TabNode) -> bool {
    &&& a.id == b.id
    &&& a.parent == b.parent
    &&& a.title == b.title
    &&& a.url == b.url
    &&& a.children == b.children
    &&& a.is_expanded == b.is_expanded
    &&& a.is_pinned == b.is_pinned
    &&& a.is_muted == b.is_muted
    &&& a.is_suspended == b.is_suspended
    &&& a.is_group == b.is_group
}

/// The node of `k` after the favicon of every node showing `url` is set to `favicon`.
pub open spec fn favicon_set(a: TabNode, b: TabNode, url: Seq<char>, favicon: Option<String>) -> bool {
    if a.url@ == url {
        same_but_favicon(a, b) && opt_text(b.favicon_uri) == opt_text(favicon)
    } else {
        b == a
    }
}

pub open spec fn opt_text(o: Option<String>) -> Option<Seq<char>> {
    match o {
        Some(s) => Some(s@),
        None => None,
    }
}

/// A new node just created: no favicon, expanded, and not pinned, muted or
/// suspended, with no children yet.
pub open spec fn fresh_node(n: TabNode, id: u64, parent: Option<u64>, title: Seq<char>, url: Seq<char>, is_group: bool) -> bool {
    &&& n.id == id
    &&& n.parent == parent
    &&& n.title@ == title
    &&& n.url@ == url
    &&& n.favicon_uri is None
    &&& n.children@.len() == 0
    &&& n.is_expanded
    &&& !n.is_pinned
    &&& !n.is_muted
    &&& !n.is_suspended
    &&& n.is_group == is_group
}

/// `n` shows node `id` of `tabs`: its fields, whether it is `active`, and
/// its ordered children, each shown the same way, all the way down.
pub open spec fn shows_node(
    tabs: Map<u64, TabNode>,
    active: Option<u64>,
    next_id: u64,
    n: UiTabNode,
    id: u64,
) -> bool
    decreases next_id - id,
{
    let node = tabs[id];
    let order = ordered_spec(tabs, node.children@);
    &&& n.id == id
    &&& n.title@ == node.title@
    &&& n.url@ == node.url@
    &&& opt_text(n.favicon_uri) == opt_text(node.favicon_uri)
    &&& n.is_expanded == node.is_expanded
    &&& n.is_active == (active == Some(id))
    &&& n.is_pinned == node.is_pinned
    &&& n.is_muted == node.is_muted
    &&& n.is_suspended == node.is_suspended
    &&& n.is_group == node.is_group
    &&& n.children@.len() == order.len()
    &&& forall|j: int|
        0 <= j < order.len() ==> id < order[j] < next_id && shows_node(
            tabs,
            active,
            next_id,
            #[trigger] n.children@[j],
            order[j],
        )
}

impl BrowserState {
    /// The id the next created node gets.
    pub open spec fn next_id_spec(&self) -> u64 {
        self.next_id
    }

    pub open spec fn wf(&self) -> bool {
        tree_wf(self.tabs@, self.next_id_spec())
    }

    /// Everything but the nodes is as in `old`.
    pub open spec fn same_but_nodes(&self, old: &BrowserState) -> bool {
        &&& self.roots@ == old.roots@
        &&& self.active == old.active
        &&& self.recently_closed@ == old.recently_closed@
        &&& self.next_id_spec() == old.next_id_spec()
    }

    /// The starting tree: a home tab, and an expanded "Reading" group with
    /// three tabs, the first of them active.
    pub fn new() -> (s: BrowserState)
        ensures
            s.wf(),
            s.tabs@.dom() == set![1u64, 2, 3, 4, 5],
            s.roots@ == seq![1u64, 2],
            s.tabs@[2].children@ == seq![3u64, 4, 5],
            s.tabs@[2].is_group,
            s.tabs@[2].is_expanded,
            s.active == Some(3u64),
            s.next_id == 6,
            s.recently_closed@.len() == 0,
            fresh_node(s.tabs@[1], 1, None, "Home"@, "owl://home"@, false),
            s.tabs@[2].title@ == "Reading"@ && s.tabs@[2].url@ == "owl://group"@,
            fresh_node(s.tabs@[3], 3, Some(2u64), "WebKitGTK"@, "https://webkitgtk.org"@, false),
            fresh_node(s.tabs@[4], 4, Some(2u64), "GNOME"@, "https://www.gnome.org"@, false),
            fresh_node(s.tabs@[5], 5, Some(2u64), "Fedora"@, "https://fedoraproject.org"@, false),
    {
        let mut state = BrowserState {
            next_id: 1,
            tabs: HashMap::new(),
            roots: Vec::new(),
            active: None,
            recently_closed: Vec::new(),
        };
        let _home_id = state.create_tab(None, "Home", "owl://home");
        let ghost home = state.tabs@[1];
        let group_id = state.create_group("Reading");
        assert(state.tabs@.contains_key(1) && state.tabs@[1] == home);
        state.toggle_expanded_to(group_id, true);
        assert(state.tabs@.contains_key(1) && state.tabs@[1] == home);
        let webkit_id = state.create_tab(Some(group_id), "WebKitGTK", "https://webkitgtk.org");
        let ghost webkit = state.tabs@[3];
        assert(state.tabs@.contains_key(1) && state.tabs@[1] == home);
        state.create_tab(Some(group_id), "GNOME", "https://www.gnome.org");
        let ghost gnome = state.tabs@[4];
        assert(state.tabs@.contains_key(1) && state.tabs@[1] == home);
        assert(state.tabs@.contains_key(3) && state.tabs@[3] == webkit);
        state.create_tab(Some(group_id), "Fedora", "https://fedoraproject.org");
        assert(state.tabs@.contains_key(1) && state.tabs@[1] == home);
        assert(state.tabs@.contains_key(3) && state.tabs@[3] == webkit);
        assert(state.tabs@.contains_key(4) && state.tabs@[4] == gnome);
        state.set_active(webkit_id);
        assert(state.tabs@.dom() =~= set![1u64, 2, 3, 4, 5]);
        assert(state.roots@ =~= seq![1u64, 2]);
        assert(state.tabs@[2].children@ =~= seq![3u64, 4, 5]);
        state
    }

    fn toggle_expanded_to(&mut self, id: u64, expanded: bool)
        requires
            old(self).wf(),
        ensures
            final(self).wf(),
            final(self).same_but_nodes(old(self)),
            final(self).tabs@ == edit_node(
                old(self).tabs@,
                id,
                |n: TabNode| TabNode { is_expanded: expanded, ..n },
            ),
    {
        if let Some(mut node) = self.tabs.remove(&id) {
            node.is_expanded = expanded;
            self.tabs.insert(id, node);
        }
        assert(self.tabs@ =~= edit_node(
            old(self).tabs@,
            id,
            |n: TabNode| TabNode { is_expanded: expanded, ..n },
        ));
    }

    /// Creates a tab under `parent`, or at the root without one. Returns its id.
    pub fn create_tab(&mut self, parent: Option<u64>, title: &str, url: &str) -> (id: u64)
        requires
            old(self).wf(),
            old(self).next_id_spec() < u64::MAX,
        ensures
            final(self).wf(),
            id == old(self).next_id_spec(),
            final(self).next_id_spec() == id + 1,
            final(self).tabs@.contains_key(id),
            fresh_node(final(self).tabs@[id], id, parent, title@, url@, false),
            final(self).tabs@.dom() == old(self).tabs@.dom().insert(id),
            final(self).roots@ == (if parent is None {
                old(self).roots@.push(id)
            } else {
                old(self).roots@
            }),
            match parent {
                Some(p) => old(self).tabs@.contains_key(p) ==> final(self).tabs@[p].children@
                    == old(self).tabs@[p].children@.push(id) && same_but_children(
                    old(self).tabs@[p],
                    final(self).tabs@[p],
                ),
                None => true,
            },
            forall|k: u64| #[trigger] old(self).tabs@.contains_key(k) && Some(k) != parent ==> final(self).tabs@[k] == old(self).tabs@[k],

            final(self).active == old(self).active,
            final(self).recently_closed@ == old(self).recently_closed@,
    {
        self.create_tab_internal(parent, title, url, false)
    }

    /// Creates a group at the root. Returns its id.
    pub fn create_group(&mut self, title: &str) -> (id: u64)
        requires
            old(self).wf(),
            old(self).next_id_spec() < u64::MAX,
        ensures
            final(self).wf(),
            id == old(self).next_id_spec(),
            final(self).next_id_spec() == id + 1,
            final(self).tabs@.contains_key(id),
            fresh_node(final(self).tabs@[id], id, None, title@, "owl://group"@, true),
            final(self).tabs@.dom() == old(self).tabs@.dom().insert(id),
            final(self).roots@ == old(self).roots@.push(id),
            final(self).active == old(self).active,
            forall|k: u64| #[trigger] old(self).tabs@.contains_key(k) ==> final(self).tabs@[k] == old(self).tabs@[k],
            final(self).recently_closed@ == old(self).recently_closed@,
    {
        self.create_tab_internal(None, title, "owl://group", true)
    }

    /// Adds a node with the next id. It is appended to the children of
    /// `parent` when that node exists, to the roots when there is no parent,
    /// and left detached when the parent does not exist; a node is never
    /// its own parent, since its id is new.
    fn create_tab_internal(&mut self, parent: Option<u64>, title: &str, url: &str, is_group: bool) -> (id: u64)
        requires
            old(self).wf(),
            old(self).next_id_spec() < u64::MAX,
        ensures
            final(self).wf(),
            id == old(self).next_id_spec(),
            final(self).next_id_spec() == id + 1,
            final(self).tabs@.contains_key(id),
            fresh_node(final(self).tabs@[id], id, parent, title@, url@, is_group),
            final(self).tabs@.dom() == old(self).tabs@.dom().insert(id),
            forall|k: u64| #[trigger] old(self).tabs@.contains_key(k) && Some(k) != parent ==> final(self).tabs@[k] == old(self).tabs@[k],
            final(self).roots@ == (if parent is None {
                old(self).roots@.push(id)
            } else {
                old(self).roots@
            }),
            match parent {
                Some(p) => old(self).tabs@.contains_key(p) ==> final(self).tabs@[p].children@
                    == old(self).tabs@[p].children@.push(id) && same_but_children(
                    old(self).tabs@[p],
                    final(self).tabs@[p],
                ),
                None => true,
            },
            final(self).active == old(self).active,
            final(self).recently_closed@ == old(self).recently_closed@,
    {
        let id = self.next_id;
        self.next_id = id + 1;
        let node = TabNode {
            id,
            parent,
            title: title.to_owned(),
            url: url.to_owned(),
            favicon_uri: None,
            children: Vec::new(),
            is_expanded: true,
            is_pinned: false,
            is_muted: false,
            is_suspended: false,
            is_group,
        };
        match parent {
            Some(parent_id) => {
                if let Some(mut parent_node) = self.tabs.remove(&parent_id) {
                    parent_node.children.push(id);
                    self.tabs.insert(parent_id, parent_node);
                }
            },
            None => {
                self.roots.push(id);
            },
        }
        self.tabs.insert(id, node);
        assert(self.tabs@.dom() =~= old(self).tabs@.dom().insert(id));
        id
    }

    /// Makes `id` the active tab if it exists.
    pub fn set_active(&mut self, id: u64)
        ensures
            final(self).tabs@ == old(self).tabs@,
            final(self).roots@ == old(self).roots@,
            final(self).recently_closed@ == old(self).recently_closed@,
            final(self).next_id_spec() == old(self).next_id_spec(),
            final(self).active == (if old(self).tabs@.contains_key(id) {
                Some(id)
            } else {
                old(self).active
            }),
    {
        if self.tabs.contains_key(&id) {
            self.active = Some(id);
        }
    }

    /// Flips whether `id` is expanded, if it exists and has children.
    pub fn toggle_expanded(&mut self, id: u64)
        requires
            old(self).wf(),
        ensures
            final(self).wf(),
            final(self).same_but_nodes(old(self)),
            final(self).tabs@ == edit_node(
                old(self).tabs@,
                id,
                |n: TabNode|
                    if n.children@.len() > 0 {
                        TabNode { is_expanded: !n.is_expanded, ..n }
                    } else {
                        n
                    },
            ),
    {
        if let Some(mut node) = self.tabs.remove(&id) {
            if node.children.len() > 0 {
                node.is_expanded = !node.is_expanded;
            }
            self.tabs.insert(id, node);
        }
        assert(self.tabs@ =~= edit_node(
            old(self).tabs@,
            id,
            |n: TabNode|
                if n.children@.len() > 0 {
                    TabNode { is_expanded: !n.is_expanded, ..n }
                } else {
                    n
                },
        ));
    }

    /// Flips whether `id` is pinned, if it exists.
    pub fn toggle_pin(&mut self, id: u64)
        requires
            old(self).wf(),
        ensures
            final(self).wf(),
            final(self).same_but_nodes(old(self)),
            final(self).tabs@ == edit_node(
                old(self).tabs@,
                id,
                |n: TabNode| TabNode { is_pinned: !n.is_pinned, ..n },
            ),
    {
        if let Some(mut node) = self.tabs.remove(&id) {
            node.is_pinned = !node.is_pinned;
            self.tabs.insert(id, node);
        }
        assert(self.tabs@ =~= edit_node(
            old(self).tabs@,
            id,
            |n: TabNode| TabNode { is_pinned: !n.is_pinned, ..n },
        ));
    }

    /// Flips whether `id` is muted, if it exists.
    pub fn toggle_mute(&mut self, id: u64)
        requires
            old(self).wf(),
        ensures
            final(self).wf(),
            final(self).same_but_nodes(old(self)),
            final(self).tabs@ == edit_node(
                old(self).tabs@,
                id,
                |n: TabNode| TabNode { is_muted: !n.is_muted, ..n },
            ),
    {
        if let Some(mut node) = self.tabs.remove(&id) {
            node.is_muted = !node.is_muted;
            self.tabs.insert(id, node);
        }
        assert(self.tabs@ =~= edit_node(
            old(self).tabs@,
            id,
            |n: TabNode| TabNode { is_muted: !n.is_muted, ..n },
        ));
    }

    /// Flips whether `id` is suspended, if it exists.
    pub fn toggle_suspended(&mut self, id: u64)
        requires
            old(self).wf(),
        ensures
            final(self).wf(),
            final(self).same_but_nodes(old(self)),
            final(self).tabs@ == edit_node(
                old(self).tabs@,
                id,
                |n: TabNode| TabNode { is_suspended: !n.is_suspended, ..n },
            ),
    {
        if let Some(mut node) = self.tabs.remove(&id) {
            node.is_suspended = !node.is_suspended;
            self.tabs.insert(id, node);
        }
        assert(self.tabs@ =~= edit_node(
            old(self).tabs@,
            id,
            |n: TabNode| TabNode { is_suspended: !n.is_suspended, ..n },
        ));
    }

    /// Sets the title and, clearing its favicon, the url of `id`, where given.
    pub fn update_tab(&mut self, id: u64, title: Option<&str>, url: Option<&str>)
        requires
            old(self).wf(),
        ensures
            final(self).wf(),
            final(self).same_but_nodes(old(self)),
            final(self).tabs@.dom() == old(self).tabs@.dom(),
            forall|k: u64| #[trigger] old(self).tabs@.contains_key(k) && k != id ==> final(self).tabs@[k] == old(self).tabs@[k],
            old(self).tabs@.contains_key(id) ==> {
                let (o, n) = (old(self).tabs@[id], final(self).tabs@[id]);
                &&& n.title@ == (match title { Some(t) => t@, None => o.title@ })
                &&& n.url@ == (match url { Some(u) => u@, None => o.url@ })
                &&& url is Some ==> n.favicon_uri is None
                &&& url is None ==> n.favicon_uri == o.favicon_uri
                &&& n.id == o.id && n.parent == o.parent && n.children == o.children
                &&& n.is_expanded == o.is_expanded && n.is_pinned == o.is_pinned
                &&& n.is_muted == o.is_muted && n.is_suspended == o.is_suspended
                &&& n.is_group == o.is_group
            },
    {
        if let Some(mut node) = self.tabs.remove(&id) {
            if let Some(title) = title {
                node.title = title.to_owned();
            }
            if let Some(url) = url {
                node.url = url.to_owned();
                node.favicon_uri = None;
            }
            self.tabs.insert(id, node);
        }
        assert(self.tabs@.dom() =~= old(self).tabs@.dom());
    }

    /// Removes `id` and, first, all of its descendants; detaches it from its
    /// parent or the roots, and records it as recently closed. If it was the
    /// active tab, the first root becomes active.
    pub fn remove_tab(&mut self, id: u64)
        requires
            old(self).wf(),
        ensures
            final(self).wf(),
            final(self).next_id == old(self).next_id,
            !final(self).tabs@.contains_key(id),
            forall|k: u64| #[trigger] final(self).tabs@.contains_key(k) ==> old(self).tabs@.contains_key(k),
            forall|k: u64|
                #[trigger] old(self).tabs@.contains_key(k) && k < id ==> final(self).tabs@.contains_key(k)
                    && same_but_children(old(self).tabs@[k], final(self).tabs@[k]),
            old(self).tabs@.contains_key(id) ==> match old(self).tabs@[id].parent {
                Some(p) => final(self).tabs@.contains_key(p) ==> !final(self).tabs@[p].children@.contains(id),
                None => !final(self).roots@.contains(id),
            },
            final(self).recently_closed@.len() - old(self).recently_closed@.len() == old(self).tabs@.dom().len()
                - final(self).tabs@.dom().len(),
            old(self).tabs@.contains_key(id) && old(self).active == Some(id) ==> final(self).active == (
            if final(self).roots@.len() > 0 {
                Some(final(self).roots@[0])
            } else {
                None
            }),
            old(self).active matches Some(a) && a < id ==> final(self).active == old(self).active,
            old(self).tabs@.contains_key(id) ==> forall|j: int|
                0 <= j < old(self).tabs@[id].children@.len() ==> !final(self).tabs@.contains_key(
                    #[trigger] old(self).tabs@[id].children@[j],
                ),
            old(self).tabs@.contains_key(id) ==> final(self).recently_closed@.len()
                > old(self).recently_closed@.len(),
            !old(self).tabs@.contains_key(id) ==> final(self).tabs@ == old(self).tabs@
                && final(self).roots@ == old(self).roots@ && final(self).active == old(self).active
                && final(self).recently_closed@ == old(self).recently_closed@,
            final(self).recently_closed@.len() >= old(self).recently_closed@.len(),
        decreases old(self).next_id - id,
    {
        let children: Vec<u64> = match self.tabs.get(&id) {
            Some(node) => copy_ids(&node.children),
            None => {
                return ;
            },
        };
        let ghost before = self.tabs@;
        let ghost next0 = self.next_id;
        let ghost closed0 = self.recently_closed@.len();
        let mut i: usize = 0;
        while i < children.len()
            invariant
                self.wf(),
                self.next_id == next0,
                next0 == old(self).next_id,
                before.contains_key(id),
                tree_wf(before, next0),
                children@ == before[id].children@,
                self.tabs@.contains_key(id),
                forall|k: u64| #[trigger] self.tabs@.contains_key(k) ==> before.contains_key(k),
                forall|k: u64| #[trigger] before.contains_key(k) && k < id ==> self.tabs@.contains_key(k)
                    && same_but_children(before[k], self.tabs@[k]),
                self.tabs@.contains_key(id) && same_but_children(before[id], self.tabs@[id]),
                self.recently_closed@.len() - closed0 == before.dom().len() - self.tabs@.dom().len(),
                self.active == old(self).active || !(old(self).active matches Some(a) && a <= id),
                forall|j: int| 0 <= j < i ==> !self.tabs@.contains_key(#[trigger] children@[j]),
                self.recently_closed@.len() >= closed0,
                i <= children@.len(),
            decreases children@.len() - i,
        {
            let c = children[i];
            assert(id < children@[i as int] < next0);
            self.remove_tab(c);
            i = i + 1;
        }
        let node = match self.tabs.remove(&id) {
            Some(n) => n,
            None => {
                return ;
            },
        };
        match node.parent {
            Some(parent_id) => {
                if let Some(mut parent_node) = self.tabs.remove(&parent_id) {
                    proof {
                        lemma_without_id(parent_node.children@, id);
                    }
                    parent_node.children = without(&parent_node.children, id);
                    assert(!parent_node.children@.contains(id));
                    self.tabs.insert(parent_id, parent_node);
                }
            },
            None => {
                proof {
                    lemma_without_id(self.roots@, id);
                }
                self.roots = without(&self.roots, id);
                assert(!self.roots@.contains(id));
            },
        }
        self.recently_closed.push(ClosedTab { title: node.title, url: node.url });
        if self.active == Some(id) {
            self.active = if self.roots.len() > 0 {
                Some(self.roots[0])
            } else {
                None
            };
        }
    }

    /// The ids of `ids` that are nodes, pinned ones first, each part in order.
    pub fn ordered_children(&self, ids: &[u64]) -> (r: Vec<u64>)
        ensures
            r@ == ordered_spec(self.tabs@, ids@),
    {
        let mut pinned: Vec<u64> = Vec::new();
        let mut normal: Vec<u64> = Vec::new();
        let mut i: usize = 0;
        while i < ids.len()
            invariant
                i <= ids@.len(),
                pinned@ == select_pinned(self.tabs@, ids@.subrange(0, i as int), true),
                normal@ == select_pinned(self.tabs@, ids@.subrange(0, i as int), false),
            decreases ids@.len() - i,
        {
            proof {
                assert(ids@.subrange(0, i + 1).drop_last() =~= ids@.subrange(0, i as int));
            }
            let id = ids[i];
            match self.tabs.get(&id) {
                Some(node) => {
                    if node.is_pinned {
                        pinned.push(id);
                    } else {
                        normal.push(id);
                    }
                },
                None => {},
            }
            i = i + 1;
        }
        assert(ids@.subrange(0, i as int) =~= ids@);
        let mut j: usize = 0;
        let ghost p0 = pinned@;
        while j < normal.len()
            invariant
                j <= normal@.len(),
                pinned@ == p0 + normal@.subrange(0, j as int),
            decreases normal@.len() - j,
        {
            pinned.push(normal[j]);
            j = j + 1;
            assert(pinned@ =~= p0 + normal@.subrange(0, j as int));
        }
        assert(normal@.subrange(0, j as int) =~= normal@);
        pinned
    }

    fn build_node(&self, id: u64) -> (n: UiTabNode)
        requires
            self.wf(),
            self.tabs@.contains_key(id),
        ensures
            shows_node(self.tabs@, self.active, self.next_id, n, id),
        decreases self.next_id - id,
    {
        let node = self.tabs.get(&id).unwrap();
        let order = self.ordered_children(node.children.as_slice());
        proof {
            let cs = self.tabs@[id].children@;
            lemma_select_pinned(self.tabs@, cs, true);
            lemma_select_pinned(self.tabs@, cs, false);
            assert forall|j: int| 0 <= j < order@.len() implies self.tabs@.contains_key(#[trigger] order@[j])
                && id < order@[j] < self.next_id by {
                let sp = select_pinned(self.tabs@, cs, true);
                if j < sp.len() {
                    assert(order@[j] == sp[j]);
                    let i = choose|i: int| 0 <= i < cs.len() && cs[i] == sp[j];
                    assert(cs[i] == self.tabs@[id].children@[i]);
                } else {
                    let sn = select_pinned(self.tabs@, cs, false);
                    assert(order@[j] == sn[j - sp.len()]);
                    assert(self.tabs@.contains_key(sn[j - sp.len()]));
                    let i = choose|i: int| 0 <= i < cs.len() && cs[i] == sn[j - sp.len()];
                    assert(cs[i] == self.tabs@[id].children@[i]);
                }
            }
        }
        let mut children: Vec<UiTabNode> = Vec::new();
        let mut i: usize = 0;
        while i < order.len()
            invariant
                self.wf(),
                self.tabs@.contains_key(id),
                i <= order@.len(),
                children@.len() == i,
                forall|j: int| 0 <= j < order@.len() ==> self.tabs@.contains_key(#[trigger] order@[j]) && id < order@[j] < self.next_id,
                forall|j: int| 0 <= j < i ==> shows_node(self.tabs@, self.active, self.next_id, #[trigger] children@[j], order@[j]),
            decreases order@.len() - i,
        {
            let c = order[i];
            assert(self.tabs@.contains_key(order@[i as int]));
            children.push(self.build_node(c));
            i = i + 1;
        }
        assert(order@ == ordered_spec(self.tabs@, self.tabs@[id].children@));
        UiTabNode {
            id: node.id,
            title: node.title.clone(),
            url: node.url.clone(),
            favicon_uri: match &node.favicon_uri {
                Some(f) => Some(f.clone()),
                None => None,
            },
            is_expanded: node.is_expanded,
            is_active: self.active == Some(node.id),
            is_pinned: node.is_pinned,
            is_muted: node.is_muted,
            is_suspended: node.is_suspended,
            is_group: node.is_group,
            children,
        }
    }

    /// The tree as the sidebar shows it: roots and children ordered pinned first.
    pub fn to_ui_tree(&self) -> (tree: Vec<UiTabNode>)
        requires
            self.wf(),
        ensures
            tree@.len() == ordered_spec(self.tabs@, self.roots@).len(),
            forall|j: int|
                0 <= j < tree@.len() ==> shows_node(
                    self.tabs@,
                    self.active,
                    self.next_id,
                    #[trigger] tree@[j],
                    ordered_spec(self.tabs@, self.roots@)[j],
                ),
    {
        let order = self.ordered_children(self.roots.as_slice());
        proof {
            let rs = self.roots@;
            lemma_select_pinned(self.tabs@, rs, true);
            lemma_select_pinned(self.tabs@, rs, false);
            assert forall|j: int| 0 <= j < order@.len() implies self.tabs@.contains_key(#[trigger] order@[j]) by {
                let sp = select_pinned(self.tabs@, rs, true);
                if j < sp.len() {
                    assert(order@[j] == sp[j]);
                } else {
                    let sn = select_pinned(self.tabs@, rs, false);
                    assert(order@[j] == sn[j - sp.len()]);
                }
            }
        }
        let mut tree: Vec<UiTabNode> = Vec::new();
        let mut i: usize = 0;
        while i < order.len()
            invariant
                self.wf(),
                i <= order@.len(),
                tree@.len() == i,
                forall|j: int| 0 <= j < order@.len() ==> self.tabs@.contains_key(#[trigger] order@[j]),
                forall|j: int| 0 <= j < i ==> shows_node(self.tabs@, self.active, self.next_id, #[trigger] tree@[j], order@[j]),
            decreases order@.len() - i,
        {
            let c = order[i];
            assert(self.tabs@.contains_key(order@[i as int]));
            tree.push(self.build_node(c));
            i = i + 1;
        }
        tree
    }

    /// Sets the favicon of every node whose url is `url`; returns their ids
    /// in increasing order.
    pub fn set_favicon_for_url(&mut self, url: &str, favicon_uri: Option<String>) -> (updated: Vec<u64>)
        requires
            old(self).wf(),
        ensures
            final(self).wf(),
            final(self).same_but_nodes(old(self)),
            updated@ == ids_with_url(old(self).tabs@, url@, old(self).next_id as nat),
            final(self).tabs@.dom() == old(self).tabs@.dom(),
            forall|k: u64|
                #[trigger] old(self).tabs@.contains_key(k) ==> favicon_set(
                    old(self).tabs@[k],
                    final(self).tabs@[k],
                    url@,
                    favicon_uri,
                ),
    {
        let target = url.to_owned();
        let mut updated: Vec<u64> = Vec::new();
        let mut k: u64 = 0;
        while k < self.next_id
            invariant
                self.wf(),
                self.same_but_nodes(old(self)),
                target@ == url@,
                k <= self.next_id,
                self.tabs@.dom() == old(self).tabs@.dom(),
                updated@ == ids_with_url(old(self).tabs@, url@, k as nat),
                forall|j: u64| #[trigger] old(self).tabs@.contains_key(j) && j >= k ==> self.tabs@[j] == old(self).tabs@[j],
                forall|j: u64|
                    #[trigger] old(self).tabs@.contains_key(j) && j < k ==> favicon_set(
                        old(self).tabs@[j],
                        self.tabs@[j],
                        url@,
                        favicon_uri,
                    ),
            decreases self.next_id - k,
        {
            if let Some(mut node) = self.tabs.remove(&k) {
                if node.url == target {
                    node.favicon_uri = match &favicon_uri {
                        Some(f) => Some(f.clone()),
                        None => None,
                    };
                    updated.push(k);
                }
                self.tabs.insert(k, node);
            }
            assert(self.tabs@.dom() =~= old(self).tabs@.dom());
            k = k + 1;
        }
        assert forall|j: u64| #[trigger] old(self).tabs@.contains_key(j) implies favicon_set(
            old(self).tabs@[j],
            self.tabs@[j],
            url@,
            favicon_uri,
        ) by {
            assert(j < old(self).next_id);
        }
        updated
    }
}

} // verus!
