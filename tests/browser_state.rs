use owl::browser_state::BrowserState;

#[test]
fn starting_tree() {
    let state = BrowserState::new();
    assert_eq!(state.roots, vec![1, 2]);
    assert_eq!(state.active, Some(3));
    assert_eq!(state.tabs[&2].children, vec![3, 4, 5]);
    assert!(state.tabs[&2].is_group);
    assert_eq!(state.tabs[&1].url, "owl://home");
    let tree = state.to_ui_tree();
    assert_eq!(tree.len(), 2);
    assert_eq!(tree[1].title, "Reading");
    assert_eq!(tree[1].children.iter().map(|c| c.id).collect::<Vec<_>>(), vec![3, 4, 5]);
    assert!(tree[1].children[0].is_active);
    assert!(!tree[0].is_active);
    assert!(state.recently_closed.is_empty());
    assert_eq!(state.next_id, 6);
    assert_eq!(state.tabs[&3].url, "https://webkitgtk.org");
    let home = &state.tabs[&1];
    assert!(home.favicon_uri.is_none() && home.is_expanded && !home.is_pinned && !home.is_muted && !home.is_suspended);
}

#[test]
fn pinned_children_come_first() {
    let mut state = BrowserState::new();
    state.toggle_pin(5);
    assert_eq!(state.ordered_children(&[3, 4, 5, 99]), vec![5, 3, 4]);
    let tree = state.to_ui_tree();
    assert_eq!(tree[1].children.iter().map(|c| c.id).collect::<Vec<_>>(), vec![5, 3, 4]);
    assert!(tree[1].children[0].is_pinned);
}

#[test]
fn removing_a_group_removes_its_tabs() {
    let mut state = BrowserState::new();
    state.remove_tab(2);
    assert_eq!(state.roots, vec![1]);
    assert_eq!(state.tabs.len(), 1);
    assert_eq!(state.active, Some(1));
    let closed: Vec<&str> = state.recently_closed.iter().map(|c| c.title.as_str()).collect();
    assert_eq!(closed, vec!["WebKitGTK", "GNOME", "Fedora", "Reading"]);
    state.remove_tab(2);
    assert_eq!(state.recently_closed.len(), 4);
}

#[test]
fn removing_a_child_detaches_it() {
    let mut state = BrowserState::new();
    state.remove_tab(4);
    assert_eq!(state.tabs[&2].children, vec![3, 5]);
    assert_eq!(state.active, Some(3));
}

#[test]
fn creating_tabs_and_groups() {
    let mut state = BrowserState::new();
    let id = state.create_tab(Some(1), "Docs", "https://docs.rs");
    assert_eq!(id, 6);
    assert_eq!(state.tabs[&1].children, vec![6]);
    assert_eq!(state.tabs[&6].parent, Some(1));
    let g = state.create_group("Work");
    assert_eq!(g, 7);
    assert_eq!(state.roots, vec![1, 2, 7]);
    assert_eq!(state.tabs[&7].url, "owl://group");
    let orphan = state.create_tab(Some(99), "Lost", "about:blank");
    assert!(state.tabs.contains_key(&orphan));
    assert_eq!(state.roots, vec![1, 2, 7]);
    let own = state.create_tab(Some(9), "Self", "about:blank");
    assert_eq!(own, 9);
    assert!(state.tabs[&9].children.is_empty());
}

#[test]
fn edits_and_flags() {
    let mut state = BrowserState::new();
    state.set_favicon_for_url("https://www.gnome.org", Some("file:///g.png".to_string()));
    state.update_tab(4, Some("GNOME!"), None);
    assert_eq!(state.tabs[&4].title, "GNOME!");
    assert_eq!(state.tabs[&4].favicon_uri.as_deref(), Some("file:///g.png"));
    state.update_tab(4, None, Some("https://gnome.org"));
    assert_eq!(state.tabs[&4].url, "https://gnome.org");
    assert_eq!(state.tabs[&4].favicon_uri, None);
    state.toggle_mute(3);
    state.toggle_suspended(3);
    assert!(state.tabs[&3].is_muted && state.tabs[&3].is_suspended);
    state.toggle_expanded(3);
    assert!(state.tabs[&3].is_expanded);
    state.toggle_expanded(2);
    assert!(!state.tabs[&2].is_expanded);
    state.set_active(99);
    assert_eq!(state.active, Some(3));
    state.set_active(5);
    assert_eq!(state.active, Some(5));
}

#[test]
fn favicons_are_set_by_url() {
    let mut state = BrowserState::new();
    state.create_tab(None, "GNOME again", "https://www.gnome.org");
    let ids = state.set_favicon_for_url("https://www.gnome.org", Some("data:icon".to_string()));
    assert_eq!(ids, vec![4, 6]);
    assert_eq!(state.tabs[&6].favicon_uri.as_deref(), Some("data:icon"));
    assert_eq!(state.tabs[&3].favicon_uri, None);
    assert!(state.set_favicon_for_url("nowhere", None).is_empty());
}
