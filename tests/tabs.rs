use owl::tabs::{BasicTabManager, TabEntry, TabId, TabManager, TabState};
use owl::util::IdGenerator;

#[test]
fn tab_ids_round_trip() {
    assert_eq!(TabId::new(9).get(), 9);
}

#[test]
fn id_generator_counts_up() {
    let mut ids = IdGenerator::new(5);
    assert_eq!(ids.next(), 5);
    assert_eq!(ids.next(), 6);
    assert_eq!(IdGenerator::default().next(), 1);
}

#[test]
fn creating_tabs_backgrounds_the_previous_active() {
    let mut m = BasicTabManager::new();
    let a = TabManager::create_tab(&mut m);
    assert_eq!(a, TabEntry { id: TabId::new(1), state: TabState::Active });
    let b = TabManager::create_tab(&mut m);
    assert_eq!(b.id, TabId::new(2));
    assert_eq!(m.tabs(), &[
        TabEntry { id: TabId::new(1), state: TabState::Background },
        TabEntry { id: TabId::new(2), state: TabState::Active },
    ]);
    assert_eq!(m.active_tab(), Some(TabId::new(2)));
}

#[test]
fn activation_and_states() {
    let mut m = BasicTabManager::new();
    for _ in 0..3 {
        TabManager::create_tab(&mut m);
    }
    assert!(TabManager::set_state(&mut m, TabId::new(1), TabState::Suspended));
    assert!(TabManager::set_active(&mut m, TabId::new(2)));
    assert_eq!(m.tabs().iter().map(|t| t.state).collect::<Vec<_>>(), vec![
        TabState::Suspended,
        TabState::Active,
        TabState::Background,
    ]);
    assert!(!TabManager::set_active(&mut m, TabId::new(9)));
    assert_eq!(m.active_tab(), Some(TabId::new(2)));
    assert!(TabManager::set_state(&mut m, TabId::new(2), TabState::Background));
    assert_eq!(m.active_tab(), None);
    assert!(!TabManager::set_state(&mut m, TabId::new(9), TabState::Active));
}

#[test]
fn next_tab_wraps_around() {
    let mut m = BasicTabManager::new();
    assert_eq!(m.next_tab(), None);
    for _ in 0..3 {
        TabManager::create_tab(&mut m);
    }
    assert_eq!(m.next_tab(), Some(TabId::new(1)));
    TabManager::set_active(&mut m, TabId::new(1));
    assert_eq!(m.next_tab(), Some(TabId::new(2)));
}
