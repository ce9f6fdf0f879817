use blockade_recon::page::{Devices, Manufacturers};
use blockade_recon::ui::{ListState, TabState};

#[test]
fn list_starts_at_the_top() {
    let state = ListState::with_item_count(3);
    assert_eq!(state.selected(), Some(0));
    assert_eq!(state.item_count(), 3);
    assert_eq!(ListState::default().selected(), Some(0));
    assert_eq!(ListState::default().item_count(), 0);
}

#[test]
fn list_steps_wrap_around() {
    let mut state = ListState::with_item_count(3);
    state.up();
    assert_eq!(state.selected(), Some(2));
    state.down();
    assert_eq!(state.selected(), Some(0));
    state.down();
    assert_eq!(state.selected(), Some(1));
    state.down();
    assert_eq!(state.selected(), Some(2));
    state.up();
    assert_eq!(state.selected(), Some(1));
    state.bottom();
    assert_eq!(state.selected(), Some(2));
    state.top();
    assert_eq!(state.selected(), Some(0));
}

#[test]
fn empty_list_keeps_the_first_position() {
    let mut state = ListState::with_item_count(0);
    state.up();
    assert_eq!(state.selected(), Some(0));
    state.down();
    assert_eq!(state.selected(), Some(0));
    state.bottom();
    assert_eq!(state.selected(), Some(0));
}

#[test]
fn list_without_selection_stays_without() {
    let mut state = ListState::with_item_count(4);
    state.select(None);
    state.up();
    assert_eq!(state.selected(), None);
    state.down();
    assert_eq!(state.selected(), None);
    state.set_item_count(2);
    assert_eq!(state.selected(), None);
    state.bottom();
    assert_eq!(state.selected(), Some(1));
}

#[test]
fn shrinking_a_list_moves_a_lost_selection_up_by_one() {
    let mut state = ListState::with_item_count(5);
    state.bottom();
    state.set_item_count(4);
    assert_eq!(state.selected(), Some(3));
    assert_eq!(state.item_count(), 4);
    state.set_item_count(1);
    assert_eq!(state.selected(), Some(2));
    state.set_item_count(9);
    assert_eq!(state.selected(), Some(2));
    let mut empty = ListState::default();
    empty.set_item_count(0);
    assert_eq!(empty.selected(), Some(0));
}

#[test]
fn tabs_go_round() {
    let mut tabs = TabState::new(vec!["Devices".to_string(), "Manufacturers".to_string()]);
    assert_eq!(tabs.index, 0);
    tabs.next();
    assert_eq!(tabs.index, 1);
    tabs.next();
    assert_eq!(tabs.index, 0);
    tabs.previous();
    assert_eq!(tabs.index, 1);
    tabs.previous();
    assert_eq!(tabs.index, 0);
    tabs.select(7);
    assert_eq!(tabs.index, 1);
    tabs.select(0);
    assert_eq!(tabs.index, 0);
    assert_eq!(tabs.titles.len(), 2);
}

#[test]
fn pages_have_names_and_selections() {
    let mut devices = Devices::new();
    assert_eq!(devices.name(), "Devices");
    assert_eq!(Manufacturers::new().name(), "Manufacturers");
    assert_eq!(devices.state().selected(), Some(0));
    devices.set_item_count(3);
    devices.up();
    assert_eq!(devices.state().selected(), Some(2));
    devices.down();
    assert_eq!(devices.state().selected(), Some(0));
    devices.bottom();
    assert_eq!(devices.state().selected(), Some(2));
    devices.top();
    assert_eq!(devices.state().selected(), Some(0));
}
