use blockade_recon::dashboard::{
    choose_device, command_for, Choice, Command, Dashboard, KeyPress, PageKind,
};
use blockade_recon::ui::ListState;

#[test]
fn keys_map_to_commands() {
    assert_eq!(command_for(KeyPress::Escape), Command::Quit);
    assert_eq!(command_for(KeyPress::Function(3)), Command::SelectTab(3));
    assert_eq!(command_for(KeyPress::Char('\t')), Command::NextTab);
    assert_eq!(command_for(KeyPress::Up), Command::Up);
    assert_eq!(command_for(KeyPress::Char('w')), Command::Up);
    assert_eq!(command_for(KeyPress::Down), Command::Down);
    assert_eq!(command_for(KeyPress::Char('s')), Command::Down);
    assert_eq!(command_for(KeyPress::PageUp), Command::Top);
    assert_eq!(command_for(KeyPress::PageDown), Command::Bottom);
    assert_eq!(command_for(KeyPress::Char('\n')), Command::Ignore);
    assert_eq!(command_for(KeyPress::Char('q')), Command::Ignore);
    assert_eq!(command_for(KeyPress::Other), Command::Ignore);
}

#[test]
fn dashboard_opens_on_devices() {
    let dashboard = Dashboard::new();
    assert_eq!(dashboard.tab_index(), 0);
    assert_eq!(dashboard.page(), PageKind::Devices);
    assert_eq!(dashboard.titles(), &vec!["Devices".to_string(), "Manufacturers".to_string()]);
    assert_eq!(dashboard.devices().state().selected(), Some(0));
    assert_eq!(dashboard.manufacturers().name(), "Manufacturers");
}

#[test]
fn dashboard_tabs_follow_keys() {
    let mut dashboard = Dashboard::new();
    assert!(!dashboard.press(KeyPress::Char('\t')));
    assert_eq!(dashboard.page(), PageKind::Manufacturers);
    assert!(!dashboard.press(KeyPress::Char('\t')));
    assert_eq!(dashboard.page(), PageKind::Devices);
    assert!(!dashboard.press(KeyPress::Function(1)));
    assert_eq!(dashboard.tab_index(), 1);
    assert!(!dashboard.press(KeyPress::Function(0)));
    assert_eq!(dashboard.tab_index(), 0);
    assert!(!dashboard.press(KeyPress::Function(12)));
    assert_eq!(dashboard.tab_index(), 1);
    assert!(dashboard.press(KeyPress::Escape));
    assert_eq!(dashboard.tab_index(), 1);
}

#[test]
fn dashboard_moves_the_selection_of_the_open_page() {
    let mut dashboard = Dashboard::new();
    dashboard.set_device_count(4);
    dashboard.press(KeyPress::Down);
    dashboard.press(KeyPress::Char('s'));
    assert_eq!(dashboard.devices().state().selected(), Some(2));
    dashboard.press(KeyPress::Char('w'));
    assert_eq!(dashboard.devices().state().selected(), Some(1));
    dashboard.press(KeyPress::PageDown);
    assert_eq!(dashboard.devices().state().selected(), Some(3));
    dashboard.press(KeyPress::Char('\t'));
    dashboard.press(KeyPress::PageUp);
    dashboard.press(KeyPress::Up);
    assert_eq!(dashboard.devices().state().selected(), Some(3));
    dashboard.press(KeyPress::Char('\t'));
    dashboard.press(KeyPress::PageUp);
    assert_eq!(dashboard.devices().state().selected(), Some(0));
    dashboard.press(KeyPress::Up);
    assert_eq!(dashboard.devices().state().selected(), Some(3));
    dashboard.press(KeyPress::Other);
    assert_eq!(dashboard.devices().state().selected(), Some(3));
}

#[test]
fn device_choice_follows_keys() {
    let mut list = ListState::with_item_count(3);
    assert_eq!(choose_device(&mut list, KeyPress::Down), Choice::Pending);
    assert_eq!(choose_device(&mut list, KeyPress::Char('s')), Choice::Pending);
    assert_eq!(list.selected(), Some(2));
    assert_eq!(choose_device(&mut list, KeyPress::Char('\t')), Choice::Pending);
    assert_eq!(choose_device(&mut list, KeyPress::Function(1)), Choice::Pending);
    assert_eq!(list.selected(), Some(2));
    assert_eq!(choose_device(&mut list, KeyPress::Char('\n')), Choice::Chosen(2));
    assert_eq!(choose_device(&mut list, KeyPress::PageUp), Choice::Pending);
    assert_eq!(choose_device(&mut list, KeyPress::Char('w')), Choice::Pending);
    assert_eq!(choose_device(&mut list, KeyPress::Char('\n')), Choice::Chosen(2));
    assert_eq!(choose_device(&mut list, KeyPress::Up), Choice::Pending);
    assert_eq!(choose_device(&mut list, KeyPress::PageDown), Choice::Pending);
    assert_eq!(list.selected(), Some(2));
    assert_eq!(choose_device(&mut list, KeyPress::Escape), Choice::Cancelled);
    list.select(None);
    assert_eq!(choose_device(&mut list, KeyPress::Char('\n')), Choice::Pending);
}
