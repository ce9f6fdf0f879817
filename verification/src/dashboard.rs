//! What the keyboard does to the dashboard.
//!
//! The dashboard has a row of tabs, one for each page. Keys move between the
//! tabs and inside the open page, or end the session. Before the dashboard
//! opens, a list may ask which capture device to use.

use vstd::prelude::*;
use crate::page::{Devices, Manufacturers};
use crate::ui::{
    clamped, last_index, next_tab, stepped_down, stepped_up, ListState, TabState,
};

verus! {

/// A key press, as far as the dashboard tells keys apart.
#[derive(Debug, Clone, Copy, PartialEq, Eq)]
pub enum KeyPress {
    Escape,
    /// A function key with its number.
    Function(u8),
    Up,
    Down,
    PageUp,
    PageDown,
    /// A key that types a character; tab and enter type `'\t'` and `'\n'`.
    Char(char),
    /// Any other key.
    Other,
}

/// What a key asks for.
#[derive(Debug, Clone, Copy, PartialEq, Eq)]
pub enum Command {
    /// End the session, or leave the list without choosing.
    Quit,
    /// Open the tab with this index, or the last one.
    SelectTab(usize),
    /// Open the tab after the open one.
    NextTab,
    /// Move the selection one item up.
    Up,
    /// Move the selection one item down.
    Down,
    /// Move the selection to the first item.
    Top,
    /// Move the selection to the last item.
    Bottom,
    /// Take the selected item.
    Choose,
    /// Nothing.
    Ignore,
}

/// What a key asks of the dashboard. The arrow keys and `w` and `s` step
/// through the open page, the page keys jump to its ends, tab and the
/// function keys change the page, escape ends the session.
pub open spec fn dashboard_command(key: KeyPress) -> Command {
    match key {
        KeyPress::Escape => Command::Quit,
        KeyPress::Function(number) => Command::SelectTab(number as usize),
        KeyPress::Up => Command::Up,
        KeyPress::Down => Command::Down,
        KeyPress::PageUp => Command::Top,
        KeyPress::PageDown => Command::Bottom,
        KeyPress::Char(c) => if c == '\t' {
            Command::NextTab
        } else if c == 'w' {
            Command::Up
        } else if c == 's' {
            Command::Down
        } else {
            Command::Ignore
        },
        KeyPress::Other => Command::Ignore,
    }
}

/// What a key asks of the list of capture devices: as of the dashboard,
/// but that enter takes the selected device and that there are no tabs.
pub open spec fn chooser_command(key: KeyPress) -> Command {
    match key {
        KeyPress::Char(c) => if c == '\n' {
            Command::Choose
        } else if c == '\t' {
            Command::Ignore
        } else {
            dashboard_command(key)
        },
        KeyPress::Function(_) => Command::Ignore,
        _ => dashboard_command(key),
    }
}

/// Computes [`dashboard_command`].
pub fn command_for(key: KeyPress) -> (command: Command)
    ensures
        command == dashboard_command(key),
{
    match key {
        KeyPress::Escape => Command::Quit,
        KeyPress::Function(number) => Command::SelectTab(number as usize),
        KeyPress::Up => Command::Up,
        KeyPress::Down => Command::Down,
        KeyPress::PageUp => Command::Top,
        KeyPress::PageDown => Command::Bottom,
        KeyPress::Char(c) => {
            if c == '\t' {
                Command::NextTab
            } else if c == 'w' {
                Command::Up
            } else if c == 's' {
                Command::Down
            } else {
                Command::Ignore
            }
        },
        KeyPress::Other => Command::Ignore,
    }
}

/// The selection after `command` in a list of `count` items.
pub open spec fn selection_after(selected: Option<usize>, count: usize, command: Command) -> Option<
    usize,
> {
    match command {
        Command::Up => stepped_up(selected, count),
        Command::Down => stepped_down(selected, count),
        Command::Top => Some(0usize),
        Command::Bottom => Some(last_index(count)),
        _ => selected,
    }
}

/// How the choice of a capture device stands.
#[derive(Debug, Clone, Copy, PartialEq, Eq)]
pub enum Choice {
    /// No decision yet.
    Pending,
    /// The list was left without a choice.
    Cancelled,
    /// The item with this index was taken.
    Chosen(usize),
}

/// How the choice stands after `command`, the selection being `selected`.
pub open spec fn choice_after(selected: Option<usize>, command: Command) -> Choice {
    match command {
        Command::Quit => Choice::Cancelled,
        Command::Choose => match selected {
            Some(at) => Choice::Chosen(at),
            None => Choice::Pending,
        },
        _ => Choice::Pending,
    }
}

/// Applies one key to the list of capture devices and says how the choice
/// stands. Only the keys that move the selection change `list`.
pub fn choose_device(list: &mut ListState, key: KeyPress) -> (choice: Choice)
    ensures
        final(list).count() == old(list).count(),
        final(list).selection() == selection_after(
            old(list).selection(),
            old(list).count(),
            chooser_command(key),
        ),
        choice == choice_after(old(list).selection(), chooser_command(key)),
{
    match key {
        KeyPress::Escape => Choice::Cancelled,
        KeyPress::Up => {
            list.up();
            Choice::Pending
        },
        KeyPress::Down => {
            list.down();
            Choice::Pending
        },
        KeyPress::PageUp => {
            list.top();
            Choice::Pending
        },
        KeyPress::PageDown => {
            list.bottom();
            Choice::Pending
        },
        KeyPress::Char(c) => {
            if c == '\n' {
                match list.selected() {
                    Some(at) => Choice::Chosen(at),
                    None => Choice::Pending,
                }
            } else if c == 'w' {
                list.up();
                Choice::Pending
            } else if c == 's' {
                list.down();
                Choice::Pending
            } else {
                Choice::Pending
            }
        },
        _ => Choice::Pending,
    }
}

/// The pages of the dashboard.
#[derive(Debug, Clone, Copy, PartialEq, Eq)]
pub enum PageKind {
    Devices,
    Manufacturers,
}

/// The number of pages.
pub const PAGE_COUNT: usize = 2;

/// The page behind the tab with this index.
pub open spec fn page_at(index: usize) -> PageKind {
    if index == 0 {
        PageKind::Devices
    } else {
        PageKind::Manufacturers
    }
}

/// The index of the open tab after `command`.
pub open spec fn tab_after(index: usize, command: Command) -> usize {
    match command {
        Command::SelectTab(wanted) => clamped(wanted, PAGE_COUNT),
        Command::NextTab => next_tab(index, PAGE_COUNT),
        _ => index,
    }
}

/// The dashboard: its tabs and the state of each page.
#[derive(Debug)]
pub struct Dashboard {
    tabs: TabState,
    devices: Devices,
    manufacturers: Manufacturers,
}

impl Dashboard {
    /// The index of the open tab.
    pub closed spec fn tab(&self) -> usize {
        self.tabs.index
    }

    /// The selection in the list of devices.
    pub closed spec fn devices_state(&self) -> ListState {
        self.devices@
    }

    /// The dashboard has a tab for each page and one of them is open.
    pub closed spec fn wf(&self) -> bool {
        &&& self.tabs.titles@.len() == PAGE_COUNT
        &&& self.tabs.titles@[0]@ == "Devices"@
        &&& self.tabs.titles@[1]@ == "Manufacturers"@
        &&& self.tabs.index < PAGE_COUNT
    }

    /// The dashboard as it opens: on the page of devices, none listed yet.
    pub fn new() -> (dashboard: Self)
        ensures
            dashboard.wf(),
            dashboard.tab() == 0,
            dashboard.devices_state().selection() == Some(0usize),
            dashboard.devices_state().count() == 0,
    {
        let devices = Devices::new();
        let manufacturers = Manufacturers::new();
        let mut titles: Vec<String> = Vec::new();
        titles.push(devices.name().to_owned());
        titles.push(manufacturers.name().to_owned());
        Dashboard { tabs: TabState::new(titles), devices, manufacturers }
    }

    /// The index of the open tab.
    pub fn tab_index(&self) -> (index: usize)
        requires
            self.wf(),
        ensures
            index == self.tab(),
            index < PAGE_COUNT,
    {
        self.tabs.index
    }

    /// The titles of the tabs, in the order of the tabs.
    pub fn titles(&self) -> (titles: &Vec<String>)
        requires
            self.wf(),
        ensures
            titles@.len() == PAGE_COUNT,
            titles@[0]@ == "Devices"@,
            titles@[1]@ == "Manufacturers"@,
    {
        &self.tabs.titles
    }

    /// The open page.
    pub fn page(&self) -> (page: PageKind)
        requires
            self.wf(),
        ensures
            page == page_at(self.tab()),
    {
        if self.tabs.index == 0 {
            PageKind::Devices
        } else {
            PageKind::Manufacturers
        }
    }

    /// The page of devices.
    pub fn devices(&self) -> (page: &Devices)
        ensures
            page@ == self.devices_state(),
    {
        &self.devices
    }

    /// The page of manufacturers.
    pub fn manufacturers(&self) -> (page: &Manufacturers)
        ensures
            *page == (Manufacturers {  }),
    {
        &self.manufacturers
    }

    /// Tells the page of devices how many devices there are to list.
    pub fn set_device_count(&mut self, count: usize)
        requires
            old(self).wf(),
        ensures
            final(self).wf(),
            final(self).tab() == old(self).tab(),
            final(self).devices_state().count() == count,
            final(self).devices_state().selection() == crate::ui::resized(
                old(self).devices_state().selection(),
                count,
            ),
    {
        self.devices.set_item_count(count);
    }

    /// Applies one key and says whether it ends the session. Keys that move
    /// a selection act on the open page; the page of manufacturers has
    /// nothing to select.
    pub fn press(&mut self, key: KeyPress) -> (quit: bool)
        requires
            old(self).wf(),
        ensures
            final(self).wf(),
            quit == (dashboard_command(key) == Command::Quit),
            final(self).tab() == tab_after(old(self).tab(), dashboard_command(key)),
            final(self).devices_state().count() == old(self).devices_state().count(),
            final(self).devices_state().selection() == if page_at(old(self).tab())
                == PageKind::Devices {
                selection_after(
                    old(self).devices_state().selection(),
                    old(self).devices_state().count(),
                    dashboard_command(key),
                )
            } else {
                old(self).devices_state().selection()
            },
    {
        let on_devices = self.tabs.index == 0;
        match command_for(key) {
            Command::Quit => {
                return true;
            },
            Command::SelectTab(wanted) => {
                self.tabs.select(wanted);
            },
            Command::NextTab => {
                self.tabs.next();
            },
            Command::Up => {
                if on_devices {
                    self.devices.up();
                }
            },
            Command::Down => {
                if on_devices {
                    self.devices.down();
                }
            },
            Command::Top => {
                if on_devices {
                    self.devices.top();
                }
            },
            Command::Bottom => {
                if on_devices {
                    self.devices.bottom();
                }
            },
            _ => {},
        }
        false
    }
}

} // verus!
