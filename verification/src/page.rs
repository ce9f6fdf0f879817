//! The pages of the dashboard, as far as they hold state of their own.

use vstd::prelude::*;
use crate::ui::{last_index, stepped_down, stepped_up, ListState};

verus! {

/// The page that lists the devices and shows the selected one.
#[derive(Debug, Clone, Copy, PartialEq, Eq)]
pub struct Devices {
    device_state: ListState,
}

impl View for Devices {
    type V = ListState;

    /// The selection in the list of devices.
    closed spec fn view(&self) -> ListState {
        self.device_state
    }
}

impl Devices {
    /// The page as it opens: no devices yet, the first position selected.
    pub fn new() -> (page: Self)
        ensures
            page@.selection() == Some(0usize),
            page@.count() == 0,
    {
        Devices { device_state: ListState::default() }
    }

    /// The title of the page.
    pub fn name(&self) -> (name: &'static str)
        ensures
            name@ == "Devices"@,
    {
        "Devices"
    }

    /// The selection in the list of devices.
    pub fn state(&self) -> (state: ListState)
        ensures
            state == self@,
    {
        self.device_state
    }

    /// Tells the page how many devices there are to list.
    pub fn set_item_count(&mut self, item_count: usize)
        ensures
            final(self)@.selection() == crate::ui::resized(old(self)@.selection(), item_count),
            final(self)@.count() == item_count,
    {
        self.device_state.set_item_count(item_count);
    }

    /// Moves the selection to the device above.
    pub fn up(&mut self)
        ensures
            final(self)@.selection() == stepped_up(old(self)@.selection(), old(self)@.count()),
            final(self)@.count() == old(self)@.count(),
    {
        self.device_state.up();
    }

    /// Moves the selection to the first device.
    pub fn top(&mut self)
        ensures
            final(self)@.selection() == Some(0usize),
            final(self)@.count() == old(self)@.count(),
    {
        self.device_state.top();
    }

    /// Moves the selection to the device below.
    pub fn down(&mut self)
        ensures
            final(self)@.selection() == stepped_down(old(self)@.selection(), old(self)@.count()),
            final(self)@.count() == old(self)@.count(),
    {
        self.device_state.down();
    }

    /// Moves the selection to the last device.
    pub fn bottom(&mut self)
        ensures
            final(self)@.selection() == Some(last_index(old(self)@.count())),
            final(self)@.count() == old(self)@.count(),
    {
        self.device_state.bottom();
    }
}

/// The page that charts the manufacturers. It has no state of its own.
#[derive(Debug, Clone, Copy, PartialEq, Eq)]
pub struct Manufacturers {}

impl Manufacturers {
    /// The page as it opens.
    pub fn new() -> (page: Self)
        ensures
            page == (Manufacturers {  }),
    {
        Manufacturers {  }
    }

    /// The title of the page.
    pub fn name(&self) -> (name: &'static str)
        ensures
            name@ == "Manufacturers"@,
    {
        "Manufacturers"
    }
}

} // verus!
