//! Selection state for the lists and tabs of a dashboard.

use vstd::prelude::*;

verus! {

/// One less than `count`, and zero for zero.
pub open spec fn last_index(count: usize) -> usize {
    if count == 0 {
        0
    } else {
        (count - 1) as usize
    }
}

/// The selection after a step towards the top of a list of `count` items:
/// from the top it wraps to the last item.
pub open spec fn stepped_up(selected: Option<usize>, count: usize) -> Option<usize> {
    match selected {
        Some(at) => if at == 0 {
            Some(last_index(count))
        } else {
            Some((at - 1) as usize)
        },
        None => None,
    }
}

/// The selection after a step towards the bottom of a list of `count` items:
/// from the last item, or from beyond it, it wraps to the top.
pub open spec fn stepped_down(selected: Option<usize>, count: usize) -> Option<usize> {
    match selected {
        Some(at) => if at >= last_index(count) {
            Some(0)
        } else {
            Some((at + 1) as usize)
        },
        None => None,
    }
}

/// The selection after the list came to have `count` items: a selection that
/// no longer points at an item moves up by one.
pub open spec fn resized(selected: Option<usize>, count: usize) -> Option<usize> {
    match selected {
        Some(at) => if at >= count {
            Some(last_index(at))
        } else {
            Some(at)
        },
        None => None,
    }
}

/// Computes [`last_index`].
pub fn saturating_pred(count: usize) -> (last: usize)
    ensures
        last == last_index(count),
{
    if count == 0 {
        0
    } else {
        count - 1
    }
}

/// Which item of a list is selected, and how many items the list has.
#[derive(Debug, Clone, Copy, PartialEq, Eq)]
pub struct ListState {
    selected: Option<usize>,
    item_count: usize,
}

impl ListState {
    /// The selected item's index.
    pub closed spec fn selection(&self) -> Option<usize> {
        self.selected
    }

    /// The number of items.
    pub closed spec fn count(&self) -> usize {
        self.item_count
    }

    /// A list of `item_count` items with the first one selected.
    pub fn with_item_count(item_count: usize) -> (state: Self)
        ensures
            state.selection() == Some(0usize),
            state.count() == item_count,
    {
        ListState { selected: Some(0), item_count }
    }

    /// The index of the selected item.
    pub fn selected(&self) -> (selected: Option<usize>)
        ensures
            selected == self.selection(),
    {
        self.selected
    }

    /// The number of items in the list.
    pub fn item_count(&self) -> (count: usize)
        ensures
            count == self.count(),
    {
        self.item_count
    }

    /// Selects the item at `selected`, or none.
    pub fn select(&mut self, selected: Option<usize>)
        ensures
            final(self).selection() == selected,
            final(self).count() == old(self).count(),
    {
        self.selected = selected;
    }

    /// Tells the state that the list now has `item_count` items.
    pub fn set_item_count(&mut self, item_count: usize)
        ensures
            final(self).selection() == resized(old(self).selection(), item_count),
            final(self).count() == item_count,
    {
        if let Some(selected) = self.selected {
            if selected >= item_count {
                self.selected = Some(saturating_pred(selected));
            }
        }
        self.item_count = item_count;
    }

    /// Moves the selection one item up, wrapping at the top.
    pub fn up(&mut self)
        ensures
            final(self).selection() == stepped_up(old(self).selection(), old(self).count()),
            final(self).count() == old(self).count(),
    {
        if let Some(selected) = self.selected {
            if selected == 0 {
                self.selected = Some(saturating_pred(self.item_count));
            } else {
                self.selected = Some(selected - 1);
            }
        }
    }

    /// Moves the selection one item down, wrapping at the bottom.
    pub fn down(&mut self)
        ensures
            final(self).selection() == stepped_down(old(self).selection(), old(self).count()),
            final(self).count() == old(self).count(),
    {
        if let Some(selected) = self.selected {
            if selected >= saturating_pred(self.item_count) {
                self.selected = Some(0);
            } else {
                self.selected = Some(selected + 1);
            }
        }
    }

    /// Selects the first item.
    pub fn top(&mut self)
        ensures
            final(self).selection() == Some(0usize),
            final(self).count() == old(self).count(),
    {
        self.selected = Some(0);
    }

    /// Selects the last item.
    pub fn bottom(&mut self)
        ensures
            final(self).selection() == Some(last_index(old(self).count())),
            final(self).count() == old(self).count(),
    {
        self.selected = Some(saturating_pred(self.item_count));
    }
}

impl Default for ListState {
    /// An empty list with the first position selected.
    fn default() -> (state: Self)
        ensures
            state.selection() == Some(0usize),
            state.count() == 0,
    {
        ListState { selected: Some(0), item_count: 0 }
    }
}

/// The index that `index` is held to among `count` tabs.
pub open spec fn clamped(index: usize, count: usize) -> usize {
    if index >= count {
        last_index(count)
    } else {
        index
    }
}

/// The tab after `index` among `count` tabs; after the last comes the first.
pub open spec fn next_tab(index: usize, count: usize) -> usize {
    if index >= last_index(count) {
        0
    } else {
        (index + 1) as usize
    }
}

/// The tab before `index` among `count` tabs; before the first comes the
/// last.
pub open spec fn previous_tab(index: usize, count: usize) -> usize {
    if index == 0 {
        last_index(count)
    } else {
        (index - 1) as usize
    }
}

/// The titles of a row of tabs and the index of the open one.
#[derive(Debug)]
pub struct TabState {
    pub titles: Vec<String>,
    pub index: usize,
}

impl TabState {
    /// A row of tabs with the first one open.
    pub fn new(titles: Vec<String>) -> (tabs: Self)
        ensures
            tabs.titles == titles,
            tabs.index == 0,
    {
        TabState { titles, index: 0 }
    }

    /// Opens the tab at `index`, or the last tab if there are not so many.
    pub fn select(&mut self, index: usize)
        requires
            old(self).titles@.len() > 0,
        ensures
            final(self).titles == old(self).titles,
            final(self).index == clamped(index, old(self).titles@.len() as usize),
    {
        let last = self.titles.len() - 1;
        self.index = if index > last {
            last
        } else {
            index
        };
    }

    /// Opens the next tab, going round to the first after the last.
    pub fn next(&mut self)
        requires
            old(self).titles@.len() > 0,
        ensures
            final(self).titles == old(self).titles,
            final(self).index == next_tab(old(self).index, old(self).titles@.len() as usize),
    {
        if self.index >= self.titles.len() - 1 {
            self.index = 0;
        } else {
            self.index += 1;
        }
    }

    /// Opens the previous tab, going round to the last before the first.
    pub fn previous(&mut self)
        requires
            old(self).titles@.len() > 0,
        ensures
            final(self).titles == old(self).titles,
            final(self).index == previous_tab(old(self).index, old(self).titles@.len() as usize),
    {
        if self.index == 0 {
            self.index = self.titles.len() - 1;
        } else {
            self.index -= 1;
        }
    }
}

} // verus!
