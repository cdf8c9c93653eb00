//! The selection of one entry in a list on screen.

use vstd::prelude::*;

verus! {

/// Which entry of a list is selected, and which entry is the first one shown.
///
/// A state knows nothing of the list it is used with: moving the selection
/// may leave it past the end, and [`ListState::fit`] brings it back once the
/// length of the list is known.
#[derive(Debug, Clone, Copy, PartialEq, Eq, Structural)]
pub struct ListState {
    pub offset: usize,
    pub selected: Option<usize>,
}

impl ListState {
    /// The selection is nothing, or an entry of a list of `len` entries.
    pub open spec fn fits(self, len: nat) -> bool {
        match self.selected {
            Some(j) => j < len,
            None => true,
        }
    }

    /// The selection after [`ListState::fit`]: nothing in an empty list, the
    /// last entry where it was past the end, else unchanged.
    pub open spec fn fitted(self, len: nat) -> ListState {
        if len == 0 {
            ListState { offset: 0, selected: None }
        } else {
            match self.selected {
                Some(j) if j >= len => ListState { selected: Some((len - 1) as usize), ..self },
                _ => self,
            }
        }
    }

    /// The state after [`ListState::select`].
    pub open spec fn with_selected(self, index: Option<usize>) -> ListState {
        ListState { offset: if index is None { 0 } else { self.offset }, selected: index }
    }

    /// The entry that [`ListState::select_next`] selects.
    pub open spec fn next_index(self) -> usize {
        match self.selected {
            Some(j) => if j == usize::MAX { j } else { (j + 1) as usize },
            None => 0,
        }
    }

    /// The entry that [`ListState::select_previous`] selects.
    pub open spec fn previous_index(self) -> usize {
        match self.selected {
            Some(j) => if j == 0 { j } else { (j - 1) as usize },
            None => usize::MAX,
        }
    }

    /// Nothing selected, the list shown from its first entry.
    pub fn new() -> (state: ListState)
        ensures
            state == (ListState { offset: 0, selected: None }),
    {
        ListState { offset: 0, selected: None }
    }

    /// The first entry shown.
    pub fn offset(&self) -> (offset: usize)
        ensures
            offset == self.offset,
    {
        self.offset
    }

    /// The selected entry.
    pub fn selected(&self) -> (selected: Option<usize>)
        ensures
            selected == self.selected,
    {
        self.selected
    }

    /// Selects `index`. Selecting nothing also shows the list from its first
    /// entry again.
    pub fn select(&mut self, index: Option<usize>)
        ensures
            *final(self) == old(self).with_selected(index),
    {
        self.selected = index;
        if index.is_none() {
            self.offset = 0;
        }
    }

    /// Selects the entry after the selected one, or the first where nothing
    /// is selected.
    pub fn select_next(&mut self)
        ensures
            *final(self) == old(self).with_selected(Some(old(self).next_index())),
    {
        let next: usize = match self.selected {
            Some(j) => j.saturating_add(1),
            None => 0,
        };
        self.select(Some(next));
    }

    /// Selects the entry before the selected one, or the last possible
    /// position where nothing is selected.
    pub fn select_previous(&mut self)
        ensures
            *final(self) == old(self).with_selected(Some(old(self).previous_index())),
    {
        let previous: usize = match self.selected {
            Some(j) => j.saturating_sub(1),
            None => usize::MAX,
        };
        self.select(Some(previous));
    }

    /// Selects the first entry.
    pub fn select_first(&mut self)
        ensures
            *final(self) == old(self).with_selected(Some(0usize)),
    {
        self.select(Some(0));
    }

    /// Selects the last possible position.
    pub fn select_last(&mut self)
        ensures
            *final(self) == old(self).with_selected(Some(usize::MAX)),
    {
        self.select(Some(usize::MAX));
    }

    /// Brings the selection back into a list of `len` entries: nothing in an
    /// empty list, the last entry where it was past the end.
    pub fn fit(&mut self, len: usize)
        ensures
            *final(self) == old(self).fitted(len as nat),
            final(self).fits(len as nat),
    {
        if len == 0 {
            self.select(None);
        } else {
            match self.selected {
                Some(j) => {
                    if j >= len {
                        self.select(Some(len - 1));
                    }
                },
                None => {},
            }
        }
    }
}

impl Default for ListState {
    fn default() -> (state: ListState)
        ensures
            state == (ListState { offset: 0, selected: None }),
    {
        ListState::new()
    }
}

} // verus!
