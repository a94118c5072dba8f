//! The highlighted row of a list or table, and how the arrow keys move it.

use vstd::prelude::*;

verus! {

/// The index of the highlighted row, if any (the selection part of a
/// table's or list's widget state).
pub struct Selection {
    pub selected: Option<usize>,
}

/// The row highlighted after moving down in a list of `len` rows: the next
/// row, wrapping from the last row to the first; the first row when nothing
/// was highlighted or the list is empty.
pub open spec fn next_index(sel: Option<usize>, len: nat) -> usize {
    match sel {
        Some(i) => if len > 0 {
            if i >= len - 1 {
                0
            } else {
                (i + 1) as usize
            }
        } else {
            0
        },
        None => 0,
    }
}

/// The row highlighted after moving up in a list of `len` rows: the previous
/// row, wrapping from the first row to the last; the first row when nothing
/// was highlighted or the list is empty.
pub open spec fn previous_index(sel: Option<usize>, len: nat) -> usize {
    match sel {
        Some(i) => if len > 0 {
            if i == 0 {
                (len - 1) as usize
            } else {
                (i - 1) as usize
            }
        } else {
            0
        },
        None => 0,
    }
}

impl Selection {
    /// Nothing highlighted.
    pub fn new() -> (res: Selection)
        ensures
            res.selected is None,
    {
        Selection { selected: None }
    }

    /// The highlighted row.
    pub fn selected(&self) -> (res: Option<usize>)
        ensures
            res == self.selected,
    {
        self.selected
    }

    /// Highlights `index` (or nothing).
    pub fn select(&mut self, index: Option<usize>)
        ensures
            final(self).selected == index,
    {
        self.selected = index;
    }

    /// Moves the highlight down in a list of `len` rows.
    pub fn select_next(&mut self, len: usize)
        ensures
            final(self).selected == Some(next_index(old(self).selected, len as nat)),
    {
        let i = match self.selected {
            Some(i) => {
                if len > 0 {
                    if i >= len - 1 {
                        0
                    } else {
                        i + 1
                    }
                } else {
                    0
                }
            },
            None => 0,
        };
        self.select(Some(i));
    }

    /// Moves the highlight up in a list of `len` rows.
    pub fn select_previous(&mut self, len: usize)
        ensures
            final(self).selected == Some(previous_index(old(self).selected, len as nat)),
    {
        let i = match self.selected {
            Some(i) => {
                if len > 0 {
                    if i == 0 {
                        len - 1
                    } else {
                        i - 1
                    }
                } else {
                    0
                }
            },
            None => 0,
        };
        self.select(Some(i));
    }
}

/// Moving down then up from a row of the list comes back to that row.
pub proof fn lemma_previous_undoes_next(i: usize, len: nat)
    requires
        i < len,
        len <= usize::MAX,
    ensures
        previous_index(Some(next_index(Some(i), len)), len) == i,
{
}

/// Moving up then down from a row of the list comes back to that row.
pub proof fn lemma_next_undoes_previous(i: usize, len: nat)
    requires
        i < len,
        len <= usize::MAX,
    ensures
        next_index(Some(previous_index(Some(i), len)), len) == i,
{
}

/// From no highlight or a highlighted row of a non-empty list, moving up or
/// down highlights a row of the list.
pub proof fn lemma_moves_stay_in_list(sel: Option<usize>, len: nat)
    requires
        len > 0,
        len <= usize::MAX,
        sel matches Some(i) ==> i < len,
    ensures
        next_index(sel, len) < len,
        previous_index(sel, len) < len,
{
}

} // verus!
