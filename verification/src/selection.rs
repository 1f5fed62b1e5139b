//! List selection: an optional index into the task sequence, moved by
//! navigation keys. Moving clamps at the ends; from an empty selection,
//! moving down lands on the first item and moving up on the last.

use vstd::prelude::*;

verus! {

/// Which list row is highlighted, if any. `None` is a valid, expected state.
#[derive(Clone, Copy, Debug, PartialEq, Eq, Structural)]
pub struct SelectionState {
    pub selected: Option<usize>,
}

/// Where the highlight lands after moving down on a list of `len` items:
/// on the first item from no selection, else one lower, clamped at the last.
/// Moving on an empty list changes nothing.
pub open spec fn spec_select_next(sel: Option<usize>, len: usize) -> Option<usize> {
    if len == 0 {
        sel
    } else {
        match sel {
            None => Some(0usize),
            Some(i) => if i + 1 < len {
                Some((i + 1) as usize)
            } else {
                Some((len - 1) as usize)
            },
        }
    }
}

/// Where the highlight lands after moving up on a list of `len` items:
/// on the last item from no selection, else one higher, clamped at the first.
/// Moving on an empty list changes nothing.
pub open spec fn spec_select_previous(sel: Option<usize>, len: usize) -> Option<usize> {
    if len == 0 {
        sel
    } else {
        match sel {
            None => Some((len - 1) as usize),
            Some(i) => if i > 0 {
                Some((i - 1) as usize)
            } else {
                Some(0usize)
            },
        }
    }
}

/// Where the highlight lands after jumping to the first item: unchanged on
/// an empty list, else the first index.
pub open spec fn spec_select_first(sel: Option<usize>, len: usize) -> Option<usize> {
    if len == 0 {
        sel
    } else {
        Some(0usize)
    }
}

/// Where the highlight lands after jumping to the last item: unchanged on
/// an empty list, else the last index.
pub open spec fn spec_select_last(sel: Option<usize>, len: usize) -> Option<usize> {
    if len == 0 {
        sel
    } else {
        Some((len - 1) as usize)
    }
}

impl SelectionState {
    /// A selection is valid for a list of `len` items when it is either
    /// absent or an index within bounds.
    pub open spec fn in_bounds(self, len: nat) -> bool {
        self.selected matches Some(i) ==> i < len
    }

    /// A fresh state with nothing selected.
    pub fn new() -> (s: SelectionState)
        ensures
            s.selected is None,
    {
        SelectionState { selected: None }
    }

    /// Clear the selection.
    pub fn select_none(&mut self)
        ensures
            final(self).selected is None,
    {
        self.selected = None;
    }

    /// Move the highlight down by one on a list of `len` items.
    pub fn select_next(&mut self, len: usize)
        ensures
            final(self).selected == spec_select_next(old(self).selected, len),
            final(self).in_bounds(len as nat) || !old(self).in_bounds(len as nat),
    {
        if len == 0 {
            return ;
        }
        self.selected = match self.selected {
            None => Some(0),
            Some(i) => if i < len - 1 {
                Some(i + 1)
            } else {
                Some(len - 1)
            },
        };
    }

    /// Move the highlight up by one on a list of `len` items.
    pub fn select_previous(&mut self, len: usize)
        ensures
            final(self).selected == spec_select_previous(old(self).selected, len),
            final(self).in_bounds(len as nat) || !old(self).in_bounds(len as nat),
    {
        if len == 0 {
            return ;
        }
        self.selected = match self.selected {
            None => Some(len - 1),
            Some(i) => if i > 0 {
                Some(i - 1)
            } else {
                Some(0)
            },
        };
    }

    /// Jump to the first item; does nothing on an empty list.
    pub fn select_first(&mut self, len: usize)
        ensures
            final(self).selected == spec_select_first(old(self).selected, len),
            final(self).in_bounds(len as nat) || !old(self).in_bounds(len as nat),
    {
        if len > 0 {
            self.selected = Some(0);
        }
    }

    /// Jump to the last item; does nothing on an empty list.
    pub fn select_last(&mut self, len: usize)
        ensures
            final(self).selected == spec_select_last(old(self).selected, len),
            final(self).in_bounds(len as nat) || !old(self).in_bounds(len as nat),
    {
        if len > 0 {
            self.selected = Some(len - 1);
        }
    }
}

/// Boundary symmetry of navigation from an empty selection. On a one-item
/// list, moving down then up agrees with moving up then down (both land on
/// the single item). On longer lists the two orders disagree — down-then-up
/// clamps at the first item while up-then-down clamps at the last — so the
/// law is stated for exactly the lists on which it holds.
pub proof fn lemma_none_selection_boundary_symmetry(len: usize)
    requires
        len == 1,
    ensures
        spec_select_previous(spec_select_next(None, len), len) == spec_select_next(
            spec_select_previous(None, len),
            len,
        ),
        spec_select_previous(spec_select_next(None, len), len) == Some(0usize),
{
}

} // verus!
