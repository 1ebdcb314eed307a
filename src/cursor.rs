use vstd::prelude::*;

verus! {

/// The highlighted row of a table, if any, with wraparound navigation.
///
/// The table may shrink under a selection; a selected index at or past the
/// table's length then counts as no selection.
#[derive(Clone, Copy, Debug, PartialEq, Eq, Structural)]
pub struct Cursor {
    pub selected: Option<usize>,
}

/// The selection as it stands over a table of `n` rows.
pub open spec fn effective(sel: Option<usize>, n: nat) -> Option<usize> {
    match sel {
        Some(i) => if i < n {
            Some(i)
        } else {
            None
        },
        None => None,
    }
}

/// The selection after moving down over `n` rows.
pub open spec fn after_next(sel: Option<usize>, n: nat) -> Option<usize> {
    if n == 0 {
        sel
    } else {
        match effective(sel, n) {
            Some(i) => if i + 1 == n {
                Some(0usize)
            } else {
                Some((i + 1) as usize)
            },
            None => Some(0usize),
        }
    }
}

/// The selection after moving up over `n` rows.
pub open spec fn after_previous(sel: Option<usize>, n: nat) -> Option<usize> {
    if n == 0 {
        sel
    } else {
        match effective(sel, n) {
            Some(i) => if i == 0 {
                Some((n - 1) as usize)
            } else {
                Some((i - 1) as usize)
            },
            None => Some(0usize),
        }
    }
}

/// The selection after jumping to the first of `n` rows.
pub open spec fn after_first(sel: Option<usize>, n: nat) -> Option<usize> {
    if n == 0 {
        sel
    } else {
        Some(0usize)
    }
}

/// The selection after jumping to the last of `n` rows.
pub open spec fn after_last(sel: Option<usize>, n: nat) -> Option<usize> {
    if n == 0 {
        sel
    } else {
        Some((n - 1) as usize)
    }
}

impl Cursor {
    /// A cursor with no row selected.
    pub fn new() -> (r: Cursor)
        ensures
            r.selected is None,
    {
        Cursor { selected: None }
    }

    /// The selected row if it lies within a table of `n` rows.
    pub fn selected_in(&self, n: usize) -> (r: Option<usize>)
        ensures
            r == effective(self.selected, n as nat),
    {
        match self.selected {
            Some(i) => if i < n {
                Some(i)
            } else {
                None
            },
            None => None,
        }
    }

    /// Moves down one row, from the last row to the first and from no
    /// selection to the first; nothing happens on an empty table.
    pub fn next(&mut self, n: usize)
        ensures
            final(self).selected == after_next(old(self).selected, n as nat),
            n > 0 ==> effective(final(self).selected, n as nat) == final(self).selected,
    {
        if n == 0 {
            return;
        }
        let i = match self.selected_in(n) {
            Some(i) => if i + 1 == n {
                0
            } else {
                i + 1
            },
            None => 0,
        };
        self.selected = Some(i);
    }

    /// Moves up one row, from the first row to the last and from no
    /// selection to the first; nothing happens on an empty table.
    pub fn previous(&mut self, n: usize)
        ensures
            final(self).selected == after_previous(old(self).selected, n as nat),
            n > 0 ==> effective(final(self).selected, n as nat) == final(self).selected,
    {
        if n == 0 {
            return;
        }
        let i = match self.selected_in(n) {
            Some(i) => if i == 0 {
                n - 1
            } else {
                i - 1
            },
            None => 0,
        };
        self.selected = Some(i);
    }

    /// Selects the first row; nothing happens on an empty table.
    pub fn first(&mut self, n: usize)
        ensures
            final(self).selected == after_first(old(self).selected, n as nat),
            n > 0 ==> effective(final(self).selected, n as nat) == final(self).selected,
    {
        if n > 0 {
            self.selected = Some(0);
        }
    }

    /// Selects the last row; nothing happens on an empty table.
    pub fn last(&mut self, n: usize)
        ensures
            final(self).selected == after_last(old(self).selected, n as nat),
            n > 0 ==> effective(final(self).selected, n as nat) == final(self).selected,
    {
        if n > 0 {
            self.selected = Some(n - 1);
        }
    }

    /// Selects no row.
    pub fn clear(&mut self)
        ensures
            final(self).selected is None,
    {
        self.selected = None;
    }
}

} // verus!
