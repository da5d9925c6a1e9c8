use vstd::prelude::*;

verus! {

/// A list of rows together with the row that the cursor is on, if any.
pub struct StatefulTable<T> {
    pub items: Vec<T>,
    pub selected: Option<usize>,
}

/// The selection after moving the cursor one row down in a table of `len` rows:
/// the row after the selected one, wrapping from the last row to the first;
/// the first row when nothing was selected; unchanged when the table is empty.
pub open spec fn selection_after_next(sel: Option<usize>, len: usize) -> Option<usize> {
    if len == 0 {
        sel
    } else {
        match sel {
            Some(i) => if i >= len - 1 { Some(0usize) } else { Some((i + 1) as usize) },
            None => Some(0usize),
        }
    }
}

/// The selection after moving the cursor one row up in a table of `len` rows:
/// the row before the selected one, wrapping from the first row to the last;
/// the first row when nothing was selected; unchanged when the table is empty.
pub open spec fn selection_after_previous(sel: Option<usize>, len: usize) -> Option<usize> {
    if len == 0 {
        sel
    } else {
        match sel {
            Some(i) => if i == 0 { Some((len - 1) as usize) } else { Some((i - 1) as usize) },
            None => Some(0usize),
        }
    }
}

impl<T> StatefulTable<T> {
    /// A table over the given rows, with no row selected.
    pub fn with_items(items: Vec<T>) -> (res: Self)
        ensures
            res.items == items,
            res.selected is None,
    {
        StatefulTable { items, selected: None }
    }

    /// The selected row, if any.
    pub fn selected(&self) -> (res: Option<usize>)
        ensures
            res == self.selected,
    {
        self.selected
    }

    /// Moves the cursor one row down in a table of `len` rows.
    pub fn next(&mut self, len: usize)
        ensures
            final(self).items == old(self).items,
            final(self).selected == selection_after_next(old(self).selected, len),
    {
        if len == 0 {
            return;
        }
        let i = match self.selected {
            Some(i) => if i >= len - 1 { 0 } else { i + 1 },
            None => 0,
        };
        self.selected = Some(i);
    }

    /// Moves the cursor one row up in a table of `len` rows.
    pub fn previous(&mut self, len: usize)
        ensures
            final(self).items == old(self).items,
            final(self).selected == selection_after_previous(old(self).selected, len),
    {
        if len == 0 {
            return;
        }
        let i = match self.selected {
            Some(i) => if i == 0 { len - 1 } else { i - 1 },
            None => 0,
        };
        self.selected = Some(i);
    }
}

/// Moving down and then up returns the cursor to the row it was on, for any row of a
/// non-empty table.
pub proof fn lemma_previous_undoes_next(i: usize, len: usize)
    requires
        i < len,
    ensures
        selection_after_previous(selection_after_next(Some(i), len), len) == Some(i),
{
}

/// Moving up and then down returns the cursor to the row it was on, for any row of a
/// non-empty table.
pub proof fn lemma_next_undoes_previous(i: usize, len: usize)
    requires
        i < len,
    ensures
        selection_after_next(selection_after_previous(Some(i), len), len) == Some(i),
{
}

/// Moving the cursor in a non-empty table from one of its rows, or from no row, lands
/// on one of its rows.
pub proof fn lemma_moves_stay_in_table(sel: Option<usize>, len: usize)
    requires
        len > 0,
        sel matches Some(i) ==> i < len,
    ensures
        selection_after_next(sel, len) matches Some(j) && j < len,
        selection_after_previous(sel, len) matches Some(j) && j < len,
{
}

} // verus!
