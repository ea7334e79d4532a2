use vstd::prelude::*;

verus! {

/// Where the cursor lands after a forward step over `n` items: from the
/// last index it wraps to 0; with no selection it starts at 0.
pub open spec fn spec_next_index(sel: Option<usize>, n: int) -> int {
    match sel {
        None => 0,
        Some(i) => {
            if i + 1 >= n {
                0
            } else {
                i + 1
            }
        },
    }
}

/// Where the cursor lands after a backward step over `n` items: from
/// index 0 it wraps to the last index; with no selection it starts at 0.
pub open spec fn spec_previous_index(sel: Option<usize>, n: int) -> int {
    match sel {
        None => 0,
        Some(i) => {
            if i == 0 {
                n - 1
            } else {
                i - 1
            }
        },
    }
}

/// The cursor law: over a non-empty list of `n` items a step always
/// lands in `[0, n)`; `next` from the last index wraps to 0, and
/// `previous` from index 0 wraps to the last index.
pub proof fn lemma_cursor_wraps(sel: Option<usize>, n: int)
    requires
        0 < n <= usize::MAX,
        (match sel {
            Some(i) => (i as int) < n,
            None => true,
        }),
    ensures
        0 <= spec_next_index(sel, n) < n,
        0 <= spec_previous_index(sel, n) < n,
        sel == Some((n - 1) as usize) ==> spec_next_index(sel, n) == 0,
        sel == Some(0usize) ==> spec_previous_index(sel, n) == n - 1,
{
}

/// A selectable ordered sequence: items, an optional selected index, and
/// the last cursor position, which survives unselection so it can be
/// restored later.
pub struct StatefulList<T> {
    pub items: Vec<T>,
    pub cursor_pos: usize,
    pub selected: Option<usize>,
}

impl<T> StatefulList<T> {
    /// A selection, when present, always points into `items`.
    pub open spec fn wf(&self) -> bool {
        match self.selected {
            Some(i) => (i as int) < self.items@.len(),
            None => true,
        }
    }

    pub fn new() -> (r: Self)
        ensures
            r.items@ == Seq::<T>::empty(),
            r.cursor_pos == 0,
            r.selected == None::<usize>,
            r.wf(),
    {
        Self { items: Vec::new(), cursor_pos: 0, selected: None }
    }

    pub fn with_items(items: Vec<T>) -> (r: Self)
        ensures
            r.items@ == items@,
            r.cursor_pos == 0,
            r.selected == None::<usize>,
            r.wf(),
    {
        Self { items, cursor_pos: 0, selected: None }
    }

    /// Replaces the items; a selection that would dangle past the new
    /// end is cleared rather than left to be read out of range.
    pub fn set_items(&mut self, items: Vec<T>)
        ensures
            final(self).items@ == items@,
            final(self).cursor_pos == old(self).cursor_pos,
            final(self).selected == match old(self).selected {
                Some(i) => if (i as int) < items@.len() {
                    Some(i)
                } else {
                    None::<usize>
                },
                None => None::<usize>,
            },
            final(self).wf(),
    {
        let n = items.len();
        self.items = items;
        match self.selected {
            Some(i) => {
                if i >= n {
                    self.selected = None;
                }
            },
            None => {},
        }
    }

    /// Absolute selection; the index must be in range (callers clamp).
    pub fn select(&mut self, index: usize)
        requires
            index < old(self).items@.len(),
        ensures
            final(self).items@ == old(self).items@,
            final(self).selected == Some(index),
            final(self).cursor_pos == index,
            final(self).wf(),
    {
        self.selected = Some(index);
        self.cursor_pos = index;
    }

    pub fn selected(&self) -> (r: Option<usize>)
        ensures
            r == self.selected,
    {
        self.selected
    }

    pub fn unselect(&mut self)
        ensures
            final(self).items@ == old(self).items@,
            final(self).selected == None::<usize>,
            final(self).cursor_pos == old(self).cursor_pos,
            final(self).wf(),
    {
        self.selected = None;
    }

    /// Steps the cursor forward with wraparound; a no-op on an empty
    /// list, and a first selection of index 0 when nothing is selected.
    pub fn next(&mut self)
        requires
            old(self).wf(),
        ensures
            final(self).items@ == old(self).items@,
            final(self).wf(),
            old(self).items@.len() == 0 ==> final(self).selected == old(self).selected
                && final(self).cursor_pos == old(self).cursor_pos,
            old(self).items@.len() > 0 ==> {
                let target = spec_next_index(old(self).selected, old(self).items@.len() as int);
                final(self).selected == Some(target as usize) && final(self).cursor_pos == target
            },
    {
        let n = self.items.len();
        if n == 0 {
            return ;
        }
        let i: usize = match self.selected {
            Some(i) => {
                if i >= n - 1 {
                    0
                } else {
                    i + 1
                }
            },
            None => 0,
        };
        self.selected = Some(i);
        self.cursor_pos = i;
    }

    /// Steps the cursor backward with wraparound; a no-op on an empty
    /// list, and a first selection of index 0 when nothing is selected.
    pub fn previous(&mut self)
        requires
            old(self).wf(),
        ensures
            final(self).items@ == old(self).items@,
            final(self).wf(),
            old(self).items@.len() == 0 ==> final(self).selected == old(self).selected
                && final(self).cursor_pos == old(self).cursor_pos,
            old(self).items@.len() > 0 ==> {
                let target = spec_previous_index(
                    old(self).selected,
                    old(self).items@.len() as int,
                );
                final(self).selected == Some(target as usize) && final(self).cursor_pos == target
            },
    {
        let n = self.items.len();
        if n == 0 {
            return ;
        }
        let i: usize = match self.selected {
            Some(i) => {
                if i == 0 {
                    n - 1
                } else {
                    i - 1
                }
            },
            None => 0,
        };
        self.selected = Some(i);
        self.cursor_pos = i;
    }
}

} // verus!
