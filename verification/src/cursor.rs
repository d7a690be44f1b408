//! A single-integer selection cursor over an ordered list of options, used by
//! the main menu and by the delete / switch / update profile lists.

use vstd::prelude::*;

verus! {

/// One step of cursor motion: an Up or a Down key press.
#[derive(Clone, Copy, PartialEq, Eq, Structural)]
pub enum CursorMove {
    Up,
    Down,
}

/// A cursor over a list of `bound` options. `index` is the selected position.
/// When the list is empty the cursor rests at 0 and selects nothing.
#[derive(Clone, Copy, PartialEq, Eq, Structural)]
pub struct SelectionCursor {
    pub index: usize,
    pub bound: usize,
}

impl SelectionCursor {
    /// The cursor invariant: the index lies inside the list, or at 0 when the
    /// list is empty.
    pub open spec fn wf(self) -> bool {
        if self.bound == 0 {
            self.index == 0
        } else {
            self.index < self.bound
        }
    }

    /// What one Up or Down press does: moves by one without wrapping, and
    /// never leaves `[0, bound-1]` when it started there.
    pub open spec fn spec_move(self, m: CursorMove) -> SelectionCursor {
        match m {
            CursorMove::Up => if self.index > 0 {
                SelectionCursor { index: (self.index - 1) as usize, bound: self.bound }
            } else {
                self
            },
            CursorMove::Down => if self.index + 1 < self.bound {
                SelectionCursor { index: (self.index + 1) as usize, bound: self.bound }
            } else {
                self
            },
        }
    }

    /// The selected index, or nothing when the list is empty.
    pub open spec fn spec_selected(self) -> Option<usize> {
        if self.bound == 0 {
            None
        } else {
            Some(self.index)
        }
    }

    /// A fresh cursor over `bound` options, resting on the first one.
    pub fn new(bound: usize) -> (c: SelectionCursor)
        ensures
            c == (SelectionCursor { index: 0, bound }),
            c.wf(),
    {
        SelectionCursor { index: 0, bound }
    }

    /// Moves the selection one option up; a no-op on the first option.
    pub fn move_up(&mut self)
        ensures
            *final(self) == old(self).spec_move(CursorMove::Up),
            old(self).wf() ==> final(self).wf(),
    {
        if self.index > 0 {
            self.index = self.index - 1;
        }
    }

    /// Moves the selection one option down; a no-op on the last option and on
    /// an empty list.
    pub fn move_down(&mut self)
        ensures
            *final(self) == old(self).spec_move(CursorMove::Down),
            old(self).wf() ==> final(self).wf(),
    {
        if self.bound > 0 && self.index < self.bound - 1 {
            self.index = self.index + 1;
        }
    }

    /// The selected index, or `None` when the list is empty.
    pub fn selected(&self) -> (r: Option<usize>)
        ensures
            r == self.spec_selected(),
    {
        if self.bound == 0 {
            None
        } else {
            Some(self.index)
        }
    }
}

/// The cursor after a whole sequence of Up/Down presses, applied in order.
pub open spec fn cursor_run(c: SelectionCursor, moves: Seq<CursorMove>) -> SelectionCursor
    decreases moves.len(),
{
    if moves.len() == 0 {
        c
    } else {
        cursor_run(c.spec_move(moves.first()), moves.drop_first())
    }
}

/// Law: for every sequence of Up/Down presses from any starting position
/// inside the list, the cursor index stays within `[0, bound-1]` (at 0 on an
/// empty list), never wraps, and the bound never changes.
pub proof fn lemma_cursor_run_stays_in_bounds(c: SelectionCursor, moves: Seq<CursorMove>)
    requires
        c.wf(),
    ensures
        cursor_run(c, moves).wf(),
        cursor_run(c, moves).bound == c.bound,
    decreases moves.len(),
{
    if moves.len() > 0 {
        lemma_cursor_run_stays_in_bounds(c.spec_move(moves.first()), moves.drop_first());
    }
}

} // verus!
