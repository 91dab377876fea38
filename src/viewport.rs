use vstd::prelude::*;
use crate::entry::Entry;

verus! {

/// The scroll state of a list: how many items it has, the first one shown,
/// the one under the cursor and how many fit on screen.
pub struct ViewState {
    pub len: int,
    pub first: int,
    pub cursor: int,
    pub max: int,
}

/// The cursor lies inside the window and, where there are items, on one of them.
pub open spec fn state_wf(s: ViewState) -> bool {
    &&& s.max >= 1
    &&& 0 <= s.first <= s.cursor < s.first + s.max
    &&& s.len >= 0
    &&& (s.len > 0 ==> s.cursor < s.len)
    &&& (s.len == 0 ==> s.cursor == 0)
}

/// The cursor one item down: the window scrolls along when the cursor is on
/// its last row; at the last item, or with no items, nothing moves.
pub open spec fn step_down(s: ViewState) -> ViewState {
    if s.len == 0 || s.cursor == s.len - 1 {
        s
    } else if s.cursor == s.first + s.max - 1 {
        ViewState { cursor: s.cursor + 1, first: s.first + 1, ..s }
    } else {
        ViewState { cursor: s.cursor + 1, ..s }
    }
}

/// The cursor one item up: the window scrolls along when the cursor is on
/// its first row; at the first item nothing moves.
pub open spec fn step_up(s: ViewState) -> ViewState {
    if s.cursor == 0 {
        s
    } else if s.cursor == s.first {
        ViewState { cursor: s.cursor - 1, first: s.first - 1, ..s }
    } else {
        ViewState { cursor: s.cursor - 1, ..s }
    }
}

pub open spec fn min_int(a: int, b: int) -> int {
    if a <= b {
        a
    } else {
        b
    }
}

pub open spec fn max_int(a: int, b: int) -> int {
    if a >= b {
        a
    } else {
        b
    }
}

/// A window of `n` rows: the first row shown is pulled back so that the
/// window does not run past the end where that is avoidable, and the cursor
/// is clamped into the window and onto an item.
pub open spec fn step_resize(s: ViewState, n: int) -> ViewState {
    let first = min_int(s.first, max_int(0, s.len - n));
    let cursor = if s.len == 0 {
        0
    } else {
        max_int(first, min_int(s.cursor, min_int(first + n - 1, s.len - 1)))
    };
    ViewState { len: s.len, first, cursor, max: n }
}

/// One operation on a viewport.
pub enum ViewOp {
    Up,
    Down,
    Resize(usize),
}

pub open spec fn step(s: ViewState, op: ViewOp) -> ViewState {
    match op {
        ViewOp::Up => step_up(s),
        ViewOp::Down => step_down(s),
        ViewOp::Resize(n) => step_resize(s, n as int),
    }
}

/// The state after the operations, in order.
pub open spec fn run_ops(s: ViewState, ops: Seq<ViewOp>) -> ViewState
    decreases ops.len(),
{
    if ops.len() == 0 {
        s
    } else {
        run_ops(step(s, ops[0]), ops.drop_first())
    }
}

/// Each operation keeps the cursor inside the window.
pub proof fn lemma_step_wf(s: ViewState, op: ViewOp)
    requires
        state_wf(s),
        op is Resize ==> op->Resize_0 >= 1,
    ensures
        state_wf(step(s, op)),
{
}

/// After any sequence of cursor moves and resizes (to at least one row), the
/// cursor still lies inside the window and on an item where there is one.
pub proof fn lemma_viewport_invariant(s: ViewState, ops: Seq<ViewOp>)
    requires
        state_wf(s),
        forall|k: int| 0 <= k < ops.len() && (#[trigger] ops[k]) is Resize ==> ops[k]->Resize_0 >= 1,
    ensures
        state_wf(run_ops(s, ops)),
    decreases ops.len(),
{
    if ops.len() > 0 {
        lemma_step_wf(s, ops[0]);
        assert forall|k: int| 0 <= k < ops.drop_first().len() && (#[trigger] ops.drop_first()[k]) is Resize
            implies ops.drop_first()[k]->Resize_0 >= 1 by {
            assert(ops.drop_first()[k] == ops[k + 1]);
        }
        lemma_viewport_invariant(step(s, ops[0]), ops.drop_first());
    }
}

/// A scrollable list: its items, the first one shown, the one under the
/// cursor and how many are shown at once.
pub struct ListViewData {
    pub items: Vec<Entry>,
    pub first_viewable_index: usize,
    pub cursor_index: usize,
    pub max_items_visible: usize,
}

impl ListViewData {
    pub open spec fn state(&self) -> ViewState {
        ViewState {
            len: self.items@.len() as int,
            first: self.first_viewable_index as int,
            cursor: self.cursor_index as int,
            max: self.max_items_visible as int,
        }
    }

    pub open spec fn wf(&self) -> bool {
        state_wf(self.state())
    }

    /// A list showing `items` from the top, `max_items_visible` at a time.
    pub fn new(items: Vec<Entry>, max_items_visible: usize) -> (r: Self)
        requires
            max_items_visible >= 1,
        ensures
            r.wf(),
            r.items@ == items@,
            r.cursor_index == 0,
            r.first_viewable_index == 0,
            r.max_items_visible == max_items_visible,
    {
        ListViewData { items, first_viewable_index: 0, cursor_index: 0, max_items_visible }
    }

    /// Shows `items` instead, from the top.
    pub fn reset_with_items(&mut self, items: Vec<Entry>)
        requires
            old(self).wf(),
        ensures
            final(self).wf(),
            final(self).items@ == items@,
            final(self).cursor_index == 0,
            final(self).first_viewable_index == 0,
            final(self).max_items_visible == old(self).max_items_visible,
    {
        self.items = items;
        self.cursor_index = 0;
        self.first_viewable_index = 0;
    }

    /// Moves the cursor one item down, scrolling when it leaves the window.
    pub fn increment_cursor(&mut self)
        requires
            old(self).wf(),
        ensures
            final(self).wf(),
            final(self).state() == step_down(old(self).state()),
            final(self).items == old(self).items,
    {
        if self.items.len() == 0 || self.cursor_index == self.items.len() - 1 {
        } else if self.cursor_index - self.first_viewable_index == self.max_items_visible - 1 {
            self.cursor_index += 1;
            self.first_viewable_index += 1;
        } else {
            self.cursor_index += 1;
        }
    }

    /// Moves the cursor one item up, scrolling when it leaves the window.
    pub fn decrement_cursor(&mut self)
        requires
            old(self).wf(),
        ensures
            final(self).wf(),
            final(self).state() == step_up(old(self).state()),
            final(self).items == old(self).items,
    {
        if self.cursor_index == 0 {
        } else if self.cursor_index == self.first_viewable_index {
            self.cursor_index -= 1;
            self.first_viewable_index -= 1;
        } else {
            self.cursor_index -= 1;
        }
    }

    /// One past the last item shown: the window's end, or the list's end
    /// where that comes first.
    pub fn visible_end(&self) -> (r: usize)
        ensures
            r == min_int(
                self.first_viewable_index + self.max_items_visible,
                self.items@.len() as int,
            ),
    {
        let len = self.items.len();
        if self.first_viewable_index >= len || self.max_items_visible >= len - self.first_viewable_index {
            len
        } else {
            self.first_viewable_index + self.max_items_visible
        }
    }

    /// Shows `num_rows` items at once, clamping the window and the cursor.
    pub fn set_max_height(&mut self, num_rows: usize)
        requires
            old(self).wf(),
            num_rows >= 1,
        ensures
            final(self).wf(),
            final(self).state() == step_resize(old(self).state(), num_rows as int),
            final(self).items == old(self).items,
    {
        let len = self.items.len();
        self.max_items_visible = num_rows;
        let bound: usize = if len > num_rows {
            len - num_rows
        } else {
            0
        };
        if self.first_viewable_index > bound {
            self.first_viewable_index = bound;
        }
        if len == 0 {
            self.cursor_index = 0;
        } else {
            let first = self.first_viewable_index;
            let hi: usize = if num_rows - 1 >= len - 1 - first {
                len - 1
            } else {
                first + (num_rows - 1)
            };
            if self.cursor_index > hi {
                self.cursor_index = hi;
            }
            if self.cursor_index < first {
                self.cursor_index = first;
            }
        }
    }
}

} // verus!
