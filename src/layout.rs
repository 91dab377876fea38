use vstd::prelude::*;

verus! {

/// `a - b`, or zero where `b` is the larger.
pub open spec fn sat_sub(a: int, b: int) -> int {
    if a >= b {
        a - b
    } else {
        0
    }
}

/// A point on screen: column, row.
pub struct Pt(pub usize, pub usize);

/// A rectangle on screen, by its top-left and bottom-right corners.
pub struct Rect {
    pub tl: Pt,
    pub br: Pt,
}

/// Screen geometry: a title row, a header row, the list rows and a footer
/// row, and three columns (a flexible name column, then size and date).
#[allow(non_snake_case)]
pub struct Layout {
    pub W: usize,
    pub H: usize,
    pub row1_start: usize,
    pub row1_end: usize,
    pub col1_start: usize,
    pub col1_end: usize,
    pub col2_start: usize,
    pub col2_end: usize,
    pub col3_start: usize,
    pub col3_end: usize,
    pub row2_start: usize,
    pub row2_end: usize,
    pub row3_start: usize,
    pub row3_end: usize,
    pub row4_start: usize,
    pub row4_end: usize,
    pub list_min_pos: usize,
    pub list_max_pos: usize,
}

impl Default for Layout {
    fn default() -> (r: Self)
        ensures
            r.W == 0 && r.H == 0 && r.list_min_pos == 0 && r.list_max_pos == 0,
            r.row1_start == 0 && r.row1_end == 0 && r.row2_start == 0 && r.row2_end == 0,
            r.row3_start == 0 && r.row3_end == 0 && r.row4_start == 0 && r.row4_end == 0,
            r.col1_start == 0 && r.col1_end == 0 && r.col2_start == 0 && r.col2_end == 0,
            r.col3_start == 0 && r.col3_end == 0,
    {
        Layout {
            W: 0,
            H: 0,
            row1_start: 0,
            row1_end: 0,
            col1_start: 0,
            col1_end: 0,
            col2_start: 0,
            col2_end: 0,
            col3_start: 0,
            col3_end: 0,
            row2_start: 0,
            row2_end: 0,
            row3_start: 0,
            row3_end: 0,
            row4_start: 0,
            row4_end: 0,
            list_min_pos: 0,
            list_max_pos: 0,
        }
    }
}

impl Layout {
    /// Lays the screen out for `w` columns and `h` rows. Where the screen is
    /// too small for a region, its bounds stop at zero.
    pub fn resize(&mut self, w: u16, h: u16)
        ensures
            final(self).W == w,
            final(self).H == h,
            final(self).row1_start == 1 && final(self).row1_end == 1,
            final(self).row2_start == 3 && final(self).row2_end == 3,
            final(self).row3_start == 5,
            final(self).row3_end == sat_sub(h as int, 4),
            final(self).row4_start == sat_sub(h as int, 2),
            final(self).row4_end == sat_sub(h as int, 2),
            final(self).col3_end == sat_sub(w as int, 2),
            final(self).col3_start == sat_sub(final(self).col3_end as int, 16),
            final(self).col2_end == sat_sub(final(self).col3_start as int, 2),
            final(self).col2_start == sat_sub(final(self).col2_end as int, 8),
            final(self).col1_end == sat_sub(final(self).col2_start as int, 2),
            final(self).col1_start == 1,
            final(self).list_min_pos == old(self).list_min_pos,
            final(self).list_max_pos == if sat_sub(h as int, 6) + old(self).list_min_pos
                > usize::MAX {
                usize::MAX as int
            } else {
                sat_sub(h as int, 6) + old(self).list_min_pos
            },
    {
        self.W = w as usize;
        self.H = h as usize;
        self.row1_start = 1;
        self.row1_end = 1;
        self.row2_start = 3;
        self.row2_end = 3;
        self.row3_start = 5;
        self.row3_end = self.H.saturating_sub(4);
        self.row4_start = self.H.saturating_sub(2);
        self.row4_end = self.H.saturating_sub(2);
        self.col3_end = self.W.saturating_sub(2);
        self.col3_start = self.col3_end.saturating_sub(16);
        self.col2_end = self.col3_start.saturating_sub(2);
        self.col2_start = self.col2_end.saturating_sub(8);
        self.col1_end = self.col2_start.saturating_sub(2);
        self.col1_start = 1;
        self.list_max_pos = self.H.saturating_sub(6).saturating_add(self.list_min_pos);
    }

    /// Puts the list back at its top.
    pub fn reset_list_pos(&mut self)
        ensures
            *final(self) == (Layout {
                list_min_pos: 0,
                list_max_pos: sat_sub(old(self).H as int, 6) as usize,
                ..*old(self)
            }),
    {
        self.list_min_pos = 0;
        self.list_max_pos = self.H.saturating_sub(6);
    }
}

} // verus!
