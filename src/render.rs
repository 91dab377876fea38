use vstd::prelude::*;
use crate::entry::{FileName, FileProperty, SortOrder};
use crate::model::Mode;
use crate::text::{
    chars_of, fit_to_length, fitted, pad_align_right, padded_right, push_range, push_repeated,
    repeated,
};
use crate::layout::sat_sub;

verus! {

/// Width of the size column.
pub const SIZE_COLUMN_WIDTH: usize = 7;

/// Width of the date column.
pub const DATE_COLUMN_WIDTH: usize = 14;

/// Width of the gap between two columns.
pub const MARGIN_WIDTH: usize = 2;

/// Rows that are not list rows: title, header, dividers and footer.
pub const NUM_ROWS_OUTSIDE_LISTVIEW: usize = 6;

/// A name in exactly `n` columns: padded with spaces, or cut at the front
/// behind a `...` marker (only dots where fewer than three columns remain).
pub open spec fn name_fitted(s: Seq<char>, n: nat) -> Seq<char> {
    if s.len() <= n {
        s + repeated(' ', (n - s.len()) as nat)
    } else if n >= 3 {
        repeated('.', 3) + s.skip(s.len() - (n - 3))
    } else {
        repeated('.', n)
    }
}

impl FileName {
    /// The name in exactly `nchars` columns.
    pub fn fit(&self, nchars: usize) -> (r: String)
        ensures
            r@ == name_fitted(self.0@, nchars as nat),
            r@.len() == nchars,
    {
        let cs = chars_of(self.0.as_str());
        let n = cs.len();
        let mut r = String::new();
        if n <= nchars {
            push_range(&mut r, &cs, 0, n);
            push_repeated(&mut r, ' ', nchars - n);
            assert(cs@.subrange(0, n as int) =~= self.0@);
        } else if nchars >= 3 {
            push_repeated(&mut r, '.', 3);
            push_range(&mut r, &cs, n - (nchars - 3), n);
            assert(cs@.subrange(n - (nchars - 3), n as int) =~= self.0@.skip(n - (nchars - 3)));
        } else {
            push_repeated(&mut r, '.', nchars);
        }
        r
    }
}

/// The mark beside a column header: `v` ascending or `^` descending on the
/// column sorted by, a space on the others.
pub open spec fn indicator(attribute: FileProperty, current: SortOrder) -> Seq<char> {
    if attribute != current.fileproperty {
        seq![' ']
    } else if current.ascending {
        seq!['v']
    } else {
        seq!['^']
    }
}

pub fn sort_indicator(match_attribute: FileProperty, current_sort: SortOrder) -> (r: &'static str)
    ensures
        r@ == indicator(match_attribute, current_sort),
{
    proof {
        reveal_strlit(" ");
        reveal_strlit("v");
        reveal_strlit("^");
    }
    if match_attribute != current_sort.fileproperty {
        return " ";
    }
    if current_sort.ascending {
        "v"
    } else {
        "^"
    }
}

/// A row of `cols` dashes.
pub fn divider(cols: usize) -> (r: String)
    ensures
        r@ == repeated('-', cols as nat),
{
    let mut r = String::new();
    push_repeated(&mut r, '-', cols);
    assert(r@ =~= repeated('-', cols as nat));
    r
}

/// The title row: the working directory behind one space, in `cols` columns.
pub fn cwd_line(cwd: &str, cols: usize) -> (r: String)
    ensures
        r@ == fitted(seq![' '] + cwd@, cols as nat),
{
    let mut s = String::new();
    crate::text::push_char(&mut s, ' ');
    s.append(cwd);
    assert(s@ =~= seq![' '] + cwd@);
    fit_to_length(s.as_str(), cols)
}

/// Width of the name column in the header row.
pub open spec fn header_name_width(cols: int) -> int {
    sat_sub(cols, (SIZE_COLUMN_WIDTH + DATE_COLUMN_WIDTH + MARGIN_WIDTH) as int)
}

/// Width of the name column in a list row.
pub open spec fn row_name_width(cols: int) -> int {
    sat_sub(cols, (SIZE_COLUMN_WIDTH + DATE_COLUMN_WIDTH + 2 * MARGIN_WIDTH) as int)
}

pub open spec fn header_text(sort: SortOrder, cols: int) -> Seq<char> {
    fitted(" Name "@ + indicator(FileProperty::Name, sort), header_name_width(cols) as nat)
        + "  "@ + fitted("Size "@ + indicator(FileProperty::Size, sort) + " "@, 7)
        + fitted("  Modified "@ + indicator(FileProperty::Date, sort) + "  "@, 14)
}

/// The column header row, with the sort mark on the sorted column.
pub fn header_line(sort: SortOrder, cols: usize) -> (r: String)
    ensures
        r@ == header_text(sort, cols as int),
{
    let mut name = String::from_str(" Name ");
    name.append(sort_indicator(FileProperty::Name, sort));
    let mut size = String::from_str("Size ");
    size.append(sort_indicator(FileProperty::Size, sort));
    size.append(" ");
    let mut date = String::from_str("  Modified ");
    date.append(sort_indicator(FileProperty::Date, sort));
    date.append("  ");
    let width = cols.saturating_sub(SIZE_COLUMN_WIDTH + DATE_COLUMN_WIDTH + MARGIN_WIDTH);
    let mut r = fit_to_length(name.as_str(), width);
    r.append("  ");
    r.append(fit_to_length(size.as_str(), SIZE_COLUMN_WIDTH).as_str());
    r.append(fit_to_length(date.as_str(), DATE_COLUMN_WIDTH).as_str());
    r
}

pub open spec fn row_text(name: Seq<char>, size: Seq<char>, date: Seq<char>, cols: int) -> Seq<char> {
    " "@ + name_fitted(name, row_name_width(cols) as nat) + "  "@ + fitted(
        padded_right(size, 7),
        7,
    ) + "  "@ + fitted(date, 14)
}

/// One list row: the name, the size right-aligned and the date, each in
/// its column. The size and date come already written out.
pub fn row_line(name: &FileName, size_text: &str, date_text: &str, cols: usize) -> (r: String)
    ensures
        r@ == row_text(name.0@, size_text@, date_text@, cols as int),
{
    let width = cols.saturating_sub(SIZE_COLUMN_WIDTH + DATE_COLUMN_WIDTH + 2 * MARGIN_WIDTH);
    let mut r = String::from_str(" ");
    r.append(name.fit(width).as_str());
    r.append("  ");
    let size = pad_align_right(size_text, SIZE_COLUMN_WIDTH);
    r.append(fit_to_length(size.as_str(), SIZE_COLUMN_WIDTH).as_str());
    r.append("  ");
    r.append(fit_to_length(date_text, DATE_COLUMN_WIDTH).as_str());
    r
}

pub open spec fn footer_text(mode: Mode, filter: Seq<char>) -> Seq<char> {
    match mode {
        Mode::Filter => " (filter)  /"@ + filter,
        Mode::Normal => " (normal) "@,
    }
}

/// The footer row: the mode and, while filtering, the filter text.
pub fn footer_line(mode: Mode, filter_text: &str) -> (r: String)
    ensures
        r@ == footer_text(mode, filter_text@),
{
    match mode {
        Mode::Filter => {
            let mut r = String::from_str(" (filter)  /");
            r.append(filter_text);
            r
        },
        Mode::Normal => String::from_str(" (normal) "),
    }
}

} // verus!
