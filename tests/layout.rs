use fmin::{
    cwd_line, divider, fit_to_length, footer_line, header_line, pad_align_left, pad_align_right,
    row_line, sort_indicator, str_length, str_width, FileName, FileProperty, Layout, Mode,
    SortOrder,
};

#[test]
fn name_fit_pads_or_marks_truncation() {
    let n = FileName("script1.py".to_string());
    assert_eq!(n.fit(12), "script1.py  ");
    assert_eq!(n.fit(10), "script1.py");
    assert_eq!(n.fit(7), "...1.py");
    assert_eq!(n.fit(3), "...");
    assert_eq!(n.fit(2), "..");
    assert_eq!(n.fit(0), "");
}

#[test]
fn fit_to_length_pads_or_cuts() {
    assert_eq!(fit_to_length("abc", 5), "abc  ");
    assert_eq!(fit_to_length("abcdef", 4), "abcd");
    assert_eq!(fit_to_length("", 0), "");
    assert_eq!(pad_align_left("ab", 4), "ab  ");
    assert_eq!(pad_align_right("ab", 4), "  ab");
    assert_eq!(pad_align_right("abcde", 4), "abcde");
    assert_eq!(str_length("héllo"), 5);
    assert_eq!(str_width("tab"), 3);
}

#[test]
fn sort_marks() {
    let asc = SortOrder { fileproperty: FileProperty::Size, ascending: true };
    let desc = SortOrder { fileproperty: FileProperty::Size, ascending: false };
    assert_eq!(sort_indicator(FileProperty::Size, asc), "v");
    assert_eq!(sort_indicator(FileProperty::Size, desc), "^");
    assert_eq!(sort_indicator(FileProperty::Name, asc), " ");
}

#[test]
fn rows_of_the_screen() {
    let sort = SortOrder { fileproperty: FileProperty::Name, ascending: true };
    let h = header_line(sort, 40);
    assert_eq!(h, " Name v            Size     Modified    ");
    assert_eq!(h.chars().count(), 40);
    assert_eq!(header_line(sort, 3), format!("{}{}{}", "  ", "Size   ", "  Modified    "));
    assert_eq!(cwd_line("/home/me", 6), " /home");
    assert_eq!(cwd_line("/a", 5), " /a  ");
    assert_eq!(divider(3), "---");
    assert_eq!(footer_line(Mode::Filter, "py"), " (filter)  /py");
    assert_eq!(footer_line(Mode::Normal, "py"), " (normal) ");
    let row = row_line(&FileName("main.py".to_string()), "1.5 K", "Jan  1 12:00", 35);
    assert_eq!(row, " main.py       1.5 K  Jan  1 12:00  ");
}

#[test]
fn layout_for_a_screen() {
    let mut l = Layout::default();
    l.resize(80, 24);
    assert_eq!((l.W, l.H), (80, 24));
    assert_eq!((l.row3_start, l.row3_end, l.row4_start), (5, 20, 22));
    assert_eq!((l.col3_start, l.col3_end), (62, 78));
    assert_eq!((l.col2_start, l.col2_end), (52, 60));
    assert_eq!((l.col1_start, l.col1_end), (1, 50));
    assert_eq!((l.list_min_pos, l.list_max_pos), (0, 18));
    l.list_min_pos = 4;
    l.resize(80, 24);
    assert_eq!(l.list_max_pos, 22);
    l.reset_list_pos();
    assert_eq!((l.list_min_pos, l.list_max_pos), (0, 18));
    assert_eq!((l.row1_start, l.col1_end, l.col3_start, l.row4_end), (1, 50, 62, 22));
}

#[test]
fn tiny_screen_does_not_underflow() {
    let mut l = Layout::default();
    l.resize(3, 2);
    assert_eq!((l.row3_end, l.row4_start, l.col3_end, l.col3_start, l.col1_end), (0, 0, 1, 0, 0));
    assert_eq!(l.list_max_pos, 0);
}
