use fmin::{Entry, FileName, ListViewData};

fn items(n: usize) -> Vec<Entry> {
    (0..n)
        .map(|i| Entry {
            path: format!("/x/{}", i),
            is_dir: false,
            name: FileName(format!("{}", i)),
            size: None,
            date: None,
        })
        .collect()
}

fn holds(v: &ListViewData) -> bool {
    v.max_items_visible >= 1
        && v.first_viewable_index <= v.cursor_index
        && v.cursor_index < v.first_viewable_index + v.max_items_visible
        && (v.items.is_empty() || v.cursor_index < v.items.len())
}

#[test]
fn cursor_scrolls_window_down() {
    let mut v = ListViewData::new(items(5), 3);
    for _ in 0..4 {
        v.increment_cursor();
    }
    assert_eq!(v.cursor_index, 4);
    assert_eq!(v.first_viewable_index, 2);
    v.increment_cursor();
    assert_eq!((v.cursor_index, v.first_viewable_index), (4, 2));
}

#[test]
fn cursor_scrolls_window_up() {
    let mut v = ListViewData::new(items(5), 3);
    for _ in 0..4 {
        v.increment_cursor();
    }
    v.decrement_cursor();
    assert_eq!((v.cursor_index, v.first_viewable_index), (3, 2));
    v.decrement_cursor();
    assert_eq!((v.cursor_index, v.first_viewable_index), (2, 2));
    v.decrement_cursor();
    assert_eq!((v.cursor_index, v.first_viewable_index), (1, 1));
    v.decrement_cursor();
    v.decrement_cursor();
    assert_eq!((v.cursor_index, v.first_viewable_index), (0, 0));
}

#[test]
fn empty_list_does_not_move() {
    let mut v = ListViewData::new(Vec::new(), 4);
    v.increment_cursor();
    v.decrement_cursor();
    assert_eq!((v.cursor_index, v.first_viewable_index), (0, 0));
    v.set_max_height(1);
    assert_eq!((v.cursor_index, v.first_viewable_index, v.max_items_visible), (0, 0, 1));
}

#[test]
fn resize_reclamps_window_and_cursor() {
    let mut v = ListViewData::new(items(10), 5);
    for _ in 0..9 {
        v.increment_cursor();
    }
    assert_eq!((v.cursor_index, v.first_viewable_index), (9, 5));
    v.set_max_height(2);
    assert_eq!((v.cursor_index, v.first_viewable_index, v.max_items_visible), (6, 5, 2));
    assert!(holds(&v));
    v.set_max_height(8);
    assert_eq!((v.cursor_index, v.first_viewable_index), (6, 2));
    assert!(holds(&v));
    let mut w = ListViewData::new(items(10), 5);
    w.increment_cursor();
    w.increment_cursor();
    w.increment_cursor();
    w.set_max_height(2);
    assert_eq!((w.cursor_index, w.first_viewable_index), (1, 0));
    v.set_max_height(50);
    assert_eq!((v.cursor_index, v.first_viewable_index), (6, 0));
}

#[test]
fn invariant_holds_over_mixed_operations() {
    let mut v = ListViewData::new(items(7), 3);
    let ops: [u32; 16] = [1, 1, 1, 2, 1, 1, 0, 3, 1, 1, 0, 0, 0, 4, 1, 1];
    for op in ops {
        match op {
            0 => v.decrement_cursor(),
            1 => v.increment_cursor(),
            2 => v.set_max_height(1),
            3 => v.set_max_height(6),
            _ => v.set_max_height(2),
        }
        assert!(holds(&v));
    }
}

#[test]
fn reset_puts_cursor_at_top() {
    let mut v = ListViewData::new(items(5), 2);
    v.increment_cursor();
    v.increment_cursor();
    v.reset_with_items(items(3));
    assert_eq!((v.cursor_index, v.first_viewable_index, v.items.len()), (0, 0, 3));
}
