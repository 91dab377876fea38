use fmin::{
    init, update, Entry, Event, FileName, FileProperty, FileSize, History, KeyCode, KeyEvent,
    KeyModifiers, Mode, Model, UpdateResult,
};

fn entry(name: &str, size: Option<u64>) -> Entry {
    let is_dir = name.ends_with('/');
    Entry {
        path: format!("/w/{}", name.trim_end_matches('/')),
        is_dir,
        name: FileName(name.to_string()),
        size: size.map(FileSize),
        date: None,
    }
}

fn model() -> Model {
    let listing = vec![
        entry("main.py", Some(30)),
        entry(".git/", None),
        entry("script1.py", Some(10)),
        entry("docs/", None),
    ];
    init("/w".to_string(), Some("/".to_string()), listing, 80, 10, History::new(), "/h".to_string())
}

fn key(c: KeyCode) -> Event {
    Event::Key(KeyEvent { code: c, modifiers: KeyModifiers::Empty })
}

fn shift(c: char) -> Event {
    Event::Key(KeyEvent { code: KeyCode::Char(c), modifiers: KeyModifiers::Shift })
}

fn shown(m: &Model) -> Vec<String> {
    m.list_view.items.iter().map(|e| e.name.0.clone()).collect()
}

#[test]
fn start_state() {
    let m = model();
    assert_eq!(shown(&m), vec![".git/", "docs/", "main.py", "script1.py"]);
    assert_eq!(m.mode, Mode::Filter);
    assert_eq!(m.list_view.max_items_visible, 4);
    assert_eq!(m.history.frequency("/w"), Some(1));
}

#[test]
fn typing_filters_and_backspace_edits() {
    let mut m = model();
    m.list_view.increment_cursor();
    for c in ['s', 'C', 'r'] {
        assert!(matches!(update(&mut m, key(KeyCode::Char(c))), UpdateResult::Continue));
    }
    assert_eq!(m.filter_text, "sCr");
    assert_eq!(shown(&m), vec!["script1.py"]);
    assert_eq!(m.list_view.cursor_index, 0);
    update(&mut m, key(KeyCode::Backspace));
    assert_eq!(m.filter_text, "sC");
    update(&mut m, key(KeyCode::Esc));
    assert_eq!(m.filter_text, "");
    assert_eq!(shown(&m).len(), 4);
}

#[test]
fn backspace_on_empty_filter_goes_to_parent() {
    let mut m = model();
    match update(&mut m, key(KeyCode::Backspace)) {
        UpdateResult::ReadDirectory(p) => assert_eq!(p, "/"),
        _ => panic!("expected a directory to read"),
    }
    m.parent = None;
    assert!(matches!(update(&mut m, key(KeyCode::Backspace)), UpdateResult::Continue));
    assert_eq!(shown(&m).len(), 4);
}

#[test]
fn enter_on_directory_and_on_file() {
    let mut m = model();
    match update(&mut m, key(KeyCode::Enter)) {
        UpdateResult::ReadDirectory(p) => assert_eq!(p, "/w/.git"),
        _ => panic!("expected a directory to read"),
    }
    update(&mut m, key(KeyCode::Down));
    update(&mut m, key(KeyCode::Down));
    assert_eq!(m.list_view.cursor_index, 2);
    assert!(matches!(update(&mut m, key(KeyCode::Enter)), UpdateResult::Continue));
    update(&mut m, key(KeyCode::Char('z')));
    update(&mut m, key(KeyCode::Char('z')));
    assert!(shown(&m).is_empty());
    assert!(matches!(update(&mut m, key(KeyCode::Enter)), UpdateResult::Continue));
}

#[test]
fn entering_a_directory_resets_the_view() {
    let mut m = model();
    update(&mut m, shift('S'));
    update(&mut m, key(KeyCode::Char('p')));
    m.enter_directory("/w/docs".to_string(), Some("/w".to_string()), vec![entry("b", Some(1)), entry("A/", None)]);
    assert_eq!(m.cwd, "/w/docs");
    assert_eq!(m.filter_text, "");
    assert_eq!(m.cwd_sort.fileproperty, FileProperty::Name);
    assert!(m.cwd_sort.ascending);
    assert_eq!(shown(&m), vec!["A/", "b"]);
    assert_eq!(m.history.frequency("/w/docs"), Some(1));
    m.enter_directory("/w".to_string(), Some("/".to_string()), Vec::new());
    assert_eq!(m.history.frequency("/w"), Some(2));
    assert!(shown(&m).is_empty());
}

#[test]
fn sort_keys_change_then_reverse() {
    let mut m = model();
    update(&mut m, shift('S'));
    assert_eq!(m.cwd_sort.fileproperty, FileProperty::Size);
    assert!(m.cwd_sort.ascending);
    assert_eq!(&shown(&m)[2..], &["script1.py".to_string(), "main.py".to_string()]);
    update(&mut m, shift('S'));
    assert!(!m.cwd_sort.ascending);
    assert_eq!(&shown(&m)[..2], &["main.py".to_string(), "script1.py".to_string()]);
    update(&mut m, shift('N'));
    assert_eq!(shown(&m), vec![".git/", "docs/", "main.py", "script1.py"]);
    update(&mut m, shift('N'));
    assert_eq!(shown(&m), vec!["script1.py", "main.py", "docs/", ".git/"]);
    update(&mut m, shift('X'));
    assert_eq!(m.filter_text, "");
}

#[test]
fn sorting_keeps_the_filter() {
    let mut m = model();
    update(&mut m, key(KeyCode::Char('.')));
    update(&mut m, key(KeyCode::Char('p')));
    assert_eq!(shown(&m), vec!["main.py", "script1.py"]);
    update(&mut m, shift('S'));
    assert_eq!(shown(&m), vec!["script1.py", "main.py"]);
}

#[test]
fn quit_keys() {
    let mut m = model();
    let ctrl_c = Event::Key(KeyEvent { code: KeyCode::Char('c'), modifiers: KeyModifiers::Control });
    assert!(matches!(update(&mut m, ctrl_c), UpdateResult::Finish));
    assert!(matches!(update(&mut m, shift('Q')), UpdateResult::Finish));
    assert!(matches!(update(&mut m, key(KeyCode::Esc)), UpdateResult::Continue));
    m.mode = Mode::Normal;
    assert!(matches!(update(&mut m, key(KeyCode::Char('q'))), UpdateResult::Finish));
    assert!(matches!(update(&mut m, key(KeyCode::Esc)), UpdateResult::Finish));
    assert!(matches!(update(&mut m, ctrl_c), UpdateResult::Finish));
}

#[test]
fn normal_mode_commands() {
    let mut m = model();
    m.mode = Mode::Normal;
    update(&mut m, key(KeyCode::Char('j')));
    update(&mut m, key(KeyCode::Char('j')));
    update(&mut m, key(KeyCode::Char('k')));
    assert_eq!(m.list_view.cursor_index, 1);
    update(&mut m, key(KeyCode::Char('s')));
    assert_eq!(m.cwd_sort.fileproperty, FileProperty::Size);
    update(&mut m, key(KeyCode::Char('m')));
    assert_eq!(m.cwd_sort.fileproperty, FileProperty::Date);
    update(&mut m, key(KeyCode::Char('x')));
    assert_eq!(m.filter_text, "");
    update(&mut m, key(KeyCode::Char('/')));
    assert_eq!(m.mode, Mode::Filter);
}

#[test]
fn resize_reclamps_the_list() {
    let mut m = model();
    for _ in 0..3 {
        update(&mut m, key(KeyCode::Down));
    }
    assert_eq!((m.list_view.cursor_index, m.list_view.first_viewable_index), (3, 0));
    assert!(matches!(update(&mut m, Event::Resize(50, 8)), UpdateResult::Continue));
    assert_eq!((m.cols, m.rows, m.list_view.max_items_visible), (50, 8, 2));
    assert_eq!((m.list_view.cursor_index, m.list_view.first_viewable_index), (1, 0));
    update(&mut m, Event::Resize(50, 3));
    assert_eq!(m.list_view.max_items_visible, 1);
    update(&mut m, Event::Other);
    assert_eq!(m.list_view.max_items_visible, 1);
}
