use fmin::{increment_history, parse_history, parse_record, History, HistoryError};

#[test]
fn history_file_loads_and_counts_a_visit() {
    let mut h = match parse_history("3,/home/x\n10,/home/y") {
        Ok(h) => h,
        Err(e) => panic!("unexpected {:?}", e),
    };
    assert_eq!(h.frequency("/home/x"), Some(3));
    assert_eq!(h.frequency("/home/y"), Some(10));
    assert_eq!(h.frequency("/home/z"), None);
    increment_history(&mut h, "/home/x".to_string());
    assert_eq!(h.frequency("/home/x"), Some(4));
    assert_eq!(h.frequency("/home/y"), Some(10));
}

#[test]
fn first_visit_counts_one() {
    let mut h = History::new();
    increment_history(&mut h, "/a".to_string());
    assert_eq!(h.frequency("/a"), Some(1));
    increment_history(&mut h, "/a".to_string());
    increment_history(&mut h, "/b".to_string());
    assert_eq!(h.frequency("/a"), Some(2));
    assert_eq!(h.frequency("/b"), Some(1));
}

#[test]
fn count_stops_at_the_largest_value() {
    let text = format!("{},/top", usize::MAX);
    let mut h = parse_history(&text).ok().unwrap();
    increment_history(&mut h, "/top".to_string());
    assert_eq!(h.frequency("/top"), Some(usize::MAX));
}

#[test]
fn path_keeps_everything_after_first_comma() {
    let h = parse_history("7,/a,b,c\n2,").ok().unwrap();
    assert_eq!(h.frequency("/a,b,c"), Some(7));
    assert_eq!(h.frequency(""), Some(2));
    let r = parse_record("12").unwrap();
    assert_eq!((r.path.as_str(), r.frequency), ("", 12));
    let r = parse_record("0,/z").unwrap();
    assert_eq!((r.path.as_str(), r.frequency), ("/z", 0));
}

#[test]
fn empty_text_and_trailing_newline() {
    let h = parse_history("").ok().unwrap();
    assert_eq!(h.frequency(""), None);
    let h = parse_history("5,/p\n").ok().unwrap();
    assert_eq!(h.frequency("/p"), Some(5));
    assert_eq!(h.frequency(""), None);
}

#[test]
fn later_line_wins() {
    let h = parse_history("1,/p\n9,/q\n4,/p").ok().unwrap();
    assert_eq!(h.frequency("/p"), Some(4));
    assert_eq!(h.frequency("/q"), Some(9));
}

#[test]
fn bad_lines_are_errors() {
    for (text, bad) in [
        ("x,/p", "x,/p"),
        ("1,/a\n\n2,/b", ""),
        (",/nothing", ",/nothing"),
        ("-1,/neg", "-1,/neg"),
        ("1,/a\n12a,/b", "12a,/b"),
        ("99999999999999999999999,/big", "99999999999999999999999,/big"),
    ] {
        match parse_history(text) {
            Err(HistoryError::Parse(line)) => assert_eq!(line, bad),
            other => panic!("{:?} gave {:?}", text, other.map(|_| ())),
        }
    }
    assert!(parse_record("abc").is_none());
    assert!(parse_record("").is_none());
}

#[test]
fn stored_history_reads_back() {
    let mut h = History::new();
    for (p, n) in [("/home/x", 3usize), ("/a,b", 10), ("", 1), ("/home/x", 4), ("/c", 1234567)] {
        for _ in 0..(n % 5 + 1) {
            increment_history(&mut h, p.to_string());
        }
    }
    let text = h.to_text();
    let back = parse_history(&text).ok().unwrap();
    for p in ["/home/x", "/a,b", "", "/c", "/missing"] {
        assert_eq!(back.frequency(p), h.frequency(p));
    }
    assert_eq!(text.lines().count(), 4);
}

#[test]
fn text_has_one_line_per_path() {
    let h = parse_history("3,/home/x").ok().unwrap();
    assert_eq!(h.to_text(), "3,/home/x");
    let mut h2 = parse_history("10,/y\n3,/x").ok().unwrap();
    increment_history(&mut h2, "/x".to_string());
    let text = h2.to_text();
    let mut lines: Vec<&str> = text.split('\n').collect();
    lines.sort();
    assert_eq!(lines, vec!["10,/y", "4,/x"]);
    assert_eq!(History::new().to_text(), "");
}

#[test]
fn plus_sign_before_the_number() {
    let r = parse_record("+5,/x").unwrap();
    assert_eq!((r.path.as_str(), r.frequency), ("/x", 5));
    let h = parse_history("+12,/a\n3,/b").ok().unwrap();
    assert_eq!(h.frequency("/a"), Some(12));
    assert!(parse_record("+,/x").is_none());
    assert!(parse_record("++5,/x").is_none());
    assert!(parse_record("5+,/x").is_none());
    match parse_history("1,/a\n+,/b") {
        Err(HistoryError::Parse(line)) => assert_eq!(line, "+,/b"),
        _ => panic!("expected a parse error"),
    }
}

#[test]
fn crlf_line_endings() {
    let h = parse_history("3,/home/x\r\n10,/home/y\r\n").ok().unwrap();
    assert_eq!(h.frequency("/home/x"), Some(3));
    assert_eq!(h.frequency("/home/y"), Some(10));
    let last = parse_history("3,/a\r\n4,/b\r").ok().unwrap();
    assert_eq!(last.frequency("/b\r"), Some(4));
    match parse_history("3,/a\r\nx\r\n") {
        Err(HistoryError::Parse(line)) => assert_eq!(line, "x"),
        _ => panic!("expected a parse error"),
    }
}
