use std::cmp::Ordering;
use fmin::{sort_entries, sort_listing, Entry, FileDate, FileName, FileProperty, FileSize, SortOrder};

fn file(name: &str, size: Option<u64>, secs: Option<i64>) -> Entry {
    Entry {
        path: format!("/d/{}", name),
        is_dir: false,
        name: FileName(name.to_string()),
        size: size.map(FileSize),
        date: secs.map(|s| FileDate { secs: s, nanos: 0 }),
    }
}

fn dir(name: &str) -> Entry {
    Entry {
        path: format!("/d/{}", name.trim_end_matches('/')),
        is_dir: true,
        name: FileName(name.to_string()),
        size: None,
        date: Some(FileDate { secs: 5, nanos: 0 }),
    }
}

fn names(v: &[Entry]) -> Vec<String> {
    v.iter().map(|e| e.name.0.clone()).collect()
}

fn order(p: FileProperty, ascending: bool) -> SortOrder {
    SortOrder { fileproperty: p, ascending }
}

#[test]
fn directory_before_file_by_name() {
    let entries = vec![file("b.txt", Some(3), Some(1)), dir("A/")];
    let sorted = sort_entries(&entries, order(FileProperty::Name, true));
    assert_eq!(names(&sorted), vec!["A/", "b.txt"]);
    let listed = sort_listing(entries, order(FileProperty::Name, true));
    assert_eq!(names(&listed), vec!["A/", "b.txt"]);
}

#[test]
fn name_order_groups_and_ignores_case() {
    let entries = vec![
        file("zeta.md", None, None),
        dir("beta/"),
        file("Alpha.txt", None, None),
        dir("Zoo/"),
        file("alpha2.txt", None, None),
        dir("apple/"),
    ];
    let sorted = sort_entries(&entries, order(FileProperty::Name, true));
    assert_eq!(
        names(&sorted),
        vec!["apple/", "beta/", "Zoo/", "Alpha.txt", "alpha2.txt", "zeta.md"]
    );
    let listed = sort_listing(entries, order(FileProperty::Name, true));
    assert_eq!(names(&listed), names(&sorted));
}

#[test]
fn descending_name_reverses_the_whole_order() {
    let entries = vec![file("b", None, None), dir("a/"), file("c", None, None)];
    let sorted = sort_entries(&entries, order(FileProperty::Name, false));
    assert_eq!(names(&sorted), vec!["c", "b", "a/"]);
    let listed = sort_listing(entries, order(FileProperty::Name, false));
    assert_eq!(names(&listed), vec!["c", "b", "a/"]);
}

#[test]
fn missing_size_sorts_first() {
    let entries = vec![
        file("big", Some(1000), None),
        file("none", None, None),
        file("small", Some(2), None),
        dir("d/"),
    ];
    let sorted = sort_entries(&entries, order(FileProperty::Size, true));
    let n = names(&sorted);
    assert_eq!(&n[2..], &["small".to_string(), "big".to_string()]);
    assert!(n[..2].contains(&"none".to_string()) && n[..2].contains(&"d/".to_string()));
    let desc = sort_entries(&entries, order(FileProperty::Size, false));
    assert_eq!(&names(&desc)[..2], &["big".to_string(), "small".to_string()]);
}

#[test]
fn missing_date_sorts_first_then_chronological() {
    let mut late = file("late", None, Some(100));
    late.date = Some(FileDate { secs: 100, nanos: 7 });
    let entries = vec![
        late,
        file("early", None, Some(-5)),
        file("undated", None, None),
        file("same_second", None, Some(100)),
    ];
    let sorted = sort_entries(&entries, order(FileProperty::Date, true));
    assert_eq!(names(&sorted), vec!["undated", "early", "same_second", "late"]);
    let listed = sort_listing(entries, order(FileProperty::Date, true));
    assert_eq!(names(&listed), vec!["undated", "early", "same_second", "late"]);
}

#[test]
fn equal_keys_keep_their_order_before_reversal() {
    let entries = vec![file("x", Some(1), None), file("y", Some(1), None), file("z", Some(1), None)];
    let sorted = sort_entries(&entries, order(FileProperty::Size, true));
    assert_eq!(names(&sorted), vec!["x", "y", "z"]);
    let desc = sort_entries(&entries, order(FileProperty::Size, false));
    assert_eq!(names(&desc), vec!["z", "y", "x"]);
}

#[test]
fn sorting_keeps_every_entry() {
    let entries: Vec<Entry> = Vec::new();
    assert!(sort_entries(&entries, order(FileProperty::Name, true)).is_empty());
    assert!(sort_listing(Vec::new(), order(FileProperty::Date, false)).is_empty());
    let many: Vec<Entry> = (0..40).map(|i| file(&format!("f{:02}", (i * 7) % 40), Some(i), None)).collect();
    let sorted = sort_listing(many, order(FileProperty::Name, true));
    let expected: Vec<String> = (0..40).map(|i| format!("f{:02}", i)).collect();
    assert_eq!(names(&sorted), expected);
}

#[test]
fn compare_entries_by_each_attribute() {
    let a = file("Apple", Some(1), Some(9));
    let b = file("banana", Some(2), Some(3));
    let d = dir("zed/");
    let name = order(FileProperty::Name, true);
    assert_eq!(name.compare_entries(&a, &b), Ordering::Less);
    assert_eq!(name.compare_entries(&d, &a), Ordering::Less);
    assert_eq!(name.compare_entries(&a, &d), Ordering::Greater);
    assert_eq!(name.compare_entries(&a, &file("APPLE", None, None)), Ordering::Equal);
    let size = order(FileProperty::Size, true);
    assert_eq!(size.compare_entries(&b, &a), Ordering::Greater);
    assert_eq!(size.compare_entries(&d, &a), Ordering::Less);
    let date = order(FileProperty::Date, false);
    assert_eq!(date.compare_entries(&a, &b), Ordering::Greater);
}

#[test]
fn descending_is_the_reversed_ascending_order() {
    let entries = vec![
        file("p", Some(5), None),
        file("q", Some(1), None),
        file("r", Some(5), None),
        file("s", None, None),
        file("t", Some(1), None),
    ];
    let asc = sort_entries(&entries, order(FileProperty::Size, true));
    assert_eq!(names(&asc), vec!["s", "q", "t", "p", "r"]);
    let mut rev = names(&asc);
    rev.reverse();
    let desc = sort_entries(&entries, order(FileProperty::Size, false));
    assert_eq!(names(&desc), rev);
}

#[test]
fn entry_from_listing_parts() {
    let d = Entry::new("/w/src".to_string(), true, "src".to_string(), Some(4096), Some(FileDate { secs: 1, nanos: 2 }));
    assert_eq!(d.name.0, "src/");
    assert!(d.is_dir && d.size.is_none());
    assert_eq!(d.date, Some(FileDate { secs: 1, nanos: 2 }));
    let f = Entry::new("/w/a.txt".to_string(), false, "a.txt".to_string(), Some(12), None);
    assert_eq!((f.name.0.as_str(), f.size, f.path.as_str()), ("a.txt", Some(FileSize(12)), "/w/a.txt"));
}
