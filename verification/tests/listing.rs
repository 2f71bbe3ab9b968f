use stig::listing::{project_info, select_names, Entry, EntryKind};

fn entry(name: &str, kind: EntryKind) -> Entry {
    Entry { name: name.to_string(), kind }
}

#[test]
fn listing_separates_and_sorts() {
    let entries = vec![
        entry("src", EntryKind::Directory),
        entry("b.md", EntryKind::File),
        entry("a.md", EntryKind::File),
        entry("docs", EntryKind::Directory),
        entry("dangling", EntryKind::Other),
        entry("Zeta.txt", EntryKind::File),
    ];
    let info = project_info(&entries);
    assert_eq!(info.files, vec!["Zeta.txt", "a.md", "b.md"]);
    assert_eq!(info.directories, vec!["docs", "src"]);
}

#[test]
fn listing_of_empty_directory_is_empty() {
    let info = project_info(&Vec::new());
    assert!(info.files.is_empty());
    assert!(info.directories.is_empty());
}

#[test]
fn listing_lists_are_disjoint_for_distinct_names() {
    let entries = vec![
        entry("a", EntryKind::File),
        entry("b", EntryKind::Directory),
        entry("c", EntryKind::File),
        entry("d", EntryKind::Directory),
    ];
    let info = project_info(&entries);
    for file in info.files.iter() {
        assert!(!info.directories.contains(file));
    }
    assert_eq!(info.files.len() + info.directories.len(), 4);
}

#[test]
fn listing_twice_gives_the_same_lists() {
    let entries = vec![
        entry("z", EntryKind::File),
        entry("y", EntryKind::Directory),
        entry("x", EntryKind::File),
    ];
    let first = project_info(&entries);
    let second = project_info(&entries);
    assert_eq!(first.files, second.files);
    assert_eq!(first.directories, second.directories);
}

#[test]
fn listing_does_not_depend_on_the_order_of_the_entries() {
    let forward = vec![
        entry("one", EntryKind::File),
        entry("two", EntryKind::File),
        entry("three", EntryKind::Directory),
    ];
    let backward = vec![
        entry("three", EntryKind::Directory),
        entry("two", EntryKind::File),
        entry("one", EntryKind::File),
    ];
    let a = project_info(&forward);
    let b = project_info(&backward);
    assert_eq!(a.files, b.files);
    assert_eq!(a.directories, b.directories);
    assert_eq!(a.files, vec!["one", "two"]);
}

#[test]
fn listing_orders_as_the_standard_sort_does() {
    let names = ["é.txt", "z.txt", "a.txt", "A.txt", "10", "9", "", "a", "ab", "日本", "~"];
    let entries: Vec<Entry> = names.iter().map(|n| entry(n, EntryKind::File)).collect();
    let info = project_info(&entries);
    let mut expected: Vec<String> = names.iter().map(|n| n.to_string()).collect();
    expected.sort();
    assert_eq!(info.files, expected);
}

#[test]
fn select_names_keeps_the_order_of_the_entries() {
    let entries = vec![
        entry("b", EntryKind::File),
        entry("d", EntryKind::Directory),
        entry("a", EntryKind::File),
    ];
    assert_eq!(select_names(&entries, EntryKind::File), vec!["b", "a"]);
    assert_eq!(select_names(&entries, EntryKind::Directory), vec!["d"]);
    assert!(select_names(&entries, EntryKind::Other).is_empty());
}
