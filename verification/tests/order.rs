use stig::order::{chars_leq, name_leq, sort_names};

#[test]
fn name_leq_is_lexicographic() {
    assert!(name_leq("", ""));
    assert!(name_leq("", "a"));
    assert!(!name_leq("a", ""));
    assert!(name_leq("a", "a"));
    assert!(name_leq("a", "ab"));
    assert!(!name_leq("ab", "a"));
    assert!(name_leq("ab", "b"));
    assert!(name_leq("B", "a"));
    assert!(!name_leq("a", "B"));
    assert!(name_leq("z", "é"));
}

#[test]
fn name_leq_agrees_with_the_standard_order() {
    let names = ["", "a", "A", "ab", "b", "é", "日本", "日", "~", "a-b", "a b", "\u{10FFFF}"];
    for a in names.iter() {
        for b in names.iter() {
            assert_eq!(name_leq(a, b), a <= b);
        }
    }
}

#[test]
fn chars_leq_compares_character_by_character() {
    let a: Vec<char> = "abc".chars().collect();
    let b: Vec<char> = "abd".chars().collect();
    assert!(chars_leq(&a, &b));
    assert!(!chars_leq(&b, &a));
    assert!(chars_leq(&a, &a));
}

#[test]
fn sort_names_sorts_and_keeps_every_name() {
    let names: Vec<String> =
        ["pear", "apple", "fig", "apple", "Banana", ""].iter().map(|s| s.to_string()).collect();
    let sorted = sort_names(&names);
    assert_eq!(sorted, vec!["", "Banana", "apple", "apple", "fig", "pear"]);
}

#[test]
fn sort_names_of_nothing_is_nothing() {
    assert!(sort_names(&Vec::new()).is_empty());
}
