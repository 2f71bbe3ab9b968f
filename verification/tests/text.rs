use stig::text::{push_decimal, to_chars};

#[test]
fn to_chars_gives_the_characters() {
    assert_eq!(to_chars("héllo"), vec!['h', 'é', 'l', 'l', 'o']);
    assert!(to_chars("").is_empty());
}

#[test]
fn push_decimal_writes_base_ten() {
    for n in [0usize, 1, 9, 10, 11, 99, 100, 101, 12345, usize::MAX] {
        let mut s = String::from("n=");
        push_decimal(&mut s, n);
        assert_eq!(s, format!("n={}", n));
    }
}
