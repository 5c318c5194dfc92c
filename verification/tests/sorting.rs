use local_code::sorting::{less_than, sort_dedup, sort_strings};

#[test]
fn strings_sort_by_character() {
    let v = vec!["b".to_string(), "a".to_string(), "B".to_string(), "ab".to_string(), "a".to_string()];
    assert_eq!(sort_strings(v.clone()), vec!["B", "a", "a", "ab", "b"]);
    assert_eq!(sort_dedup(v), vec!["B", "a", "ab", "b"]);
    let a: Vec<char> = "abc".chars().collect();
    let b: Vec<char> = "abd".chars().collect();
    assert!(less_than(&a, &b));
    assert!(!less_than(&b, &a));
    assert!(!less_than(&a, &a));
}
