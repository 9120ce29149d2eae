use silvapi::sorting::{sort_texts, text_less};

#[test]
fn names_sort_like_str() {
    let names: Vec<String> = ["b", "Ab", "a", "ab", "", "é", "a"].iter().map(|s| s.to_string()).collect();
    let mut expected = names.clone();
    expected.sort();
    assert_eq!(sort_texts(names), expected);
    assert!(text_less("a", "ab"));
    assert!(!text_less("ab", "a"));
    assert!(!text_less("x", "x"));
    assert!(text_less("Z", "a"));
}
