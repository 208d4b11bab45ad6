use bathpack::text::{comes_before, join_texts, same_text};

#[test]
fn same_text_compares_characters() {
    assert!(same_text("abc", "abc"));
    assert!(same_text("", ""));
    assert!(!same_text("abc", "abd"));
    assert!(!same_text("abc", "ab"));
    assert!(!same_text("", "a"));
}

#[test]
fn comes_before_is_lexicographic() {
    assert!(comes_before("a", "b"));
    assert!(comes_before("a", "ab"));
    assert!(comes_before("", "a"));
    assert!(comes_before("ab", "b"));
    assert!(comes_before("Z", "a"));
    assert!(!comes_before("b", "a"));
    assert!(!comes_before("ab", "a"));
}

#[test]
fn comes_before_is_strict() {
    assert!(!comes_before("a", "a"));
    assert!(!comes_before("", ""));
}

#[test]
fn comes_before_agrees_with_the_order_of_strings() {
    let words = ["", "a", "ab", "b", "test-file", "test-folder", "é", "z"];
    for x in words.iter() {
        for y in words.iter() {
            assert_eq!(comes_before(x, y), x < y);
        }
    }
}

#[test]
fn join_texts_puts_the_separator_between() {
    let parts = vec!["a".to_string(), "b".to_string(), "c".to_string()];
    assert_eq!(join_texts(&parts, ", "), "a, b, c");
    assert_eq!(join_texts(&vec!["a".to_string()], ", "), "a");
    assert_eq!(join_texts(&Vec::new(), ", "), "");
}
