use move_to_ts::string_set::StringSet;
use move_to_ts::text::{comes_before, join_lines, same_text};

#[test]
fn strings_are_ordered_character_by_character() {
    assert!(comes_before("", "a"));
    assert!(comes_before("a", "ab"));
    assert!(comes_before("ab", "b"));
    assert!(comes_before("Z", "a"));
    assert!(!comes_before("b", "ab"));
    assert!(!comes_before("ab", "ab"));
    assert!(!comes_before("", ""));
    assert!(!comes_before("ab", "a"));
    assert!(comes_before("z", "é"));
}

#[test]
fn set_is_walked_in_order_and_holds_each_string_once() {
    let mut set = StringSet::new();
    for s in ["table", "coin", "vector", "coin", "account", "table"] {
        set.insert(s);
    }
    assert_eq!(set.names(), &vec!["account", "coin", "table", "vector"]);
    assert!(StringSet::new().names().is_empty());
}

#[test]
fn the_order_of_insertion_does_not_matter() {
    let mut a = StringSet::new();
    let mut b = StringSet::new();
    for s in ["x", "y", "z"] {
        a.insert(s);
    }
    for s in ["z", "x", "y", "x"] {
        b.insert(s);
    }
    assert_eq!(a.names(), b.names());
}

#[test]
fn lines_are_joined_with_line_feeds() {
    assert_eq!(join_lines(&vec![]), "");
    assert_eq!(join_lines(&vec!["a".to_string()]), "a");
    assert_eq!(join_lines(&vec!["a".to_string(), "".to_string(), "b".to_string()]), "a\n\nb");
}

#[test]
fn same_text_compares_characters() {
    assert!(same_text("std", "std"));
    assert!(!same_text("std", "Std"));
    assert!(!same_text("std", "std "));
}
