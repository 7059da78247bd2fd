use rspack_queue::text::join;
use rspack_queue::text::sort_strings;
use rspack_queue::text::str_lt;

#[test]
fn strings_compare_by_code_point_then_length() {
    assert!(str_lt("a", "b"));
    assert!(!str_lt("b", "a"));
    assert!(str_lt("a", "ab"));
    assert!(!str_lt("ab", "a"));
    assert!(!str_lt("", ""));
    assert!(str_lt("", "a"));
    assert!(str_lt("z", "\u{e9}"));
    assert!(str_lt("10", "9"));
}

#[test]
fn strings_sort_in_str_order() {
    let sorted = sort_strings(vec!["b".to_string(), "a".to_string(), "c".to_string(), "ab".to_string()]);
    assert_eq!(sorted, vec!["a", "ab", "b", "c"]);
    assert!(sort_strings(vec![]).is_empty());
}

#[test]
fn strings_join_with_separator() {
    assert_eq!(join(&vec!["x".to_string(), "y".to_string(), "z".to_string()], ","), "x,y,z");
    assert_eq!(join(&vec!["x".to_string()], ","), "x");
    assert_eq!(join(&vec![], ","), "");
}
