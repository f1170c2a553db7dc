use hudi_partition::text::{
    eq_ignore_ascii_case, find_char, hive_segment_value, split_char, str_eq,
};

#[test]
fn split_keeps_empty_parts() {
    assert_eq!(split_char("a/b/c", '/'), vec!["a", "b", "c"]);
    assert_eq!(split_char("", '/'), vec![""]);
    assert_eq!(split_char("/", '/'), vec!["", ""]);
    assert_eq!(split_char("a//b/", '/'), vec!["a", "", "b", ""]);
    assert_eq!(split_char("é/ü", '/'), vec!["é", "ü"]);
}

#[test]
fn hive_segment_takes_first_equals() {
    assert_eq!(hive_segment_value("date=2023-02-01", "date"), Some("2023-02-01".to_string()));
    assert_eq!(hive_segment_value("k=a=b", "k"), Some("a=b".to_string()));
    assert_eq!(hive_segment_value("k=", "k"), Some(String::new()));
    assert_eq!(hive_segment_value("date", "date"), None);
    assert_eq!(hive_segment_value("day=1", "date"), None);
    assert_eq!(hive_segment_value("a=b=c", "a=b"), None);
}

#[test]
fn character_helpers() {
    assert_eq!(find_char("ab=c=", '='), Some(2));
    assert_eq!(find_char("abc", '='), None);
    assert!(str_eq("abc", "abc"));
    assert!(!str_eq("abc", "abd"));
    assert!(!str_eq("ab", "abc"));
    assert!(eq_ignore_ascii_case("HeLLo", "hello"));
    assert!(!eq_ignore_ascii_case("hello", "hellp"));
    assert!(!eq_ignore_ascii_case("É", "é"));
}
