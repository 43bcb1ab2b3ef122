use skip_if_tree_ok_in_past::text::{
    bool_str, join_path_str, parent_dir, parse_u32, split_spaces, str_eq, str_starts_with,
    u32_string,
};

#[test]
fn parse_u32_reads_unsigned_decimals() {
    assert_eq!(parse_u32("0"), Some(0));
    assert_eq!(parse_u32("3"), Some(3));
    assert_eq!(parse_u32("100"), Some(100));
    assert_eq!(parse_u32("+42"), Some(42));
    assert_eq!(parse_u32("007"), Some(7));
    assert_eq!(parse_u32("4294967295"), Some(u32::MAX));
}

#[test]
fn parse_u32_rejects_what_is_not_an_unsigned_decimal() {
    assert_eq!(parse_u32(""), None);
    assert_eq!(parse_u32("+"), None);
    assert_eq!(parse_u32("A"), None);
    assert_eq!(parse_u32("-1"), None);
    assert_eq!(parse_u32("12 "), None);
    assert_eq!(parse_u32("4294967296"), None);
    assert_eq!(parse_u32("99999999999999999999"), None);
}

#[test]
fn u32_string_renders_decimal() {
    assert_eq!(u32_string(0), "0");
    assert_eq!(u32_string(7), "7");
    assert_eq!(u32_string(10), "10");
    assert_eq!(u32_string(456), "456");
    assert_eq!(u32_string(100000), "100000");
    assert_eq!(u32_string(u32::MAX), "4294967295");
}

#[test]
fn bool_str_renders_the_two_literals() {
    assert_eq!(bool_str(true), "true");
    assert_eq!(bool_str(false), "false");
}

#[test]
fn str_eq_is_text_equality() {
    assert!(str_eq("abc", "abc"));
    assert!(!str_eq("abc", "abd"));
    assert!(!str_eq("abc", "ab"));
    assert!(str_eq("", ""));
}

#[test]
fn starts_with_checks_the_prefix() {
    assert!(str_starts_with("/aa/bb/cc", "/aa/bb"));
    assert!(str_starts_with("/aa", "/aa"));
    assert!(str_starts_with("/aa", ""));
    assert!(!str_starts_with("/bb/cc", "/aa"));
    assert!(!str_starts_with("/a", "/aa"));
}

#[test]
fn split_spaces_keeps_every_piece() {
    assert_eq!(split_spaces("file1 file2"), vec!["file1", "file2"]);
    assert_eq!(split_spaces("one"), vec!["one"]);
    assert_eq!(split_spaces(""), vec![""]);
    assert_eq!(split_spaces("a  b"), vec!["a", "", "b"]);
    assert_eq!(
        split_spaces("root-1 Service-A/file-A1"),
        vec!["root-1", "Service-A/file-A1"]
    );
}

#[test]
fn parent_dir_drops_the_last_component() {
    assert_eq!(parent_dir("/aa/bb"), Some("/aa".to_string()));
    assert_eq!(parent_dir("/aa/bb/"), Some("/aa".to_string()));
    assert_eq!(parent_dir("/aa"), Some("/".to_string()));
    assert_eq!(parent_dir("aa"), Some("".to_string()));
    assert_eq!(parent_dir("/"), None);
    assert_eq!(parent_dir(""), None);
}

#[test]
fn join_path_inserts_one_separator() {
    assert_eq!(join_path_str("/aa", "bb/cc"), "/aa/bb/cc");
    assert_eq!(join_path_str("/aa/", "bb"), "/aa/bb");
    assert_eq!(join_path_str("", "bb"), "bb");
    assert_eq!(join_path_str("/aa", "/bb"), "/bb");
}
