use skip_if_tree_ok_in_past::skip_file::{parse_skip_flag, render_skip_flag};
use std::io::{Read, Write};

#[test]
fn the_flag_file_content_is_the_bare_boolean_text() {
    assert_eq!(render_skip_flag(true), "true");
    assert_eq!(render_skip_flag(false), "false");
}

#[test]
fn only_the_exact_flag_texts_are_verdicts() {
    assert_eq!(parse_skip_flag("true"), Some(true));
    assert_eq!(parse_skip_flag("false"), Some(false));
    assert_eq!(parse_skip_flag(""), None);
    assert_eq!(parse_skip_flag("true\n"), None);
    assert_eq!(parse_skip_flag("TRUE"), None);
    assert_eq!(parse_skip_flag("falsey"), None);
}

#[test]
fn a_written_verdict_reads_back_unchanged() {
    assert_eq!(parse_skip_flag(&render_skip_flag(true)), Some(true));
    assert_eq!(parse_skip_flag(&render_skip_flag(false)), Some(false));
}

#[test]
fn a_verdict_survives_the_round_trip_through_a_file() {
    for value in [true, false] {
        let mut file = tempfile::NamedTempFile::new().unwrap();
        file.write_all(render_skip_flag(value).as_bytes()).unwrap();
        file.flush().unwrap();
        let mut content = String::new();
        file.reopen().unwrap().read_to_string(&mut content).unwrap();
        assert_eq!(parse_skip_flag(&content), Some(value));
    }
}
