use regls::path::split_path;
use regls::render::indent;

#[test]
fn single_segment_path_is_one_segment() {
    assert_eq!(split_path("A"), vec!["A".to_owned()]);
}

#[test]
fn slash_delimited_path_splits_into_segments() {
    assert_eq!(split_path("A/C"), vec!["A".to_owned(), "C".to_owned()]);
}

#[test]
fn empty_string_splits_into_one_empty_segment() {
    assert_eq!(split_path(""), vec!["".to_owned()]);
}

#[test]
fn trailing_and_doubled_separators_keep_empty_segments() {
    assert_eq!(split_path("A/"), vec!["A".to_owned(), "".to_owned()]);
    assert_eq!(
        split_path("A//B"),
        vec!["A".to_owned(), "".to_owned(), "B".to_owned()]
    );
    assert_eq!(split_path("/A"), vec!["".to_owned(), "A".to_owned()]);
}

#[test]
fn longer_path_splits_in_order() {
    assert_eq!(
        split_path("Software/Microsoft/Windows"),
        vec![
            "Software".to_owned(),
            "Microsoft".to_owned(),
            "Windows".to_owned()
        ]
    );
}

#[test]
fn indent_is_two_spaces_per_level() {
    assert_eq!(indent(0), "".to_owned());
    assert_eq!(indent(1), "  ".to_owned());
    assert_eq!(indent(3), "      ".to_owned());
}
