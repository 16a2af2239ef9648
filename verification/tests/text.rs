use primer::text::find_first;

#[test]
fn find_first_counts_characters() {
    assert_eq!(find_first("abc/def", '/'), 3);
    assert_eq!(find_first("/abc", '/'), 0);
    assert_eq!(find_first("a/b/c", '/'), 1);
    assert_eq!(find_first("äöü/x", '/'), 3);
}

#[test]
fn find_first_without_the_mark_is_the_length() {
    assert_eq!(find_first("abc", '/'), 3);
    assert_eq!(find_first("", '/'), 0);
    assert_eq!(find_first("äöü", 'x'), 3);
}
