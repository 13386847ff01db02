use bookweald_rs::blacklist::{blacklist_line, blacklisted, parse_blacklist, BlacklistError, BlacklistTable};

#[test]
fn a_blacklist_file_maps_names_to_comments() {
    let t = parse_blacklist("book1|not well-formed\nbook2|bad|extra\n").unwrap();
    assert_eq!(t.len(), 2);
    assert!(t.contains("book1"));
    assert!(t.contains("book2"));
    assert!(!t.contains("book3"));
}

#[test]
fn a_comment_line_ends_the_table() {
    let t = parse_blacklist("a|1\n# comment\nb|2\n").unwrap();
    assert!(t.contains("a"));
    assert!(!t.contains("b"));
}

#[test]
fn a_line_without_bar_is_refused() {
    match parse_blacklist("a|1\nno bar here\nb|2\n") {
        Err(BlacklistError::InvalidLine { line }) => assert_eq!(line, "no bar here\n"),
        Ok(_) => panic!("accepted"),
    }
    assert!(parse_blacklist("a|1\n\n").is_err());
    assert_eq!(parse_blacklist("").unwrap().len(), 0);
}

#[test]
fn the_predicate_tests_the_file_prefix() {
    let t = parse_blacklist("book1|bad\n").unwrap();
    let list = blacklisted(Some(t));
    assert!(list.is_blacklisted("/library/book1.fb2"));
    assert!(list.is_blacklisted("/library/book1.fb2.zip"));
    assert!(!list.is_blacklisted("/library/book2.fb2"));
    assert!(!list.is_blacklisted("/"));
    assert!(!blacklisted(None).is_blacklisted("/library/book1.fb2"));
    assert!(!blacklisted(Some(BlacklistTable::new())).is_blacklisted("book1.fb2"));
}

#[test]
fn table_insert_replaces() {
    let mut t = BlacklistTable::new();
    t.insert("a".to_string(), "1".to_string());
    t.insert("a".to_string(), "2".to_string());
    assert_eq!(t.len(), 1);
    assert!(t.contains("a"));
}

#[test]
fn a_written_line_is_read_back() {
    let line = blacklist_line("/library/book1.fb2.zip", "not well-formed").unwrap();
    assert_eq!(line, "book1|not well-formed\n");
    let list = blacklisted(Some(parse_blacklist(&line).unwrap()));
    assert!(list.is_blacklisted("/elsewhere/book1.fb2"));
    assert_eq!(blacklist_line("/", "x"), None);
}
