use bookweald_rs::alias::{
    alias_table_from, alias_table_from_json, person_from_string, person_from_string_exn, AliasFileError, AliasTable,
};

#[test]
fn test_person_from_string_exn() {
    let p1 = person_from_string_exn(" Толстой Лев Николаевич\t");
    assert_eq!(p1.id, "Толстой Лев Николаевич");
    assert_eq!(p1.last_name, Some("Толстой".to_string()));
    assert_eq!(p1.first_name, Some("Лев".to_string()));
    assert_eq!(p1.middle_name, Some("Николаевич".to_string()));

    let p2 = person_from_string_exn("   Достоевский   ");
    assert_eq!(p2.id, "Достоевский");

    let p3 = person_from_string_exn("Pushkin Alexander");
    assert_eq!(p3.id, "Pushkin Alexander");
}

#[test]
fn person_from_string_refuses_four_words() {
    assert!(person_from_string("Too Many Names Here").is_none());
}

#[test]
fn person_from_string_refuses_blank_text() {
    assert!(person_from_string("  \t\n").is_none());
}

#[test]
fn person_from_string_refuses_names_without_letters() {
    assert!(person_from_string("123 456").is_none());
}

#[test]
fn person_from_string_accepts_what_the_exn_version_accepts() {
    let p = person_from_string("пушкин  александр сергеевич").unwrap();
    assert_eq!(p.id, "Пушкин Александр Сергеевич");
    assert_eq!(p.last_name, Some("пушкин".to_string()));
    assert_eq!(p.first_name, Some("александр".to_string()));
    assert_eq!(p.middle_name, Some("сергеевич".to_string()));
}

#[test]
fn alias_table_gives_back_the_canonical_person() {
    let canonical = person_from_string_exn("Толстой Лев Николаевич");
    let mut table = AliasTable::new();
    table.add_alias("  Л. Н. Толстой ", &canonical);
    table.add_alias("   ", &canonical);
    let found = table.get("Л. Н. Толстой").unwrap();
    assert_eq!(found.id, "Толстой Лев Николаевич");
    assert_eq!(found.first_name, Some("Лев".to_string()));
    assert!(table.get("   ").is_none());
    assert!(table.get("").is_none());
    assert!(table.get("  Л. Н. Толстой ").is_none());
}

#[test]
fn alias_table_later_alias_replaces_earlier() {
    let a = person_from_string_exn("Толстой Лев");
    let b = person_from_string_exn("Толстой Алексей");
    let mut table = AliasTable::new();
    table.add_alias("Толстой", &a);
    table.add_alias("Толстой", &b);
    assert_eq!(table.get("Толстой").unwrap().id, "Толстой Алексей");
}

#[test]
fn builds_the_alias_table_from_the_members_of_an_alias_file() {
    let entries: Vec<(String, Option<Vec<Option<String>>>)> = vec![
        (
            "Толстой Лев Николаевич".to_string(),
            Some(vec![Some("Толстой Лев".to_string()), None, Some("   ".to_string()), Some(" Л. Толстой ".to_string())]),
        ),
        ("Too Many Names Here".to_string(), None),
    ];
    let table = alias_table_from(&entries).unwrap();
    assert_eq!(table.get("Толстой Лев").unwrap().id, "Толстой Лев Николаевич");
    assert_eq!(table.get("Л. Толстой").unwrap().middle_name.as_deref(), Some("Николаевич"));
    assert!(table.get("").is_none());
    assert!(table.get("Too Many Names Here").is_none());
}

#[test]
fn refuses_an_alias_file_whose_canonical_name_names_no_person() {
    let entries: Vec<(String, Option<Vec<Option<String>>>)> = vec![
        ("Пушкин".to_string(), Some(vec![])),
        ("Too Many Names Here".to_string(), Some(vec![Some("x".to_string())])),
        ("123".to_string(), Some(vec![])),
    ];
    match alias_table_from(&entries) {
        Err(AliasFileError::NotAPerson { name }) => assert_eq!(name, "Too Many Names Here"),
        _ => panic!("not refused for its word count"),
    }
    let empty: Vec<(String, Option<Vec<Option<String>>>)> = vec![("123 456".to_string(), Some(vec![]))];
    match alias_table_from(&empty) {
        Err(AliasFileError::EmptyName { name }) => assert_eq!(name, "123 456"),
        _ => panic!("not refused for an empty name"),
    }
}

#[test]
fn reads_an_alias_file_from_its_json_text() {
    let text = r#"{"Толстой Лев Николаевич": ["Толстой Лев", 7, " Л. Толстой "], "ignored": "not a list"}"#;
    let table = alias_table_from_json(text.as_bytes()).unwrap();
    assert_eq!(table.get("Толстой Лев").unwrap().id, "Толстой Лев Николаевич");
    assert_eq!(table.get("Л. Толстой").unwrap().id, "Толстой Лев Николаевич");
    assert!(table.get("ignored").is_none());
}

#[test]
fn refuses_alias_files_that_are_not_json_objects_of_persons() {
    assert!(matches!(alias_table_from_json(b"{not json"), Err(AliasFileError::InvalidJson { .. })));
    assert!(matches!(alias_table_from_json(b"[1, 2]"), Err(AliasFileError::NotAnObject)));
    match alias_table_from_json("{\"One Two Three Four\": []}".as_bytes()) {
        Err(AliasFileError::NotAPerson { name }) => assert_eq!(name, "One Two Three Four"),
        _ => panic!("not refused"),
    }
    assert!(matches!(alias_table_from_json(b"{\"1 2\": [\"x\"]}"), Err(AliasFileError::EmptyName { .. })));
}
