use bookweald_rs::alias::person_from_string_exn;
use bookweald_rs::book::{book_create, book_create_exn, book_digest, book_digest_checked, book_md5, digest_input, Book};
use bookweald_rs::person::{name_part_has_letter, normalize, person_create, person_create_exn};

fn s(x: &str) -> Option<String> {
    Some(x.to_string())
}

#[test]
fn normalize_joins_the_surviving_parts_in_order() {
    assert_eq!(
        normalize(&s("толстой"), &s("лев"), &s("николаевич")),
        s("Толстой Лев Николаевич")
    );
    assert_eq!(normalize(&s("толстой"), &s("123"), &s("николаевич")), s("Толстой Николаевич"));
    assert_eq!(normalize(&None, &s("лев"), &None), s("Лев"));
    assert!(person_create(&s("!!"), &None, &s("--")).is_none());
    assert!(person_create(&None, &None, &None).is_none());
}

#[test]
fn a_name_part_has_a_letter_in_one_of_its_pieces() {
    assert!(name_part_has_letter(&s("123-лев")));
    assert!(name_part_has_letter(&s("ёж")));
    assert!(!name_part_has_letter(&s("12-34")));
    assert!(!name_part_has_letter(&None));
}

#[test]
fn person_create_sets_the_id_and_keeps_the_names() {
    let p = person_create_exn(&s("щепкина-куперник"), &s("татьяна"), &None);
    assert_eq!(p.id, "Щепкина-Куперник Татьяна");
    assert_eq!(p.last_name, s("щепкина-куперник"));
    assert_eq!(p.first_name, s("татьяна"));
    assert_eq!(p.middle_name, None);
    assert!(person_create(&s("1"), &s("2"), &s("3")).is_none());
    assert_eq!(person_create(&s("ёлкин"), &None, &None).unwrap().id, "Елкин");
}

fn authors() -> Vec<bookweald_rs::person::Person> {
    vec![person_from_string_exn("Толстой Лев"), person_from_string_exn("Пушкин")]
}

#[test]
fn book_create_keeps_the_fields() {
    let b = book_create_exn(
        "Название".to_string(),
        authors(),
        s("1"),
        s("2"),
        s("ru"),
        s("prose"),
        "file".to_string(),
        "UTF-8".to_string(),
    );
    assert_eq!(b.title, "Название");
    assert_eq!(b.authors.len(), 2);
    assert_eq!(b.ext_id, s("1"));
    assert_eq!(b.version, s("2"));
    assert_eq!(b.lang, s("ru"));
    assert_eq!(b.genre, s("prose"));
    assert_eq!(b.filename, "file");
    assert_eq!(b.encoding, "UTF-8");
}

#[test]
fn book_create_refuses_a_title_without_letters() {
    let b = book_create(
        "1984".to_string(),
        vec![],
        None,
        None,
        None,
        None,
        "f".to_string(),
        "UTF-8".to_string(),
    );
    assert!(b.is_none());
}

#[test]
fn digest_hashes_title_ids_and_authors() {
    let b = book_create_exn(
        "Название".to_string(),
        authors(),
        s("1"),
        s("2"),
        None,
        None,
        "file".to_string(),
        "UTF-8".to_string(),
    );
    assert_eq!(digest_input(&b), "Название12Толстой ЛевПушкин");
    assert_eq!(book_digest(&b), "d2018dcede8e4e2e62be9b90fd97f36a");
    assert_eq!(hex::encode(book_md5(&b)), "d2018dcede8e4e2e62be9b90fd97f36a");
}

#[test]
fn digest_uses_the_normalized_title_and_ignores_other_fields() {
    let a = book_create_exn(
        "лев".to_string(),
        vec![],
        s("x"),
        None,
        s("ru"),
        None,
        "a".to_string(),
        "UTF-8".to_string(),
    );
    let b = book_create_exn(
        " ЛЕВ!".to_string(),
        vec![],
        s("x"),
        None,
        None,
        s("poetry"),
        "b".to_string(),
        "KOI8-R".to_string(),
    );
    assert_eq!(book_digest(&a), "433c8130f1b57a76d24c38619c435cdc");
    assert_eq!(book_digest(&a), book_digest(&b));
    assert_eq!(book_digest(&a).len(), 32);
}

#[test]
fn checked_digest_refuses_a_title_without_letters() {
    let b = Book {
        ext_id: None,
        version: None,
        title: "1984".to_string(),
        authors: vec![],
        lang: None,
        genre: None,
        filename: "f".to_string(),
        encoding: "UTF-8".to_string(),
    };
    assert_eq!(book_digest_checked(&b), None);
    let a = book_create_exn(
        "лев".to_string(),
        vec![],
        s("x"),
        None,
        s("ru"),
        None,
        "a".to_string(),
        "UTF-8".to_string(),
    );
    assert_eq!(book_digest_checked(&a).as_deref(), Some("433c8130f1b57a76d24c38619c435cdc"));
}
