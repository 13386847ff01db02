use bookweald_rs::alias::{person_from_string_exn, AliasTable};
use bookweald_rs::fb2_parse::{
    book_filename, book_from_events, classify_tag, parse_book_info, Fb2Error, Tag, ZipFailure,
};
use bookweald_rs::xml::XmlEvent;

const SIMPLE: &str = r#"<?xml version="1.0" encoding="UTF-8"?>
<FictionBook>
  <description>
    <title-info>
      <genre>prose</genre>
      <author>
        <first-name>Лев</first-name>
        <last-name>Толстой</last-name>
      </author>
      <book-title>Название книжки</book-title>
      <lang>ru</lang>
    </title-info>
    <document-info>
      <id>abc-123</id>
      <version>1.1</version>
    </document-info>
  </description>
  <body><p>text</p></body>
</FictionBook>"#;

const ZIPPED: &str = "504b03041400000000001116725d694dfa8b080100000801000008000000626f6f6b2e6662323c3f786d6c2076657273696f6e3d22312e302220656e636f64696e673d225554462d38223f3e0a3c46696374696f6e426f6f6b3e3c6465736372697074696f6e3e3c7469746c652d696e666f3e3c617574686f723e3c66697273742d6e616d653ed09bd0b5d0b23c2f66697273742d6e616d653e3c6c6173742d6e616d653ed0a2d0bed0bbd181d182d0bed0b93c2f6c6173742d6e616d653e3c2f617574686f723e3c626f6f6b2d7469746c653ed09dd0b0d0b7d0b2d0b0d0bdd0b8d0b520d0bad0bdd0b8d0b6d0bad0b83c2f626f6f6b2d7469746c653e3c2f7469746c652d696e666f3e3c2f6465736372697074696f6e3e3c626f64792f3e3c2f46696374696f6e426f6f6b3e504b010214031400000000001116725d694dfa8b0801000008010000080000000000000000000000800100000000626f6f6b2e666232504b05060000000001000100360000002e0100000000";

fn parse(path: &str, xml: &str, aliases: &Option<AliasTable>) -> Result<bookweald_rs::book::Book, Fb2Error> {
    parse_book_info(path, xml.as_bytes(), aliases)
}

/// Checks a parsed book as the original success cases do: title, encoding,
/// exactly one author and the author's names.
fn check_success(
    book: &bookweald_rs::book::Book,
    title: &str,
    last_name: Option<&str>,
    first_name: Option<&str>,
    middle_name: Option<&str>,
    encoding: &str,
) {
    assert_eq!(book.title, title);
    assert_eq!(book.encoding, encoding);
    assert_eq!(book.authors.len(), 1);
    let author = &book.authors[0];
    assert_eq!(author.last_name.as_deref(), last_name);
    assert_eq!(author.first_name.as_deref(), first_name);
    assert_eq!(author.middle_name.as_deref(), middle_name);
}

fn single_byte_document(encoding: &str, first: &str, last: &str, title: &str) -> Vec<u8> {
    let mut bytes: Vec<u8> = format!(
        r#"<?xml version="1.0" encoding="{encoding}"?><FictionBook><description><title-info><author><first-name>"#
    )
    .into_bytes();
    bytes.extend(hex::decode(first).unwrap());
    bytes.extend(b"</first-name><last-name>");
    bytes.extend(hex::decode(last).unwrap());
    bytes.extend(b"</last-name></author><book-title>");
    bytes.extend(hex::decode(title).unwrap());
    bytes.extend(b"</book-title></title-info></description></FictionBook>");
    bytes
}

#[test]
fn test_parse_utf8_simple_fb2() {
    let book = parse("/books/utf8_simple.fb2", SIMPLE, &None).unwrap();
    check_success(&book, "Название книжки", Some("Толстой"), Some("Лев"), None, "UTF-8");
    assert_eq!(book.filename, "utf8_simple");
    assert_eq!(book.lang.as_deref(), Some("ru"));
    assert_eq!(book.genre.as_deref(), Some("prose"));
    assert_eq!(book.ext_id.as_deref(), Some("abc-123"));
    assert_eq!(book.version.as_deref(), Some("1.1"));
    assert_eq!(book.authors.len(), 1);
    assert_eq!(book.authors[0].id, "Толстой Лев");
    assert_eq!(book.authors[0].last_name.as_deref(), Some("Толстой"));
    assert_eq!(book.authors[0].first_name.as_deref(), Some("Лев"));
    assert_eq!(book.authors[0].middle_name, None);
}

#[test]
fn test_parse_no_xml_decl_fb2() {
    let xml = SIMPLE.replacen(r#"<?xml version="1.0" encoding="UTF-8"?>"#, "", 1);
    let book = parse("no_xml_decl.fb2", &xml, &None).unwrap();
    check_success(&book, "Название книжки", Some("Толстой"), Some("Лев"), None, "UTF-8");
}

#[test]
fn test_parse_cp1251_simple_fb2() {
    let bytes = single_byte_document("windows-1251", "cbe5e2", "d2eeebf1f2eee9", "cde0e7e2e0ede8e520eaede8e6eae8");
    let book = parse_book_info("cp1251_simple.fb2", &bytes, &None).unwrap();
    check_success(&book, "Название книжки", Some("Толстой"), Some("Лев"), None, "windows-1251");
}

#[test]
fn test_parse_koi8r_simple_fb2() {
    let bytes = single_byte_document("KOI8-R", "ecc5d7", "f4cfccd3d4cfca", "eec1dad7c1cec9c520cbcec9d6cbc9");
    let book = parse_book_info("koi8r_simple.fb2", &bytes, &None).unwrap();
    check_success(&book, "Название книжки", Some("Толстой"), Some("Лев"), None, "KOI8-R");
}

#[test]
fn test_parse_zipped_fb2() {
    let bytes = hex::decode(ZIPPED).unwrap();
    let book = parse_book_info("zipped.fb2.zip", &bytes, &None).unwrap();
    check_success(&book, "Название книжки", Some("Толстой"), Some("Лев"), None, "UTF-8");
    assert_eq!(book.filename, "zipped");
}

#[test]
fn refuses_a_zip_file_that_is_no_archive() {
    let err = parse_book_info("broken.zip", b"not a zip", &None).unwrap_err();
    assert!(matches!(err, Fb2Error::Zip { failure: ZipFailure::Archive }));
    assert_eq!(err.message(), "Failed to open ZIP archive");
}

#[test]
fn test_parse_fb2_with_aliases() {
    let mut table = AliasTable::new();
    let canonical = person_from_string_exn("Толстой Лев Николаевич");
    table.add_alias("Толстой Лев", &canonical);
    let book = parse("aliased_author.fb2", SIMPLE, &Some(table)).unwrap();
    check_success(&book, "Название книжки", Some("Толстой"), Some("Лев"), Some("Николаевич"), "UTF-8");
    assert_eq!(book.authors[0].id, "Толстой Лев Николаевич");
}

#[test]
fn test_parse_fb2_missing_title() {
    let xml = "<FictionBook><description><title-info><lang>ru</lang></title-info></description></FictionBook>";
    let err = parse("no_title.fb2", xml, &None).unwrap_err();
    assert!(err.message().contains("No <book-title> found"));
}

#[test]
fn test_parse_fb2_invalid_title() {
    let xml = "<FictionBook><description><title-info><book-title>!!! ---</book-title></title-info></description></FictionBook>";
    let err = parse("invalid_title.fb2", xml, &None).unwrap_err();
    assert!(err.message().contains("title normalizes to empty"));
    assert_eq!(err.message(), "Book title normalizes to empty: '!!! ---'");
}

#[test]
fn refuses_a_title_without_letters() {
    let xml = "<FictionBook><description><title-info><book-title>1984</book-title></title-info></description></FictionBook>";
    let err = parse("d/b.fb2", xml, &None).unwrap_err();
    assert!(matches!(err, Fb2Error::EmptyTitle { .. }));
    assert_eq!(err.message(), "Book title normalizes to empty: '1984'");
}

#[test]
fn accepts_a_title_with_digits_and_letters() {
    let xml = "<FictionBook><description><title-info><book-title>1984 год</book-title></title-info></description></FictionBook>";
    let book = parse("d/b.fb2", xml, &None).unwrap();
    assert_eq!(book.title, "1984 год");
    assert_eq!(book.filename, "b");
}

#[test]
fn names_a_book_file_without_its_extensions() {
    assert_eq!(book_filename("d/book.fb2.zip").as_deref(), Some("book"));
    assert_eq!(book_filename("d/book.fb2").as_deref(), Some("book"));
    assert_eq!(book_filename("d/a.b.fb2").as_deref(), Some("a.b"));
    assert_eq!(book_filename("d/book.zip").as_deref(), Some("book"));
    assert_eq!(book_filename("d/notes.txt.zip").as_deref(), Some("notes.txt"));
    assert_eq!(book_filename("/"), None);
}

#[test]
fn refuses_a_document_without_description() {
    let err = parse("/x/none.fb2", "<FictionBook><body/></FictionBook>", &None).unwrap_err();
    assert_eq!(err.message(), "No <description> found in FB2 file /x/none.fb2");
}

#[test]
fn refuses_malformed_xml() {
    let err = parse("/x/bad.fb2", "<FictionBook><description></body>", &None).unwrap_err();
    assert!(matches!(err, Fb2Error::Xml { .. }));
    assert_eq!(err.message(), "XML parse error in /x/bad.fb2");
}

#[test]
fn refuses_a_path_without_file_name() {
    let err = parse("/", SIMPLE, &None).unwrap_err();
    assert!(matches!(err, Fb2Error::InvalidFilename { .. }));
    assert_eq!(err.message(), "Invalid UTF-8 filename or missing stem: /");
}

#[test]
fn stops_reading_at_the_end_of_the_description() {
    let xml = "<FictionBook><description><title-info><book-title>Война и мир</book-title></title-info></description><body><broken></FictionBook>";
    let book = parse("war.fb2", xml, &None).unwrap();
    assert_eq!(book.title, "Война и мир");
    assert!(book.authors.is_empty());
}

#[test]
fn keeps_each_author_id_once_and_skips_authors_with_only_a_first_name() {
    let xml = "<FictionBook><description><title-info>        <author><first-name>Лев</first-name><last-name>Толстой</last-name></author>        <author><first-name>лев</first-name><last-name>толстой</last-name></author>        <author><first-name>Гомер</first-name></author>        <author><last-name>Пушкин</last-name></author>        <book-title>Сборник</book-title></title-info></description></FictionBook>";
    let book = parse("many.fb2", xml, &None).unwrap();
    let ids: Vec<&str> = book.authors.iter().map(|a| a.id.as_str()).collect();
    assert_eq!(ids, vec!["Толстой Лев", "Пушкин"]);
}

#[test]
fn reads_a_given_event_stream() {
    let events = vec![
        XmlEvent::Decl { encoding: Some("KOI8-R".to_string()) },
        XmlEvent::Start { name: "description".to_string() },
        XmlEvent::Start { name: "title-info".to_string() },
        XmlEvent::Start { name: "book-title".to_string() },
        XmlEvent::Text { text: "Название книжки".to_string() },
        XmlEvent::End,
        XmlEvent::Start { name: "author".to_string() },
        XmlEvent::Start { name: "last-name".to_string() },
        XmlEvent::Text { text: "Толстой".to_string() },
        XmlEvent::End,
        XmlEvent::End,
        XmlEvent::End,
        XmlEvent::End,
        XmlEvent::Other,
    ];
    let book = book_from_events("koi8r_simple.fb2", "koi8r_simple".to_string(), events, &None).unwrap();
    assert_eq!(book.encoding, "KOI8-R");
    assert_eq!(book.title, "Название книжки");
    assert_eq!(book.authors[0].id, "Толстой");
}

#[test]
fn an_event_stream_that_ends_early_has_no_description() {
    let events = vec![XmlEvent::Start { name: "description".to_string() }];
    let err = book_from_events("p.fb2", "p".to_string(), events, &None).unwrap_err();
    assert!(matches!(err, Fb2Error::NoDescription { .. }));
}

#[test]
fn classifies_element_names() {
    assert_eq!(classify_tag("description"), Tag::Description);
    assert_eq!(classify_tag("document-info"), Tag::DocumentInfo);
    assert_eq!(classify_tag("middle-name"), Tag::MiddleName);
    assert_eq!(classify_tag("Description"), Tag::Other);
}
