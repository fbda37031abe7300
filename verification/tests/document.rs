use helianto::metadata::{DateTime, Value};
use helianto::readers::Metadata;
use helianto::{Document, DocumentContent, DocumentMetadata, Error};

fn raw(pairs: &[(&str, &str)]) -> Metadata {
    let mut metadata = Metadata::new();
    for (key, value) in pairs {
        metadata.insert(String::from(*key), String::from(*value));
    }
    metadata
}

#[test]
fn default_metadata_is_empty() {
    let metadata = DocumentMetadata::default();
    assert_eq!(metadata.url, "");
    assert_eq!(metadata.title, "");
    assert_eq!(metadata.language, None);
    assert_eq!(metadata.created, None);
    assert_eq!(metadata.modified, None);
    assert!(metadata.keywords.is_empty());
    assert!(metadata.extra.is_empty());
}

#[test]
fn raw_fields_fill_the_metadata() {
    let metadata = DocumentMetadata::from_raw(&raw(&[
        ("Title", "  A title "),
        ("language", "fr"),
        ("created", "2020-12-30T14:47:30+01:00"),
        ("MODIFIED", "2021-01-01T00:00:00Z"),
        ("keywords", "foo; bar, baz"),
        ("Quux", " 42 "),
        ("other", "thing"),
    ]))
    .unwrap();
    assert_eq!(metadata.url, "");
    assert_eq!(metadata.title, "A title");
    assert_eq!(metadata.language, Some(String::from("fr")));
    assert_eq!(metadata.created, Some(DateTime::new(1609336050, 0, 3600)));
    assert_eq!(metadata.modified, Some(DateTime::new(1609459200, 0, 0)));
    assert_eq!(metadata.keywords, vec!["foo", "bar, baz"]);
    assert_eq!(metadata.extra.len(), 2);
    assert_eq!(metadata.extra[0].0, "quux");
    assert_eq!(metadata.extra[0].1.clone().into_string(), Some(String::from(" 42 ")));
    assert_eq!(metadata.extra[1].0, "other");
    assert_eq!(metadata.extra[1].1.clone().into_string(), Some(String::from("thing")));
}

#[test]
fn the_address_is_not_taken_from_raw_fields() {
    let metadata = DocumentMetadata::from_raw(&raw(&[("url", "/elsewhere"), ("title", "T")])).unwrap();
    assert_eq!(metadata.url, "");
    assert_eq!(metadata.title, "T");
    assert!(metadata.extra.is_empty());
}

#[test]
fn an_invalid_date_fails_the_document() {
    match DocumentMetadata::from_raw(&raw(&[("title", "T"), ("created", "not a date"), ("modified", "nor this")])) {
        Err(Error::InvalidDate { date }) => assert_eq!(date, "not a date"),
        _ => panic!("an invalid date was expected"),
    }
}

#[test]
fn unknown_fields_never_fail() {
    let metadata = DocumentMetadata::from_raw(&raw(&[("x", "1"), ("X", "2"), ("y", "")])).unwrap();
    assert_eq!(metadata.extra.len(), 2);
    assert_eq!(metadata.extra[0].0, "x");
    assert_eq!(metadata.extra[0].1.clone().into_string(), Some(String::from("2")));
    assert_eq!(metadata.extra[1].0, "y");
}

#[test]
fn metadata_is_copied_with_all_its_fields() {
    let mut metadata = DocumentMetadata::from_raw(&raw(&[
        ("title", "T"),
        ("keywords", "a, b"),
        ("created", "1970-01-01T00:00:00Z"),
        ("x", "1"),
    ]))
    .unwrap();
    metadata.url = String::from("a/b.html");
    metadata.extra.push((String::from("list"), Value::from(vec![Value::from("i"), Value::Null])));
    let copy = metadata.clone();
    assert_eq!(copy.url, "a/b.html");
    assert_eq!(copy.title, "T");
    assert_eq!(copy.keywords, vec!["a", "b"]);
    assert_eq!(copy.created, Some(DateTime::new(0, 0, 0)));
    assert_eq!(copy.extra.len(), 2);
    assert_eq!(copy.extra[0].1.clone().into_string(), Some(String::from("1")));
    assert_eq!(copy.extra[1].1.clone().into_strings(), vec!["i"]);
}

#[test]
fn documents_pair_metadata_and_content() {
    let document = Document::new(DocumentMetadata::default(), DocumentContent::from(String::from("<p>x</p>")));
    match &document.content {
        DocumentContent::Text { content } => assert_eq!(content, "<p>x</p>"),
        _ => panic!("a text was expected"),
    }
    match DocumentContent::from_iter(Vec::new()) {
        DocumentContent::Index { documents } => assert!(documents.is_empty()),
        _ => panic!("an index was expected"),
    }
}
