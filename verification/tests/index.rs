use helianto::generators::index::{ancestors_of, holds, is_later};
use helianto::generators::{Generator, IndexGenerator};
use helianto::metadata::DateTime;
use helianto::registry::Registry;
use helianto::{Document, DocumentContent, DocumentMetadata};
use std::rc::Rc;

fn doc(url: &str, created: Option<i64>) -> Rc<DocumentMetadata> {
    let mut metadata = DocumentMetadata::default();
    metadata.url = String::from(url);
    metadata.title = String::from(url);
    metadata.created = created.map(|seconds| DateTime::new(seconds, 0, 0));
    Rc::new(metadata)
}

fn listed(document: &Document) -> Vec<&str> {
    match &document.content {
        DocumentContent::Index { documents } => documents.iter().map(|m| m.url.as_str()).collect(),
        _ => panic!("an index was expected"),
    }
}

#[test]
fn index_hierarchy() {
    let docs = vec![doc("/a/x.html", Some(10)), doc("/a/b/y.html", Some(20))];
    let indexes = IndexGenerator::new().generate(&docs).unwrap();
    assert_eq!(indexes.len(), 3);

    assert_eq!(indexes[0].metadata.url, "/a/index.html");
    assert_eq!(indexes[0].metadata.title, "Index of /a");
    assert_eq!(listed(&indexes[0]), vec!["/a/b/y.html", "/a/x.html"]);

    assert_eq!(indexes[1].metadata.url, "/index.html");
    assert_eq!(indexes[1].metadata.title, "Index of /");
    assert_eq!(listed(&indexes[1]), vec!["/a/b/y.html", "/a/x.html"]);

    assert_eq!(indexes[2].metadata.url, "/a/b/index.html");
    assert_eq!(indexes[2].metadata.title, "Index of /a/b");
    assert_eq!(listed(&indexes[2]), vec!["/a/b/y.html"]);
}

#[test]
fn indexes_of_relative_addresses() {
    let docs = vec![doc("a/x.html", None), doc("top.html", None)];
    let indexes = IndexGenerator::new().generate(&docs).unwrap();
    assert_eq!(indexes.len(), 2);
    assert_eq!(indexes[0].metadata.url, "a/index.html");
    assert_eq!(indexes[0].metadata.title, "Index of a");
    assert_eq!(listed(&indexes[0]), vec!["a/x.html"]);
    assert_eq!(indexes[1].metadata.url, "/index.html");
    assert_eq!(indexes[1].metadata.title, "Index of /");
    assert_eq!(listed(&indexes[1]), vec!["a/x.html", "top.html"]);
    assert!(indexes[1].metadata.keywords.is_empty());
    assert_eq!(indexes[1].metadata.created, None);
}

#[test]
fn indexes_list_the_newest_first_and_the_undated_last() {
    let docs = vec![
        doc("d/none-1.html", None),
        doc("d/old.html", Some(1)),
        doc("d/new.html", Some(3)),
        doc("d/none-2.html", None),
        doc("d/mid-1.html", Some(2)),
        doc("d/mid-2.html", Some(2)),
    ];
    let indexes = IndexGenerator::new().generate(&docs).unwrap();
    assert_eq!(
        listed(&indexes[0]),
        vec!["d/new.html", "d/mid-1.html", "d/mid-2.html", "d/old.html", "d/none-1.html", "d/none-2.html"]
    );
}

#[test]
fn generating_twice_gives_the_same_documents() {
    let docs = vec![doc("/a/x.html", Some(10)), doc("/a/b/y.html", Some(20)), doc("/c.html", None)];
    let generator = IndexGenerator::new();
    let first = generator.generate(&docs).unwrap();
    let second = generator.generate(&docs).unwrap();
    assert_eq!(format!("{:?}", first), format!("{:?}", second));
    assert_eq!(first.len(), 3);
}

#[test]
fn no_documents_no_indexes() {
    assert!(IndexGenerator::new().generate(&[]).unwrap().is_empty());
    assert!(IndexGenerator::new().generate(&[doc("", None)]).unwrap().is_empty());
}

#[test]
fn ancestors_run_from_the_nearest_to_the_root() {
    assert_eq!(ancestors_of("/a/b/y.html"), vec!["/a/b", "/a", ""]);
    assert_eq!(ancestors_of("a/b/y.html"), vec!["a/b", "a", ""]);
    assert_eq!(ancestors_of("y.html"), vec![""]);
    assert_eq!(ancestors_of(""), Vec::<String>::new());
    assert!(holds(&ancestors_of("a/b"), "a"));
    assert!(!holds(&ancestors_of("a/b"), "b"));
}

#[test]
fn later_dates_and_missing_dates() {
    let early = Some(DateTime::new(1, 0, 0));
    let late = Some(DateTime::new(1, 1, 0));
    assert!(is_later(&late, &early));
    assert!(!is_later(&early, &late));
    assert!(!is_later(&early, &early));
    assert!(is_later(&early, &None));
    assert!(!is_later(&None, &early));
    assert!(!is_later(&None, &None));
}

#[test]
fn the_registry_keeps_one_document_for_an_address() {
    let mut registry = Registry::new();
    assert_eq!(registry.len(), 0);
    registry.insert(doc("a.html", Some(1)));
    registry.insert(doc("b.html", Some(2)));
    registry.insert(doc("a.html", Some(3)));
    assert_eq!(registry.len(), 2);
    assert!(registry.contains_key("a.html"));
    assert!(!registry.contains_key("c.html"));
    assert_eq!(registry.get("a.html").unwrap().created, Some(DateTime::new(3, 0, 0)));
    assert!(registry.get("c.html").is_none());
    let urls: Vec<String> = registry.values().iter().map(|m| m.url.clone()).collect();
    assert_eq!(urls, vec!["a.html", "b.html"]);
}

#[test]
fn the_first_at_an_address_stays_when_another_is_offered() {
    let mut registry = Registry::new();
    registry.insert(doc("a/index.html", Some(1)));
    assert!(!registry.insert_if_absent(doc("a/index.html", Some(2))));
    assert!(registry.insert_if_absent(doc("b/index.html", Some(2))));
    assert_eq!(registry.len(), 2);
    assert_eq!(registry.get("a/index.html").unwrap().created, Some(DateTime::new(1, 0, 0)));
    assert_eq!(registry.get("b/index.html").unwrap().created, Some(DateTime::new(2, 0, 0)));
}

#[test]
fn shared_metadata_is_the_same_record() {
    let mut registry = Registry::new();
    let record = doc("a.html", None);
    registry.insert(Rc::clone(&record));
    let found = registry.get("a.html").unwrap();
    assert!(Rc::ptr_eq(&record, &found));
    let indexes = IndexGenerator::new().generate(&registry.values()).unwrap();
    match &indexes[0].content {
        DocumentContent::Index { documents } => assert!(Rc::ptr_eq(&documents[0], &record)),
        _ => panic!("an index was expected"),
    }
}
