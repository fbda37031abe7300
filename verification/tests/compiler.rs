use helianto::compiler::{Action, GeneratorKind, Phase, ReaderKind};
use helianto::generators::{Generator, IndexGenerator};
use helianto::metadata::DateTime;
use helianto::readers::MarkdownReader;
use helianto::{filter_entry, Compiler, DocumentContent, DocumentMetadata, Error, Settings};

fn compiler() -> Compiler {
    Compiler::new(&Settings::with_working_directory("site"))
}

fn walking() -> Compiler {
    let mut compiler = compiler();
    compiler.check_settings(true, false, false).unwrap();
    compiler.load_templates();
    compiler.start_walk();
    compiler
}

fn metadata(url: &str, title: &str) -> DocumentMetadata {
    let mut metadata = DocumentMetadata::default();
    metadata.url = String::from(url);
    metadata.title = String::from(title);
    metadata
}

#[test]
fn a_new_compiler_knows_markdown_and_indexes() {
    let mut settings = Settings::with_working_directory("site");
    settings.site_title = String::from("My site");
    let compiler = Compiler::new(&settings);
    assert_eq!(compiler.current_phase(), Phase::Init);
    assert_eq!(compiler.settings().source_dir, "site/.");
    assert_eq!(compiler.site().title, "My site");
    assert_eq!(compiler.site().url, "/");
    assert_eq!(compiler.document_count(), 0);
    assert_eq!(compiler.get_reader("site/post.md"), Some(ReaderKind::Markdown(MarkdownReader)));
    assert_eq!(compiler.get_reader("site/post.markdown"), Some(ReaderKind::Markdown(MarkdownReader)));
    assert_eq!(compiler.get_reader("site/post.MD"), None);
    assert_eq!(compiler.get_reader("site/style.css"), None);
    assert_eq!(compiler.get_reader("site/md"), None);
    assert_eq!(compiler.get_reader("site/.md"), None);
}

#[test]
fn settings_are_checked_against_the_disk() {
    let mut missing = compiler();
    match missing.check_settings(false, true, true) {
        Err(Error::Settings { message }) => assert_eq!(message, "site/. must be an existing directory"),
        _ => panic!("a misconfiguration was expected"),
    }
    assert_eq!(missing.current_phase(), Phase::Init);

    let mut file = compiler();
    match file.check_settings(true, true, false) {
        Err(Error::Settings { message }) => assert_eq!(message, "site/_output must be a directory"),
        _ => panic!("a misconfiguration was expected"),
    }
    assert_eq!(file.current_phase(), Phase::Init);

    let mut fresh = compiler();
    assert!(fresh.check_settings(true, false, false).is_ok());
    assert_eq!(fresh.current_phase(), Phase::SettingsValidated);
    let mut there = compiler();
    assert!(there.check_settings(true, true, true).is_ok());
}

#[test]
fn a_build_moves_through_its_phases() {
    let mut compiler = compiler();
    compiler.check_settings(true, true, true).unwrap();
    compiler.load_templates();
    assert_eq!(compiler.current_phase(), Phase::TemplatesLoaded);
    compiler.start_walk();
    assert_eq!(compiler.current_phase(), Phase::Walking);
    compiler.register(metadata("a.html", "A"));
    assert_eq!(compiler.current_phase(), Phase::Walking);
    compiler.run_generators().unwrap();
    assert_eq!(compiler.current_phase(), Phase::GeneratorsRun);
    compiler.finish();
    assert_eq!(compiler.current_phase(), Phase::Done);
}

#[test]
fn entries_are_filtered_by_kind_and_name() {
    assert!(filter_entry(true, false, "site/blog"));
    assert!(filter_entry(false, true, "site/blog/post.md"));
    assert!(!filter_entry(false, false, "site/blog/link"));
    assert!(!filter_entry(true, false, "site/_layouts"));
    assert!(!filter_entry(false, true, "site/.gitignore"));
}

#[test]
fn entries_are_built_copied_or_skipped() {
    let compiler = compiler();
    assert_eq!(compiler.action_for("site/blog", true), Action::Skip);
    assert_eq!(compiler.action_for("site/blog.md", true), Action::Skip);
    assert_eq!(
        compiler.action_for("site/blog/post.md", false),
        Action::Build(ReaderKind::Markdown(MarkdownReader))
    );
    assert_eq!(compiler.action_for("site/css/style.css", false), Action::Copy);
    assert_eq!(compiler.action_for("site/README", false), Action::Copy);
}

#[test]
fn addresses_and_copy_targets_mirror_the_source_tree() {
    let compiler = compiler();
    assert_eq!(compiler.url_for("site/./blog/post.md"), Some(String::from("blog/post.html")));
    assert_eq!(compiler.url_for("site/index.markdown"), Some(String::from("index.html")));
    assert_eq!(compiler.url_for("elsewhere/post.md"), None);
    assert_eq!(compiler.copy_file("site/./css/style.css"), Some(String::from("site/_output/css/style.css")));
    assert_eq!(compiler.copy_file("elsewhere/style.css"), None);
    assert_eq!(Compiler::render_path("/index.html"), "index.html");
    assert_eq!(Compiler::render_path("a/b/index.html"), "a/b/index.html");
}

#[test]
fn a_document_is_built_from_its_source() {
    let compiler = compiler();
    let input = "# Foo\n\nCreated: 2020-12-30T14:47:30+01:00\nKeywords: a, b\nCustom: x\nurl: /elsewhere\n\nbody *text*";
    let reader = compiler.get_reader("site/blog/post.md").unwrap();
    let document = compiler.build_document(reader, "site/blog/post.md", input).unwrap();
    assert_eq!(document.metadata.url, "blog/post.html");
    assert_eq!(document.metadata.title, "Foo");
    assert_eq!(document.metadata.created, Some(DateTime::new(1609336050, 0, 3600)));
    assert_eq!(document.metadata.modified, None);
    assert_eq!(document.metadata.keywords, vec!["a", "b"]);
    assert_eq!(document.metadata.extra.len(), 1);
    assert_eq!(document.metadata.extra[0].0, "custom");
    assert_eq!(document.metadata.extra[0].1.clone().into_string(), Some(String::from("x")));
    match &document.content {
        DocumentContent::Text { content } => assert_eq!(content, "<p>body <em>text</em></p>\n"),
        _ => panic!("a text was expected"),
    }
}

#[test]
fn a_document_with_an_invalid_date_is_not_built() {
    let compiler = compiler();
    let reader = ReaderKind::Markdown(MarkdownReader);
    match compiler.build_document(reader, "site/post.md", "created: yesterday\n\nbody") {
        Err(Error::InvalidDate { date }) => assert_eq!(date, "yesterday"),
        _ => panic!("an invalid date was expected"),
    }
}

#[test]
fn registered_documents_are_found_by_their_address() {
    let mut compiler = walking();
    compiler.register(metadata("a/x.html", "first"));
    compiler.register(metadata("a/y.html", "other"));
    compiler.register(metadata("a/x.html", "second"));
    assert_eq!(compiler.document_count(), 2);
    assert_eq!(compiler.document_at("a/x.html").unwrap().title, "second");
    assert_eq!(compiler.document_at("a/y.html").unwrap().title, "other");
    assert!(compiler.document_at("a/z.html").is_none());
}

#[test]
fn generators_add_an_index_for_every_directory() {
    let mut compiler = walking();
    compiler.register(metadata("a/x.html", "x"));
    compiler.register(metadata("a/b/y.html", "y"));
    let generated = compiler.run_generators().unwrap();
    let urls: Vec<&str> = generated.iter().map(|d| d.metadata.url.as_str()).collect();
    assert_eq!(urls, vec!["a/index.html", "/index.html", "a/b/index.html"]);
    assert_eq!(compiler.document_count(), 5);
    assert_eq!(compiler.document_at("/index.html").unwrap().title, "Index of /");
    assert_eq!(compiler.document_at("a/b/index.html").unwrap().title, "Index of a/b");
    match &generated[0].content {
        DocumentContent::Index { documents } => assert_eq!(documents.len(), 2),
        _ => panic!("an index was expected"),
    }
}

#[test]
fn a_generated_document_never_replaces_a_registered_one() {
    let mut compiler = walking();
    compiler.register(metadata("a/index.html", "written by hand"));
    compiler.register(metadata("a/x.html", "x"));
    let generated = compiler.run_generators().unwrap();
    let urls: Vec<&str> = generated.iter().map(|d| d.metadata.url.as_str()).collect();
    assert_eq!(urls, vec!["/index.html"]);
    assert_eq!(compiler.document_count(), 3);
    assert_eq!(compiler.document_at("a/index.html").unwrap().title, "written by hand");
    assert_eq!(compiler.document_at("a/x.html").unwrap().title, "x");
}

#[test]
fn generators_see_one_snapshot() {
    let mut compiler = walking();
    compiler.add_generator(GeneratorKind::Index(IndexGenerator::new()));
    compiler.register(metadata("a/x.html", "x"));
    let generated = compiler.run_generators().unwrap();
    let urls: Vec<&str> = generated.iter().map(|d| d.metadata.url.as_str()).collect();
    assert_eq!(urls, vec!["a/index.html", "/index.html"]);
    match &generated[1].content {
        DocumentContent::Index { documents } => {
            let listed: Vec<&str> = documents.iter().map(|m| m.url.as_str()).collect();
            assert_eq!(listed, vec!["a/x.html"]);
        }
        _ => panic!("an index was expected"),
    }
    assert_eq!(compiler.document_count(), 3);
}

#[test]
fn readers_are_registered_by_extension() {
    let mut compiler = compiler();
    compiler.add_reader(ReaderKind::Markdown(MarkdownReader));
    assert_eq!(compiler.get_reader("x.md"), Some(ReaderKind::Markdown(MarkdownReader)));
    let reader = ReaderKind::Markdown(MarkdownReader);
    assert_eq!(reader.extensions(), vec!["markdown", "md"]);
    let (body, raw) = reader.read("# T\n\ntext").unwrap();
    assert_eq!(body, "<p>text</p>\n");
    assert_eq!(raw.get("title").map(|t| t.as_str()), Some("T"));
}
