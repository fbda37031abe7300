use helianto::templates::{
    filter_templates, format_date, join_items, template_name, Context, DEFAULT_SEPARATOR,
};
use helianto::{Document, DocumentContent, DocumentMetadata, Error, Site};

fn s(text: &str) -> String {
    String::from(text)
}

#[test]
fn errors_have_messages() {
    assert_eq!(Error::Io(s("denied")).to_string(), "IO error: denied");
    assert_eq!(
        Error::Reader { path: s("a.md"), cause: s("bad") }.to_string(),
        "Error while reading a.md: bad"
    );
    assert_eq!(Error::Render { cause: s("bad") }.to_string(), "Rendering failed: bad");
    assert_eq!(
        Error::Copy { from: s("a"), to: s("b"), cause: s("bad") }.to_string(),
        "Could not copy a to b: bad"
    );
    assert_eq!(
        Error::Output { dest: s("out"), cause: s("bad") }.to_string(),
        "Could not write output file out: bad"
    );
    assert_eq!(
        Error::LoadSettings { path: s("helianto.toml"), cause: s("bad") }.to_string(),
        "Could not read settings file helianto.toml: bad"
    );
    assert_eq!(Error::Settings { message: s("as it is") }.to_string(), "as it is");
    assert_eq!(
        Error::InvalidDate { date: s(" 30/12/2020 \n") }.to_string(),
        "\"30/12/2020\" is not a valid date."
    );
    assert_eq!(
        Error::UnknownMetadataField { name: s("quux") }.to_string(),
        "Unknown metadata \"quux\"."
    );
}

#[test]
fn errors_have_descriptions_and_causes() {
    assert_eq!(Error::Io(s("denied")).description(), "denied");
    assert_eq!(Error::Reader { path: s("a.md"), cause: s("bad") }.description(), "bad");
    assert_eq!(Error::InvalidDate { date: s("x") }.description(), "Invalid date");
    assert_eq!(Error::UnknownMetadataField { name: s("x") }.description(), "Unknown metadata field");
    assert_eq!(Error::Settings { message: s("x") }.description(), "Invalid configuration");

    assert_eq!(Error::Io(s("denied")).cause(), Some(&s("denied")));
    assert_eq!(Error::Copy { from: s("a"), to: s("b"), cause: s("bad") }.cause(), Some(&s("bad")));
    assert_eq!(Error::Output { dest: s("a"), cause: s("bad") }.cause(), Some(&s("bad")));
    assert_eq!(Error::Render { cause: s("bad") }.cause(), Some(&s("bad")));
    assert_eq!(Error::LoadSettings { path: s("a"), cause: s("bad") }.cause(), Some(&s("bad")));
    assert_eq!(Error::InvalidDate { date: s("x") }.cause(), None);
    assert_eq!(Error::Settings { message: s("x") }.cause(), None);
    assert_eq!(Error::UnknownMetadataField { name: s("x") }.cause(), None);
}

#[test]
fn templates_are_named_by_their_path() {
    assert_eq!(template_name("site/_layouts", "site/_layouts/page.html.hbs"), Some(s("page.html")));
    assert_eq!(template_name("site/_layouts", "site/_layouts/blog/post.html.hbs"), Some(s("blog/post.html")));
    assert_eq!(template_name("site/_layouts", "site/_layouts/plain"), Some(s("plain")));
    assert_eq!(template_name("site/_layouts", "elsewhere/page.html.hbs"), None);
}

#[test]
fn templates_are_files_with_their_extension() {
    assert!(filter_templates(true, false, "site/_layouts/blog"));
    assert!(filter_templates(false, true, "site/_layouts/page.html.hbs"));
    assert!(!filter_templates(false, true, "site/_layouts/page.html"));
    assert!(!filter_templates(false, true, "site/_layouts/hbs"));
    assert!(!filter_templates(false, false, "site/_layouts/page.html.hbs"));
}

#[test]
fn items_are_joined_with_a_separator() {
    let items = vec![s("a"), s("b"), s("c")];
    assert_eq!(join_items(&items, DEFAULT_SEPARATOR), "a, b, c");
    assert_eq!(join_items(&items, ""), "abc");
    assert_eq!(join_items(&vec![s("a")], " / "), "a");
    assert_eq!(join_items(&Vec::new(), " / "), "");
}

#[test]
fn dates_are_formatted_by_a_pattern() {
    assert_eq!(format_date("2020-12-30T14:47:30+01:00", "%Y-%m-%d"), Some(s("2020-12-30")));
    assert_eq!(format_date("2020-12-30T14:47:30+01:00", "%H:%M %:z"), Some(s("14:47 +01:00")));
    assert_eq!(format_date("yesterday", "%Y"), None);
    assert_eq!(format_date("2020-12-30T14:47:30+01:00", "%Q"), None);
}

#[test]
fn a_context_holds_the_site_and_the_document() {
    let site = Site::default();
    let document = Document::new(DocumentMetadata::default(), DocumentContent::from(s("x")));
    let context = Context::new(&site, &document);
    assert_eq!(context.site.title, "Untitled website");
    assert_eq!(context.document.metadata.title, "");
}
