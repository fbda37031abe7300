use helianto::readers::extractor::{
    extract, looks_like_metadata, split_line, MetadataExtractor, State,
};
use helianto::readers::markdown::Event;
use helianto::readers::{MarkdownReader, Metadata, Reader};
use helianto::Settings;

fn text(content: &str) -> Event {
    Event::Text(String::from(content))
}

fn entry<'a>(metadata: &'a Metadata, key: &str) -> Option<&'a str> {
    metadata.get(key).map(|value| value.as_str())
}

fn read(input: &str) -> (String, Metadata) {
    MarkdownReader::new(&Settings::default()).read(input).unwrap()
}

#[test]
fn title_capture() {
    let (body, metadata) = read("# Foo\nbar\nbaz");
    assert_eq!(entry(&metadata, "title"), Some("Foo"));
    assert_eq!(metadata.len(), 1);
    assert_eq!(body, "<p>bar\nbaz</p>\n");
}

#[test]
fn metadata_block_capture() {
    let (body, metadata) = read("# Foo\n\nBar: baz:quux\nFoo bar: qux baz\n\nfoo: bar");
    assert_eq!(entry(&metadata, "title"), Some("Foo"));
    assert_eq!(entry(&metadata, "bar"), Some("baz:quux"));
    assert_eq!(entry(&metadata, "foo bar"), Some("qux baz"));
    assert_eq!(metadata.len(), 3);
    assert_eq!(body, "<p>foo: bar</p>\n");
}

#[test]
fn partial_match_flush() {
    let input = "\n\n\nBar: baz:quux\nFoo bar: qux baz  \nlol\n\nfoo: bar";
    let (body, metadata) = read(input);
    assert!(metadata.is_empty());
    assert_eq!(body, "<p>Bar: baz:quux\nFoo bar: qux baz<br />\nlol</p>\n<p>foo: bar</p>\n");
    assert_eq!(body, MarkdownReader.render(input));
}

#[test]
fn lossless_fallback_on_plain_documents() {
    for input in [
        "Just a paragraph.\n\nAnd another: one.",
        "* a list\n* of items\n",
        "> quoted: text\n",
        "",
        "Some *emphasis: here* in the first line\n",
        "para\n\n# Late heading\n\nkey: value\n",
        "| a | b |\n|---|---|\n| 1 | 2 |\n",
    ] {
        let (body, metadata) = read(input);
        assert!(metadata.is_empty());
        assert_eq!(body, MarkdownReader.render(input));
    }
}

#[test]
fn a_block_without_a_title_is_captured() {
    let (body, metadata) = read("Created: 2020-12-30T14:47:30+01:00\nKeywords: a; b\n\n# Heading\n\ntext");
    assert_eq!(entry(&metadata, "created"), Some("2020-12-30T14:47:30+01:00"));
    assert_eq!(entry(&metadata, "keywords"), Some("a; b"));
    assert_eq!(entry(&metadata, "title"), None);
    assert_eq!(body, "<h1>Heading</h1>\n<p>text</p>\n");
}

#[test]
fn a_block_at_the_end_of_the_document_is_captured() {
    let (body, metadata) = read("# Title\n\nkey: value");
    assert_eq!(entry(&metadata, "title"), Some("Title"));
    assert_eq!(entry(&metadata, "key"), Some("value"));
    assert_eq!(body, "");
}

#[test]
fn later_values_replace_earlier_ones() {
    let (_, metadata) = read("# First\n\nTitle: Second\nkey: a\nKEY: b\n");
    assert_eq!(entry(&metadata, "title"), Some("Second"));
    assert_eq!(entry(&metadata, "key"), Some("b"));
    assert_eq!(metadata.len(), 2);
    assert_eq!(metadata.key_at(0), "title");
    assert_eq!(metadata.value_at(1), "b");
}

#[test]
fn the_reader_takes_markdown_extensions() {
    assert_eq!(MarkdownReader::extensions(), vec!["markdown", "md"]);
}

#[test]
fn metadata_lines_open_with_a_word_and_hold_a_colon() {
    assert!(looks_like_metadata("Bar: baz:quux"));
    assert!(looks_like_metadata("Foo bar: qux baz"));
    assert!(looks_like_metadata("_private:"));
    assert!(looks_like_metadata("Été: summer"));
    assert!(looks_like_metadata("9: nine"));
    assert!(!looks_like_metadata("lol"));
    assert!(!looks_like_metadata(""));
    assert!(!looks_like_metadata(": no key"));
    assert!(!looks_like_metadata(" key: value"));
    assert!(!looks_like_metadata("-key: value"));
    assert!(!looks_like_metadata("two\nlines: here"));
}

#[test]
fn metadata_lines_split_at_the_first_colon() {
    assert_eq!(split_line("Bar: baz:quux"), (String::from("bar"), String::from("baz:quux")));
    assert_eq!(split_line("  Foo BAR  :  qux baz  "), (String::from("foo bar"), String::from("qux baz")));
    assert_eq!(split_line("ÉTÉ:"), (String::from("été"), String::new()));
    assert_eq!(split_line("no colon"), (String::from("no colon"), String::new()));
}

#[test]
fn extract_takes_title_and_block_and_hands_on_the_rest() {
    let events = vec![
        Event::HeadingStart,
        text("A "),
        Event::Other,
        text("title"),
        Event::HeadingEnd,
        Event::ParagraphStart,
        text("key: value"),
        Event::SoftBreak,
        text("other: thing"),
        Event::HardBreak,
        Event::ParagraphEnd,
        Event::ParagraphStart,
        text("body: text"),
        Event::ParagraphEnd,
    ];
    let (body, metadata) = extract(&events);
    assert_eq!(body, &events[11..]);
    assert_eq!(entry(&metadata, "title"), Some("A title"));
    assert_eq!(entry(&metadata, "key"), Some("value"));
    assert_eq!(entry(&metadata, "other"), Some("thing"));
    assert_eq!(metadata.len(), 3);
}

#[test]
fn extract_restores_a_paragraph_that_is_no_block() {
    let events = vec![
        Event::ParagraphStart,
        text("key: value"),
        Event::SoftBreak,
        text("prose"),
        Event::ParagraphEnd,
    ];
    let (body, metadata) = extract(&events);
    assert_eq!(body, &events[..]);
    assert!(metadata.is_empty());

    let styled = vec![Event::ParagraphStart, text("key: value"), Event::Other, Event::ParagraphEnd];
    let (body, metadata) = extract(&styled);
    assert_eq!(body, &styled[..]);
    assert!(metadata.is_empty());

    let after_title = vec![
        Event::HeadingStart,
        text("T"),
        Event::HeadingEnd,
        Event::ParagraphStart,
        text("prose"),
        Event::ParagraphEnd,
    ];
    let (body, metadata) = extract(&after_title);
    assert_eq!(body, &after_title[3..]);
    assert_eq!(entry(&metadata, "title"), Some("T"));
}

#[test]
fn extract_passes_on_what_opens_with_something_else() {
    let events = vec![Event::Other, Event::HeadingStart, text("late"), Event::HeadingEnd];
    let (body, metadata) = extract(&events);
    assert_eq!(body, &events[..]);
    assert!(metadata.is_empty());

    let (body, metadata) = extract(&[]);
    assert!(body.is_empty());
    assert!(metadata.is_empty());

    let stray = vec![Event::ParagraphEnd, Event::ParagraphStart, text("key: value"), Event::ParagraphEnd];
    let (body, metadata) = extract(&stray);
    assert_eq!(body, &stray[..]);
    assert!(metadata.is_empty());
}

#[test]
fn extract_closes_what_the_stream_ends_in() {
    let heading = vec![Event::HeadingStart, text("cut"), text(" off")];
    let (body, metadata) = extract(&heading);
    assert!(body.is_empty());
    assert_eq!(entry(&metadata, "title"), Some("cut off"));

    let block = vec![Event::ParagraphStart, text("key: value"), Event::SoftBreak];
    let (body, metadata) = extract(&block);
    assert!(body.is_empty());
    assert_eq!(entry(&metadata, "key"), Some("value"));

    let empty_heading = vec![Event::HeadingStart, Event::HeadingEnd, Event::Other];
    let (body, metadata) = extract(&empty_heading);
    assert_eq!(body, &empty_heading[2..]);
    assert!(metadata.is_empty());
}

#[test]
fn the_extractor_moves_through_its_states() {
    let mut machine = MetadataExtractor::new();
    assert_eq!(machine.state(), State::BeforeTitle);
    machine.feed(&Event::HeadingStart);
    assert_eq!(machine.state(), State::InsideTitle);
    machine.feed(&text("T"));
    machine.feed(&Event::ParagraphStart);
    assert_eq!(machine.state(), State::InsideTitle);
    machine.feed(&Event::HeadingEnd);
    assert_eq!(machine.state(), State::BeforeMetadata);
    machine.feed(&Event::ParagraphStart);
    assert_eq!(machine.state(), State::InsideMetadata);
    machine.feed(&text("a: b"));
    machine.feed(&Event::HardBreak);
    assert_eq!(machine.state(), State::InsideMetadata);
    machine.feed(&Event::ParagraphEnd);
    assert_eq!(machine.state(), State::InsideBody);
    machine.feed(&Event::HeadingStart);
    assert_eq!(machine.state(), State::InsideBody);
    let (start, metadata) = machine.finish();
    assert_eq!(start, 8);
    assert_eq!(entry(&metadata, "title"), Some("T"));
    assert_eq!(entry(&metadata, "a"), Some("b"));
}

#[test]
fn raw_metadata_keeps_one_value_for_a_name() {
    let mut metadata = Metadata::new();
    assert!(metadata.is_empty());
    metadata.insert(String::from("a"), String::from("1"));
    metadata.insert(String::from("b"), String::from("2"));
    metadata.insert(String::from("a"), String::from("3"));
    assert_eq!(metadata.len(), 2);
    assert_eq!(entry(&metadata, "a"), Some("3"));
    assert_eq!(entry(&metadata, "b"), Some("2"));
    assert_eq!(entry(&metadata, "c"), None);
    assert_eq!(metadata.key_at(0), "a");
    assert_eq!(metadata.key_at(1), "b");
}
