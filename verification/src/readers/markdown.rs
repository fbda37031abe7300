//! The markdown reader: the document is parsed into events, a leading title
//! and metadata block are lifted out of them, and the rest is rendered.

use vstd::prelude::*;
use pulldown_cmark::{Options, Parser, Tag, TagEnd};
use crate::error::Result;
use crate::readers::extractor::{
    body_start, extract, has_block, has_title, lemma_body_start_bounds, lemma_lossless_fallback,
    raw_metadata,
};
use crate::readers::{Metadata, Reader};
use crate::settings::Settings;

verus! {

/// What the reader looks at in one event of a markdown document: the start
/// and end of headings and paragraphs, text, and line breaks. Every other
/// event is `Other`.
#[derive(Debug, PartialEq, Eq)]
pub enum Event {
    HeadingStart,
    HeadingEnd,
    ParagraphStart,
    ParagraphEnd,
    Text(String),
    SoftBreak,
    HardBreak,
    Other,
}

/// The model of an [`Event`].
pub enum EventView {
    HeadingStart,
    HeadingEnd,
    ParagraphStart,
    ParagraphEnd,
    Text(Seq<char>),
    SoftBreak,
    HardBreak,
    Other,
}

impl View for Event {
    type V = EventView;

    open spec fn view(&self) -> EventView {
        match self {
            Event::HeadingStart => EventView::HeadingStart,
            Event::HeadingEnd => EventView::HeadingEnd,
            Event::ParagraphStart => EventView::ParagraphStart,
            Event::ParagraphEnd => EventView::ParagraphEnd,
            Event::Text(text) => EventView::Text(text@),
            Event::SoftBreak => EventView::SoftBreak,
            Event::HardBreak => EventView::HardBreak,
            Event::Other => EventView::Other,
        }
    }
}

impl Clone for Event {
    fn clone(&self) -> (copy: Event)
        ensures
            copy@ == self@,
    {
        match self {
            Event::HeadingStart => Event::HeadingStart,
            Event::HeadingEnd => Event::HeadingEnd,
            Event::ParagraphStart => Event::ParagraphStart,
            Event::ParagraphEnd => Event::ParagraphEnd,
            Event::Text(text) => Event::Text(text.clone()),
            Event::SoftBreak => Event::SoftBreak,
            Event::HardBreak => Event::HardBreak,
            Event::Other => Event::Other,
        }
    }
}

impl DeepView for Event {
    type V = EventView;

    open spec fn deep_view(&self) -> EventView {
        self@
    }
}

/// The events that the markdown parser, with tables and footnotes enabled,
/// yields for a document with the text `input`, each as an [`EventView`].
pub uninterp spec fn markdown_events(input: Seq<char>) -> Seq<EventView>;

/// The HTML that the renderer writes for the events of the document `input`
/// that follow the first `skip`.
pub uninterp spec fn rendered_html(input: Seq<char>, skip: int) -> Seq<char>;

/// `pulldown_cmark::Parser::new_ext` with tables and footnotes enabled, run
/// to its end. The events it yields, each reduced to an [`Event`], are named
/// by [`markdown_events`].
#[verifier::external_body]
fn parse_events(input: &str) -> (events: Vec<Event>)
    ensures
        events.deep_view() == markdown_events(input@),
{
    Parser::new_ext(input, Options::ENABLE_TABLES | Options::ENABLE_FOOTNOTES).map(
        |event| match event {
            pulldown_cmark::Event::Start(Tag::Heading { .. }) => Event::HeadingStart,
            pulldown_cmark::Event::End(TagEnd::Heading(_)) => Event::HeadingEnd,
            pulldown_cmark::Event::Start(Tag::Paragraph) => Event::ParagraphStart,
            pulldown_cmark::Event::End(TagEnd::Paragraph) => Event::ParagraphEnd,
            pulldown_cmark::Event::Text(text) => Event::Text(text.into_string()),
            pulldown_cmark::Event::SoftBreak => Event::SoftBreak,
            pulldown_cmark::Event::HardBreak => Event::HardBreak,
            _ => Event::Other,
        },
    ).collect()
}

/// `pulldown_cmark::html::push_html` on the events that the same parser
/// yields for `input`, without the first `skip` of them. The HTML it writes
/// into an empty string is named by [`rendered_html`].
#[verifier::external_body]
fn render_events(input: &str, skip: usize) -> (html: String)
    ensures
        html@ == rendered_html(input@, skip as int),
{
    let mut html = String::new();
    let parser = Parser::new_ext(input, Options::ENABLE_TABLES | Options::ENABLE_FOOTNOTES);
    pulldown_cmark::html::push_html(&mut html, parser.skip(skip));
    html
}

/// A document that opens neither with a heading nor with a metadata block is
/// rendered whole, as if nothing had been looked for in it, and has no
/// metadata.
pub proof fn lemma_plain_documents_render_whole(input: Seq<char>)
    requires
        !has_title(markdown_events(input)),
        !has_block(markdown_events(input), 0),
    ensures
        rendered_html(input, body_start(markdown_events(input))) == rendered_html(input, 0),
        raw_metadata(markdown_events(input)) == Seq::<(Seq<char>, Seq<char>)>::empty(),
{
    lemma_lossless_fallback(markdown_events(input));
}

/// Reads markdown documents.
#[derive(Debug, Clone, Copy, PartialEq, Eq)]
pub struct MarkdownReader;

impl MarkdownReader {
    /// The document `input` rendered whole, with nothing lifted out of it.
    pub fn render(&self, input: &str) -> (html: String)
        ensures
            html@ == rendered_html(input@, 0),
    {
        render_events(input, 0)
    }
}

impl Reader for MarkdownReader {
    fn extensions() -> (list: Vec<&'static str>)
        ensures
            list@.len() == 2,
            list@[0]@ == "markdown"@,
            list@[1]@ == "md"@,
    {
        let mut list: Vec<&'static str> = Vec::new();
        list.push("markdown");
        list.push("md");
        list
    }

    fn new(_settings: &Settings) -> MarkdownReader {
        MarkdownReader
    }

    /// The body is the HTML of the events that follow the title and the
    /// metadata block; the metadata is what these two hold.
    fn read(&self, input: &str) -> (result: Result<(String, Metadata)>)
        ensures
            result matches Ok(pair) && {
                let events = markdown_events(input@);
                &&& pair.0@ == rendered_html(input@, body_start(events))
                &&& pair.1@ == raw_metadata(events)
                &&& pair.1.wf()
            },
    {
        let events = parse_events(input);
        let all = events.as_slice();
        let (body, metadata) = extract(all);
        proof {
            lemma_body_start_bounds(events.deep_view());
            assert(all.deep_view() =~= events.deep_view());
            assert(body.deep_view().len() == body.len());
        }
        let html = render_events(input, events.len() - body.len());
        Ok((html, metadata))
    }
}

} // verus!
