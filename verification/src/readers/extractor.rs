//! Lifting a title and a metadata block out of the events of a markdown
//! document.
//!
//! A document may open with a heading, which becomes its title, and then with
//! a paragraph in which every line is shaped like `key: value`, which becomes
//! its metadata. Both are taken out of the event stream; the rest of the
//! stream is left as it is. A paragraph in which some line is not shaped
//! like that is no metadata block and stays in the stream whole, so what is
//! handed on is always the stream without some prefix of it.

use vstd::prelude::*;
use vstd::string::*;
use crate::readers::markdown::{Event, EventView};
use crate::assoc::{distinct_keys, insert_entry, lemma_insert_entry, lemma_key_position_is};
use crate::readers::{Entries, Metadata};
use crate::scan::{first_from, lemma_first_from, lemma_first_from_is};
use crate::text::{
    alphanumeric, chars_of, contains_char, index_of, is_alphanumeric, lemma_index_of_bounds,
    lemma_index_of_unique, lowercase, owned, to_lowercase, trim_range, trimmed, views,
};

verus! {

/// A character that may open a metadata line.
pub open spec fn is_word_char(c: char) -> bool {
    alphanumeric(c) || c == '_'
}

/// A character that ends a line.
pub open spec fn is_line_break(c: char) -> bool {
    c == '\n' || c == '\r'
}

/// Whether `text` is shaped like a metadata line: it opens with a word
/// character and holds a colon with no line break before it.
pub open spec fn is_metadata_line(text: Seq<char>) -> bool {
    &&& text.len() > 0
    &&& is_word_char(text[0])
    &&& contains_char(text, ':')
    &&& forall|j: int| 0 <= j < index_of(text, ':') ==> !is_line_break(#[trigger] text[j])
}

/// The field name of a metadata line: what stands before the first colon,
/// trimmed and in lower case.
pub open spec fn line_key(line: Seq<char>) -> Seq<char> {
    lowercase(trimmed(line.take(index_of(line, ':'))))
}

/// The raw value of a metadata line: what follows the first colon, trimmed.
pub open spec fn line_value(line: Seq<char>) -> Seq<char> {
    let i = index_of(line, ':');
    if i < line.len() {
        trimmed(line.skip(i + 1))
    } else {
        Seq::empty()
    }
}

/// The events that end a heading.
pub open spec fn heading_ends() -> spec_fn(EventView) -> bool {
    |e: EventView| e is HeadingEnd
}

/// An event that may stand inside a metadata block: a metadata line or a
/// line break.
pub open spec fn is_line(e: EventView) -> bool {
    match e {
        EventView::Text(text) => is_metadata_line(text),
        EventView::SoftBreak => true,
        EventView::HardBreak => true,
        _ => false,
    }
}

/// The events that may not stand inside a metadata block.
pub open spec fn block_breakers() -> spec_fn(EventView) -> bool {
    |e: EventView| !is_line(e)
}

/// The position of the first heading end at or after `from`, or the length.
pub open spec fn heading_end(ev: Seq<EventView>, from: int) -> int {
    first_from(ev, heading_ends(), from)
}

/// The position of the first event at or after `from` that may not stand
/// inside a metadata block, or the length.
pub open spec fn block_end(ev: Seq<EventView>, from: int) -> int {
    first_from(ev, block_breakers(), from)
}

/// Whether the stream opens with a heading.
pub open spec fn has_title(ev: Seq<EventView>) -> bool {
    ev.len() > 0 && ev[0] is HeadingStart
}

/// The position after the title heading; 0 when the stream opens with none.
pub open spec fn title_end(ev: Seq<EventView>) -> int {
    if has_title(ev) {
        let h = heading_end(ev, 1);
        if h < ev.len() {
            h + 1
        } else {
            ev.len() as int
        }
    } else {
        0
    }
}

/// The texts of the text events in `ev[from..to]`, in order.
pub open spec fn texts(ev: Seq<EventView>, from: int, to: int) -> Seq<Seq<char>>
    decreases to - from,
{
    if to <= from {
        Seq::empty()
    } else {
        let before = texts(ev, from, to - 1);
        match ev[to - 1] {
            EventView::Text(text) => before.push(text),
            _ => before,
        }
    }
}

/// The parts one after the other.
pub open spec fn concat(parts: Seq<Seq<char>>) -> Seq<char>
    decreases parts.len(),
{
    if parts.len() == 0 {
        Seq::empty()
    } else {
        concat(parts.drop_last()) + parts.last()
    }
}

/// The metadata that a heading with the text parts `parts` gives: a title
/// when there is any text, else nothing.
pub open spec fn title_of(parts: Seq<Seq<char>>) -> Entries {
    if parts.len() > 0 {
        seq![("title"@, concat(parts))]
    } else {
        Seq::empty()
    }
}

/// The metadata that the title heading gives.
pub open spec fn title_entries(ev: Seq<EventView>) -> Entries {
    if has_title(ev) {
        title_of(texts(ev, 1, heading_end(ev, 1)))
    } else {
        Seq::empty()
    }
}

/// `m` after the metadata lines `lines` were stored in it, first to last.
pub open spec fn insert_lines(m: Entries, lines: Seq<Seq<char>>) -> Entries
    decreases lines.len(),
{
    if lines.len() == 0 {
        m
    } else {
        insert_entry(
            insert_lines(m, lines.drop_last()),
            line_key(lines.last()),
            line_value(lines.last()),
        )
    }
}

/// Whether a metadata block starts at `p`: a paragraph in which every event
/// up to its end, or up to the end of the stream, is a metadata line or a
/// line break.
pub open spec fn has_block(ev: Seq<EventView>, p: int) -> bool {
    &&& 0 <= p < ev.len()
    &&& ev[p] is ParagraphStart
    &&& (block_end(ev, p + 1) >= ev.len() || ev[block_end(ev, p + 1)] is ParagraphEnd)
}

/// Where the body starts: after the title heading and the metadata block.
/// The events handed on are `ev.skip(body_start(ev))`.
pub open spec fn body_start(ev: Seq<EventView>) -> int {
    let p = title_end(ev);
    if has_block(ev, p) {
        let q = block_end(ev, p + 1);
        if q < ev.len() {
            q + 1
        } else {
            ev.len() as int
        }
    } else {
        p
    }
}

/// The raw metadata of the stream: the title, then the lines of the
/// metadata block.
pub open spec fn raw_metadata(ev: Seq<EventView>) -> Entries {
    let p = title_end(ev);
    if has_block(ev, p) {
        insert_lines(title_entries(ev), texts(ev, p + 1, block_end(ev, p + 1)))
    } else {
        title_entries(ev)
    }
}

/// The body starts inside the stream or at its end.
pub proof fn lemma_body_start_bounds(ev: Seq<EventView>)
    ensures
        0 <= title_end(ev) <= body_start(ev) <= ev.len(),
{
    if has_title(ev) {
        lemma_first_from(ev, heading_ends(), 1);
    }
    let p = title_end(ev);
    if has_block(ev, p) {
        lemma_first_from(ev, block_breakers(), p + 1);
    }
}

/// A stream that opens neither with a heading nor with a metadata block is
/// handed on whole, and no metadata is taken from it.
pub proof fn lemma_lossless_fallback(ev: Seq<EventView>)
    requires
        !has_title(ev),
        !has_block(ev, 0),
    ensures
        body_start(ev) == 0,
        ev.skip(body_start(ev)) == ev,
        raw_metadata(ev) == Seq::<(Seq<char>, Seq<char>)>::empty(),
{
    assert(ev.skip(0) == ev);
}

/// Nothing is lost: every event that is not handed on belongs to the title
/// heading, which runs up to the first heading end, or to the metadata
/// block, which holds a paragraph start, metadata lines and line breaks, and
/// a paragraph end.
pub proof fn lemma_consumed_events(ev: Seq<EventView>, i: int)
    requires
        0 <= i < body_start(ev),
    ensures
        i < title_end(ev) ==> has_title(ev) && (i < heading_end(ev, 1) || ev[i] is HeadingEnd),
        i >= title_end(ev) ==> has_block(ev, title_end(ev)) && (i == title_end(ev) || is_line(ev[i])
            || ev[i] is ParagraphEnd),
{
    lemma_body_start_bounds(ev);
    let p = title_end(ev);
    if i < p {
        lemma_first_from(ev, heading_ends(), 1);
    } else {
        lemma_first_from(ev, block_breakers(), p + 1);
    }
}

proof fn lemma_texts_same(a: Seq<EventView>, b: Seq<EventView>, from: int, to: int)
    requires
        0 <= from,
        to <= a.len(),
        to <= b.len(),
        forall|i: int| from <= i < to ==> a[i] == b[i],
    ensures
        texts(a, from, to) == texts(b, from, to),
    decreases to - from,
{
    if to > from {
        lemma_texts_same(a, b, from, to - 1);
    }
}

proof fn lemma_concat_push(parts: Seq<Seq<char>>, last: Seq<char>)
    ensures
        concat(parts.push(last)) == concat(parts) + last,
{
    assert(parts.push(last).drop_last() == parts);
}

proof fn lemma_insert_lines_distinct(m: Entries, lines: Seq<Seq<char>>)
    requires
        distinct_keys(m),
    ensures
        distinct_keys(insert_lines(m, lines)),
    decreases lines.len(),
{
    if lines.len() > 0 {
        lemma_insert_lines_distinct(m, lines.drop_last());
        lemma_insert_entry(
            insert_lines(m, lines.drop_last()),
            line_key(lines.last()),
            line_value(lines.last()),
        );
    }
}

/// Whether `text` is shaped like a metadata line.
pub fn looks_like_metadata(text: &str) -> (r: bool)
    ensures
        r == is_metadata_line(text@),
{
    let chars = chars_of(text);
    if chars.len() == 0 {
        return false;
    }
    let first = chars[0];
    if !(is_alphanumeric(first) || first == '_') {
        return false;
    }
    let mut i: usize = 0;
    while i < chars.len()
        invariant
            i <= chars.len(),
            chars@ == text@,
            chars.len() > 0,
            is_word_char(chars@[0]),
            forall|j: int| 0 <= j < i ==> chars@[j] != ':' && !is_line_break(#[trigger] chars@[j]),
        decreases chars.len() - i,
    {
        let c = chars[i];
        if c == ':' {
            proof {
                lemma_index_of_unique(chars@, ':', i as int);
            }
            return true;
        }
        if c == '\n' || c == '\r' {
            proof {
                lemma_index_of_bounds(chars@, ':');
                let k = index_of(chars@, ':');
                if k <= i && k < chars.len() {
                    assert(chars@[k] == ':');
                }
                assert(is_line_break(chars@[i as int]));
            }
            return false;
        }
        i += 1;
    }
    proof {
        lemma_index_of_unique(chars@, ':', chars.len() as int);
    }
    false
}

/// The field name and the raw value of a metadata line.
pub fn split_line(line: &str) -> (pair: (String, String))
    ensures
        pair.0@ == line_key(line@),
        pair.1@ == line_value(line@),
{
    let chars = chars_of(line);
    let mut i: usize = 0;
    while i < chars.len() && chars[i] != ':'
        invariant
            i <= chars.len(),
            forall|j: int| 0 <= j < i ==> chars@[j] != ':',
        decreases chars.len() - i,
    {
        i += 1;
    }
    proof {
        lemma_index_of_unique(chars@, ':', i as int);
        assert(chars@.take(i as int) == chars@.subrange(0, i as int));
    }
    let name = trim_range(&chars, 0, i);
    let key = to_lowercase(name.as_str());
    let value = if i < chars.len() {
        assert(chars@.skip(i + 1) == chars@.subrange(i + 1, chars.len() as int));
        trim_range(&chars, i + 1, chars.len())
    } else {
        String::new()
    };
    (key, value)
}

/// Stores the metadata lines `lines` in `metadata`, first to last.
pub fn store_lines(metadata: &mut Metadata, lines: &Vec<String>)
    requires
        old(metadata).wf(),
    ensures
        final(metadata).wf(),
        final(metadata)@ == insert_lines(old(metadata)@, views(lines@)),
{
    let mut i: usize = 0;
    assert(views(lines@).take(0) == Seq::<Seq<char>>::empty());
    while i < lines.len()
        invariant
            i <= lines.len(),
            metadata.wf(),
            metadata@ == insert_lines(old(metadata)@, views(lines@).take(i as int)),
        decreases lines.len() - i,
    {
        let pair = split_line(lines[i].as_str());
        proof {
            let next = views(lines@).take(i + 1);
            assert(next.drop_last() == views(lines@).take(i as int));
            assert(next.last() == lines@[i as int]@);
        }
        metadata.insert(pair.0, pair.1);
        i += 1;
    }
    assert(views(lines@).take(lines.len() as int) == views(lines@));
}

/// Where the extractor stands in the document.
#[derive(Clone, Copy, Debug, PartialEq, Eq)]
pub enum State {
    /// Nothing was seen yet.
    BeforeTitle,
    /// Inside the heading that opens the document.
    InsideTitle,
    /// After that heading.
    BeforeMetadata,
    /// Inside a first paragraph in which every line so far is a metadata line.
    InsideMetadata,
    /// In the body: every further event is handed on.
    InsideBody,
}

/// The state that follows `state` when `event` is taken. Before the title, a
/// heading start opens the title and a paragraph start opens what may be a
/// metadata block; after the title only the latter. The title ends with the
/// heading. What may be a metadata block lasts as long as metadata lines and
/// line breaks come. Everything else leads to the body, which is never left.
pub open spec fn next_state(state: State, event: EventView) -> State {
    match state {
        State::BeforeTitle => match event {
            EventView::HeadingStart => State::InsideTitle,
            EventView::ParagraphStart => State::InsideMetadata,
            _ => State::InsideBody,
        },
        State::InsideTitle => match event {
            EventView::HeadingEnd => State::BeforeMetadata,
            _ => State::InsideTitle,
        },
        State::BeforeMetadata => match event {
            EventView::ParagraphStart => State::InsideMetadata,
            _ => State::InsideBody,
        },
        State::InsideMetadata => if is_line(event) {
            State::InsideMetadata
        } else {
            State::InsideBody
        },
        State::InsideBody => State::InsideBody,
    }
}

/// No heading ends in `h[from..to]`.
pub open spec fn no_heading_end(h: Seq<EventView>, from: int, to: int) -> bool {
    forall|i: int| from <= i < to ==> !((#[trigger] h[i]) is HeadingEnd)
}

/// Every event in `h[from..to]` may stand inside a metadata block.
pub open spec fn all_lines(h: Seq<EventView>, from: int, to: int) -> bool {
    forall|i: int| from <= i < to ==> is_line(#[trigger] h[i])
}

/// The title part of `h` is settled and ends before `p`.
pub open spec fn titled(h: Seq<EventView>, p: int) -> bool {
    if p == 0 {
        h.len() > 0 && !(h[0] is HeadingStart)
    } else {
        &&& 2 <= p <= h.len()
        &&& h[0] is HeadingStart
        &&& h[p - 1] is HeadingEnd
        &&& no_heading_end(h, 1, p - 1)
    }
}

/// The metadata of a title part that ends before `p`.
pub open spec fn titled_entries(h: Seq<EventView>, p: int) -> Entries {
    if p == 0 {
        Seq::empty()
    } else {
        title_of(texts(h, 1, p - 1))
    }
}

proof fn lemma_titled(h: Seq<EventView>, p: int)
    requires
        titled(h, p),
    ensures
        title_end(h) == p,
        title_entries(h) == titled_entries(h, p),
{
    if p > 0 {
        lemma_first_from_is(h, heading_ends(), 1, p - 1);
    }
}

proof fn lemma_block_end(h: Seq<EventView>, p: int, q: int)
    requires
        0 <= p < q <= h.len(),
        all_lines(h, p + 1, q),
        q < h.len() ==> !is_line(h[q]),
    ensures
        block_end(h, p + 1) == q,
{
    lemma_first_from_is(h, block_breakers(), p + 1, q);
}

/// The state machine that reads the events of a document one at a time and
/// decides where its body starts and what its metadata is.
pub struct MetadataExtractor {
    state: State,
    seen: usize,
    held_from: usize,
    stop: usize,
    body_start: usize,
    title: String,
    titled: bool,
    lines: Vec<String>,
    metadata: Metadata,
    history: Ghost<Seq<EventView>>,
}

impl MetadataExtractor {
    /// The events fed so far.
    pub closed spec fn history(&self) -> Seq<EventView> {
        self.history@
    }

    /// The state that the extractor is in.
    pub closed spec fn current(&self) -> State {
        self.state
    }

    /// What the extractor holds agrees with the events fed so far.
    pub closed spec fn wf(&self) -> bool {
        let h = self.history@;
        let p = self.held_from as int;
        let q = self.stop as int;
        &&& self.metadata.wf()
        &&& self.seen == h.len()
        &&& match self.state {
            State::BeforeTitle => h.len() == 0 && self.metadata@ == Seq::<
                (Seq<char>, Seq<char>),
            >::empty(),
            State::InsideTitle => {
                &&& h.len() >= 1
                &&& h[0] is HeadingStart
                &&& no_heading_end(h, 1, h.len() as int)
                &&& self.metadata@ == Seq::<(Seq<char>, Seq<char>)>::empty()
                &&& self.title@ == concat(texts(h, 1, h.len() as int))
                &&& self.titled == (texts(h, 1, h.len() as int).len() > 0)
            },
            State::BeforeMetadata => {
                &&& h.len() >= 2
                &&& titled(h, h.len() as int)
                &&& self.metadata@ == titled_entries(h, h.len() as int)
            },
            State::InsideMetadata => {
                &&& titled(h, p)
                &&& p < h.len()
                &&& h[p] is ParagraphStart
                &&& all_lines(h, p + 1, h.len() as int)
                &&& views(self.lines@) == texts(h, p + 1, h.len() as int)
                &&& self.metadata@ == titled_entries(h, p)
            },
            State::InsideBody => {
                &&& titled(h, p)
                &&& p < h.len()
                &&& if h[p] is ParagraphStart {
                    &&& p < q < h.len()
                    &&& all_lines(h, p + 1, q)
                    &&& !is_line(h[q])
                    &&& if h[q] is ParagraphEnd {
                        &&& self.body_start == q + 1
                        &&& self.metadata@ == insert_lines(
                            titled_entries(h, p),
                            texts(h, p + 1, q),
                        )
                    } else {
                        &&& self.body_start == p
                        &&& self.metadata@ == titled_entries(h, p)
                    }
                } else {
                    &&& self.body_start == p
                    &&& self.metadata@ == titled_entries(h, p)
                }
            },
        }
    }

    /// An extractor that has seen nothing.
    pub fn new() -> (machine: MetadataExtractor)
        ensures
            machine.wf(),
            machine.history() == Seq::<EventView>::empty(),
            machine.current() is BeforeTitle,
    {
        MetadataExtractor {
            state: State::BeforeTitle,
            seen: 0,
            held_from: 0,
            stop: 0,
            body_start: 0,
            title: String::new(),
            titled: false,
            lines: Vec::new(),
            metadata: Metadata::new(),
            history: Ghost(Seq::empty()),
        }
    }

    /// The state that the extractor is in.
    pub fn state(&self) -> (state: State)
        ensures
            state == self.current(),
    {
        self.state
    }

    /// Takes the next event of the document.
    #[verifier::rlimit(40)]
    pub fn feed(&mut self, event: &Event)
        requires
            old(self).wf(),
            old(self).history().len() < usize::MAX,
        ensures
            final(self).wf(),
            final(self).history() == old(self).history().push(event@),
            final(self).current() == next_state(old(self).current(), event@),
    {
        let ghost h = self.history@;
        let ghost next = h.push(event@);
        let k = self.seen;
        proof {
            let p = self.held_from as int;
            lemma_texts_same(h, next, 1, h.len() as int);
            if p + 1 <= h.len() {
                lemma_texts_same(h, next, p + 1, h.len() as int);
            }
            if 1 <= p <= h.len() {
                lemma_texts_same(h, next, 1, p - 1);
            }
            if p < self.stop < h.len() {
                lemma_texts_same(h, next, p + 1, self.stop as int);
            }
        }
        match self.state {
            State::BeforeTitle => {
                match event {
                    Event::HeadingStart => {
                        self.state = State::InsideTitle;
                        self.title = String::new();
                        self.titled = false;
                    },
                    Event::ParagraphStart => {
                        self.state = State::InsideMetadata;
                        self.held_from = k;
                        self.lines = Vec::new();
                        assert(views(self.lines@) =~= Seq::<Seq<char>>::empty());
                    },
                    _ => {
                        self.state = State::InsideBody;
                        self.held_from = k;
                        self.body_start = k;
                    },
                }
            },
            State::InsideTitle => {
                match event {
                    Event::Text(text) => {
                        proof {
                            lemma_concat_push(texts(h, 1, h.len() as int), text@);
                        }
                        self.title.append(text.as_str());
                        self.titled = true;
                    },
                    Event::HeadingEnd => {
                        if self.titled {
                            let title = self.title.clone();
                            proof {
                                lemma_insert_entry(self.metadata@, "title"@, title@);
                                lemma_key_position_is(self.metadata@, "title"@, 0);
                            }
                            self.metadata.insert(owned("title"), title);
                            assert(self.metadata@ =~= title_of(texts(h, 1, h.len() as int)));
                        }
                        self.state = State::BeforeMetadata;
                    },
                    _ => {},
                }
            },
            State::BeforeMetadata => {
                match event {
                    Event::ParagraphStart => {
                        self.state = State::InsideMetadata;
                        self.held_from = k;
                        self.lines = Vec::new();
                        assert(views(self.lines@) =~= Seq::<Seq<char>>::empty());
                    },
                    _ => {
                        self.state = State::InsideBody;
                        self.held_from = k;
                        self.body_start = k;
                    },
                }
            },
            State::InsideMetadata => {
                match event {
                    Event::Text(text) => {
                        if looks_like_metadata(text.as_str()) {
                            let line = text.clone();
                            proof {
                                assert(views(self.lines@.push(line)) =~= views(self.lines@).push(
                                    text@,
                                ));
                            }
                            self.lines.push(line);
                        } else {
                            self.state = State::InsideBody;
                            self.stop = k;
                            self.body_start = self.held_from;
                        }
                    },
                    Event::SoftBreak => {},
                    Event::HardBreak => {},
                    Event::ParagraphEnd => {
                        proof {
                            lemma_insert_lines_distinct(self.metadata@, views(self.lines@));
                        }
                        store_lines(&mut self.metadata, &self.lines);
                        self.state = State::InsideBody;
                        self.stop = k;
                        self.body_start = k + 1;
                    },
                    _ => {
                        self.state = State::InsideBody;
                        self.stop = k;
                        self.body_start = self.held_from;
                    },
                }
            },
            State::InsideBody => {},
        }
        self.seen = k + 1;
        self.history = Ghost(next);
    }

    /// Ends the document: the position at which its body starts, and its raw
    /// metadata. A heading or a metadata block that the document ends in is
    /// taken as if it had been closed.
    pub fn finish(self) -> (result: (usize, Metadata))
        requires
            self.wf(),
        ensures
            result.0 == body_start(self.history()),
            result.1@ == raw_metadata(self.history()),
            result.1.wf(),
    {
        let ghost h = self.history@;
        let ghost p = self.held_from as int;
        let mut metadata = self.metadata;
        match self.state {
            State::BeforeTitle => (0, metadata),
            State::InsideTitle => {
                proof {
                    lemma_first_from_is(h, heading_ends(), 1, h.len() as int);
                }
                if self.titled {
                    proof {
                        lemma_key_position_is(metadata@, "title"@, 0);
                    }
                    metadata.insert(owned("title"), self.title);
                    assert(metadata@ =~= title_of(texts(h, 1, h.len() as int)));
                }
                (self.seen, metadata)
            },
            State::BeforeMetadata => {
                proof {
                    lemma_titled(h, h.len() as int);
                }
                (self.seen, metadata)
            },
            State::InsideMetadata => {
                proof {
                    lemma_titled(h, p);
                    lemma_block_end(h, p, h.len() as int);
                }
                store_lines(&mut metadata, &self.lines);
                (self.seen, metadata)
            },
            State::InsideBody => {
                proof {
                    lemma_titled(h, p);
                    if h[p] is ParagraphStart {
                        lemma_block_end(h, p, self.stop as int);
                    }
                }
                (self.body_start, metadata)
            },
        }
    }
}

/// Separates the title and the metadata block that a document opens with
/// from its body: the events of the body, which are the given ones without
/// those that were lifted out, and the raw metadata.
pub fn extract(events: &[Event]) -> (result: (&[Event], Metadata))
    ensures
        result.0.deep_view() == events.deep_view().skip(body_start(events.deep_view())),
        result.1@ == raw_metadata(events.deep_view()),
        result.1.wf(),
{
    let ghost ev = events.deep_view();
    let mut machine = MetadataExtractor::new();
    let mut i: usize = 0;
    assert(ev.take(0) == Seq::<EventView>::empty());
    while i < events.len()
        invariant
            i <= events.len(),
            ev == events.deep_view(),
            machine.wf(),
            machine.history() == ev.take(i as int),
        decreases events.len() - i,
    {
        machine.feed(&events[i]);
        proof {
            assert(ev[i as int] == events[i as int]@);
            assert(ev.take(i + 1) == ev.take(i as int).push(ev[i as int]));
        }
        i += 1;
    }
    proof {
        assert(ev.take(events.len() as int) == ev);
        lemma_body_start_bounds(ev);
    }
    let (start, metadata) = machine.finish();
    let body = &events[start..events.len()];
    assert(body.deep_view() =~= ev.skip(start as int));
    (body, metadata)
}

} // verus!
