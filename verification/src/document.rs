//! Documents: metadata, and a text or a list of other documents.

use vstd::prelude::*;
use vstd::std_specs::convert::FromSpecImpl;
use std::rc::Rc;
use crate::assoc::{distinct_keys, insert_entry, lemma_insert_entry, lemma_key_position_is};
use crate::error::{Error, Result};
use crate::metadata::{
    coerce, coerced, coercible, field_kind, keyword_list, kind_of, lemma_list_view, rfc3339,
    text_values, DateTime,
    FieldKind, Value, ValueView,
};
use crate::readers::Metadata;
use crate::scan::{first_from, lemma_first_from_is};
use crate::site::option_view;
use crate::text::{lowercase, same, to_lowercase, trimmed, views};

verus! {

/// What is known of a document apart from its content.
#[derive(Debug)]
pub struct DocumentMetadata {
    /// The address of the document inside the site.
    pub url: String,
    pub title: String,
    pub language: Option<String>,
    pub modified: Option<DateTime>,
    pub created: Option<DateTime>,
    pub keywords: Vec<String>,
    /// The fields with other names, each name once.
    pub extra: Vec<(String, Value)>,
}

/// The model of a [`DocumentMetadata`].
pub struct DocumentMetadataView {
    pub url: Seq<char>,
    pub title: Seq<char>,
    pub language: Option<Seq<char>>,
    pub modified: Option<DateTime>,
    pub created: Option<DateTime>,
    pub keywords: Seq<Seq<char>>,
    pub extra: Seq<(Seq<char>, ValueView)>,
}

/// The model of a list of named values.
pub open spec fn extra_view(extra: Seq<(String, Value)>) -> Seq<(Seq<char>, ValueView)> {
    Seq::new(extra.len(), |i: int| (extra[i].0@, extra[i].1@))
}

impl View for DocumentMetadata {
    type V = DocumentMetadataView;

    open spec fn view(&self) -> DocumentMetadataView {
        DocumentMetadataView {
            url: self.url@,
            title: self.title@,
            language: option_view(self.language),
            modified: self.modified,
            created: self.created,
            keywords: views(self.keywords@),
            extra: extra_view(self.extra@),
        }
    }
}

impl DeepView for DocumentMetadata {
    type V = DocumentMetadataView;

    open spec fn deep_view(&self) -> DocumentMetadataView {
        self@
    }
}

/// Metadata with nothing in it.
pub open spec fn empty_metadata() -> DocumentMetadataView {
    DocumentMetadataView {
        url: Seq::empty(),
        title: Seq::empty(),
        language: None,
        modified: None,
        created: None,
        keywords: Seq::empty(),
        extra: Seq::empty(),
    }
}

/// Whether a raw field cannot be taken: its name, in lower case, is that of
/// a date field and its value is no date.
pub open spec fn invalid_field(key: Seq<char>, raw: Seq<char>) -> bool {
    !coercible(lowercase(key), raw)
}

/// The raw fields that cannot be taken.
pub open spec fn invalid_fields() -> spec_fn((Seq<char>, Seq<char>)) -> bool {
    |pair: (Seq<char>, Seq<char>)| invalid_field(pair.0, pair.1)
}

/// The position of the first raw field that cannot be taken, or the length.
pub open spec fn first_invalid(pairs: Seq<(Seq<char>, Seq<char>)>) -> int {
    first_from(pairs, invalid_fields(), 0)
}

/// `m` after the raw field `key` with the value `raw` was taken into it. The
/// name counts in lower case. The address is never taken from a raw field; a
/// name that is not known goes to `extra` with the raw string as its value.
pub open spec fn with_field(m: DocumentMetadataView, key: Seq<char>, raw: Seq<char>) -> DocumentMetadataView {
    let name = lowercase(key);
    match field_kind(name) {
        FieldKind::Title => DocumentMetadataView { title: trimmed(raw), ..m },
        FieldKind::Language => DocumentMetadataView { language: Some(trimmed(raw)), ..m },
        FieldKind::Created => DocumentMetadataView { created: rfc3339(raw), ..m },
        FieldKind::Modified => DocumentMetadataView { modified: rfc3339(raw), ..m },
        FieldKind::Keywords => DocumentMetadataView { keywords: keyword_list(raw), ..m },
        FieldKind::Url => m,
        FieldKind::Extra => DocumentMetadataView {
            extra: insert_entry(m.extra, name, ValueView::String(raw)),
            ..m
        },
    }
}

/// `m` after the raw fields `pairs` were taken into it, first to last.
pub open spec fn with_fields(
    m: DocumentMetadataView,
    pairs: Seq<(Seq<char>, Seq<char>)>,
) -> DocumentMetadataView
    decreases pairs.len(),
{
    if pairs.len() == 0 {
        m
    } else {
        with_field(with_fields(m, pairs.drop_last()), pairs.last().0, pairs.last().1)
    }
}

/// Raw fields never set the address of a document.
pub proof fn lemma_address_is_kept(m: DocumentMetadataView, pairs: Seq<(Seq<char>, Seq<char>)>)
    ensures
        with_fields(m, pairs).url == m.url,
    decreases pairs.len(),
{
    if pairs.len() > 0 {
        lemma_address_is_kept(m, pairs.drop_last());
    }
}

/// The texts of a list of values in which every value is a text.
fn texts_of(items: &Vec<Value>, Ghost(list): Ghost<Seq<Seq<char>>>) -> (texts: Vec<String>)
    requires
        items@.len() == list.len(),
        forall|i: int| 0 <= i < list.len() ==> (#[trigger] items@[i])@ == ValueView::String(list[i]),
    ensures
        views(texts@) == list,
{
    let mut texts: Vec<String> = Vec::new();
    let mut i: usize = 0;
    while i < items.len()
        invariant
            i <= items.len(),
            items@.len() == list.len(),
            forall|i: int|
                0 <= i < list.len() ==> (#[trigger] items@[i])@ == ValueView::String(list[i]),
            views(texts@) == list.take(i as int),
        decreases items.len() - i,
    {
        match &items[i] {
            Value::String(s) => {
                let text = s.clone();
                assert(items@[i as int]@ == ValueView::String(list[i as int]));
                assert(views(texts@.push(text)) =~= list.take(i as int).push(text@));
                texts.push(text);
            },
            _ => {
                assert(false);
            },
        }
        i += 1;
    }
    assert(list.take(items.len() as int) =~= list);
    texts
}

/// Stores `value` under `name`, replacing what was stored there.
fn store_extra(extra: &mut Vec<(String, Value)>, name: String, value: Value)
    requires
        distinct_keys(extra_view(old(extra)@)),
    ensures
        distinct_keys(extra_view(final(extra)@)),
        extra_view(final(extra)@) == insert_entry(extra_view(old(extra)@), name@, value@),
{
    let ghost before = extra_view(extra@);
    let mut i: usize = 0;
    while i < extra.len() && !same(extra[i].0.as_str(), name.as_str())
        invariant
            i <= extra.len(),
            extra_view(extra@) == before,
            forall|j: int| 0 <= j < i ==> (#[trigger] before[j]).0 != name@,
        decreases extra.len() - i,
    {
        assert(before[i as int].0 == extra@[i as int].0@);
        i += 1;
    }
    proof {
        if i < extra.len() {
            assert(before[i as int].0 == extra@[i as int].0@);
        }
        lemma_key_position_is(before, name@, i as int);
        lemma_insert_entry(before, name@, value@);
    }
    if i < extra.len() {
        extra.remove(i);
        extra.insert(i, (name, value));
    } else {
        extra.push((name, value));
    }
    assert(extra_view(extra@) =~= insert_entry(before, name@, value@));
}

impl Default for DocumentMetadata {
    fn default() -> (metadata: DocumentMetadata)
        ensures
            metadata@ == empty_metadata(),
            metadata.wf(),
    {
        let metadata = DocumentMetadata {
            url: String::new(),
            title: String::new(),
            language: None,
            modified: None,
            created: None,
            keywords: Vec::new(),
            extra: Vec::new(),
        };
        assert(metadata@.keywords =~= Seq::<Seq<char>>::empty());
        assert(metadata@.extra =~= Seq::<(Seq<char>, ValueView)>::empty());
        metadata
    }
}

impl Clone for DocumentMetadata {
    fn clone(&self) -> (copy: DocumentMetadata)
        ensures
            copy@ == self@,
    {
        let mut keywords: Vec<String> = Vec::new();
        let mut i: usize = 0;
        while i < self.keywords.len()
            invariant
                i <= self.keywords.len(),
                views(keywords@) == views(self.keywords@).take(i as int),
            decreases self.keywords.len() - i,
        {
            let keyword = self.keywords[i].clone();
            assert(views(self.keywords@)[i as int] == self.keywords@[i as int]@);
            assert(views(keywords@.push(keyword)) =~= views(keywords@).push(keyword@));
            assert(views(keywords@).push(keyword@) =~= views(self.keywords@).take(i + 1));
            keywords.push(keyword);
            i += 1;
        }
        assert(views(self.keywords@).take(self.keywords.len() as int) =~= views(self.keywords@));
        let mut extra: Vec<(String, Value)> = Vec::new();
        let mut j: usize = 0;
        while j < self.extra.len()
            invariant
                j <= self.extra.len(),
                extra_view(extra@) == extra_view(self.extra@).take(j as int),
            decreases self.extra.len() - j,
        {
            let entry = (self.extra[j].0.clone(), self.extra[j].1.clone());
            assert(extra_view(self.extra@)[j as int] == (
                self.extra@[j as int].0@,
                self.extra@[j as int].1@,
            ));
            assert(extra_view(extra@.push(entry)) =~= extra_view(extra@).push((entry.0@, entry.1@)));
            assert(extra_view(extra@).push((entry.0@, entry.1@)) =~= extra_view(self.extra@).take(
                j + 1,
            ));
            extra.push(entry);
            j += 1;
        }
        assert(extra_view(self.extra@).take(self.extra.len() as int) =~= extra_view(self.extra@));
        DocumentMetadata {
            url: self.url.clone(),
            title: self.title.clone(),
            language: self.language.clone(),
            modified: self.modified,
            created: self.created,
            keywords,
            extra,
        }
    }
}

impl DocumentMetadata {
    /// No two fields in `extra` share a name.
    pub open spec fn wf(&self) -> bool {
        distinct_keys(self@.extra)
    }

    /// Takes the raw field `name`, given in lower case, with the value that
    /// it was coerced to.
    #[verifier::rlimit(40)]
    fn take_field(&mut self, name: String, raw: &str, value: Value)
        requires
            old(self).wf(),
            coercible(name@, raw@),
            value@ == coerced(name@, raw@),
        ensures
            final(self).wf(),
            final(self)@ == (match field_kind(name@) {
                FieldKind::Title => DocumentMetadataView { title: trimmed(raw@), ..old(self)@ },
                FieldKind::Language => DocumentMetadataView {
                    language: Some(trimmed(raw@)),
                    ..old(self)@
                },
                FieldKind::Created => DocumentMetadataView { created: rfc3339(raw@), ..old(self)@ },
                FieldKind::Modified => DocumentMetadataView {
                    modified: rfc3339(raw@),
                    ..old(self)@
                },
                FieldKind::Keywords => DocumentMetadataView {
                    keywords: keyword_list(raw@),
                    ..old(self)@
                },
                FieldKind::Url => old(self)@,
                FieldKind::Extra => DocumentMetadataView {
                    extra: insert_entry(old(self)@.extra, name@, ValueView::String(raw@)),
                    ..old(self)@
                },
            }),
    {
        let ghost given = value@;
        match kind_of(name.as_str()) {
            FieldKind::Title => {
                match value {
                    Value::String(s) => {
                        self.title = s;
                    },
                    _ => {
                        assert(false);
                    },
                }
            },
            FieldKind::Language => {
                match value {
                    Value::String(s) => {
                        self.language = Some(s);
                    },
                    _ => {
                        assert(false);
                    },
                }
            },
            FieldKind::Created => {
                match value {
                    Value::DateTime(date) => {
                        self.created = Some(date);
                    },
                    _ => {
                        assert(false);
                    },
                }
            },
            FieldKind::Modified => {
                match value {
                    Value::DateTime(date) => {
                        self.modified = Some(date);
                    },
                    _ => {
                        assert(false);
                    },
                }
            },
            FieldKind::Keywords => {
                match value {
                    Value::Vec(items) => {
                        proof {
                            let list = keyword_list(raw@);
                            let shown = given->Vec_0;
                            assert(shown == text_values(list));
                            lemma_list_view(items);
                            assert(shown.len() == items@.len());
                            assert forall|i: int| 0 <= i < list.len() implies (
                            #[trigger] items@[i])@ == ValueView::String(list[i]) by {
                                assert(shown[i] == items@[i]@);
                            }
                        }
                        self.keywords = texts_of(&items, Ghost(keyword_list(raw@)));
                    },
                    _ => {
                        assert(false);
                    },
                }
            },
            FieldKind::Url => {},
            FieldKind::Extra => {
                store_extra(&mut self.extra, name, value);
            },
        }
    }

    /// The metadata that the raw fields `pairs` give. Each name counts in
    /// lower case and each value is coerced as its field asks; where a name
    /// comes twice the later value stays. The address stays empty. A date
    /// field whose value is no date makes the whole fail, with the first
    /// such value as the invalid date.
    pub fn from_raw(pairs: &Metadata) -> (result: Result<DocumentMetadata>)
        ensures
            match result {
                Ok(metadata) => {
                    &&& first_invalid(pairs@) == pairs@.len()
                    &&& metadata@ == with_fields(empty_metadata(), pairs@)
                    &&& metadata.wf()
                },
                Err(e) => {
                    &&& first_invalid(pairs@) < pairs@.len()
                    &&& e matches Error::InvalidDate { date }
                    &&& date@ == pairs@[first_invalid(pairs@)].1
                },
            },
    {
        let mut metadata = DocumentMetadata::default();
        let mut i: usize = 0;
        assert(pairs@.take(0) =~= Seq::<(Seq<char>, Seq<char>)>::empty());
        while i < pairs.len()
            invariant
                i <= pairs@.len(),
                forall|j: int| 0 <= j < i ==> !invalid_fields()(#[trigger] pairs@[j]),
                metadata@ == with_fields(empty_metadata(), pairs@.take(i as int)),
                metadata.wf(),
            decreases pairs@.len() - i,
        {
            let key = pairs.key_at(i);
            let raw = pairs.value_at(i);
            let name = to_lowercase(key.as_str());
            proof {
                let next = pairs@.take(i + 1);
                assert(next.drop_last() =~= pairs@.take(i as int));
                assert(next.last() == pairs@[i as int]);
            }
            match coerce(name.as_str(), raw.as_str()) {
                Ok(value) => {
                    metadata.take_field(name, raw.as_str(), value);
                },
                Err(e) => {
                    proof {
                        lemma_first_from_is(pairs@, invalid_fields(), 0, i as int);
                    }
                    return Err(e);
                },
            }
            i += 1;
        }
        proof {
            assert(pairs@.take(pairs@.len() as int) =~= pairs@);
            lemma_first_from_is(pairs@, invalid_fields(), 0, pairs@.len() as int);
        }
        Ok(metadata)
    }
}

/// What a document holds: a text, or the documents that an index lists.
#[derive(Debug)]
pub enum DocumentContent {
    Text { content: String },
    Index { documents: Vec<Rc<DocumentMetadata>> },
}

/// The model of a [`DocumentContent`].
pub enum DocumentContentView {
    Text { content: Seq<char> },
    Index { documents: Seq<DocumentMetadataView> },
}

impl View for DocumentContent {
    type V = DocumentContentView;

    open spec fn view(&self) -> DocumentContentView {
        match self {
            DocumentContent::Text { content } => DocumentContentView::Text { content: content@ },
            DocumentContent::Index { documents } => DocumentContentView::Index {
                documents: documents.deep_view(),
            },
        }
    }
}

impl From<String> for DocumentContent {
    fn from(text: String) -> (content: DocumentContent) {
        DocumentContent::Text { content: text }
    }
}

impl FromSpecImpl<String> for DocumentContent {
    open spec fn obeys_from_spec() -> bool {
        true
    }

    open spec fn from_spec(text: String) -> DocumentContent {
        DocumentContent::Text { content: text }
    }
}

impl DocumentContent {
    /// The content of an index that lists `documents`.
    pub fn from_iter(documents: Vec<Rc<DocumentMetadata>>) -> (content: DocumentContent)
        ensures
            content == (DocumentContent::Index { documents }),
    {
        DocumentContent::Index { documents }
    }
}

/// A document: its metadata and its content.
#[derive(Debug)]
pub struct Document {
    pub metadata: DocumentMetadata,
    pub content: DocumentContent,
}

/// The model of a [`Document`].
pub struct DocumentView {
    pub metadata: DocumentMetadataView,
    pub content: DocumentContentView,
}

impl View for Document {
    type V = DocumentView;

    open spec fn view(&self) -> DocumentView {
        DocumentView { metadata: self.metadata@, content: self.content@ }
    }
}

impl DeepView for Document {
    type V = DocumentView;

    open spec fn deep_view(&self) -> DocumentView {
        self@
    }
}

impl Document {
    /// The document with this metadata and this content.
    pub fn new(metadata: DocumentMetadata, content: DocumentContent) -> (document: Document)
        ensures
            document.metadata == metadata,
            document.content == content,
    {
        Document { metadata, content }
    }
}

} // verus!
