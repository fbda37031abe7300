//! The registry of a build: the metadata of every document, by its address.

use vstd::prelude::*;
use std::rc::Rc;
use crate::document::{DocumentMetadata, DocumentMetadataView};
use crate::scan::{first_from, lemma_first_from, lemma_first_from_is};
use crate::text::same;

verus! {

/// The documents at the address `url`.
pub open spec fn at_url(url: Seq<char>) -> spec_fn(DocumentMetadataView) -> bool {
    |m: DocumentMetadataView| m.url == url
}

/// The position of the document at `url`, or the length where there is none.
pub open spec fn url_position(docs: Seq<DocumentMetadataView>, url: Seq<char>) -> int {
    first_from(docs, at_url(url), 0)
}

/// Whether a document is at `url`.
pub open spec fn holds_url(docs: Seq<DocumentMetadataView>, url: Seq<char>) -> bool {
    url_position(docs, url) < docs.len()
}

/// The document at `url`.
pub open spec fn found(docs: Seq<DocumentMetadataView>, url: Seq<char>) -> Option<
    DocumentMetadataView,
> {
    if holds_url(docs, url) {
        Some(docs[url_position(docs, url)])
    } else {
        None
    }
}

/// The documents after `m` was stored: it takes the place of the document at
/// its address, or goes to the end where there is none.
pub open spec fn stored(docs: Seq<DocumentMetadataView>, m: DocumentMetadataView) -> Seq<
    DocumentMetadataView,
> {
    if holds_url(docs, m.url) {
        docs.update(url_position(docs, m.url), m)
    } else {
        docs.push(m)
    }
}

/// The documents after `m` was offered: it goes to the end where no document
/// is at its address, and is dropped where one is.
pub open spec fn offered(docs: Seq<DocumentMetadataView>, m: DocumentMetadataView) -> Seq<
    DocumentMetadataView,
> {
    if holds_url(docs, m.url) {
        docs
    } else {
        docs.push(m)
    }
}

/// No two documents share an address.
pub open spec fn distinct_urls(docs: Seq<DocumentMetadataView>) -> bool {
    forall|i: int, j: int| 0 <= i < j < docs.len() ==> (#[trigger] docs[i]).url != (#[trigger] docs[j]).url
}

/// Storing a document keeps the addresses distinct; afterwards it is the
/// document at its address, and the documents at all other addresses are
/// the same as before.
pub proof fn lemma_stored(docs: Seq<DocumentMetadataView>, m: DocumentMetadataView)
    requires
        distinct_urls(docs),
    ensures
        distinct_urls(stored(docs, m)),
        found(stored(docs, m), m.url) == Some(m),
        forall|url: Seq<char>| url != m.url ==> found(stored(docs, m), url) == found(docs, url),
{
    let after = stored(docs, m);
    let k = url_position(docs, m.url);
    lemma_first_from(docs, at_url(m.url), 0);
    lemma_first_from_is(after, at_url(m.url), 0, k);
    assert forall|url: Seq<char>| url != m.url implies found(after, url) == found(docs, url) by {
        lemma_first_from(docs, at_url(url), 0);
        let j = url_position(docs, url);
        lemma_first_from_is(after, at_url(url), 0, if j < docs.len() { j } else { after.len() as int });
    }
}

/// Offering a document never changes what is at an address that was taken:
/// whoever was first at an address stays there.
pub proof fn lemma_offered(docs: Seq<DocumentMetadataView>, m: DocumentMetadataView)
    requires
        distinct_urls(docs),
    ensures
        distinct_urls(offered(docs, m)),
        forall|url: Seq<char>| holds_url(docs, url) ==> found(offered(docs, m), url) == found(docs, url),
        holds_url(docs, m.url) ==> offered(docs, m) == docs,
        !holds_url(docs, m.url) ==> found(offered(docs, m), m.url) == Some(m),
{
    let after = offered(docs, m);
    lemma_first_from(docs, at_url(m.url), 0);
    if !holds_url(docs, m.url) {
        lemma_first_from_is(after, at_url(m.url), 0, docs.len() as int);
    }
    assert forall|url: Seq<char>| holds_url(docs, url) implies found(after, url) == found(docs, url) by {
        lemma_first_from(docs, at_url(url), 0);
        lemma_first_from_is(after, at_url(url), 0, url_position(docs, url));
    }
}

/// `Rc::clone`: another handle on the same metadata.
#[verifier::external_body]
pub(crate) fn share(doc: &Rc<DocumentMetadata>) -> (shared: Rc<DocumentMetadata>)
    ensures
        shared == *doc,
{
    Rc::clone(doc)
}

/// The metadata of the documents of a site, each under its address. The
/// metadata is shared with whoever lists the document.
pub struct Registry {
    entries: Vec<Rc<DocumentMetadata>>,
}

impl View for Registry {
    type V = Seq<DocumentMetadataView>;

    closed spec fn view(&self) -> Seq<DocumentMetadataView> {
        self.entries.deep_view()
    }
}

impl Registry {
    /// No two documents share an address.
    pub open spec fn wf(&self) -> bool {
        distinct_urls(self@)
    }

    /// A registry without documents.
    pub fn new() -> (registry: Registry)
        ensures
            registry@ == Seq::<DocumentMetadataView>::empty(),
            registry.wf(),
    {
        let registry = Registry { entries: Vec::new() };
        assert(registry@ =~= Seq::empty());
        registry
    }

    /// The number of documents.
    pub fn len(&self) -> (n: usize)
        ensures
            n == self@.len(),
    {
        self.entries.len()
    }

    fn position(&self, url: &str) -> (i: usize)
        ensures
            i == url_position(self@, url@),
            i <= self@.len(),
    {
        let mut i: usize = 0;
        while i < self.entries.len()
            invariant
                i <= self.entries.len(),
                forall|j: int| 0 <= j < i ==> (#[trigger] self@[j]).url != url@,
            decreases self.entries.len() - i,
        {
            assert(self@[i as int] == self.entries@[i as int]@);
            if same(self.entries[i].url.as_str(), url) {
                proof {
                    lemma_first_from_is(self@, at_url(url@), 0, i as int);
                }
                return i;
            }
            i += 1;
        }
        proof {
            lemma_first_from_is(self@, at_url(url@), 0, i as int);
        }
        i
    }

    /// Whether a document is at `url`.
    pub fn contains_key(&self, url: &str) -> (held: bool)
        ensures
            held == holds_url(self@, url@),
    {
        self.position(url) < self.entries.len()
    }

    /// The metadata of the document at `url`.
    pub fn get(&self, url: &str) -> (doc: Option<Rc<DocumentMetadata>>)
        ensures
            match doc {
                Some(m) => found(self@, url@) == Some(m@),
                None => found(self@, url@) is None,
            },
    {
        let i = self.position(url);
        if i < self.entries.len() {
            assert(self@[i as int] == self.entries@[i as int]@);
            Some(share(&self.entries[i]))
        } else {
            None
        }
    }

    /// Stores a document under its address, in the place of the one that
    /// was there.
    pub fn insert(&mut self, doc: Rc<DocumentMetadata>)
        requires
            old(self).wf(),
        ensures
            final(self).wf(),
            final(self)@ == stored(old(self)@, doc@),
    {
        let i = self.position(doc.url.as_str());
        proof {
            lemma_stored(self@, doc@);
        }
        if i < self.entries.len() {
            self.entries.remove(i);
            self.entries.insert(i, doc);
        } else {
            self.entries.push(doc);
        }
        assert(self@ =~= stored(old(self)@, doc@));
    }

    /// Stores a document under its address unless one is there; says
    /// whether it was stored.
    pub fn insert_if_absent(&mut self, doc: Rc<DocumentMetadata>) -> (taken: bool)
        requires
            old(self).wf(),
        ensures
            final(self).wf(),
            final(self)@ == offered(old(self)@, doc@),
            taken == !holds_url(old(self)@, doc@.url),
    {
        let i = self.position(doc.url.as_str());
        proof {
            lemma_offered(self@, doc@);
        }
        if i < self.entries.len() {
            false
        } else {
            self.entries.push(doc);
            assert(self@ =~= offered(old(self)@, doc@));
            true
        }
    }

    /// The metadata of all the documents, as they stand now.
    pub fn values(&self) -> (docs: Vec<Rc<DocumentMetadata>>)
        ensures
            docs.deep_view() == self@,
    {
        let mut docs: Vec<Rc<DocumentMetadata>> = Vec::new();
        let mut i: usize = 0;
        while i < self.entries.len()
            invariant
                i <= self.entries.len(),
                docs.deep_view() == self@.take(i as int),
            decreases self.entries.len() - i,
        {
            let doc = share(&self.entries[i]);
            let ghost before = docs.deep_view();
            docs.push(doc);
            assert(docs.deep_view() =~= before.push(doc@));
            assert(before.push(doc@) =~= self@.take(i + 1));
            i += 1;
        }
        assert(self@.take(self.entries.len() as int) =~= self@);
        docs
    }
}

} // verus!
