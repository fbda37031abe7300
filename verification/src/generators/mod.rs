//! Generators derive further documents from the documents of a site.

use vstd::prelude::*;
use std::rc::Rc;
use crate::document::{Document, DocumentMetadata, DocumentMetadataView, DocumentView};
use crate::error::Result;

pub mod index;

pub use self::index::IndexGenerator;

verus! {

/// A generator: what it derives is a function of the documents that it is
/// given, and of nothing else.
pub trait Generator: Sized {
    /// The documents that this generator derives from `docs`.
    spec fn generated(&self, docs: Seq<DocumentMetadataView>) -> Seq<DocumentView>;

    /// A generator of this kind.
    fn new() -> Self;

    /// The documents derived from `docs`.
    fn generate(&self, docs: &[Rc<DocumentMetadata>]) -> (result: Result<Vec<Rc<Document>>>)
        ensures
            result matches Ok(documents) ==> documents.deep_view() == self.generated(
                docs.deep_view(),
            ),
    ;
}

} // verus!
