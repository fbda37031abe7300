//! Readers turn the text of a source file into an HTML body and the raw
//! metadata found in it.

use vstd::prelude::*;
use crate::error::Result;
use crate::assoc::{
    distinct_keys, insert_entry, lemma_insert_entry, lemma_key_position_is, lookup,
};
use crate::settings::Settings;
use crate::text::same;

pub mod extractor;
pub mod markdown;

pub use self::markdown::MarkdownReader;

verus! {

/// The model of raw metadata: name and raw value, in order of first insertion.
pub type Entries = Seq<(Seq<char>, Seq<char>)>;

/// Raw metadata: a mapping from field name to raw value with unique names,
/// where a later value replaces an earlier one of the same name.
#[derive(Debug)]
pub struct Metadata {
    entries: Vec<(String, String)>,
}

impl View for Metadata {
    type V = Entries;

    closed spec fn view(&self) -> Entries {
        Seq::new(self.entries@.len(), |i: int| (self.entries@[i].0@, self.entries@[i].1@))
    }
}

impl Metadata {
    /// Names are pairwise distinct.
    pub open spec fn wf(&self) -> bool {
        distinct_keys(self@)
    }

    /// Empty metadata.
    pub fn new() -> (m: Metadata)
        ensures
            m@ == Seq::<(Seq<char>, Seq<char>)>::empty(),
            m.wf(),
    {
        let m = Metadata { entries: Vec::new() };
        assert(m@ =~= Seq::empty());
        m
    }

    /// The number of entries.
    pub fn len(&self) -> (n: usize)
        ensures
            n == self@.len(),
    {
        self.entries.len()
    }

    /// Whether there is no entry.
    pub fn is_empty(&self) -> (b: bool)
        ensures
            b == (self@.len() == 0),
    {
        self.entries.len() == 0
    }

    /// The name of the `i`-th entry.
    pub fn key_at(&self, i: usize) -> (key: &String)
        requires
            i < self@.len(),
        ensures
            key@ == self@[i as int].0,
    {
        &self.entries[i].0
    }

    /// The raw value of the `i`-th entry.
    pub fn value_at(&self, i: usize) -> (value: &String)
        requires
            i < self@.len(),
        ensures
            value@ == self@[i as int].1,
    {
        &self.entries[i].1
    }

    fn position(&self, key: &str) -> (i: usize)
        ensures
            i == crate::assoc::key_position(self@, key@),
            i <= self@.len(),
    {
        let mut i: usize = 0;
        while i < self.entries.len()
            invariant
                i <= self.entries.len(),
                forall|j: int| 0 <= j < i ==> (#[trigger] self@[j]).0 != key@,
            decreases self.entries.len() - i,
        {
            if same(self.entries[i].0.as_str(), key) {
                proof {
                    lemma_key_position_is(self@, key@, i as int);
                }
                return i;
            }
            i += 1;
        }
        proof {
            lemma_key_position_is(self@, key@, i as int);
        }
        i
    }

    /// The raw value stored under `key`.
    pub fn get(&self, key: &str) -> (value: Option<&String>)
        ensures
            match value {
                Some(v) => lookup(self@, key@) == Some(v@),
                None => lookup(self@, key@) is None,
            },
    {
        let i = self.position(key);
        if i < self.entries.len() {
            Some(&self.entries[i].1)
        } else {
            None
        }
    }

    /// Stores `value` under `key`, replacing what was stored there.
    pub fn insert(&mut self, key: String, value: String)
        requires
            old(self).wf(),
        ensures
            final(self).wf(),
            final(self)@ == insert_entry(old(self)@, key@, value@),
    {
        let i = self.position(key.as_str());
        proof {
            lemma_insert_entry(self@, key@, value@);
        }
        if i < self.entries.len() {
            self.entries.remove(i);
            self.entries.insert(i, (key, value));
        } else {
            self.entries.push((key, value));
        }
        assert(self@ =~= insert_entry(old(self)@, key@, value@));
    }
}

/// A reader for one kind of source file.
pub trait Reader: Sized {
    /// The lower-case file extensions, without the dot, that this reader takes.
    fn extensions() -> Vec<&'static str>;

    /// A reader configured by `settings`.
    fn new(settings: &Settings) -> Self;

    /// The HTML body and the raw metadata of a document with the text `input`.
    fn read(&self, input: &str) -> (result: Result<(String, Metadata)>)
        ensures
            result matches Ok(pair) ==> pair.1.wf(),
    ;
}

} // verus!
