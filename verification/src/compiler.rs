//! The compiler: what is decided while a site is built.
//!
//! Reading the source tree, rendering through templates and writing files
//! are the caller's work. The compiler holds the state of the build and
//! decides, step by step, what is to be done with each file, which document
//! a source file gives, which documents are registered, and which documents
//! the generators add.

use vstd::prelude::*;
use vstd::string::*;
use std::rc::Rc;
use crate::assoc::{insert_entry, lemma_key_position_is, lookup};
use crate::document::{
    empty_metadata, first_invalid, with_fields, Document, DocumentContent, DocumentContentView,
    DocumentMetadata, DocumentMetadataView, DocumentView,
};
use crate::error::{Error, Result};
use crate::generators::index::index_documents;
use crate::generators::{Generator, IndexGenerator};
use crate::readers::extractor::{body_start, raw_metadata};
use crate::readers::markdown::{markdown_events, rendered_html};
use crate::readers::{MarkdownReader, Metadata, Reader};
use crate::registry::{
    distinct_urls, found, holds_url, lemma_offered, offered, stored, Registry,
};
use crate::settings::{Settings, SettingsView};
use crate::site::{Site, SiteView};
use crate::text::{owned, same};
use crate::utils::{
    extension, extension_of, is_public, join_path, joined, public, remove_path_prefix,
    replace_extension, strip_prefix, stripped, with_extension, without_prefix,
};

verus! {

/// How far a build has come.
#[derive(Clone, Copy, Debug, PartialEq, Eq)]
pub enum Phase {
    /// Nothing was done yet.
    Init,
    /// The settings were found usable.
    SettingsValidated,
    /// The templates are at hand.
    TemplatesLoaded,
    /// The source tree is being walked; documents are registered.
    Walking,
    /// The generators have run, once.
    GeneratorsRun,
    /// The build is over.
    Done,
}

/// The readers that a compiler can hold.
#[derive(Clone, Copy, Debug, PartialEq, Eq)]
pub enum ReaderKind {
    Markdown(MarkdownReader),
}

/// The generators that a compiler can hold.
pub enum GeneratorKind {
    Index(IndexGenerator),
}

/// What is to be done with an entry of the source tree.
#[derive(Clone, Copy, Debug, PartialEq, Eq)]
pub enum Action {
    /// Nothing: the entry is a directory.
    Skip,
    /// The file is a document for this reader.
    Build(ReaderKind),
    /// The file is copied as it is.
    Copy,
}

impl ReaderKind {
    /// The HTML body of a document with the text `input`.
    pub open spec fn body(self, input: Seq<char>) -> Seq<char> {
        rendered_html(input, body_start(markdown_events(input)))
    }

    /// The raw metadata of a document with the text `input`.
    pub open spec fn raw(self, input: Seq<char>) -> Seq<(Seq<char>, Seq<char>)> {
        raw_metadata(markdown_events(input))
    }

    /// The file extensions that the reader takes.
    pub fn extensions(&self) -> (list: Vec<&'static str>)
        ensures
            list@.len() == 2,
            list@[0]@ == "markdown"@,
            list@[1]@ == "md"@,
    {
        match self {
            ReaderKind::Markdown(_) => MarkdownReader::extensions(),
        }
    }

    /// The HTML body and the raw metadata of a document with the text
    /// `input`.
    pub fn read(&self, input: &str) -> (result: Result<(String, Metadata)>)
        ensures
            result matches Ok(pair) && {
                &&& pair.0@ == self.body(input@)
                &&& pair.1@ == self.raw(input@)
                &&& pair.1.wf()
            },
    {
        match self {
            ReaderKind::Markdown(reader) => reader.read(input),
        }
    }
}

impl GeneratorKind {
    /// The documents that the generator derives from `docs`.
    pub open spec fn generated(self, docs: Seq<DocumentMetadataView>) -> Seq<DocumentView> {
        index_documents(docs)
    }

    /// The documents derived from `docs`.
    pub fn generate(&self, docs: &[Rc<DocumentMetadata>]) -> (result: Result<Vec<Rc<Document>>>)
        ensures
            result matches Ok(documents) && documents.deep_view() == self.generated(
                docs.deep_view(),
            ),
    {
        match self {
            GeneratorKind::Index(generator) => generator.generate(docs),
        }
    }
}

/// The model of the readers of a compiler, by file extension.
pub open spec fn reader_views(readers: Seq<(String, ReaderKind)>) -> Seq<(Seq<char>, ReaderKind)> {
    Seq::new(readers.len(), |i: int| (readers[i].0@, readers[i].1))
}

/// The address of the document that the source file `path` gives, for
/// sources below `source_dir`: the path below that directory, with the
/// extension `html`.
pub open spec fn document_url(source_dir: Seq<char>, path: Seq<char>) -> Option<Seq<char>> {
    match stripped(path, source_dir) {
        Some(below) => Some(with_extension(below, "html"@)),
        None => None,
    }
}

/// Where the source file `path` is copied to: the same path below the
/// output directory as it has below the source directory.
pub open spec fn copy_target(
    source_dir: Seq<char>,
    output_dir: Seq<char>,
    path: Seq<char>,
) -> Option<Seq<char>> {
    match stripped(path, source_dir) {
        Some(below) => Some(joined(output_dir, below)),
        None => None,
    }
}

/// The documents of all the generators, each run on the same `snapshot`.
pub open spec fn all_generated(
    generators: Seq<GeneratorKind>,
    snapshot: Seq<DocumentMetadataView>,
) -> Seq<DocumentView>
    decreases generators.len(),
{
    if generators.len() == 0 {
        Seq::empty()
    } else {
        all_generated(generators.drop_last(), snapshot) + generators.last().generated(snapshot)
    }
}

/// The registry after the generated documents were offered to it, first to
/// last.
pub open spec fn offered_all(
    docs: Seq<DocumentMetadataView>,
    generated: Seq<DocumentView>,
) -> Seq<DocumentMetadataView>
    decreases generated.len(),
{
    if generated.len() == 0 {
        docs
    } else {
        offered(offered_all(docs, generated.drop_last()), generated.last().metadata)
    }
}

/// The generated documents that the registry took: those whose address was
/// free when they were offered.
pub open spec fn accepted(
    docs: Seq<DocumentMetadataView>,
    generated: Seq<DocumentView>,
) -> Seq<DocumentView>
    decreases generated.len(),
{
    if generated.len() == 0 {
        Seq::empty()
    } else if holds_url(offered_all(docs, generated.drop_last()), generated.last().metadata.url) {
        accepted(docs, generated.drop_last())
    } else {
        accepted(docs, generated.drop_last()).push(generated.last())
    }
}

/// Offering generated documents never replaces a document: every address
/// that was taken before holds the same document afterwards.
pub proof fn lemma_generated_never_replace(
    docs: Seq<DocumentMetadataView>,
    generated: Seq<DocumentView>,
)
    requires
        distinct_urls(docs),
    ensures
        distinct_urls(offered_all(docs, generated)),
        forall|url: Seq<char>|
            holds_url(docs, url) ==> holds_url(offered_all(docs, generated), url) && found(
                offered_all(docs, generated),
                url,
            ) == found(docs, url),
    decreases generated.len(),
{
    if generated.len() > 0 {
        let before = offered_all(docs, generated.drop_last());
        lemma_generated_never_replace(docs, generated.drop_last());
        lemma_offered(before, generated.last().metadata);
        assert forall|url: Seq<char>| holds_url(docs, url) implies holds_url(
            offered_all(docs, generated),
            url,
        ) && found(offered_all(docs, generated), url) == found(docs, url) by {
            assert(holds_url(before, url));
            assert(found(offered(before, generated.last().metadata), url) == found(before, url));
        }
    }
}

/// Generating is a function of the snapshot: two runs of the same
/// generators on the same documents give the same documents.
pub proof fn lemma_generation_is_repeatable(
    generators: Seq<GeneratorKind>,
    snapshot: Seq<DocumentMetadataView>,
    first: Seq<DocumentView>,
    second: Seq<DocumentView>,
)
    requires
        first == all_generated(generators, snapshot),
        second == all_generated(generators, snapshot),
    ensures
        first == second,
{
}

/// Whether an entry of the source tree belongs to the site: a file or a
/// directory whose name starts neither with a dot nor with an underscore.
pub fn filter_entry(is_dir: bool, is_file: bool, path: &str) -> (wanted: bool)
    ensures
        wanted == ((is_dir || is_file) && public(path@)),
{
    if is_dir || is_file {
        is_public(path)
    } else {
        false
    }
}

/// Offers each of the generated documents to the registry, first to last,
/// and collects those that it took. `done` are the documents that were
/// offered before.
#[verifier::rlimit(40)]
fn offer_all(
    documents: &mut Registry,
    generated: &Vec<Rc<Document>>,
    taken: &mut Vec<Rc<Document>>,
    Ghost(start): Ghost<Seq<DocumentMetadataView>>,
    Ghost(done): Ghost<Seq<DocumentView>>,
)
    requires
        old(documents).wf(),
        old(documents)@ == offered_all(start, done),
        old(taken).deep_view() == accepted(start, done),
    ensures
        final(documents).wf(),
        final(documents)@ == offered_all(start, done + generated.deep_view()),
        final(taken).deep_view() == accepted(start, done + generated.deep_view()),
{
    let ghost fresh = generated.deep_view();
    let mut i: usize = 0;
    assert(done + fresh.take(0) =~= done);
    while i < generated.len()
        invariant
            i <= generated.len(),
            generated.deep_view() == fresh,
            documents.wf(),
            taken.deep_view() == accepted(start, done + fresh.take(i as int)),
            documents@ == offered_all(start, done + fresh.take(i as int)),
        decreases generated.len() - i,
    {
        proof {
            let next = done + fresh.take(i + 1);
            assert(next.drop_last() =~= done + fresh.take(i as int));
            assert(next.last() == fresh[i as int]);
            assert(fresh[i as int] == generated@[i as int]@);
        }
        let document = &generated[i];
        if documents.insert_if_absent(Rc::new(document.metadata.clone())) {
            let ghost before = taken.deep_view();
            taken.push(Rc::clone(document));
            assert(taken.deep_view() =~= before.push(document@));
        }
        i += 1;
    }
    assert(fresh.take(generated.len() as int) =~= fresh);
}

/// The state of a build.
pub struct Compiler {
    settings: Settings,
    site: Site,
    phase: Phase,
    readers: Vec<(String, ReaderKind)>,
    generators: Vec<GeneratorKind>,
    documents: Registry,
}

impl Compiler {
    /// How far the build has come.
    pub closed spec fn phase(&self) -> Phase {
        self.phase
    }

    /// The settings of the build.
    pub closed spec fn settings_view(&self) -> SettingsView {
        self.settings@
    }

    /// The site that is built.
    pub closed spec fn site_view(&self) -> SiteView {
        self.site@
    }

    /// The readers, by file extension.
    pub closed spec fn readers(&self) -> Seq<(Seq<char>, ReaderKind)> {
        reader_views(self.readers@)
    }

    /// The generators, in the order in which they run.
    pub closed spec fn generators(&self) -> Seq<GeneratorKind> {
        self.generators@
    }

    /// The metadata of the documents registered so far.
    pub closed spec fn documents(&self) -> Seq<DocumentMetadataView> {
        self.documents@
    }

    /// No two registered documents share an address.
    pub closed spec fn wf(&self) -> bool {
        self.documents.wf()
    }

    /// A compiler for a build with these settings, with the markdown reader
    /// and the index generator.
    pub fn new(settings: &Settings) -> (compiler: Compiler)
        ensures
            compiler.wf(),
            compiler.phase() is Init,
            compiler.settings_view() == settings@,
            compiler.site_view() == (SiteView {
                title: settings@.site_title,
                language: settings@.site_language,
                url: settings@.site_url,
            }),
            compiler.documents() == Seq::<DocumentMetadataView>::empty(),
            compiler.readers() == seq![
                ("markdown"@, ReaderKind::Markdown(MarkdownReader)),
                ("md"@, ReaderKind::Markdown(MarkdownReader)),
            ],
            compiler.generators() == seq![GeneratorKind::Index(IndexGenerator)],
    {
        let mut compiler = Compiler {
            settings: settings.clone(),
            site: Site::new(settings),
            phase: Phase::Init,
            readers: Vec::new(),
            generators: Vec::new(),
            documents: Registry::new(),
        };
        assert(compiler.readers() =~= Seq::empty());
        compiler.add_reader(ReaderKind::Markdown(MarkdownReader::new(settings)));
        compiler.add_generator(GeneratorKind::Index(IndexGenerator::new()));
        proof {
            reveal_strlit("markdown");
            reveal_strlit("md");
            let none = Seq::<(Seq<char>, ReaderKind)>::empty();
            let kind = ReaderKind::Markdown(MarkdownReader);
            lemma_key_position_is(none, "markdown"@, 0);
            let one = insert_entry(none, "markdown"@, kind);
            assert(one =~= seq![("markdown"@, kind)]);
            assert("markdown"@.len() != "md"@.len());
            lemma_key_position_is(one, "md"@, 1);
            assert(insert_entry(one, "md"@, kind) =~= seq![("markdown"@, kind), ("md"@, kind)]);
            assert(compiler.generators() =~= seq![GeneratorKind::Index(IndexGenerator)]);
        }
        compiler
    }

    /// The settings of the build.
    pub fn settings(&self) -> (settings: &Settings)
        ensures
            settings@ == self.settings_view(),
    {
        &self.settings
    }

    /// The site that is built.
    pub fn site(&self) -> (site: &Site)
        ensures
            site@ == self.site_view(),
    {
        &self.site
    }

    /// How far the build has come.
    pub fn current_phase(&self) -> (phase: Phase)
        ensures
            phase == self.phase(),
    {
        self.phase
    }

    /// The number of documents registered so far.
    pub fn document_count(&self) -> (n: usize)
        ensures
            n == self.documents().len(),
    {
        self.documents.len()
    }

    /// The metadata of the registered document at `url`.
    pub fn document_at(&self, url: &str) -> (doc: Option<Rc<DocumentMetadata>>)
        ensures
            match doc {
                Some(m) => found(self.documents(), url@) == Some(m@),
                None => found(self.documents(), url@) is None,
            },
    {
        self.documents.get(url)
    }

    /// Checks the settings against what is on disk: the source directory
    /// must be a directory, and the output path, if anything is there, must
    /// be one too. On success the settings count as validated.
    pub fn check_settings(
        &mut self,
        source_is_dir: bool,
        output_exists: bool,
        output_is_dir: bool,
    ) -> (result: Result<()>)
        requires
            old(self).phase() is Init,
        ensures
            final(self).settings_view() == old(self).settings_view(),
            final(self).site_view() == old(self).site_view(),
            final(self).readers() == old(self).readers(),
            final(self).generators() == old(self).generators(),
            final(self).documents() == old(self).documents(),
            final(self).wf() == old(self).wf(),
            match result {
                Ok(_) => {
                    &&& source_is_dir
                    &&& !output_exists || output_is_dir
                    &&& final(self).phase() is SettingsValidated
                },
                Err(e) => {
                    &&& final(self).phase() is Init
                    &&& e matches Error::Settings { message }
                    &&& if !source_is_dir {
                        message@ == old(self).settings_view().source_dir
                            + " must be an existing directory"@
                    } else {
                        output_exists && !output_is_dir && message@ == old(self).settings_view().output_dir + " must be a directory"@
                    }
                },
            },
    {
        if !source_is_dir {
            return Err(
                Error::Settings {
                    message: self.settings.source_dir.clone().concat(
                        " must be an existing directory",
                    ),
                },
            );
        }
        if output_exists && !output_is_dir {
            return Err(
                Error::Settings {
                    message: self.settings.output_dir.clone().concat(" must be a directory"),
                },
            );
        }
        self.phase = Phase::SettingsValidated;
        Ok(())
    }

    /// Notes that the templates were loaded.
    pub fn load_templates(&mut self)
        requires
            old(self).phase() is SettingsValidated,
        ensures
            final(self).phase() is TemplatesLoaded,
            final(self).settings_view() == old(self).settings_view(),
            final(self).site_view() == old(self).site_view(),
            final(self).readers() == old(self).readers(),
            final(self).generators() == old(self).generators(),
            final(self).documents() == old(self).documents(),
            final(self).wf() == old(self).wf(),
    {
        self.phase = Phase::TemplatesLoaded;
    }

    /// Starts the walk through the source tree.
    pub fn start_walk(&mut self)
        requires
            old(self).phase() is TemplatesLoaded,
        ensures
            final(self).phase() is Walking,
            final(self).settings_view() == old(self).settings_view(),
            final(self).site_view() == old(self).site_view(),
            final(self).readers() == old(self).readers(),
            final(self).generators() == old(self).generators(),
            final(self).documents() == old(self).documents(),
            final(self).wf() == old(self).wf(),
    {
        self.phase = Phase::Walking;
    }

    /// The reader for the file `path`: the one registered for its
    /// extension.
    pub fn get_reader(&self, path: &str) -> (reader: Option<ReaderKind>)
        ensures
            reader == match extension(path@) {
                Some(ext) => lookup(self.readers(), ext),
                None => None,
            },
    {
        match extension_of(path) {
            Some(ext) => {
                let mut i: usize = 0;
                while i < self.readers.len()
                    invariant
                        i <= self.readers.len(),
                        extension(path@) == Some(ext@),
                        forall|j: int| 0 <= j < i ==> (#[trigger] self.readers()[j]).0 != ext@,
                    decreases self.readers.len() - i,
                {
                    assert(self.readers()[i as int] == (
                        self.readers@[i as int].0@,
                        self.readers@[i as int].1,
                    ));
                    if same(self.readers[i].0.as_str(), ext.as_str()) {
                        proof {
                            lemma_key_position_is(self.readers(), ext@, i as int);
                        }
                        return Some(self.readers[i].1);
                    }
                    i += 1;
                }
                proof {
                    lemma_key_position_is(self.readers(), ext@, i as int);
                }
                None
            },
            None => None,
        }
    }

    /// Registers `reader` for each of its extensions, in the place of the
    /// reader that was registered for it.
    #[verifier::rlimit(40)]
    pub fn add_reader(&mut self, reader: ReaderKind)
        ensures
            final(self).readers() == insert_entry(
                insert_entry(old(self).readers(), "markdown"@, reader),
                "md"@,
                reader,
            ),
            final(self).settings_view() == old(self).settings_view(),
            final(self).site_view() == old(self).site_view(),
            final(self).phase() == old(self).phase(),
            final(self).generators() == old(self).generators(),
            final(self).documents() == old(self).documents(),
            final(self).wf() == old(self).wf(),
    {
        let extensions = reader.extensions();
        let mut k: usize = 0;
        while k < extensions.len()
            invariant
                k <= extensions.len() == 2,
                extensions@[0]@ == "markdown"@,
                extensions@[1]@ == "md"@,
                self.settings == old(self).settings,
                self.site == old(self).site,
                self.phase == old(self).phase,
                self.generators == old(self).generators,
                self.documents == old(self).documents,
                self.readers() == if k == 0 {
                    old(self).readers()
                } else if k == 1 {
                    insert_entry(old(self).readers(), "markdown"@, reader)
                } else {
                    insert_entry(
                        insert_entry(old(self).readers(), "markdown"@, reader),
                        "md"@,
                        reader,
                    )
                },
            decreases extensions.len() - k,
        {
            let extension = extensions[k];
            let ghost before = self.readers();
            let mut i: usize = 0;
            while i < self.readers.len() && !same(self.readers[i].0.as_str(), extension)
                invariant
                    i <= self.readers.len(),
                    self.readers() == before,
                    forall|j: int| 0 <= j < i ==> (#[trigger] before[j]).0 != extension@,
                decreases self.readers.len() - i,
            {
                assert(before[i as int].0 == self.readers@[i as int].0@);
                i += 1;
            }
            proof {
                if i < self.readers.len() {
                    assert(before[i as int].0 == self.readers@[i as int].0@);
                }
                lemma_key_position_is(before, extension@, i as int);
            }
            if i < self.readers.len() {
                self.readers.remove(i);
                self.readers.insert(i, (owned(extension), reader));
            } else {
                self.readers.push((owned(extension), reader));
            }
            assert(self.readers() =~= insert_entry(before, extension@, reader));
            k += 1;
        }
    }

    /// Adds a generator; it runs after those that were added before.
    pub fn add_generator(&mut self, generator: GeneratorKind)
        ensures
            final(self).generators() == old(self).generators().push(generator),
            final(self).settings_view() == old(self).settings_view(),
            final(self).site_view() == old(self).site_view(),
            final(self).phase() == old(self).phase(),
            final(self).readers() == old(self).readers(),
            final(self).documents() == old(self).documents(),
            final(self).wf() == old(self).wf(),
    {
        self.generators.push(generator);
    }

    /// What is to be done with the entry `path` of the source tree.
    pub fn action_for(&self, path: &str, is_dir: bool) -> (action: Action)
        ensures
            action == if is_dir {
                Action::Skip
            } else {
                match extension(path@) {
                    Some(ext) => match lookup(self.readers(), ext) {
                        Some(reader) => Action::Build(reader),
                        None => Action::Copy,
                    },
                    None => Action::Copy,
                }
            },
    {
        if is_dir {
            return Action::Skip;
        }
        match self.get_reader(path) {
            Some(reader) => Action::Build(reader),
            None => Action::Copy,
        }
    }

    /// The address of the document that the source file `path` gives;
    /// nothing where the file is not below the source directory.
    pub fn url_for(&self, path: &str) -> (url: Option<String>)
        ensures
            match url {
                Some(u) => document_url(self.settings_view().source_dir, path@) == Some(u@),
                None => document_url(self.settings_view().source_dir, path@) is None,
            },
    {
        match strip_prefix(path, self.settings.source_dir.as_str()) {
            Some(below) => Some(replace_extension(below.as_str(), "html")),
            None => None,
        }
    }

    /// Where the source file `path` is copied to; nothing where the file is
    /// not below the source directory.
    pub fn copy_file(&self, path: &str) -> (dest: Option<String>)
        ensures
            match dest {
                Some(d) => copy_target(
                    self.settings_view().source_dir,
                    self.settings_view().output_dir,
                    path@,
                ) == Some(d@),
                None => copy_target(self.settings_view().source_dir, self.settings_view().output_dir, path@)
                    is None,
            },
    {
        match strip_prefix(path, self.settings.source_dir.as_str()) {
            Some(below) => Some(join_path(self.settings.output_dir.as_str(), below.as_str())),
            None => None,
        }
    }

    /// Where a document with the address `url` is written, below the output
    /// directory: the names in the address.
    pub fn render_path(url: &str) -> (dest: String)
        ensures
            dest@ == without_prefix(url@),
    {
        remove_path_prefix(url)
    }

    /// The document that the source file `path` with the text `input` gives
    /// when `reader` reads it: the body that the reader renders, and the
    /// metadata that the reader finds, coerced field by field, under the
    /// address of the file. A date that cannot be parsed makes the build of
    /// this document fail.
    pub fn build_document(&self, reader: ReaderKind, path: &str, input: &str) -> (result: Result<
        Document,
    >)
        requires
            document_url(self.settings_view().source_dir, path@) is Some,
        ensures
            match result {
                Ok(document) => {
                    &&& first_invalid(reader.raw(input@)) == reader.raw(input@).len()
                    &&& document@.metadata == (DocumentMetadataView {
                        url: document_url(self.settings_view().source_dir, path@)->0,
                        ..with_fields(empty_metadata(), reader.raw(input@))
                    })
                    &&& document@.content == (DocumentContentView::Text {
                        content: reader.body(input@),
                    })
                    &&& document.metadata.wf()
                },
                Err(e) => {
                    &&& first_invalid(reader.raw(input@)) < reader.raw(input@).len()
                    &&& e matches Error::InvalidDate { date }
                    &&& date@ == reader.raw(input@)[first_invalid(reader.raw(input@))].1
                },
            },
    {
        let (body, raw) = match reader.read(input) {
            Ok(pair) => pair,
            Err(e) => {
                return Err(e);
            },
        };
        let url = match self.url_for(path) {
            Some(url) => url,
            None => String::new(),
        };
        match DocumentMetadata::from_raw(&raw) {
            Ok(mut metadata) => {
                metadata.url = url;
                Ok(Document::new(metadata, DocumentContent::Text { content: body }))
            },
            Err(e) => Err(e),
        }
    }

    /// Registers a document that was built and rendered, in the place of
    /// the one that was registered under its address.
    pub fn register(&mut self, metadata: DocumentMetadata)
        requires
            old(self).wf(),
            old(self).phase() is Walking,
        ensures
            final(self).wf(),
            final(self).documents() == stored(old(self).documents(), metadata@),
            final(self).phase() is Walking,
            final(self).settings_view() == old(self).settings_view(),
            final(self).site_view() == old(self).site_view(),
            final(self).readers() == old(self).readers(),
            final(self).generators() == old(self).generators(),
    {
        self.documents.insert(Rc::new(metadata));
    }

    /// Runs every generator, once, on the documents as they are registered
    /// now, and offers each generated document to the registry. A document
    /// whose address is taken is dropped: no registered document is ever
    /// replaced. The documents that the registry took are handed back, to be
    /// rendered.
    #[verifier::rlimit(40)]
    pub fn run_generators(&mut self) -> (result: Result<Vec<Rc<Document>>>)
        requires
            old(self).wf(),
            old(self).phase() is Walking,
        ensures
            final(self).wf(),
            final(self).phase() is GeneratorsRun,
            final(self).settings_view() == old(self).settings_view(),
            final(self).site_view() == old(self).site_view(),
            final(self).readers() == old(self).readers(),
            final(self).generators() == old(self).generators(),
            result matches Ok(documents) && {
                let generated = all_generated(old(self).generators(), old(self).documents());
                &&& documents.deep_view() == accepted(old(self).documents(), generated)
                &&& final(self).documents() == offered_all(old(self).documents(), generated)
            },
            forall|url: Seq<char>|
                holds_url(old(self).documents(), url) ==> found(final(self).documents(), url)
                    == found(old(self).documents(), url),
    {
        let snapshot = self.documents.values();
        let ghost start = self.documents@;
        let mut taken: Vec<Rc<Document>> = Vec::new();
        let mut g: usize = 0;
        proof {
            assert(self.generators@.take(0) =~= Seq::<GeneratorKind>::empty());
            assert(taken.deep_view() =~= Seq::<DocumentView>::empty());
        }
        while g < self.generators.len()
            invariant
                g <= self.generators.len(),
                snapshot.deep_view() == start,
                self.settings == old(self).settings,
                self.site == old(self).site,
                self.phase == old(self).phase,
                self.readers == old(self).readers,
                self.generators == old(self).generators,
                self.documents.wf(),
                taken.deep_view() == accepted(
                    start,
                    all_generated(self.generators@.take(g as int), start),
                ),
                self.documents@ == offered_all(
                    start,
                    all_generated(self.generators@.take(g as int), start),
                ),
            decreases self.generators.len() - g,
        {
            let ghost done = all_generated(self.generators@.take(g as int), start);
            let ghost fresh = self.generators@[g as int].generated(start);
            let all = snapshot.as_slice();
            assert(all.deep_view() =~= snapshot.deep_view());
            let generated = match self.generators[g].generate(all) {
                Ok(generated) => generated,
                Err(e) => {
                    return Err(e);
                },
            };
            proof {
                let next = self.generators@.take(g + 1);
                assert(next.drop_last() =~= self.generators@.take(g as int));
                assert(next.last() == self.generators@[g as int]);
                assert(generated.deep_view() == fresh);
            }
            offer_all(&mut self.documents, &generated, &mut taken, Ghost(start), Ghost(done));
            g += 1;
        }
        proof {
            assert(self.generators@.take(self.generators.len() as int) =~= self.generators@);
            lemma_generated_never_replace(start, all_generated(self.generators@, start));
        }
        self.phase = Phase::GeneratorsRun;
        Ok(taken)
    }

    /// Ends the build.
    pub fn finish(&mut self)
        requires
            old(self).phase() is GeneratorsRun,
        ensures
            final(self).phase() is Done,
            final(self).settings_view() == old(self).settings_view(),
            final(self).site_view() == old(self).site_view(),
            final(self).readers() == old(self).readers(),
            final(self).generators() == old(self).generators(),
            final(self).documents() == old(self).documents(),
            final(self).wf() == old(self).wf(),
    {
        self.phase = Phase::Done;
    }
}

} // verus!
