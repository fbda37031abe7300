//! The index generator: one index document for every directory that holds a
//! document, directly or further down.

use vstd::prelude::*;
use vstd::string::*;
use std::rc::Rc;
use crate::datetime::DateTime;
use crate::document::{
    empty_metadata, Document, DocumentContent, DocumentContentView, DocumentMetadata,
    DocumentMetadataView, DocumentView,
};
use crate::error::Result;
use crate::generators::Generator;
use crate::registry::share;
use crate::text::{
    chars_of, last_index_of, lemma_last_index_of, lemma_last_index_of_is, owned, same, string_of,
    views,
};

verus! {

/// The directory that holds `path`: what stands before its last `/`, the
/// root, written as the empty path, where it holds none. The empty path has
/// no directory above it.
pub open spec fn parent(path: Seq<char>) -> Option<Seq<char>> {
    if path.len() == 0 {
        None
    } else if last_index_of(path, '/') >= 0 {
        Some(path.take(last_index_of(path, '/')))
    } else {
        Some(Seq::empty())
    }
}

/// The directories above `path`, from the nearest to the root.
pub open spec fn ancestors(path: Seq<char>) -> Seq<Seq<char>>
    decreases path.len(),
{
    match parent(path) {
        None => Seq::empty(),
        Some(dir) => if dir.len() < path.len() {
            seq![dir] + ancestors(dir)
        } else {
            seq![dir]
        },
    }
}

/// Whether the date `a` is later than the date `b`; a missing date is
/// earlier than every date.
pub open spec fn later(a: Option<DateTime>, b: Option<DateTime>) -> bool {
    match (a, b) {
        (Some(x), Some(y)) => y.before(x),
        (Some(_), None) => true,
        _ => false,
    }
}

/// `sorted` with `m` put behind every document that is not older than `m`.
pub open spec fn insert_by_date(
    sorted: Seq<DocumentMetadataView>,
    m: DocumentMetadataView,
) -> Seq<DocumentMetadataView>
    decreases sorted.len(),
{
    if sorted.len() > 0 && later(m.created, sorted.last().created) {
        insert_by_date(sorted.drop_last(), m).push(sorted.last())
    } else {
        sorted.push(m)
    }
}

/// The documents from the newest to the oldest by their date of creation,
/// those without one last. Documents of the same date keep their order.
pub open spec fn newest_first(docs: Seq<DocumentMetadataView>) -> Seq<DocumentMetadataView>
    decreases docs.len(),
{
    if docs.len() == 0 {
        Seq::empty()
    } else {
        insert_by_date(newest_first(docs.drop_last()), docs.last())
    }
}

/// No document is followed by a later one.
pub open spec fn is_newest_first(docs: Seq<DocumentMetadataView>) -> bool {
    forall|i: int, j: int|
        0 <= i < j < docs.len() ==> !later((#[trigger] docs[j]).created, (#[trigger] docs[i]).created)
}

/// `dirs` with `dir` added at the end, unless it is there.
pub open spec fn add_one(dirs: Seq<Seq<char>>, dir: Seq<char>) -> Seq<Seq<char>> {
    if dirs.contains(dir) {
        dirs
    } else {
        dirs.push(dir)
    }
}

/// `dirs` with each of `more` added, first to last.
pub open spec fn add_all(dirs: Seq<Seq<char>>, more: Seq<Seq<char>>) -> Seq<Seq<char>>
    decreases more.len(),
{
    if more.len() == 0 {
        dirs
    } else {
        add_one(add_all(dirs, more.drop_last()), more.last())
    }
}

/// The directories above the documents, each once, in the order in which
/// the documents reach them.
pub open spec fn directories(docs: Seq<DocumentMetadataView>) -> Seq<Seq<char>>
    decreases docs.len(),
{
    if docs.len() == 0 {
        Seq::empty()
    } else {
        add_all(directories(docs.drop_last()), ancestors(docs.last().url))
    }
}

/// The documents below the directory `dir`, in their order.
pub open spec fn members(docs: Seq<DocumentMetadataView>, dir: Seq<char>) -> Seq<
    DocumentMetadataView,
>
    decreases docs.len(),
{
    if docs.len() == 0 {
        Seq::empty()
    } else if ancestors(docs.last().url).contains(dir) {
        members(docs.drop_last(), dir).push(docs.last())
    } else {
        members(docs.drop_last(), dir)
    }
}

/// The address of the index of the directory `dir`.
pub open spec fn index_url(dir: Seq<char>) -> Seq<char> {
    dir + "/index.html"@
}

/// The title of the index of the directory `dir`.
pub open spec fn index_title(dir: Seq<char>) -> Seq<char> {
    "Index of "@ + (if dir.len() > 0 {
        dir
    } else {
        "/"@
    })
}

/// The index of the directory `dir`: it lists the documents below `dir`
/// from the newest to the oldest.
pub open spec fn index_document(docs: Seq<DocumentMetadataView>, dir: Seq<char>) -> DocumentView {
    DocumentView {
        metadata: DocumentMetadataView {
            url: index_url(dir),
            title: index_title(dir),
            ..empty_metadata()
        },
        content: DocumentContentView::Index { documents: newest_first(members(docs, dir)) },
    }
}

/// The indexes of all the directories above the documents.
pub open spec fn index_documents(docs: Seq<DocumentMetadataView>) -> Seq<DocumentView> {
    Seq::new(directories(docs).len(), |i: int| index_document(docs, directories(docs)[i]))
}

/// Every directory above a path is shorter than the path.
pub proof fn lemma_parent_shorter(path: Seq<char>)
    requires
        path.len() > 0,
    ensures
        parent(path) is Some,
        parent(path)->0.len() < path.len(),
        ancestors(path) == seq![parent(path)->0] + ancestors(parent(path)->0),
{
    lemma_last_index_of(path, '/');
}

#[verifier::rlimit(40)]
proof fn lemma_add_all(dirs: Seq<Seq<char>>, more: Seq<Seq<char>>)
    requires
        dirs.no_duplicates(),
    ensures
        add_all(dirs, more).no_duplicates(),
        forall|d: Seq<char>|
            #[trigger] add_all(dirs, more).contains(d) <==> (dirs.contains(d) || more.contains(d)),
    decreases more.len(),
{
    if more.len() > 0 {
        let front = more.drop_last();
        let last = more.last();
        lemma_add_all(dirs, front);
        let before = add_all(dirs, front);
        let after = add_one(before, last);
        assert(more[more.len() - 1] == last);
        assert forall|d: Seq<char>| #[trigger] after.contains(d) <==> (dirs.contains(d)
            || more.contains(d)) by {
            if after.contains(d) {
                let i = choose|i: int| 0 <= i < after.len() && after[i] == d;
                if i < before.len() {
                    assert(before[i] == d);
                    assert(before.contains(d));
                    if front.contains(d) {
                        let j = choose|j: int| 0 <= j < front.len() && front[j] == d;
                        assert(more[j] == d);
                    }
                } else {
                    assert(d == last);
                }
            }
            if dirs.contains(d) {
                assert(before.contains(d));
                let i = choose|i: int| 0 <= i < before.len() && before[i] == d;
                assert(after[i] == d);
            }
            if more.contains(d) {
                let j = choose|j: int| 0 <= j < more.len() && more[j] == d;
                if j < front.len() {
                    assert(front[j] == d);
                    assert(front.contains(d));
                    assert(before.contains(d));
                    let i = choose|i: int| 0 <= i < before.len() && before[i] == d;
                    assert(after[i] == d);
                } else {
                    if before.contains(d) {
                    } else {
                        assert(after[before.len() as int] == d);
                    }
                }
            }
        }
    }
}

/// There is one index for every directory above a document, and no other:
/// no directory comes twice, and a directory is there if and only if it
/// lies above one of the documents.
pub proof fn lemma_directories(docs: Seq<DocumentMetadataView>)
    ensures
        directories(docs).no_duplicates(),
        forall|d: Seq<char>|
            #[trigger] directories(docs).contains(d) <==> exists|i: int|
                0 <= i < docs.len() && ancestors(#[trigger] docs[i].url).contains(d),
        index_documents(docs).len() == directories(docs).len(),
    decreases docs.len(),
{
    if docs.len() > 0 {
        let front = docs.drop_last();
        lemma_directories(front);
        lemma_add_all(directories(front), ancestors(docs.last().url));
        assert forall|d: Seq<char>| #[trigger] directories(docs).contains(d) <==> exists|i: int|
            0 <= i < docs.len() && ancestors(#[trigger] docs[i].url).contains(d) by {
            if directories(front).contains(d) {
                let i = choose|i: int|
                    0 <= i < front.len() && ancestors(#[trigger] front[i].url).contains(d);
                assert(docs[i] == front[i]);
            }
            if exists|i: int| 0 <= i < docs.len() && ancestors(#[trigger] docs[i].url).contains(d) {
                let i = choose|i: int|
                    0 <= i < docs.len() && ancestors(#[trigger] docs[i].url).contains(d);
                if i < front.len() {
                    assert(front[i] == docs[i]);
                }
            }
        }
    }
}

/// Putting a document into a sorted list at the position behind the last
/// document that is not older gives `insert_by_date`.
proof fn lemma_insert_at(sorted: Seq<DocumentMetadataView>, m: DocumentMetadataView, at: int)
    requires
        0 <= at <= sorted.len(),
        forall|j: int| at <= j < sorted.len() ==> later(m.created, (#[trigger] sorted[j]).created),
        at > 0 ==> !later(m.created, sorted[at - 1].created),
    ensures
        insert_by_date(sorted, m) == sorted.insert(at, m),
    decreases sorted.len(),
{
    if at == sorted.len() {
        assert(sorted.insert(at, m) =~= sorted.push(m));
    } else {
        lemma_insert_at(sorted.drop_last(), m, at);
        assert(sorted.drop_last().insert(at, m).push(sorted.last()) =~= sorted.insert(at, m));
    }
}

/// `insert_by_date` keeps a sorted list sorted and adds exactly the new
/// document.
#[verifier::rlimit(40)]
pub proof fn lemma_insert_by_date(sorted: Seq<DocumentMetadataView>, m: DocumentMetadataView)
    requires
        is_newest_first(sorted),
    ensures
        is_newest_first(insert_by_date(sorted, m)),
        insert_by_date(sorted, m).to_multiset() == sorted.to_multiset().insert(m),
    decreases sorted.len(),
{
    broadcast use vstd::seq_lib::group_to_multiset_ensures;

    if sorted.len() > 0 && later(m.created, sorted.last().created) {
        let front = sorted.drop_last();
        let last = sorted.last();
        assert(is_newest_first(front)) by {
            assert forall|i: int, j: int| 0 <= i < j < front.len() implies !later(
                (#[trigger] front[j]).created,
                (#[trigger] front[i]).created,
            ) by {
                assert(front[i] == sorted[i] && front[j] == sorted[j]);
            }
        }
        lemma_insert_by_date(front, m);
        let inner = insert_by_date(front, m);
        let out = inner.push(last);
        assert(sorted =~= front.push(last));
        assert(is_newest_first(out)) by {
            assert forall|i: int, j: int| 0 <= i < j < out.len() implies !later(
                (#[trigger] out[j]).created,
                (#[trigger] out[i]).created,
            ) by {
                if j < inner.len() {
                    assert(out[i] == inner[i] && out[j] == inner[j]);
                } else {
                    assert(out[j] == last);
                    assert(out[i] == inner[i]);
                    assert(inner.to_multiset().count(inner[i]) > 0);
                    if inner[i] != m {
                        assert(front.to_multiset().count(inner[i]) > 0);
                        let k = choose|k: int| 0 <= k < front.len() && front[k] == inner[i];
                        assert(sorted[k] == inner[i]);
                        assert(sorted[sorted.len() - 1] == last);
                    }
                }
            }
        }
    } else {
        let out = sorted.push(m);
        assert(is_newest_first(out)) by {
            assert forall|i: int, j: int| 0 <= i < j < out.len() implies !later(
                (#[trigger] out[j]).created,
                (#[trigger] out[i]).created,
            ) by {
                if j < sorted.len() {
                    assert(out[i] == sorted[i] && out[j] == sorted[j]);
                } else {
                    assert(out[j] == m);
                    assert(out[i] == sorted[i]);
                    if sorted.len() > 0 {
                        assert(!later(m.created, sorted.last().created));
                        if i < sorted.len() - 1 {
                            assert(!later(
                                sorted[sorted.len() - 1].created,
                                sorted[i].created,
                            ));
                        }
                    }
                }
            }
        }
    }
}

/// An index lists its documents from the newest to the oldest, and lists
/// each document below its directory as often as it was given.
pub proof fn lemma_newest_first(docs: Seq<DocumentMetadataView>)
    ensures
        is_newest_first(newest_first(docs)),
        newest_first(docs).to_multiset() == docs.to_multiset(),
        newest_first(docs).len() == docs.len(),
    decreases docs.len(),
{
    broadcast use vstd::seq_lib::group_to_multiset_ensures;

    if docs.len() > 0 {
        lemma_newest_first(docs.drop_last());
        lemma_insert_by_date(newest_first(docs.drop_last()), docs.last());
        assert(docs =~= docs.drop_last().push(docs.last()));
    }
    newest_first(docs).to_multiset_ensures();
    docs.to_multiset_ensures();
}

/// Every index is at the address of its directory and lists the documents
/// below that directory, each as often as it was given, with no document
/// followed by a later one.
pub proof fn lemma_index_lists(docs: Seq<DocumentMetadataView>, k: int)
    requires
        0 <= k < directories(docs).len(),
    ensures
        index_documents(docs)[k].metadata.url == index_url(directories(docs)[k]),
        index_documents(docs)[k].content matches DocumentContentView::Index { documents } && {
            &&& is_newest_first(documents)
            &&& documents.to_multiset() == members(docs, directories(docs)[k]).to_multiset()
        },
{
    lemma_newest_first(members(docs, directories(docs)[k]));
}

/// Whether the date `a` is later than the date `b`.
pub fn is_later(a: &Option<DateTime>, b: &Option<DateTime>) -> (r: bool)
    ensures
        r == later(*a, *b),
{
    match (a, b) {
        (Some(x), Some(y)) => y.is_before(x),
        (Some(_), None) => true,
        _ => false,
    }
}

/// The directories above `url`, from the nearest to the root.
pub fn ancestors_of(url: &str) -> (dirs: Vec<String>)
    ensures
        views(dirs@) == ancestors(url@),
{
    let chars = chars_of(url);
    let mut dirs: Vec<String> = Vec::new();
    let mut end: usize = chars.len();
    proof {
        assert(chars@.take(end as int) =~= chars@);
        assert(views(dirs@) =~= Seq::<Seq<char>>::empty());
        assert(views(dirs@) + ancestors(chars@) =~= ancestors(chars@));
    }
    while end > 0
        invariant
            end <= chars.len(),
            chars@ == url@,
            views(dirs@) + ancestors(chars@.take(end as int)) == ancestors(url@),
        decreases end,
    {
        let ghost path = chars@.take(end as int);
        let mut i: usize = end;
        while i > 0 && chars[i - 1] != '/'
            invariant
                i <= end <= chars.len(),
                forall|j: int| i <= j < end ==> chars@[j] != '/',
            decreases i,
        {
            i -= 1;
        }
        let cut: usize = if i > 0 {
            i - 1
        } else {
            0
        };
        let dir = string_of(&chars, 0, cut);
        proof {
            lemma_last_index_of_is(path, '/', i - 1);
            lemma_parent_shorter(path);
            assert(dir@ =~= parent(path)->0);
            assert(chars@.take(cut as int) =~= dir@);
            assert(views(dirs@.push(dir)) =~= views(dirs@).push(dir@));
            assert(views(dirs@).push(dir@) + ancestors(dir@) =~= views(dirs@) + (seq![dir@]
                + ancestors(dir@)));
        }
        dirs.push(dir);
        end = cut;
    }
    proof {
        assert(chars@.take(0) =~= Seq::<char>::empty());
        assert(views(dirs@) + Seq::<Seq<char>>::empty() =~= views(dirs@));
    }
    dirs
}

/// Whether `list` holds `item`.
pub fn holds(list: &Vec<String>, item: &str) -> (found: bool)
    ensures
        found == views(list@).contains(item@),
{
    let mut i: usize = 0;
    while i < list.len()
        invariant
            i <= list.len(),
            forall|j: int| 0 <= j < i ==> (#[trigger] views(list@)[j]) != item@,
        decreases list.len() - i,
    {
        if same(list[i].as_str(), item) {
            assert(views(list@)[i as int] == item@);
            return true;
        }
        i += 1;
    }
    false
}

/// Puts `doc` into the sorted list behind every document that is not older.
fn insert_sorted(listed: &mut Vec<Rc<DocumentMetadata>>, doc: Rc<DocumentMetadata>)
    ensures
        final(listed).deep_view() == insert_by_date(old(listed).deep_view(), doc@),
{
    let ghost before = listed.deep_view();
    let mut at: usize = listed.len();
    while at > 0 && is_later(&doc.created, &listed[at - 1].created)
        invariant
            at <= listed.len(),
            listed.deep_view() == before,
            forall|j: int| at <= j < before.len() ==> later(doc@.created, (#[trigger] before[j]).created),
        decreases at,
    {
        assert(before[at - 1] == listed@[at - 1]@);
        at -= 1;
    }
    proof {
        if at > 0 {
            assert(before[at - 1] == listed@[at - 1]@);
        }
        lemma_insert_at(before, doc@, at as int);
    }
    listed.insert(at, doc);
    assert(listed.deep_view() =~= before.insert(at as int, doc@));
}

/// Generates the index of every directory above a document.
pub struct IndexGenerator;

impl IndexGenerator {
    /// The directories above the documents, each once, given the
    /// directories above each document.
    fn directories_of(chains: &Vec<Vec<String>>, Ghost(docs): Ghost<Seq<DocumentMetadataView>>) -> (dirs: Vec<String>)
        requires
            chains@.len() == docs.len(),
            forall|i: int| 0 <= i < docs.len() ==> views((#[trigger] chains@[i])@) == ancestors(docs[i].url),
        ensures
            views(dirs@) == directories(docs),
    {
        let mut dirs: Vec<String> = Vec::new();
        let mut i: usize = 0;
        proof {
            assert(views(dirs@) =~= Seq::<Seq<char>>::empty());
            assert(docs.take(0) =~= Seq::<DocumentMetadataView>::empty());
        }
        while i < chains.len()
            invariant
                i <= chains.len(),
                chains@.len() == docs.len(),
                forall|i: int|
                    0 <= i < docs.len() ==> views((#[trigger] chains@[i])@) == ancestors(
                        docs[i].url,
                    ),
                views(dirs@) == directories(docs.take(i as int)),
            decreases chains.len() - i,
        {
            let chain = &chains[i];
            let ghost above = ancestors(docs[i as int].url);
            let ghost base = directories(docs.take(i as int));
            let mut j: usize = 0;
            proof {
                assert(views(chain@) == above);
                assert(above.take(0) =~= Seq::<Seq<char>>::empty());
            }
            while j < chain.len()
                invariant
                    j <= chain.len(),
                    views(chain@) == above,
                    views(dirs@) == add_all(base, above.take(j as int)),
                decreases chain.len() - j,
            {
                proof {
                    let next = above.take(j + 1);
                    assert(next.drop_last() =~= above.take(j as int));
                    assert(next.last() == chain@[j as int]@);
                }
                if !holds(&dirs, chain[j].as_str()) {
                    let dir = chain[j].clone();
                    assert(views(dirs@.push(dir)) =~= views(dirs@).push(dir@));
                    dirs.push(dir);
                }
                j += 1;
            }
            proof {
                assert(above.take(chain.len() as int) =~= above);
                let next = docs.take(i + 1);
                assert(next.drop_last() =~= docs.take(i as int));
                assert(next.last() == docs[i as int]);
            }
            i += 1;
        }
        assert(docs.take(chains.len() as int) =~= docs);
        dirs
    }

    /// The index of the directory `dir`.
    fn index_of(
        docs: &[Rc<DocumentMetadata>],
        chains: &Vec<Vec<String>>,
        dir: &String,
    ) -> (document: Document)
        requires
            chains@.len() == docs@.len(),
            forall|i: int|
                0 <= i < docs@.len() ==> views((#[trigger] chains@[i])@) == ancestors(
                    docs.deep_view()[i].url,
                ),
        ensures
            document@ == index_document(docs.deep_view(), dir@),
    {
        let ghost all = docs.deep_view();
        let mut listed: Vec<Rc<DocumentMetadata>> = Vec::new();
        let mut i: usize = 0;
        proof {
            assert(all.take(0) =~= Seq::<DocumentMetadataView>::empty());
            assert(listed.deep_view() =~= Seq::<DocumentMetadataView>::empty());
        }
        while i < docs.len()
            invariant
                i <= docs.len(),
                all == docs.deep_view(),
                chains@.len() == docs@.len(),
                forall|i: int|
                    0 <= i < docs@.len() ==> views((#[trigger] chains@[i])@) == ancestors(
                        all[i].url,
                    ),
                listed.deep_view() == newest_first(members(all.take(i as int), dir@)),
            decreases docs.len() - i,
        {
            proof {
                let next = all.take(i + 1);
                assert(next.drop_last() =~= all.take(i as int));
                assert(next.last() == all[i as int]);
                assert(all[i as int] == docs@[i as int]@);
                let below = members(all.take(i as int), dir@);
                assert(below.push(all[i as int]).drop_last() =~= below);
            }
            if holds(&chains[i], dir.as_str()) {
                insert_sorted(&mut listed, share(&docs[i]));
            }
            i += 1;
        }
        assert(all.take(docs.len() as int) =~= all);
        let mut metadata = DocumentMetadata::default();
        metadata.url = dir.clone().concat("/index.html");
        metadata.title = owned("Index of ").concat(
            if dir.as_str().is_empty() {
                "/"
            } else {
                dir.as_str()
            },
        );
        Document::new(metadata, DocumentContent::Index { documents: listed })
    }
}

impl Generator for IndexGenerator {
    open spec fn generated(&self, docs: Seq<DocumentMetadataView>) -> Seq<DocumentView> {
        index_documents(docs)
    }

    fn new() -> IndexGenerator {
        IndexGenerator
    }

    /// One index for every directory above a document; this never fails.
    #[verifier::rlimit(40)]
    fn generate(&self, docs: &[Rc<DocumentMetadata>]) -> (result: Result<Vec<Rc<Document>>>)
        ensures
            result is Ok,
    {
        let ghost all = docs.deep_view();
        let mut chains: Vec<Vec<String>> = Vec::new();
        let mut i: usize = 0;
        while i < docs.len()
            invariant
                i <= docs.len(),
                all == docs.deep_view(),
                chains@.len() == i,
                forall|j: int|
                    0 <= j < i ==> views((#[trigger] chains@[j])@) == ancestors(all[j].url),
            decreases docs.len() - i,
        {
            assert(all[i as int] == docs@[i as int]@);
            chains.push(ancestors_of(docs[i].url.as_str()));
            i += 1;
        }
        let dirs = IndexGenerator::directories_of(&chains, Ghost(all));
        let mut documents: Vec<Rc<Document>> = Vec::new();
        let mut k: usize = 0;
        assert(documents.deep_view() =~= index_documents(all).take(0));
        while k < dirs.len()
            invariant
                k <= dirs.len(),
                all == docs.deep_view(),
                chains@.len() == docs@.len(),
                forall|j: int|
                    0 <= j < docs@.len() ==> views((#[trigger] chains@[j])@) == ancestors(
                        all[j].url,
                    ),
                views(dirs@) == directories(all),
                documents.deep_view() == index_documents(all).take(k as int),
            decreases dirs.len() - k,
        {
            let document = IndexGenerator::index_of(docs, &chains, &dirs[k]);
            proof {
                assert(views(dirs@)[k as int] == dirs@[k as int]@);
                assert(index_documents(all)[k as int] == document@);
            }
            let ghost before = documents.deep_view();
            documents.push(Rc::new(document));
            assert(documents.deep_view() =~= before.push(document@));
            assert(before.push(document@) =~= index_documents(all).take(k + 1));
            k += 1;
        }
        assert(index_documents(all).take(dirs.len() as int) =~= index_documents(all));
        Ok(documents)
    }
}

} // verus!
