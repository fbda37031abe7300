//! Raw values and paths.

use vstd::prelude::*;
use vstd::string::*;
use crate::scan::{keep, last_where, lemma_last_where, lemma_last_where_is};
use crate::text::{
    chars_of, join, join_with, last_index_of, lemma_last_index_of_is, lemma_split_len, owned,
    push_char, same, split, split_on, string_of, trim, trimmed, views,
};

pub use crate::datetime::{rfc3339, DateTime};

verus! {

/// `c` in lower case where it is an ASCII capital, else `c`.
pub open spec fn ascii_lower(c: char) -> char {
    if 'A' <= c <= 'Z' {
        (((c as u8) + 32) as u8) as char
    } else {
        c
    }
}

/// `s` with its ASCII capitals in lower case.
pub open spec fn ascii_lowercase(s: Seq<char>) -> Seq<char> {
    Seq::new(s.len(), |i: int| ascii_lower(s[i]))
}

/// `s` with its ASCII capitals in lower case.
pub fn to_ascii_lowercase(s: &str) -> (r: String)
    ensures
        r@ == ascii_lowercase(s@),
{
    let chars = chars_of(s);
    let mut r = String::new();
    let mut i: usize = 0;
    while i < chars.len()
        invariant
            i <= chars.len(),
            chars@ == s@,
            r@ == ascii_lowercase(s@).take(i as int),
        decreases chars.len() - i,
    {
        let c = chars[i];
        let lower = if 'A' <= c && c <= 'Z' {
            ((c as u8) + 32) as char
        } else {
            c
        };
        push_char(&mut r, lower);
        i += 1;
        assert(ascii_lowercase(s@).take(i as int) == ascii_lowercase(s@).take(i - 1).push(lower));
    }
    assert(ascii_lowercase(s@).take(chars.len() as int) == ascii_lowercase(s@));
    r
}

/// The truth value that a raw string stands for: one of `1`, `t`, `true`,
/// `on`, `yes` for true and one of `0`, `f`, `false`, `off`, `no` for false,
/// whatever the case of its letters and the whitespace around it.
pub open spec fn truth_value(raw: Seq<char>) -> Option<bool> {
    let word = ascii_lowercase(trimmed(raw));
    if word == "1"@ || word == "t"@ || word == "true"@ || word == "on"@ || word == "yes"@ {
        Some(true)
    } else if word == "0"@ || word == "f"@ || word == "false"@ || word == "off"@ || word == "no"@ {
        Some(false)
    } else {
        None
    }
}

/// The pieces of `raw` between commas, each trimmed.
pub open spec fn comma_list(raw: Seq<char>) -> Seq<Seq<char>> {
    let pieces = split(raw, ',');
    Seq::new(pieces.len(), |i: int| trimmed(pieces[i]))
}

/// A type whose values can be read from a raw string.
pub trait FromRaw: Sized {
    /// Whether `raw` stands for no value of this type.
    spec fn rejects(raw: Seq<char>) -> bool;

    /// Whether `value` is what `raw` stands for.
    spec fn reads(raw: Seq<char>, value: Self) -> bool;

    /// The value that `raw` stands for, if any.
    fn from_raw(raw: &str) -> (value: Option<Self>)
        ensures
            match value {
                Some(v) => !Self::rejects(raw@) && Self::reads(raw@, v),
                None => Self::rejects(raw@),
            },
    ;
}

impl FromRaw for bool {
    open spec fn rejects(raw: Seq<char>) -> bool {
        truth_value(raw) is None
    }

    open spec fn reads(raw: Seq<char>, value: bool) -> bool {
        truth_value(raw) == Some(value)
    }

    fn from_raw(raw: &str) -> (value: Option<bool>) {
        let shown = trim(raw);
        let lower = to_ascii_lowercase(shown.as_str());
        let word = lower.as_str();
        if same(word, "1") || same(word, "t") || same(word, "true") || same(word, "on") || same(
            word,
            "yes",
        ) {
            Some(true)
        } else if same(word, "0") || same(word, "f") || same(word, "false") || same(word, "off")
            || same(word, "no") {
            Some(false)
        } else {
            None
        }
    }
}

impl FromRaw for DateTime {
    open spec fn rejects(raw: Seq<char>) -> bool {
        rfc3339(trimmed(raw)) is None
    }

    open spec fn reads(raw: Seq<char>, value: DateTime) -> bool {
        rfc3339(trimmed(raw)) == Some(value)
    }

    fn from_raw(raw: &str) -> (value: Option<DateTime>) {
        let shown = trim(raw);
        DateTime::from_string(shown.as_str())
    }
}

impl FromRaw for String {
    open spec fn rejects(raw: Seq<char>) -> bool {
        false
    }

    open spec fn reads(raw: Seq<char>, value: String) -> bool {
        value@ == trimmed(raw)
    }

    fn from_raw(raw: &str) -> (value: Option<String>) {
        Some(trim(raw))
    }
}

impl FromRaw for Vec<String> {
    open spec fn rejects(raw: Seq<char>) -> bool {
        false
    }

    open spec fn reads(raw: Seq<char>, value: Vec<String>) -> bool {
        views(value@) == comma_list(raw)
    }

    fn from_raw(raw: &str) -> (value: Option<Vec<String>>) {
        let pieces = split_on(raw, ',');
        let mut list: Vec<String> = Vec::new();
        let mut i: usize = 0;
        while i < pieces.len()
            invariant
                i <= pieces.len(),
                views(pieces@) == split(raw@, ','),
                views(list@) == comma_list(raw@).take(i as int),
            decreases pieces.len() - i,
        {
            let item = trim(pieces[i].as_str());
            proof {
                assert(views(pieces@)[i as int] == pieces@[i as int]@);
                assert(views(list@.push(item)) =~= views(list@).push(item@));
                assert(comma_list(raw@).take(i + 1) =~= comma_list(raw@).take(i as int).push(
                    item@,
                ));
            }
            list.push(item);
            i += 1;
        }
        assert(comma_list(raw@).take(pieces.len() as int) =~= comma_list(raw@));
        Some(list)
    }
}

impl<T: FromRaw> FromRaw for Option<T> {
    open spec fn rejects(raw: Seq<char>) -> bool {
        T::rejects(raw)
    }

    open spec fn reads(raw: Seq<char>, value: Option<T>) -> bool {
        value matches Some(inner) && T::reads(raw, inner)
    }

    fn from_raw(raw: &str) -> (value: Option<Option<T>>) {
        match T::from_raw(raw) {
            Some(inner) => Some(Some(inner)),
            None => None,
        }
    }
}

/// The pieces of a path between its slashes.
pub open spec fn segments(path: Seq<char>) -> Seq<Seq<char>> {
    split(path, '/')
}

/// The pieces that name something: neither empty nor `.`.
pub open spec fn names() -> spec_fn(Seq<char>) -> bool {
    |piece: Seq<char>| piece.len() > 0 && piece != "."@
}

/// The pieces that name a file or a directory: neither empty nor `.` nor
/// `..`.
pub open spec fn normal_names() -> spec_fn(Seq<char>) -> bool {
    |piece: Seq<char>| piece.len() > 0 && piece != "."@ && piece != ".."@
}

/// Whether the path starts at the root.
pub open spec fn is_rooted(path: Seq<char>) -> bool {
    path.len() > 0 && path[0] == '/'
}

/// The position, among the pieces of the path, of its last name; -1 where it
/// has none.
pub open spec fn last_name(path: Seq<char>) -> int {
    last_where(segments(path), names())
}

/// The name of the file or directory that the path ends in. A path that
/// holds no name, or ends in `..`, has none.
pub open spec fn file_name(path: Seq<char>) -> Option<Seq<char>> {
    let k = last_name(path);
    if k >= 0 && segments(path)[k] != ".."@ {
        Some(segments(path)[k])
    } else {
        None
    }
}

/// Whether the path ends in a name that starts with a dot.
pub open spec fn hidden(path: Seq<char>) -> bool {
    file_name(path) matches Some(name) && name[0] == '.'
}

/// Whether the path ends in a name that starts neither with a dot nor with
/// an underscore.
pub open spec fn public(path: Seq<char>) -> bool {
    file_name(path) matches Some(name) && name[0] != '.' && name[0] != '_'
}

/// The names of files and directories in the path, joined by slashes: the
/// path without a leading slash, without `.` and `..`, and without empty
/// pieces.
pub open spec fn without_prefix(path: Seq<char>) -> Seq<char> {
    join(keep(segments(path), normal_names()), '/')
}

/// Whether the first piece of the path is `.`.
pub open spec fn leads_with_dot(path: Seq<char>) -> bool {
    segments(path)[0] == "."@
}

/// The path without a leading `.`: what names something in the pieces that
/// follow it, joined by slashes. A path that does not start with `.` is left
/// as it is.
pub open spec fn without_leading_dot(path: Seq<char>) -> Seq<char> {
    if leads_with_dot(path) {
        join(keep(segments(path).skip(1), names()), '/')
    } else {
        path
    }
}

/// `rel` seen from `base`: `rel` itself where it starts at the root, else
/// the two with one slash between them.
pub open spec fn joined(base: Seq<char>, rel: Seq<char>) -> Seq<char> {
    if is_rooted(rel) {
        rel
    } else if base.len() == 0 || base.last() == '/' {
        base + rel
    } else {
        base.push('/') + rel
    }
}

/// The path below `base`: where both start at the root or neither does, and
/// the names of `base` are the first names of the path, the names that
/// follow them, joined by slashes.
pub open spec fn stripped(path: Seq<char>, base: Seq<char>) -> Option<Seq<char>> {
    let p = keep(segments(path), names());
    let b = keep(segments(base), names());
    if is_rooted(path) == is_rooted(base) && b.len() <= p.len() && p.take(b.len() as int) == b {
        Some(join(p.skip(b.len() as int), '/'))
    } else {
        None
    }
}

/// The extension of the path: what follows the last dot of its file name,
/// where that dot is not the first character of the name.
pub open spec fn extension(path: Seq<char>) -> Option<Seq<char>> {
    match file_name(path) {
        Some(name) => if last_index_of(name, '.') > 0 {
            Some(name.skip(last_index_of(name, '.') + 1))
        } else {
            None
        },
        None => None,
    }
}

/// The file name `name` with its extension replaced by `ext`, or taken away
/// where `ext` is empty.
pub open spec fn renamed(name: Seq<char>, ext: Seq<char>) -> Seq<char> {
    let stem = if last_index_of(name, '.') > 0 {
        name.take(last_index_of(name, '.'))
    } else {
        name
    };
    if ext.len() > 0 {
        stem.push('.') + ext
    } else {
        stem
    }
}

/// The path with the extension of its file name replaced by `ext`, and cut
/// behind that name. A path without a file name is left as it is.
pub open spec fn with_extension(path: Seq<char>, ext: Seq<char>) -> Seq<char> {
    match file_name(path) {
        Some(name) => join(segments(path).take(last_name(path)).push(renamed(name, ext)), '/'),
        None => path,
    }
}

fn is_name(piece: &str) -> (r: bool)
    ensures
        r == names()(piece@),
{
    !piece.is_empty() && !same(piece, ".")
}

fn is_normal_name(piece: &str) -> (r: bool)
    ensures
        r == normal_names()(piece@),
{
    !piece.is_empty() && !same(piece, ".") && !same(piece, "..")
}

/// The pieces that name something; only those that name a file or a
/// directory where `normal` is set.
fn kept_names(pieces: &Vec<String>, from: usize, normal: bool) -> (kept: Vec<String>)
    requires
        from <= pieces.len(),
    ensures
        views(kept@) == keep(
            views(pieces@).skip(from as int),
            if normal {
                normal_names()
            } else {
                names()
            },
        ),
{
    let ghost wanted = if normal {
        normal_names()
    } else {
        names()
    };
    let ghost all = views(pieces@).skip(from as int);
    let mut kept: Vec<String> = Vec::new();
    let mut i: usize = from;
    proof {
        assert(all.take(0) =~= Seq::<Seq<char>>::empty());
        assert(views(kept@) =~= Seq::<Seq<char>>::empty());
    }
    while i < pieces.len()
        invariant
            from <= i <= pieces.len(),
            all == views(pieces@).skip(from as int),
            wanted == if normal {
                normal_names()
            } else {
                names()
            },
            views(kept@) == keep(all.take(i - from), wanted),
        decreases pieces.len() - i,
    {
        let piece = &pieces[i];
        let wanted_here = if normal {
            is_normal_name(piece.as_str())
        } else {
            is_name(piece.as_str())
        };
        proof {
            let next = all.take(i - from + 1);
            assert(next.drop_last() =~= all.take(i - from));
            assert(next.last() == piece@);
        }
        if wanted_here {
            let copy = piece.clone();
            assert(views(kept@.push(copy)) =~= views(kept@).push(copy@));
            kept.push(copy);
        }
        i += 1;
    }
    assert(all.take(pieces.len() - from) =~= all);
    kept
}

/// The position of the last piece that names something, counted from 1; 0
/// where there is none.
fn last_name_of(pieces: &Vec<String>) -> (k: usize)
    ensures
        k == last_where(views(pieces@), names()) + 1,
        k <= pieces.len(),
{
    let mut k: usize = pieces.len();
    while k > 0 && !is_name(pieces[k - 1].as_str())
        invariant
            k <= pieces.len(),
            forall|j: int| k <= j < pieces.len() ==> !names()(#[trigger] views(pieces@)[j]),
        decreases k,
    {
        assert(views(pieces@)[k - 1] == pieces@[k - 1]@);
        k -= 1;
    }
    proof {
        if k > 0 {
            assert(views(pieces@)[k - 1] == pieces@[k - 1]@);
        }
        lemma_last_where_is(views(pieces@), names(), k - 1);
    }
    k
}

/// The name of the file or directory that `path` ends in.
pub fn file_name_of(path: &str) -> (name: Option<String>)
    ensures
        match name {
            Some(n) => file_name(path@) == Some(n@),
            None => file_name(path@) is None,
        },
{
    let pieces = split_on(path, '/');
    let k = last_name_of(&pieces);
    if k > 0 {
        assert(views(pieces@)[k - 1] == pieces@[k - 1]@);
        if !same(pieces[k - 1].as_str(), "..") {
            return Some(pieces[k - 1].clone());
        }
    }
    None
}

fn starts_with(name: &str, c: char) -> (r: bool)
    ensures
        r == (name@.len() > 0 && name@[0] == c),
{
    let chars = chars_of(name);
    chars.len() > 0 && chars[0] == c
}

/// Whether `path` ends in a name that starts with a dot.
pub fn is_hidden(path: &str) -> (r: bool)
    ensures
        r == hidden(path@),
{
    proof {
        lemma_last_where(segments(path@), names());
    }
    match file_name_of(path) {
        Some(name) => starts_with(name.as_str(), '.'),
        None => false,
    }
}

/// Whether `path` ends in the name of a file or directory that belongs to
/// the site: one that starts neither with a dot nor with an underscore.
pub fn is_public(path: &str) -> (r: bool)
    ensures
        r == public(path@),
{
    proof {
        lemma_last_where(segments(path@), names());
    }
    !is_hidden(path) && match file_name_of(path) {
        Some(name) => !starts_with(name.as_str(), '_'),
        None => false,
    }
}

/// Removes the prefixes from a path: what is left are the names in it.
pub fn remove_path_prefix(path: &str) -> (names: String)
    ensures
        names@ == without_prefix(path@),
{
    let pieces = split_on(path, '/');
    assert(views(pieces@).skip(0) =~= views(pieces@));
    let kept = kept_names(&pieces, 0, true);
    join_with(&kept, '/')
}

/// Removes the dot at the beginning of a path.
pub fn remove_leading_dot(path: &str) -> (rest: String)
    ensures
        rest@ == without_leading_dot(path@),
{
    let pieces = split_on(path, '/');
    proof {
        lemma_split_len(path@, '/');
        assert(views(pieces@)[0] == pieces@[0]@);
    }
    if same(pieces[0].as_str(), ".") {
        let kept = kept_names(&pieces, 1, false);
        join_with(&kept, '/')
    } else {
        owned(path)
    }
}

/// `rel` seen from `base`.
pub fn join_path(base: &str, rel: &str) -> (path: String)
    ensures
        path@ == joined(base@, rel@),
{
    if starts_with(rel, '/') {
        return owned(rel);
    }
    let chars = chars_of(base);
    let mut path = owned(base);
    if chars.len() > 0 && chars[chars.len() - 1] != '/' {
        push_char(&mut path, '/');
    }
    path.append(rel);
    path
}

/// The path below `base`, where `path` lies below it.
pub fn strip_prefix(path: &str, base: &str) -> (rest: Option<String>)
    ensures
        match rest {
            Some(r) => stripped(path@, base@) == Some(r@),
            None => stripped(path@, base@) is None,
        },
{
    let path_pieces = split_on(path, '/');
    let base_pieces = split_on(base, '/');
    proof {
        assert(views(path_pieces@).skip(0) =~= views(path_pieces@));
        assert(views(base_pieces@).skip(0) =~= views(base_pieces@));
    }
    let p = kept_names(&path_pieces, 0, false);
    let b = kept_names(&base_pieces, 0, false);
    if starts_with(path, '/') != starts_with(base, '/') || b.len() > p.len() {
        return None;
    }
    let mut i: usize = 0;
    while i < b.len()
        invariant
            i <= b.len() <= p.len(),
            views(p@) == keep(segments(path@), names()),
            views(b@) == keep(segments(base@), names()),
            forall|j: int| 0 <= j < i ==> views(p@)[j] == views(b@)[j],
        decreases b.len() - i,
    {
        if !same(p[i].as_str(), b[i].as_str()) {
            proof {
                assert(views(p@)[i as int] == p@[i as int]@);
                assert(views(b@)[i as int] == b@[i as int]@);
                assert(views(p@).take(b.len() as int)[i as int] != views(b@)[i as int]);
            }
            return None;
        }
        proof {
            assert(views(p@)[i as int] == p@[i as int]@);
            assert(views(b@)[i as int] == b@[i as int]@);
        }
        i += 1;
    }
    assert(views(p@).take(b.len() as int) =~= views(b@));
    let mut rest: Vec<String> = Vec::new();
    let mut k: usize = b.len();
    assert(views(rest@) =~= views(p@).subrange(b.len() as int, k as int));
    while k < p.len()
        invariant
            b.len() <= k <= p.len(),
            views(rest@) == views(p@).subrange(b.len() as int, k as int),
        decreases p.len() - k,
    {
        let piece = p[k].clone();
        assert(views(p@)[k as int] == p@[k as int]@);
        assert(views(rest@.push(piece)) =~= views(rest@).push(piece@));
        assert(views(rest@).push(piece@) =~= views(p@).subrange(b.len() as int, k + 1));
        rest.push(piece);
        k += 1;
    }
    assert(views(p@).subrange(b.len() as int, p.len() as int) =~= views(p@).skip(b.len() as int));
    Some(join_with(&rest, '/'))
}

/// The position of the last dot in `name`, counted from 1; 0 where there is
/// none.
fn last_dot_of(chars: &Vec<char>) -> (k: usize)
    ensures
        k == last_index_of(chars@, '.') + 1,
        k <= chars.len(),
{
    let mut k: usize = chars.len();
    while k > 0 && chars[k - 1] != '.'
        invariant
            k <= chars.len(),
            forall|j: int| k <= j < chars.len() ==> chars@[j] != '.',
        decreases k,
    {
        k -= 1;
    }
    proof {
        lemma_last_index_of_is(chars@, '.', k - 1);
    }
    k
}

/// The extension of `path`.
pub fn extension_of(path: &str) -> (ext: Option<String>)
    ensures
        match ext {
            Some(e) => extension(path@) == Some(e@),
            None => extension(path@) is None,
        },
{
    match file_name_of(path) {
        Some(name) => {
            let chars = chars_of(name.as_str());
            let k = last_dot_of(&chars);
            if k > 1 {
                assert(chars@.skip(k as int) =~= chars@.subrange(k as int, chars.len() as int));
                Some(string_of(&chars, k, chars.len()))
            } else {
                None
            }
        },
        None => None,
    }
}

/// `path` with the extension of its file name replaced by `ext`.
pub fn replace_extension(path: &str, ext: &str) -> (replaced: String)
    ensures
        replaced@ == with_extension(path@, ext@),
{
    let pieces = split_on(path, '/');
    let k = last_name_of(&pieces);
    if k == 0 {
        return owned(path);
    }
    assert(views(pieces@)[k - 1] == pieces@[k - 1]@);
    if same(pieces[k - 1].as_str(), "..") {
        return owned(path);
    }
    let chars = chars_of(pieces[k - 1].as_str());
    let dot = last_dot_of(&chars);
    let mut name = if dot > 1 {
        assert(chars@.take(dot - 1) =~= chars@.subrange(0, dot - 1));
        string_of(&chars, 0, dot - 1)
    } else {
        assert(chars@.subrange(0, chars.len() as int) =~= chars@);
        string_of(&chars, 0, chars.len())
    };
    if !ext.is_empty() {
        push_char(&mut name, '.');
        name.append(ext);
    }
    let mut kept: Vec<String> = Vec::new();
    let mut i: usize = 0;
    assert(views(kept@) =~= views(pieces@).take(0));
    while i < k - 1
        invariant
            i <= k - 1 < pieces.len(),
            views(kept@) == views(pieces@).take(i as int),
        decreases k - 1 - i,
    {
        let piece = pieces[i].clone();
        assert(views(pieces@)[i as int] == pieces@[i as int]@);
        assert(views(kept@.push(piece)) =~= views(kept@).push(piece@));
        assert(views(kept@).push(piece@) =~= views(pieces@).take(i + 1));
        kept.push(piece);
        i += 1;
    }
    assert(views(kept@.push(name)) =~= views(kept@).push(name@));
    kept.push(name);
    join_with(&kept, '/')
}

} // verus!
