//! What the templates of a site are given, and how they are named.

use vstd::prelude::*;
use vstd::string::*;
use crate::datetime::{formatted_date, rfc3339, DateTime};
use crate::document::Document;
use crate::site::Site;
use crate::text::{same, views};
use crate::utils::{
    extension, extension_of, replace_extension, strip_prefix, stripped, with_extension,
};

verus! {

/// The separator that a list is joined with where none is given.
pub const DEFAULT_SEPARATOR: &'static str = ", ";

/// What a page is rendered with: the site and the document.
#[derive(Debug)]
pub struct Context<'a> {
    pub site: &'a Site,
    pub document: &'a Document,
}

impl<'a> Context<'a> {
    /// The context of `document` in `site`.
    pub fn new<'b>(site: &'b Site, document: &'b Document) -> (context: Context<'b>)
        ensures
            context.site == site,
            context.document == document,
    {
        Context { site, document }
    }
}

/// The name of the template in the file `path` below the directory `dir`:
/// the path below `dir`, without the extension of the file. A file that is
/// not below `dir` has none.
pub open spec fn template_name_of(dir: Seq<char>, path: Seq<char>) -> Option<Seq<char>> {
    stripped(with_extension(path, Seq::empty()), dir)
}

/// The name of the template in the file `template_path`.
pub fn template_name(templates_dir: &str, template_path: &str) -> (name: Option<String>)
    ensures
        match name {
            Some(n) => template_name_of(templates_dir@, template_path@) == Some(n@),
            None => template_name_of(templates_dir@, template_path@) is None,
        },
{
    let bare = replace_extension(template_path, "");
    proof {
        reveal_strlit("");
        assert(""@ =~= Seq::<char>::empty());
    }
    strip_prefix(bare.as_str(), templates_dir)
}

/// Tests whether an entry of the templates directory is a template or may
/// hold some: every directory, and every file with the extension `hbs`.
pub fn filter_templates(is_dir: bool, is_file: bool, path: &str) -> (wanted: bool)
    ensures
        wanted == (is_dir || (is_file && extension(path@) == Some("hbs"@))),
{
    if is_dir {
        true
    } else if is_file {
        match extension_of(path) {
            Some(ext) => same(ext.as_str(), "hbs"),
            None => false,
        }
    } else {
        false
    }
}

/// The items one after the other, with `separator` between neighbours.
pub open spec fn joined_items(items: Seq<Seq<char>>, separator: Seq<char>) -> Seq<char>
    decreases items.len(),
{
    if items.len() == 0 {
        Seq::empty()
    } else if items.len() == 1 {
        items[0]
    } else {
        joined_items(items.drop_last(), separator) + separator + items.last()
    }
}

/// The items joined with `separator`.
pub fn join_items(items: &Vec<String>, separator: &str) -> (text: String)
    ensures
        text@ == joined_items(views(items@), separator@),
{
    let mut text = String::new();
    let mut i: usize = 0;
    assert(views(items@).take(0) =~= Seq::<Seq<char>>::empty());
    while i < items.len()
        invariant
            i <= items.len(),
            text@ == joined_items(views(items@).take(i as int), separator@),
        decreases items.len() - i,
    {
        proof {
            let next = views(items@).take(i + 1);
            assert(next.drop_last() =~= views(items@).take(i as int));
            assert(next.last() == items@[i as int]@);
            if i == 0 {
                assert(text@ + items@[i as int]@ =~= items@[i as int]@);
            }
        }
        if i > 0 {
            text.append(separator);
        }
        text.append(items[i].as_str());
        i += 1;
    }
    assert(views(items@).take(items.len() as int) =~= views(items@));
    text
}

/// The RFC 3339 date `value` written as the `strftime` pattern `format`
/// says; `None` where the value is no such date or the pattern is not valid.
pub open spec fn date_text(value: Seq<char>, format: Seq<char>) -> Option<Seq<char>> {
    match rfc3339(value) {
        Some(date) => formatted_date(date, format),
        None => None,
    }
}

/// The RFC 3339 date `value`, written as the pattern `format` says.
pub fn format_date(value: &str, format: &str) -> (text: Option<String>)
    ensures
        match text {
            Some(t) => date_text(value@, format@) == Some(t@),
            None => date_text(value@, format@) is None,
        },
{
    match DateTime::from_string(value) {
        Some(date) => date.format(format),
        None => None,
    }
}

} // verus!
