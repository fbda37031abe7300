//! The settings of a build, and how they are read from a settings document.

use vstd::prelude::*;
use vstd::string::*;
use toml::Value as Toml;
use crate::assoc::{has_key, lemma_key_position_is, lookup};
use crate::error::{Error, Result};
use crate::site::option_view;
use crate::text::{
    chars_of, last_index_of, lemma_last_index_of_is, owned, same, string_of,
};
use crate::utils::{join_path, joined, remove_leading_dot, without_leading_dot};

verus! {

/// Where a site is read from and written to, and how it presents itself.
#[derive(Debug)]
pub struct Settings {
    pub source_dir: String,
    pub output_dir: String,
    pub layouts_dir: String,
    pub max_depth: usize,
    pub follow_links: bool,
    pub site_title: String,
    pub site_url: String,
    pub site_language: Option<String>,
}

/// The model of [`Settings`].
pub struct SettingsView {
    pub source_dir: Seq<char>,
    pub output_dir: Seq<char>,
    pub layouts_dir: Seq<char>,
    pub max_depth: usize,
    pub follow_links: bool,
    pub site_title: Seq<char>,
    pub site_url: Seq<char>,
    pub site_language: Option<Seq<char>>,
}

impl View for Settings {
    type V = SettingsView;

    open spec fn view(&self) -> SettingsView {
        SettingsView {
            source_dir: self.source_dir@,
            output_dir: self.output_dir@,
            layouts_dir: self.layouts_dir@,
            max_depth: self.max_depth,
            follow_links: self.follow_links,
            site_title: self.site_title@,
            site_url: self.site_url@,
            site_language: option_view(self.site_language),
        }
    }
}

/// One value of a settings document, as far as the settings read it: the
/// strings, integers and truth values themselves, and of everything else
/// only what kind of value it is.
#[derive(Debug)]
pub enum Setting {
    String(String),
    Integer(i64),
    Boolean(bool),
    Float,
    Datetime,
    Array,
    Table,
}

/// The model of a [`Setting`].
pub enum SettingView {
    String(Seq<char>),
    Integer(i64),
    Boolean(bool),
    Float,
    Datetime,
    Array,
    Table,
}

impl View for Setting {
    type V = SettingView;

    open spec fn view(&self) -> SettingView {
        match self {
            Setting::String(s) => SettingView::String(s@),
            Setting::Integer(n) => SettingView::Integer(*n),
            Setting::Boolean(b) => SettingView::Boolean(*b),
            Setting::Float => SettingView::Float,
            Setting::Datetime => SettingView::Datetime,
            Setting::Array => SettingView::Array,
            Setting::Table => SettingView::Table,
        }
    }
}

/// The name of the kind of a value.
pub open spec fn kind_name(value: SettingView) -> Seq<char> {
    match value {
        SettingView::String(_) => "string"@,
        SettingView::Integer(_) => "integer"@,
        SettingView::Float => "float"@,
        SettingView::Boolean(_) => "boolean"@,
        SettingView::Datetime => "datetime"@,
        SettingView::Array => "array"@,
        SettingView::Table => "table"@,
    }
}

impl Setting {
    /// The name of the kind of this value.
    pub fn type_str(&self) -> (name: &'static str)
        ensures
            name@ == kind_name(self@),
    {
        match self {
            Setting::String(_) => "string",
            Setting::Integer(_) => "integer",
            Setting::Float => "float",
            Setting::Boolean(_) => "boolean",
            Setting::Datetime => "datetime",
            Setting::Array => "array",
            Setting::Table => "table",
        }
    }
}

/// The model of the entries of a settings document.
pub type Entries = Seq<(Seq<char>, SettingView)>;

/// The model of a list of entries.
pub open spec fn entry_views(entries: Seq<(String, Setting)>) -> Entries {
    Seq::new(entries.len(), |i: int| (entries[i].0@, entries[i].1@))
}

/// What parsing a settings document with the text `content` gives: the
/// entries at its top level, in the order of the parsed table, or `None`
/// where the text is not valid.
pub uninterp spec fn parsed_toml(content: Seq<char>) -> Option<Entries>;

/// `toml::de::from_str`, for a `toml::Table`. The entries of the table, each
/// value reduced to a [`Setting`], are named by [`parsed_toml`]; an error is
/// handed on as the message that its `Display` writes.
#[verifier::external_body]
fn parse_toml(content: &str) -> (result: core::result::Result<Vec<(String, Setting)>, String>)
    ensures
        match result {
            Ok(entries) => parsed_toml(content@) == Some(entry_views(entries@)),
            Err(_) => parsed_toml(content@) is None,
        },
{
    let table = toml::de::from_str::<toml::Table>(content).map_err(|error| error.to_string())?;
    Ok(table.into_iter().map(|(key, value)| (key, match value {
        Toml::String(s) => Setting::String(s),
        Toml::Integer(n) => Setting::Integer(n),
        Toml::Boolean(b) => Setting::Boolean(b),
        Toml::Float(_) => Setting::Float,
        Toml::Datetime(_) => Setting::Datetime,
        Toml::Array(_) => Setting::Array,
        Toml::Table(_) => Setting::Table,
    })).collect())
}

/// The entry under `key`, if there is one.
fn entry_at<'a>(toml: &'a Vec<(String, Setting)>, key: &str) -> (entry: Option<&'a Setting>)
    ensures
        match entry {
            Some(value) => lookup(entry_views(toml@), key@) == Some(value@),
            None => !has_key(entry_views(toml@), key@),
        },
{
    let mut i: usize = 0;
    while i < toml.len()
        invariant
            i <= toml.len(),
            forall|j: int| 0 <= j < i ==> (#[trigger] entry_views(toml@)[j]).0 != key@,
        decreases toml.len() - i,
    {
        if same(toml[i].0.as_str(), key) {
            proof {
                lemma_key_position_is(entry_views(toml@), key@, i as int);
            }
            return Some(&toml[i].1);
        }
        i += 1;
    }
    proof {
        lemma_key_position_is(entry_views(toml@), key@, i as int);
    }
    None
}

/// `num::NumCast::from`, from `i64` to `usize`: the same number where it is
/// not negative and fits, else nothing.
#[verifier::external_body]
fn cast_to_usize(number: i64) -> (cast: Option<usize>)
    ensures
        cast == if 0 <= number <= usize::MAX {
            Some(number as usize)
        } else {
            None
        },
{
    num::NumCast::from(number)
}

/// The settings that hold where nothing else is said.
pub open spec fn default_settings() -> SettingsView {
    SettingsView {
        source_dir: "."@,
        output_dir: "_output"@,
        layouts_dir: "_layouts"@,
        max_depth: usize::MAX,
        follow_links: false,
        site_title: "Untitled"@,
        site_url: "/"@,
        site_language: None,
    }
}

/// The default settings for a site in the directory `cwd`.
pub open spec fn settings_in(cwd: Seq<char>) -> SettingsView {
    SettingsView {
        source_dir: joined(cwd, "."@),
        output_dir: joined(cwd, "_output"@),
        layouts_dir: joined(cwd, "_layouts"@),
        ..default_settings()
    }
}

/// The message for a value of the wrong kind.
pub open spec fn mismatch_message(found: Seq<char>, expected: Seq<char>, key: Seq<char>) -> Seq<
    char,
> {
    "found a value of type `"@ + found + "` instead of a value of type `"@ + expected
        + "` for the key `"@ + key + "`"@
}

/// The message for an integer that is negative or too large.
pub open spec fn overflow_message() -> Seq<char> {
    "integer overflow"@
}

/// A type that a setting can be read as.
pub trait FromToml: Sized {
    /// The name of the kind of value that is read.
    spec fn expected() -> Seq<char>;

    /// Whether a value of the right kind cannot be read.
    spec fn overflows(value: SettingView) -> bool;

    /// Whether `result` is what `value` is read as.
    spec fn reads(value: SettingView, result: Self) -> bool;

    /// The name of the kind of value that is read.
    fn type_str() -> (name: &'static str)
        ensures
            name@ == Self::expected(),
    ;

    /// Reads a value of the right kind.
    fn from_toml(toml: &Setting) -> (result: Option<Self>)
        requires
            kind_name(toml@) == Self::expected(),
        ensures
            match result {
                Some(read) => !Self::overflows(toml@) && Self::reads(toml@, read),
                None => Self::overflows(toml@),
            },
    ;
}

/// The names of the kinds of value differ from each other.
pub proof fn lemma_kind_names()
    ensures
        "string"@ != "integer"@,
        "string"@ != "float"@,
        "string"@ != "boolean"@,
        "string"@ != "datetime"@,
        "string"@ != "array"@,
        "string"@ != "table"@,
        "integer"@ != "float"@,
        "integer"@ != "boolean"@,
        "integer"@ != "datetime"@,
        "integer"@ != "array"@,
        "integer"@ != "table"@,
        "boolean"@ != "float"@,
        "boolean"@ != "datetime"@,
        "boolean"@ != "array"@,
        "boolean"@ != "table"@,
{
    reveal_strlit("string");
    reveal_strlit("integer");
    reveal_strlit("float");
    reveal_strlit("boolean");
    reveal_strlit("datetime");
    reveal_strlit("array");
    reveal_strlit("table");
    assert("string"@[1] == 't');
    assert("integer"@[1] == 'n');
    assert("float"@[1] == 'l');
    assert("boolean"@[1] == 'o');
    assert("datetime"@[1] == 'a');
    assert("array"@[1] == 'r');
    assert("table"@[2] == 'b');
    assert("datetime"@[2] == 't');
    assert("string"@[0] == 's');
    assert("table"@[0] == 't');
    assert("integer"@[0] == 'i');
    assert("boolean"@[0] == 'b');
}

impl FromToml for String {
    open spec fn expected() -> Seq<char> {
        "string"@
    }

    open spec fn overflows(value: SettingView) -> bool {
        false
    }

    open spec fn reads(value: SettingView, result: String) -> bool {
        value == SettingView::String(result@)
    }

    fn type_str() -> (name: &'static str) {
        "string"
    }

    fn from_toml(toml: &Setting) -> (result: Option<String>) {
        proof {
            lemma_kind_names();
        }
        match toml {
            Setting::String(s) => Some(s.clone()),
            _ => None,
        }
    }
}

impl FromToml for usize {
    open spec fn expected() -> Seq<char> {
        "integer"@
    }

    open spec fn overflows(value: SettingView) -> bool {
        value matches SettingView::Integer(n) && !(0 <= n <= usize::MAX)
    }

    open spec fn reads(value: SettingView, result: usize) -> bool {
        value matches SettingView::Integer(n) && n == result
    }

    fn type_str() -> (name: &'static str) {
        "integer"
    }

    fn from_toml(toml: &Setting) -> (result: Option<usize>) {
        proof {
            lemma_kind_names();
        }
        match toml {
            Setting::Integer(n) => cast_to_usize(*n),
            _ => None,
        }
    }
}

impl FromToml for bool {
    open spec fn expected() -> Seq<char> {
        "boolean"@
    }

    open spec fn overflows(value: SettingView) -> bool {
        false
    }

    open spec fn reads(value: SettingView, result: bool) -> bool {
        value == SettingView::Boolean(result)
    }

    fn type_str() -> (name: &'static str) {
        "boolean"
    }

    fn from_toml(toml: &Setting) -> (result: Option<bool>) {
        proof {
            lemma_kind_names();
        }
        match toml {
            Setting::Boolean(b) => Some(*b),
            _ => None,
        }
    }
}

/// Why the value under `key` cannot be read as a value of the kind
/// `expected`, if it cannot: it is of another kind, or it is an integer that
/// `overflows`.
pub open spec fn read_error(
    entries: Entries,
    key: Seq<char>,
    expected: Seq<char>,
    overflows: bool,
) -> Option<Seq<char>> {
    if !has_key(entries, key) {
        None
    } else if kind_name(lookup(entries, key)->0) != expected {
        Some(mismatch_message(kind_name(lookup(entries, key)->0), expected, key))
    } else if overflows {
        Some(overflow_message())
    } else {
        None
    }
}

/// Reads the value under `key`, if there is one.
fn read_value<T: FromToml>(toml: &Vec<(String, Setting)>, key: &str) -> (result: Result<Option<T>>)
    ensures
        match result {
            Ok(Some(read)) => {
                &&& has_key(entry_views(toml@), key@)
                &&& kind_name(lookup(entry_views(toml@), key@)->0) == T::expected()
                &&& T::reads(lookup(entry_views(toml@), key@)->0, read)
            },
            Ok(None) => !has_key(entry_views(toml@), key@),
            Err(e) => {
                &&& has_key(entry_views(toml@), key@)
                &&& e matches Error::Settings { message }
                &&& Some(message@) == read_error(
                    entry_views(toml@),
                    key@,
                    T::expected(),
                    T::overflows(lookup(entry_views(toml@), key@)->0),
                )
            },
        },
{
    match entry_at(toml, key) {
        Some(value) => {
            if same(value.type_str(), T::type_str()) {
                match T::from_toml(value) {
                    Some(read) => Ok(Some(read)),
                    None => Err(Error::Settings { message: owned("integer overflow") }),
                }
            } else {
                Err(
                    Error::Settings {
                        message: owned("found a value of type `").concat(value.type_str()).concat(
                            "` instead of a value of type `",
                        ).concat(T::type_str()).concat("` for the key `").concat(key).concat("`"),
                    },
                )
            }
        },
        None => Ok(None),
    }
}

/// The directory that the string `raw` names, seen from `cwd`.
pub open spec fn directory(cwd: Seq<char>, raw: Seq<char>) -> Seq<char> {
    joined(cwd, without_leading_dot(raw))
}

/// Reads the directory under `key`, if there is one, seen from `cwd`.
fn read_directory(toml: &Vec<(String, Setting)>, key: &str, cwd: &str) -> (result: Result<Option<String>>)
    ensures
        match result {
            Ok(Some(path)) => {
                &&& has_key(entry_views(toml@), key@)
                &&& lookup(entry_views(toml@), key@)->0 matches SettingView::String(raw)
                &&& path@ == directory(cwd@, raw)
            },
            Ok(None) => !has_key(entry_views(toml@), key@),
            Err(e) => {
                &&& has_key(entry_views(toml@), key@)
                &&& e matches Error::Settings { message }
                &&& Some(message@) == read_error(entry_views(toml@), key@, "string"@, false)
            },
        },
{
    match read_value::<String>(toml, key) {
        Ok(Some(raw)) => {
            let path = remove_leading_dot(raw.as_str());
            Ok(Some(join_path(cwd, path.as_str())))
        },
        Ok(None) => Ok(None),
        Err(e) => Err(e),
    }
}

/// The text under `key`, if a text is there.
pub open spec fn text_at(entries: Entries, key: Seq<char>) -> Option<
    Seq<char>,
> {
    if has_key(entries, key) {
        match lookup(entries, key)->0 {
            SettingView::String(s) => Some(s),
            _ => None,
        }
    } else {
        None
    }
}

/// The text under `key`, or `default` where there is no entry.
pub open spec fn text_or(
    entries: Entries,
    key: Seq<char>,
    default: Seq<char>,
) -> Seq<char> {
    match text_at(entries, key) {
        Some(s) => s,
        None => default,
    }
}

/// The directory under `key`, seen from `cwd`, or `default` where there is
/// no entry.
pub open spec fn directory_or(
    entries: Entries,
    key: Seq<char>,
    cwd: Seq<char>,
    default: Seq<char>,
) -> Seq<char> {
    match text_at(entries, key) {
        Some(raw) => directory(cwd, raw),
        None => default,
    }
}

/// Whether the integer under `key`, if one is there, is negative or too
/// large.
pub open spec fn depth_overflows(entries: Entries) -> bool {
    has_key(entries, "compiler.max_depth"@) && <usize as FromToml>::overflows(
        lookup(entries, "compiler.max_depth"@)->0,
    )
}

/// Why the entries are no settings, if they are none: the first of the
/// settings, in the order in which they are read, whose value cannot be
/// read.
pub open spec fn settings_error(entries: Entries) -> Option<Seq<char>> {
    if read_error(entries, "site.title"@, "string"@, false) is Some {
        read_error(entries, "site.title"@, "string"@, false)
    } else if read_error(entries, "site.url"@, "string"@, false) is Some {
        read_error(entries, "site.url"@, "string"@, false)
    } else if read_error(entries, "site.language"@, "string"@, false) is Some {
        read_error(entries, "site.language"@, "string"@, false)
    } else if read_error(entries, "compiler.output_dir"@, "string"@, false) is Some {
        read_error(entries, "compiler.output_dir"@, "string"@, false)
    } else if read_error(entries, "compiler.source_dir"@, "string"@, false) is Some {
        read_error(entries, "compiler.source_dir"@, "string"@, false)
    } else if read_error(entries, "compiler.layouts_dir"@, "string"@, false) is Some {
        read_error(entries, "compiler.layouts_dir"@, "string"@, false)
    } else if read_error(entries, "compiler.max_depth"@, "integer"@, depth_overflows(entries))
        is Some {
        read_error(entries, "compiler.max_depth"@, "integer"@, depth_overflows(entries))
    } else {
        read_error(entries, "compiler.follow_links"@, "boolean"@, false)
    }
}

/// The settings that the entries give for a site in the directory `cwd`:
/// the defaults for that directory, with every setting that has an entry
/// taken from it.
pub open spec fn settings_of(entries: Entries, cwd: Seq<char>) -> SettingsView {
    let base = settings_in(cwd);
    SettingsView {
        site_title: text_or(entries, "site.title"@, base.site_title),
        site_url: text_or(entries, "site.url"@, base.site_url),
        site_language: text_at(entries, "site.language"@),
        output_dir: directory_or(entries, "compiler.output_dir"@, cwd, base.output_dir),
        source_dir: directory_or(entries, "compiler.source_dir"@, cwd, base.source_dir),
        layouts_dir: directory_or(entries, "compiler.layouts_dir"@, cwd, base.layouts_dir),
        max_depth: if has_key(entries, "compiler.max_depth"@) {
            match lookup(entries, "compiler.max_depth"@)->0 {
                SettingView::Integer(n) => n as usize,
                _ => base.max_depth,
            }
        } else {
            base.max_depth
        },
        follow_links: if has_key(entries, "compiler.follow_links"@) {
            match lookup(entries, "compiler.follow_links"@)->0 {
                SettingView::Boolean(b) => b,
                _ => base.follow_links,
            }
        } else {
            base.follow_links
        },
    }
}

/// The directory that holds the settings file `path`: what stands before the
/// last slash of the path, the root where that slash is its first
/// character, and `.` where the path is empty.
pub open spec fn settings_directory(path: Seq<char>) -> Seq<char> {
    if path.len() == 0 {
        "."@
    } else if last_index_of(path, '/') > 0 {
        path.take(last_index_of(path, '/'))
    } else if last_index_of(path, '/') == 0 {
        "/"@
    } else {
        Seq::empty()
    }
}

/// The directory that holds the settings file `path`.
pub fn directory_of(path: &str) -> (dir: String)
    ensures
        dir@ == settings_directory(path@),
{
    let chars = chars_of(path);
    if chars.len() == 0 {
        return owned(".");
    }
    let mut k: usize = chars.len();
    while k > 0 && chars[k - 1] != '/'
        invariant
            k <= chars.len(),
            forall|j: int| k <= j < chars.len() ==> chars@[j] != '/',
        decreases k,
    {
        k -= 1;
    }
    proof {
        lemma_last_index_of_is(chars@, '/', k - 1);
    }
    if k > 1 {
        assert(chars@.take(k - 1) =~= chars@.subrange(0, k - 1));
        string_of(&chars, 0, k - 1)
    } else if k == 1 {
        owned("/")
    } else {
        String::new()
    }
}

impl Default for Settings {
    fn default() -> (settings: Settings)
        ensures
            settings@ == default_settings(),
    {
        Settings {
            source_dir: owned("."),
            output_dir: owned("_output"),
            layouts_dir: owned("_layouts"),
            max_depth: usize::MAX,
            follow_links: false,
            site_title: owned("Untitled"),
            site_url: owned("/"),
            site_language: None,
        }
    }
}

impl Clone for Settings {
    fn clone(&self) -> (copy: Settings)
        ensures
            copy@ == self@,
    {
        Settings {
            source_dir: self.source_dir.clone(),
            output_dir: self.output_dir.clone(),
            layouts_dir: self.layouts_dir.clone(),
            max_depth: self.max_depth,
            follow_links: self.follow_links,
            site_title: self.site_title.clone(),
            site_url: self.site_url.clone(),
            site_language: self.site_language.clone(),
        }
    }
}

impl Settings {
    /// The default settings for a site in the directory `cwd`.
    pub fn with_working_directory(cwd: &str) -> (settings: Settings)
        ensures
            settings@ == settings_in(cwd@),
    {
        let mut settings = Settings::default();
        settings.source_dir = join_path(cwd, ".");
        settings.output_dir = join_path(cwd, "_output");
        settings.layouts_dir = join_path(cwd, "_layouts");
        settings
    }

    /// The settings that a parsed settings document gives for a site in the
    /// directory `cwd`.
    #[verifier::rlimit(40)]
    fn from_toml(toml: &Vec<(String, Setting)>, cwd: &str) -> (result: Result<Settings>)
        ensures
            match result {
                Ok(settings) => settings_error(entry_views(toml@)) is None && settings@
                    == settings_of(entry_views(toml@), cwd@),
                Err(e) => e matches Error::Settings { message } && settings_error(
                    entry_views(toml@),
                ) == Some(message@),
            },
    {
        let mut settings = Settings::with_working_directory(cwd);
        proof {
            lemma_kind_names();
        }
        match read_value::<String>(toml, "site.title") {
            Ok(Some(title)) => {
                settings.site_title = title;
            },
            Ok(None) => {},
            Err(e) => {
                return Err(e);
            },
        }
        match read_value::<String>(toml, "site.url") {
            Ok(Some(url)) => {
                settings.site_url = url;
            },
            Ok(None) => {},
            Err(e) => {
                return Err(e);
            },
        }
        match read_value::<String>(toml, "site.language") {
            Ok(Some(language)) => {
                settings.site_language = Some(language);
            },
            Ok(None) => {},
            Err(e) => {
                return Err(e);
            },
        }
        match read_directory(toml, "compiler.output_dir", cwd) {
            Ok(Some(dir)) => {
                settings.output_dir = dir;
            },
            Ok(None) => {},
            Err(e) => {
                return Err(e);
            },
        }
        match read_directory(toml, "compiler.source_dir", cwd) {
            Ok(Some(dir)) => {
                settings.source_dir = dir;
            },
            Ok(None) => {},
            Err(e) => {
                return Err(e);
            },
        }
        match read_directory(toml, "compiler.layouts_dir", cwd) {
            Ok(Some(dir)) => {
                settings.layouts_dir = dir;
            },
            Ok(None) => {},
            Err(e) => {
                return Err(e);
            },
        }
        match read_value::<usize>(toml, "compiler.max_depth") {
            Ok(Some(depth)) => {
                settings.max_depth = depth;
            },
            Ok(None) => {},
            Err(e) => {
                return Err(e);
            },
        }
        match read_value::<bool>(toml, "compiler.follow_links") {
            Ok(Some(follow)) => {
                settings.follow_links = follow;
            },
            Ok(None) => {},
            Err(e) => {
                return Err(e);
            },
        }
        Ok(settings)
    }

    /// The settings that the settings file `path` with the text `content`
    /// gives. Directories are seen from the directory that holds the file.
    /// A text that is no valid document is refused as one that cannot be
    /// loaded; a setting of the wrong kind, and a depth that is negative or
    /// too large, as a misconfiguration.
    pub fn from_document(path: &str, content: &str) -> (result: Result<Settings>)
        ensures
            match result {
                Ok(settings) => {
                    &&& parsed_toml(content@) matches Some(entries)
                    &&& settings_error(entries) is None
                    &&& settings@ == settings_of(entries, settings_directory(path@))
                },
                Err(Error::LoadSettings { path: file, .. }) => parsed_toml(content@) is None
                    && file@ == path@,
                Err(Error::Settings { message }) => parsed_toml(content@) matches Some(entries)
                    && settings_error(entries) == Some(message@),
                Err(_) => false,
            },
    {
        match parse_toml(content) {
            Ok(toml) => {
                let cwd = directory_of(path);
                Settings::from_toml(&toml, cwd.as_str())
            },
            Err(cause) => Err(Error::LoadSettings { path: owned(path), cause }),
        }
    }
}

} // verus!
