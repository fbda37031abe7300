//! Typed metadata values, and the fields that turn raw strings into them.

use vstd::prelude::*;
use vstd::std_specs::convert::FromSpecImpl;
use crate::error::{Error, Result};
use crate::text::{
    contains_char, has_char, owned, same, split, split_on, trim, trimmed, views,
};

pub use crate::datetime::{rfc3339, DateTime};

verus! {

/// A metadata value.
#[derive(Debug)]
pub enum Value {
    Null,
    Bool(bool),
    I64(i64),
    U64(u64),
    /// A binary64 number, held as its bit pattern.
    Float(u64),
    String(String),
    DateTime(DateTime),
    Vec(Vec<Value>),
    /// Named values, in the order in which they were given.
    Table(Vec<(String, Value)>),
}

/// The model of a [`Value`].
pub enum ValueView {
    Null,
    Bool(bool),
    I64(i64),
    U64(u64),
    Float(u64),
    String(Seq<char>),
    DateTime(DateTime),
    Vec(Seq<ValueView>),
    Table(Seq<(Seq<char>, ValueView)>),
}

/// The model of `value`.
pub open spec fn value_view(value: Value) -> ValueView
    decreases value,
{
    match value {
        Value::Null => ValueView::Null,
        Value::Bool(b) => ValueView::Bool(b),
        Value::I64(n) => ValueView::I64(n),
        Value::U64(n) => ValueView::U64(n),
        Value::Float(bits) => ValueView::Float(bits),
        Value::String(s) => ValueView::String(s@),
        Value::DateTime(date) => ValueView::DateTime(date),
        Value::Vec(items) => ValueView::Vec(
            Seq::new(
                items@.len(),
                |i: int|
                    if 0 <= i < items@.len() {
                        value_view(items@[i])
                    } else {
                        ValueView::Null
                    },
            ),
        ),
        Value::Table(entries) => ValueView::Table(
            Seq::new(
                entries@.len(),
                |i: int|
                    if 0 <= i < entries@.len() {
                        (entries@[i].0@, value_view(entries@[i].1))
                    } else {
                        (Seq::empty(), ValueView::Null)
                    },
            ),
        ),
    }
}

impl View for Value {
    type V = ValueView;

    open spec fn view(&self) -> ValueView {
        value_view(*self)
    }
}

/// A copy of `value`.
#[verifier::loop_isolation(false)]
pub fn clone_value(value: &Value) -> (copy: Value)
    ensures
        copy@ == value@,
    decreases value,
{
    match value {
        Value::Null => Value::Null,
        Value::Bool(b) => Value::Bool(*b),
        Value::I64(n) => Value::I64(*n),
        Value::U64(n) => Value::U64(*n),
        Value::Float(bits) => Value::Float(*bits),
        Value::String(s) => Value::String(s.clone()),
        Value::DateTime(date) => Value::DateTime(*date),
        Value::Vec(items) => {
            let mut copies: Vec<Value> = Vec::new();
            let mut i: usize = 0;
            while i < items.len()
                invariant
                    i <= items.len(),
                    copies@.len() == i,
                    forall|j: int| 0 <= j < i ==> (#[trigger] copies@[j])@ == items@[j]@,
                decreases items.len() - i,
            {
                copies.push(clone_value(&items[i]));
                i += 1;
            }
            let copy = Value::Vec(copies);
            assert(copy@->Vec_0 =~= value@->Vec_0);
            copy
        },
        Value::Table(entries) => {
            let mut copies: Vec<(String, Value)> = Vec::new();
            let mut i: usize = 0;
            while i < entries.len()
                invariant
                    i <= entries.len(),
                    copies@.len() == i,
                    forall|j: int|
                        0 <= j < i ==> (#[trigger] copies@[j]).0@ == entries@[j].0@ && copies@[j].1@
                            == entries@[j].1@,
                decreases entries.len() - i,
            {
                copies.push((entries[i].0.clone(), clone_value(&entries[i].1)));
                i += 1;
            }
            let copy = Value::Table(copies);
            assert(copy@->Table_0 =~= value@->Table_0);
            copy
        },
    }
}

impl Clone for Value {
    fn clone(&self) -> (copy: Value)
        ensures
            copy@ == self@,
    {
        clone_value(self)
    }
}

/// The model of a list value holds the models of its items.
pub proof fn lemma_list_view(items: Vec<Value>)
    ensures
        Value::Vec(items)@ is Vec,
        Value::Vec(items)@->Vec_0.len() == items@.len(),
        forall|i: int|
            0 <= i < items@.len() ==> (#[trigger] Value::Vec(items)@->Vec_0[i]) == items@[i]@,
{
}

/// The string values with the texts `list`.
pub open spec fn text_values(list: Seq<Seq<char>>) -> Seq<ValueView> {
    Seq::new(list.len(), |i: int| ValueView::String(list[i]))
}

/// The separator of a raw list: `;` where it holds one, else `,`.
pub open spec fn list_separator(raw: Seq<char>) -> char {
    if contains_char(raw, ';') {
        ';'
    } else {
        ','
    }
}

/// The pieces trimmed, without those that are empty then.
pub open spec fn kept_pieces(pieces: Seq<Seq<char>>) -> Seq<Seq<char>>
    decreases pieces.len(),
{
    if pieces.len() == 0 {
        Seq::empty()
    } else {
        let before = kept_pieces(pieces.drop_last());
        let piece = trimmed(pieces.last());
        if piece.len() > 0 {
            before.push(piece)
        } else {
            before
        }
    }
}

/// The items of a raw list: it is split at its separator, each piece is
/// trimmed and the empty ones are dropped. Order and repetitions stay.
pub open spec fn keyword_list(raw: Seq<char>) -> Seq<Seq<char>> {
    kept_pieces(split(raw, list_separator(raw)))
}

/// The items of a raw list.
pub fn keywords_of(raw: &str) -> (list: Vec<String>)
    ensures
        views(list@) == keyword_list(raw@),
{
    let sep = if has_char(raw, ';') {
        ';'
    } else {
        ','
    };
    let pieces = split_on(raw, sep);
    let mut list: Vec<String> = Vec::new();
    let mut i: usize = 0;
    assert(views(pieces@).take(0) =~= Seq::<Seq<char>>::empty());
    assert(views(list@) =~= Seq::<Seq<char>>::empty());
    while i < pieces.len()
        invariant
            i <= pieces.len(),
            views(list@) == kept_pieces(views(pieces@).take(i as int)),
        decreases pieces.len() - i,
    {
        let piece = trim(pieces[i].as_str());
        proof {
            let next = views(pieces@).take(i + 1);
            assert(next.drop_last() =~= views(pieces@).take(i as int));
            assert(next.last() == pieces@[i as int]@);
            assert(views(list@.push(piece)) =~= views(list@).push(piece@));
        }
        if !piece.as_str().is_empty() {
            list.push(piece);
        }
        i += 1;
    }
    assert(views(pieces@).take(pieces.len() as int) =~= views(pieces@));
    list
}

/// The list value of a raw list.
fn read_metadata_list(metadata: &str) -> (value: Result<Value>)
    ensures
        value matches Ok(v) && v@ == ValueView::Vec(text_values(keyword_list(metadata@))),
{
    let list = keywords_of(metadata);
    let mut items: Vec<Value> = Vec::new();
    let mut i: usize = 0;
    while i < list.len()
        invariant
            i <= list.len(),
            items@.len() == i,
            forall|j: int| 0 <= j < i ==> (#[trigger] items@[j])@ == ValueView::String(list@[j]@),
        decreases list.len() - i,
    {
        items.push(Value::String(list[i].clone()));
        i += 1;
    }
    let value = Value::Vec(items);
    assert(value@->Vec_0 =~= text_values(views(list@)));
    Ok(value)
}

/// A named metadata field: it says how a raw string becomes a value.
pub trait Field {
    /// The name of the field.
    spec fn name(&self) -> Seq<char>;

    /// Whether `raw` is a value of this field.
    spec fn accepts(&self, raw: Seq<char>) -> bool;

    /// The value that `raw` stands for, where it is one.
    spec fn value(&self, raw: Seq<char>) -> ValueView;

    /// The name of the field.
    fn get_name(&self) -> (name: &'static str)
        ensures
            name@ == self.name(),
    ;

    /// The value that `raw` stands for.
    fn from_raw(&self, raw: &str) -> (result: Result<Value>)
        ensures
            match result {
                Ok(v) => self.accepts(raw@) && v@ == self.value(raw@),
                Err(_) => !self.accepts(raw@),
            },
    ;

    /// The value of the field where a document gives none.
    fn get_default(&self) -> (value: Option<Value>)
        ensures
            value is None,
    {
        None
    }
}

/// A text field: the raw string, trimmed. Every string is accepted.
#[derive(Debug, Clone, Copy)]
pub struct Text(pub &'static str);

impl Field for Text {
    open spec fn name(&self) -> Seq<char> {
        self.0@
    }

    open spec fn accepts(&self, raw: Seq<char>) -> bool {
        true
    }

    open spec fn value(&self, raw: Seq<char>) -> ValueView {
        ValueView::String(trimmed(raw))
    }

    fn get_name(&self) -> (name: &'static str) {
        self.0
    }

    fn from_raw(&self, raw: &str) -> (result: Result<Value>) {
        Ok(Value::String(trim(raw)))
    }
}

/// A date field: the raw string is an RFC 3339 date and time with an offset.
pub struct Date(pub &'static str);

impl Field for Date {
    open spec fn name(&self) -> Seq<char> {
        self.0@
    }

    open spec fn accepts(&self, raw: Seq<char>) -> bool {
        rfc3339(raw) is Some
    }

    open spec fn value(&self, raw: Seq<char>) -> ValueView {
        ValueView::DateTime(rfc3339(raw)->0)
    }

    fn get_name(&self) -> (name: &'static str) {
        self.0
    }

    /// A string that is no date is refused as an invalid date, with the
    /// string as it was given.
    fn from_raw(&self, raw: &str) -> (result: Result<Value>)
        ensures
            result matches Err(e) ==> e matches Error::InvalidDate { date } && date@ == raw@,
    {
        match DateTime::from_string(raw) {
            Some(date) => Ok(Value::DateTime(date)),
            None => Err(Error::InvalidDate { date: owned(raw) }),
        }
    }
}

/// A list field: the raw string is a list of items, separated by `;` where
/// it holds one and by `,` where it holds none.
pub struct Keywords(pub &'static str);

impl Field for Keywords {
    open spec fn name(&self) -> Seq<char> {
        self.0@
    }

    open spec fn accepts(&self, raw: Seq<char>) -> bool {
        true
    }

    open spec fn value(&self, raw: Seq<char>) -> ValueView {
        ValueView::Vec(text_values(keyword_list(raw)))
    }

    fn get_name(&self) -> (name: &'static str) {
        self.0
    }

    fn from_raw(&self, raw: &str) -> (result: Result<Value>) {
        read_metadata_list(raw)
    }
}

/// What a field name stands for in a document's metadata.
#[derive(Clone, Copy, Debug)]
pub enum FieldKind {
    Title,
    Language,
    Created,
    Modified,
    Keywords,
    /// The address of the document, which its metadata cannot set.
    Url,
    /// Any other name.
    Extra,
}

/// What the field name `name` stands for.
pub open spec fn field_kind(name: Seq<char>) -> FieldKind {
    if name == "title"@ {
        FieldKind::Title
    } else if name == "language"@ {
        FieldKind::Language
    } else if name == "created"@ {
        FieldKind::Created
    } else if name == "modified"@ {
        FieldKind::Modified
    } else if name == "keywords"@ {
        FieldKind::Keywords
    } else if name == "url"@ {
        FieldKind::Url
    } else {
        FieldKind::Extra
    }
}

/// What the field name `name` stands for.
pub fn kind_of(name: &str) -> (kind: FieldKind)
    ensures
        kind == field_kind(name@),
{
    if same(name, "title") {
        FieldKind::Title
    } else if same(name, "language") {
        FieldKind::Language
    } else if same(name, "created") {
        FieldKind::Created
    } else if same(name, "modified") {
        FieldKind::Modified
    } else if same(name, "keywords") {
        FieldKind::Keywords
    } else if same(name, "url") {
        FieldKind::Url
    } else {
        FieldKind::Extra
    }
}

/// Whether `raw` is a value of the field `name`: a date field takes RFC 3339
/// dates, every other field takes every string.
pub open spec fn coercible(name: Seq<char>, raw: Seq<char>) -> bool {
    match field_kind(name) {
        FieldKind::Created => rfc3339(raw) is Some,
        FieldKind::Modified => rfc3339(raw) is Some,
        _ => true,
    }
}

/// The value of the field `name` that `raw` stands for: trimmed text for the
/// title and the language, a date for the two dates, a list for the
/// keywords, and the raw string as it is for every other name.
pub open spec fn coerced(name: Seq<char>, raw: Seq<char>) -> ValueView {
    match field_kind(name) {
        FieldKind::Title => ValueView::String(trimmed(raw)),
        FieldKind::Language => ValueView::String(trimmed(raw)),
        FieldKind::Created => ValueView::DateTime(rfc3339(raw)->0),
        FieldKind::Modified => ValueView::DateTime(rfc3339(raw)->0),
        FieldKind::Keywords => ValueView::Vec(text_values(keyword_list(raw))),
        FieldKind::Url => ValueView::String(raw),
        FieldKind::Extra => ValueView::String(raw),
    }
}

/// The typed value of the field `name`, given in lower case, for the raw
/// string `raw`. A name that is not known gives the raw string as text; only
/// a date field can fail, on a string that is no date.
pub fn coerce(name: &str, raw: &str) -> (result: Result<Value>)
    ensures
        match result {
            Ok(v) => coercible(name@, raw@) && v@ == coerced(name@, raw@),
            Err(e) => {
                &&& !coercible(name@, raw@)
                &&& e matches Error::InvalidDate { date }
                &&& date@ == raw@
            },
        },
{
    match kind_of(name) {
        FieldKind::Title => Text("title").from_raw(raw),
        FieldKind::Language => Text("language").from_raw(raw),
        FieldKind::Created => Date("created").from_raw(raw),
        FieldKind::Modified => Date("modified").from_raw(raw),
        FieldKind::Keywords => Keywords("keywords").from_raw(raw),
        FieldKind::Url => Ok(Value::String(owned(raw))),
        FieldKind::Extra => Ok(Value::String(owned(raw))),
    }
}

/// A value that may hold a part of the type `T`.
pub trait OptAsRef<T>: Sized {
    /// The part of the type `T` that the value holds, if it holds one.
    spec fn part(&self) -> Option<T>;

    /// The part of the type `T`, if the value holds one.
    fn as_ref<'l>(&'l self) -> (part: Option<&'l T>)
        ensures
            match part {
                Some(held) => self.part() == Some(*held),
                None => self.part() is None,
            },
    ;

    /// The part of the type `T`, to be changed in place, if the value holds
    /// one.
    fn as_mut<'l>(&'l mut self) -> (part: Option<&'l mut T>)
        ensures
            match part {
                Some(held) => old(self).part() == Some(*held) && final(self).part() == Some(
                    *final(held),
                ),
                None => old(self).part() is None && *final(self) == *old(self),
            },
    ;
}

impl OptAsRef<bool> for Value {
    open spec fn part(&self) -> Option<bool> {
        match self {
            Value::Bool(value) => Some(*value),
            _ => None,
        }
    }

    fn as_ref<'l>(&'l self) -> (part: Option<&'l bool>) {
        match self {
            Value::Bool(value) => Some(value),
            _ => None,
        }
    }

    fn as_mut<'l>(&'l mut self) -> (part: Option<&'l mut bool>) {
        match self {
            Value::Bool(value) => Some(value),
            _ => None,
        }
    }
}

impl From<bool> for Value {
    fn from(value: bool) -> (made: Value) {
        Value::Bool(value)
    }
}

impl FromSpecImpl<bool> for Value {
    open spec fn obeys_from_spec() -> bool {
        true
    }

    open spec fn from_spec(value: bool) -> Value {
        Value::Bool(value)
    }
}

impl OptAsRef<i64> for Value {
    open spec fn part(&self) -> Option<i64> {
        match self {
            Value::I64(value) => Some(*value),
            _ => None,
        }
    }

    fn as_ref<'l>(&'l self) -> (part: Option<&'l i64>) {
        match self {
            Value::I64(value) => Some(value),
            _ => None,
        }
    }

    fn as_mut<'l>(&'l mut self) -> (part: Option<&'l mut i64>) {
        match self {
            Value::I64(value) => Some(value),
            _ => None,
        }
    }
}

impl From<i64> for Value {
    fn from(value: i64) -> (made: Value) {
        Value::I64(value)
    }
}

impl FromSpecImpl<i64> for Value {
    open spec fn obeys_from_spec() -> bool {
        true
    }

    open spec fn from_spec(value: i64) -> Value {
        Value::I64(value)
    }
}

impl OptAsRef<u64> for Value {
    open spec fn part(&self) -> Option<u64> {
        match self {
            Value::U64(value) => Some(*value),
            _ => None,
        }
    }

    fn as_ref<'l>(&'l self) -> (part: Option<&'l u64>) {
        match self {
            Value::U64(value) => Some(value),
            _ => None,
        }
    }

    fn as_mut<'l>(&'l mut self) -> (part: Option<&'l mut u64>) {
        match self {
            Value::U64(value) => Some(value),
            _ => None,
        }
    }
}

impl From<u64> for Value {
    fn from(value: u64) -> (made: Value) {
        Value::U64(value)
    }
}

impl FromSpecImpl<u64> for Value {
    open spec fn obeys_from_spec() -> bool {
        true
    }

    open spec fn from_spec(value: u64) -> Value {
        Value::U64(value)
    }
}

impl OptAsRef<String> for Value {
    open spec fn part(&self) -> Option<String> {
        match self {
            Value::String(value) => Some(*value),
            _ => None,
        }
    }

    fn as_ref<'l>(&'l self) -> (part: Option<&'l String>) {
        match self {
            Value::String(value) => Some(value),
            _ => None,
        }
    }

    fn as_mut<'l>(&'l mut self) -> (part: Option<&'l mut String>) {
        match self {
            Value::String(value) => Some(value),
            _ => None,
        }
    }
}

impl From<String> for Value {
    fn from(value: String) -> (made: Value) {
        Value::String(value)
    }
}

impl FromSpecImpl<String> for Value {
    open spec fn obeys_from_spec() -> bool {
        true
    }

    open spec fn from_spec(value: String) -> Value {
        Value::String(value)
    }
}

impl OptAsRef<DateTime> for Value {
    open spec fn part(&self) -> Option<DateTime> {
        match self {
            Value::DateTime(value) => Some(*value),
            _ => None,
        }
    }

    fn as_ref<'l>(&'l self) -> (part: Option<&'l DateTime>) {
        match self {
            Value::DateTime(value) => Some(value),
            _ => None,
        }
    }

    fn as_mut<'l>(&'l mut self) -> (part: Option<&'l mut DateTime>) {
        match self {
            Value::DateTime(value) => Some(value),
            _ => None,
        }
    }
}

impl From<DateTime> for Value {
    fn from(value: DateTime) -> (made: Value) {
        Value::DateTime(value)
    }
}

impl FromSpecImpl<DateTime> for Value {
    open spec fn obeys_from_spec() -> bool {
        true
    }

    open spec fn from_spec(value: DateTime) -> Value {
        Value::DateTime(value)
    }
}

impl OptAsRef<Vec<Value>> for Value {
    open spec fn part(&self) -> Option<Vec<Value>> {
        match self {
            Value::Vec(value) => Some(*value),
            _ => None,
        }
    }

    fn as_ref<'l>(&'l self) -> (part: Option<&'l Vec<Value>>) {
        match self {
            Value::Vec(value) => Some(value),
            _ => None,
        }
    }

    fn as_mut<'l>(&'l mut self) -> (part: Option<&'l mut Vec<Value>>) {
        match self {
            Value::Vec(value) => Some(value),
            _ => None,
        }
    }
}

impl From<Vec<Value>> for Value {
    fn from(value: Vec<Value>) -> (made: Value) {
        Value::Vec(value)
    }
}

impl FromSpecImpl<Vec<Value>> for Value {
    open spec fn obeys_from_spec() -> bool {
        true
    }

    open spec fn from_spec(value: Vec<Value>) -> Value {
        Value::Vec(value)
    }
}

impl OptAsRef<Vec<(String, Value)>> for Value {
    open spec fn part(&self) -> Option<Vec<(String, Value)>> {
        match self {
            Value::Table(value) => Some(*value),
            _ => None,
        }
    }

    fn as_ref<'l>(&'l self) -> (part: Option<&'l Vec<(String, Value)>>) {
        match self {
            Value::Table(value) => Some(value),
            _ => None,
        }
    }

    fn as_mut<'l>(&'l mut self) -> (part: Option<&'l mut Vec<(String, Value)>>) {
        match self {
            Value::Table(value) => Some(value),
            _ => None,
        }
    }
}

impl From<Vec<(String, Value)>> for Value {
    fn from(value: Vec<(String, Value)>) -> (made: Value) {
        Value::Table(value)
    }
}

impl FromSpecImpl<Vec<(String, Value)>> for Value {
    open spec fn obeys_from_spec() -> bool {
        true
    }

    open spec fn from_spec(value: Vec<(String, Value)>) -> Value {
        Value::Table(value)
    }
}

impl<'l> From<&'l str> for Value {
    fn from(string: &'l str) -> (made: Value)
        ensures
            made@ == ValueView::String(string@),
    {
        Value::String(owned(string))
    }
}

impl<'l> FromSpecImpl<&'l str> for Value {
    open spec fn obeys_from_spec() -> bool {
        false
    }

    open spec fn from_spec(string: &'l str) -> Value {
        Value::Null
    }
}

impl Value {
    /// The truth value that the value holds, if it holds one.
    pub fn into_bool(self) -> (part: Option<bool>)
        ensures
            part == OptAsRef::<bool>::part(&self),
    {
        match self {
            Value::Bool(value) => Some(value),
            _ => None,
        }
    }

    /// The signed integer that the value holds, if it holds one.
    pub fn into_i64(self) -> (part: Option<i64>)
        ensures
            part == OptAsRef::<i64>::part(&self),
    {
        match self {
            Value::I64(value) => Some(value),
            _ => None,
        }
    }

    /// The unsigned integer that the value holds, if it holds one.
    pub fn into_u64(self) -> (part: Option<u64>)
        ensures
            part == OptAsRef::<u64>::part(&self),
    {
        match self {
            Value::U64(value) => Some(value),
            _ => None,
        }
    }

    /// The text that the value holds, if it holds one.
    pub fn into_string(self) -> (part: Option<String>)
        ensures
            part == OptAsRef::<String>::part(&self),
    {
        match self {
            Value::String(value) => Some(value),
            _ => None,
        }
    }

    /// The date that the value holds, if it holds one.
    pub fn into_date_time(self) -> (part: Option<DateTime>)
        ensures
            part == OptAsRef::<DateTime>::part(&self),
    {
        match self {
            Value::DateTime(value) => Some(value),
            _ => None,
        }
    }

    /// The list that the value holds, if it holds one.
    pub fn into_vec(self) -> (part: Option<Vec<Value>>)
        ensures
            part == OptAsRef::<Vec<Value>>::part(&self),
    {
        match self {
            Value::Vec(value) => Some(value),
            _ => None,
        }
    }

    /// The table that the value holds, if it holds one.
    pub fn into_table(self) -> (part: Option<Vec<(String, Value)>>)
        ensures
            part == OptAsRef::<Vec<(String, Value)>>::part(&self),
    {
        match self {
            Value::Table(value) => Some(value),
            _ => None,
        }
    }

    /// The parts of the type `T` that the items of a list value hold; no
    /// part where the value is no list.
    pub fn into_strings(self) -> (parts: Vec<String>)
        ensures
            match self {
                Value::Vec(items) => parts@ == crate::scan::keep(
                    Seq::new(items@.len(), |i: int| OptAsRef::<String>::part(&items@[i])),
                    present(),
                ).map_values(|part: Option<String>| part->0),
                _ => parts@.len() == 0,
            },
    {
        match self {
            Value::Vec(items) => {
                let ghost all = Seq::new(
                    items@.len(),
                    |i: int| OptAsRef::<String>::part(&items@[i]),
                );
                let mut parts: Vec<String> = Vec::new();
                let mut i: usize = 0;
                assert(all.take(0) =~= Seq::<Option<String>>::empty());
                while i < items.len()
                    invariant
                        i <= items.len(),
                        all == Seq::new(
                            items@.len(),
                            |i: int| OptAsRef::<String>::part(&items@[i]),
                        ),
                        parts@ == crate::scan::keep(all.take(i as int), present()).map_values(
                            |part: Option<String>| part->0,
                        ),
                    decreases items.len() - i,
                {
                    proof {
                        let next = all.take(i + 1);
                        assert(next.drop_last() =~= all.take(i as int));
                        assert(next.last() == OptAsRef::<String>::part(&items@[i as int]));
                    }
                    match &items[i] {
                        Value::String(text) => {
                            let ghost before = crate::scan::keep(all.take(i as int), present());
                            let copy = text.clone();
                            assert(copy == *text);
                            assert(before.push(Some(*text)).map_values(
                                |part: Option<String>| part->0,
                            ) =~= before.map_values(|part: Option<String>| part->0).push(*text));
                            parts.push(copy);
                        },
                        _ => {},
                    }
                    i += 1;
                }
                assert(all.take(items.len() as int) =~= all);
                parts
            },
            _ => Vec::new(),
        }
    }
}

/// The options that hold something.
pub open spec fn present() -> spec_fn(Option<String>) -> bool {
    |part: Option<String>| part is Some
}

} // verus!
