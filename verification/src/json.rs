//! JSON documents as values of the library, read from text by `serde_json`
//! and, for text with comments, `json_comments`.

use vstd::prelude::*;
use vstd::string::*;
use crate::ordered::{lookup, lookup_from};
use crate::text::{optional_text, str_eq};

verus! {

/// A JSON document. The entries of an object stand in the order of the
/// text; a number is kept as the text that `serde_json` displays it as.
#[derive(Debug, PartialEq, Eq)]
pub enum Json {
    Null,
    Bool(bool),
    Number(String),
    String(String),
    Array(Vec<Json>),
    Object(Vec<(String, Json)>),
}

/// A JSON document as plain values.
pub enum JsonView {
    Null,
    Bool(bool),
    Number(Seq<char>),
    String(Seq<char>),
    Array(Seq<JsonView>),
    Object(Seq<(Seq<char>, JsonView)>),
}

/// The document that `j` holds, as plain values.
pub open spec fn json_view(j: Json) -> JsonView
    decreases j,
{
    match j {
        Json::Null => JsonView::Null,
        Json::Bool(b) => JsonView::Bool(b),
        Json::Number(n) => JsonView::Number(n@),
        Json::String(s) => JsonView::String(s@),
        Json::Array(items) => JsonView::Array(
            Seq::new(
                items@.len(),
                |i: int|
                    if 0 <= i < items@.len() {
                        json_view(items@[i])
                    } else {
                        JsonView::Null
                    },
            ),
        ),
        Json::Object(entries) => JsonView::Object(
            Seq::new(
                entries@.len(),
                |i: int|
                    if 0 <= i < entries@.len() {
                        (entries@[i].0@, json_view(entries@[i].1))
                    } else {
                        (Seq::<char>::empty(), JsonView::Null)
                    },
            ),
        ),
    }
}

impl View for Json {
    type V = JsonView;

    open spec fn view(&self) -> JsonView {
        json_view(*self)
    }
}

impl Json {
    /// The view of an array holds the views of its items, in order.
    pub proof fn lemma_array_view(self)
        requires
            self is Array,
        ensures
            self@ is Array,
            self@->Array_0.len() == self->Array_0@.len(),
            forall|i: int|
                0 <= i < self->Array_0@.len() ==> (#[trigger] self@->Array_0[i])
                    == self->Array_0@[i]@,
    {
    }

    /// The view of an object holds its keys, each with the view of its
    /// value, in order.
    pub proof fn lemma_object_view(self)
        requires
            self is Object,
        ensures
            self@ is Object,
            self@->Object_0.len() == self->Object_0@.len(),
            forall|i: int|
                0 <= i < self->Object_0@.len() ==> (#[trigger] self@->Object_0[i]) == (
                    self->Object_0@[i].0@,
                    self->Object_0@[i].1@,
                ),
    {
    }
}

/// A parsed document of `serde_json`, opaque to the verifier.
#[verifier::external_type_specification]
#[verifier::external_body]
pub struct ExValue(serde_json::Value);

/// The error of `serde_json`, opaque to the verifier.
#[verifier::external_type_specification]
#[verifier::external_body]
pub struct ExJsonError(serde_json::Error);

/// The document that `serde_json::from_str` reads from `text`; `None` where
/// it rejects `text`.
pub uninterp spec fn parsed_json(text: Seq<char>) -> Option<JsonView>;

/// What a parsed document of `serde_json` holds.
pub uninterp spec fn value_contents(value: serde_json::Value) -> JsonView;

/// `text` with its comments blanked, as `json_comments::StripComments` hands
/// it on; `None` where it rejects `text`.
pub uninterp spec fn stripped_comments(text: Seq<char>) -> Option<Seq<char>>;

/// Calls `serde_json::from_str` for a `serde_json::Value`. The contract names
/// the document that was read, and claims that an error comes exactly where
/// there is none.
#[verifier::external_body]
fn parse_value(text: &str) -> (r: Result<serde_json::Value, serde_json::Error>)
    ensures
        match r {
            Ok(value) => parsed_json(text@) == Some(value_contents(value)),
            Err(_) => parsed_json(text@) is None,
        },
{
    serde_json::from_str::<serde_json::Value>(text)
}

/// Moves what a `serde_json::Value` holds into a `Json`, variant by variant;
/// a number becomes the text that `serde_json::Number` displays. The contract
/// claims that the `Json` holds what the value held.
#[verifier::external_body]
fn json_of_value(value: serde_json::Value) -> (r: Json)
    ensures
        r@ == value_contents(value),
{
    match value {
        serde_json::Value::Null => Json::Null,
        serde_json::Value::Bool(b) => Json::Bool(b),
        serde_json::Value::Number(n) => Json::Number(n.to_string()),
        serde_json::Value::String(s) => Json::String(s),
        serde_json::Value::Array(a) => Json::Array(a.into_iter().map(json_of_value).collect()),
        serde_json::Value::Object(o) => Json::Object(
            o.into_iter().map(|(k, v)| (k, json_of_value(v))).collect(),
        ),
    }
}

/// Reads `text` through `json_comments::StripComments`. The contract names
/// the text that comes out, and claims that `None` comes exactly where the
/// reader fails.
#[verifier::external_body]
fn strip_comments(text: &str) -> (r: Option<String>)
    ensures
        match r {
            Some(s) => stripped_comments(text@) == Some(s@),
            None => stripped_comments(text@) is None,
        },
{
    let mut out = String::new();
    let mut reader = json_comments::StripComments::new(text.as_bytes());
    match std::io::Read::read_to_string(&mut reader, &mut out) {
        Ok(_) => Some(out),
        Err(_) => None,
    }
}

/// The document that `text` holds once its comments are blanked.
pub open spec fn parsed_json_with_comments(text: Seq<char>) -> Option<JsonView> {
    match stripped_comments(text) {
        Some(s) => parsed_json(s),
        None => None,
    }
}

/// Reads a JSON document from `text`.
pub fn parse_json(text: &str) -> (r: Option<Json>)
    ensures
        match r {
            Some(j) => parsed_json(text@) == Some(j@),
            None => parsed_json(text@) is None,
        },
{
    match parse_value(text) {
        Ok(value) => Some(json_of_value(value)),
        Err(_) => None,
    }
}

/// Reads a JSON document from `text`, in which line comments and block
/// comments may stand.
pub fn parse_json_with_comments(text: &str) -> (r: Option<Json>)
    ensures
        match r {
            Some(j) => parsed_json_with_comments(text@) == Some(j@),
            None => parsed_json_with_comments(text@) is None,
        },
{
    match strip_comments(text) {
        Some(s) => parse_json(s.as_str()),
        None => None,
    }
}

/// The first entry of `entries` whose key is `name`.
pub(crate) fn find_field<'a>(entries: &'a Vec<(String, Json)>, name: &str, Ghost(vs): Ghost<
    Seq<(Seq<char>, JsonView)>,
>) -> (r: Option<&'a Json>)
    requires
        vs.len() == entries@.len(),
        forall|k: int| 0 <= k < vs.len() ==> (#[trigger] vs[k]) == (entries@[k].0@, entries@[k].1@),
    ensures
        match r {
            Some(v) => lookup(vs, name@) == Some(v@),
            None => lookup(vs, name@) is None,
        },
{
    let mut i: usize = 0;
    while i < entries.len()
        invariant
            i <= entries.len(),
            vs.len() == entries@.len(),
            forall|k: int|
                0 <= k < vs.len() ==> (#[trigger] vs[k]) == (entries@[k].0@, entries@[k].1@),
            lookup(vs, name@) == lookup_from(vs, name@, i as int),
        decreases entries.len() - i,
    {
        if str_eq(entries[i].0.as_str(), name) {
            return Some(&entries[i].1);
        }
        i += 1;
    }
    None
}

/// What an optional text field holds: `Some(None)` where the field is
/// missing or `null`, `None` where it holds anything but a string.
pub open spec fn text_field(entries: Seq<(Seq<char>, JsonView)>, name: Seq<char>) -> Option<
    Option<Seq<char>>,
> {
    match lookup(entries, name) {
        None => Some(None),
        Some(JsonView::Null) => Some(None),
        Some(JsonView::String(s)) => Some(Some(s)),
        Some(_) => None,
    }
}

/// What a field holds that is read only where it is a text: `None` where
/// the field is missing or holds anything else.
pub open spec fn text_if_any(entries: Seq<(Seq<char>, JsonView)>, name: Seq<char>) -> Option<
    Seq<char>,
> {
    match lookup(entries, name) {
        Some(JsonView::String(s)) => Some(s),
        _ => None,
    }
}

/// Reads a field that is read only where it is a text.
pub(crate) fn read_text_if_any(entries: &Vec<(String, Json)>, name: &str, Ghost(vs): Ghost<
    Seq<(Seq<char>, JsonView)>,
>) -> (r: Option<String>)
    requires
        vs.len() == entries@.len(),
        forall|k: int| 0 <= k < vs.len() ==> (#[trigger] vs[k]) == (entries@[k].0@, entries@[k].1@),
    ensures
        optional_text(r) == text_if_any(vs, name@),
{
    match find_field(entries, name, Ghost(vs)) {
        Some(Json::String(s)) => Some(s.clone()),
        _ => None,
    }
}

/// Reads an optional text field.
pub(crate) fn read_text_field(entries: &Vec<(String, Json)>, name: &str, Ghost(vs): Ghost<
    Seq<(Seq<char>, JsonView)>,
>) -> (r: Option<Option<String>>)
    requires
        vs.len() == entries@.len(),
        forall|k: int| 0 <= k < vs.len() ==> (#[trigger] vs[k]) == (entries@[k].0@, entries@[k].1@),
    ensures
        match r {
            Some(t) => text_field(vs, name@) == Some(optional_text(t)),
            None => text_field(vs, name@) is None,
        },
{
    match find_field(entries, name, Ghost(vs)) {
        None => Some(None),
        Some(Json::Null) => Some(None),
        Some(Json::String(s)) => Some(Some(s.clone())),
        Some(_) => None,
    }
}

} // verus!
