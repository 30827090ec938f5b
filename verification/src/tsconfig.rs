//! TypeScript configurations, read from JSON documents: `extends`,
//! `baseUrl` and `paths`. The `paths` are held in the insertion-ordered map
//! of `indexmap`.

use vstd::prelude::*;
use vstd::string::*;
use crate::json::{
    find_field, parse_json_with_comments, parsed_json_with_comments, read_text_field, text_field,
    Json, JsonView,
};
use crate::ordered::{lookup, upserted};
use crate::text::optional_text;
use crate::types::texts;

verus! {

/// The insertion-ordered map of `indexmap`, opaque to the verifier.
#[verifier::external_type_specification]
#[verifier::external_body]
#[verifier::reject_recursive_types(K)]
#[verifier::reject_recursive_types(V)]
#[verifier::reject_recursive_types(S)]
pub struct ExIndexMap<K, V, S>(indexmap::IndexMap<K, V, S>);

/// The `paths` of a TypeScript configuration: from a pattern key to the
/// templates that it stands for, in the order of the file.
pub type TSConfigPaths = indexmap::IndexMap<String, Vec<String>>;

/// What a `paths` map holds: its keys, each with its templates, in the order
/// of insertion.
pub uninterp spec fn paths_entries(paths: TSConfigPaths) -> Seq<(Seq<char>, Seq<Seq<char>>)>;

/// Calls `IndexMap::new`. The contract claims that the new map is empty.
#[verifier::external_body]
pub(crate) fn paths_new() -> (r: TSConfigPaths)
    ensures
        paths_entries(r).len() == 0,
{
    indexmap::IndexMap::new()
}

/// Calls `IndexMap::insert`. The contract claims what the crate documents:
/// under a key that is present the value is replaced and the key keeps its
/// place; a new key comes last.
#[verifier::external_body]
pub(crate) fn paths_insert(paths: &mut TSConfigPaths, key: String, value: Vec<String>)
    ensures
        paths_entries(*final(paths)) == upserted(paths_entries(*old(paths)), key@, texts(value@)),
{
    paths.insert(key, value);
}

/// Calls `IndexMap::get`. The contract claims that the value under `key`
/// comes back, and `None` exactly where no entry has that key.
#[verifier::external_body]
pub(crate) fn paths_get<'a>(paths: &'a TSConfigPaths, key: &str) -> (r: Option<&'a Vec<String>>)
    ensures
        match r {
            Some(v) => lookup(paths_entries(*paths), key@) == Some(texts(v@)),
            None => lookup(paths_entries(*paths), key@) is None,
        },
{
    paths.get(key)
}

/// The pairs of `items` as plain values.
pub open spec fn pairs_view(items: Seq<(String, Vec<String>)>) -> Seq<(Seq<char>, Seq<Seq<char>>)> {
    Seq::new(items.len(), |i: int| (items[i].0@, texts(items[i].1@)))
}

/// Calls `IndexMap::iter` and copies each pair out. The contract claims that
/// the pairs come in the order of insertion.
#[verifier::external_body]
pub(crate) fn paths_items(paths: &TSConfigPaths) -> (r: Vec<(String, Vec<String>)>)
    ensures
        pairs_view(r@) == paths_entries(*paths),
{
    paths.iter().map(|(k, v)| (k.clone(), v.clone())).collect()
}

/// The options of a TypeScript configuration that resolution reads.
#[derive(Debug, PartialEq, Eq)]
pub struct TSConfigCompilerOptions {
    pub base_url: Option<String>,
    pub paths: Option<TSConfigPaths>,
}

/// The options of a TypeScript configuration as plain values.
pub struct TSConfigCompilerOptionsView {
    pub base_url: Option<Seq<char>>,
    pub paths: Option<Seq<(Seq<char>, Seq<Seq<char>>)>>,
}

/// What an optional `paths` map holds.
pub open spec fn optional_paths(paths: Option<TSConfigPaths>) -> Option<
    Seq<(Seq<char>, Seq<Seq<char>>)>,
> {
    match paths {
        Some(p) => Some(paths_entries(p)),
        None => None,
    }
}

impl View for TSConfigCompilerOptions {
    type V = TSConfigCompilerOptionsView;

    open spec fn view(&self) -> TSConfigCompilerOptionsView {
        TSConfigCompilerOptionsView {
            base_url: optional_text(self.base_url),
            paths: optional_paths(self.paths),
        }
    }
}

impl Default for TSConfigCompilerOptions {
    fn default() -> (r: Self)
        ensures
            r@ == (TSConfigCompilerOptionsView { base_url: None, paths: None }),
    {
        TSConfigCompilerOptions { base_url: None, paths: None }
    }
}

/// A TypeScript configuration, as far as resolution reads it.
#[derive(Debug, PartialEq, Eq)]
pub struct TSConfig {
    pub extends: Option<String>,
    pub compiler_options: TSConfigCompilerOptions,
}

/// A TypeScript configuration as plain values.
pub struct TSConfigView {
    pub extends: Option<Seq<char>>,
    pub compiler_options: TSConfigCompilerOptionsView,
}

impl View for TSConfig {
    type V = TSConfigView;

    open spec fn view(&self) -> TSConfigView {
        TSConfigView {
            extends: optional_text(self.extends),
            compiler_options: self.compiler_options@,
        }
    }
}

/// The strings that the items of a JSON array hold, if each is a string.
pub open spec fn strings_of(items: Seq<JsonView>) -> Option<Seq<Seq<char>>>
    decreases items.len(),
{
    if items.len() == 0 {
        Some(Seq::empty())
    } else {
        match (strings_of(items.drop_last()), items.last()) {
            (Some(list), JsonView::String(s)) => Some(list.push(s)),
            _ => None,
        }
    }
}

/// The templates that a value of a `paths` object holds: an array of
/// strings.
pub open spec fn templates_of(j: JsonView) -> Option<Seq<Seq<char>>> {
    match j {
        JsonView::Array(items) => strings_of(items),
        _ => None,
    }
}

/// The map that the entries of a `paths` object build when they are
/// inserted in order, if each value is an array of strings.
pub open spec fn paths_of(entries: Seq<(Seq<char>, JsonView)>) -> Option<
    Seq<(Seq<char>, Seq<Seq<char>>)>,
>
    decreases entries.len(),
{
    if entries.len() == 0 {
        Some(Seq::empty())
    } else {
        match (paths_of(entries.drop_last()), templates_of(entries.last().1)) {
            (Some(map), Some(templates)) => Some(upserted(map, entries.last().0, templates)),
            _ => None,
        }
    }
}

/// What the `paths` field holds: `Some(None)` where it is missing or `null`,
/// `None` where it is no map from keys to arrays of strings.
pub open spec fn paths_field(entries: Seq<(Seq<char>, JsonView)>) -> Option<
    Option<Seq<(Seq<char>, Seq<Seq<char>>)>>,
> {
    match lookup(entries, "paths"@) {
        None => Some(None),
        Some(JsonView::Null) => Some(None),
        Some(JsonView::Object(pairs)) => match paths_of(pairs) {
            Some(map) => Some(Some(map)),
            None => None,
        },
        Some(_) => None,
    }
}

/// The options that the `compilerOptions` field stands for: none where the
/// field is missing; else it must be an object whose `baseUrl`, where
/// present, is a string and whose `paths`, where present, is a map.
pub open spec fn compiler_options_of(field: Option<JsonView>) -> Option<
    TSConfigCompilerOptionsView,
> {
    match field {
        None => Some(TSConfigCompilerOptionsView { base_url: None, paths: None }),
        Some(JsonView::Object(entries)) => match (
            text_field(entries, "baseUrl"@),
            paths_field(entries),
        ) {
            (Some(base_url), Some(paths)) => Some(TSConfigCompilerOptionsView { base_url, paths }),
            _ => None,
        },
        Some(_) => None,
    }
}

/// The configuration that a JSON document stands for: an object whose
/// `extends`, where present, is a string, and whose `compilerOptions`, where
/// present, are options. Other fields are not read.
pub open spec fn tsconfig_of(j: JsonView) -> Option<TSConfigView> {
    match j {
        JsonView::Object(entries) => match (
            text_field(entries, "extends"@),
            compiler_options_of(lookup(entries, "compilerOptions"@)),
        ) {
            (Some(extends), Some(compiler_options)) => Some(
                TSConfigView { extends, compiler_options },
            ),
            _ => None,
        },
        _ => None,
    }
}

/// The configuration that `text` holds once its comments are blanked, if it
/// holds one.
pub open spec fn tsconfig_of_text(text: Seq<char>) -> Option<TSConfigView> {
    match parsed_json_with_comments(text) {
        Some(j) => tsconfig_of(j),
        None => None,
    }
}

/// Strings that are not all strings up to some length are not all strings.
proof fn lemma_strings_prefix(items: Seq<JsonView>, n: int)
    requires
        0 <= n <= items.len(),
        strings_of(items.take(n)) is None,
    ensures
        strings_of(items) is None,
    decreases items.len() - n,
{
    if n < items.len() {
        assert(items.take(n + 1).drop_last() =~= items.take(n));
        lemma_strings_prefix(items, n + 1);
    } else {
        assert(items.take(n) =~= items);
    }
}

/// Entries that build no map up to some length build none at all.
proof fn lemma_paths_prefix(entries: Seq<(Seq<char>, JsonView)>, n: int)
    requires
        0 <= n <= entries.len(),
        paths_of(entries.take(n)) is None,
    ensures
        paths_of(entries) is None,
    decreases entries.len() - n,
{
    if n < entries.len() {
        assert(entries.take(n + 1).drop_last() =~= entries.take(n));
        lemma_paths_prefix(entries, n + 1);
    } else {
        assert(entries.take(n) =~= entries);
    }
}

/// Reads the templates of one `paths` entry.
fn read_templates(j: &Json) -> (r: Option<Vec<String>>)
    ensures
        match r {
            Some(v) => templates_of(j@) == Some(texts(v@)),
            None => templates_of(j@) is None,
        },
{
    match j {
        Json::Array(items) => {
            proof {
                j.lemma_array_view();
            }
            let ghost vs = j@->Array_0;
            let mut out: Vec<String> = Vec::new();
            let mut i: usize = 0;
            while i < items.len()
                invariant
                    i <= items.len(),
                    vs.len() == items@.len(),
                    forall|k: int| 0 <= k < vs.len() ==> (#[trigger] vs[k]) == items@[k]@,
                    j@ == JsonView::Array(vs),
                    strings_of(vs.take(i as int)) == Some(texts(out@)),
                decreases items.len() - i,
            {
                proof {
                    assert(vs.take(i + 1).drop_last() =~= vs.take(i as int));
                }
                match &items[i] {
                    Json::String(s) => {
                        out.push(s.clone());
                    },
                    _ => {
                        proof {
                            lemma_strings_prefix(vs, i + 1);
                        }
                        return None;
                    },
                }
                i += 1;
            }
            assert(vs.take(i as int) =~= vs);
            Some(out)
        },
        _ => None,
    }
}

/// Reads a `paths` map from the entries of a JSON object.
fn read_paths(entries: &Vec<(String, Json)>, Ghost(vs): Ghost<Seq<(Seq<char>, JsonView)>>) -> (r:
    Option<TSConfigPaths>)
    requires
        vs.len() == entries@.len(),
        forall|k: int| 0 <= k < vs.len() ==> (#[trigger] vs[k]) == (entries@[k].0@, entries@[k].1@),
    ensures
        match r {
            Some(p) => paths_of(vs) == Some(paths_entries(p)),
            None => paths_of(vs) is None,
        },
{
    let mut out = paths_new();
    let mut i: usize = 0;
    while i < entries.len()
        invariant
            i <= entries.len(),
            vs.len() == entries@.len(),
            forall|k: int|
                0 <= k < vs.len() ==> (#[trigger] vs[k]) == (entries@[k].0@, entries@[k].1@),
            paths_of(vs.take(i as int)) == Some(paths_entries(out)),
        decreases entries.len() - i,
    {
        proof {
            assert(vs.take(i + 1).drop_last() =~= vs.take(i as int));
        }
        match read_templates(&entries[i].1) {
            Some(templates) => {
                paths_insert(&mut out, entries[i].0.clone(), templates);
            },
            None => {
                proof {
                    lemma_paths_prefix(vs, i + 1);
                }
                return None;
            },
        }
        i += 1;
    }
    assert(vs.take(i as int) =~= vs);
    Some(out)
}

impl TSConfigCompilerOptions {
    /// Reads the options from the `compilerOptions` field of a
    /// configuration.
    pub fn from_json(field: Option<&Json>) -> (r: Option<TSConfigCompilerOptions>)
        ensures
            match r {
                Some(c) => compiler_options_of(optional_json(field)) == Some(c@),
                None => compiler_options_of(optional_json(field)) is None,
            },
    {
        match field {
            None => Some(TSConfigCompilerOptions { base_url: None, paths: None }),
            Some(Json::Object(entries)) => {
                let j = field.unwrap();
                proof {
                    j.lemma_object_view();
                }
                let ghost vs = j@->Object_0;
                let base_url = match read_text_field(entries, "baseUrl", Ghost(vs)) {
                    Some(t) => t,
                    None => {
                        return None;
                    },
                };
                let paths = match find_field(entries, "paths", Ghost(vs)) {
                    None => None,
                    Some(Json::Null) => None,
                    Some(Json::Object(pairs)) => {
                        let p = find_field(entries, "paths", Ghost(vs)).unwrap();
                        proof {
                            p.lemma_object_view();
                        }
                        match read_paths(pairs, Ghost(p@->Object_0)) {
                            Some(map) => Some(map),
                            None => {
                                return None;
                            },
                        }
                    },
                    Some(_) => {
                        return None;
                    },
                };
                Some(TSConfigCompilerOptions { base_url, paths })
            },
            Some(_) => None,
        }
    }
}

/// The view of an optional JSON document.
pub open spec fn optional_json(j: Option<&Json>) -> Option<JsonView> {
    match j {
        Some(j) => Some(j@),
        None => None,
    }
}

impl TSConfig {
    /// Reads a configuration from a JSON document.
    pub fn from_json(j: &Json) -> (r: Option<TSConfig>)
        ensures
            match r {
                Some(c) => tsconfig_of(j@) == Some(c@),
                None => tsconfig_of(j@) is None,
            },
    {
        match j {
            Json::Object(entries) => {
                proof {
                    j.lemma_object_view();
                }
                let ghost vs = j@->Object_0;
                let extends = match read_text_field(entries, "extends", Ghost(vs)) {
                    Some(t) => t,
                    None => {
                        return None;
                    },
                };
                let field = find_field(entries, "compilerOptions", Ghost(vs));
                match TSConfigCompilerOptions::from_json(field) {
                    Some(compiler_options) => Some(TSConfig { extends, compiler_options }),
                    None => None,
                }
            },
            _ => None,
        }
    }

    /// Reads a configuration from the text of a `tsconfig.json`, in which
    /// comments may stand.
    pub fn parse(text: &str) -> (r: Option<TSConfig>)
        ensures
            match r {
                Some(c) => tsconfig_of_text(text@) == Some(c@),
                None => tsconfig_of_text(text@) is None,
            },
    {
        match parse_json_with_comments(text) {
            Some(j) => TSConfig::from_json(&j),
            None => None,
        }
    }
}

} // verus!
