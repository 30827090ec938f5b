//! Package manifests, read from JSON documents: the main fields and the
//! `exports` field.

use vstd::prelude::*;
use vstd::string::*;
use crate::json::{
    find_field, parse_json, parsed_json, read_text_field, read_text_if_any, text_field,
    text_if_any, Json, JsonView,
};
use crate::ordered::{
    distinct_keys, lemma_upserted_keeps_keys_distinct, lookup, position, position_from, upserted,
};
use crate::text::{copy_text, optional_text, str_eq};
use crate::types::MainFields;

verus! {

/// The value of an `exports` field: a target path, an ordered map from
/// subpaths or from conditions to further values (`None` for a path that is
/// blocked), or a list of fallbacks. A map keeps its entries in the order
/// of their insertion; a value that was read from JSON holds no key twice
/// in any of its maps.
///
/// The entries of a map stand in a vector, not in the map of `indexmap`
/// that holds the `paths` of a configuration: the type is recursive through
/// its entries, and the verifier takes no recursion through the parameters
/// of a type that is opaque to it. `well_formed` states what the map would
/// have kept, and `Exports::from_json` inserts as the map does.
#[derive(Debug, PartialEq, Eq)]
pub enum Exports {
    String(String),
    Object(Vec<(String, Option<Exports>)>),
    Array(Vec<Exports>),
}

/// The value of an `exports` field as plain values.
pub enum ExportsView {
    String(Seq<char>),
    Object(Seq<(Seq<char>, Option<ExportsView>)>),
    Array(Seq<ExportsView>),
}

/// The value that `e` holds, as plain values.
pub open spec fn exports_view(e: Exports) -> ExportsView
    decreases e,
{
    match e {
        Exports::String(s) => ExportsView::String(s@),
        Exports::Object(entries) => ExportsView::Object(
            Seq::new(
                entries@.len(),
                |i: int|
                    if 0 <= i < entries@.len() {
                        (
                            entries@[i].0@,
                            match entries@[i].1 {
                                Some(e) => Some(exports_view(e)),
                                None => None,
                            },
                        )
                    } else {
                        (Seq::<char>::empty(), None)
                    },
            ),
        ),
        Exports::Array(items) => ExportsView::Array(
            Seq::new(
                items@.len(),
                |i: int|
                    if 0 <= i < items@.len() {
                        exports_view(items@[i])
                    } else {
                        ExportsView::String(Seq::<char>::empty())
                    },
            ),
        ),
    }
}

impl View for Exports {
    type V = ExportsView;

    open spec fn view(&self) -> ExportsView {
        exports_view(*self)
    }
}

/// The entries of a map as plain values.
pub open spec fn entries_view(entries: Seq<(String, Option<Exports>)>) -> Seq<
    (Seq<char>, Option<ExportsView>),
> {
    Seq::new(entries.len(), |i: int| (entries[i].0@, optional_exports(entries[i].1)))
}

/// The items of a list as plain values.
pub open spec fn items_view(items: Seq<Exports>) -> Seq<ExportsView> {
    Seq::new(items.len(), |i: int| items[i]@)
}

impl Exports {
    /// The view of a list holds the views of its items, in order.
    pub proof fn lemma_array_view(self)
        requires
            self is Array,
        ensures
            self@ is Array,
            self@->Array_0.len() == self->Array_0@.len(),
            forall|i: int|
                0 <= i < self->Array_0@.len() ==> (#[trigger] self@->Array_0[i])
                    == self->Array_0@[i]@,
            self@ == ExportsView::Array(items_view(self->Array_0@)),
    {
        assert(self@->Array_0 =~= items_view(self->Array_0@));
    }

    /// The view of a map holds its keys, each with the view of its value,
    /// in order.
    pub proof fn lemma_object_view(self)
        requires
            self is Object,
        ensures
            self@ is Object,
            self@->Object_0.len() == self->Object_0@.len(),
            forall|i: int|
                0 <= i < self->Object_0@.len() ==> (#[trigger] self@->Object_0[i]) == (
                    self->Object_0@[i].0@,
                    optional_exports(self->Object_0@[i].1),
                ),
            self@ == ExportsView::Object(entries_view(self->Object_0@)),
    {
        assert(self@->Object_0 =~= entries_view(self->Object_0@));
    }
}

/// The view of an optional `exports` value.
pub open spec fn optional_exports(e: Option<Exports>) -> Option<ExportsView> {
    match e {
        Some(e) => Some(e@),
        None => None,
    }
}

/// The `exports` value that a JSON value stands for, if it stands for one: a
/// string is a target, an array a list of fallbacks, an object a map whose
/// `null` values block their key. Anything else is no `exports` value.
pub open spec fn exports_of(j: JsonView) -> Option<ExportsView>
    decreases j,
{
    match j {
        JsonView::String(s) => Some(ExportsView::String(s)),
        JsonView::Array(items) => match exports_list_of(items) {
            Some(list) => Some(ExportsView::Array(list)),
            None => None,
        },
        JsonView::Object(entries) => match exports_entries_of(entries) {
            Some(map) => Some(ExportsView::Object(map)),
            None => None,
        },
        _ => None,
    }
}

/// The `exports` values that the items of a JSON array stand for, if each
/// stands for one.
pub open spec fn exports_list_of(items: Seq<JsonView>) -> Option<Seq<ExportsView>>
    decreases items,
{
    if items.len() == 0 {
        Some(Seq::empty())
    } else {
        match (exports_list_of(items.drop_last()), exports_of(items.last())) {
            (Some(list), Some(e)) => Some(list.push(e)),
            _ => None,
        }
    }
}

/// The entries that the entries of a JSON object build when they are
/// inserted in order, if each value is `null` or stands for an `exports`
/// value: a key that comes again replaces the value of its first
/// occurrence.
pub open spec fn exports_entries_of(entries: Seq<(Seq<char>, JsonView)>) -> Option<
    Seq<(Seq<char>, Option<ExportsView>)>,
>
    decreases entries,
{
    if entries.len() == 0 {
        Some(Seq::empty())
    } else {
        let last = entries.last();
        match exports_entries_of(entries.drop_last()) {
            Some(map) => match last.1 {
                JsonView::Null => Some(upserted(map, last.0, None)),
                _ => match exports_of(last.1) {
                    Some(e) => Some(upserted(map, last.0, Some(e))),
                    None => None,
                },
            },
            None => None,
        }
    }
}

/// A list that does not convert up to some length does not convert at all.
pub proof fn lemma_exports_list_prefix(items: Seq<JsonView>, n: int)
    requires
        0 <= n <= items.len(),
        exports_list_of(items.take(n)) is None,
    ensures
        exports_list_of(items) is None,
    decreases items.len() - n,
{
    if n < items.len() {
        assert(items.take(n + 1).drop_last() =~= items.take(n));
        lemma_exports_list_prefix(items, n + 1);
    } else {
        assert(items.take(n) =~= items);
    }
}

/// Entries that do not convert up to some length do not convert at all.
pub proof fn lemma_exports_entries_prefix(entries: Seq<(Seq<char>, JsonView)>, n: int)
    requires
        0 <= n <= entries.len(),
        exports_entries_of(entries.take(n)) is None,
    ensures
        exports_entries_of(entries) is None,
    decreases entries.len() - n,
{
    if n < entries.len() {
        assert(entries.take(n + 1).drop_last() =~= entries.take(n));
        lemma_exports_entries_prefix(entries, n + 1);
    } else {
        assert(entries.take(n) =~= entries);
    }
}

impl ExportsView {
    /// Whether no map of the value holds a key twice.
    pub open spec fn well_formed(self) -> bool
        decreases self,
    {
        match self {
            ExportsView::String(_) => true,
            ExportsView::Object(entries) => distinct_keys(entries) && entries_well_formed(
                entries,
            ),
            ExportsView::Array(items) => items_well_formed(items),
        }
    }
}

/// Whether no map within the values of `entries` holds a key twice.
pub open spec fn entries_well_formed(entries: Seq<(Seq<char>, Option<ExportsView>)>) -> bool
    decreases entries,
{
    if entries.len() == 0 {
        true
    } else {
        entries_well_formed(entries.drop_last()) && match entries.last().1 {
            Some(e) => e.well_formed(),
            None => true,
        }
    }
}

/// Whether no map within `items` holds a key twice.
pub open spec fn items_well_formed(items: Seq<ExportsView>) -> bool
    decreases items,
{
    if items.len() == 0 {
        true
    } else {
        items_well_formed(items.drop_last()) && items.last().well_formed()
    }
}

/// Entries whose values are well formed stay so under an insertion of a
/// value that is well formed.
pub proof fn lemma_upserted_entries_well_formed(
    entries: Seq<(Seq<char>, Option<ExportsView>)>,
    key: Seq<char>,
    value: Option<ExportsView>,
)
    requires
        entries_well_formed(entries),
        value matches Some(e) ==> e.well_formed(),
    ensures
        entries_well_formed(upserted(entries, key, value)),
{
    crate::ordered::lemma_position(entries, key, 0);
    match position(entries, key) {
        Some(k) => {
            lemma_updated_entries_well_formed(entries, k, key, value);
        },
        None => {
            assert(entries.push((key, value)).drop_last() =~= entries);
        },
    }
}

/// The same for a replacement at a given position.
pub proof fn lemma_updated_entries_well_formed(
    entries: Seq<(Seq<char>, Option<ExportsView>)>,
    k: int,
    key: Seq<char>,
    value: Option<ExportsView>,
)
    requires
        0 <= k < entries.len(),
        entries_well_formed(entries),
        value matches Some(e) ==> e.well_formed(),
    ensures
        entries_well_formed(entries.update(k, (key, value))),
    decreases entries.len(),
{
    let after = entries.update(k, (key, value));
    if k == entries.len() - 1 {
        assert(after.drop_last() =~= entries.drop_last());
    } else {
        lemma_updated_entries_well_formed(entries.drop_last(), k, key, value);
        assert(after.drop_last() =~= entries.drop_last().update(k, (key, value)));
    }
}

/// What is read from a JSON value holds no key twice in any of its maps.
pub proof fn lemma_exports_are_well_formed(j: JsonView)
    ensures
        exports_of(j) matches Some(e) ==> e.well_formed(),
    decreases j,
{
    match j {
        JsonView::Array(items) => {
            lemma_exports_list_is_well_formed(items);
        },
        JsonView::Object(entries) => {
            lemma_exports_entries_are_well_formed(entries);
        },
        _ => {},
    }
}

/// The same for the items of an array.
pub proof fn lemma_exports_list_is_well_formed(items: Seq<JsonView>)
    ensures
        exports_list_of(items) matches Some(list) ==> items_well_formed(list),
    decreases items,
{
    if items.len() > 0 {
        lemma_exports_list_is_well_formed(items.drop_last());
        lemma_exports_are_well_formed(items.last());
        match (exports_list_of(items.drop_last()), exports_of(items.last())) {
            (Some(list), Some(e)) => {
                assert(list.push(e).drop_last() =~= list);
            },
            _ => {},
        }
    }
}

/// The same for the entries of an object.
pub proof fn lemma_exports_entries_are_well_formed(entries: Seq<(Seq<char>, JsonView)>)
    ensures
        exports_entries_of(entries) matches Some(map) ==> distinct_keys(map)
            && entries_well_formed(map),
    decreases entries,
{
    if entries.len() > 0 {
        let last = entries.last();
        lemma_exports_entries_are_well_formed(entries.drop_last());
        match exports_entries_of(entries.drop_last()) {
            Some(map) => {
                match last.1 {
                    JsonView::Null => {
                        lemma_upserted_keeps_keys_distinct(map, last.0, None);
                        lemma_upserted_entries_well_formed(map, last.0, None);
                    },
                    _ => {
                        lemma_exports_are_well_formed(last.1);
                        match exports_of(last.1) {
                            Some(e) => {
                                lemma_upserted_keeps_keys_distinct(map, last.0, Some(e));
                                lemma_upserted_entries_well_formed(map, last.0, Some(e));
                            },
                            None => {},
                        }
                    },
                }
            },
            None => {},
        }
    }
}

/// Inserts `value` under `key`: in place of the value that the key has, or
/// behind the other entries where it has none.
fn upsert_entry(out: &mut Vec<(String, Option<Exports>)>, key: String, value: Option<Exports>)
    ensures
        entries_view(final(out)@) == upserted(
            entries_view(old(out)@),
            key@,
            optional_exports(value),
        ),
{
    let ghost start = out@;
    let ghost before = entries_view(out@);
    let mut i: usize = 0;
    while i < out.len()
        invariant
            i <= out.len(),
            out@ == start,
            start == old(out)@,
            before == entries_view(start),
            position(before, key@) == position_from(before, key@, i as int),
        decreases out.len() - i,
    {
        if str_eq(out[i].0.as_str(), key.as_str()) {
            out.set(i, (key, value));
            return;
        }
        i += 1;
    }
    out.push((key, value));
}

impl Exports {
    /// Reads an `exports` value from a JSON value.
    pub fn from_json(j: &Json) -> (r: Option<Exports>)
        ensures
            match r {
                Some(e) => exports_of(j@) == Some(e@) && e@.well_formed(),
                None => exports_of(j@) is None,
            },
        decreases j,
    {
        match j {
            Json::String(s) => Some(Exports::String(s.clone())),
            Json::Array(items) => {
                proof {
                    j.lemma_array_view();
                }
                let ghost vs = j@->Array_0;
                let mut out: Vec<Exports> = Vec::new();
                let mut i: usize = 0;
                while i < items.len()
                    invariant
                        i <= items.len(),
                        *j == Json::Array(*items),
                        j@ == JsonView::Array(vs),
                        vs.len() == items@.len(),
                        forall|k: int| 0 <= k < vs.len() ==> (#[trigger] vs[k]) == items@[k]@,
                        exports_list_of(vs.take(i as int)) == Some((Exports::Array(out))@->Array_0),
                    decreases items.len() - i,
                {
                    let ghost before = Exports::Array(out);
                    proof {
                        before.lemma_array_view();
                        assert(vs.take(i + 1).drop_last() =~= vs.take(i as int));
                    }
                    match Exports::from_json(&items[i]) {
                        Some(e) => {
                            out.push(e);
                            proof {
                                let after = Exports::Array(out);
                                after.lemma_array_view();
                            }
                        },
                        None => {
                            proof {
                                lemma_exports_list_prefix(vs, i + 1);
                            }
                            return None;
                        },
                    }
                    i += 1;
                }
                assert(vs.take(i as int) =~= vs);
                proof {
                    lemma_exports_are_well_formed(j@);
                }
                Some(Exports::Array(out))
            },
            Json::Object(entries) => {
                proof {
                    j.lemma_object_view();
                }
                let ghost vs = j@->Object_0;
                let mut out: Vec<(String, Option<Exports>)> = Vec::new();
                let mut i: usize = 0;
                while i < entries.len()
                    invariant
                        i <= entries.len(),
                        *j == Json::Object(*entries),
                        j@ == JsonView::Object(vs),
                        vs.len() == entries@.len(),
                        forall|k: int|
                            0 <= k < vs.len() ==> (#[trigger] vs[k]) == (
                                entries@[k].0@,
                                entries@[k].1@,
                            ),
                        exports_entries_of(vs.take(i as int)) == Some(entries_view(out@)),
                    decreases entries.len() - i,
                {
                    proof {
                        assert(vs.take(i + 1).drop_last() =~= vs.take(i as int));
                    }
                    let key = entries[i].0.clone();
                    match &entries[i].1 {
                        Json::Null => {
                            upsert_entry(&mut out, key, None);
                        },
                        value => match Exports::from_json(value) {
                            Some(e) => {
                                upsert_entry(&mut out, key, Some(e));
                            },
                            None => {
                                proof {
                                    lemma_exports_entries_prefix(vs, i + 1);
                                }
                                return None;
                            },
                        },
                    }
                    i += 1;
                }
                assert(vs.take(i as int) =~= vs);
                let r = Exports::Object(out);
                proof {
                    r.lemma_object_view();
                    lemma_exports_are_well_formed(j@);
                }
                Some(r)
            },
            _ => None,
        }
    }
}

/// A package manifest, as far as resolution reads it.
#[derive(Debug, PartialEq, Eq)]
pub struct PackageJSON {
    pub main: Option<String>,
    pub module: Option<String>,
    pub browser: Option<String>,
    pub react_native: Option<String>,
    pub exports: Option<Exports>,
}

/// A package manifest as plain values.
pub struct PackageJSONView {
    pub main: Option<Seq<char>>,
    pub module: Option<Seq<char>>,
    pub browser: Option<Seq<char>>,
    pub react_native: Option<Seq<char>>,
    pub exports: Option<ExportsView>,
}

impl PackageJSONView {
    /// What the manifest holds in `field`.
    pub open spec fn main_field(self, field: MainFields) -> Option<Seq<char>> {
        match field {
            MainFields::Main => self.main,
            MainFields::Module => self.module,
            MainFields::Browser => self.browser,
            MainFields::ReactNative => self.react_native,
        }
    }
}

impl View for PackageJSON {
    type V = PackageJSONView;

    open spec fn view(&self) -> PackageJSONView {
        PackageJSONView {
            main: optional_text(self.main),
            module: optional_text(self.module),
            browser: optional_text(self.browser),
            react_native: optional_text(self.react_native),
            exports: optional_exports(self.exports),
        }
    }
}

/// What the `exports` field of a manifest holds: `Some(None)` where it is
/// missing or `null`, `None` where it holds no `exports` value.
pub open spec fn exports_field(entries: Seq<(Seq<char>, JsonView)>) -> Option<Option<ExportsView>> {
    match lookup(entries, "exports"@) {
        None => Some(None),
        Some(j) => exports_entry_of(j),
    }
}

/// What a value of an `exports` object, or the field itself, stands for:
/// `Some(None)` for `null`, `None` for what is no `exports` value.
pub open spec fn exports_entry_of(j: JsonView) -> Option<Option<ExportsView>> {
    match j {
        JsonView::Null => Some(None),
        _ => match exports_of(j) {
            Some(e) => Some(Some(e)),
            None => None,
        },
    }
}

/// The manifest that a JSON document stands for: an object whose `main`,
/// `module` and `reactNative`, where present, are strings, and whose
/// `exports`, where present, is an `exports` value. `browser` is read where
/// it is a string; in any other form it is passed over. Other fields are
/// not read.
pub open spec fn package_of(j: JsonView) -> Option<PackageJSONView> {
    match j {
        JsonView::Object(entries) => match (
            text_field(entries, "main"@),
            text_field(entries, "module"@),
            text_field(entries, "reactNative"@),
            exports_field(entries),
        ) {
            (Some(main), Some(module), Some(react_native), Some(exports)) => Some(
                PackageJSONView {
                    main,
                    module,
                    browser: text_if_any(entries, "browser"@),
                    react_native,
                    exports,
                },
            ),
            _ => None,
        },
        _ => None,
    }
}

/// The manifest that `text` holds, if it holds one.
pub open spec fn package_of_text(text: Seq<char>) -> Option<PackageJSONView> {
    match parsed_json(text) {
        Some(j) => package_of(j),
        None => None,
    }
}

impl PackageJSON {
    /// Reads a manifest from a JSON document.
    pub fn from_json(j: &Json) -> (r: Option<PackageJSON>)
        ensures
            match r {
                Some(p) => package_of(j@) == Some(p@) && (p@.exports matches Some(e)
                    ==> e.well_formed()),
                None => package_of(j@) is None,
            },
    {
        match j {
            Json::Object(entries) => {
                proof {
                    j.lemma_object_view();
                }
                let ghost vs = j@->Object_0;
                let main = match read_text_field(entries, "main", Ghost(vs)) {
                    Some(t) => t,
                    None => {
                        return None;
                    },
                };
                let module = match read_text_field(entries, "module", Ghost(vs)) {
                    Some(t) => t,
                    None => {
                        return None;
                    },
                };
                let browser = read_text_if_any(entries, "browser", Ghost(vs));
                let react_native = match read_text_field(entries, "reactNative", Ghost(vs)) {
                    Some(t) => t,
                    None => {
                        return None;
                    },
                };
                let exports = match find_field(entries, "exports", Ghost(vs)) {
                    None => None,
                    Some(Json::Null) => None,
                    Some(value) => match Exports::from_json(value) {
                        Some(e) => Some(e),
                        None => {
                            return None;
                        },
                    },
                };
                Some(PackageJSON { main, module, browser, react_native, exports })
            },
            _ => None,
        }
    }

    /// Reads a manifest from the text of a `package.json`.
    pub fn parse(text: &str) -> (r: Option<PackageJSON>)
        ensures
            match r {
                Some(p) => package_of_text(text@) == Some(p@) && (p@.exports matches Some(e)
                    ==> e.well_formed()),
                None => package_of_text(text@) is None,
            },
    {
        match parse_json(text) {
            Some(j) => PackageJSON::from_json(&j),
            None => None,
        }
    }

    /// What the manifest holds in `field`.
    pub fn get_main_field(&self, field: &MainFields) -> (r: Option<String>)
        ensures
            optional_text(r) == self@.main_field(*field),
    {
        match field {
            MainFields::Main => copy_text(&self.main),
            MainFields::Module => copy_text(&self.module),
            MainFields::Browser => copy_text(&self.browser),
            MainFields::ReactNative => copy_text(&self.react_native),
        }
    }
}

} // verus!
