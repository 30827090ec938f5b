//! Package names and the `exports` field of a manifest: which target a
//! subpath of a package stands for.

use vstd::prelude::*;
use vstd::string::*;
use crate::manifest::{optional_exports, Exports, ExportsView};
use crate::ordered::{lookup, lookup_from};
use crate::paths::{path_with_file_name, with_file_name};
use crate::text::{
    char_len, concat, find_char, lemma_find_char, list_contains, replace_first,
    str_begins_with_char, str_contains, str_ends_with_char, str_eq, str_find, str_replace_first,
};
use crate::types::{texts, ErrorView, EsResolverError, EsResolverResult};
use crate::utils::{
    best_key, best_pattern_key, extract_exports_pattern, key_compare, key_eligible,
    lemma_best_key_is_most_specific, pattern_capture, pattern_matches,
};

verus! {

/// Where the package name ends in a specifier: before the first slash, or
/// before the second for a scoped name; at the end of the specifier where
/// that slash is missing. `None` for a scoped name without any slash.
pub open spec fn package_name_end(name: Seq<char>) -> Option<int> {
    if name.len() > 0 && name[0] == '@' {
        match find_char(name, '/') {
            Some(i) => match find_char(name.subrange(i + 1, name.len() as int), '/') {
                Some(j) => Some(i + 1 + j),
                None => Some(name.len() as int),
            },
            None => None,
        }
    } else {
        match find_char(name, '/') {
            Some(i) => Some(i),
            None => Some(name.len() as int),
        }
    }
}

/// What is wrong with the package name of a specifier.
pub enum NameFault {
    /// The specifier is empty.
    Empty,
    /// The name begins with `@` and holds no slash.
    ScopedWithoutSlash,
    /// The name begins with a dot.
    LeadingDot,
    /// The name holds `%` or a backslash.
    ForbiddenCharacter,
}

/// What is wrong with the package name of `name`, if anything is.
pub open spec fn package_name_fault(name: Seq<char>) -> Option<NameFault> {
    if name.len() == 0 {
        Some(NameFault::Empty)
    } else {
        match package_name_end(name) {
            None => Some(NameFault::ScopedWithoutSlash),
            Some(end) => {
                let package = name.subrange(0, end);
                if package.len() > 0 && package[0] == '.' {
                    Some(NameFault::LeadingDot)
                } else if find_char(package, '%') is Some || find_char(package, '\\') is Some {
                    Some(NameFault::ForbiddenCharacter)
                } else {
                    None
                }
            },
        }
    }
}

/// The text of the error for a fault in the package name of `name`.
pub open spec fn name_fault_message(name: Seq<char>, fault: NameFault) -> Seq<char> {
    match fault {
        NameFault::Empty => "An empty specifier names no package."@,
        NameFault::ScopedWithoutSlash => name
            + " is not a valid package name, because it is scoped without a slash. Valid scoped names are like '@babel/core'. "@,
        NameFault::LeadingDot => name
            + " is not a valid package name, because it starts with a '.'."@,
        NameFault::ForbiddenCharacter => name
            + " is not a valid package name, because it contains '%' or '\\'."@,
    }
}

/// A specifier split into its package name and what follows the name, or
/// the error that rejects it.
pub open spec fn split_package_name(name: Seq<char>) -> Result<(Seq<char>, Seq<char>), ErrorView> {
    match package_name_fault(name) {
        Some(fault) => Err(ErrorView::InvalidModuleSpecifier(name_fault_message(name, fault))),
        None => {
            let end = package_name_end(name).unwrap();
            Ok((name.subrange(0, end), name.subrange(end, name.len() as int)))
        },
    }
}

/// The end of the package name lies within the specifier.
pub proof fn lemma_package_name_end(name: Seq<char>)
    ensures
        match package_name_end(name) {
            Some(end) => 0 <= end <= name.len(),
            None => true,
        },
{
    lemma_find_char(name, '/');
    match find_char(name, '/') {
        Some(i) => {
            lemma_find_char(name.subrange(i + 1, name.len() as int), '/');
        },
        None => {},
    }
}

/// A specifier that is accepted is its package name followed by the rest.
pub proof fn lemma_split_package_name_rejoins(name: Seq<char>)
    ensures
        match split_package_name(name) {
            Ok(parts) => parts.0 + parts.1 == name,
            Err(_) => true,
        },
{
    lemma_package_name_end(name);
    match split_package_name(name) {
        Ok(parts) => {
        },
        Err(_) => {},
    }
}

/// Splits a bare specifier into its package name and what follows it.
pub fn parse_package_name<'a>(name: &'a str) -> (r: EsResolverResult<(&'a str, &'a str)>)
    ensures
        match r {
            Ok(parts) => split_package_name(name@) == Ok::<(Seq<char>, Seq<char>), ErrorView>(
                (parts.0@, parts.1@),
            ),
            Err(e) => split_package_name(name@) == Err::<(Seq<char>, Seq<char>), ErrorView>(e@),
        },
{
    let n = char_len(name);
    if n == 0 {
        return Err(
            EsResolverError::InvalidModuleSpecifier(
                String::from_str("An empty specifier names no package."),
            ),
        );
    }
    proof {
        lemma_find_char(name@, '/');
    }
    let first = str_find(name, '/');
    let end: usize = if str_begins_with_char(name, '@') {
        match first {
            Some(i) => {
                let rest = name.substring_char(i + 1, n);
                proof {
                    lemma_find_char(rest@, '/');
                }
                match str_find(rest, '/') {
                    Some(j) => i + 1 + j,
                    None => n,
                }
            },
            None => {
                return Err(
                    EsResolverError::InvalidModuleSpecifier(
                        concat(
                            name,
                            " is not a valid package name, because it is scoped without a slash. Valid scoped names are like '@babel/core'. ",
                        ),
                    ),
                );
            },
        }
    } else {
        match first {
            Some(i) => i,
            None => n,
        }
    };
    let package = name.substring_char(0, end);
    if str_begins_with_char(package, '.') {
        return Err(
            EsResolverError::InvalidModuleSpecifier(
                concat(name, " is not a valid package name, because it starts with a '.'."),
            ),
        );
    }
    if str_contains(package, '%') || str_contains(package, '\\') {
        return Err(
            EsResolverError::InvalidModuleSpecifier(
                concat(name, " is not a valid package name, because it contains '%' or '\\'."),
            ),
        );
    }
    Ok((package, name.substring_char(end, n)))
}

/// Whether a key of an `exports` object names a subpath, not a condition.
pub open spec fn is_subpath_key(key: Seq<char>) -> bool {
    key.len() > 0 && key[0] == '.'
}

/// Whether some key among the first `n` names a subpath.
pub open spec fn has_subpath_key(entries: Seq<(Seq<char>, Option<ExportsView>)>, n: int) -> bool {
    exists|i: int| 0 <= i < n && i < entries.len() && is_subpath_key(#[trigger] entries[i].0)
}

/// Whether some key among the first `n` names a condition.
pub open spec fn has_condition_key(entries: Seq<(Seq<char>, Option<ExportsView>)>, n: int) -> bool {
    exists|i: int| 0 <= i < n && i < entries.len() && !is_subpath_key(#[trigger] entries[i].0)
}

/// The text of the error for an `exports` object that mixes subpath keys
/// with condition keys.
pub open spec fn mixed_keys_message(package_json_path: Seq<char>) -> Seq<char> {
    "The `pkg.exports` at "@ + package_json_path
        + " here is invalid. Some keys starts with '.' but some does not. "@
}

/// Whether an `exports` value is written as the value of the subpath `.`
/// itself: a string, a list, or an object none of whose keys names a
/// subpath. An object that mixes the two kinds of key is an error.
pub open spec fn main_sugar(exports: ExportsView, package_json_path: Seq<char>) -> Result<
    bool,
    ErrorView,
> {
    match exports {
        ExportsView::String(_) => Ok(true),
        ExportsView::Array(_) => Ok(true),
        ExportsView::Object(entries) => if has_subpath_key(entries, entries.len() as int)
            && has_condition_key(entries, entries.len() as int) {
            Err(ErrorView::InvalidExports(mixed_keys_message(package_json_path)))
        } else {
            Ok(!has_subpath_key(entries, entries.len() as int))
        },
    }
}

/// Whether `exports` is written as the value of the subpath `.` itself.
pub fn is_conditional_exports_main_sugar(
    exports: &Exports,
    package_json_path: &str,
) -> (r: EsResolverResult<bool>)
    ensures
        match r {
            Ok(b) => main_sugar(exports@, package_json_path@) == Ok::<bool, ErrorView>(b),
            Err(e) => main_sugar(exports@, package_json_path@) == Err::<bool, ErrorView>(e@),
        },
{
    match exports {
        Exports::String(_) => Ok(true),
        Exports::Array(_) => Ok(true),
        Exports::Object(entries) => {
            proof {
                exports.lemma_object_view();
            }
            let ghost vs = exports@->Object_0;
            let mut subpath = false;
            let mut condition = false;
            let mut i: usize = 0;
            while i < entries.len()
                invariant
                    i <= entries.len(),
                    vs.len() == entries@.len(),
                    forall|k: int| 0 <= k < vs.len() ==> (#[trigger] vs[k]).0 == entries@[k].0@,
                    subpath == has_subpath_key(vs, i as int),
                    condition == has_condition_key(vs, i as int),
                decreases entries.len() - i,
            {
                assert(vs[i as int].0 == entries@[i as int].0@);
                if str_begins_with_char(entries[i].0.as_str(), '.') {
                    subpath = true;
                } else {
                    condition = true;
                }
                i += 1;
            }
            if subpath && condition {
                let mut m = concat("The `pkg.exports` at ", package_json_path);
                m.append(" here is invalid. Some keys starts with '.' but some does not. ");
                Err(EsResolverError::InvalidExports(m))
            } else {
                Ok(!subpath)
            }
        },
    }
}

/// Whether a condition key is honoured: `default` always is, any other key
/// where it is among `conditions`.
pub open spec fn condition_applies(key: Seq<char>, conditions: Seq<Seq<char>>) -> bool {
    key == "default"@ || exists|i: int| 0 <= i < conditions.len() && #[trigger] conditions[i] == key
}

/// The target that an `exports` value leads to: a string is its own target;
/// a map leads where its first honoured key with a value that leads
/// anywhere leads; a list leads where its first item that leads anywhere
/// leads.
pub open spec fn first_target(exports: ExportsView, conditions: Seq<Seq<char>>) -> Option<
    Seq<char>,
>
    decreases exports, 0nat, 0nat,
{
    match exports {
        ExportsView::String(t) => Some(t),
        ExportsView::Object(entries) => first_in_entries(entries, conditions, 0),
        ExportsView::Array(items) => first_in_items(items, conditions, 0),
    }
}

/// Where the entry at position `i` leads, if its key is honoured and its
/// value is not blocked.
pub open spec fn entry_target(
    entries: Seq<(Seq<char>, Option<ExportsView>)>,
    conditions: Seq<Seq<char>>,
    i: int,
) -> Option<Seq<char>>
    decreases entries, 0nat, 0nat,
{
    if 0 <= i < entries.len() && condition_applies(entries[i].0, conditions) {
        match entries[i].1 {
            Some(e) => first_target(e, conditions),
            None => None,
        }
    } else {
        None
    }
}

/// Where the entries from position `i` on lead.
pub open spec fn first_in_entries(
    entries: Seq<(Seq<char>, Option<ExportsView>)>,
    conditions: Seq<Seq<char>>,
    i: int,
) -> Option<Seq<char>>
    decreases entries, entries.len() - i, 1nat,
{
    if i < 0 || i >= entries.len() {
        None
    } else {
        match entry_target(entries, conditions, i) {
            Some(t) => Some(t),
            None => first_in_entries(entries, conditions, i + 1),
        }
    }
}

/// Where the items from position `i` on lead.
pub open spec fn first_in_items(
    items: Seq<ExportsView>,
    conditions: Seq<Seq<char>>,
    i: int,
) -> Option<
    Seq<char>,
>
    decreases items, items.len() - i, 0nat,
{
    if i < 0 || i >= items.len() {
        None
    } else {
        match first_target(items[i], conditions) {
            Some(t) => Some(t),
            None => first_in_items(items, conditions, i + 1),
        }
    }
}

/// Among the honoured entries of a map, the earliest that leads anywhere
/// decides: the order of the entries is the order of preference.
pub proof fn lemma_earliest_condition_wins(
    entries: Seq<(Seq<char>, Option<ExportsView>)>,
    conditions: Seq<Seq<char>>,
    i: int,
)
    requires
        0 <= i < entries.len(),
        entry_target(entries, conditions, i) is Some,
        forall|j: int| 0 <= j < i ==> entry_target(entries, conditions, j) is None,
    ensures
        first_target(ExportsView::Object(entries), conditions) == entry_target(
            entries,
            conditions,
            i,
        ),
{
    lemma_first_in_entries_skips(entries, conditions, 0, i);
}

/// Entries that lead nowhere are passed over.
pub proof fn lemma_first_in_entries_skips(
    entries: Seq<(Seq<char>, Option<ExportsView>)>,
    conditions: Seq<Seq<char>>,
    from: int,
    to: int,
)
    requires
        0 <= from <= to <= entries.len(),
        forall|j: int| from <= j < to ==> entry_target(entries, conditions, j) is None,
    ensures
        first_in_entries(entries, conditions, from) == first_in_entries(entries, conditions, to),
    decreases to - from,
{
    if from < to {
        lemma_first_in_entries_skips(entries, conditions, from + 1, to);
        assert(entry_target(entries, conditions, from) is None);
    }
}

/// Of two honoured keys that both hold targets, the one that stands
/// earlier in the map is chosen.
pub proof fn lemma_condition_order(
    first: Seq<char>,
    first_path: Seq<char>,
    second: Seq<char>,
    second_path: Seq<char>,
    conditions: Seq<Seq<char>>,
)
    requires
        condition_applies(first, conditions),
        condition_applies(second, conditions),
    ensures
        first_target(
            ExportsView::Object(
                seq![
                    (first, Some(ExportsView::String(first_path))),
                    (second, Some(ExportsView::String(second_path))),
                ],
            ),
            conditions,
        ) == Some(first_path),
{
    let entries = seq![
        (first, Some(ExportsView::String(first_path))),
        (second, Some(ExportsView::String(second_path))),
    ];
    lemma_earliest_condition_wins(entries, conditions, 0);
}

/// The path that a target of the manifest at `package_json_path` names: the
/// target beside the manifest, with its first star replaced by `subpath`
/// where the target was found under a pattern key.
pub open spec fn target_path(
    package_json_path: Seq<char>,
    target: Seq<char>,
    subpath: Seq<char>,
    pattern: bool,
) -> Seq<char> {
    path_with_file_name(
        package_json_path,
        if pattern {
            replace_first(target, '*', subpath)
        } else {
            target
        },
    )
}

/// What an `exports` value resolves to: the path of the target that it
/// leads to, or an error with an empty text where it leads nowhere.
pub open spec fn package_target(
    package_json_path: Seq<char>,
    exports: ExportsView,
    subpath: Seq<char>,
    pattern: bool,
    conditions: Seq<Seq<char>>,
) -> Result<Option<Seq<char>>, ErrorView> {
    match first_target(exports, conditions) {
        Some(t) => Ok(Some(target_path(package_json_path, t, subpath, pattern))),
        None => Err(ErrorView::InvalidExports(Seq::empty())),
    }
}

/// What a resolution within a package returned, as plain values.
pub open spec fn resolved_view(r: EsResolverResult<Option<String>>) -> Result<
    Option<Seq<char>>,
    ErrorView,
> {
    match r {
        Ok(Some(p)) => Ok(Some(p@)),
        Ok(None) => Ok(None),
        Err(e) => Err(e@),
    }
}

/// Resolves a target string of the manifest at `package_json_path`.
pub fn resolve_package_target_string(
    package_json_path: &str,
    target: &str,
    subpath: &str,
    pattern: bool,
) -> (r: EsResolverResult<Option<String>>)
    ensures
        resolved_view(r) == Ok::<Option<Seq<char>>, ErrorView>(
            Some(target_path(package_json_path@, target@, subpath@, pattern)),
        ),
{
    let resolved = if !pattern {
        with_file_name(package_json_path, target)
    } else {
        let replaced = str_replace_first(target, '*', subpath);
        with_file_name(package_json_path, replaced.as_str())
    };
    Ok(Some(resolved))
}

/// Whether `key` is honoured under `conditions`.
pub fn condition_is_honoured(key: &str, conditions: &Vec<String>) -> (r: bool)
    ensures
        r == condition_applies(key@, texts(conditions@)),
{
    if str_eq(key, "default") {
        return true;
    }
    let r = list_contains(conditions, key);
    proof {
        let cs = texts(conditions@);
        if r {
            let i = choose|i: int| 0 <= i < conditions@.len() && #[trigger] conditions@[i]@ == key@;
            assert(cs[i] == key@);
        } else {
            assert(forall|i: int| 0 <= i < cs.len() ==> #[trigger] cs[i] != key@);
        }
    }
    r
}

/// Resolves an `exports` value of the manifest at `package_json_path` to the
/// path of the target that it leads to under `conditions`.
pub fn resolve_package_target(
    package_json_path: &str,
    target: &Exports,
    subpath: &str,
    pattern: bool,
    conditions: &Vec<String>,
) -> (r: EsResolverResult<Option<String>>)
    ensures
        resolved_view(r) == package_target(
            package_json_path@,
            target@,
            subpath@,
            pattern,
            texts(conditions@),
        ),
    decreases target,
{
    let ghost cs = texts(conditions@);
    match target {
        Exports::String(t) => resolve_package_target_string(
            package_json_path,
            t.as_str(),
            subpath,
            pattern,
        ),
        Exports::Object(entries) => {
            proof {
                target.lemma_object_view();
            }
            let ghost vs = target@->Object_0;
            let mut i: usize = 0;
            while i < entries.len()
                invariant
                    i <= entries.len(),
                    *target == Exports::Object(*entries),
                    target@ == ExportsView::Object(vs),
                    cs == texts(conditions@),
                    vs.len() == entries@.len(),
                    forall|k: int|
                        0 <= k < vs.len() ==> (#[trigger] vs[k]) == (
                            entries@[k].0@,
                            crate::manifest::optional_exports(entries@[k].1),
                        ),
                    first_in_entries(vs, cs, 0) == first_in_entries(vs, cs, i as int),
                decreases entries.len() - i,
            {
                if condition_is_honoured(entries[i].0.as_str(), conditions) {
                    match &entries[i].1 {
                        Some(value) => {
                            let result = resolve_package_target(
                                package_json_path,
                                value,
                                subpath,
                                pattern,
                                conditions,
                            );
                            match result {
                                Ok(Some(p)) => {
                                    return Ok(Some(p));
                                },
                                _ => {},
                            }
                        },
                        None => {},
                    }
                }
                assert(entry_target(vs, cs, i as int) is None);
                i += 1;
            }
            Err(EsResolverError::InvalidExports(String::new()))
        },
        Exports::Array(items) => {
            proof {
                target.lemma_array_view();
            }
            let ghost vs = target@->Array_0;
            let mut i: usize = 0;
            while i < items.len()
                invariant
                    i <= items.len(),
                    *target == Exports::Array(*items),
                    target@ == ExportsView::Array(vs),
                    cs == texts(conditions@),
                    vs.len() == items@.len(),
                    forall|k: int| 0 <= k < vs.len() ==> (#[trigger] vs[k]) == items@[k]@,
                    first_in_items(vs, cs, 0) == first_in_items(vs, cs, i as int),
                decreases items.len() - i,
            {
                let result = resolve_package_target(
                    package_json_path,
                    &items[i],
                    subpath,
                    pattern,
                    conditions,
                );
                match result {
                    Ok(Some(p)) => {
                        return Ok(Some(p));
                    },
                    _ => {},
                }
                i += 1;
            }
            Err(EsResolverError::InvalidExports(String::new()))
        },
    }
}

/// Whether a key of an `exports` object may be matched as a pattern: its
/// value is not `null`.
pub open spec fn usable_keys(entries: Seq<(Seq<char>, Option<ExportsView>)>) -> Seq<bool> {
    Seq::new(entries.len(), |i: int| entries[i].1 is Some)
}

/// The keys of an `exports` object, in order.
pub open spec fn export_keys(entries: Seq<(Seq<char>, Option<ExportsView>)>) -> Seq<Seq<char>> {
    Seq::new(entries.len(), |i: int| entries[i].0)
}

/// The value that stands for `subpath` without any pattern: the whole
/// `exports` value where it is a string or a list, or where it is written
/// as the value of `.` and `subpath` is `.`; else what an object holds
/// under `subpath`.
pub open spec fn direct_candidate(exports: ExportsView, subpath: Seq<char>, sugar: bool) -> Option<
    ExportsView,
> {
    if sugar && subpath == "."@ {
        Some(exports)
    } else {
        match exports {
            ExportsView::Object(entries) => match lookup(entries, subpath) {
                Some(Some(e)) => Some(e),
                _ => None,
            },
            _ => Some(exports),
        }
    }
}

/// The key of an `exports` object that is selected for a subpath is one
/// that the subpath fits and whose value is not `null`, and no other such
/// key is more specific.
pub proof fn lemma_selected_key_is_most_specific(
    entries: Seq<(Seq<char>, Option<ExportsView>)>,
    subpath: Seq<char>,
)
    ensures
        match best_key(export_keys(entries), usable_keys(entries), subpath) {
            Some(b) => 0 <= b < entries.len() && entries[b].1 is Some && pattern_matches(
                entries[b].0,
                subpath,
            ) && forall|j: int|
                0 <= j < entries.len() && (#[trigger] entries[j]).1 is Some && entries[j].0.len()
                    > 0 && pattern_matches(entries[j].0, subpath) ==> key_compare(
                    entries[b].0,
                    entries[j].0,
                ) != 1,
            None => forall|j: int|
                0 <= j < entries.len() && (#[trigger] entries[j]).1 is Some && entries[j].0.len()
                    > 0 ==> !pattern_matches(entries[j].0, subpath),
        },
{
    let keys = export_keys(entries);
    let usable = usable_keys(entries);
    lemma_best_key_is_most_specific(keys, usable, subpath, keys.len() as int);
    match best_key(keys, usable, subpath) {
        Some(b) => {
            assert forall|j: int|
                0 <= j < entries.len() && (#[trigger] entries[j]).1 is Some && entries[j].0.len()
                    > 0 && pattern_matches(entries[j].0, subpath) implies key_compare(
                entries[b].0,
                entries[j].0,
            ) != 1 by {
                assert(key_eligible(keys, usable, subpath, j));
            }
        },
        None => {
            assert forall|j: int|
                0 <= j < entries.len() && (#[trigger] entries[j]).1 is Some && entries[j].0.len()
                    > 0 implies !pattern_matches(entries[j].0, subpath) by {
                assert(!key_eligible(keys, usable, subpath, j));
            }
        },
    }
}

/// What the pattern keys of an `exports` value resolve `subpath` to: the
/// value under the most specific key that `subpath` fits, with what the
/// key's star captured. Only an object that holds a subpath key has
/// pattern keys: a string, a list and an object of conditions resolve
/// nothing here, and so does an object none of whose keys `subpath` fits.
pub open spec fn pattern_resolution(
    package_json_path: Seq<char>,
    exports: ExportsView,
    subpath: Seq<char>,
    conditions: Seq<Seq<char>>,
) -> Result<Option<Seq<char>>, ErrorView> {
    match exports {
        ExportsView::Object(entries) => if has_subpath_key(entries, entries.len() as int) {
            match best_key(export_keys(entries), usable_keys(entries), subpath) {
                Some(b) => match entries[b].1 {
                    Some(e) => package_target(
                        package_json_path,
                        e,
                        pattern_capture(entries[b].0, subpath),
                        true,
                        conditions,
                    ),
                    None => Ok(None),
                },
                None => Ok(None),
            }
        } else {
            Ok(None)
        },
        _ => Ok(None),
    }
}

/// An object without a subpath key resolves no subpath by pattern, whatever
/// its keys are.
pub proof fn lemma_conditions_hold_no_pattern(
    package_json_path: Seq<char>,
    entries: Seq<(Seq<char>, Option<ExportsView>)>,
    subpath: Seq<char>,
    conditions: Seq<Seq<char>>,
)
    requires
        forall|i: int| 0 <= i < entries.len() ==> !is_subpath_key(#[trigger] entries[i].0),
    ensures
        pattern_resolution(package_json_path, ExportsView::Object(entries), subpath, conditions)
            == Ok::<Option<Seq<char>>, ErrorView>(None),
{
}

/// What the `exports` field of the manifest at `package_json_path` resolves
/// `subpath` to. A manifest without the field resolves nothing. A subpath
/// without a star and without a slash at its end is looked up directly
/// first; what that does not resolve is matched against the pattern keys.
pub open spec fn exports_resolution(
    package_json_path: Seq<char>,
    exports: Option<ExportsView>,
    subpath: Seq<char>,
    conditions: Seq<Seq<char>>,
) -> Result<Option<Seq<char>>, ErrorView> {
    match exports {
        None => Ok(None),
        Some(e) => if find_char(subpath, '*') is None && !(subpath.len() > 0 && subpath.last()
            == '/') {
            match main_sugar(e, package_json_path) {
                Err(err) => Err(err),
                Ok(sugar) => match direct_candidate(e, subpath, sugar) {
                    Some(candidate) => package_target(
                        package_json_path,
                        candidate,
                        Seq::empty(),
                        false,
                        conditions,
                    ),
                    None => pattern_resolution(package_json_path, e, subpath, conditions),
                },
            }
        } else {
            pattern_resolution(package_json_path, e, subpath, conditions)
        },
    }
}

/// The value that an `exports` object holds under `subpath`, where it holds
/// one that is not `null`.
fn find_export<'b>(entries: &'b Vec<(String, Option<Exports>)>, subpath: &str, Ghost(vs): Ghost<
    Seq<(Seq<char>, Option<ExportsView>)>,
>) -> (r: Option<&'b Exports>)
    requires
        vs.len() == entries@.len(),
        forall|k: int|
            0 <= k < vs.len() ==> (#[trigger] vs[k]) == (
                entries@[k].0@,
                optional_exports(entries@[k].1),
            ),
    ensures
        match r {
            Some(e) => lookup(vs, subpath@) == Some(Some(e@)),
            None => !(lookup(vs, subpath@) matches Some(Some(_))),
        },
{
    let mut i: usize = 0;
    while i < entries.len()
        invariant
            i <= entries.len(),
            vs.len() == entries@.len(),
            forall|k: int|
                0 <= k < vs.len() ==> (#[trigger] vs[k]) == (
                    entries@[k].0@,
                    optional_exports(entries@[k].1),
                ),
            lookup(vs, subpath@) == lookup_from(vs, subpath@, i as int),
        decreases entries.len() - i,
    {
        if str_eq(entries[i].0.as_str(), subpath) {
            return match &entries[i].1 {
                Some(e) => Some(e),
                None => None,
            };
        }
        i += 1;
    }
    None
}

/// Resolves `package_subpath` against the pattern keys of `exports`.
fn resolve_by_pattern(
    package_json_path: &str,
    exports: &Exports,
    package_subpath: &str,
    conditions: &Vec<String>,
) -> (r: EsResolverResult<Option<String>>)
    ensures
        resolved_view(r) == pattern_resolution(
            package_json_path@,
            exports@,
            package_subpath@,
            texts(conditions@),
        ),
{
    match exports {
        Exports::Object(entries) => {
            proof {
                exports.lemma_object_view();
            }
            let ghost vs = exports@->Object_0;
            let mut keys: Vec<String> = Vec::new();
            let mut usable: Vec<bool> = Vec::new();
            let mut subpath_key = false;
            let mut i: usize = 0;
            while i < entries.len()
                invariant
                    i <= entries.len(),
                    vs.len() == entries@.len(),
                    forall|k: int| 0 <= k < vs.len() ==> (#[trigger] vs[k]).0 == entries@[k].0@,
                    keys@.len() == i,
                    usable@.len() == i,
                    forall|k: int| 0 <= k < i ==> (#[trigger] keys@[k])@ == entries@[k].0@,
                    forall|k: int| 0 <= k < i ==> #[trigger] usable@[k] == entries@[k].1 is Some,
                    subpath_key == has_subpath_key(vs, i as int),
                decreases entries.len() - i,
            {
                assert(vs[i as int].0 == entries@[i as int].0@);
                if str_begins_with_char(entries[i].0.as_str(), '.') {
                    subpath_key = true;
                }
                keys.push(entries[i].0.clone());
                usable.push(entries[i].1.is_some());
                i += 1;
            }
            if !subpath_key {
                return Ok(None);
            }
            proof {
                assert(texts(keys@) =~= export_keys(vs));
                assert(usable@ =~= usable_keys(vs));
            }
            match best_pattern_key(&keys, &usable, package_subpath) {
                Some(b) => {
                    match &entries[b].1 {
                        Some(value) => {
                            let captured = extract_exports_pattern(
                                entries[b].0.as_str(),
                                package_subpath,
                            );
                            resolve_package_target(
                                package_json_path,
                                value,
                                captured,
                                true,
                                conditions,
                            )
                        },
                        None => Ok(None),
                    }
                },
                None => Ok(None),
            }
        },
        _ => Ok(None),
    }
}

/// Resolves `package_subpath` against the `exports` field of the manifest at
/// `package_json_path`.
pub fn resolve_exports(
    package_json_path: &str,
    exports: &Option<Exports>,
    package_subpath: &str,
    conditions: &Vec<String>,
) -> (r: EsResolverResult<Option<String>>)
    ensures
        resolved_view(r) == exports_resolution(
            package_json_path@,
            optional_exports(*exports),
            package_subpath@,
            texts(conditions@),
        ),
{
    match exports {
        None => Ok(None),
        Some(e) => {
            if !str_contains(package_subpath, '*') && !str_ends_with_char(package_subpath, '/') {
                let sugar = match is_conditional_exports_main_sugar(e, package_json_path) {
                    Ok(b) => b,
                    Err(err) => {
                        return Err(err);
                    },
                };
                let candidate: Option<&Exports> = if sugar && str_eq(package_subpath, ".") {
                    Some(e)
                } else {
                    match e {
                        Exports::Object(entries) => {
                            proof {
                                e.lemma_object_view();
                            }
                            find_export(entries, package_subpath, Ghost(e@->Object_0))
                        },
                        _ => Some(e),
                    }
                };
                match candidate {
                    Some(c) => {
                        let empty = String::new();
                        return resolve_package_target(
                            package_json_path,
                            c,
                            empty.as_str(),
                            false,
                            conditions,
                        );
                    },
                    None => {},
                }
            }
            resolve_by_pattern(package_json_path, e, package_subpath, conditions)
        },
    }
}

} // verus!
