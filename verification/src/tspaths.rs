//! The `paths` of a TypeScript configuration: which paths a specifier stands
//! for.

use vstd::prelude::*;
use vstd::string::*;
use crate::ordered::lookup;
use crate::paths::{join_path, path_join};
use crate::text::{replace_first, str_replace_first};
use crate::tsconfig::{paths_entries, paths_get, paths_items, TSConfigPaths};
use crate::types::texts;
use crate::utils::{best_key, best_pattern_key, extract_exports_pattern, pattern_capture};

verus! {

/// The keys of the entries of a `paths` map, in order.
pub open spec fn keys_of(entries: Seq<(Seq<char>, Seq<Seq<char>>)>) -> Seq<Seq<char>> {
    Seq::new(entries.len(), |i: int| entries[i].0)
}

/// As many marks as `n`, all `true`.
pub open spec fn all_usable(n: nat) -> Seq<bool> {
    Seq::new(n, |i: int| true)
}

/// The templates joined to `base_url`, each with its first star replaced by
/// `capture`.
pub open spec fn filled_templates(
    base_url: Seq<char>,
    templates: Seq<Seq<char>>,
    capture: Seq<char>,
) -> Seq<Seq<char>> {
    Seq::new(
        templates.len(),
        |i: int| path_join(base_url, replace_first(templates[i], '*', capture)),
    )
}

/// The templates joined to `base_url` as they stand.
pub open spec fn joined_templates(base_url: Seq<char>, templates: Seq<Seq<char>>) -> Seq<
    Seq<char>,
> {
    Seq::new(templates.len(), |i: int| path_join(base_url, templates[i]))
}

/// The paths that `target` stands for under a `paths` map: the templates of
/// the key that is `target` itself; else those of the most specific pattern
/// key that `target` fits, the star of each replaced by what the key's star
/// captured; else `target` itself. Each is joined to `base_url`.
pub open spec fn paths_candidates(
    base_url: Seq<char>,
    entries: Seq<(Seq<char>, Seq<Seq<char>>)>,
    target: Seq<char>,
) -> Seq<Seq<char>> {
    match lookup(entries, target) {
        Some(templates) => joined_templates(base_url, templates),
        None => match best_key(keys_of(entries), all_usable(entries.len()), target) {
            Some(b) => filled_templates(
                base_url,
                entries[b].1,
                pattern_capture(entries[b].0, target),
            ),
            None => seq![path_join(base_url, target)],
        },
    }
}

/// The paths that `target` stands for under `paths`, in the order in which
/// they are to be tried.
pub fn match_tsconfig_paths(base_url: &str, paths: &TSConfigPaths, target: &str) -> (r: Option<
    Vec<String>,
>)
    ensures
        r matches Some(list) && texts(list@) == paths_candidates(
            base_url@,
            paths_entries(*paths),
            target@,
        ),
{
    let ghost entries = paths_entries(*paths);
    match paths_get(paths, target) {
        Some(templates) => {
            let mut out: Vec<String> = Vec::new();
            let mut i: usize = 0;
            while i < templates.len()
                invariant
                    i <= templates.len(),
                    out@.len() == i,
                    forall|k: int|
                        0 <= k < i ==> (#[trigger] out@[k])@ == path_join(
                            base_url@,
                            templates@[k]@,
                        ),
                decreases templates.len() - i,
            {
                out.push(join_path(base_url, templates[i].as_str()));
                i += 1;
            }
            Some(out)
        },
        None => {
            let items = paths_items(paths);
            let mut keys: Vec<String> = Vec::new();
            let mut usable: Vec<bool> = Vec::new();
            let mut i: usize = 0;
            while i < items.len()
                invariant
                    i <= items.len(),
                    keys@.len() == i,
                    usable@.len() == i,
                    forall|k: int| 0 <= k < i ==> (#[trigger] keys@[k])@ == items@[k].0@,
                    forall|k: int| 0 <= k < i ==> #[trigger] usable@[k],
                decreases items.len() - i,
            {
                keys.push(items[i].0.clone());
                usable.push(true);
                i += 1;
            }
            proof {
                assert(forall|k: int|
                    0 <= k < entries.len() ==> #[trigger] entries[k] == (
                        items@[k].0@,
                        texts(items@[k].1@),
                    ));
                assert(texts(keys@) =~= keys_of(entries));
                assert(usable@ =~= all_usable(entries.len()));
            }
            match best_pattern_key(&keys, &usable, target) {
                None => {
                    let mut out: Vec<String> = Vec::new();
                    out.push(join_path(base_url, target));
                    Some(out)
                },
                Some(b) => {
                    let key = items[b].0.as_str();
                    let templates = &items[b].1;
                    let captured = extract_exports_pattern(key, target);
                    let mut out: Vec<String> = Vec::new();
                    let mut i: usize = 0;
                    while i < templates.len()
                        invariant
                            i <= templates.len(),
                            out@.len() == i,
                            forall|k: int|
                                0 <= k < i ==> (#[trigger] out@[k])@ == path_join(
                                    base_url@,
                                    replace_first(templates@[k]@, '*', captured@),
                                ),
                        decreases templates.len() - i,
                    {
                        let filled = str_replace_first(templates[i].as_str(), '*', captured);
                        out.push(join_path(base_url, filled.as_str()));
                        i += 1;
                    }
                    Some(out)
                },
            }
        },
    }
}

} // verus!
