//! Resolution under growing knowledge of the disk. A procedure that has
//! returned a result returns the same result whatever else is recorded, and
//! a procedure that asks a question asks one whose answer is not recorded:
//! each answer brings the resolution forward, and no answer that was not
//! asked for changes what it returns.

use vstd::prelude::*;
use crate::facts::{FileFactsView, QueryView};
use crate::paths::{path_join, path_parent, path_with_file_name};
use crate::resolution::{
    canonical_from, config_candidates, directory_candidates, extends_options, file_candidates,
    first_file_from, first_relative_from, lemma_visit_leaves_fewer, load_as_directory,
    load_as_file, load_as_relative, load_from_directory, load_node_modules, load_package_exports,
    manifest_at, parse_tsconfig, rebased, resolve, resolve_in_node_modules,
    resolve_package_specifier, resolve_path_specifier, resolve_plain, resolve_tsconfig,
    resolve_tsconfig_from, tsconfig_in, unvisited, ResolverView,
};
use crate::tsconfig::tsconfig_of_text;
use crate::types::{Extensions, OptionsView, TargetEnv};

verus! {

/// Whether a procedure is settled by what `earlier` knows: it has returned
/// `before` and returns the same as `after` under more knowledge, or it
/// asks a question that `earlier` cannot answer.
pub open spec fn settled<T>(
    before: Result<T, QueryView>,
    after: Result<T, QueryView>,
    earlier: FileFactsView,
) -> bool {
    match before {
        Ok(_) => after == before,
        Err(q) => !earlier.knows(q),
    }
}

/// The search for the first file among candidates is settled.
pub proof fn lemma_first_file_settled(
    earlier: FileFactsView,
    later: FileFactsView,
    candidates: Seq<Seq<char>>,
    i: int,
)
    requires
        later.extends(earlier),
        0 <= i,
    ensures
        settled(
            first_file_from(earlier, candidates, i),
            first_file_from(later, candidates, i),
            earlier,
        ),
    decreases candidates.len() - i,
{
    if i < candidates.len() {
        match earlier.is_file(candidates[i]) {
            Some(false) => {
                lemma_first_file_settled(earlier, later, candidates, i + 1);
            },
            _ => {},
        }
    }
}

/// The search for a path as a file is settled.
pub proof fn lemma_load_as_file_settled(
    earlier: FileFactsView,
    later: FileFactsView,
    abs: Seq<char>,
    extensions: Seq<Extensions>,
)
    requires
        later.extends(earlier),
    ensures
        settled(
            load_as_file(earlier, abs, extensions),
            load_as_file(later, abs, extensions),
            earlier,
        ),
{
    lemma_first_file_settled(earlier, later, file_candidates(abs, extensions), 0);
}

/// The reading of a manifest is settled.
pub proof fn lemma_manifest_settled(earlier: FileFactsView, later: FileFactsView, path: Seq<char>)
    requires
        later.extends(earlier),
    ensures
        settled(manifest_at(earlier, path), manifest_at(later, path), earlier),
{
}

/// The search for a path as a directory is settled.
pub proof fn lemma_load_as_directory_settled(
    earlier: FileFactsView,
    later: FileFactsView,
    dir: Seq<char>,
    options: OptionsView,
)
    requires
        later.extends(earlier),
    ensures
        settled(
            load_as_directory(earlier, dir, options),
            load_as_directory(later, dir, options),
            earlier,
        ),
{
    let path = path_join(dir, "package.json"@);
    lemma_manifest_settled(earlier, later, path);
    match manifest_at(earlier, path) {
        Ok(manifest) => {
            lemma_first_file_settled(
                earlier,
                later,
                directory_candidates(dir, manifest, options),
                0,
            );
        },
        Err(_) => {},
    }
}

/// The search for a path as a file or a directory is settled.
pub proof fn lemma_load_as_relative_settled(
    earlier: FileFactsView,
    later: FileFactsView,
    abs: Seq<char>,
    options: OptionsView,
)
    requires
        later.extends(earlier),
    ensures
        settled(
            load_as_relative(earlier, abs, options),
            load_as_relative(later, abs, options),
            earlier,
        ),
{
    lemma_load_as_file_settled(earlier, later, abs, options.extensions);
    lemma_load_as_directory_settled(earlier, later, abs, options);
}

/// The resolution through the `exports` of a package is settled.
pub proof fn lemma_load_package_exports_settled(
    earlier: FileFactsView,
    later: FileFactsView,
    node_modules_dir: Seq<char>,
    name: Seq<char>,
    conditions: Seq<Seq<char>>,
)
    requires
        later.extends(earlier),
    ensures
        settled(
            load_package_exports(earlier, node_modules_dir, name, conditions),
            load_package_exports(later, node_modules_dir, name, conditions),
            earlier,
        ),
{
    match crate::exports::split_package_name(name) {
        Ok(parts) => {
            lemma_manifest_settled(
                earlier,
                later,
                path_join(path_join(node_modules_dir, parts.0), "package.json"@),
            );
        },
        Err(_) => {},
    }
}

/// The search below one `node_modules` directory is settled.
pub proof fn lemma_load_from_directory_settled(
    earlier: FileFactsView,
    later: FileFactsView,
    node_modules_dir: Seq<char>,
    name: Seq<char>,
    options: OptionsView,
)
    requires
        later.extends(earlier),
    ensures
        settled(
            load_from_directory(earlier, node_modules_dir, name, options),
            load_from_directory(later, node_modules_dir, name, options),
            earlier,
        ),
{
    lemma_load_as_file_settled(
        earlier,
        later,
        path_join(node_modules_dir, name),
        options.extensions,
    );
    lemma_load_as_directory_settled(earlier, later, path_join(node_modules_dir, name), options);
}

/// The walk through the `node_modules` directories is settled.
pub proof fn lemma_load_node_modules_settled(
    earlier: FileFactsView,
    later: FileFactsView,
    dir: Seq<char>,
    name: Seq<char>,
    options: OptionsView,
)
    requires
        later.extends(earlier),
    ensures
        settled(
            load_node_modules(earlier, dir, name, options),
            load_node_modules(later, dir, name, options),
            earlier,
        ),
    decreases dir.len(),
{
    let node_modules_dir = path_join(dir, "node_modules"@);
    lemma_load_package_exports_settled(earlier, later, node_modules_dir, name, options.conditions);
    lemma_load_from_directory_settled(earlier, later, node_modules_dir, name, options);
    match path_parent(dir) {
        Some(up) => {
            if up.len() < dir.len() {
                lemma_load_node_modules_settled(earlier, later, up, name, options);
            }
        },
        None => {},
    }
}

/// The resolution of a path specifier is settled.
pub proof fn lemma_resolve_path_specifier_settled(
    earlier: FileFactsView,
    later: FileFactsView,
    abs_from: Seq<char>,
    r: ResolverView,
)
    requires
        later.extends(earlier),
    ensures
        settled(
            resolve_path_specifier(earlier, abs_from, r),
            resolve_path_specifier(later, abs_from, r),
            earlier,
        ),
{
    lemma_load_as_relative_settled(
        earlier,
        later,
        path_with_file_name(abs_from, r.target),
        r.options,
    );
}

/// The resolution in the `node_modules` directories is settled.
pub proof fn lemma_resolve_in_node_modules_settled(
    earlier: FileFactsView,
    later: FileFactsView,
    abs_from: Seq<char>,
    r: ResolverView,
)
    requires
        later.extends(earlier),
    ensures
        settled(
            resolve_in_node_modules(earlier, abs_from, r),
            resolve_in_node_modules(later, abs_from, r),
            earlier,
        ),
{
    match path_parent(abs_from) {
        Some(dir) => {
            lemma_load_node_modules_settled(earlier, later, dir, r.target, r.options);
        },
        None => {},
    }
}

/// A resolution that reads no TypeScript configuration is settled.
pub proof fn lemma_resolve_plain_settled(
    earlier: FileFactsView,
    later: FileFactsView,
    r: ResolverView,
)
    requires
        later.extends(earlier),
    ensures
        settled(resolve_plain(earlier, r), resolve_plain(later, r), earlier),
{
    match canonical_from(earlier, r.from) {
        Ok(Ok(abs_from)) => {
            lemma_resolve_path_specifier_settled(earlier, later, abs_from, r);
            lemma_resolve_in_node_modules_settled(earlier, later, abs_from, r);
        },
        _ => {},
    }
}

/// The reading of a configuration is settled.
pub proof fn lemma_parse_tsconfig_settled(
    earlier: FileFactsView,
    later: FileFactsView,
    path: Seq<char>,
    options: OptionsView,
    visited: Seq<Seq<char>>,
)
    requires
        later.extends(earlier),
    ensures
        settled(
            parse_tsconfig(earlier, path, options, visited),
            parse_tsconfig(later, path, options, visited),
            earlier,
        ),
    decreases unvisited(earlier.texts, visited),
{
    if !visited.contains(path) {
        match earlier.text(path) {
            Some(Some(text)) => {
                match tsconfig_of_text(text) {
                    Some(read) => {
                        let config = rebased(read, path);
                        match config.extends {
                            Some(extends) => {
                                let sub = ResolverView {
                                    target: extends,
                                    from: path,
                                    env: TargetEnv::Node,
                                    options: extends_options(options),
                                };
                                lemma_resolve_plain_settled(earlier, later, sub);
                                match resolve_plain(earlier, sub) {
                                    Ok(Ok(parent_path)) => {
                                        lemma_visit_leaves_fewer(earlier.texts, visited, path, 0);
                                        lemma_parse_tsconfig_settled(
                                            earlier,
                                            later,
                                            parent_path,
                                            options,
                                            visited.push(path),
                                        );
                                    },
                                    _ => {},
                                }
                            },
                            None => {},
                        }
                    },
                    None => {},
                }
            },
            _ => {},
        }
    }
}

/// The reading of the configuration of a directory is settled.
pub proof fn lemma_tsconfig_in_settled(
    earlier: FileFactsView,
    later: FileFactsView,
    dir: Seq<char>,
    options: OptionsView,
)
    requires
        later.extends(earlier),
    ensures
        settled(tsconfig_in(earlier, dir, options), tsconfig_in(later, dir, options), earlier),
{
    lemma_parse_tsconfig_settled(
        earlier,
        later,
        path_join(dir, "tsconfig.json"@),
        options,
        Seq::empty(),
    );
    lemma_parse_tsconfig_settled(
        earlier,
        later,
        path_join(dir, "jsconfig.json"@),
        options,
        Seq::empty(),
    );
}

/// The search for the governing configuration from a directory upwards is
/// settled.
pub proof fn lemma_resolve_tsconfig_from_settled(
    earlier: FileFactsView,
    later: FileFactsView,
    dir: Seq<char>,
    options: OptionsView,
)
    requires
        later.extends(earlier),
    ensures
        settled(
            resolve_tsconfig_from(earlier, dir, options),
            resolve_tsconfig_from(later, dir, options),
            earlier,
        ),
    decreases dir.len(),
{
    lemma_tsconfig_in_settled(earlier, later, dir, options);
    match path_parent(dir) {
        Some(up) => {
            if up.len() < dir.len() {
                lemma_resolve_tsconfig_from_settled(earlier, later, up, options);
            }
        },
        None => {},
    }
}

/// The search for the governing configuration of a file is settled.
pub proof fn lemma_resolve_tsconfig_settled(
    earlier: FileFactsView,
    later: FileFactsView,
    from: Seq<char>,
    options: OptionsView,
)
    requires
        later.extends(earlier),
    ensures
        settled(
            resolve_tsconfig(earlier, from, options),
            resolve_tsconfig(later, from, options),
            earlier,
        ),
{
    match path_parent(from) {
        Some(dir) => {
            lemma_resolve_tsconfig_from_settled(earlier, later, dir, options);
        },
        None => {},
    }
}

/// The search through the candidates of a configuration is settled.
pub proof fn lemma_first_relative_settled(
    earlier: FileFactsView,
    later: FileFactsView,
    candidates: Seq<Seq<char>>,
    options: OptionsView,
    i: int,
)
    requires
        later.extends(earlier),
        0 <= i,
    ensures
        settled(
            first_relative_from(earlier, candidates, options, i),
            first_relative_from(later, candidates, options, i),
            earlier,
        ),
    decreases candidates.len() - i,
{
    if i < candidates.len() {
        lemma_load_as_relative_settled(earlier, later, candidates[i], options);
        lemma_first_relative_settled(earlier, later, candidates, options, i + 1);
    }
}

/// The resolution of a package specifier is settled.
pub proof fn lemma_resolve_package_specifier_settled(
    earlier: FileFactsView,
    later: FileFactsView,
    abs_from: Seq<char>,
    r: ResolverView,
)
    requires
        later.extends(earlier),
    ensures
        settled(
            resolve_package_specifier(earlier, abs_from, r),
            resolve_package_specifier(later, abs_from, r),
            earlier,
        ),
{
    lemma_resolve_tsconfig_settled(earlier, later, r.from, r.options);
    match resolve_tsconfig(earlier, r.from, r.options) {
        Ok(Ok(config)) => {
            lemma_first_relative_settled(
                earlier,
                later,
                config_candidates(config, r.target),
                r.options,
                0,
            );
            lemma_resolve_in_node_modules_settled(earlier, later, abs_from, r);
        },
        _ => {},
    }
}

/// A resolution is settled by what is known: once it has returned a result,
/// it returns that result whatever else is recorded; and where it asks, it
/// asks a question whose answer is not recorded.
pub proof fn lemma_resolve_settled(earlier: FileFactsView, later: FileFactsView, r: ResolverView)
    requires
        later.extends(earlier),
    ensures
        resolve(earlier, r) is Ok ==> resolve(later, r) == resolve(earlier, r),
        resolve(earlier, r) matches Err(q) ==> !earlier.knows(q),
{
    match canonical_from(earlier, r.from) {
        Ok(Ok(abs_from)) => {
            lemma_resolve_path_specifier_settled(earlier, later, abs_from, r);
            lemma_resolve_package_specifier_settled(earlier, later, abs_from, r);
        },
        _ => {},
    }
}

} // verus!
