//! What a resolution returns, stated over the recorded answers about the
//! disk: the result where the answers suffice, else the first question that
//! they leave open.

use vstd::prelude::*;
use vstd::string::*;
use crate::data::{is_core_module, lemma_core_module_is_no_path};
use crate::exports::{exports_resolution, split_package_name};
use crate::facts::{FileFactsView, QueryView};
use crate::manifest::{package_of_text, PackageJSONView};
use crate::ordered::lookup_from;
use crate::paths::{path_cleaned, path_join, path_parent, path_with_file_name};
use crate::tsconfig::{tsconfig_of_text, TSConfigCompilerOptionsView, TSConfigView};
use crate::tspaths::paths_candidates;
use crate::types::{ErrorView, Extensions, OptionsView, TargetEnv};

verus! {

/// A path that was looked for: `Ok(Some(..))` where it was found,
/// `Ok(None)` where it was not, `Err(..)` with the question that has to be
/// answered first.
pub type Found = Result<Option<Seq<char>>, QueryView>;

/// A path that was looked for by a procedure that can fail.
pub type Outcome = Result<Result<Option<Seq<char>>, ErrorView>, QueryView>;

/// `abs` with `suffix` taken from its end.
pub open spec fn without_suffix(abs: Seq<char>, suffix: Seq<char>) -> Seq<char> {
    abs.subrange(0, abs.len() - suffix.len())
}

/// The paths that stand for `abs` where `abs` ends in an extension that a
/// compiler would have rewritten: `.js` for `.ts` and `.tsx`, `.jsx` for
/// `.tsx`, `.cjs` for `.cts`, `.mjs` for `.mts`.
pub open spec fn rewritten_candidates(abs: Seq<char>) -> Seq<Seq<char>> {
    if ".js"@.is_suffix_of(abs) {
        seq![without_suffix(abs, ".js"@) + ".ts"@, without_suffix(abs, ".js"@) + ".tsx"@]
    } else if ".jsx"@.is_suffix_of(abs) {
        seq![without_suffix(abs, ".jsx"@) + ".tsx"@]
    } else if ".cjs"@.is_suffix_of(abs) {
        seq![without_suffix(abs, ".cjs"@) + ".cts"@]
    } else if ".mjs"@.is_suffix_of(abs) {
        seq![without_suffix(abs, ".mjs"@) + ".mts"@]
    } else {
        Seq::empty()
    }
}

/// `abs` with each of `extensions` appended behind a dot, in order.
pub open spec fn extension_candidates(abs: Seq<char>, extensions: Seq<Extensions>) -> Seq<
    Seq<char>,
> {
    Seq::new(extensions.len(), |i: int| abs + "."@ + extensions[i].text())
}

/// Whether `abs` with `extension` behind a dot is a file: that path where
/// it is, nothing where it is not.
pub open spec fn try_extension(fs: FileFactsView, abs: Seq<char>, extension: Extensions) -> Found {
    let candidate = abs + "."@ + extension.text();
    match fs.is_file(candidate) {
        None => Err(QueryView::IsFile(candidate)),
        Some(true) => Ok(Some(candidate)),
        Some(false) => Ok(None),
    }
}

/// The paths that are tried for `abs` as a file, in order: `abs` itself,
/// `abs` with each extension, and what `abs` may have been rewritten from.
pub open spec fn file_candidates(abs: Seq<char>, extensions: Seq<Extensions>) -> Seq<Seq<char>> {
    seq![abs] + extension_candidates(abs, extensions) + rewritten_candidates(abs)
}

/// The first of `candidates`, from position `i` on, that is a file.
pub open spec fn first_file_from(fs: FileFactsView, candidates: Seq<Seq<char>>, i: int) -> Found
    decreases candidates.len() - i,
{
    if i < 0 || i >= candidates.len() {
        Ok(None)
    } else {
        match fs.is_file(candidates[i]) {
            None => Err(QueryView::IsFile(candidates[i])),
            Some(true) => Ok(Some(candidates[i])),
            Some(false) => first_file_from(fs, candidates, i + 1),
        }
    }
}

/// The first of `candidates` that is a file.
pub open spec fn first_file(fs: FileFactsView, candidates: Seq<Seq<char>>) -> Found {
    first_file_from(fs, candidates, 0)
}

/// Whether each of the first `n` candidates is known not to be a file.
pub open spec fn none_is_file(fs: FileFactsView, candidates: Seq<Seq<char>>, n: int) -> bool {
    forall|k: int|
        0 <= k < n && k < candidates.len() ==> fs.is_file(#[trigger] candidates[k]) == Some(false)
}

/// A search passes over candidates that are known not to be files.
pub proof fn lemma_first_file_skips(
    fs: FileFactsView,
    candidates: Seq<Seq<char>>,
    from: int,
    to: int,
)
    requires
        0 <= from <= to <= candidates.len(),
        forall|k: int| from <= k < to ==> fs.is_file(#[trigger] candidates[k]) == Some(false),
    ensures
        first_file_from(fs, candidates, from) == first_file_from(fs, candidates, to),
    decreases to - from,
{
    if from < to {
        lemma_first_file_skips(fs, candidates, from + 1, to);
    }
}

/// The candidate that is known to be a file, while each one before it is
/// known not to be, is the one that the search returns.
pub proof fn lemma_first_file_is_earliest(fs: FileFactsView, candidates: Seq<Seq<char>>, i: int)
    requires
        0 <= i < candidates.len(),
        fs.is_file(candidates[i]) == Some(true),
        none_is_file(fs, candidates, i),
    ensures
        first_file(fs, candidates) == Ok::<Option<Seq<char>>, QueryView>(Some(candidates[i])),
{
    lemma_first_file_skips(fs, candidates, 0, i);
}

/// What a search returns: the path of a candidate that is known to be a
/// file, each candidate before it being known not to be one; nothing where
/// each candidate is known not to be a file; else the question about the
/// first candidate of which nothing is known.
pub proof fn lemma_first_file_result(fs: FileFactsView, candidates: Seq<Seq<char>>)
    ensures
        match first_file(fs, candidates) {
            Ok(None) => none_is_file(fs, candidates, candidates.len() as int),
            Ok(Some(p)) => exists|k: int|
                0 <= k < candidates.len() && candidates[k] == p && fs.is_file(p) == Some(true)
                    && none_is_file(fs, candidates, k),
            Err(q) => exists|k: int|
                0 <= k < candidates.len() && q == QueryView::IsFile(candidates[k]) && fs.is_file(
                    candidates[k],
                ) is None && none_is_file(fs, candidates, k),
        },
{
    lemma_first_file_result_from(fs, candidates, 0);
}

/// The same for a search from position `i` on, before which each candidate
/// is known not to be a file.
pub proof fn lemma_first_file_result_from(fs: FileFactsView, candidates: Seq<Seq<char>>, i: int)
    requires
        0 <= i <= candidates.len(),
        none_is_file(fs, candidates, i),
    ensures
        match first_file_from(fs, candidates, i) {
            Ok(None) => none_is_file(fs, candidates, candidates.len() as int),
            Ok(Some(p)) => exists|k: int|
                0 <= k < candidates.len() && candidates[k] == p && fs.is_file(p) == Some(true)
                    && none_is_file(fs, candidates, k),
            Err(q) => exists|k: int|
                0 <= k < candidates.len() && q == QueryView::IsFile(candidates[k]) && fs.is_file(
                    candidates[k],
                ) is None && none_is_file(fs, candidates, k),
        },
    decreases candidates.len() - i,
{
    if i < candidates.len() {
        match fs.is_file(candidates[i]) {
            Some(false) => {
                lemma_first_file_result_from(fs, candidates, i + 1);
            },
            Some(true) => {
            },
            None => {
            },
        }
    }
}

/// A search through one list and then another is a search through the
/// first, and through the second where the first holds no file.
pub proof fn lemma_first_file_concat(fs: FileFactsView, a: Seq<Seq<char>>, b: Seq<Seq<char>>)
    ensures
        first_file(fs, a + b) == match first_file(fs, a) {
            Ok(None) => first_file(fs, b),
            other => other,
        },
{
    lemma_first_file_concat_from(fs, a, b, 0);
}

/// The same from a position of the first list on.
pub proof fn lemma_first_file_concat_from(
    fs: FileFactsView,
    a: Seq<Seq<char>>,
    b: Seq<Seq<char>>,
    i: int,
)
    requires
        0 <= i <= a.len(),
    ensures
        first_file_from(fs, a + b, i) == match first_file_from(fs, a, i) {
            Ok(None) => first_file(fs, b),
            other => other,
        },
    decreases a.len() - i,
{
    if i < a.len() {
        lemma_first_file_concat_from(fs, a, b, i + 1);
    } else {
        lemma_first_file_shift(fs, a, b, 0);
    }
}

/// A search of the second list is a search of the joined list from where
/// the second begins.
pub proof fn lemma_first_file_shift(fs: FileFactsView, a: Seq<Seq<char>>, b: Seq<Seq<char>>, j: int)
    requires
        0 <= j <= b.len(),
    ensures
        first_file_from(fs, a + b, a.len() + j) == first_file_from(fs, b, j),
    decreases b.len() - j,
{
    if j < b.len() {
        lemma_first_file_shift(fs, a, b, j + 1);
    }
}

/// What the search for `abs` as a file returns.
pub open spec fn load_as_file(
    fs: FileFactsView,
    abs: Seq<char>,
    extensions: Seq<Extensions>,
) -> Found {
    first_file(fs, file_candidates(abs, extensions))
}

/// Of the extensions that make `abs` a file, the one that stands first
/// among `extensions` decides, where `abs` itself is no file.
pub proof fn lemma_extension_priority(
    fs: FileFactsView,
    abs: Seq<char>,
    extensions: Seq<Extensions>,
    i: int,
)
    requires
        0 <= i < extensions.len(),
        fs.is_file(abs) == Some(false),
        fs.is_file(abs + "."@ + extensions[i].text()) == Some(true),
        forall|k: int|
            0 <= k < i ==> fs.is_file(abs + "."@ + (#[trigger] extensions[k]).text()) == Some(
                false,
            ),
    ensures
        load_as_file(fs, abs, extensions) == Ok::<Option<Seq<char>>, QueryView>(
            Some(abs + "."@ + extensions[i].text()),
        ),
{
    let candidates = file_candidates(abs, extensions);
    assert(forall|k: int|
        0 <= k < i + 1 ==> fs.is_file(#[trigger] candidates[k]) == Some(false));
    lemma_first_file_is_earliest(fs, candidates, i + 1);
}

/// What the search for the index file of the directory `dir` returns.
pub open spec fn load_index(
    fs: FileFactsView,
    dir: Seq<char>,
    extensions: Seq<Extensions>,
) -> Found {
    load_as_file(fs, path_join(dir, "index"@), extensions)
}

/// The text of the error for a manifest that cannot be read.
pub open spec fn unreadable_manifest_message(path: Seq<char>) -> Seq<char> {
    "Can't read package.json at "@ + path
}

/// The text of the error for a manifest that is not valid.
pub open spec fn invalid_manifest_message(path: Seq<char>) -> Seq<char> {
    "The package.json at "@ + path + " is not a valid manifest."@
}

/// The manifest at `path`: an I/O error where the file cannot be read, an
/// error of its own where the text is no manifest.
pub open spec fn manifest_at(fs: FileFactsView, path: Seq<char>) -> Result<
    Result<PackageJSONView, ErrorView>,
    QueryView,
> {
    match fs.text(path) {
        None => Err(QueryView::ReadFile(path)),
        Some(None) => Ok(Err(ErrorView::IOError(unreadable_manifest_message(path)))),
        Some(Some(text)) => match package_of_text(text) {
            Some(manifest) => Ok(Ok(manifest)),
            None => Ok(Err(ErrorView::InvalidPackageJSON(invalid_manifest_message(path)))),
        },
    }
}

/// The candidates that the main fields of `manifest` add for the directory
/// `dir`, from the field at position `i` on: for each field that holds a
/// text that is not empty, the candidates of that text joined to `dir`.
pub open spec fn main_candidates_from(
    dir: Seq<char>,
    manifest: PackageJSONView,
    options: OptionsView,
    i: int,
) -> Seq<Seq<char>>
    decreases options.main_fields.len() - i,
{
    if i < 0 || i >= options.main_fields.len() {
        Seq::empty()
    } else {
        let here = match manifest.main_field(options.main_fields[i]) {
            Some(entry) => if entry.len() > 0 {
                file_candidates(path_join(dir, entry), options.extensions)
            } else {
                Seq::empty()
            },
            None => Seq::empty(),
        };
        here + main_candidates_from(dir, manifest, options, i + 1)
    }
}

/// The paths that are tried for `dir` as a directory, in order: what the
/// main fields of its manifest name, then its index file. A manifest that
/// cannot be read or is not valid names nothing.
pub open spec fn directory_candidates(
    dir: Seq<char>,
    manifest: Result<PackageJSONView, ErrorView>,
    options: OptionsView,
) -> Seq<Seq<char>> {
    (match manifest {
        Ok(m) => main_candidates_from(dir, m, options, 0),
        Err(_) => Seq::empty(),
    }) + file_candidates(path_join(dir, "index"@), options.extensions)
}

/// What the search for `dir` as a directory returns.
pub open spec fn load_as_directory(
    fs: FileFactsView,
    dir: Seq<char>,
    options: OptionsView,
) -> Found {
    match manifest_at(fs, path_join(dir, "package.json"@)) {
        Err(q) => Err(q),
        Ok(manifest) => first_file(fs, directory_candidates(dir, manifest, options)),
    }
}

/// A path that was found, cleaned.
pub open spec fn cleaned_found(found: Found) -> Found {
    match found {
        Ok(Some(p)) => Ok(Some(path_cleaned(p))),
        other => other,
    }
}

/// What the search for `abs` returns, as a file and then as a directory;
/// the path that is found is cleaned.
pub open spec fn load_as_relative(
    fs: FileFactsView,
    abs: Seq<char>,
    options: OptionsView,
) -> Found {
    match load_as_file(fs, abs, options.extensions) {
        Ok(None) => cleaned_found(load_as_directory(fs, abs, options)),
        other => cleaned_found(other),
    }
}

/// What the `exports` of the package that `name` begins with resolve `name`
/// to, the package looked for in the directory `node_modules_dir`.
pub open spec fn load_package_exports(
    fs: FileFactsView,
    node_modules_dir: Seq<char>,
    name: Seq<char>,
    conditions: Seq<Seq<char>>,
) -> Outcome {
    match split_package_name(name) {
        Err(e) => Ok(Err(e)),
        Ok(parts) => {
            let package_json_path = path_join(
                path_join(node_modules_dir, parts.0),
                "package.json"@,
            );
            match manifest_at(fs, package_json_path) {
                Err(q) => Err(q),
                Ok(Err(e)) => Ok(Err(e)),
                Ok(Ok(manifest)) => Ok(
                    exports_resolution(
                        package_json_path,
                        manifest.exports,
                        "."@ + parts.1,
                        conditions,
                    ),
                ),
            }
        },
    }
}

/// Whether the walk through the `node_modules` directories goes on after
/// this error of one of them: the package is not there.
pub open spec fn is_passed_over(e: ErrorView) -> bool {
    e is InvalidModuleSpecifier || e is IOError
}

/// What the search for `name` below one `node_modules` directory returns
/// once the `exports` of the package resolved nothing: `name` as a file,
/// then as a directory.
pub open spec fn load_from_directory(
    fs: FileFactsView,
    node_modules_dir: Seq<char>,
    name: Seq<char>,
    options: OptionsView,
) -> Found {
    match load_as_file(fs, path_join(node_modules_dir, name), options.extensions) {
        Ok(None) => load_as_directory(fs, path_join(node_modules_dir, name), options),
        other => other,
    }
}

/// What the search for `name` in the `node_modules` directories of `dir`
/// and of the directories above it returns.
pub open spec fn load_node_modules(
    fs: FileFactsView,
    dir: Seq<char>,
    name: Seq<char>,
    options: OptionsView,
) -> Outcome
    decreases dir.len(),
{
    let node_modules_dir = path_join(dir, "node_modules"@);
    match load_package_exports(fs, node_modules_dir, name, options.conditions) {
        Err(q) => Err(q),
        Ok(Ok(Some(p))) => Ok(Ok(Some(p))),
        Ok(Err(e)) if !is_passed_over(e) => Ok(Err(e)),
        _ => match load_from_directory(fs, node_modules_dir, name, options) {
            Err(q) => Err(q),
            Ok(Some(p)) => Ok(Ok(Some(p))),
            Ok(None) => match path_parent(dir) {
                Some(up) => if up.len() < dir.len() {
                    load_node_modules(fs, up, name, options)
                } else {
                    Ok(Ok(None))
                },
                None => Ok(Ok(None)),
            },
        },
    }
}

/// A resolution that is to be made, as plain values.
pub struct ResolverView {
    pub target: Seq<char>,
    pub from: Seq<char>,
    pub env: TargetEnv,
    pub options: OptionsView,
}

/// What a resolution returns: the resolved path or the error, or the
/// question that has to be answered first.
pub type Resolved = Result<Result<Seq<char>, ErrorView>, QueryView>;

/// A configuration that was looked for.
pub type Config = Result<Result<Option<TSConfigView>, ErrorView>, QueryView>;

/// What a specifier resolves to without a look at the disk: for Node.js, a
/// specifier that begins with `node:` is its own answer, and the name of a
/// core module is answered with `node:` before it.
pub open spec fn core_module_answer(target: Seq<char>, env: TargetEnv) -> Option<Seq<char>> {
    match env {
        TargetEnv::Node => if "node:"@.is_prefix_of(target) {
            Some(target)
        } else if is_core_module(target) {
            Some("node:"@ + target)
        } else {
            None
        },
        TargetEnv::Browser => None,
    }
}

/// Whether a specifier names a path, not a package: it begins with a dot
/// or a slash.
pub open spec fn is_path_specifier(target: Seq<char>) -> bool {
    target.len() > 0 && (target[0] == '.' || target[0] == '/')
}

/// The text of the error for an importing file that has no canonical form.
pub open spec fn unresolved_from_message(from: Seq<char>) -> Seq<char> {
    "Cannot resolve from file "@ + from + ". Does the file exist?"@
}

/// The error for a specifier that nothing resolved.
pub open spec fn not_found(target: Seq<char>, from: Seq<char>) -> ErrorView {
    ErrorView::ModuleNotFound("Cannot resolve "@ + target + " from "@ + from)
}

/// The canonical form of the importing file.
pub open spec fn canonical_from(fs: FileFactsView, from: Seq<char>) -> Result<
    Result<Seq<char>, ErrorView>,
    QueryView,
> {
    match fs.canonical_of(from) {
        None => Err(QueryView::Canonicalize(from)),
        Some(None) => Ok(Err(ErrorView::IOError(unresolved_from_message(from)))),
        Some(Some(f)) => Ok(Ok(f)),
    }
}

/// What a path specifier resolves to: the specifier beside the importing
/// file, as a file or as a directory.
pub open spec fn resolve_path_specifier(
    fs: FileFactsView,
    abs_from: Seq<char>,
    r: ResolverView,
) -> Resolved {
    match load_as_relative(fs, path_with_file_name(abs_from, r.target), r.options) {
        Err(q) => Err(q),
        Ok(Some(p)) => Ok(Ok(p)),
        Ok(None) => Ok(Err(not_found(r.target, r.from))),
    }
}

/// What a package specifier resolves to in the `node_modules` directories
/// at and above the importing file. An error of the walk is the error of
/// the resolution.
pub open spec fn resolve_in_node_modules(
    fs: FileFactsView,
    abs_from: Seq<char>,
    r: ResolverView,
) -> Resolved {
    match path_parent(abs_from) {
        None => Ok(Err(not_found(r.target, r.from))),
        Some(dir) => match load_node_modules(fs, dir, r.target, r.options) {
            Err(q) => Err(q),
            Ok(Ok(Some(p))) => Ok(Ok(path_cleaned(p))),
            Ok(Ok(None)) => Ok(Err(not_found(r.target, r.from))),
            Ok(Err(e)) => Ok(Err(e)),
        },
    }
}

/// What a resolution returns that reads no TypeScript configuration.
pub open spec fn resolve_plain(fs: FileFactsView, r: ResolverView) -> Resolved {
    match core_module_answer(r.target, r.env) {
        Some(answer) => Ok(Ok(answer)),
        None => match canonical_from(fs, r.from) {
            Err(q) => Err(q),
            Ok(Err(e)) => Ok(Err(e)),
            Ok(Ok(abs_from)) => if is_path_specifier(r.target) {
                resolve_path_specifier(fs, abs_from, r)
            } else {
                resolve_in_node_modules(fs, abs_from, r)
            },
        },
    }
}

/// A configuration as it is once read from the file at `path`: its
/// `baseUrl` stands beside that file.
pub open spec fn rebased(config: TSConfigView, path: Seq<char>) -> TSConfigView {
    TSConfigView {
        extends: config.extends,
        compiler_options: TSConfigCompilerOptionsView {
            base_url: match config.compiler_options.base_url {
                Some(url) => Some(path_with_file_name(path, url)),
                None => None,
            },
            paths: config.compiler_options.paths,
        },
    }
}

/// A configuration with what it inherits: `baseUrl` and `paths` are those of
/// `child` where it has them, else those of `parent`.
pub open spec fn merged(child: TSConfigView, parent: TSConfigView) -> TSConfigView {
    TSConfigView {
        extends: child.extends,
        compiler_options: TSConfigCompilerOptionsView {
            base_url: match child.compiler_options.base_url {
                Some(url) => Some(url),
                None => parent.compiler_options.base_url,
            },
            paths: match child.compiler_options.paths {
                Some(paths) => Some(paths),
                None => parent.compiler_options.paths,
            },
        },
    }
}

/// What both configurations define is taken from the child, field by
/// field; what the child leaves out is taken from the parent.
pub proof fn lemma_child_takes_precedence(child: TSConfigView, parent: TSConfigView)
    ensures
        child.compiler_options.base_url is Some ==> merged(child, parent).compiler_options.base_url
            == child.compiler_options.base_url,
        child.compiler_options.paths is Some ==> merged(child, parent).compiler_options.paths
            == child.compiler_options.paths,
        child.compiler_options.base_url is None ==> merged(child, parent).compiler_options.base_url
            == parent.compiler_options.base_url,
        child.compiler_options.paths is None ==> merged(child, parent).compiler_options.paths
            == parent.compiler_options.paths,
{
}

/// The options that the `extends` of a configuration is resolved with: the
/// only extension is `json`.
pub open spec fn extends_options(options: OptionsView) -> OptionsView {
    OptionsView {
        main_fields: options.main_fields,
        conditions: options.conditions,
        extensions: seq![Extensions::Json],
    }
}

/// The text of the error for a configuration that is not valid.
pub open spec fn invalid_config_message(path: Seq<char>) -> Seq<char> {
    "The configuration at "@ + path + " is not valid."@
}

/// The text of the error for an `extends` that leads to no configuration.
pub open spec fn dangling_extends_message(path: Seq<char>) -> Seq<char> {
    "The 'extends' of "@ + path
        + " does not resolve to a valid JSON module. Is the specifier correct?"@
}

/// The text of the error for a chain of `extends` that comes back to the
/// file at `path`.
pub open spec fn endless_extends_message(path: Seq<char>) -> Seq<char> {
    "The 'extends' chain comes back to "@ + path + " and does not end."@
}

/// The number of recorded texts whose path is not among `visited`.
pub open spec fn unvisited(
    texts: Seq<(Seq<char>, Option<Seq<char>>)>,
    visited: Seq<Seq<char>>,
) -> nat
    decreases texts.len(),
{
    if texts.len() == 0 {
        0
    } else {
        unvisited(texts.drop_last(), visited) + if visited.contains(texts.last().0) {
            0nat
        } else {
            1nat
        }
    }
}

/// One more visited path leaves no more texts unvisited.
pub proof fn lemma_unvisited_shrinks(
    texts: Seq<(Seq<char>, Option<Seq<char>>)>,
    visited: Seq<Seq<char>>,
    path: Seq<char>,
)
    ensures
        unvisited(texts, visited.push(path)) <= unvisited(texts, visited),
    decreases texts.len(),
{
    if texts.len() > 0 {
        lemma_unvisited_shrinks(texts.drop_last(), visited, path);
        let key = texts.last().0;
        if visited.contains(key) {
            let i = choose|i: int| 0 <= i < visited.len() && visited[i] == key;
            assert(visited.push(path)[i] == key);
        }
    }
}

/// A path whose text is recorded, and which was not visited, leaves fewer
/// texts unvisited once it is.
pub proof fn lemma_visit_leaves_fewer(
    texts: Seq<(Seq<char>, Option<Seq<char>>)>,
    visited: Seq<Seq<char>>,
    path: Seq<char>,
    i: int,
)
    requires
        0 <= i <= texts.len(),
        lookup_from(texts, path, i) is Some,
        !visited.contains(path),
    ensures
        unvisited(texts, visited.push(path)) < unvisited(texts, visited),
    decreases texts.len(),
{
    let more = visited.push(path);
    assert(more[visited.len() as int] == path);
    if texts.len() > 0 {
        let front = texts.drop_last();
        let key = texts.last().0;
        if key == path {
            lemma_unvisited_shrinks(front, visited, path);
        } else {
            if visited.contains(key) {
                let k = choose|k: int| 0 <= k < visited.len() && visited[k] == key;
                assert(more[k] == key);
            }
            lemma_lookup_drop_last(texts, path, i);
            lemma_visit_leaves_fewer(front, visited, path, if i < front.len() {
                i
            } else {
                front.len() as int
            });
        }
    }
}

/// A lookup that finds a key finds it before the last entry, unless the
/// last entry has that key.
pub proof fn lemma_lookup_drop_last<V>(entries: Seq<(Seq<char>, V)>, key: Seq<char>, i: int)
    requires
        0 <= i <= entries.len(),
        entries.len() > 0,
        entries.last().0 != key,
        lookup_from(entries, key, i) is Some,
    ensures
        i < entries.len() - 1,
        lookup_from(entries.drop_last(), key, i) is Some,
    decreases entries.len() - i,
{
    if i < entries.len() - 1 {
        if entries[i].0 != key {
            lemma_lookup_drop_last(entries, key, i + 1);
        }
    } else if i == entries.len() - 1 {
        assert(lookup_from(entries, key, i + 1) is None);
    }
}

/// The configuration in the file at `path`, with what it inherits through
/// `extends`. A file that cannot be read holds none. `visited` holds the
/// files that the chain of `extends` has passed through: a chain that
/// comes back to one of them is an error. The `extends` is resolved as a
/// Node.js specifier from the file that holds it, with `json` as the only
/// extension and without a look at any TypeScript configuration; it is an
/// error where that resolution fails, and where what it resolves to cannot
/// be read.
pub open spec fn parse_tsconfig(
    fs: FileFactsView,
    path: Seq<char>,
    options: OptionsView,
    visited: Seq<Seq<char>>,
) -> Config
    decreases unvisited(fs.texts, visited),
{
    if visited.contains(path) {
        Ok(Err(ErrorView::InvalidTSConfigExtend(endless_extends_message(path))))
    } else {
        match fs.text(path) {
            None => Err(QueryView::ReadFile(path)),
            Some(None) => Ok(Ok(None)),
            Some(Some(text)) => match tsconfig_of_text(text) {
                None => Ok(Err(ErrorView::InvalidTSConfig(invalid_config_message(path)))),
                Some(read) => {
                    let config = rebased(read, path);
                    match config.extends {
                        None => Ok(Ok(Some(config))),
                        Some(extends) => match resolve_plain(
                            fs,
                            ResolverView {
                                target: extends,
                                from: path,
                                env: TargetEnv::Node,
                                options: extends_options(options),
                            },
                        ) {
                            Err(q) => Err(q),
                            Ok(Err(_)) => Ok(
                                Err(
                                    ErrorView::InvalidTSConfigExtend(
                                        dangling_extends_message(path),
                                    ),
                                ),
                            ),
                            Ok(Ok(parent_path)) => {
                                proof {
                                    lemma_visit_leaves_fewer(fs.texts, visited, path, 0);
                                }
                                match parse_tsconfig(
                                    fs,
                                    parent_path,
                                    options,
                                    visited.push(path),
                                ) {
                                    Err(q) => Err(q),
                                    Ok(Err(e)) => Ok(Err(e)),
                                    Ok(Ok(None)) => Ok(
                                        Err(
                                            ErrorView::InvalidTSConfigExtend(
                                                dangling_extends_message(path),
                                            ),
                                        ),
                                    ),
                                    Ok(Ok(Some(parent))) => Ok(Ok(Some(merged(config, parent)))),
                                }
                            },
                        },
                    }
                },
            },
        }
    }
}

/// The configuration of the directory `dir`: its `tsconfig.json`, else its
/// `jsconfig.json`.
pub open spec fn tsconfig_in(fs: FileFactsView, dir: Seq<char>, options: OptionsView) -> Config {
    match parse_tsconfig(fs, path_join(dir, "tsconfig.json"@), options, Seq::empty()) {
        Ok(Ok(None)) => parse_tsconfig(
            fs,
            path_join(dir, "jsconfig.json"@),
            options,
            Seq::empty(),
        ),
        other => other,
    }
}

/// The configuration of the nearest directory, from `dir` upwards, that has
/// one.
pub open spec fn resolve_tsconfig_from(
    fs: FileFactsView,
    dir: Seq<char>,
    options: OptionsView,
) -> Config
    decreases dir.len(),
{
    match tsconfig_in(fs, dir, options) {
        Ok(Ok(None)) => match path_parent(dir) {
            Some(up) => if up.len() < dir.len() {
                resolve_tsconfig_from(fs, up, options)
            } else {
                Ok(Ok(None))
            },
            None => Ok(Ok(None)),
        },
        other => other,
    }
}

/// The configuration that governs the file `from`.
pub open spec fn resolve_tsconfig(
    fs: FileFactsView,
    from: Seq<char>,
    options: OptionsView,
) -> Config {
    match path_parent(from) {
        Some(dir) => resolve_tsconfig_from(fs, dir, options),
        None => Ok(Ok(None)),
    }
}

/// The paths that the `paths` of a configuration offer for `target`: none
/// where there is no configuration or it has no `paths`. A configuration
/// without a `baseUrl` is read as one with `.`.
pub open spec fn config_candidates(config: Option<TSConfigView>, target: Seq<char>) -> Seq<
    Seq<char>,
> {
    match config {
        Some(c) => match c.compiler_options.paths {
            Some(paths) => paths_candidates(
                match c.compiler_options.base_url {
                    Some(url) => url,
                    None => "."@,
                },
                paths,
                target,
            ),
            None => Seq::empty(),
        },
        None => Seq::empty(),
    }
}

/// The first of `candidates`, from position `i` on, that is found as a
/// file or as a directory.
pub open spec fn first_relative_from(
    fs: FileFactsView,
    candidates: Seq<Seq<char>>,
    options: OptionsView,
    i: int,
) -> Found
    decreases candidates.len() - i,
{
    if i < 0 || i >= candidates.len() {
        Ok(None)
    } else {
        match load_as_relative(fs, candidates[i], options) {
            Ok(None) => first_relative_from(fs, candidates, options, i + 1),
            other => other,
        }
    }
}

/// What a package specifier resolves to: what the `paths` of the governing
/// TypeScript configuration offer, else what the `node_modules` directories
/// hold. An error of the configuration is the error of the resolution.
pub open spec fn resolve_package_specifier(
    fs: FileFactsView,
    abs_from: Seq<char>,
    r: ResolverView,
) -> Resolved {
    match resolve_tsconfig(fs, r.from, r.options) {
        Err(q) => Err(q),
        Ok(Err(e)) => Ok(Err(e)),
        Ok(Ok(config)) => match first_relative_from(
            fs,
            config_candidates(config, r.target),
            r.options,
            0,
        ) {
            Err(q) => Err(q),
            Ok(Some(p)) => Ok(Ok(p)),
            Ok(None) => resolve_in_node_modules(fs, abs_from, r),
        },
    }
}

/// What a resolution returns.
pub open spec fn resolve(fs: FileFactsView, r: ResolverView) -> Resolved {
    match core_module_answer(r.target, r.env) {
        Some(answer) => Ok(Ok(answer)),
        None => match canonical_from(fs, r.from) {
            Err(q) => Err(q),
            Ok(Err(e)) => Ok(Err(e)),
            Ok(Ok(abs_from)) => if is_path_specifier(r.target) {
                resolve_path_specifier(fs, abs_from, r)
            } else {
                resolve_package_specifier(fs, abs_from, r)
            },
        },
    }
}

/// What a resolution returns, with or without a look at the TypeScript
/// configuration.
pub open spec fn resolve_impl(fs: FileFactsView, r: ResolverView, is_tsconfig: bool) -> Resolved {
    if is_tsconfig {
        resolve_plain(fs, r)
    } else {
        resolve(fs, r)
    }
}

/// For Node.js, the name of a core module and a specifier that begins with
/// `node:` resolve without a look at the disk: whatever is recorded, the
/// resolution asks nothing and returns the same answer.
pub proof fn lemma_core_modules_need_no_disk(
    fs: FileFactsView,
    other: FileFactsView,
    r: ResolverView,
)
    requires
        r.env == TargetEnv::Node,
        is_core_module(r.target) || "node:"@.is_prefix_of(r.target),
    ensures
        resolve(fs, r) is Ok,
        resolve(fs, r) == resolve(other, r),
        resolve(fs, r) == Ok::<Result<Seq<char>, ErrorView>, QueryView>(
            Ok(
                if "node:"@.is_prefix_of(r.target) {
                    r.target
                } else {
                    "node:"@ + r.target
                },
            ),
        ),
{
}

/// A resolution is a function of what is recorded of the disk and of the
/// specifier, the importing file, the environment and the options: equal
/// inputs give equal results.
pub proof fn lemma_resolution_is_determined(
    fs: FileFactsView,
    r: ResolverView,
    other_fs: FileFactsView,
    other_r: ResolverView,
)
    requires
        fs == other_fs,
        r.target == other_r.target,
        r.from == other_r.from,
        r.env == other_r.env,
        r.options == other_r.options,
    ensures
        resolve(fs, r) == resolve(other_fs, other_r),
{
}

/// A specifier that names a path is answered from the disk in every
/// environment: it is no core module, and it does not begin with `node:`.
pub proof fn lemma_path_specifier_is_no_core_module(target: Seq<char>, env: TargetEnv)
    requires
        is_path_specifier(target),
    ensures
        core_module_answer(target, env) is None,
{
    reveal_strlit("node:");
    if is_core_module(target) {
        lemma_core_module_is_no_path(target);
    }
    if "node:"@.is_prefix_of(target) {
        assert(target[0] == "node:"@[0]);
    }
}

} // verus!
