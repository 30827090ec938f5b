//! The resolver: a specifier, the file that holds it, the environment that
//! it is resolved for, and the procedures that resolve it against the
//! recorded answers about the disk.

use vstd::prelude::*;
use vstd::string::*;
use crate::data::is_node_core_module;
use crate::exports::{parse_package_name, resolve_exports, resolved_view};
use crate::facts::{FileFacts, Query, QueryView};
use crate::knowledge::lemma_resolve_settled;
use crate::manifest::{PackageJSON, PackageJSONView};
use crate::paths::{clean_path, join_path, parent_path, path_cleaned, with_file_name};
use crate::resolution::{
    directory_candidates, extension_candidates, file_candidates, first_file, first_file_from,
    first_relative_from, lemma_first_file_concat, lemma_first_file_shift, lemma_visit_leaves_fewer,
    main_candidates_from, manifest_at, rewritten_candidates, unvisited, Config, Found, Outcome,
    Resolved, ResolverView,
};
use crate::text::{
    char_len, concat, concat3, list_contains, optional_text, str_begins_with_char, str_ends_with,
    str_starts_with,
};
use crate::tsconfig::{
    paths_entries, TSConfig, TSConfigCompilerOptions, TSConfigPaths, TSConfigView,
};
use crate::tspaths::{match_tsconfig_paths, paths_candidates};
use crate::types::{
    copy_strings, copy_values, default_options, texts, ErrorView, EsResolveOptions,
    EsResolverError, EsResolverResult, Extensions, TargetEnv,
};

verus! {

/// A resolution that is to be made.
#[derive(Debug)]
pub struct EsResolver<'a> {
    /// The specifier, as it is written in the importing file.
    pub target: &'a str,
    /// The path of the importing file.
    pub from: &'a str,
    /// The environment that the module is resolved for.
    pub env: TargetEnv,
    /// The priorities that the resolution follows.
    pub options: EsResolveOptions,
}

impl<'a> View for EsResolver<'a> {
    type V = ResolverView;

    open spec fn view(&self) -> ResolverView {
        ResolverView {
            target: self.target@,
            from: self.from@,
            env: self.env,
            options: self.options@,
        }
    }
}

/// What a search returned, as plain values.
pub open spec fn found_view(r: Result<Option<String>, Query>) -> Found {
    match r {
        Ok(Some(p)) => Ok(Some(p@)),
        Ok(None) => Ok(None),
        Err(q) => Err(q@),
    }
}

/// The paths that `abs` may have been rewritten from.
pub fn rewritten_paths(abs: &str) -> (r: Vec<String>)
    ensures
        texts(r@) == rewritten_candidates(abs@),
{
    proof {
        reveal_strlit(".js");
        reveal_strlit(".jsx");
        reveal_strlit(".cjs");
        reveal_strlit(".mjs");
    }
    let n = char_len(abs);
    let mut out: Vec<String> = Vec::new();
    if str_ends_with(abs, ".js") {
        let stem = abs.substring_char(0, n - 3);
        out.push(concat(stem, ".ts"));
        out.push(concat(stem, ".tsx"));
    } else if str_ends_with(abs, ".jsx") {
        let stem = abs.substring_char(0, n - 4);
        out.push(concat(stem, ".tsx"));
    } else if str_ends_with(abs, ".cjs") {
        let stem = abs.substring_char(0, n - 4);
        out.push(concat(stem, ".cts"));
    } else if str_ends_with(abs, ".mjs") {
        let stem = abs.substring_char(0, n - 4);
        out.push(concat(stem, ".mts"));
    }
    out
}

/// The first of `candidates` that is a file.
pub fn find_first_file(
    fs: &FileFacts,
    candidates: &Vec<String>,
) -> (r: Result<Option<String>, Query>)
    ensures
        found_view(r) == first_file(fs@, texts(candidates@)),
{
    let ghost cs = texts(candidates@);
    let mut i: usize = 0;
    while i < candidates.len()
        invariant
            i <= candidates.len(),
            cs == texts(candidates@),
            first_file(fs@, cs) == first_file_from(fs@, cs, i as int),
        decreases candidates.len() - i,
    {
        if fs.is_file(candidates[i].as_str())? {
            return Ok(Some(candidates[i].clone()));
        }
        i += 1;
    }
    Ok(None)
}

/// What a search that can fail returned, as plain values.
pub open spec fn outcome_view(
    r: Result<EsResolverResult<Option<String>>, Query>,
) -> Outcome {
    match r {
        Ok(inner) => Ok(resolved_view(inner)),
        Err(q) => Err(q@),
    }
}

/// What a resolution returned, as plain values.
pub open spec fn resolution_view(r: Result<EsResolverResult<String>, Query>) -> Resolved {
    match r {
        Ok(Ok(p)) => Ok(Ok(p@)),
        Ok(Err(e)) => Ok(Err(e@)),
        Err(q) => Err(q@),
    }
}

/// The view of an optional configuration.
pub open spec fn optional_config(c: Option<TSConfig>) -> Option<TSConfigView> {
    match c {
        Some(c) => Some(c@),
        None => None,
    }
}

/// What the reading of a configuration returned, as plain values.
pub open spec fn config_view(
    r: Result<EsResolverResult<Option<TSConfig>>, Query>,
) -> Config {
    match r {
        Ok(Ok(c)) => Ok(Ok(optional_config(c))),
        Ok(Err(e)) => Ok(Err(e@)),
        Err(q) => Err(q@),
    }
}

/// What the reading of a manifest returned, as plain values.
pub open spec fn manifest_view(r: Result<EsResolverResult<PackageJSON>, Query>) -> Result<
    Result<PackageJSONView, ErrorView>,
    QueryView,
> {
    match r {
        Ok(Ok(m)) => Ok(Ok(m@)),
        Ok(Err(e)) => Ok(Err(e@)),
        Err(q) => Err(q@),
    }
}

impl<'a> EsResolver<'a> {
    /// A resolution of `target` from the file `from` with the options that
    /// `env` has by default.
    pub fn new(target: &'a str, from: &'a str, env: TargetEnv) -> (r: Self)
        ensures
            r@ == (ResolverView {
                target: target@,
                from: from@,
                env,
                options: default_options(env),
            }),
    {
        EsResolver { target, from, env, options: EsResolveOptions::default_for(env) }
    }

    /// A resolution of `target` from the file `from` with a copy of
    /// `options`.
    pub fn with_options(
        target: &'a str,
        from: &'a str,
        env: TargetEnv,
        options: &EsResolveOptions,
    ) -> (r: Self)
        ensures
            r@ == (ResolverView { target: target@, from: from@, env, options: options@ }),
    {
        EsResolver { target, from, env, options: options.clone() }
    }

    /// `abs_to` with `extension` appended behind a dot, where that is a file.
    pub fn try_extension(fs: &FileFacts, abs_to: &str, extension: &Extensions) -> (r: Result<
        Option<String>,
        Query,
    >)
        ensures
            found_view(r) == crate::resolution::try_extension(fs@, abs_to@, *extension),
    {
        let candidate = concat3(abs_to, ".", extension.to_str());
        if fs.is_file(candidate.as_str())? {
            Ok(Some(candidate))
        } else {
            Ok(None)
        }
    }

    /// Looks for `abs_to` as a file: as it stands, with each of
    /// `extensions`, and as what it may have been rewritten from.
    pub fn load_as_file(&self, fs: &FileFacts, abs_to: &str, extensions: &Vec<Extensions>) -> (r:
        Result<Option<String>, Query>)
        ensures
            found_view(r) == crate::resolution::load_as_file(fs@, abs_to@, extensions@),
    {
        let ghost cs = file_candidates(abs_to@, extensions@);
        let ghost head = seq![abs_to@] + extension_candidates(abs_to@, extensions@);
        if fs.is_file(abs_to)? {
            return Ok(Some(String::from_str(abs_to)));
        }
        let mut i: usize = 0;
        while i < extensions.len()
            invariant
                i <= extensions.len(),
                cs == file_candidates(abs_to@, extensions@),
                first_file(fs@, cs) == first_file_from(fs@, cs, 1 + i),
            decreases extensions.len() - i,
        {
            match Self::try_extension(fs, abs_to, &extensions[i])? {
                Some(p) => {
                    return Ok(Some(p));
                },
                None => {},
            }
            i += 1;
        }
        let rewritten = rewritten_paths(abs_to);
        proof {
            lemma_first_file_shift(fs@, head, rewritten_candidates(abs_to@), 0);
        }
        find_first_file(fs, &rewritten)
    }

    /// Looks for the index file of the directory `abs_to`.
    pub fn load_index(&self, fs: &FileFacts, abs_to: &str) -> (r: Result<Option<String>, Query>)
        ensures
            found_view(r) == crate::resolution::load_index(fs@, abs_to@, self@.options.extensions),
    {
        let with_index = join_path(abs_to, "index");
        self.load_as_file(fs, with_index.as_str(), &self.options.extensions)
    }

    /// Reads the manifest at `p`.
    pub fn load_package_json(
        fs: &FileFacts,
        p: &str,
    ) -> (r: Result<EsResolverResult<PackageJSON>, Query>)
        ensures
            manifest_view(r) == manifest_at(fs@, p@),
    {
        match fs.read(p)? {
            Some(text) => match PackageJSON::parse(text.as_str()) {
                Some(manifest) => Ok(Ok(manifest)),
                None => {
                    let message = concat3("The package.json at ", p, " is not a valid manifest.");
                    Ok(Err(EsResolverError::InvalidPackageJSON(message)))
                },
            },
            None => Ok(Err(EsResolverError::IOError(concat("Can't read package.json at ", p)))),
        }
    }

    /// Looks for `abs_to` as a directory: for what the main fields of its
    /// manifest name, then for its index file.
    pub fn load_as_directory(&self, fs: &FileFacts, abs_to: &str) -> (r: Result<
        Option<String>,
        Query,
    >)
        ensures
            found_view(r) == crate::resolution::load_as_directory(fs@, abs_to@, self@.options),
    {
        let package_json_path = join_path(abs_to, "package.json");
        let manifest = Self::load_package_json(fs, package_json_path.as_str())?;
        let ghost options = self@.options;
        let ghost index = file_candidates(
            crate::paths::path_join(abs_to@, "index"@),
            options.extensions,
        );
        let ghost all = directory_candidates(abs_to@, manifest_view(Ok(manifest))->Ok_0, options);
        let ghost goal = crate::resolution::load_as_directory(fs@, abs_to@, options);
        match &manifest {
            Ok(package) => {
                let mut i: usize = 0;
                while i < self.options.main_fields.len()
                    invariant
                        i <= self.options.main_fields.len(),
                        options == self@.options,
                        goal == crate::resolution::load_as_directory(fs@, abs_to@, options),
                        goal == first_file(fs@, all),
                        index == file_candidates(
                            crate::paths::path_join(abs_to@, "index"@),
                            options.extensions,
                        ),
                        first_file(fs@, all) == first_file(
                            fs@,
                            main_candidates_from(abs_to@, package@, options, i as int) + index,
                        ),
                    decreases self.options.main_fields.len() - i,
                {
                    let field = self.options.main_fields[i];
                    let ghost rest = main_candidates_from(abs_to@, package@, options, i + 1);
                    let ghost here = match package@.main_field(field) {
                        Some(entry) => if entry.len() > 0 {
                            file_candidates(
                                crate::paths::path_join(abs_to@, entry),
                                options.extensions,
                            )
                        } else {
                            Seq::empty()
                        },
                        None => Seq::empty(),
                    };
                    proof {
                        assert((here + rest) + index =~= here + (rest + index));
                        lemma_first_file_concat(fs@, here, rest + index);
                    }
                    match package.get_main_field(&field) {
                        Some(path) => {
                            if char_len(path.as_str()) > 0 {
                                let target = join_path(abs_to, path.as_str());
                                match self.load_as_file(
                                    fs,
                                    target.as_str(),
                                    &self.options.extensions,
                                )? {
                                    Some(p) => {
                                        return Ok(Some(p));
                                    },
                                    None => {},
                                }
                            }
                        },
                        None => {},
                    }
                    i += 1;
                }
            },
            Err(_) => {
            },
        }
        self.load_index(fs, abs_to)
    }

    /// Looks for `abs_to` as a file, then as a directory, and cleans the
    /// path that it finds.
    pub fn load_as_relative(
        &self,
        fs: &FileFacts,
        abs_to: &str,
    ) -> (r: Result<Option<String>, Query>)
        ensures
            found_view(r) == crate::resolution::load_as_relative(fs@, abs_to@, self@.options),
            r matches Ok(Some(p)) ==> path_cleaned(p@) == p@ && p@.len() > 0,
    {
        match self.load_as_file(fs, abs_to, &self.options.extensions)? {
            Some(p) => {
                return Ok(Some(clean_path(p.as_str())));
            },
            None => {},
        }
        match self.load_as_directory(fs, abs_to)? {
            Some(p) => Ok(Some(clean_path(p.as_str()))),
            None => Ok(None),
        }
    }

    /// Resolves `name` through the `exports` of its package, which is looked
    /// for in `node_modules_dir`.
    pub fn load_package_exports(&self, fs: &FileFacts, node_modules_dir: &str, name: &str) -> (r:
        Result<EsResolverResult<Option<String>>, Query>)
        ensures
            outcome_view(r) == crate::resolution::load_package_exports(
                fs@,
                node_modules_dir@,
                name@,
                self@.options.conditions,
            ),
    {
        let (package_name, rest) = match parse_package_name(name) {
            Ok(parts) => parts,
            Err(e) => {
                return Ok(Err(e));
            },
        };
        let package_subpath = concat(".", rest);
        let package_dir = join_path(node_modules_dir, package_name);
        let package_json_path = join_path(package_dir.as_str(), "package.json");
        match Self::load_package_json(fs, package_json_path.as_str())? {
            Ok(manifest) => Ok(
                resolve_exports(
                    package_json_path.as_str(),
                    &manifest.exports,
                    package_subpath.as_str(),
                    &self.options.conditions,
                ),
            ),
            Err(e) => Ok(Err(e)),
        }
    }

    /// Looks for `name` in the `node_modules` directories of `from_dir` and
    /// of the directories above it, the nearest first.
    pub fn load_node_modules(&self, fs: &FileFacts, from_dir: &str, name: &str) -> (r: Result<
        EsResolverResult<Option<String>>,
        Query,
    >)
        ensures
            outcome_view(r) == crate::resolution::load_node_modules(
                fs@,
                from_dir@,
                name@,
                self@.options,
            ),
    {
        let ghost goal = crate::resolution::load_node_modules(
            fs@,
            from_dir@,
            name@,
            self@.options,
        );
        let mut cur_dir = String::from_str(from_dir);
        loop
            invariant
                goal == crate::resolution::load_node_modules(fs@, from_dir@, name@, self@.options),
                goal == crate::resolution::load_node_modules(fs@, cur_dir@, name@, self@.options),
            decreases cur_dir@.len(),
        {
            let node_modules_dir = join_path(cur_dir.as_str(), "node_modules");
            match self.load_package_exports(fs, node_modules_dir.as_str(), name)? {
                Ok(Some(p)) => {
                    return Ok(Ok(Some(p)));
                },
                Ok(None) => {},
                Err(e) => {
                    match e {
                        EsResolverError::InvalidModuleSpecifier(_) => {},
                        EsResolverError::IOError(_) => {},
                        _ => {
                            return Ok(Err(e));
                        },
                    }
                },
            }
            let module_base = join_path(node_modules_dir.as_str(), name);
            match self.load_as_file(fs, module_base.as_str(), &self.options.extensions)? {
                Some(p) => {
                    return Ok(Ok(Some(p)));
                },
                None => {},
            }
            match self.load_as_directory(fs, module_base.as_str())? {
                Some(p) => {
                    return Ok(Ok(Some(p)));
                },
                None => {},
            }
            match parent_path(cur_dir.as_str()) {
                Some(up) => {
                    cur_dir = up;
                },
                None => {
                    return Ok(Ok(None));
                },
            }
        }
    }

    /// What the specifier resolves to without a look at the disk.
    pub fn core_module_answer(&self) -> (r: Option<String>)
        ensures
            optional_text(r) == crate::resolution::core_module_answer(self@.target, self@.env),
    {
        match self.env {
            TargetEnv::Node => {
                if str_starts_with(self.target, "node:") {
                    Some(String::from_str(self.target))
                } else if is_node_core_module(self.target) {
                    Some(concat("node:", self.target))
                } else {
                    None
                }
            },
            TargetEnv::Browser => None,
        }
    }

    /// The error for a specifier that nothing resolved.
    pub fn not_found(&self) -> (r: EsResolverError)
        ensures
            r@ == crate::resolution::not_found(self@.target, self@.from),
    {
        let mut message = concat("Cannot resolve ", self.target);
        message.append(" from ");
        message.append(self.from);
        EsResolverError::ModuleNotFound(message)
    }

    /// The canonical form of the importing file.
    pub fn canonical_from(
        &self,
        fs: &FileFacts,
    ) -> (r: Result<EsResolverResult<String>, Query>)
        ensures
            resolution_view(r) == crate::resolution::canonical_from(fs@, self@.from),
    {
        match fs.canonicalize(self.from)? {
            Some(abs_from) => Ok(Ok(abs_from)),
            None => {
                let message = concat3(
                    "Cannot resolve from file ",
                    self.from,
                    ". Does the file exist?",
                );
                Ok(Err(EsResolverError::IOError(message)))
            },
        }
    }

    /// Resolves a specifier that names a path beside the importing file.
    pub fn resolve_path_specifier(
        &self,
        fs: &FileFacts,
        abs_from: &str,
    ) -> (r: Result<EsResolverResult<String>, Query>)
        ensures
            resolution_view(r) == crate::resolution::resolve_path_specifier(fs@, abs_from@, self@),
            r matches Ok(Ok(p)) ==> path_cleaned(p@) == p@ && p@.len() > 0,
    {
        let abs_to = with_file_name(abs_from, self.target);
        match self.load_as_relative(fs, abs_to.as_str())? {
            Some(p) => Ok(Ok(p)),
            None => Ok(Err(self.not_found())),
        }
    }

    /// Resolves a specifier that names a package in the `node_modules`
    /// directories at and above the importing file.
    pub fn resolve_in_node_modules(
        &self,
        fs: &FileFacts,
        abs_from: &str,
    ) -> (r: Result<EsResolverResult<String>, Query>)
        ensures
            resolution_view(r) == crate::resolution::resolve_in_node_modules(fs@, abs_from@, self@),
            r matches Ok(Ok(p)) ==> path_cleaned(p@) == p@ && p@.len() > 0,
    {
        match parent_path(abs_from) {
            Some(from_dir) => match self.load_node_modules(fs, from_dir.as_str(), self.target)? {
                Ok(Some(p)) => Ok(Ok(clean_path(p.as_str()))),
                Ok(None) => Ok(Err(self.not_found())),
                Err(e) => Ok(Err(e)),
            },
            None => Ok(Err(self.not_found())),
        }
    }

    /// Resolves the specifier without a look at any TypeScript
    /// configuration.
    pub fn resolve_plain(
        &self,
        fs: &FileFacts,
    ) -> (r: Result<EsResolverResult<String>, Query>)
        ensures
            resolution_view(r) == crate::resolution::resolve_plain(fs@, self@),
            crate::resolution::core_module_answer(self@.target, self@.env) is None ==> (r matches
                Ok(Ok(p)) ==> path_cleaned(p@) == p@ && p@.len() > 0),
    {
        match self.core_module_answer() {
            Some(answer) => {
                return Ok(Ok(answer));
            },
            None => {},
        }
        let abs_from = match self.canonical_from(fs)? {
            Ok(f) => f,
            Err(e) => {
                return Ok(Err(e));
            },
        };
        if str_begins_with_char(self.target, '.') || str_begins_with_char(self.target, '/') {
            self.resolve_path_specifier(fs, abs_from.as_str())
        } else {
            self.resolve_in_node_modules(fs, abs_from.as_str())
        }
    }

    /// Reads the configuration in the file at `path`, with what it inherits
    /// through `extends`; `visited` holds the files that the chain of
    /// `extends` has passed through.
    pub fn parse_tsconfig(
        &self,
        fs: &FileFacts,
        path: &str,
        visited: &Vec<String>,
    ) -> (r: Result<EsResolverResult<Option<TSConfig>>, Query>)
        ensures
            config_view(r) == crate::resolution::parse_tsconfig(
                fs@,
                path@,
                self@.options,
                texts(visited@),
            ),
        decreases unvisited(fs@.texts, texts(visited@)),
    {
        let ghost seen = texts(visited@);
        let revisited = list_contains(visited, path);
        proof {
            if revisited {
                let i = choose|i: int| 0 <= i < visited@.len() && #[trigger] visited@[i]@ == path@;
                assert(seen[i] == path@);
            } else {
                assert(forall|i: int| 0 <= i < seen.len() ==> seen[i] != path@);
            }
        }
        if revisited {
            let message = concat3("The 'extends' chain comes back to ", path, " and does not end.");
            return Ok(Err(EsResolverError::InvalidTSConfigExtend(message)));
        }
        let text = match fs.read(path)? {
            Some(t) => t,
            None => {
                return Ok(Ok(None));
            },
        };
        let read = match TSConfig::parse(text.as_str()) {
            Some(c) => c,
            None => {
                let message = concat3("The configuration at ", path, " is not valid.");
                return Ok(Err(EsResolverError::InvalidTSConfig(message)));
            },
        };
        let TSConfig { extends, compiler_options } = read;
        let TSConfigCompilerOptions { base_url, paths } = compiler_options;
        let base_url = match base_url {
            Some(url) => Some(with_file_name(path, url.as_str())),
            None => None,
        };
        match extends {
            None => Ok(
                Ok(
                    Some(
                        TSConfig {
                            extends: None,
                            compiler_options: TSConfigCompilerOptions { base_url, paths },
                        },
                    ),
                ),
            ),
            Some(extends) => {
                let mut extensions: Vec<Extensions> = Vec::new();
                extensions.push(Extensions::Json);
                let options = EsResolveOptions {
                    main_fields: copy_values(&self.options.main_fields),
                    conditions: copy_strings(&self.options.conditions),
                    extensions,
                };
                let extended_resolver = EsResolver {
                    target: extends.as_str(),
                    from: path,
                    env: TargetEnv::Node,
                    options,
                };
                let extended_path = match extended_resolver.resolve_plain(fs)? {
                    Ok(p) => p,
                    Err(_) => {
                        let message = concat3(
                            "The 'extends' of ",
                            path,
                            " does not resolve to a valid JSON module. Is the specifier correct?",
                        );
                        return Ok(Err(EsResolverError::InvalidTSConfigExtend(message)));
                    },
                };
                let mut passed = copy_strings(visited);
                passed.push(String::from_str(path));
                proof {
                    assert(texts(passed@) =~= seen.push(path@));
                    lemma_visit_leaves_fewer(fs@.texts, seen, path@, 0);
                }
                match self.parse_tsconfig(fs, extended_path.as_str(), &passed)? {
                    Ok(Some(parent)) => {
                        let TSConfig { extends: _, compiler_options: inherited } = parent;
                        let TSConfigCompilerOptions {
                            base_url: parent_base_url,
                            paths: parent_paths,
                        } = inherited;
                        let merged_config = TSConfig {
                            extends: Some(extends),
                            compiler_options: TSConfigCompilerOptions {
                                base_url: match base_url {
                                    Some(url) => Some(url),
                                    None => parent_base_url,
                                },
                                paths: match paths {
                                    Some(p) => Some(p),
                                    None => parent_paths,
                                },
                            },
                        };
                        Ok(Ok(Some(merged_config)))
                    },
                    Ok(None) => {
                        let message = concat3(
                            "The 'extends' of ",
                            path,
                            " does not resolve to a valid JSON module. Is the specifier correct?",
                        );
                        Ok(Err(EsResolverError::InvalidTSConfigExtend(message)))
                    },
                    Err(e) => Ok(Err(e)),
                }
            },
        }
    }

    /// Reads the configuration of the directory `dir`: its `tsconfig.json`,
    /// else its `jsconfig.json`.
    pub fn tsconfig_in(
        &self,
        fs: &FileFacts,
        dir: &str,
    ) -> (r: Result<EsResolverResult<Option<TSConfig>>, Query>)
        ensures
            config_view(r) == crate::resolution::tsconfig_in(fs@, dir@, self@.options),
    {
        let visited: Vec<String> = Vec::new();
        assert(texts(visited@) =~= Seq::<Seq<char>>::empty());
        let tsconfig_path = join_path(dir, "tsconfig.json");
        match self.parse_tsconfig(fs, tsconfig_path.as_str(), &visited)? {
            Ok(None) => {},
            other => {
                return Ok(other);
            },
        }
        let jsconfig_path = join_path(dir, "jsconfig.json");
        self.parse_tsconfig(fs, jsconfig_path.as_str(), &visited)
    }

    /// Reads the configuration that governs the file `from`: that of the
    /// nearest directory above it that has one.
    pub fn resolve_tsconfig(
        &self,
        fs: &FileFacts,
        from: &str,
    ) -> (r: Result<EsResolverResult<Option<TSConfig>>, Query>)
        ensures
            config_view(r) == crate::resolution::resolve_tsconfig(fs@, from@, self@.options),
    {
        let ghost goal = crate::resolution::resolve_tsconfig(fs@, from@, self@.options);
        let mut cur_dir = match parent_path(from) {
            Some(dir) => dir,
            None => {
                return Ok(Ok(None));
            },
        };
        loop
            invariant
                goal == crate::resolution::resolve_tsconfig(fs@, from@, self@.options),
                goal == crate::resolution::resolve_tsconfig_from(fs@, cur_dir@, self@.options),
            decreases cur_dir@.len(),
        {
            match self.tsconfig_in(fs, cur_dir.as_str())? {
                Ok(None) => {},
                other => {
                    return Ok(other);
                },
            }
            match parent_path(cur_dir.as_str()) {
                Some(up) => {
                    cur_dir = up;
                },
                None => {
                    return Ok(Ok(None));
                },
            }
        }
    }

    /// The paths that the specifier stands for under `paths`.
    pub fn match_tsconfig_paths(&self, base_url: &str, paths: &TSConfigPaths) -> (r: Option<
        Vec<String>,
    >)
        ensures
            r matches Some(list) && texts(list@) == paths_candidates(
                base_url@,
                paths_entries(*paths),
                self@.target,
            ),
    {
        match_tsconfig_paths(base_url, paths, self.target)
    }

    /// The paths that the `paths` of `config` offer for the specifier.
    pub fn config_candidates(&self, config: &Option<TSConfig>) -> (r: Vec<String>)
        ensures
            texts(r@) == crate::resolution::config_candidates(
                optional_config(*config),
                self@.target,
            ),
    {
        match config {
            Some(tsconfig) => match &tsconfig.compiler_options.paths {
                Some(paths) => {
                    let found = match &tsconfig.compiler_options.base_url {
                        Some(url) => self.match_tsconfig_paths(url.as_str(), paths),
                        None => self.match_tsconfig_paths(".", paths),
                    };
                    match found {
                        Some(list) => list,
                        None => Vec::new(),
                    }
                },
                None => {
                    let list: Vec<String> = Vec::new();
                    list
                },
            },
            None => {
                let list: Vec<String> = Vec::new();
                list
            },
        }
    }

    /// Resolves a specifier that names a package: through the `paths` of
    /// the governing TypeScript configuration, else in the `node_modules`
    /// directories.
    pub fn resolve_package_specifier(
        &self,
        fs: &FileFacts,
        abs_from: &str,
    ) -> (r: Result<EsResolverResult<String>, Query>)
        ensures
            resolution_view(r) == crate::resolution::resolve_package_specifier(
                fs@,
                abs_from@,
                self@,
            ),
            r matches Ok(Ok(p)) ==> path_cleaned(p@) == p@ && p@.len() > 0,
    {
        let config = match self.resolve_tsconfig(fs, self.from)? {
            Ok(c) => c,
            Err(e) => {
                return Ok(Err(e));
            },
        };
        let candidates = self.config_candidates(&config);
        let ghost cs = texts(candidates@);
        let ghost goal = crate::resolution::resolve_package_specifier(fs@, abs_from@, self@);
        let mut i: usize = 0;
        while i < candidates.len()
            invariant
                i <= candidates.len(),
                cs == texts(candidates@),
                goal == crate::resolution::resolve_package_specifier(fs@, abs_from@, self@),
                goal == match first_relative_from(fs@, cs, self@.options, 0) {
                    Err(q) => Err(q),
                    Ok(Some(p)) => Ok(Ok(p)),
                    Ok(None) => crate::resolution::resolve_in_node_modules(fs@, abs_from@, self@),
                },
                first_relative_from(fs@, cs, self@.options, 0) == first_relative_from(
                    fs@,
                    cs,
                    self@.options,
                    i as int,
                ),
            decreases candidates.len() - i,
        {
            match self.load_as_relative(fs, candidates[i].as_str())? {
                Some(p) => {
                    return Ok(Ok(p));
                },
                None => {},
            }
            i += 1;
        }
        self.resolve_in_node_modules(fs, abs_from)
    }

    /// Resolves the specifier; with `is_tsconfig`, without a look at any
    /// TypeScript configuration.
    pub fn resolve_impl(
        &self,
        fs: &FileFacts,
        is_tsconfig: bool,
    ) -> (r: Result<EsResolverResult<String>, Query>)
        ensures
            resolution_view(r) == crate::resolution::resolve_impl(fs@, self@, is_tsconfig),
            crate::resolution::core_module_answer(self@.target, self@.env) is None ==> (r matches
                Ok(Ok(p)) ==> path_cleaned(p@) == p@ && p@.len() > 0),
    {
        if is_tsconfig {
            return self.resolve_plain(fs);
        }
        match self.core_module_answer() {
            Some(answer) => {
                return Ok(Ok(answer));
            },
            None => {},
        }
        let abs_from = match self.canonical_from(fs)? {
            Ok(f) => f,
            Err(e) => {
                return Ok(Err(e));
            },
        };
        if str_begins_with_char(self.target, '.') || str_begins_with_char(self.target, '/') {
            self.resolve_path_specifier(fs, abs_from.as_str())
        } else {
            self.resolve_package_specifier(fs, abs_from.as_str())
        }
    }

    /// Resolves the specifier against the recorded answers about the disk:
    /// `Ok` with the resolved path or the error where the answers suffice,
    /// `Err` with the first question that they leave open.
    pub fn resolve(&self, fs: &FileFacts) -> (r: Result<EsResolverResult<String>, Query>)
        ensures
            resolution_view(r) == crate::resolution::resolve(fs@, self@),
            r matches Err(q) ==> !fs@.knows(q@),
            crate::resolution::core_module_answer(self@.target, self@.env) is None ==> (r matches
                Ok(Ok(p)) ==> path_cleaned(p@) == p@ && p@.len() > 0),
            crate::resolution::core_module_answer(self@.target, self@.env) matches Some(answer)
                ==> resolution_view(r) == Ok::<Result<Seq<char>, ErrorView>, QueryView>(Ok(answer)),
    {
        proof {
            lemma_resolve_settled(fs@, fs@, self@);
        }
        self.resolve_impl(fs, false)
    }
}

} // verus!
