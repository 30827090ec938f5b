use es_resolve::es_resolver::{find_first_file, rewritten_paths};
use es_resolve::exports::{
    condition_is_honoured, is_conditional_exports_main_sugar, parse_package_name, resolve_exports,
    resolve_package_target, resolve_package_target_string,
};
use es_resolve::json::parse_json;
use es_resolve::manifest::Exports;
use es_resolve::tsconfig::TSConfig;
use es_resolve::utils::{add_extension, checked_add_extension, is_separator_free};
use es_resolve::tspaths::match_tsconfig_paths;
use es_resolve::types::{Extensions, MainFields};
use es_resolve::utils::best_pattern_key;
use es_resolve::{EsResolveOptions, EsResolver, EsResolverError, FileFacts, Query, TargetEnv};

fn strings(list: &[&str]) -> Vec<String> {
    list.iter().map(|s| String::from(*s)).collect()
}

fn exports_of(text: &str) -> Exports {
    Exports::from_json(&parse_json(text).unwrap()).unwrap()
}

#[test]
fn extensions_are_named_as_written() {
    let all = [
        (Extensions::Mjs, "mjs"),
        (Extensions::Mts, "mts"),
        (Extensions::Cjs, "cjs"),
        (Extensions::Cts, "cts"),
        (Extensions::Json, "json"),
        (Extensions::Js, "js"),
        (Extensions::Jsx, "jsx"),
        (Extensions::Ts, "ts"),
        (Extensions::Tsx, "tsx"),
        (Extensions::Node, "node"),
        (Extensions::Css, "css"),
    ];
    for (e, s) in all {
        assert_eq!(e.to_str(), s);
        assert_eq!(Extensions::from(s), Some(e));
    }
    assert_eq!(Extensions::from("exe"), None);
    assert_eq!(Extensions::from(".js"), None);
    assert_eq!(Extensions::from(""), None);
}

#[test]
fn default_options_follow_the_environment() {
    let node = EsResolveOptions::default_for(TargetEnv::Node);
    assert_eq!(node.main_fields, vec![MainFields::Main, MainFields::Module]);
    assert_eq!(node.conditions, strings(&["node", "require", "default"]));
    assert_eq!(node.extensions, EsResolveOptions::default_extensions());

    let browser = EsResolveOptions::default_for(TargetEnv::Browser);
    assert_eq!(browser.main_fields, vec![MainFields::Module, MainFields::Main]);
    assert_eq!(browser.extensions, node.extensions);
    assert_eq!(browser.conditions, strings(&["browser", "module", "import", "default"]));
    assert_eq!(
        EsResolveOptions::default_extensions(),
        vec![
            Extensions::Tsx,
            Extensions::Ts,
            Extensions::Jsx,
            Extensions::Js,
            Extensions::Css,
            Extensions::Json
        ]
    );
}

#[test]
fn resolver_keeps_what_it_is_given() {
    let mut options = EsResolveOptions::default_for(TargetEnv::Node);
    options.conditions = strings(&["worker"]);
    let r = EsResolver::with_options("pkg", "/a/b.js", TargetEnv::Browser, &options);
    assert_eq!(r.target, "pkg");
    assert_eq!(r.from, "/a/b.js");
    assert_eq!(r.env, TargetEnv::Browser);
    assert_eq!(r.options.conditions, strings(&["worker"]));
    assert_eq!(r.options.main_fields, options.main_fields);
    assert_eq!(r.options.extensions, options.extensions);

    let r = EsResolver::new("pkg", "/a/b.js", TargetEnv::Node);
    assert_eq!(r.options.conditions, strings(&["node", "require", "default"]));
    let copy = options.clone();
    assert_eq!(copy.conditions, options.conditions);
}

#[test]
fn package_names_are_split_from_subpaths() {
    assert_eq!(parse_package_name("react").unwrap(), ("react", ""));
    assert_eq!(parse_package_name("react/jsx-runtime").unwrap(), ("react", "/jsx-runtime"));
    assert_eq!(parse_package_name("a/b/c").unwrap(), ("a", "/b/c"));
    assert_eq!(parse_package_name("@babel/core").unwrap(), ("@babel/core", ""));
    assert_eq!(parse_package_name("@babel/core/lib/x").unwrap(), ("@babel/core", "/lib/x"));
}

#[test]
fn invalid_package_names_are_rejected() {
    assert_eq!(
        parse_package_name("@babel"),
        Err(EsResolverError::InvalidModuleSpecifier(String::from(
            "@babel is not a valid package name, because it is scoped without a slash. Valid scoped names are like '@babel/core'. "
        )))
    );
    assert_eq!(
        parse_package_name(".hidden/x"),
        Err(EsResolverError::InvalidModuleSpecifier(String::from(
            ".hidden/x is not a valid package name, because it starts with a '.'."
        )))
    );
    assert_eq!(
        parse_package_name("a%b/x"),
        Err(EsResolverError::InvalidModuleSpecifier(String::from(
            "a%b/x is not a valid package name, because it contains '%' or '\\'."
        )))
    );
    assert!(matches!(
        parse_package_name("a\\b"),
        Err(EsResolverError::InvalidModuleSpecifier(_))
    ));
    assert_eq!(
        parse_package_name(""),
        Err(EsResolverError::InvalidModuleSpecifier(String::from(
            "An empty specifier names no package."
        )))
    );
    assert_eq!(parse_package_name("a/b%c").unwrap(), ("a", "/b%c"));
}

#[test]
fn sugar_is_told_from_subpaths() {
    let p = "/n/pkg/package.json";
    assert_eq!(is_conditional_exports_main_sugar(&exports_of(r#""./i.js""#), p), Ok(true));
    assert_eq!(is_conditional_exports_main_sugar(&exports_of(r#"["./i.js"]"#), p), Ok(true));
    assert_eq!(
        is_conditional_exports_main_sugar(&exports_of(r#"{ "import": "./i.mjs" }"#), p),
        Ok(true)
    );
    assert_eq!(
        is_conditional_exports_main_sugar(&exports_of(r#"{ ".": "./i.mjs", "./a": "./a.js" }"#), p),
        Ok(false)
    );
    assert_eq!(is_conditional_exports_main_sugar(&exports_of(r#"{}"#), p), Ok(true));
    assert_eq!(
        is_conditional_exports_main_sugar(&exports_of(r#"{ ".": "./i.mjs", "import": "./a.js" }"#), p),
        Err(EsResolverError::InvalidExports(String::from(
            "The `pkg.exports` at /n/pkg/package.json here is invalid. Some keys starts with '.' but some does not. "
        )))
    );
}

#[test]
fn conditions_are_honoured_by_name() {
    let conditions = strings(&["browser", "import"]);
    assert!(condition_is_honoured("browser", &conditions));
    assert!(condition_is_honoured("import", &conditions));
    assert!(condition_is_honoured("default", &conditions));
    assert!(!condition_is_honoured("node", &conditions));
    assert!(condition_is_honoured("default", &Vec::new()));
}

#[test]
fn earlier_condition_is_chosen() {
    let p = "/n/pkg/package.json";
    let browser = strings(&["browser", "module", "import", "default"]);
    let e = exports_of(r#"{ "import": "./m.mjs", "require": "./m.cjs" }"#);
    assert_eq!(
        resolve_package_target(p, &e, "", false, &browser),
        Ok(Some(String::from("/n/pkg/./m.mjs")))
    );
    let e = exports_of(r#"{ "default": "./d.js", "import": "./m.mjs" }"#);
    assert_eq!(
        resolve_package_target(p, &e, "", false, &browser),
        Ok(Some(String::from("/n/pkg/./d.js")))
    );
    let e = exports_of(r#"{ "import": "./m.mjs", "browser": "./b.js" }"#);
    assert_eq!(
        resolve_package_target(p, &e, "", false, &browser),
        Ok(Some(String::from("/n/pkg/./m.mjs")))
    );
}

#[test]
fn targets_that_lead_nowhere_are_passed_over() {
    let p = "/n/pkg/package.json";
    let node = strings(&["node", "require", "default"]);
    let e = exports_of(r#"{ "node": { "import": "./a.mjs" }, "default": "./b.js" }"#);
    assert_eq!(
        resolve_package_target(p, &e, "", false, &node),
        Ok(Some(String::from("/n/pkg/./b.js")))
    );
    let e = exports_of(r#"{ "node": null, "require": "./r.cjs" }"#);
    assert_eq!(
        resolve_package_target(p, &e, "", false, &node),
        Ok(Some(String::from("/n/pkg/./r.cjs")))
    );
    let e = exports_of(r#"[{ "import": "./a.mjs" }, [], "./c.js"]"#);
    assert_eq!(
        resolve_package_target(p, &e, "", false, &node),
        Ok(Some(String::from("/n/pkg/./c.js")))
    );
    let e = exports_of(r#"{ "import": "./a.mjs" }"#);
    assert_eq!(
        resolve_package_target(p, &e, "", false, &node),
        Err(EsResolverError::InvalidExports(String::new()))
    );
    let e = exports_of(r#"[]"#);
    assert_eq!(
        resolve_package_target(p, &e, "", false, &node),
        Err(EsResolverError::InvalidExports(String::new()))
    );
}

#[test]
fn star_of_a_target_is_replaced_once() {
    let p = "/n/pkg/package.json";
    assert_eq!(
        resolve_package_target_string(p, "./lib/*.mjs", "index", true),
        Ok(Some(String::from("/n/pkg/./lib/index.mjs")))
    );
    assert_eq!(
        resolve_package_target_string(p, "./*/*.mjs", "x", true),
        Ok(Some(String::from("/n/pkg/./x/*.mjs")))
    );
    assert_eq!(
        resolve_package_target_string(p, "./lib/*.mjs", "index", false),
        Ok(Some(String::from("/n/pkg/./lib/*.mjs")))
    );
    assert_eq!(
        resolve_package_target_string(p, "./plain.js", "index", true),
        Ok(Some(String::from("/n/pkg/./plain.js")))
    );
}

#[test]
fn exports_are_resolved_directly_or_by_pattern() {
    let p = "/n/pkg/package.json";
    let browser = strings(&["browser", "module", "import", "default"]);

    assert_eq!(resolve_exports(p, &None, ".", &browser), Ok(None));

    let e = Some(exports_of(r#"{ "./star/*": "./lib/*.mjs" }"#));
    assert_eq!(
        resolve_exports(p, &e, "./star/index", &browser),
        Ok(Some(String::from("/n/pkg/./lib/index.mjs")))
    );
    assert_eq!(resolve_exports(p, &e, "./other/index", &browser), Ok(None));

    let e = Some(exports_of(r#"{ "import": "./m.mjs", "require": "./m.cjs" }"#));
    assert_eq!(
        resolve_exports(p, &e, ".", &browser),
        Ok(Some(String::from("/n/pkg/./m.mjs")))
    );

    let e = Some(exports_of(r#"{ ".": "./i.js", "import": "./m.mjs" }"#));
    assert!(matches!(
        resolve_exports(p, &e, ".", &browser),
        Err(EsResolverError::InvalidExports(_))
    ));

    let e = Some(exports_of(r#"{ "./a": null, "./*": "./lib/*.js" }"#));
    assert_eq!(
        resolve_exports(p, &e, "./a", &browser),
        Ok(Some(String::from("/n/pkg/./lib/a.js")))
    );

    let e = Some(exports_of(
        r#"{ "./a/*": "./low/*.js", "./a/b/*": "./high/*.js", "./a/b/c": null }"#,
    ));
    assert_eq!(
        resolve_exports(p, &e, "./a/b/c", &browser),
        Ok(Some(String::from("/n/pkg/./high/c.js")))
    );
    assert_eq!(
        resolve_exports(p, &e, "./a/x", &browser),
        Ok(Some(String::from("/n/pkg/./low/x.js")))
    );

    let e = Some(exports_of(r#"{ "*": "./x/*.js" }"#));
    assert_eq!(resolve_exports(p, &e, "./a", &browser), Ok(None));
    assert_eq!(resolve_exports(p, &e, "./a/*", &browser), Ok(None));
    let e = Some(exports_of(r#"{ "./*": "./x/*.js" }"#));
    assert_eq!(
        resolve_exports(p, &e, "./a", &browser),
        Ok(Some(String::from("/n/pkg/./x/a.js")))
    );

    let e = Some(exports_of(r#""./only.js""#));
    assert_eq!(
        resolve_exports(p, &e, "./anything", &browser),
        Ok(Some(String::from("/n/pkg/./only.js")))
    );
}

#[test]
fn most_specific_key_is_selected() {
    let keys = strings(&["./a/*", "./a/b/*", "./a/b/*.js", "./c", ""]);
    let all = vec![true, true, true, true, true];
    assert_eq!(best_pattern_key(&keys, &all, "./a/b/c.js"), Some(2));
    assert_eq!(best_pattern_key(&keys, &all, "./a/b/c.ts"), Some(1));
    assert_eq!(best_pattern_key(&keys, &all, "./a/x"), Some(0));
    assert_eq!(best_pattern_key(&keys, &all, "./c"), Some(3));
    assert_eq!(best_pattern_key(&keys, &all, "./d"), None);
    assert_eq!(best_pattern_key(&keys, &all, ""), None);
    let some = vec![true, false, false, true, true];
    assert_eq!(best_pattern_key(&keys, &some, "./a/b/c.js"), Some(0));
    assert_eq!(best_pattern_key(&keys, &vec![true], "./a/b/c.js"), Some(0));
    let plain_and_pattern = strings(&["./a*", "./ab"]);
    assert_eq!(best_pattern_key(&plain_and_pattern, &vec![true, true], "./ab"), Some(1));
}

#[test]
fn paths_offer_candidates_in_order() {
    let c = TSConfig::parse(
        r#"{ "compilerOptions": { "paths": {
            "exact": ["./one.ts", "./two.ts"],
            "@c/*": ["components/*", "fallback/*/index"],
            "@c/deep/*": ["deep/*"]
        } } }"#,
    )
    .unwrap();
    let paths = c.compiler_options.paths.unwrap();
    assert_eq!(
        match_tsconfig_paths("/p", &paths, "exact"),
        Some(strings(&["/p/./one.ts", "/p/./two.ts"]))
    );
    assert_eq!(
        match_tsconfig_paths("/p", &paths, "@c/Text"),
        Some(strings(&["/p/components/Text", "/p/fallback/Text/index"]))
    );
    assert_eq!(
        match_tsconfig_paths("/p", &paths, "@c/deep/x"),
        Some(strings(&["/p/deep/x"]))
    );
    assert_eq!(
        match_tsconfig_paths("/p", &paths, "unlisted/x"),
        Some(strings(&["/p/unlisted/x"]))
    );
    let r = EsResolver::new("@c/Text", "/p/src/a.ts", TargetEnv::Browser);
    assert_eq!(
        r.match_tsconfig_paths("/p", &paths),
        Some(strings(&["/p/components/Text", "/p/fallback/Text/index"]))
    );
}

#[test]
fn extension_is_added_behind_the_present_one() {
    assert_eq!(add_extension("/a/b.ts", "js"), "/a/b.ts.js");
    assert_eq!(add_extension("/a/b", "js"), "/a/b.js");
    assert_eq!(add_extension("/a/b.d.ts", "map"), "/a/b.d.ts.map");
    assert_eq!(add_extension("/a.dir/b", "css"), "/a.dir/b.css");
}

#[test]
fn extension_with_a_separator_is_not_added() {
    assert_eq!(checked_add_extension("/a/b.ts", "js"), Some(String::from("/a/b.ts.js")));
    assert_eq!(checked_add_extension("/a/b", "js"), Some(String::from("/a/b.js")));
    assert_eq!(checked_add_extension("/a/b.ts", "x/js"), None);
    assert_eq!(checked_add_extension("/a/b", "/"), None);
    assert!(is_separator_free("tar.gz"));
    assert!(is_separator_free(""));
    assert!(!is_separator_free("a/b"));
}

#[test]
fn rewritten_extensions_follow_the_table() {
    assert_eq!(rewritten_paths("/a/b.js"), strings(&["/a/b.ts", "/a/b.tsx"]));
    assert_eq!(rewritten_paths("/a/b.jsx"), strings(&["/a/b.tsx"]));
    assert_eq!(rewritten_paths("/a/b.cjs"), strings(&["/a/b.cts"]));
    assert_eq!(rewritten_paths("/a/b.mjs"), strings(&["/a/b.mts"]));
    assert_eq!(rewritten_paths("/a/b.ts"), Vec::<String>::new());
    assert_eq!(rewritten_paths("/a/bjs"), Vec::<String>::new());
}

#[test]
fn first_file_asks_in_order() {
    let candidates = strings(&["/a", "/b", "/c"]);
    let mut facts = FileFacts::new();
    assert_eq!(find_first_file(&facts, &candidates), Err(Query::IsFile(String::from("/a"))));
    facts.record_is_file("/a", false);
    assert_eq!(find_first_file(&facts, &candidates), Err(Query::IsFile(String::from("/b"))));
    facts.record_is_file("/c", true);
    assert_eq!(find_first_file(&facts, &candidates), Err(Query::IsFile(String::from("/b"))));
    facts.record_is_file("/b", true);
    assert_eq!(find_first_file(&facts, &candidates), Ok(Some(String::from("/b"))));
    facts.record_is_file("/b", false);
    assert_eq!(find_first_file(&facts, &candidates), Ok(Some(String::from("/b"))));
    assert_eq!(find_first_file(&facts, &Vec::new()), Ok(None));
}

#[test]
fn first_recorded_answer_stands() {
    let mut facts = FileFacts::new();
    assert_eq!(facts.read("/a"), Err(Query::ReadFile(String::from("/a"))));
    facts.record_text("/a", Some(String::from("one")));
    facts.record_text("/a", None);
    assert_eq!(facts.read("/a"), Ok(Some(String::from("one"))));
    facts.record_canonical("/l", None);
    assert_eq!(facts.canonicalize("/l"), Ok(None));
    assert_eq!(facts.canonicalize("/m"), Err(Query::Canonicalize(String::from("/m"))));
    assert_eq!(facts.is_file("/a"), Err(Query::IsFile(String::from("/a"))));
}

#[test]
fn extension_priority_follows_the_options() {
    let mut facts = FileFacts::new();
    facts.record_is_file("/d/x", false);
    facts.record_is_file("/d/x.tsx", false);
    facts.record_is_file("/d/x.ts", true);
    facts.record_is_file("/d/x.jsx", false);
    facts.record_is_file("/d/x.js", true);
    let r = EsResolver::new("./x", "/d/i.js", TargetEnv::Browser);
    assert_eq!(
        r.load_as_file(&facts, "/d/x", &EsResolveOptions::default_extensions()),
        Ok(Some(String::from("/d/x.ts")))
    );
    assert_eq!(
        r.load_as_file(&facts, "/d/x", &vec![Extensions::Js, Extensions::Ts]),
        Ok(Some(String::from("/d/x.js")))
    );
    assert_eq!(
        EsResolver::try_extension(&facts, "/d/x", &Extensions::Js),
        Ok(Some(String::from("/d/x.js")))
    );
    assert_eq!(EsResolver::try_extension(&facts, "/d/x", &Extensions::Jsx), Ok(None));
    assert_eq!(
        EsResolver::try_extension(&facts, "/d/x", &Extensions::Css),
        Err(Query::IsFile(String::from("/d/x.css")))
    );
}
