use es_resolve::{EsResolveOptions, EsResolver, EsResolverError, FileFacts, Query, TargetEnv};

/// A disk held in memory: the files by their path, each with its text.
struct Disk {
    files: Vec<(String, String)>,
}

fn normal(path: &str) -> String {
    path_clean::clean(path).to_string_lossy().into_owned()
}

impl Disk {
    fn new() -> Disk {
        Disk { files: Vec::new() }
    }

    fn file(mut self, path: &str, text: &str) -> Disk {
        self.files.push((format!("/fixtures/{}", path), String::from(text)));
        self
    }

    fn read(&self, path: &str) -> Option<String> {
        let wanted = normal(path);
        self.files.iter().find(|(p, _)| *p == wanted).map(|(_, t)| t.clone())
    }

    fn is_dir(&self, path: &str) -> bool {
        let wanted = format!("{}/", normal(path));
        self.files.iter().any(|(p, _)| p.starts_with(&wanted))
    }

    fn answer(&self, facts: &mut FileFacts, query: Query) {
        match query {
            Query::IsFile(p) => facts.record_is_file(&p, self.read(&p).is_some()),
            Query::ReadFile(p) => facts.record_text(&p, self.read(&p)),
            Query::Canonicalize(p) => {
                let known = self.read(&p).is_some() || self.is_dir(&p);
                facts.record_canonical(&p, if known { Some(normal(&p)) } else { None })
            },
        }
    }

    fn resolve_with(&self, resolver: &EsResolver) -> Result<String, EsResolverError> {
        let mut facts = FileFacts::new();
        let mut rounds = 0;
        loop {
            match resolver.resolve(&facts) {
                Ok(result) => return result,
                Err(query) => self.answer(&mut facts, query),
            }
            rounds += 1;
            assert!(rounds < 10000);
        }
    }

    fn resolve(&self, target: &str, from: &str, env: TargetEnv) -> Result<String, EsResolverError> {
        self.resolve_with(&EsResolver::new(target, from, env))
    }
}

fn source(s: &str) -> String {
    format!("/fixtures/{}", s)
}

fn source_str(s: &str) -> String {
    source(s)
}

fn fixtures() -> Disk {
    Disk::new()
        .file("relative/index.js", "")
        .file("relative/js.js", "")
        .file("relative/ts.ts", "")
        .file("relative/tsx.tsx", "")
        .file("relative/jsx.jsx", "")
        .file("relative/css.css", "")
        .file("relative/priority/target.js", "")
        .file("relative/priority/target.ts", "")
        .file("relative/priority/target.tsx", "")
        .file("relative/parent/index.js", "")
        .file("directory/index.js", "")
        .file("directory/pkg/index.js", "")
        .file("directory/package_json_main/package.json", r#"{ "main": "main.js" }"#)
        .file("directory/package_json_main/main.js", "")
        .file("directory/package_json_main/index.js", "")
        .file(
            "directory/package_json_browser/package.json",
            r#"{ "main": "main.js", "module": "browser.js" }"#,
        )
        .file("directory/package_json_browser/main.js", "")
        .file("directory/package_json_browser/browser.js", "")
        .file("directory/package_json_missing_main/package.json", r#"{ "main": "missing.js" }"#)
        .file("directory/package_json_missing_main/index.js", "")
        .file("node_modules_/index.js", "")
        .file("node_modules_/import_exports.mjs", "")
        .file("node_modules_/deep/dir1/dir2/dir3/index.js", "")
        .file("node_modules_/node_modules/react/index.js", "")
        .file("node_modules_/node_modules/no_package_json/index.js", "")
        .file("node_modules_/node_modules/no_package_json/jsx-runtime.js", "")
        .file(
            "node_modules_/node_modules/exports/package.json",
            r#"{
                "exports": {
                    ".": "./index.mjs",
                    "./nest1/nest2": "./nest1/nest2/index.mjs",
                    "./nest2": "./nest1/nest2/index.mjs"
                }
            }"#,
        )
        .file("node_modules_/node_modules/exports/index.mjs", "")
        .file("node_modules_/node_modules/exports/nest1/nest2/index.mjs", "")
        .file(
            "node_modules_/node_modules/exports_array/package.json",
            r#"{ "exports": { ".": [{ "node": "./index.cjs" }, "./index.mjs"] } }"#,
        )
        .file("node_modules_/node_modules/exports_array/index.mjs", "")
        .file(
            "node_modules_/node_modules/@scoped/exports/package.json",
            r#"{ "exports": { "./nested": "./index.mjs" } }"#,
        )
        .file("node_modules_/node_modules/@scoped/exports/index.mjs", "")
        .file(
            "node_modules_/node_modules/exports_sugar_string/package.json",
            r#"{ "exports": "./index.mjs" }"#,
        )
        .file("node_modules_/node_modules/exports_sugar_string/index.mjs", "")
        .file(
            "node_modules_/node_modules/exports_sugar_object/package.json",
            r#"{ "exports": { "import": "./index.mjs", "require": "./index.cjs" } }"#,
        )
        .file("node_modules_/node_modules/exports_sugar_object/index.mjs", "")
        .file("node_modules_/node_modules/exports_sugar_object/index.cjs", "")
        .file(
            "node_modules_/node_modules/exports_sugar_array/package.json",
            r#"{ "exports": [{ "node": "./a.js" }, { "worker": "./b.mjs" }, { "import": "./c.mjs" }] }"#,
        )
        .file("node_modules_/node_modules/exports_sugar_array/a.js", "")
        .file("node_modules_/node_modules/exports_sugar_array/b.mjs", "")
        .file("node_modules_/node_modules/exports_sugar_array/c.mjs", "")
        .file(
            "node_modules_/node_modules/exports_star/package.json",
            r#"{ "exports": { "./star/*": "./lib/*.mjs" } }"#,
        )
        .file("node_modules_/node_modules/exports_star/lib/index.mjs", "")
        .file(
            "tspaths/constant/tsconfig.json",
            r#"{ "compilerOptions": { "baseUrl": ".", "paths": { "constant": ["./constant.ts"] } } }"#,
        )
        .file("tspaths/constant/index.ts", "")
        .file("tspaths/constant/constant.ts", "")
        .file(
            "tspaths/star/tsconfig.json",
            r#"{
                "compilerOptions": {
                    "baseUrl": ".",
                    "paths": {
                        "@components/*": ["components/*"],
                        "@anything/*": ["pages/Login.tsx"]
                    }
                }
            }"#,
        )
        .file("tspaths/star/pages/Login.tsx", "")
        .file("tspaths/star/components/Text.tsx", "")
        .file(
            "tspaths/match-priority/tsconfig.json",
            r#"{
                "compilerOptions": {
                    "baseUrl": ".",
                    "paths": {
                        "@utils/*": ["./@low-priority/*"],
                        "@utils/high-priority/*": ["./@high-priority/*"]
                    }
                }
            }"#,
        )
        .file("tspaths/match-priority/index.ts", "")
        .file("tspaths/match-priority/@high-priority/type.ts", "")
        .file("tspaths/match-priority/@low-priority/high-priority/type.ts", "")
        .file(
            "tspaths/tsconfig-syntax/tsconfig.json",
            r#"{
                // The options of the compiler.
                "compilerOptions": {
                    /* Where the paths start. */
                    "baseUrl": ".",
                    "paths": {
                        "constant": ["./constant.ts"] // one entry
                    }
                }
            }"#,
        )
        .file("tspaths/tsconfig-syntax/index.ts", "")
        .file("tspaths/tsconfig-syntax/constant.ts", "")
        .file("tspaths/extends/tsconfig.json", r#"{ "extends": "./config/base" }"#)
        .file(
            "tspaths/extends/config/base.json",
            r#"{ "compilerOptions": { "baseUrl": "..", "paths": { "@lib/*": ["lib/*"] } } }"#,
        )
        .file("tspaths/extends/config/base.ts", "")
        .file("tspaths/extends/src/index.ts", "")
        .file("tspaths/extends/lib/util.ts", "")
        .file(
            "tspaths/extends-child/tsconfig.json",
            r#"{
                "extends": "shared-config/tsconfig",
                "compilerOptions": { "paths": { "@lib/*": ["mine/*"] } }
            }"#,
        )
        .file(
            "tspaths/extends-child/node_modules/shared-config/tsconfig.json",
            r#"{ "compilerOptions": { "baseUrl": "../..", "paths": { "@lib/*": ["theirs/*"] } } }"#,
        )
        .file("tspaths/extends-child/index.ts", "")
        .file("tspaths/extends-child/mine/util.ts", "")
        .file("tspaths/extends-child/theirs/util.ts", "")
        .file("tspaths/extends-ring/tsconfig.json", r#"{ "extends": "./other.json" }"#)
        .file("tspaths/extends-ring/other.json", r#"{ "extends": "./tsconfig.json" }"#)
        .file("tspaths/extends-ring/index.ts", "")
        .file("tspaths/extends-nowhere/tsconfig.json", r#"{ "extends": "./absent" }"#)
        .file("tspaths/extends-nowhere/index.ts", "")
        .file("tspaths/broken/tsconfig.json", r#"{ "compilerOptions": { "paths": 3 } }"#)
        .file("tspaths/broken/index.ts", "")
        .file("tspaths/jsconfig/jsconfig.json", r#"{ "compilerOptions": { "baseUrl": "./", "paths": { "~/*": ["./src/*"] } } }"#)
        .file("tspaths/jsconfig/deep/down/index.js", "")
        .file("tspaths/jsconfig/src/a.js", "")
        .file("faulty/index.js", "")
        .file("faulty/node_modules/bad-json/package.json", "{ not json")
        .file("faulty/node_modules/bad-json/index.js", "")
        .file(
            "faulty/node_modules/mixed/package.json",
            r#"{ "exports": { ".": "./index.js", "import": "./index.mjs" } }"#,
        )
        .file("faulty/node_modules/mixed/index.js", "")
        .file(
            "faulty/node_modules/no-condition/package.json",
            r#"{ "exports": { "worker": "./worker.js" } }"#,
        )
        .file("faulty/node_modules/no-condition/index.js", "")
        .file(
            "faulty/node_modules/unlisted/package.json",
            r#"{ "exports": { "./listed": "./listed.js" } }"#,
        )
        .file("faulty/node_modules/unlisted/other.js", "")
        .file(
            "directory/browser_field/package.json",
            r#"{ "main": "main.js", "module": "esm.js", "browser": "browser.js" }"#,
        )
        .file("directory/browser_field/main.js", "")
        .file("directory/browser_field/esm.js", "")
        .file("directory/browser_field/browser.js", "")
        .file(
            "directory/browser_map/package.json",
            r#"{ "main": "main.js", "browser": { "./main.js": "./shim.js" } }"#,
        )
        .file("directory/browser_map/main.js", "")
        .file("directory/browser_map/shim.js", "")
        .file("directory/main_is_a_directory/package.json", r#"{ "main": "lib" }"#)
        .file("directory/main_is_a_directory/lib/index.js", "")
        .file("directory/main_is_a_directory/index.js", "")
        .file("directory/main_without_extension/package.json", r#"{ "main": "lib/entry" }"#)
        .file("directory/main_without_extension/lib/entry.ts", "")
        .file("directory/main_without_extension/index.js", "")
        .file("directory/empty_main/package.json", r#"{ "main": "", "module": "esm.js" }"#)
        .file("directory/empty_main/esm.js", "")
        .file("directory/broken_manifest/package.json", "{ broken")
        .file("directory/broken_manifest/index.js", "")
        .file("tspaths/star/node_modules/react/index.js", "")
        .file("faulty/nested/index.js", "")
        .file("faulty/nested/node_modules/placeholder/index.js", "")
        .file("faulty/node_modules/above/index.js", "")
}

#[test]
fn relative() {
    let disk = fixtures();
    let s = source("relative/index.js");

    let r = EsResolver::new("./js.js", &s, TargetEnv::Browser);
    assert_eq!(disk.resolve_with(&r).unwrap(), source_str("relative/js.js"));

    let r = EsResolver::new("./js", &s, TargetEnv::Browser);
    assert_eq!(disk.resolve_with(&r).unwrap(), source_str("relative/js.js"));

    let r = EsResolver::new("./ts", &s, TargetEnv::Browser);
    assert_eq!(disk.resolve_with(&r).unwrap(), source_str("relative/ts.ts"));

    let r = EsResolver::new("./tsx", &s, TargetEnv::Browser);
    assert_eq!(disk.resolve_with(&r).unwrap(), source_str("relative/tsx.tsx"));

    let r = EsResolver::new("./jsx", &s, TargetEnv::Browser);
    assert_eq!(disk.resolve_with(&r).unwrap(), source_str("relative/jsx.jsx"));

    let r = EsResolver::new("./css", &s, TargetEnv::Browser);
    assert_eq!(disk.resolve_with(&r).unwrap(), source_str("relative/css.css"));

    let r = EsResolver::new("./ts.js", &s, TargetEnv::Browser);
    assert_eq!(disk.resolve_with(&r).unwrap(), source_str("relative/ts.ts"));

    let r = EsResolver::new("./tsx.js", &s, TargetEnv::Browser);
    assert_eq!(disk.resolve_with(&r).unwrap(), source_str("relative/tsx.tsx"));

    let r = EsResolver::new("./priority/target", &s, TargetEnv::Browser);
    assert_eq!(disk.resolve_with(&r).unwrap(), source_str("relative/priority/target.tsx"));

    let parent_s = source("relative/parent/index.js");
    let r = EsResolver::new("../ts", &parent_s, TargetEnv::Browser);
    assert_eq!(disk.resolve_with(&r).unwrap(), source_str("relative/ts.ts"));
}

#[test]
fn directory() {
    let disk = fixtures();
    let s = source("directory/index.js");

    let r = EsResolver::new("./pkg", &s, TargetEnv::Browser);
    assert_eq!(disk.resolve_with(&r).unwrap(), source_str("directory/pkg/index.js"));

    let r = EsResolver::new("./package_json_main", &s, TargetEnv::Node);
    assert_eq!(
        disk.resolve_with(&r).unwrap(),
        source_str("directory/package_json_main/main.js")
    );

    let r = EsResolver::new("./package_json_browser", &s, TargetEnv::Browser);
    assert_eq!(
        disk.resolve_with(&r).unwrap(),
        source_str("directory/package_json_browser/browser.js")
    );

    let r = EsResolver::new("./package_json_missing_main", &s, TargetEnv::Browser);
    assert_eq!(
        disk.resolve_with(&r).unwrap(),
        source_str("directory/package_json_missing_main/index.js")
    );
}

#[test]
fn node_modules() {
    let disk = fixtures();
    let s = source("node_modules_/index.js");

    let r = EsResolver::new("no_package_json", &s, TargetEnv::Browser);
    assert_eq!(
        disk.resolve_with(&r).unwrap(),
        source_str("node_modules_/node_modules/no_package_json/index.js")
    );

    let r = EsResolver::new("no_package_json/jsx-runtime", &s, TargetEnv::Browser);
    assert_eq!(
        disk.resolve_with(&r).unwrap(),
        source_str("node_modules_/node_modules/no_package_json/jsx-runtime.js")
    );

    let r = EsResolver::new("no_package_json/jsx-runtime", &s, TargetEnv::Browser);
    assert_eq!(
        disk.resolve_with(&r).unwrap(),
        source_str("node_modules_/node_modules/no_package_json/jsx-runtime.js")
    );

    let deep_source = source("node_modules_/deep/dir1/dir2/dir3/index.js");
    let r = EsResolver::new("no_package_json", &deep_source, TargetEnv::Browser);
    assert_eq!(
        disk.resolve_with(&r).unwrap(),
        source_str("node_modules_/node_modules/no_package_json/index.js")
    );
}

#[test]
fn exports() {
    let disk = fixtures();
    let s = source("node_modules_/import_exports.mjs");

    let r = EsResolver::new("exports", &s, TargetEnv::Browser);
    assert_eq!(
        disk.resolve_with(&r).unwrap(),
        source_str("node_modules_/node_modules/exports/index.mjs")
    );

    let r = EsResolver::new("exports/nest1/nest2", &s, TargetEnv::Browser);
    assert_eq!(
        disk.resolve_with(&r).unwrap(),
        source_str("node_modules_/node_modules/exports/nest1/nest2/index.mjs")
    );

    let r = EsResolver::new("exports/nest2", &s, TargetEnv::Browser);
    assert_eq!(
        disk.resolve_with(&r).unwrap(),
        source_str("node_modules_/node_modules/exports/nest1/nest2/index.mjs")
    );

    let r = EsResolver::new("exports_array", &s, TargetEnv::Browser);
    assert_eq!(
        disk.resolve_with(&r).unwrap(),
        source_str("node_modules_/node_modules/exports_array/index.mjs")
    );

    let r = EsResolver::new("@scoped/exports/nested", &s, TargetEnv::Browser);
    assert_eq!(
        disk.resolve_with(&r).unwrap(),
        source_str("node_modules_/node_modules/@scoped/exports/index.mjs")
    );
}

#[test]
fn test_es_resolver_exports_sugar() {
    let disk = fixtures();
    let s = source("node_modules_/import_exports.mjs");

    let r = EsResolver::new("exports_sugar_string", &s, TargetEnv::Browser);
    assert_eq!(
        disk.resolve_with(&r).unwrap(),
        source_str("node_modules_/node_modules/exports_sugar_string/index.mjs")
    );

    let r = EsResolver::new("exports_sugar_object", &s, TargetEnv::Browser);
    assert_eq!(
        disk.resolve_with(&r).unwrap(),
        source_str("node_modules_/node_modules/exports_sugar_object/index.mjs")
    );

    let r = EsResolver::new("exports_sugar_array", &s, TargetEnv::Browser);
    assert_eq!(
        disk.resolve_with(&r).unwrap(),
        source_str("node_modules_/node_modules/exports_sugar_array/c.mjs")
    );

    let r = EsResolver::new("exports_sugar_array", &s, TargetEnv::Node);
    assert_eq!(
        disk.resolve_with(&r).unwrap(),
        source_str("node_modules_/node_modules/exports_sugar_array/a.js")
    );
}

#[test]
fn exports_pattern() {
    let disk = fixtures();
    let s = source("node_modules_/import_exports.mjs");

    let r = EsResolver::new("exports_star/star/index", &s, TargetEnv::Browser);
    assert_eq!(
        disk.resolve_with(&r).unwrap(),
        source_str("node_modules_/node_modules/exports_star/lib/index.mjs")
    );
}

#[test]
fn tspaths() {
    let disk = fixtures();

    let s = source("tspaths/constant/index.ts");
    let r = EsResolver::new("constant", &s, TargetEnv::Browser);
    assert_eq!(disk.resolve_with(&r).unwrap(), source_str("tspaths/constant/constant.ts"));

    let s = source("tspaths/star/pages/Login.tsx");
    let r = EsResolver::new("@components/Text", &s, TargetEnv::Browser);
    assert_eq!(disk.resolve_with(&r).unwrap(), source_str("tspaths/star/components/Text.tsx"));

    let s = source("tspaths/star/pages/Login.tsx");
    let r = EsResolver::new("components/Text", &s, TargetEnv::Browser);
    assert_eq!(disk.resolve_with(&r).unwrap(), source_str("tspaths/star/components/Text.tsx"));

    let s = source("tspaths/star/pages/Login.tsx");
    let r = EsResolver::new("@anything/xxx", &s, TargetEnv::Browser);
    assert_eq!(disk.resolve_with(&r).unwrap(), source_str("tspaths/star/pages/Login.tsx"));
    let r = EsResolver::new("@anything/yyy", &s, TargetEnv::Browser);
    assert_eq!(disk.resolve_with(&r).unwrap(), source_str("tspaths/star/pages/Login.tsx"));

    let s = source("tspaths/star/pages/Login.tsx");
    let r = EsResolver::new("@components/Text", &s, TargetEnv::Browser);
    assert_eq!(disk.resolve_with(&r).unwrap(), source_str("tspaths/star/components/Text.tsx"));

    let s = source("tspaths/match-priority/index.ts");
    let r = EsResolver::new("@utils/high-priority/type", &s, TargetEnv::Browser);
    assert_eq!(
        disk.resolve_with(&r).unwrap(),
        source_str("tspaths/match-priority/@high-priority/type.ts")
    );

    let s = source("tspaths/tsconfig-syntax/index.ts");
    let r = EsResolver::new("constant", &s, TargetEnv::Browser);
    assert_eq!(disk.resolve_with(&r).unwrap(), source_str("tspaths/tsconfig-syntax/constant.ts"));
}

#[test]
fn core_modules_need_no_disk() {
    let facts = FileFacts::new();
    let r = EsResolver::new("fs", "/nowhere/index.js", TargetEnv::Node);
    assert_eq!(r.resolve(&facts), Ok(Ok(String::from("node:fs"))));
    let r = EsResolver::new("node:anything", "/nowhere/index.js", TargetEnv::Node);
    assert_eq!(r.resolve(&facts), Ok(Ok(String::from("node:anything"))));
    let r = EsResolver::new("fs/promises", "/nowhere/index.js", TargetEnv::Node);
    assert_eq!(r.resolve(&facts), Ok(Ok(String::from("node:fs/promises"))));
    let r = EsResolver::new("fs", "/nowhere/index.js", TargetEnv::Browser);
    assert_eq!(r.resolve(&facts), Err(Query::Canonicalize(String::from("/nowhere/index.js"))));
}

#[test]
fn missing_from_is_an_io_error() {
    let disk = fixtures();
    let r = disk.resolve("./js", "/fixtures/relative/absent.js", TargetEnv::Browser);
    assert_eq!(
        r,
        Err(EsResolverError::IOError(String::from(
            "Cannot resolve from file /fixtures/relative/absent.js. Does the file exist?"
        )))
    );
}

#[test]
fn exhausted_search_is_module_not_found() {
    let disk = fixtures();
    let from = source("relative/index.js");
    let r = disk.resolve("./absent", &from, TargetEnv::Browser);
    assert_eq!(
        r,
        Err(EsResolverError::ModuleNotFound(format!("Cannot resolve ./absent from {}", from)))
    );
    let r = disk.resolve("absent-package", &from, TargetEnv::Browser);
    assert_eq!(
        r,
        Err(EsResolverError::ModuleNotFound(format!("Cannot resolve absent-package from {}", from)))
    );
}

#[test]
fn resolution_is_repeatable() {
    let disk = fixtures();
    let from = source("tspaths/star/pages/Login.tsx");
    let first = disk.resolve("@components/Text", &from, TargetEnv::Browser);
    let second = disk.resolve("@components/Text", &from, TargetEnv::Browser);
    assert_eq!(first, second);
}

#[test]
fn results_are_clean_and_absolute() {
    let disk = fixtures();
    let from = source("relative/parent/index.js");
    let r = disk.resolve("../priority/../ts", &from, TargetEnv::Browser).unwrap();
    assert_eq!(r, "/fixtures/relative/ts.ts");
    assert_eq!(normal(&r), r);
    assert!(r.starts_with('/'));
}

#[test]
fn options_decide_extension_priority() {
    let disk = fixtures();
    let from = source("relative/index.js");
    let mut options = EsResolveOptions::default_for(TargetEnv::Browser);
    options.extensions = vec![es_resolve::types::Extensions::Js, es_resolve::types::Extensions::Ts];
    let r = EsResolver::with_options("./priority/target", &from, TargetEnv::Browser, &options);
    assert_eq!(disk.resolve_with(&r).unwrap(), source_str("relative/priority/target.js"));
}

#[test]
fn extends_inherits_paths() {
    let disk = fixtures();
    let from = source("tspaths/extends/src/index.ts");
    let r = disk.resolve("@lib/util", &from, TargetEnv::Browser);
    assert_eq!(r, Ok(source_str("tspaths/extends/lib/util.ts")));
}

#[test]
fn child_configuration_takes_precedence() {
    let disk = fixtures();
    let from = source("tspaths/extends-child/index.ts");
    let r = disk.resolve("@lib/util", &from, TargetEnv::Browser);
    assert_eq!(r, Ok(source_str("tspaths/extends-child/mine/util.ts")));
}

#[test]
fn extends_ring_is_an_error() {
    let disk = fixtures();
    let from = source("tspaths/extends-ring/index.ts");
    let r = disk.resolve("anything", &from, TargetEnv::Browser);
    assert_eq!(
        r,
        Err(EsResolverError::InvalidTSConfigExtend(format!(
            "The 'extends' chain comes back to {} and does not end.",
            source("tspaths/extends-ring/tsconfig.json")
        )))
    );
}

#[test]
fn extends_that_leads_nowhere_is_an_error() {
    let disk = fixtures();
    let from = source("tspaths/extends-nowhere/index.ts");
    let r = disk.resolve("anything", &from, TargetEnv::Browser);
    assert_eq!(
        r,
        Err(EsResolverError::InvalidTSConfigExtend(format!(
            "The 'extends' of {} does not resolve to a valid JSON module. Is the specifier correct?",
            source("tspaths/extends-nowhere/tsconfig.json")
        )))
    );
}

#[test]
fn invalid_configuration_is_an_error() {
    let disk = fixtures();
    let from = source("tspaths/broken/index.ts");
    let r = disk.resolve("anything", &from, TargetEnv::Browser);
    assert_eq!(
        r,
        Err(EsResolverError::InvalidTSConfig(format!(
            "The configuration at {} is not valid.",
            source("tspaths/broken/tsconfig.json")
        )))
    );
    let r = disk.resolve("./index", &from, TargetEnv::Browser);
    assert_eq!(r, Ok(source_str("tspaths/broken/index.ts")));
}

#[test]
fn jsconfig_of_a_directory_above_governs() {
    let disk = fixtures();
    let from = source("tspaths/jsconfig/deep/down/index.js");
    let r = disk.resolve("~/a", &from, TargetEnv::Browser);
    assert_eq!(r, Ok(source_str("tspaths/jsconfig/src/a.js")));
}

#[test]
fn invalid_manifest_of_a_package_is_an_error() {
    let disk = fixtures();
    let from = source("faulty/index.js");
    let r = disk.resolve("bad-json", &from, TargetEnv::Browser);
    assert_eq!(
        r,
        Err(EsResolverError::InvalidPackageJSON(format!(
            "The package.json at {} is not a valid manifest.",
            source("faulty/node_modules/bad-json/package.json")
        )))
    );
}

#[test]
fn invalid_exports_are_an_error() {
    let disk = fixtures();
    let from = source("faulty/index.js");
    let r = disk.resolve("mixed", &from, TargetEnv::Browser);
    assert_eq!(
        r,
        Err(EsResolverError::InvalidExports(format!(
            "The `pkg.exports` at {} here is invalid. Some keys starts with '.' but some does not. ",
            source("faulty/node_modules/mixed/package.json")
        )))
    );
    let r = disk.resolve("no-condition", &from, TargetEnv::Browser);
    assert_eq!(r, Err(EsResolverError::InvalidExports(String::new())));
}

#[test]
fn unlisted_subpath_falls_back_to_the_file() {
    let disk = fixtures();
    let from = source("faulty/index.js");
    let r = disk.resolve("unlisted/other", &from, TargetEnv::Browser);
    assert_eq!(r, Ok(source_str("faulty/node_modules/unlisted/other.js")));
    let r = disk.resolve("unlisted/listed", &from, TargetEnv::Browser);
    assert_eq!(r, Ok(source_str("faulty/node_modules/unlisted/listed.js")));
}

#[test]
fn walk_goes_up_past_a_directory_without_the_package() {
    let disk = fixtures();
    let from = source("faulty/nested/index.js");
    let r = disk.resolve("above", &from, TargetEnv::Browser);
    assert_eq!(r, Ok(source_str("faulty/node_modules/above/index.js")));
    let r = disk.resolve("@scope", &from, TargetEnv::Browser);
    assert!(matches!(r, Err(EsResolverError::ModuleNotFound(_))));
}

#[test]
fn questions_come_in_the_order_of_the_search() {
    let from = "/p/src/index.js";
    let r = EsResolver::new("./x", from, TargetEnv::Browser);
    let mut facts = FileFacts::new();
    assert_eq!(r.resolve(&facts), Err(Query::Canonicalize(String::from(from))));
    facts.record_canonical(from, Some(String::from(from)));
    assert_eq!(r.resolve(&facts), Err(Query::IsFile(String::from("/p/src/./x"))));
    facts.record_is_file("/p/src/./x", false);
    assert_eq!(r.resolve(&facts), Err(Query::IsFile(String::from("/p/src/./x.tsx"))));
    facts.record_is_file("/p/src/./x.tsx", false);
    assert_eq!(r.resolve(&facts), Err(Query::IsFile(String::from("/p/src/./x.ts"))));
    facts.record_is_file("/p/src/./x.ts", true);
    assert_eq!(r.resolve(&facts), Ok(Ok(String::from("/p/src/x.ts"))));
    facts.record_is_file("/p/src/./x.jsx", true);
    assert_eq!(r.resolve(&facts), Ok(Ok(String::from("/p/src/x.ts"))));
}

#[test]
fn main_field_is_tried_as_a_file_only() {
    let disk = fixtures();
    let from = source("directory/index.js");
    let r = disk.resolve("./main_is_a_directory", &from, TargetEnv::Node);
    assert_eq!(r, Ok(source_str("directory/main_is_a_directory/index.js")));
    let r = disk.resolve("./main_without_extension", &from, TargetEnv::Node);
    assert_eq!(r, Ok(source_str("directory/main_without_extension/lib/entry.ts")));
}

#[test]
fn empty_main_field_is_passed_over() {
    let disk = fixtures();
    let from = source("directory/index.js");
    let r = disk.resolve("./empty_main", &from, TargetEnv::Node);
    assert_eq!(r, Ok(source_str("directory/empty_main/esm.js")));
}

#[test]
fn invalid_manifest_of_a_directory_is_ignored() {
    let disk = fixtures();
    let from = source("directory/index.js");
    let r = disk.resolve("./broken_manifest", &from, TargetEnv::Node);
    assert_eq!(r, Ok(source_str("directory/broken_manifest/index.js")));
}

#[test]
fn paths_that_lead_nowhere_fall_through_to_node_modules() {
    let disk = fixtures();
    let from = source("tspaths/star/pages/Login.tsx");
    let r = disk.resolve("react", &from, TargetEnv::Browser);
    assert_eq!(r, Ok(source_str("tspaths/star/node_modules/react/index.js")));
    let r = disk.resolve("@components/Missing", &from, TargetEnv::Browser);
    assert!(matches!(r, Err(EsResolverError::ModuleNotFound(_))));
}

#[test]
fn manifest_that_cannot_be_read_is_an_io_error() {
    let mut facts = FileFacts::new();
    facts.record_text("/n/pkg/package.json", None);
    assert_eq!(
        EsResolver::load_package_json(&facts, "/n/pkg/package.json"),
        Ok(Err(EsResolverError::IOError(String::from(
            "Can't read package.json at /n/pkg/package.json"
        ))))
    );
    assert_eq!(
        EsResolver::load_package_json(&facts, "/n/other/package.json"),
        Err(Query::ReadFile(String::from("/n/other/package.json")))
    );
}

#[test]
fn answers_that_were_not_asked_for_change_nothing() {
    let disk = fixtures();
    let from = source("relative/index.js");
    let resolver = EsResolver::new("./ts", &from, TargetEnv::Browser);
    let mut facts = FileFacts::new();
    let result = loop {
        match resolver.resolve(&facts) {
            Ok(result) => break result,
            Err(query) => disk.answer(&mut facts, query),
        }
    };
    facts.record_is_file("/fixtures/relative/./ts.js", true);
    facts.record_is_file("/unrelated", true);
    facts.record_text("/fixtures/relative/package.json", Some(String::from("{}")));
    assert_eq!(resolver.resolve(&facts), Ok(result));
}

#[test]
fn walk_reaches_node_modules_several_directories_up() {
    let disk = fixtures();
    let from = source("node_modules_/deep/dir1/dir2/dir3/index.js");
    let r = disk.resolve("react", &from, TargetEnv::Browser);
    assert_eq!(r, Ok(source_str("node_modules_/node_modules/react/index.js")));
    let r = disk.resolve("react", &from, TargetEnv::Node);
    assert_eq!(r, Ok(source_str("node_modules_/node_modules/react/index.js")));
}

#[test]
fn absolute_specifier_is_looked_for_as_it_stands() {
    let disk = fixtures();
    let from = source("directory/index.js");
    let r = disk.resolve("/fixtures/relative/js", &from, TargetEnv::Browser);
    assert_eq!(r, Ok(source_str("relative/js.js")));
    let r = disk.resolve("/fixtures/directory/pkg", &from, TargetEnv::Node);
    assert_eq!(r, Ok(source_str("directory/pkg/index.js")));
}

#[test]
fn browser_field_is_read_only_where_it_is_listed() {
    let disk = fixtures();
    let from = source("directory/index.js");
    let r = disk.resolve("./browser_field", &from, TargetEnv::Browser);
    assert_eq!(r, Ok(source_str("directory/browser_field/esm.js")));
    let r = disk.resolve("./browser_field", &from, TargetEnv::Node);
    assert_eq!(r, Ok(source_str("directory/browser_field/main.js")));

    let mut options = EsResolveOptions::default_for(TargetEnv::Browser);
    options.main_fields = vec![
        es_resolve::types::MainFields::Browser,
        es_resolve::types::MainFields::Module,
        es_resolve::types::MainFields::Main,
    ];
    let r = EsResolver::with_options("./browser_field", &from, TargetEnv::Browser, &options);
    assert_eq!(disk.resolve_with(&r), Ok(source_str("directory/browser_field/browser.js")));
    let r = EsResolver::with_options("./browser_map", &from, TargetEnv::Browser, &options);
    assert_eq!(disk.resolve_with(&r), Ok(source_str("directory/browser_map/main.js")));
}
