use es_resolve::json::{parse_json, parse_json_with_comments, Json};
use es_resolve::manifest::{Exports, PackageJSON};
use es_resolve::tsconfig::{TSConfig, TSConfigCompilerOptions};
use es_resolve::types::MainFields;
use indexmap::IndexMap;

#[test]
fn package_json() {
    {
        let pkg = r#"
            {
                "exports": "index.js"
            }
        "#;

        let package_json: PackageJSON = PackageJSON::parse(pkg).unwrap();

        assert_eq!(
            package_json,
            PackageJSON {
                main: None,
                module: None,
                browser: None,
                react_native: None,
                exports: Some(Exports::String(format!("index.js"))),
            }
        )
    }

    {
        let pkg = r#"
            {
                "exports": {
                    ".": "index.js"
                }
            }
        "#;

        let _: PackageJSON = PackageJSON::parse(pkg).unwrap();
    }

    {
        let pkg = r#"
            {
                "exports": {
                    ".": {
                        "import": "index.js",
                        "require": "index.cjs"
                    }
                }
            }
        "#;

        let _: PackageJSON = PackageJSON::parse(pkg).unwrap();
    }
}

#[test]
fn tsconfig() {
    {
        let tsconfig_str = r#"
          {
            "compilerOptions": {
              "target": "ESNext",
              "useDefineForClassFields": true,
              "lib": ["DOM", "DOM.Iterable", "ESNext"],
              "allowJs": false,
              "skipLibCheck": true,
              "esModuleInterop": true,
              "allowSyntheticDefaultImports": true,
              "experimentalDecorators": true,
              "strict": true,
              "forceConsistentCasingInFileNames": true,
              "module": "ESNext",
              "moduleResolution": "Node",
              "resolveJsonModule": true,
              "isolatedModules": true,
              "noEmit": true,
              "jsx": "react-jsx",
              "baseUrl": ".",
              "paths": {
                "@/*": ["root/*"]
              }
            },
            "include": ["*"]
          }
        "#;

        let tsconfig: TSConfig = TSConfig::parse(tsconfig_str).unwrap();

        let mut paths = IndexMap::new();
        paths.insert(format!("@/*"), vec![format!("root/*")]);

        assert_eq!(
            tsconfig,
            TSConfig {
                extends: None,
                compiler_options: TSConfigCompilerOptions {
                    base_url: Some(format!(".")),
                    paths: Some(paths),
                }
            }
        );
    }
}

#[test]
fn json_keeps_the_order_of_an_object() {
    let j = parse_json(r#"{ "z": 1, "a": [true, null, "s"], "m": { "k": 2.5 } }"#).unwrap();
    assert_eq!(
        j,
        Json::Object(vec![
            (format!("z"), Json::Number(format!("1"))),
            (
                format!("a"),
                Json::Array(vec![Json::Bool(true), Json::Null, Json::String(format!("s"))])
            ),
            (format!("m"), Json::Object(vec![(format!("k"), Json::Number(format!("2.5")))])),
        ])
    );
}

#[test]
fn json_rejects_what_is_no_document() {
    assert_eq!(parse_json("{ \"a\": }"), None);
    assert_eq!(parse_json(""), None);
    assert_eq!(parse_json("{ \"a\": 1, }"), None);
    assert_eq!(parse_json("// comment\n{}"), None);
}

#[test]
fn comments_are_blanked_before_parsing() {
    let text = "{\n// line\n\"a\": /* block */ \"x // not a comment\"\n}";
    assert_eq!(
        parse_json_with_comments(text),
        Some(Json::Object(vec![(format!("a"), Json::String(format!("x // not a comment")))]))
    );
    assert_eq!(parse_json_with_comments("{ /* never closed "), None);
    assert_eq!(parse_json_with_comments("{ \"a\": 1, }"), None);
}

#[test]
fn exports_object_keeps_order_and_blocked_keys() {
    let pkg = r#"{ "exports": { "./b": "./b.js", "./a": null, "./c": ["./c.mjs", { "default": "./c.js" }] } }"#;
    let package_json = PackageJSON::parse(pkg).unwrap();
    assert_eq!(
        package_json.exports,
        Some(Exports::Object(vec![
            (format!("./b"), Some(Exports::String(format!("./b.js")))),
            (format!("./a"), None),
            (
                format!("./c"),
                Some(Exports::Array(vec![
                    Exports::String(format!("./c.mjs")),
                    Exports::Object(vec![(
                        format!("default"),
                        Some(Exports::String(format!("./c.js")))
                    )]),
                ]))
            ),
        ]))
    );
}

#[test]
fn manifest_fields_are_read_by_name() {
    let pkg = r#"{ "name": "x", "main": "m.js", "module": "e.mjs", "browser": "b.js", "reactNative": "r.js", "version": 3 }"#;
    let p = PackageJSON::parse(pkg).unwrap();
    assert_eq!(p.get_main_field(&MainFields::Main), Some(format!("m.js")));
    assert_eq!(p.get_main_field(&MainFields::Module), Some(format!("e.mjs")));
    assert_eq!(p.get_main_field(&MainFields::Browser), Some(format!("b.js")));
    assert_eq!(p.get_main_field(&MainFields::ReactNative), Some(format!("r.js")));
    assert_eq!(p.exports, None);

    let p = PackageJSON::parse(r#"{ "main": null }"#).unwrap();
    assert_eq!(p.get_main_field(&MainFields::Main), None);
    assert_eq!(p.get_main_field(&MainFields::Browser), None);
}

#[test]
fn invalid_manifests_are_rejected() {
    assert_eq!(PackageJSON::parse(r#"{ "main": 1 }"#), None);
    assert_eq!(PackageJSON::parse(r#"{ "exports": 1 }"#), None);
    assert_eq!(PackageJSON::parse(r#"{ "exports": [null] }"#), None);
    assert_eq!(PackageJSON::parse(r#"{ "exports": { "a": true } }"#), None);
    assert_eq!(PackageJSON::parse(r#"["main.js"]"#), None);
    assert_eq!(PackageJSON::parse(r#"not json"#), None);
}

#[test]
fn tsconfig_without_options_has_none() {
    let c = TSConfig::parse(r#"{ "extends": "./base" }"#).unwrap();
    assert_eq!(c.extends, Some(format!("./base")));
    assert_eq!(c.compiler_options, TSConfigCompilerOptions::default());
    assert_eq!(c.compiler_options.base_url, None);
    assert_eq!(c.compiler_options.paths, None);
}

#[test]
fn tsconfig_paths_keep_their_order() {
    let c = TSConfig::parse(
        r#"{ "compilerOptions": { "paths": { "z/*": ["1"], "a/*": ["2", "3"], "m": [] } } }"#,
    )
    .unwrap();
    let paths = c.compiler_options.paths.unwrap();
    let keys: Vec<&String> = paths.keys().collect();
    assert_eq!(keys, vec!["z/*", "a/*", "m"]);
    assert_eq!(paths.get("a/*"), Some(&vec![format!("2"), format!("3")]));
}

#[test]
fn invalid_tsconfigs_are_rejected() {
    assert_eq!(TSConfig::parse(r#"{ "extends": 1 }"#), None);
    assert_eq!(TSConfig::parse(r#"{ "compilerOptions": null }"#), None);
    assert_eq!(TSConfig::parse(r#"{ "compilerOptions": { "baseUrl": [] } }"#), None);
    assert_eq!(TSConfig::parse(r#"{ "compilerOptions": { "paths": [] } }"#), None);
    assert_eq!(TSConfig::parse(r#"{ "compilerOptions": { "paths": { "a": "b" } } }"#), None);
    assert_eq!(TSConfig::parse(r#"{ "compilerOptions": { "paths": { "a": [1] } } }"#), None);
    assert_eq!(TSConfig::parse(r#"{ "compilerOptions": {}, }"#), None);
}

#[test]
fn key_that_comes_again_replaces_in_place() {
    let j = Json::Object(vec![
        (format!("import"), Json::String(format!("./first.mjs"))),
        (format!("default"), Json::String(format!("./d.js"))),
        (format!("import"), Json::String(format!("./second.mjs"))),
    ]);
    assert_eq!(
        Exports::from_json(&j),
        Some(Exports::Object(vec![
            (format!("import"), Some(Exports::String(format!("./second.mjs")))),
            (format!("default"), Some(Exports::String(format!("./d.js")))),
        ]))
    );
    let text = r#"{ "exports": { "a": "./1.js", "b": "./2.js", "a": null } }"#;
    assert_eq!(
        PackageJSON::parse(text).unwrap().exports,
        Some(Exports::Object(vec![
            (format!("a"), None),
            (format!("b"), Some(Exports::String(format!("./2.js")))),
        ]))
    );
}
