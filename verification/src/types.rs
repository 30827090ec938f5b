//! The vocabulary of a resolution: target environments, main fields, file
//! extensions, options and errors.

use vstd::prelude::*;
use vstd::string::*;
use crate::text::str_eq;

verus! {

/// A field of a package manifest that may name the package's entry file.
#[derive(Clone, Copy, Debug, PartialEq, Eq, Structural)]
pub enum MainFields {
    Main,
    Module,
    Browser,
    ReactNative,
}

/// The environment that the resolved module is meant to run in.
#[derive(Clone, Copy, Debug, PartialEq, Eq, Structural)]
pub enum TargetEnv {
    Node,
    Browser,
}

/// A file extension that the resolver may append to a path.
#[derive(Clone, Copy, Debug, PartialEq, Eq, Structural)]
pub enum Extensions {
    Mjs,
    Mts,
    Cjs,
    Cts,
    Json,
    Js,
    Jsx,
    Ts,
    Tsx,
    Node,
    Css,
}

impl Extensions {
    /// The extension as it is written in a file name, without the dot.
    pub open spec fn text(self) -> Seq<char> {
        match self {
            Extensions::Mjs => "mjs"@,
            Extensions::Mts => "mts"@,
            Extensions::Cjs => "cjs"@,
            Extensions::Cts => "cts"@,
            Extensions::Json => "json"@,
            Extensions::Js => "js"@,
            Extensions::Jsx => "jsx"@,
            Extensions::Ts => "ts"@,
            Extensions::Tsx => "tsx"@,
            Extensions::Node => "node"@,
            Extensions::Css => "css"@,
        }
    }

    /// The extension that `ext` names, if it names one.
    pub open spec fn named(ext: Seq<char>) -> Option<Extensions> {
        if ext == "mjs"@ {
            Some(Extensions::Mjs)
        } else if ext == "mts"@ {
            Some(Extensions::Mts)
        } else if ext == "cjs"@ {
            Some(Extensions::Cjs)
        } else if ext == "cts"@ {
            Some(Extensions::Cts)
        } else if ext == "json"@ {
            Some(Extensions::Json)
        } else if ext == "js"@ {
            Some(Extensions::Js)
        } else if ext == "jsx"@ {
            Some(Extensions::Jsx)
        } else if ext == "ts"@ {
            Some(Extensions::Ts)
        } else if ext == "tsx"@ {
            Some(Extensions::Tsx)
        } else if ext == "node"@ {
            Some(Extensions::Node)
        } else if ext == "css"@ {
            Some(Extensions::Css)
        } else {
            None
        }
    }

    /// Reading back the written form of an extension gives that extension.
    pub proof fn lemma_named_text(self)
        ensures
            Extensions::named(self.text()) == Some(self),
    {
        reveal_strlit("mjs");
        reveal_strlit("mts");
        reveal_strlit("cjs");
        reveal_strlit("cts");
        reveal_strlit("json");
        reveal_strlit("js");
        reveal_strlit("jsx");
        reveal_strlit("ts");
        reveal_strlit("tsx");
        reveal_strlit("node");
        reveal_strlit("css");
        assert("mts"@.len() == 3 && "mts"@[0] == 'm' && "mts"@[1] == 't');
        assert("cjs"@.len() == 3 && "cjs"@[0] == 'c' && "cjs"@[1] == 'j');
        assert("cts"@.len() == 3 && "cts"@[0] == 'c' && "cts"@[1] == 't');
        assert("jsx"@.len() == 3 && "jsx"@[0] == 'j');
        assert("tsx"@.len() == 3 && "tsx"@[0] == 't');
        assert("css"@.len() == 3 && "css"@[0] == 'c' && "css"@[1] == 's');
        assert("json"@.len() == 4 && "json"@[0] == 'j');
        assert("node"@.len() == 4 && "node"@[0] == 'n');
        assert("js"@.len() == 2 && "js"@[0] == 'j');
        assert("ts"@.len() == 2 && "ts"@[0] == 't');
    }

    /// The extension that `ext` names.
    pub fn from(ext: &str) -> (r: Option<Extensions>)
        ensures
            r == Extensions::named(ext@),
    {
        if str_eq(ext, "mjs") {
            Some(Extensions::Mjs)
        } else if str_eq(ext, "mts") {
            Some(Extensions::Mts)
        } else if str_eq(ext, "cjs") {
            Some(Extensions::Cjs)
        } else if str_eq(ext, "cts") {
            Some(Extensions::Cts)
        } else if str_eq(ext, "json") {
            Some(Extensions::Json)
        } else if str_eq(ext, "js") {
            Some(Extensions::Js)
        } else if str_eq(ext, "jsx") {
            Some(Extensions::Jsx)
        } else if str_eq(ext, "ts") {
            Some(Extensions::Ts)
        } else if str_eq(ext, "tsx") {
            Some(Extensions::Tsx)
        } else if str_eq(ext, "node") {
            Some(Extensions::Node)
        } else if str_eq(ext, "css") {
            Some(Extensions::Css)
        } else {
            None
        }
    }

    /// The extension as it is written in a file name, without the dot.
    pub fn to_str(&self) -> (r: &'static str)
        ensures
            r@ == self.text(),
    {
        match self {
            Extensions::Mjs => "mjs",
            Extensions::Mts => "mts",
            Extensions::Cjs => "cjs",
            Extensions::Cts => "cts",
            Extensions::Json => "json",
            Extensions::Js => "js",
            Extensions::Jsx => "jsx",
            Extensions::Ts => "ts",
            Extensions::Tsx => "tsx",
            Extensions::Node => "node",
            Extensions::Css => "css",
        }
    }
}

/// What a resolution is configured with, as plain sequences.
pub struct OptionsView {
    pub main_fields: Seq<MainFields>,
    pub conditions: Seq<Seq<char>>,
    pub extensions: Seq<Extensions>,
}

/// The priorities that a resolution follows.
#[derive(Debug)]
pub struct EsResolveOptions {
    /// The manifest fields that may name a package's entry file, most
    /// preferred first.
    pub main_fields: Vec<MainFields>,
    /// The condition names that are honoured in conditional exports.
    /// `default` is honoured whether listed or not.
    pub conditions: Vec<String>,
    /// The extensions that are tried on a path that names no file, most
    /// preferred first.
    pub extensions: Vec<Extensions>,
}

/// The views of the strings of `list`, in order.
pub open spec fn texts(list: Seq<String>) -> Seq<Seq<char>> {
    Seq::new(list.len(), |i: int| list[i]@)
}

impl View for EsResolveOptions {
    type V = OptionsView;

    open spec fn view(&self) -> OptionsView {
        OptionsView {
            main_fields: self.main_fields@,
            conditions: texts(self.conditions@),
            extensions: self.extensions@,
        }
    }
}

/// The extensions tried by default, most preferred first.
pub open spec fn default_extension_order() -> Seq<Extensions> {
    seq![
        Extensions::Tsx,
        Extensions::Ts,
        Extensions::Jsx,
        Extensions::Js,
        Extensions::Css,
        Extensions::Json,
    ]
}

/// The options that an environment resolves with when none are given. The
/// `browser` field of a manifest is read only as a text and never as a map
/// of replacements, so no environment lists it by default; a caller who
/// wants it read lists `MainFields::Browser` in options of their own.
pub open spec fn default_options(env: TargetEnv) -> OptionsView {
    match env {
        TargetEnv::Node => OptionsView {
            main_fields: seq![MainFields::Main, MainFields::Module],
            conditions: seq!["node"@, "require"@, "default"@],
            extensions: default_extension_order(),
        },
        TargetEnv::Browser => OptionsView {
            main_fields: seq![MainFields::Module, MainFields::Main],
            conditions: seq!["browser"@, "module"@, "import"@, "default"@],
            extensions: default_extension_order(),
        },
    }
}

/// A copy of `list`.
pub fn copy_strings(list: &Vec<String>) -> (r: Vec<String>)
    ensures
        texts(r@) == texts(list@),
{
    let mut out: Vec<String> = Vec::new();
    let mut i: usize = 0;
    while i < list.len()
        invariant
            i <= list.len(),
            out@.len() == i,
            forall|j: int| 0 <= j < i ==> out@[j]@ == list@[j]@,
        decreases list.len() - i,
    {
        out.push(list[i].clone());
        i += 1;
    }
    out
}

/// A copy of `list`.
pub fn copy_values<T: Copy>(list: &Vec<T>) -> (r: Vec<T>)
    ensures
        r@ == list@,
{
    let mut out: Vec<T> = Vec::new();
    let mut i: usize = 0;
    while i < list.len()
        invariant
            i <= list.len(),
            out@ == list@.take(i as int),
        decreases list.len() - i,
    {
        out.push(list[i]);
        i += 1;
    }
    out
}

impl EsResolveOptions {
    /// The extensions tried by default, most preferred first.
    pub fn default_extensions() -> (r: Vec<Extensions>)
        ensures
            r@ == default_extension_order(),
    {
        let mut v: Vec<Extensions> = Vec::new();
        v.push(Extensions::Tsx);
        v.push(Extensions::Ts);
        v.push(Extensions::Jsx);
        v.push(Extensions::Js);
        v.push(Extensions::Css);
        v.push(Extensions::Json);
        v
    }

    /// The options that `env` resolves with when none are given.
    pub fn default_for(env: TargetEnv) -> (r: Self)
        ensures
            r@ == default_options(env),
    {
        match env {
            TargetEnv::Node => {
                let mut main_fields: Vec<MainFields> = Vec::new();
                main_fields.push(MainFields::Main);
                main_fields.push(MainFields::Module);
                let mut conditions: Vec<String> = Vec::new();
                conditions.push(String::from_str("node"));
                conditions.push(String::from_str("require"));
                conditions.push(String::from_str("default"));
                let r = EsResolveOptions {
                    main_fields,
                    conditions,
                    extensions: Self::default_extensions(),
                };
                assert(r@.main_fields =~= default_options(env).main_fields);
                assert(r@.conditions =~= default_options(env).conditions);
                r
            },
            TargetEnv::Browser => {
                let mut main_fields: Vec<MainFields> = Vec::new();
                main_fields.push(MainFields::Module);
                main_fields.push(MainFields::Main);
                let mut conditions: Vec<String> = Vec::new();
                conditions.push(String::from_str("browser"));
                conditions.push(String::from_str("module"));
                conditions.push(String::from_str("import"));
                conditions.push(String::from_str("default"));
                let r = EsResolveOptions {
                    main_fields,
                    conditions,
                    extensions: Self::default_extensions(),
                };
                assert(r@.main_fields =~= default_options(env).main_fields);
                assert(r@.conditions =~= default_options(env).conditions);
                r
            },
        }
    }

}

impl Clone for EsResolveOptions {
    fn clone(&self) -> (r: Self)
        ensures
            r@ == self@,
    {
        EsResolveOptions {
            main_fields: copy_values(&self.main_fields),
            conditions: copy_strings(&self.conditions),
            extensions: copy_values(&self.extensions),
        }
    }
}

/// Why a resolution failed.
#[derive(Debug, PartialEq, Eq)]
pub enum EsResolverError {
    /// A file that the resolution had to read could not be read; the text
    /// says which.
    IOError(String),
    /// A package manifest was found but is not a valid manifest.
    InvalidPackageJSON(String),
    /// A TypeScript configuration was found but is not a valid one.
    InvalidTSConfig(String),
    /// The `extends` of a TypeScript configuration leads nowhere.
    InvalidTSConfigExtend(String),
    /// An `exports` field mixes subpath keys with condition keys, or none of
    /// its conditions applies.
    InvalidExports(String),
    /// A specifier does not begin with a valid package name.
    InvalidModuleSpecifier(String),
    /// Every way of resolving the specifier was tried without a hit.
    ModuleNotFound(String),
}

/// What a procedure of the resolver returns.
pub type EsResolverResult<T> = Result<T, EsResolverError>;

/// An error as plain values.
pub enum ErrorView {
    IOError(Seq<char>),
    InvalidPackageJSON(Seq<char>),
    InvalidTSConfig(Seq<char>),
    InvalidTSConfigExtend(Seq<char>),
    InvalidExports(Seq<char>),
    InvalidModuleSpecifier(Seq<char>),
    ModuleNotFound(Seq<char>),
}

impl View for EsResolverError {
    type V = ErrorView;

    open spec fn view(&self) -> ErrorView {
        match self {
            EsResolverError::IOError(m) => ErrorView::IOError(m@),
            EsResolverError::InvalidPackageJSON(m) => ErrorView::InvalidPackageJSON(m@),
            EsResolverError::InvalidTSConfig(m) => ErrorView::InvalidTSConfig(m@),
            EsResolverError::InvalidTSConfigExtend(m) => ErrorView::InvalidTSConfigExtend(m@),
            EsResolverError::InvalidExports(m) => ErrorView::InvalidExports(m@),
            EsResolverError::InvalidModuleSpecifier(m) => ErrorView::InvalidModuleSpecifier(m@),
            EsResolverError::ModuleNotFound(m) => ErrorView::ModuleNotFound(m@),
        }
    }
}

impl EsResolverError {
    /// The text that the error carries.
    pub fn message(&self) -> (r: String)
        ensures
            r@ == match self@ {
                ErrorView::IOError(m) => m,
                ErrorView::InvalidPackageJSON(m) => m,
                ErrorView::InvalidTSConfig(m) => m,
                ErrorView::InvalidTSConfigExtend(m) => m,
                ErrorView::InvalidExports(m) => m,
                ErrorView::InvalidModuleSpecifier(m) => m,
                ErrorView::ModuleNotFound(m) => m,
            },
    {
        match self {
            EsResolverError::IOError(m) => m.clone(),
            EsResolverError::InvalidPackageJSON(m) => m.clone(),
            EsResolverError::InvalidTSConfig(m) => m.clone(),
            EsResolverError::InvalidTSConfigExtend(m) => m.clone(),
            EsResolverError::InvalidExports(m) => m.clone(),
            EsResolverError::InvalidModuleSpecifier(m) => m.clone(),
            EsResolverError::ModuleNotFound(m) => m.clone(),
        }
    }
}

} // verus!
