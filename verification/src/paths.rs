//! Paths as text, and the lexical operations on them that the host
//! platform's path rules define. None of these touches the disk.

use vstd::prelude::*;
use vstd::string::*;

verus! {

/// `rel` adjoined to `base`, as `std::path::Path::join` forms it.
pub uninterp spec fn path_join(base: Seq<char>, rel: Seq<char>) -> Seq<char>;

/// `path` without its final component, as `std::path::Path::parent` gives it;
/// `None` where `path` ends in a root or is empty.
pub uninterp spec fn path_parent(path: Seq<char>) -> Option<Seq<char>>;

/// `path` with its final component replaced by `name`, as
/// `std::path::Path::with_file_name` forms it.
pub uninterp spec fn path_with_file_name(path: Seq<char>, name: Seq<char>) -> Seq<char>;

/// The extension of the final component of `path`, as
/// `std::path::Path::extension` gives it.
pub uninterp spec fn path_extension(path: Seq<char>) -> Option<Seq<char>>;

/// `path` with the extension of its final component set to `ext`, as
/// `std::path::Path::with_extension` forms it.
pub uninterp spec fn path_with_extension(path: Seq<char>, ext: Seq<char>) -> Seq<char>;

/// Whether `c` separates the components of a path on this platform, as
/// `std::path::is_separator` tells.
pub uninterp spec fn path_separator(c: char) -> bool;

/// Whether `text` holds no character that separates the components of a
/// path.
pub open spec fn separator_free(text: Seq<char>) -> bool {
    forall|i: int| 0 <= i < text.len() ==> !path_separator(#[trigger] text[i])
}

/// `path` cleaned lexically, as `path_clean::clean` forms it: repeated
/// separators, `.` components and resolvable `..` components removed.
pub uninterp spec fn path_cleaned(path: Seq<char>) -> Seq<char>;

/// Calls `std::path::Path::join`. The contract names the result and claims
/// nothing else of it.
#[verifier::external_body]
pub(crate) fn join_path(base: &str, rel: &str) -> (r: String)
    ensures
        r@ == path_join(base@, rel@),
{
    std::path::Path::new(base).join(rel).to_string_lossy().into_owned()
}

/// Calls `std::path::Path::parent`. The contract names the result and claims
/// that a parent is shorter than the path it was taken from: it is that path
/// without its final component.
#[verifier::external_body]
pub(crate) fn parent_path(path: &str) -> (r: Option<String>)
    ensures
        match r {
            Some(p) => path_parent(path@) == Some(p@) && p@.len() < path@.len(),
            None => path_parent(path@) is None,
        },
{
    match std::path::Path::new(path).parent() {
        Some(p) => Some(p.to_string_lossy().into_owned()),
        None => None,
    }
}

/// Calls `std::path::Path::with_file_name`. The contract names the result and
/// claims nothing else of it.
#[verifier::external_body]
pub(crate) fn with_file_name(path: &str, name: &str) -> (r: String)
    ensures
        r@ == path_with_file_name(path@, name@),
{
    std::path::Path::new(path).with_file_name(name).to_string_lossy().into_owned()
}

/// Calls `std::path::Path::extension`. The contract names the result and
/// claims nothing else of it.
#[verifier::external_body]
pub(crate) fn extension_of(path: &str) -> (r: Option<String>)
    ensures
        match r {
            Some(e) => path_extension(path@) == Some(e@),
            None => path_extension(path@) is None,
        },
{
    match std::path::Path::new(path).extension() {
        Some(e) => Some(e.to_string_lossy().into_owned()),
        None => None,
    }
}

/// Calls `std::path::is_separator`. The contract names the result and
/// claims nothing else of it.
#[verifier::external_body]
pub(crate) fn is_separator(c: char) -> (r: bool)
    ensures
        r == path_separator(c),
{
    std::path::is_separator(c)
}

/// Calls `std::path::Path::with_extension`, which panics on an extension
/// that holds a path separator: the contract leaves those out. It names the
/// result and claims nothing else of it.
#[verifier::external_body]
pub(crate) fn with_extension(path: &str, ext: &str) -> (r: String)
    requires
        separator_free(ext@),
    ensures
        r@ == path_with_extension(path@, ext@),
{
    std::path::Path::new(path).with_extension(ext).to_string_lossy().into_owned()
}

/// Calls `path_clean::clean`. The contract names the result and claims two
/// things of it. Cleaning it once more changes nothing: what `clean`
/// returns holds no component that `clean` removes. And it is not empty:
/// where nothing is left of a path, `clean` returns `.`.
#[verifier::external_body]
pub(crate) fn clean_path(path: &str) -> (r: String)
    ensures
        r@ == path_cleaned(path@),
        path_cleaned(r@) == r@,
        r@.len() > 0,
{
    path_clean::clean(path).to_string_lossy().into_owned()
}

} // verus!
