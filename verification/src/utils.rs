//! Pattern keys: matching a target against a key with at most one `*`,
//! extracting what the star captured, and ordering keys by specificity.

use vstd::prelude::*;
use vstd::string::*;
use crate::paths::{
    extension_of, is_separator, path_extension, path_separator, path_with_extension,
    separator_free, with_extension,
};
use crate::text::{
    chars_of, concat, find_char, find_in, has_prefix, has_suffix, lemma_find_char, replace_first,
    str_eq, str_find,
};
use crate::types::texts;

verus! {

/// Whether `key` holds a star.
pub open spec fn is_pattern(key: Seq<char>) -> bool {
    find_char(key, '*') is Some
}

/// Whether `target` fits `pattern`: equality for a key without a star; else
/// `target` begins with what precedes the star and ends with what follows it.
pub open spec fn pattern_matches(pattern: Seq<char>, target: Seq<char>) -> bool {
    match find_char(pattern, '*') {
        Some(i) => pattern.subrange(0, i).is_prefix_of(target) && pattern.subrange(
            i + 1,
            pattern.len() as int,
        ).is_suffix_of(target),
        None => pattern == target,
    }
}

/// What the star of `pattern` stands for in `target`: the characters between
/// the part before the star and the part after it. Empty when `pattern` has
/// no star, or when `target` is too short to hold both parts side by side.
pub open spec fn pattern_capture(pattern: Seq<char>, target: Seq<char>) -> Seq<char> {
    match find_char(pattern, '*') {
        Some(i) => {
            let end = target.len() - (pattern.len() - i - 1);
            if i <= end {
                target.subrange(i, end)
            } else {
                Seq::<char>::empty()
            }
        },
        None => Seq::<char>::empty(),
    }
}

/// The length by which keys are ranked first: up to and including the star,
/// or the whole key where there is none.
pub open spec fn base_length(key: Seq<char>) -> int {
    match find_char(key, '*') {
        Some(i) => i + 1,
        None => key.len() as int,
    }
}

/// The order of two keys by specificity: `-1` where `a` is the more specific,
/// `1` where `b` is, `0` where neither is. The longer base length wins; then
/// a key without a star; then the longer key.
pub open spec fn key_compare(a: Seq<char>, b: Seq<char>) -> int {
    if base_length(a) > base_length(b) {
        -1
    } else if base_length(b) > base_length(a) {
        1
    } else if !is_pattern(a) && is_pattern(b) {
        -1
    } else if is_pattern(a) && !is_pattern(b) {
        1
    } else if a.len() > b.len() {
        -1
    } else if b.len() > a.len() {
        1
    } else {
        0
    }
}

/// Swapping the keys flips the sign of the comparison.
pub proof fn lemma_key_compare_antisymmetric(a: Seq<char>, b: Seq<char>)
    ensures
        key_compare(a, b) == -key_compare(b, a),
{
}

/// A key is as specific as itself.
pub proof fn lemma_key_compare_reflexive(a: Seq<char>)
    ensures
        key_compare(a, a) == 0,
{
}

/// Specificity is transitive: where `c` does not beat `b` and `b` does not
/// beat `a`, `c` does not beat `a`; and it does not tie with `a` unless both
/// steps are ties.
pub proof fn lemma_key_compare_transitive(a: Seq<char>, b: Seq<char>, c: Seq<char>)
    requires
        key_compare(a, b) <= 0,
        key_compare(b, c) <= 0,
    ensures
        key_compare(a, c) <= 0,
        key_compare(a, c) == 0 ==> key_compare(a, b) == 0 && key_compare(b, c) == 0,
{
}

/// Two keys that fit the same target and tie in specificity are one key:
/// among the keys of a map that fit a target, the order of insertion never
/// decides.
pub proof fn lemma_matching_tie_is_equal(a: Seq<char>, b: Seq<char>, target: Seq<char>)
    requires
        pattern_matches(a, target),
        pattern_matches(b, target),
        key_compare(a, b) == 0,
    ensures
        a == b,
{
    lemma_find_char(a, '*');
    lemma_find_char(b, '*');
    match find_char(a, '*') {
        Some(i) => {
            let n = a.len() as int;
            assert forall|j: int| 0 <= j < n implies a[j] == b[j] by {
                if j < i {
                    assert(b.subrange(0, i)[j] == target[j]);
                } else if j > i {
                    assert(b.subrange(i + 1, n)[j - i - 1] == b[j]);
                }
            }
        },
        None => {},
    }
}

/// A target that fits a starred key, and is long enough to hold the key's
/// two parts side by side, is the part before the star, then the capture,
/// then the part after the star.
pub proof fn lemma_capture_rebuilds_target(pattern: Seq<char>, target: Seq<char>)
    requires
        pattern_matches(pattern, target),
        is_pattern(pattern),
        target.len() + 1 >= pattern.len(),
    ensures
        target == replace_first(pattern, '*', pattern_capture(pattern, target)),
{
    lemma_find_char(pattern, '*');
}

/// Whether `target` fits `pattern`.
pub fn match_exports_pattern(pattern: &str, target: &str) -> (r: bool)
    ensures
        r == pattern_matches(pattern@, target@),
{
    let p = chars_of(pattern);
    let t = chars_of(target);
    match find_in(&p, '*') {
        Some(i) => {
            proof {
                lemma_find_char(p@, '*');
            }
            let n = pattern.unicode_len();
            let prefix = chars_of(pattern.substring_char(0, i));
            let suffix = chars_of(pattern.substring_char(i + 1, n));
            has_prefix(&t, &prefix) && has_suffix(&t, &suffix)
        },
        None => str_eq(pattern, target),
    }
}

/// The part of `target` that the star of `pattern` captured.
pub fn extract_exports_pattern<'a>(pattern: &str, target: &'a str) -> (r: &'a str)
    ensures
        r@ == pattern_capture(pattern@, target@),
{
    let t = target.unicode_len();
    match str_find(pattern, '*') {
        Some(i) => {
            proof {
                lemma_find_char(pattern@, '*');
            }
            let tail = pattern.unicode_len() - i - 1;
            if t >= tail && i <= t - tail {
                target.substring_char(i, t - tail)
            } else {
                target.substring_char(0, 0)
            }
        },
        None => target.substring_char(0, 0),
    }
}

/// The base length of `key`, and whether it holds a star.
fn key_rank(key: &str) -> (r: (usize, bool))
    ensures
        r.0 == base_length(key@),
        r.1 == is_pattern(key@),
{
    match str_find(key, '*') {
        Some(i) => {
            proof {
                lemma_find_char(key@, '*');
            }
            let n = key.unicode_len();
            assert(i < n);
            (i + 1, true)
        },
        None => (key.unicode_len(), false),
    }
}

/// Orders two keys by specificity.
pub fn pattern_key_compare(a: &str, b: &str) -> (r: isize)
    ensures
        r == key_compare(a@, b@),
{
    let (base_a, star_a) = key_rank(a);
    let (base_b, star_b) = key_rank(b);
    let len_a = a.unicode_len();
    let len_b = b.unicode_len();
    if base_a > base_b {
        -1
    } else if base_b > base_a {
        1
    } else if !star_a && star_b {
        -1
    } else if star_a && !star_b {
        1
    } else if len_a > len_b {
        -1
    } else if len_b > len_a {
        1
    } else {
        0
    }
}

/// Whether the key at position `j` may be chosen for `target`: it is marked
/// usable, is not empty, and `target` fits it.
pub open spec fn key_eligible(
    keys: Seq<Seq<char>>,
    usable: Seq<bool>,
    target: Seq<char>,
    j: int,
) -> bool {
    0 <= j < keys.len() && j < usable.len() && usable[j] && keys[j].len() > 0 && pattern_matches(
        keys[j],
        target,
    )
}

/// The position of the key that a scan of the first `n` keys keeps: a key
/// is kept where `target` fits it and it beats the key kept so far.
pub open spec fn best_key_upto(
    keys: Seq<Seq<char>>,
    usable: Seq<bool>,
    target: Seq<char>,
    n: int,
) -> Option<int>
    decreases n,
{
    if n <= 0 || n > keys.len() {
        None
    } else {
        let kept = best_key_upto(keys, usable, target, n - 1);
        let kept_key = match kept {
            Some(b) => keys[b],
            None => Seq::<char>::empty(),
        };
        if n - 1 < usable.len() && usable[n - 1] && pattern_matches(keys[n - 1], target)
            && key_compare(kept_key, keys[n - 1]) == 1 {
            Some(n - 1)
        } else {
            kept
        }
    }
}

/// The position of the most specific usable key that `target` fits.
pub open spec fn best_key(keys: Seq<Seq<char>>, usable: Seq<bool>, target: Seq<char>) -> Option<
    int,
> {
    best_key_upto(keys, usable, target, keys.len() as int)
}

/// Whether `best` is the position of a most specific eligible key among the
/// first `n`, and the earliest of those; `None` where no key is eligible.
pub open spec fn is_most_specific(
    keys: Seq<Seq<char>>,
    usable: Seq<bool>,
    target: Seq<char>,
    n: int,
    best: Option<int>,
) -> bool {
    match best {
        Some(b) => b < n && key_eligible(keys, usable, target, b) && forall|j: int|
            0 <= j < n && #[trigger] key_eligible(keys, usable, target, j) ==> key_compare(
                keys[b],
                keys[j],
            ) <= 0 && (key_compare(keys[b], keys[j]) == 0 ==> b <= j),
        None => forall|j: int| 0 <= j < n ==> !#[trigger] key_eligible(keys, usable, target, j),
    }
}

/// The key that the scan keeps is one that `target` fits and that no other
/// eligible key beats.
pub proof fn lemma_best_key_is_most_specific(
    keys: Seq<Seq<char>>,
    usable: Seq<bool>,
    target: Seq<char>,
    n: int,
)
    requires
        0 <= n <= keys.len(),
    ensures
        is_most_specific(keys, usable, target, n, best_key_upto(keys, usable, target, n)),
    decreases n,
{
    if n > 0 {
        lemma_best_key_is_most_specific(keys, usable, target, n - 1);
        let kept = best_key_upto(keys, usable, target, n - 1);
        let k = n - 1;
        let empty = Seq::<char>::empty();
        lemma_find_char(keys[k], '*');
        lemma_find_char(empty, '*');
        match kept {
            Some(b) => {
                if k < usable.len() && usable[k] && pattern_matches(keys[k], target) && key_compare(
                    keys[b],
                    keys[k],
                ) == 1 {
                    lemma_find_char(keys[b], '*');
                    assert forall|j: int|
                        0 <= j < n && #[trigger] key_eligible(
                            keys,
                            usable,
                            target,
                            j,
                        ) implies key_compare(keys[k], keys[j]) <= 0 && (key_compare(
                        keys[k],
                        keys[j],
                    ) == 0 ==> k <= j) by {
                        if j < k {
                            lemma_key_compare_transitive(keys[k], keys[b], keys[j]);
                        }
                    }
                }
            },
            None => {},
        }
    }
}

/// Two positions that both hold a most specific eligible key, each the
/// earliest such, are one position.
pub proof fn lemma_most_specific_is_unique(
    keys: Seq<Seq<char>>,
    usable: Seq<bool>,
    target: Seq<char>,
    n: int,
    a: Option<int>,
    b: Option<int>,
)
    requires
        is_most_specific(keys, usable, target, n, a),
        is_most_specific(keys, usable, target, n, b),
    ensures
        a == b,
{
}

/// The position of the most specific key among `keys` that `target` fits,
/// leaving out the keys that `usable` marks `false` or does not reach.
pub fn best_pattern_key(keys: &Vec<String>, usable: &Vec<bool>, target: &str) -> (r: Option<usize>)
    ensures
        match r {
            Some(b) => best_key(texts(keys@), usable@, target@) == Some(b as int),
            None => best_key(texts(keys@), usable@, target@) is None,
        },
        is_most_specific(
            texts(keys@),
            usable@,
            target@,
            keys@.len() as int,
            best_key(texts(keys@), usable@, target@),
        ),
{
    let ghost ks = texts(keys@);
    let mut best: Option<usize> = None;
    let mut i: usize = 0;
    while i < keys.len()
        invariant
            i <= keys.len(),
            ks == texts(keys@),
            match best {
                Some(b) => b < i && best_key_upto(ks, usable@, target@, i as int) == Some(b as int),
                None => best_key_upto(ks, usable@, target@, i as int) is None,
            },
        decreases keys.len() - i,
    {
        if i < usable.len() && usable[i] && match_exports_pattern(keys[i].as_str(), target) {
            let beats = match best {
                Some(b) => {
                    pattern_key_compare(keys[b].as_str(), keys[i].as_str()) == 1
                },
                None => {
                    let empty = String::new();
                    pattern_key_compare(empty.as_str(), keys[i].as_str()) == 1
                },
            };
            if beats {
                best = Some(i);
            }
        }
        i += 1;
    }
    proof {
        lemma_best_key_is_most_specific(ks, usable@, target@, keys@.len() as int);
    }
    best
}

/// The extension that `add_extension` sets on `path` to add `ext`: `ext`
/// behind the extension that `path` has and a dot, or `ext` alone where
/// `path` has none.
pub open spec fn joined_extension(path: Seq<char>, ext: Seq<char>) -> Seq<char> {
    match path_extension(path) {
        Some(e) => e + "."@ + ext,
        None => ext,
    }
}

/// What `add_extension` returns: `path` with the extension `ext` added
/// behind the one that it has.
pub open spec fn extension_added(path: Seq<char>, ext: Seq<char>) -> Seq<char> {
    path_with_extension(path, joined_extension(path, ext))
}

/// Whether `text` holds no character that separates the components of a
/// path.
pub fn is_separator_free(text: &str) -> (r: bool)
    ensures
        r == separator_free(text@),
{
    let chars = chars_of(text);
    let mut i: usize = 0;
    while i < chars.len()
        invariant
            i <= chars.len(),
            chars@ == text@,
            forall|k: int| 0 <= k < i ==> !path_separator(#[trigger] chars@[k]),
        decreases chars.len() - i,
    {
        if is_separator(chars[i]) {
            return false;
        }
        i += 1;
    }
    true
}

/// The extension that is set on `path` to add `extension`.
fn extension_to_set(path: &str, extension: &str) -> (r: String)
    ensures
        r@ == joined_extension(path@, extension@),
{
    match extension_of(path) {
        Some(e) => {
            let mut both = concat(e.as_str(), ".");
            both.append(extension);
            both
        },
        None => String::from_str(extension),
    }
}

/// Adds `extension` to `path`, keeping the extension that `path` has. The
/// extension that results must hold no path separator.
pub fn add_extension(path: &str, extension: &str) -> (r: String)
    requires
        separator_free(joined_extension(path@, extension@)),
    ensures
        r@ == extension_added(path@, extension@),
{
    let both = extension_to_set(path, extension);
    with_extension(path, both.as_str())
}

/// Adds `extension` to `path`, keeping the extension that `path` has;
/// `None` where the extension that results would hold a path separator.
pub fn checked_add_extension(path: &str, extension: &str) -> (r: Option<String>)
    ensures
        match r {
            Some(added) => separator_free(joined_extension(path@, extension@)) && added@
                == extension_added(path@, extension@),
            None => !separator_free(joined_extension(path@, extension@)),
        },
{
    let both = extension_to_set(path, extension);
    if is_separator_free(both.as_str()) {
        Some(add_extension(path, extension))
    } else {
        None
    }
}

} // verus!
