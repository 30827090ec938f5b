use es_resolve::utils::{extract_exports_pattern, match_exports_pattern, pattern_key_compare};

#[test]
fn star_pattern_matches_prefix_and_suffix() {
    assert!(match_exports_pattern("./star/*", "./star/index"));
    assert!(match_exports_pattern("./a/*.js", "./a/b/c.js"));
    assert!(!match_exports_pattern("./a/*.js", "./a/b/c.ts"));
    assert!(!match_exports_pattern("./b/*", "./a/b"));
}

#[test]
fn plain_pattern_matches_by_equality() {
    assert!(match_exports_pattern("./nest2", "./nest2"));
    assert!(!match_exports_pattern("./nest2", "./nest2/x"));
}

#[test]
fn capture_is_the_middle() {
    assert_eq!(extract_exports_pattern("./star/*", "./star/index"), "index");
    assert_eq!(extract_exports_pattern("./a/*.js", "./a/b/c.js"), "b/c");
    assert_eq!(extract_exports_pattern("./plain", "./plain"), "");
    assert_eq!(extract_exports_pattern("a*a", "a"), "");
}

#[test]
fn longer_base_wins() {
    assert_eq!(pattern_key_compare("./a/*", "./a/b/*"), 1);
    assert_eq!(pattern_key_compare("./a/b/*", "./a/*"), -1);
    assert_eq!(pattern_key_compare("", "./a"), 1);
    assert_eq!(pattern_key_compare("./a/*", "./a/*"), 0);
    assert_eq!(pattern_key_compare("./a/*.js", "./a/*"), -1);
    assert_eq!(pattern_key_compare("./ab", "./a*"), -1);
    assert_eq!(pattern_key_compare("./a*", "./ab"), 1);
}
