use pricing_engine::pattern::{anchored, has_wildcard, PatternCache};
use pricing_engine::{Matcher, PricingError};

#[test]
fn wildcards_become_segment_expressions() {
    assert_eq!(anchored("/material/*/color"), "^/material/[^/]+/color$");
    assert_eq!(anchored("/volume"), "^/volume$");
    assert_eq!(anchored(""), "^$");
    assert_eq!(anchored("*/*"), "^[^/]+/[^/]+$");
}

#[test]
fn wildcard_is_found_anywhere_in_a_text() {
    assert!(has_wildcard("/material/*/color"));
    assert!(has_wildcard("*"));
    assert!(!has_wildcard("/material/pla/color"));
    assert!(!has_wildcard(""));
}

#[test]
fn matcher_covers_the_whole_path() {
    let m = Matcher::compile("/material/*/color").unwrap();
    assert_eq!(m.pattern_text(), "/material/*/color");
    assert!(m.matches("/material/pla/color"));
    assert!(m.matches("/material/resin/color"));
    assert!(!m.matches("/material/pla/color/extra"));
    assert!(!m.matches("prefix/material/pla/color"));
    assert!(!m.matches("/material//color"));
    assert!(!m.matches("/material/a/b/color"));
}

#[test]
fn matcher_without_wildcard_matches_only_its_own_path() {
    let m = Matcher::compile("/volume").unwrap();
    assert!(m.matches("/volume"));
    assert!(!m.matches("/volume/extra"));
    assert!(!m.matches("/volum"));
}

#[test]
fn unparsable_pattern_is_reported() {
    match Matcher::compile("/a/(") {
        Err(PricingError::UnparsablePattern { pattern }) => assert_eq!(pattern, "/a/("),
        _ => panic!("an unclosed group must not compile"),
    }
}

#[test]
fn cache_compiles_each_pattern_once() {
    let mut cache = PatternCache::new();
    assert_eq!(cache.len(), 0);
    let first = cache.get_regex("/a/*").unwrap();
    assert_eq!(cache.len(), 1);
    let second = cache.get_regex("/b/*").unwrap();
    assert_eq!(cache.len(), 2);
    assert_ne!(first, second);
    let again = cache.get_regex("/a/*").unwrap();
    assert_eq!(again, first);
    assert_eq!(cache.len(), 2);
    assert_eq!(cache.slot_matches(first, "/a/x"), Some(true));
    assert_eq!(cache.slot_matches(second, "/a/x"), Some(false));
    assert_eq!(cache.slot_matches(2, "/a/x"), None);
}

#[test]
fn cache_is_left_alone_by_a_pattern_that_fails() {
    let mut cache = PatternCache::new();
    cache.get_regex("/a/*").unwrap();
    assert!(cache.get_regex("[").is_err());
    assert_eq!(cache.len(), 1);
}

#[test]
fn cached_matcher_answers_as_a_fresh_one() {
    let mut cache = PatternCache::new();
    let paths = ["/a/x", "/a/x/y", "/b/x", "/a/"];
    for path in paths.iter() {
        let fresh = Matcher::compile("/a/*").unwrap().matches(path);
        let slot = cache.get_regex("/a/*").unwrap();
        assert_eq!(cache.slot_matches(slot, path), Some(fresh));
        let again = cache.get_regex("/a/*").unwrap();
        assert_eq!(cache.slot_matches(again, path), Some(fresh));
    }
    assert_eq!(cache.len(), 1);
}

#[test]
fn patterns_may_hold_any_characters() {
    assert_eq!(anchored("/mat\u{e9}riau/*"), "^/mat\u{e9}riau/[^/]+$");
    let m = Matcher::compile("/mat\u{e9}riau/*").unwrap();
    assert!(m.matches("/mat\u{e9}riau/bois"));
    assert!(m.matches("/mat\u{e9}riau/\u{4e2d}\u{6587}"));
    assert!(!m.matches("/materiau/bois"));
}

#[test]
fn pattern_characters_other_than_the_wildcard_keep_their_meaning() {
    // The pattern is read as an expression: a dot stands for any character.
    let m = Matcher::compile("/size.x").unwrap();
    assert!(m.matches("/size.x"));
    assert!(m.matches("/size-x"));
    assert!(!m.matches("/size"));
}
