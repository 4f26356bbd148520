use task_shell::pattern::{alternative_matches, is_glob, pattern_matches, string_match, PatternError};

#[test]
fn glob_characters_make_a_pattern() {
    for text in ["*", "a?", "[ab]", "x*y"] {
        assert!(is_glob(text), "{text}");
    }
    for text in ["", "abc", "a]b", "{a,b}", "!a"] {
        assert!(!is_glob(text), "{text}");
    }
}

#[test]
fn texts_match_patterns() {
    assert_eq!(string_match("main.rs", "*.rs", false), Ok(true));
    assert_eq!(string_match("main.rs", "*.c", false), Ok(false));
    assert_eq!(string_match("a/b", "*", false), Ok(false));
    assert_eq!(string_match(".hidden", "*", false), Ok(false));
    assert_eq!(string_match("A", "[a-z]", false), Ok(false));
}

#[test]
fn quoted_texts_match_themselves() {
    assert_eq!(string_match("main.rs", "*.rs", true), Ok(false));
    assert_eq!(string_match("*.rs", "*.rs", true), Ok(true));
    assert_eq!(string_match("abc", "abc", false), Ok(true));
}

#[test]
fn malformed_patterns_are_errors() {
    let error = string_match("a", "[a", false).unwrap_err();
    assert_eq!(error.pos, 0);
    assert_eq!(error.msg, "invalid range pattern");
    assert_eq!(string_match("a", "[a", true), Ok(false));
    assert!(!alternative_matches(Err(error)));
    assert!(!alternative_matches(Err(PatternError { pos: 1, msg: String::new() })));
    assert!(alternative_matches(Ok(true)));
    assert!(!alternative_matches(Ok(false)));
}

#[test]
fn alternatives_match() {
    assert!(pattern_matches("a|b*", "bcd"));
    assert!(pattern_matches("a|b*", "a"));
    assert!(!pattern_matches("a|b*", "c"));
    assert!(pattern_matches("[|x", "x"));
    assert!(pattern_matches("*", "a/b"));
    assert!(pattern_matches("*", ".hidden"));
    assert!(pattern_matches("", ""));
}
