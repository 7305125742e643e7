use lernie::prompt::dispatch::glob::{glob_match, match_one};

#[test]
fn glob_vocabulary_literals_star_and_doublestar() {
    for (pattern, path, expect) in [
        ("goal.md", "goal.md", true),
        ("goal.md", "soul.md", false),
        ("*.md", "notes.md", true),
        ("*.md", "docs/notes.md", false),
        ("docs/*", "docs/a.md", true),
        ("docs/*", "docs/sub/a.md", false),
        ("summary/**", "summary/001.md", true),
        ("summary/**", "summary/a/b.md", true),
        ("summary/**", "skills/a.md", false),
        ("**/SKILL.md", "skills/x/SKILL.md", true),
        ("**/SKILL.md", "skills/x/notes.md", false),
        ("a*c", "abc", true),
        ("a*c", "ac", true),
        ("a*c", "abd", false),
        ("a*b*c", "aXbYc", true),
        ("abc", "ab", false),
    ] {
        assert_eq!(glob_match(pattern, path), expect, "{pattern} vs {path} should be {expect}");
    }
}

#[test]
fn a_lone_doublestar_matches_any_path() {
    assert!(glob_match("**", "a/b/c"));
    assert!(glob_match("**", ""));
    assert!(glob_match("a/**/b", "a/b"));
    assert!(glob_match("a/**/b", "a/x/y/b"));
    assert!(!glob_match("a/**/b", "a/x/y/c"));
}

#[test]
fn a_star_is_byte_wise_within_one_segment() {
    assert!(match_one(b"*", b""));
    assert!(match_one(b"**", b"xyz"));
    assert!(!match_one(b"x*", b""));
    assert!(match_one("é*".as_bytes(), "été".as_bytes()));
}
