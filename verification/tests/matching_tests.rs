use dive::config::Config;
use dive::engines::GlobOptions;
use dive::matching::EntryPath;
use dive::matching::GlobTarget;
use dive::matching::MatchRule;
use dive::should_show;

fn entry(full: &str, name: Option<&str>) -> EntryPath {
    EntryPath { full: full.to_string(), file_name: name.map(|n| n.to_string()) }
}

fn config_with(case_sensitive: bool, rules: Vec<MatchRule>) -> Config {
    Config {
        all: false,
        case_sensitive,
        filetype_filter: None,
        glob_options: GlobOptions {
            case_sensitive,
            require_literal_separator: true,
            require_literal_leading_dot: false,
        },
        max_depth: None,
        rules,
    }
}

#[test]
fn name_glob_ignores_parent_directories() {
    let rule = MatchRule::new_glob_match(&"*.md".to_string(), &GlobTarget::Name).unwrap();
    let cfg = config_with(true, vec![]);
    assert!(rule.matches(&entry("a/b/notes.md", Some("notes.md")), &cfg));
    assert!(rule.matches(&entry("x/y/z/notes.md", Some("notes.md")), &cfg));
    assert!(rule.matches(&entry("notes.md", Some("notes.md")), &cfg));
    assert!(!rule.matches(&entry("a/b/notes.txt", Some("notes.txt")), &cfg));
}

#[test]
fn no_basename_rules_never_match() {
    let cfg = config_with(false, vec![]);
    let root = entry("/", None);
    let name_glob = MatchRule::new_glob_match(&"*".to_string(), &GlobTarget::Name).unwrap();
    let regex = MatchRule::new_regex_match(&".*".to_string(), false, false).unwrap();
    let substr = MatchRule::new_substr_match(&"".to_string(), false).unwrap();
    let exact = MatchRule::new_exact_match(&"".to_string(), false).unwrap();
    assert!(!name_glob.matches(&root, &cfg));
    assert!(!regex.matches(&root, &cfg));
    assert!(!substr.matches(&root, &cfg));
    assert!(!exact.matches(&root, &cfg));
    let full_regex = MatchRule::new_regex_match(&"^/$".to_string(), false, true).unwrap();
    assert!(full_regex.matches(&root, &cfg));
}

#[test]
fn substring_case_insensitive() {
    let rule = MatchRule::new_substr_match(&"ABC".to_string(), false).unwrap();
    let cfg = config_with(false, vec![]);
    assert!(rule.matches(&entry("d/xabcx", Some("xabcx")), &cfg));
    assert!(rule.matches(&entry("d/XABCX", Some("XABCX")), &cfg));
    assert!(!rule.matches(&entry("d/xabx", Some("xabx")), &cfg));
}

#[test]
fn substring_case_sensitive() {
    let rule = MatchRule::new_substr_match(&"ABC".to_string(), true).unwrap();
    let cfg = config_with(true, vec![]);
    assert!(rule.matches(&entry("d/xABCx", Some("xABCx")), &cfg));
    assert!(!rule.matches(&entry("d/xabcx", Some("xabcx")), &cfg));
}

#[test]
fn exact_case_insensitive() {
    let rule = MatchRule::new_exact_match(&"README".to_string(), false).unwrap();
    let cfg = config_with(false, vec![]);
    assert!(rule.matches(&entry("p/readme", Some("readme")), &cfg));
    assert!(rule.matches(&entry("p/README", Some("README")), &cfg));
    assert!(rule.matches(&entry("p/ReadMe", Some("ReadMe")), &cfg));
    assert!(!rule.matches(&entry("p/README.md", Some("README.md")), &cfg));
}

#[test]
fn exact_case_sensitive() {
    let rule = MatchRule::new_exact_match(&"README".to_string(), true).unwrap();
    let cfg = config_with(true, vec![]);
    assert!(rule.matches(&entry("p/README", Some("README")), &cfg));
    assert!(!rule.matches(&entry("p/readme", Some("readme")), &cfg));
}

#[test]
fn smart_match_slash_without_glob_chars() {
    let rule = MatchRule::new_smart_match(&"foo/bar".to_string(), true).unwrap();
    match &rule {
        MatchRule::PathGlob(g) => assert_eq!(g.pattern_text().as_str(), "**/foo/*bar*"),
        _ => panic!("expected a path glob"),
    }
}

#[test]
fn smart_match_trailing_slash() {
    let rule = MatchRule::new_smart_match(&"foo/".to_string(), true).unwrap();
    match &rule {
        MatchRule::PathGlob(g) => assert_eq!(g.pattern_text().as_str(), "**/foo/*"),
        _ => panic!("expected a path glob"),
    }
}

#[test]
fn smart_match_glob_chars_no_slash() {
    let rule = MatchRule::new_smart_match(&"*.txt".to_string(), true).unwrap();
    match &rule {
        MatchRule::NameGlob(g) => assert_eq!(g.pattern_text().as_str(), "*.txt"),
        _ => panic!("expected a name glob"),
    }
}

#[test]
fn smart_match_plain_token_is_substring() {
    let rule = MatchRule::new_smart_match(&"report".to_string(), true).unwrap();
    match &rule {
        MatchRule::Substring(s) => assert_eq!(s.as_str(), "report"),
        _ => panic!("expected a substring rule"),
    }
}

#[test]
fn smart_match_slash_and_glob_chars_kept_verbatim() {
    let rule = MatchRule::new_smart_match(&"src/*.rs".to_string(), true).unwrap();
    match &rule {
        MatchRule::PathGlob(g) => assert_eq!(g.pattern_text().as_str(), "src/*.rs"),
        _ => panic!("expected a path glob"),
    }
}

#[test]
fn smart_match_drops_empty_segments() {
    let rule = MatchRule::new_smart_match(&"a//b".to_string(), true).unwrap();
    match &rule {
        MatchRule::PathGlob(g) => assert_eq!(g.pattern_text().as_str(), "**/a/*b*"),
        _ => panic!("expected a path glob"),
    }
    let rule = MatchRule::new_smart_match(&"/abs/path".to_string(), true).unwrap();
    match &rule {
        MatchRule::PathGlob(g) => assert_eq!(g.pattern_text().as_str(), "**/abs/*path*"),
        _ => panic!("expected a path glob"),
    }
}

#[test]
fn glob_bracket_class() {
    let rule = MatchRule::new_glob_match(&"file[0-2].c".to_string(), &GlobTarget::Name).unwrap();
    let cfg = config_with(true, vec![]);
    assert!(rule.matches(&entry("d/file1.c", Some("file1.c")), &cfg));
    assert!(!rule.matches(&entry("d/file9.c", Some("file9.c")), &cfg));
    assert!(!rule.matches(&entry("d/file12.c", Some("file12.c")), &cfg));
}

#[test]
fn smart_match_built_pattern_behaviour() {
    let rule = MatchRule::new_smart_match(&"foo/bar".to_string(), true).unwrap();
    let cfg = config_with(true, vec![]);
    assert!(rule.matches(&entry("a/foo/xbary", Some("xbary")), &cfg));
    assert!(rule.matches(&entry("a/b/foo/bar", Some("bar")), &cfg));
    assert!(!rule.matches(&entry("a/foo/zzz", Some("zzz")), &cfg));
    assert!(!rule.matches(&entry("a/other/xbary", Some("xbary")), &cfg));
}

#[test]
fn regex_rule_on_basename() {
    let rule = MatchRule::new_regex_match(&"^ab+c$".to_string(), true, false).unwrap();
    let cfg = config_with(true, vec![]);
    assert!(rule.matches(&entry("d/abbc", Some("abbc")), &cfg));
    assert!(rule.matches(&entry("d/abc", Some("abc")), &cfg));
    assert!(!rule.matches(&entry("d/ac", Some("ac")), &cfg));
    assert!(!rule.matches(&entry("d/xabc", Some("xabc")), &cfg));
}

#[test]
fn regex_rule_case_insensitive() {
    let rule = MatchRule::new_regex_match(&"^readme$".to_string(), false, false).unwrap();
    let cfg = config_with(false, vec![]);
    assert!(rule.matches(&entry("d/README", Some("README")), &cfg));
    assert!(rule.matches(&entry("d/readme", Some("readme")), &cfg));
}

#[test]
fn regex_full_path_rule() {
    let rule = MatchRule::new_regex_match(&"src/.*\\.rs$".to_string(), true, true).unwrap();
    let cfg = config_with(true, vec![]);
    assert!(rule.matches(&entry("src/lib.rs", Some("lib.rs")), &cfg));
    assert!(rule.matches(&entry("a/src/deep/mod.rs", Some("mod.rs")), &cfg));
    assert!(!rule.matches(&entry("src/lib.c", Some("lib.c")), &cfg));
}

#[test]
fn path_glob_rule_on_full_path() {
    let rule = MatchRule::new_glob_match(&"src/*.rs".to_string(), &GlobTarget::Path).unwrap();
    let cfg = config_with(true, vec![]);
    assert!(rule.matches(&entry("src/lib.rs", Some("lib.rs")), &cfg));
    assert!(!rule.matches(&entry("other/lib.rs", Some("lib.rs")), &cfg));
    assert!(!rule.matches(&entry("src/deep/lib.rs", Some("lib.rs")), &cfg));
}

#[test]
fn glob_case_insensitive_matching() {
    let rule = MatchRule::new_glob_match(&"*.TXT".to_string(), &GlobTarget::Name).unwrap();
    let cfg = config_with(false, vec![]);
    assert!(rule.matches(&entry("d/a.txt", Some("a.txt")), &cfg));
    let cfg_cs = config_with(true, vec![]);
    assert!(!rule.matches(&entry("d/a.txt", Some("a.txt")), &cfg_cs));
}

#[test]
fn bad_glob_pattern_reports_raw_text() {
    let err = MatchRule::new_glob_match(&"[".to_string(), &GlobTarget::Name).err().expect("expected an error");
    assert_eq!(err, "Unable to parse pattern [");
    let err = MatchRule::new_smart_match(&"a/[".to_string(), true).err().expect("expected an error");
    assert_eq!(err, "Unable to parse pattern a/[");
}

#[test]
fn bad_regex_pattern_reports_raw_text() {
    let err = MatchRule::new_regex_match(&"(".to_string(), true, false).err().expect("expected an error");
    assert_eq!(err, "Unable to parse regex (");
}

#[test]
fn or_semantics_independent_of_order() {
    let entries = [
        entry("a/notes.md", Some("notes.md")),
        entry("a/todolist.txt", Some("todolist.txt")),
        entry("a/other.txt", Some("other.txt")),
    ];
    let expected = [true, true, false];
    for order in 0..2 {
        let glob = MatchRule::new_glob_match(&"*.md".to_string(), &GlobTarget::Name).unwrap();
        let substr = MatchRule::new_substr_match(&"todo".to_string(), false).unwrap();
        let rules = if order == 0 {
            vec![glob, substr]
        } else {
            vec![substr, glob]
        };
        let cfg = config_with(false, rules);
        for (e, want) in entries.iter().zip(expected.iter()) {
            assert_eq!(should_show(None, e, &cfg), *want);
        }
    }
}
