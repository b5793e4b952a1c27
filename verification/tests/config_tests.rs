use dive::config::Config;
use dive::config::Filetype;
use dive::config::ParseUsizeError;
use dive::config::RawOptions;
use dive::config::flag_to_filetype;
use dive::config::parse_usize;
use dive::matching::EntryPath;
use dive::matching::MatchRule;
use dive::should_show;

fn empty_options() -> RawOptions {
    RawOptions {
        case_sensitive: false,
        all: false,
        filetype: None,
        max_depth: None,
        exact: vec![],
        regex: vec![],
        regex_full: vec![],
        name: vec![],
        path: vec![],
        substring: vec![],
        free: vec![],
    }
}

fn entry(full: &str, name: Option<&str>) -> EntryPath {
    EntryPath { full: full.to_string(), file_name: name.map(|n| n.to_string()) }
}

#[test]
fn empty_options_build_a_passthrough_config() {
    let cfg = Config::new(&empty_options()).unwrap();
    assert!(!cfg.all);
    assert!(!cfg.case_sensitive);
    assert!(cfg.filetype_filter.is_none());
    assert!(cfg.max_depth.is_none());
    assert!(cfg.rules.is_empty());
    assert!(cfg.glob_options.require_literal_separator);
    assert!(!cfg.glob_options.require_literal_leading_dot);
}

#[test]
fn empty_rule_set_shows_every_entry() {
    let cfg = Config::new(&empty_options()).unwrap();
    assert!(should_show(None, &entry("a/b.txt", Some("b.txt")), &cfg));
    assert!(should_show(Some(Filetype::Directory), &entry("a", Some("a")), &cfg));
    assert!(should_show(Some(Filetype::Socket), &entry("/", None), &cfg));
}

#[test]
fn filetype_letters_resolve() {
    let cases = [
        ("b", Filetype::BlockSpecial),
        ("c", Filetype::CharacterSpecial),
        ("d", Filetype::Directory),
        ("f", Filetype::RegularFile),
        ("l", Filetype::SymbolicLink),
        ("p", Filetype::FIFO),
        ("s", Filetype::Socket),
    ];
    for (letter, want) in cases {
        let got = flag_to_filetype(&Some(letter.to_string())).unwrap();
        assert_eq!(got, Some(want));
    }
    assert_eq!(flag_to_filetype(&None).unwrap(), None);
    let err = flag_to_filetype(&Some("x".to_string())).err().expect("expected an error");
    assert_eq!(err, "Unknown filetype x");
    let err = flag_to_filetype(&Some("dd".to_string())).err().expect("expected an error");
    assert_eq!(err, "Unknown filetype dd");
}

#[test]
fn filetype_filter_applies_when_metadata_known() {
    let mut opts = empty_options();
    opts.filetype = Some("f".to_string());
    let cfg = Config::new(&opts).unwrap();
    assert_eq!(cfg.filetype_filter, Some(Filetype::RegularFile));
    let e = entry("a/b.txt", Some("b.txt"));
    assert!(should_show(Some(Filetype::RegularFile), &e, &cfg));
    assert!(!should_show(Some(Filetype::Directory), &e, &cfg));
    assert!(should_show(None, &e, &cfg));
}

#[test]
fn parse_usize_accepts_plain_numerals() {
    assert_eq!(parse_usize("0"), Ok(0));
    assert_eq!(parse_usize("10"), Ok(10));
    assert_eq!(parse_usize("+5"), Ok(5));
    assert_eq!(parse_usize("007"), Ok(7));
}

#[test]
fn parse_usize_rejects_bad_numerals() {
    assert_eq!(parse_usize(""), Err(ParseUsizeError::Empty));
    assert_eq!(parse_usize("+"), Err(ParseUsizeError::InvalidDigit));
    assert_eq!(parse_usize("abc"), Err(ParseUsizeError::InvalidDigit));
    assert_eq!(parse_usize("12x"), Err(ParseUsizeError::InvalidDigit));
    assert_eq!(parse_usize("-3"), Err(ParseUsizeError::InvalidDigit));
    assert_eq!(
        parse_usize("99999999999999999999999999"),
        Err(ParseUsizeError::Overflow)
    );
}

#[test]
fn max_depth_flag_resolves() {
    let mut opts = empty_options();
    opts.max_depth = Some("10".to_string());
    let cfg = Config::new(&opts).unwrap();
    assert_eq!(cfg.max_depth, Some(10));

    let mut opts = empty_options();
    opts.max_depth = Some("abc".to_string());
    let err = Config::new(&opts).err().expect("expected an error");
    assert_eq!(
        err,
        "unable to parse maxdepth argument: abc: invalid digit found in string"
    );

    let mut opts = empty_options();
    opts.max_depth = Some("".to_string());
    let err = Config::new(&opts).err().expect("expected an error");
    assert_eq!(
        err,
        "unable to parse maxdepth argument: : cannot parse integer from empty string"
    );

    let mut opts = empty_options();
    opts.max_depth = Some("99999999999999999999999999".to_string());
    let err = Config::new(&opts).err().expect("expected an error");
    assert_eq!(
        err,
        "unable to parse maxdepth argument: 99999999999999999999999999: number too large to fit in target type"
    );
}

#[test]
fn aggregated_errors_mention_every_failing_input() {
    let mut opts = empty_options();
    opts.regex = vec!["(".to_string(), "[".to_string()];
    opts.max_depth = Some("12x".to_string());
    let err = Config::new(&opts).err().expect("expected an error");
    assert!(err.contains("("));
    assert!(err.contains("["));
    assert!(err.contains("12x"));
    assert_eq!(
        err,
        "unable to parse matching rules: (, [; unable to parse maxdepth argument: 12x: invalid digit found in string"
    );
}

#[test]
fn aggregated_errors_include_unknown_filetype() {
    let mut opts = empty_options();
    opts.name = vec!["[".to_string()];
    opts.filetype = Some("z".to_string());
    let err = Config::new(&opts).err().expect("expected an error");
    assert_eq!(err, "unable to parse matching rules: [; Unknown filetype z");
}

#[test]
fn rules_compile_in_family_order() {
    let mut opts = empty_options();
    opts.exact = vec!["README".to_string()];
    opts.regex = vec!["^a$".to_string()];
    opts.regex_full = vec!["/tmp/".to_string()];
    opts.name = vec!["*.md".to_string()];
    opts.path = vec!["src/*.rs".to_string()];
    opts.substring = vec!["log".to_string()];
    opts.free = vec!["report".to_string()];
    let cfg = Config::new(&opts).unwrap();
    assert_eq!(cfg.rules.len(), 7);
    match &cfg.rules[0] {
        MatchRule::Exact(s) => assert_eq!(s.as_str(), "readme"),
        _ => panic!("expected an exact rule first"),
    }
    assert!(matches!(&cfg.rules[1], MatchRule::Regex(_)));
    assert!(matches!(&cfg.rules[2], MatchRule::RegexFullpath(_)));
    match &cfg.rules[3] {
        MatchRule::NameGlob(g) => assert_eq!(g.pattern_text().as_str(), "*.md"),
        _ => panic!("expected a name glob fourth"),
    }
    match &cfg.rules[4] {
        MatchRule::PathGlob(g) => assert_eq!(g.pattern_text().as_str(), "src/*.rs"),
        _ => panic!("expected a path glob fifth"),
    }
    match &cfg.rules[5] {
        MatchRule::Substring(s) => assert_eq!(s.as_str(), "log"),
        _ => panic!("expected a substring rule sixth"),
    }
    match &cfg.rules[6] {
        MatchRule::Substring(s) => assert_eq!(s.as_str(), "report"),
        _ => panic!("expected a smart-resolved substring rule last"),
    }
}

#[test]
fn case_sensitive_flag_skips_needle_folding() {
    let mut opts = empty_options();
    opts.case_sensitive = true;
    opts.exact = vec!["README".to_string()];
    let cfg = Config::new(&opts).unwrap();
    match &cfg.rules[0] {
        MatchRule::Exact(s) => assert_eq!(s.as_str(), "README"),
        _ => panic!("expected an exact rule"),
    }
    assert!(cfg.case_sensitive);
    assert!(cfg.glob_options.case_sensitive);
}

#[test]
fn config_rules_drive_should_show() {
    let mut opts = empty_options();
    opts.free = vec!["todo".to_string()];
    let cfg = Config::new(&opts).unwrap();
    assert!(should_show(None, &entry("a/TODOLIST", Some("TODOLIST")), &cfg));
    assert!(!should_show(None, &entry("a/done", Some("done")), &cfg));
}
