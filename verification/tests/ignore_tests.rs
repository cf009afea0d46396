use watchr::ignore::{default_ignores, parse_ignore_patterns, should_ignore, IgnorePattern};

fn texts(patterns: &[IgnorePattern]) -> Vec<String> {
    patterns.iter().map(|p| p.as_str().to_string()).collect()
}

#[test]
fn default_fragments_are_always_ignored() {
    assert_eq!(default_ignores().len(), 8);
    for path in [
        "./src/.git/HEAD",
        "/p/target/debug/x",
        "web/node_modules/a.js",
        "site/.next/x",
        "dist/bundle.js",
        "build/out",
        "py/__pycache__/m.pyc",
        "a/.DS_Store",
    ] {
        assert!(should_ignore(path, &[]), "{}", path);
    }
    assert!(!should_ignore("./src/main.rs", &[]));
    assert!(!should_ignore("", &[]));
    assert!(should_ignore("dist", &[]));
    assert!(should_ignore("C:\\proj\\target\\x.o", &[]));
}

#[test]
fn names_inside_longer_components_do_not_count() {
    assert!(!should_ignore("src/distance.rs", &[]));
    assert!(!should_ignore("src/builder.rs", &[]));
    assert!(!should_ignore("rebuild.sh", &[]));
    assert!(!should_ignore("./targets/a", &[]));
    assert!(!should_ignore("notes/.gitignore", &[]));
    assert!(should_ignore("src/distance.rs", &parse_ignore_patterns("*distance*")));
}

#[test]
fn user_patterns_are_matched_with_glob() {
    let patterns = parse_ignore_patterns("*.log,*.tmp");
    assert!(should_ignore("app.log", &patterns));
    assert!(should_ignore("./src/notes.tmp", &patterns));
    assert!(!should_ignore("./src/main.rs", &patterns));
}

#[test]
fn ignore_list_is_trimmed_and_filtered() {
    assert!(parse_ignore_patterns("").is_empty());
    assert_eq!(texts(&parse_ignore_patterns("*.log, *.tmp ,,dist/")), vec!["*.log", "*.tmp", "dist/"]);
    assert_eq!(texts(&parse_ignore_patterns(" , ")), Vec::<String>::new());
    // glob rejects `***` and an unclosed `[`: those pieces are dropped
    assert_eq!(texts(&parse_ignore_patterns("***,[ab,ok")), vec!["ok"]);
}

#[test]
fn pattern_new_reports_rejection() {
    assert!(IgnorePattern::new("a**b").is_none());
    let p = IgnorePattern::new("c?t").unwrap();
    assert_eq!(p.as_str(), "c?t");
    assert!(p.matches("cat"));
    assert!(!p.matches("coat"));
}
