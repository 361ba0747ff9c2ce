use project_summarizer::config::{is_exclude, partition_patterns, strip_marker};
use project_summarizer::matcher::{
    append_expansion_roots, collect_matches, contains_path, filter_entries, is_excluded, summarize,
};
use project_summarizer::paths::{is_ancestor, join_path, norm_path};
use project_summarizer::report::build_report;

fn s(x: &str) -> String {
    x.to_string()
}

#[test]
fn exclude_marker_detection() {
    assert!(is_exclude(&s("!target/**")));
    assert!(!is_exclude(&s("src/*.rs")));
    assert!(!is_exclude(&s("")));
    assert!(!is_exclude(&s("a!b")));
}

#[test]
fn partition_keeps_order_and_markers() {
    let patterns = vec![s("src/*.rs"), s("!src/generated/**"), s("docs/*.md"), s("!target/**")];
    let (includes, excludes) = partition_patterns(&patterns);
    assert_eq!(includes, vec![s("src/*.rs"), s("docs/*.md")]);
    assert_eq!(excludes, vec![s("!src/generated/**"), s("!target/**")]);
}

#[test]
fn partition_of_empty_list() {
    let patterns: Vec<String> = vec![];
    let (includes, excludes) = partition_patterns(&patterns);
    assert!(includes.is_empty());
    assert!(excludes.is_empty());
}

#[test]
fn strip_marker_removes_leading_bangs() {
    assert_eq!(strip_marker(&s("!src/generated/**")), s("src/generated/**"));
    assert_eq!(strip_marker(&s("!!x")), s("x"));
    assert_eq!(strip_marker(&s("plain")), s("plain"));
    assert_eq!(strip_marker(&s("!")), s(""));
    assert_eq!(strip_marker(&s("a!b")), s("a!b"));
}

#[test]
fn join_path_glues_with_one_separator() {
    assert_eq!(join_path(&s("."), &s("src/*.txt")), s("./src/*.txt"));
    assert_eq!(join_path(&s("base/"), &s("x")), s("base/x"));
    assert_eq!(join_path(&s("base"), &s("x")), s("base/x"));
    assert_eq!(join_path(&s(""), &s("x")), s("x"));
    assert_eq!(join_path(&s("base"), &s("/abs/x")), s("/abs/x"));
}

#[test]
fn norm_path_drops_leading_dot_slash() {
    assert_eq!(norm_path(&s("./src/a.txt")), s("src/a.txt"));
    assert_eq!(norm_path(&s("././x")), s("x"));
    assert_eq!(norm_path(&s("src/./a")), s("src/./a"));
    assert_eq!(norm_path(&s("plain")), s("plain"));
    assert_eq!(norm_path(&s("")), s(""));
}

#[test]
fn ancestor_relation() {
    assert!(is_ancestor(&s("src/generated"), &s("src/generated/out.rs")));
    assert!(is_ancestor(&s("src/generated"), &s("./src/generated/out.rs")));
    assert!(is_ancestor(&s("./src/generated"), &s("src/generated/out.rs")));
    assert!(is_ancestor(&s("src/generated/out.rs"), &s("src/generated/out.rs")));
    assert!(is_ancestor(&s("a"), &s("a/b/c")));
    assert!(!is_ancestor(&s("src/gen"), &s("src/generated/out.rs")));
    assert!(!is_ancestor(&s("src/generated"), &s("src/lib.rs")));
    assert!(!is_ancestor(&s("a/b/c"), &s("a")));
}

#[test]
fn exclusion_over_roots() {
    let roots = vec![s("src/generated"), s("target")];
    assert!(is_excluded(&s("./src/generated/out.rs"), &roots));
    assert!(is_excluded(&s("target/debug/x"), &roots));
    assert!(!is_excluded(&s("src/lib.rs"), &roots));
    let no_roots: Vec<String> = vec![];
    assert!(!is_excluded(&s("src/lib.rs"), &no_roots));
}

#[test]
fn contains_path_finds_exact_match() {
    let v = vec![s("a"), s("b/c")];
    assert!(contains_path(&v, &s("b/c")));
    assert!(!contains_path(&v, &s("b")));
}

#[test]
fn report_for_one_file() {
    let paths = vec![s("src/a.txt")];
    let contents = vec![s("hello")];
    let report = build_report(&paths, &contents);
    let expected = "## Key Files Paths\n- src/a.txt\n\n\n## Files Contents\n\n### File: src/a.txt\n```\nhello\n```\n";
    assert_eq!(report, expected);
}

#[test]
fn report_for_empty_match_list() {
    let paths: Vec<String> = vec![];
    let contents: Vec<String> = vec![];
    let report = build_report(&paths, &contents);
    assert_eq!(report, "## Key Files Paths\n\n\n## Files Contents\n");
}

#[test]
fn report_keeps_content_verbatim() {
    let paths = vec![s("notes.md")];
    let fence_heavy = s("before\n```\ninner fence\n```\nafter");
    let contents = vec![fence_heavy.clone()];
    let report = build_report(&paths, &contents);
    assert!(report.contains(fence_heavy.as_str()));
    let expected = "## Key Files Paths\n- notes.md\n\n\n## Files Contents\n\n### File: notes.md\n```\nbefore\n```\ninner fence\n```\nafter\n```\n";
    assert_eq!(report, expected);
}

#[test]
fn report_orders_entries_as_given() {
    let paths = vec![s("b"), s("a")];
    let contents = vec![s("2"), s("1")];
    let report = build_report(&paths, &contents);
    let expected = "## Key Files Paths\n- b\n- a\n\n\n## Files Contents\n\n### File: b\n```\n2\n```\n\n### File: a\n```\n1\n```\n";
    assert_eq!(report, expected);
}

#[test]
fn report_is_deterministic() {
    let paths = vec![s("x"), s("y")];
    let contents = vec![s("one"), s("two")];
    assert_eq!(build_report(&paths, &contents), build_report(&paths, &contents));
}

// The matching tests below expand patterns against the crate's own source
// tree, which is present wherever the crate builds.

#[test]
fn matching_finds_real_files() {
    let patterns = vec![s("src/*.rs")];
    let matched = summarize(&s("."), &patterns).unwrap();
    assert!(contains_path(&matched, &s("src/lib.rs")));
    assert!(contains_path(&matched, &s("src/report.rs")));
}

#[test]
fn matching_with_other_base() {
    let patterns = vec![s("*.rs")];
    let matched = summarize(&s("src"), &patterns).unwrap();
    assert!(contains_path(&matched, &s("src/lib.rs")));
}

#[test]
fn matching_skips_directories() {
    // The pattern "src" matches the directory itself, which is no regular
    // file and so never reaches the report.
    let patterns = vec![s("src")];
    let matched = summarize(&s("."), &patterns).unwrap();
    assert!(matched.is_empty());
}

#[test]
fn exclusion_drops_subtree() {
    let with_exclusion = vec![s("src/**/*.rs"), s("!src/matcher.rs")];
    let matched = summarize(&s("."), &with_exclusion).unwrap();
    assert!(contains_path(&matched, &s("src/lib.rs")));
    assert!(!contains_path(&matched, &s("src/matcher.rs")));
}

#[test]
fn exclusion_by_ancestor_directory() {
    let patterns = vec![s("src/*.rs"), s("!src")];
    let matched = summarize(&s("."), &patterns).unwrap();
    assert!(matched.is_empty());
}

#[test]
fn overlapping_patterns_deduplicate() {
    let patterns = vec![s("src/lib.rs"), s("src/*.rs")];
    let matched = summarize(&s("."), &patterns).unwrap();
    let hits = matched.iter().filter(|p| p.as_str() == "src/lib.rs").count();
    assert_eq!(hits, 1);
}

#[test]
fn malformed_include_pattern_is_fatal() {
    let patterns = vec![s("src/[")];
    let r = summarize(&s("."), &patterns);
    match r {
        Ok(_) => panic!("an unclosed character class must be rejected"),
        Err(m) => assert!(m.starts_with("Glob pattern error: ")),
    }
}

#[test]
fn malformed_exclude_pattern_is_ignored() {
    let patterns = vec![s("src/lib.rs"), s("!src/[")];
    let matched = summarize(&s("."), &patterns).unwrap();
    assert!(contains_path(&matched, &s("src/lib.rs")));
}

#[test]
fn empty_pattern_list_matches_nothing() {
    let patterns: Vec<String> = vec![];
    let matched = summarize(&s("."), &patterns).unwrap();
    assert!(matched.is_empty());
    let report = build_report(&matched, &vec![]);
    assert_eq!(report, "## Key Files Paths\n\n\n## Files Contents\n");
}

#[test]
fn collect_matches_reports_first_bad_pattern() {
    let includes = vec![s("src/*.rs"), s("src/[")];
    let roots: Vec<String> = vec![];
    let r = collect_matches(&s("."), &includes, &roots);
    assert!(r.is_err());
}


#[test]
fn filter_entries_applies_every_rule() {
    let entries = vec![
        Some(s("docs/a.md")),
        None,
        Some(s("x/y.txt")),
        Some(s("docs/b.md")),
        Some(s("docs/a.md")),
    ];
    // the None entry's flag is irrelevant; docs/b.md is flagged as no file
    let flags = vec![true, false, true, false, true];
    let roots = vec![s("x")];
    let mut out = vec![s("pre")];
    filter_entries(&entries, &flags, &roots, &mut out);
    // x/y.txt is under the root x; docs/b.md is no file; the second
    // docs/a.md is a duplicate
    assert_eq!(out, vec![s("pre"), s("docs/a.md")]);
}

#[test]
fn filter_entries_drops_already_listed_paths() {
    let entries = vec![Some(s("kept")), Some(s("pre"))];
    let flags = vec![true, true];
    let roots: Vec<String> = vec![];
    let mut out = vec![s("pre")];
    filter_entries(&entries, &flags, &roots, &mut out);
    assert_eq!(out, vec![s("pre"), s("kept")]);
}

#[test]
fn expansion_roots_keep_only_resolved_entries() {
    let ok: Result<Vec<Option<String>>, String> =
        Ok(vec![Some(s("r1")), None, Some(s("r2"))]);
    let mut roots: Vec<String> = vec![];
    append_expansion_roots(&ok, &mut roots);
    assert_eq!(roots, vec![s("r1"), s("r2")]);
    let failed: Result<Vec<Option<String>>, String> = Err(s("bad pattern"));
    append_expansion_roots(&failed, &mut roots);
    assert_eq!(roots, vec![s("r1"), s("r2")]);
}
