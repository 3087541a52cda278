use quire_cli::trace::{
    assemble_report, citation_lines, compile_exclude_globs, drop_excluded_citations, matched_prefix_ids,
    parse_symbol_query, path_excluded, plan_query, prefix_matches, report_after_exclusion, search_ids,
    Args, CitationRecord,
    Query, QueryDescription, QueryPlan,
    CITATION_INLINE_LIMIT,
};

#[test]
fn tc_prefix_matches_a_separator_boundary_not_a_digit_run() {
    // `FR-047` must not match `FR-0470`, only ids that continue past a
    // separator.
    assert!(prefix_matches("FR-047", "FR-047"));
    assert!(prefix_matches("FR-047-AC-1", "FR-047"));
    assert!(!prefix_matches("FR-0470", "FR-047"));
    assert!(!prefix_matches("FR-04", "FR-047"));
    assert!(!prefix_matches("XR-047", "FR-047"));
}

#[test]
fn a_prefix_folds_case_and_separator_like_an_exact_id() {
    assert!(prefix_matches("FR-950", "fr-950"));
    assert!(prefix_matches("FR-950", "FR_950"));
    assert!(prefix_matches("FR_950", "FR-950"));
    assert!(prefix_matches("FR-950-AC-1", "fr_950"));
    assert!(!prefix_matches("FR-9500", "fr-950"));
}

#[test]
fn a_trailing_separator_on_the_prefix_changes_nothing() {
    assert!(prefix_matches("FR-950", "FR-950-"));
    assert!(prefix_matches("FR_950", "FR-950-"));
    assert!(!prefix_matches("FR-9501", "FR-950-"));
}

#[test]
fn a_prefix_with_no_segment_matches_nothing() {
    assert!(!prefix_matches("FR-950", ""));
    assert!(!prefix_matches("FR-950", "-"));
}

#[test]
fn both_raw_spellings_are_matched_and_searched_once() {
    let ids = vec![
        "FR_950".to_string(),
        "FR-950".to_string(),
        "FR-951".to_string(),
    ];
    let matched = matched_prefix_ids(&ids, "FR-950");
    assert_eq!(matched, vec!["FR-950".to_string(), "FR_950".to_string()]);
    assert_eq!(search_ids(&matched), vec!["FR-950".to_string()]);
    let all = matched_prefix_ids(&ids, "fr");
    assert_eq!(
        search_ids(&all),
        vec!["FR-950".to_string(), "FR-951".to_string()]
    );
}

fn citation(trace_id: &str, path: &str) -> CitationRecord {
    CitationRecord {
        trace_id: trace_id.to_string(),
        path: path.to_string(),
        symbol: Some("some_fn".to_string()),
        kind: Some("TestFunction".to_string()),
        bucket: "mention".to_string(),
        line: 1,
        excerpt: "// see FR-1".to_string(),
        language: "rust".to_string(),
        confidence: "structural".to_string(),
    }
}

#[test]
fn tc_citations_below_the_threshold_render_inline_not_grouped() {
    let citations = vec![citation("FR-1", "a.rs"), citation("FR-1", "b.rs")];
    let lines = citation_lines(&citations);
    assert_eq!(lines.len(), 2, "{lines:?}");
    assert!(lines[0].contains("a.rs"), "{lines:?}");
    assert!(lines[1].contains("b.rs"), "{lines:?}");
}

#[test]
fn tc_citations_above_the_threshold_group_by_file_with_counts() {
    // Above the inline threshold the human form groups by path and reports a
    // count instead of one line per citation.
    let mut citations = Vec::new();
    for _ in 0..(CITATION_INLINE_LIMIT + 1) {
        citations.push(citation("FR-1", "hot.rs"));
    }
    citations.push(citation("FR-1", "cold.rs"));
    let lines = citation_lines(&citations);
    // One header line plus one line per distinct path (2 here).
    assert_eq!(lines.len(), 3, "{lines:?}");
    assert!(lines[0].contains("grouped by file"), "{lines:?}");
    assert!(
        lines[1].contains("hot.rs")
            && lines[1].contains(&(CITATION_INLINE_LIMIT + 1).to_string()),
        "the denser file must sort first with its real count: {lines:?}"
    );
    assert!(
        lines[2].contains("cold.rs") && lines[2].contains(": 1 citation"),
        "{lines:?}"
    );
}

#[test]
fn tc_path_exclusion_glob_matches_repo_relative_paths() {
    let globs = compile_exclude_globs(&["fuzz/**".to_string()]).expect("valid glob");
    assert!(path_excluded("fuzz/fuzz_targets/a.rs", &globs));
    assert!(!path_excluded("src/lib.rs", &globs));
}

#[test]
fn tc_parse_symbol_query_splits_on_hash_else_bare_name() {
    assert_eq!(
        parse_symbol_query("src/foo.rs#Foo::bar"),
        Query::Symbol {
            path: "src/foo.rs".to_string(),
            qualified_name: "Foo::bar".to_string(),
        }
    );
    assert_eq!(
        parse_symbol_query("bare_name"),
        Query::SymbolName("bare_name".to_string())
    );
    assert_eq!(
        parse_symbol_query("#bar"),
        Query::SymbolName("#bar".to_string())
    );
}

#[test]
fn a_malformed_exclusion_glob_is_refused_by_name() {
    let err = compile_exclude_globs(&["ok/**".to_string(), "a***".to_string()]).unwrap_err();
    assert!(
        err.starts_with("parsing --exclude-path glob 'a***': "),
        "{err}"
    );
}

#[test]
fn excluded_citations_are_dropped_and_counted() {
    let citations = vec![
        citation("FR-1", "src/a.rs"),
        citation("FR-1", "tests/b.rs"),
        citation("FR-1", "src/c.rs"),
    ];
    let (kept, dropped) = drop_excluded_citations(citations, &["src/**".to_string()]).unwrap();
    assert_eq!(dropped, 2);
    assert_eq!(kept.len(), 1);
    assert_eq!(kept[0].path, "tests/b.rs");
}

#[test]
fn prefix_ids_are_distinct_sorted_and_bounded() {
    let ids = vec![
        "FR-047-AC-2".to_string(),
        "FR-0470".to_string(),
        "FR-047".to_string(),
        "FR-047-AC-1".to_string(),
        "FR-047-AC-2".to_string(),
    ];
    assert_eq!(
        matched_prefix_ids(&ids, "FR-047"),
        vec![
            "FR-047".to_string(),
            "FR-047-AC-1".to_string(),
            "FR-047-AC-2".to_string()
        ]
    );
}

#[test]
fn a_query_that_matched_nothing_is_unresolved_but_full_shaped() {
    let empty = assemble_report(
        QueryDescription::Id {
            id: "FR-999".to_string(),
            prefix: false,
            matched_ids: vec![],
        },
        vec![],
        vec![],
        vec![],
        vec![],
        2,
    );
    assert!(!empty.resolved);
    assert_eq!(empty.citations_excluded_by_path_filter, 2);
    let one = assemble_report(
        QueryDescription::File {
            path: "src/lib.rs".to_string(),
        },
        vec![],
        vec![],
        vec![citation("FR-1", "src/lib.rs")],
        vec![],
        0,
    );
    assert!(one.resolved);
}

#[test]
fn grouped_counts_add_up_to_every_citation() {
    let mut citations = Vec::new();
    for i in 0..30 {
        let path = format!("f{}.rs", i % 4);
        citations.push(citation("FR-1", &path));
    }
    let lines = citation_lines(&citations);
    let total: usize = lines[1..]
        .iter()
        .map(|l| {
            let count = l.rsplit(": ").next().unwrap();
            count.trim_end_matches(" citation(s)").parse::<usize>().unwrap()
        })
        .sum();
    assert_eq!(total, 30, "{lines:?}");
}

fn selectors(id: Option<&str>, symbol: Option<&str>, file: Option<&str>, prefix: bool) -> Args {
    Args {
        scope: ".".to_string(),
        module: vec![],
        id: id.map(str::to_string),
        symbol: symbol.map(str::to_string),
        file: file.map(str::to_string),
        prefix,
        exclude_path: vec![],
        json: false,
        format: None,
    }
}

#[test]
fn the_selectors_pick_one_search() {
    assert!(matches!(
        plan_query(&selectors(Some("FR-1"), None, None, true)),
        QueryPlan::Prefix(p) if p == "FR-1"
    ));
    assert!(matches!(
        plan_query(&selectors(Some("FR-1"), None, None, false)),
        QueryPlan::Exact(Query::Id(i)) if i == "FR-1"
    ));
    assert!(matches!(
        plan_query(&selectors(None, Some("src/a.rs#f"), None, false)),
        QueryPlan::Exact(Query::Symbol { path, qualified_name }) if path == "src/a.rs" && qualified_name == "f"
    ));
    assert!(matches!(
        plan_query(&selectors(None, Some("f"), None, false)),
        QueryPlan::Exact(Query::SymbolName(n)) if n == "f"
    ));
    assert!(matches!(
        plan_query(&selectors(None, None, Some("src/a.rs"), false)),
        QueryPlan::Exact(Query::File(f)) if f == "src/a.rs"
    ));
}

// An exclusion that empties the result flips `resolved`, and counts what it
// dropped; it never touches a claim.
#[test]
fn exclude_path_that_empties_the_result_flips_resolved_to_false() {
    let query = QueryDescription::Id {
        id: "FR-901".to_string(),
        prefix: false,
        matched_ids: vec![],
    };
    let report = report_after_exclusion(
        query,
        vec![],
        vec![],
        vec![citation("FR-901", "tests/test_thing.py")],
        vec![],
        &["tests/**".to_string()],
    )
    .unwrap();
    assert_eq!(report.citations_excluded_by_path_filter, 1);
    assert!(report.citations.is_empty());
    assert!(!report.resolved);
    assert!(report_after_exclusion(
        QueryDescription::File { path: "x".to_string() },
        vec![],
        vec![],
        vec![],
        vec![],
        &["[".to_string()],
    )
    .is_err());
}
