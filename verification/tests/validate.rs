use quire_cli::validate::{
    archetype_name, unregistered_archetype, bundle_issue, contains_glob, frontmatter_failure, issue_message, line_prefix, okf_verdict,
    push_root, scoped_path, unknown_type_message, validation_verdict, DocumentInput,
    classify_document_argument, glob_match_verdict, DocumentArgument,
    ValidationIssue,
};

#[test]
fn globs_are_told_by_their_metacharacters() {
    assert!(contains_glob("docs/*.md"));
    assert!(contains_glob("doc?.md"));
    assert!(contains_glob("doc[12].md"));
    assert!(!contains_glob("docs/valid-fr.md"));
}

#[test]
fn a_line_prefix_is_present_only_with_a_line() {
    assert_eq!(line_prefix(Some(12)), "line 12: ");
    assert_eq!(line_prefix(None), "");
}

#[test]
fn a_finding_reads_label_line_message_reason() {
    let issue = ValidationIssue {
        line: Some(3),
        message: "missing section 'Specification'".to_string(),
        reason: "missing".to_string(),
    };
    assert_eq!(
        issue_message("fr.md", &issue),
        "fr.md: line 3: missing section 'Specification' [missing]"
    );
}

#[test]
fn a_type_failure_is_a_frontmatter_finding() {
    assert_eq!(
        frontmatter_failure("doc.md", &unknown_type_message("XYZ")),
        "doc.md: unknown type 'XYZ' (no archetype registered for it) [frontmatter]"
    );
}

#[test]
fn strict_escalates_warnings_only() {
    assert!(validation_verdict(0, 0, true).is_ok());
    assert!(validation_verdict(0, 2, false).is_ok());
    assert_eq!(
        validation_verdict(0, 2, true).unwrap_err(),
        "2 document(s) emitted warnings (--strict)"
    );
    assert_eq!(
        validation_verdict(1, 2, true).unwrap_err(),
        "1 document(s) failed structural validation"
    );
}

#[test]
fn okf_runs_fail_only_on_errors() {
    assert!(okf_verdict(0).is_ok());
    assert_eq!(okf_verdict(3).unwrap_err(), "3 OKF bundle validation error(s)");
    assert_eq!(
        bundle_issue("b/index.md", "broken link", "link"),
        "b/index.md: broken link [link]"
    );
}

#[test]
fn relative_inputs_resolve_under_the_scope_when_scoped() {
    assert_eq!(scoped_path("/repo", true, "docs/a.md"), "/repo/docs/a.md");
    assert_eq!(scoped_path("/repo", true, "/abs/a.md"), "/abs/a.md");
    assert_eq!(scoped_path("/repo", false, "docs/a.md"), "docs/a.md");
}

#[test]
fn search_roots_are_listed_once_in_first_seen_order() {
    let mut roots = Vec::new();
    push_root(&mut roots, "/scope".to_string());
    push_root(&mut roots, "/scope/.ix/modules".to_string());
    push_root(&mut roots, "/scope".to_string());
    assert_eq!(
        roots,
        vec!["/scope".to_string(), "/scope/.ix/modules".to_string()]
    );
}

#[test]
fn stdin_is_labelled_with_a_dash() {
    assert_eq!(DocumentInput::Stdin.label(), "-");
}

#[test]
fn an_explicit_archetype_wins_over_the_frontmatter_type() {
    assert_eq!(
        archetype_name(Some("FR".to_string()), Some("US".to_string())),
        Some("FR".to_string())
    );
    assert_eq!(archetype_name(None, Some("US".to_string())), Some("US".to_string()));
    assert_eq!(archetype_name(None, None), None);
}

#[test]
fn an_unknown_explicit_archetype_ends_the_run_but_an_unknown_type_does_not() {
    assert_eq!(
        unregistered_archetype(true, "NONEXISTENT").unwrap_err(),
        "UnknownArchetype: 'NONEXISTENT' is not registered"
    );
    assert_eq!(
        unregistered_archetype(false, "XYZ").unwrap(),
        "unknown type 'XYZ' (no archetype registered for it)"
    );
}

#[test]
fn a_document_argument_is_stdin_a_glob_or_a_path() {
    assert_eq!(
        classify_document_argument("-", "/repo", true),
        DocumentArgument::Stdin
    );
    assert_eq!(
        classify_document_argument("spec/*.md", "/repo", true),
        DocumentArgument::Glob("/repo/spec/*.md".to_string())
    );
    assert_eq!(
        classify_document_argument("spec/a.md", "/repo", false),
        DocumentArgument::Path("spec/a.md".to_string())
    );
    assert_eq!(
        classify_document_argument("/abs/a.md", "/repo", true),
        DocumentArgument::Path("/abs/a.md".to_string())
    );
}

#[test]
fn a_glob_matching_nothing_is_refused_by_name() {
    assert!(glob_match_verdict("spec/*.md", 2).is_ok());
    assert_eq!(
        glob_match_verdict("spec/*.md", 0).unwrap_err(),
        "document glob matched no files: 'spec/*.md'"
    );
}
