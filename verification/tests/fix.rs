use quire_cli::fix::{
    dry_run_verdict, fixed_message, warnings, would_fix_lines, UnlinkedFinding, UnlinkedFix,
    UnlinkedReason,
};

fn findings() -> Vec<UnlinkedFinding> {
    vec![
        UnlinkedFinding {
            path: "spec/a.md".to_string(),
            token: "FR-001".to_string(),
            fix: UnlinkedFix::AutoFix {
                suggested_link: "[FR-001](fr-001.md)".to_string(),
            },
        },
        UnlinkedFinding {
            path: "spec/b.md".to_string(),
            token: "FR-404".to_string(),
            fix: UnlinkedFix::WarnOnly {
                reason: UnlinkedReason::Unresolved,
            },
        },
        UnlinkedFinding {
            path: "spec/c.md".to_string(),
            token: "FR-002".to_string(),
            fix: UnlinkedFix::WarnOnly {
                reason: UnlinkedReason::Ambiguous,
            },
        },
    ]
}

#[test]
fn warn_only_findings_are_reported_with_their_reason() {
    assert_eq!(
        warnings(&findings()),
        vec![
            "spec/b.md: FR-404 (unresolved — if cross-repo, add an ix:// reference manually)"
                .to_string(),
            "spec/c.md: FR-002 (ambiguous — resolves to more than one artifact)".to_string(),
        ]
    );
}

#[test]
fn a_dry_run_names_each_fix_and_fails_when_any_exists() {
    assert_eq!(
        would_fix_lines(&findings()),
        vec!["would-fix: spec/a.md: FR-001 -> [FR-001](fr-001.md)".to_string()]
    );
    assert!(dry_run_verdict(0).is_ok());
    assert_eq!(
        dry_run_verdict(1).unwrap_err(),
        "1 unlinked reference(s) can be auto-fixed; re-run with --write"
    );
    assert_eq!(fixed_message(3, "spec/a.md"), "fixed 3 reference(s) in spec/a.md");
}
