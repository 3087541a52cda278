use quire_cli::clauses::{
    force_name, missing_set_message, outcome_name, parse_context, render_binding_human,
    render_binding_tsv, render_diff_human, render_diff_tsv, selected_format, tsv_cell,
    BindingOutcome, BindingReason, Clause, ClauseBinding, ClauseBindingReport, ClauseChange,
    ClauseForce, ClauseSetDiff, ClauseSetRef, OutputFormat,
};

#[test]
fn context_rejects_duplicates_and_malformed_entries() {
    assert!(parse_context(&["impact=high".into(), "impact=low".into()]).is_err());
    assert!(parse_context(&["impact".into()]).is_err());
    assert!(parse_context(&["=high".into()]).is_err());
    assert_eq!(
        parse_context(&[" impact = high ".into()]).unwrap(),
        vec![("impact".to_string(), "high".to_string())]
    );
}

#[test]
fn tsv_cells_keep_one_record_per_line() {
    assert_eq!(tsv_cell("a\tb\nc\rd\\e"), "a\\tb\\nc\\rd\\\\e");
}

#[test]
fn context_errors_name_the_entry() {
    assert_eq!(
        parse_context(&["impact".into()]).unwrap_err(),
        "--context \"impact\" must be KEY=VALUE"
    );
    assert_eq!(
        parse_context(&["=high".into()]).unwrap_err(),
        "--context \"=high\" must have a non-empty key and value"
    );
    assert_eq!(
        parse_context(&["impact=high".into(), " impact =low".into()]).unwrap_err(),
        "--context declares \"impact\" more than once"
    );
}

#[test]
fn context_splits_at_the_first_equals_and_keeps_order() {
    assert_eq!(
        parse_context(&["b=x=y".into(), "a=1".into()]).unwrap(),
        vec![
            ("b".to_string(), "x=y".to_string()),
            ("a".to_string(), "1".to_string())
        ]
    );
}

#[test]
fn json_flag_selects_json() {
    assert_eq!(selected_format(OutputFormat::Tsv, true), OutputFormat::Json);
    assert_eq!(selected_format(OutputFormat::Tsv, false), OutputFormat::Tsv);
}

#[test]
fn names_are_stable() {
    assert_eq!(force_name(ClauseForce::Mandatory), "mandatory");
    assert_eq!(force_name(ClauseForce::Recommended), "recommended");
    assert_eq!(force_name(ClauseForce::Permitted), "permitted");
    assert_eq!(outcome_name(BindingOutcome::Binding), "binding");
    assert_eq!(outcome_name(BindingOutcome::NotBinding), "not_binding");
    assert_eq!(outcome_name(BindingOutcome::Unresolved), "unresolved");
}

fn set(version: &str) -> ClauseSetRef {
    ClauseSetRef {
        authority: "example.test".to_string(),
        id: "widget-assurance".to_string(),
        version: version.to_string(),
    }
}

fn report() -> ClauseBindingReport {
    ClauseBindingReport {
        clause_set: set("1.0.0"),
        clause_set_digest: "sha256:ab".to_string(),
        clauses: vec![
            ClauseBinding {
                clause_id: "W-1".to_string(),
                force: ClauseForce::Mandatory,
                outcome: BindingOutcome::Binding,
                expected_outputs: vec!["log".to_string(), "alert".to_string()],
                reasons: vec![],
            },
            ClauseBinding {
                clause_id: "W\t2".to_string(),
                force: ClauseForce::Permitted,
                outcome: BindingOutcome::Unresolved,
                expected_outputs: vec![],
                reasons: vec![
                    BindingReason {
                        code: "missing_dimension".to_string(),
                        message: "impact is undeclared".to_string(),
                    },
                    BindingReason {
                        code: "other".to_string(),
                        message: "second".to_string(),
                    },
                ],
            },
        ],
    }
}

#[test]
fn binding_renders_for_a_human() {
    assert_eq!(
        render_binding_human(&report()),
        "Clause set example.test/widget-assurance/1.0.0 (sha256:ab)\n\
         W-1\tmandatory\tbinding\texpects log,alert\n\
         W\t2\tpermitted\tunresolved\timpact is undeclared; second\n"
    );
}

#[test]
fn binding_renders_as_tsv_with_escaped_cells() {
    assert_eq!(
        render_binding_tsv(&report()),
        "clause_id\tforce\toutcome\texpected_outputs\treason_codes\n\
         W-1\tmandatory\tbinding\tlog,alert\t\n\
         W\\t2\tpermitted\tunresolved\t\tmissing_dimension,other\n"
    );
}

fn diff() -> ClauseSetDiff {
    ClauseSetDiff {
        before: set("1.0.0"),
        after: set("2.0.0"),
        added: vec![Clause {
            id: "W-2".to_string(),
            force: ClauseForce::Recommended,
        }],
        removed: vec![],
        changed: vec![ClauseChange {
            clause_id: "W-1".to_string(),
            before: Clause {
                id: "W-1".to_string(),
                force: ClauseForce::Permitted,
            },
            after: Clause {
                id: "W-1".to_string(),
                force: ClauseForce::Mandatory,
            },
        }],
    }
}

#[test]
fn diff_renders_for_a_human() {
    assert_eq!(
        render_diff_human(&diff()),
        "Clause set example.test/widget-assurance: 1.0.0 -> 2.0.0\n\
         Added: 1  Removed: 0  Changed: 1\n\
         added\tW-2\n\
         changed\tW-1\n"
    );
}

#[test]
fn diff_renders_as_tsv() {
    assert_eq!(
        render_diff_tsv(&diff()),
        "change\tclause_id\tbefore_force\tafter_force\n\
         added\tW-2\t\trecommended\n\
         changed\tW-1\tpermitted\tmandatory\n"
    );
}

#[test]
fn a_missing_set_lists_what_is_loaded() {
    assert_eq!(
        missing_set_message("a", "b", "3", &vec![]),
        "clause set a/b/3 is not loaded; available exact sets: none"
    );
    assert_eq!(
        missing_set_message("a", "b", "3", &vec![set("1.0.0"), set("2.0.0")]),
        "clause set a/b/3 is not loaded; available exact sets: \
         example.test/widget-assurance/1.0.0, example.test/widget-assurance/2.0.0"
    );
}

// Escaping is undone by reading back, so two different values never share a
// cell: a literal backslash-t and a tab stay apart.
#[test]
fn distinct_values_never_share_a_cell() {
    assert_eq!(tsv_cell("a\\tb"), "a\\\\tb");
    assert_eq!(tsv_cell("a\tb"), "a\\tb");
    assert_ne!(tsv_cell("a\\tb"), tsv_cell("a\tb"));
    assert_ne!(tsv_cell("\\n"), tsv_cell("\n"));
}

// Accepted exactly when every entry is a trimmed, non-empty KEY=VALUE and the
// keys are distinct; then one pair per entry, in order.
#[test]
fn a_context_is_one_trimmed_pair_per_entry() {
    let ok = parse_context(&["a=b=c".into(), " k = v ".into()]).unwrap();
    assert_eq!(
        ok,
        vec![
            ("a".to_string(), "b=c".to_string()),
            ("k".to_string(), "v".to_string())
        ]
    );
    assert!(parse_context(&["k= ".into()]).is_err());
    assert!(parse_context(&["k=1".into(), " k=2".into()]).is_err());
    assert_eq!(parse_context(&[]).unwrap(), vec![]);
}
