use quire_cli::coverage::{
    render_tsv, projected_kinds, CoverageDiagnostic, ImplementsRecord, PackLevels, SeverityLevel,
    UnbackedRow,
    census_lines, finding_identity, metric_lines, percent, percent_label,
    reject_unknown_pack_checks, BindingCensus, CoverageReport, Measurement, Metric, MetricShape,
    Totals, UnboundSymbol,
};
use quire_cli::tsv::{tsv_cell, tsv_line};

// A cell carrying all three structural characters must still yield exactly
// one nine-column record.
#[test]
fn tc812_tsv_cells_escape_structural_characters() {
    assert_eq!(tsv_cell("a\tb\nc\rd"), "a b c d");
    assert_eq!(tsv_cell("plain"), "plain");

    let line = tsv_line("kind", ["a\tb", "c\nd", "", "", "", "e\rf", "x,y", "text"]);
    let body = line.strip_suffix('\n').expect("one trailing newline");
    assert_eq!(
        body.split('\t').count(),
        9,
        "hostile cells must not add or remove columns: {body:?}"
    );
    assert!(
        !body.contains('\n') && !body.contains('\r'),
        "hostile cells must not break the one-record-per-line contract: {body:?}"
    );
}

#[test]
fn a_record_is_the_kind_then_each_cell_after_a_tab() {
    assert_eq!(
        tsv_line("k", ["1", "2", "", "", "", "", "", "z"]),
        "k\t1\t2\t\t\t\t\t\tz\n"
    );
}

#[test]
fn percentages_round_down_and_name_an_empty_denominator() {
    assert_eq!(percent(1, 3), Some(33));
    assert_eq!(percent(2, 3), Some(66));
    assert_eq!(percent(0, 0), None);
    assert_eq!(percent_label(44, 100), "44%");
    assert_eq!(percent_label(0, 0), "no rows matched");
}

#[test]
fn a_row_id_leads_the_finding_and_the_reference_trails() {
    assert_eq!(
        finding_identity(Some("TC-123"), Some(7), "matrix row", "doc.md"),
        ("TC-123 (doc.md:7)".to_string(), " [matrix row]".to_string())
    );
    assert_eq!(
        finding_identity(None, None, "matrix row", "doc.md"),
        ("matrix row (doc.md)".to_string(), String::new())
    );
}

#[test]
fn only_the_pack_checks_are_accepted_for_coverage() {
    assert!(reject_unknown_pack_checks(&vec![
        "coverage:unbacked-row=error".to_string(),
        "ac:whatever=warn".to_string()
    ])
    .is_ok());
    assert!(reject_unknown_pack_checks(&vec!["coverage:bogus=error".to_string()]).is_err());
}

fn empty_report() -> CoverageReport {
    CoverageReport {
        totals: Totals { total: 0, backed: 0 },
        groups: vec![],
        unbacked_rows: vec![],
        status_lies: vec![],
        no_symbol_rows: vec![],
        undeclared_statuses: vec![],
        untracked_symbols: vec![],
        diagnostics: vec![],
        obligations: vec![],
        implements: vec![],
        binding_census: vec![],
        metrics: vec![],
        suspicions: vec![],
        excluded_source_files: 0,
    }
}

// The census and the metric envelopes reach the human surface, and the census
// example appears only where there is something unread to look at.
#[test]
fn tc813_the_census_and_metric_envelopes_render_for_a_human() {
    let census = vec![
        BindingCensus {
            language: "rust".to_string(),
            candidates: 1513,
            tagged: 1400,
            bound: 1344,
            forms: vec!["rust-trace-attribute".to_string()],
            unmatched_example: Some(UnboundSymbol {
                path: "crates/a/src/lib.rs".to_string(),
                line: 700,
                symbol: "tests::misspelled".to_string(),
            }),
        },
        BindingCensus {
            language: "typescript".to_string(),
            candidates: 12,
            tagged: 12,
            bound: 12,
            forms: vec!["ts-trace-helper".to_string()],
            unmatched_example: None,
        },
    ];
    let mut report = empty_report();
    report.binding_census = census;

    let lines = census_lines(&report);
    assert_eq!(lines.len(), 2, "{lines:?}");
    assert_eq!(
        lines[0],
        "rust: 1344/1400/1513 bound/tagged/candidates (88% read; 92% authored; \
         forms: rust-trace-attribute, unread tag `tests::misspelled` at \
         crates/a/src/lib.rs:700)"
    );
    assert_eq!(
        lines[1],
        "typescript: 12/12/12 bound/tagged/candidates (100% read; 100% authored; \
         forms: ts-trace-helper)"
    );

    report.metrics = vec![
        Metric {
            name: "coverage.backed".to_string(),
            unit: "matrix row".to_string(),
            shape: MetricShape::Ratio,
            measurement: Measurement::Measured {
                population: 2540,
                examined: 2037,
                matched: 1363,
            },
        },
        Metric {
            name: "coverage.no_symbol_rows".to_string(),
            unit: "matrix row".to_string(),
            shape: MetricShape::Count,
            measurement: Measurement::NotComputed {
                because: "the module declares no vocabulary".to_string(),
            },
        },
        Metric {
            name: "coverage.dead_tags".to_string(),
            unit: "trace tag".to_string(),
            shape: MetricShape::Count,
            measurement: Measurement::Measured {
                population: 200,
                examined: 200,
                matched: 7,
            },
        },
    ];
    let metrics = metric_lines(&report);
    assert_eq!(
        metrics,
        vec!["coverage.backed: over 2540 matrix row(s), examined 2037, matched 1363"]
    );
    assert!(matches!(
        report.metrics[1].measurement,
        Measurement::NotComputed { .. }
    ));
}

// The projection is the header, then one nine-field line per record, kinds
// in their fixed order, however hostile the record fields are.
#[test]
fn tsv_is_a_header_then_one_nine_field_line_per_record() {
    let mut r = empty_report();
    r.implements.push(ImplementsRecord {
        path: "src/a.rs".to_string(),
        form: "attr".to_string(),
        trace_id: "FR-1".to_string(),
        symbol: "a\tb\nc".to_string(),
    });
    r.unbacked_rows.push(UnbackedRow {
        row_id: Some("TC-1".to_string()),
        document: "spec/t.md".to_string(),
        reference: "r\r".to_string(),
        line: Some(7),
        target_ids: vec!["FR-1".to_string(), "FR-2".to_string()],
    });
    r.diagnostics.push(CoverageDiagnostic {
        path: None,
        declaration: "d".to_string(),
        reason: "why".to_string(),
        message: "m".to_string(),
    });
    let out = render_tsv(&r);
    let lines: Vec<&str> = out.split_terminator('\n').collect();
    assert_eq!(lines.len(), 4);
    assert!(out.ends_with('\n'));
    assert_eq!(
        lines[0],
        "kind\tid\tdocument\treference\tstatus\tmethod\tline\ttargets\ttext"
    );
    assert!(lines[1].starts_with("unbacked-row\tTC-1\t"));
    assert!(lines[2].starts_with("diagnostic\t"));
    assert!(lines[3].starts_with("implements\t"));
    for l in &lines {
        assert_eq!(l.split('\t').count(), 9, "{l:?}");
        assert!(!l.contains('\r'));
    }
}

#[test]
fn only_the_kinds_set_off_are_projected_away() {
    let k = projected_kinds(PackLevels {
        unbacked_row: SeverityLevel::Off,
        status_lie: SeverityLevel::Warning,
        untracked_symbol: SeverityLevel::Error,
        undeclared_status: SeverityLevel::Off,
    });
    assert!(k.unbacked_row);
    assert!(!k.status_lie);
    assert!(!k.untracked_symbol);
    assert!(k.undeclared_status);
}
