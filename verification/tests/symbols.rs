use quire_cli::symbols::{
    render_tsv, retain_language, summary_lines, LanguageCensus, SymbolRecord, SymbolTableReport,
};

fn report() -> SymbolTableReport {
    SymbolTableReport {
        symbols: vec![
            SymbolRecord {
                path: "src/lib.rs".to_string(),
                line: 3,
                symbol: "tests::covers".to_string(),
                kind: "TestFunction".to_string(),
                language: "rust".to_string(),
                binds_trace_ids: true,
                trace_ids: vec!["FR-1".to_string(), "FR-2".to_string()],
            },
            SymbolRecord {
                path: "ui/x.py".to_string(),
                line: 10,
                symbol: "Widget".to_string(),
                kind: "Class".to_string(),
                language: "python".to_string(),
                binds_trace_ids: false,
                trace_ids: vec![],
            },
        ],
        by_language: vec![
            LanguageCensus {
                language: "python".to_string(),
                symbols: 1,
                files: 1,
                binding_kinds: 0,
                bound: 0,
            },
            LanguageCensus {
                language: "rust".to_string(),
                symbols: 1,
                files: 1,
                binding_kinds: 1,
                bound: 1,
            },
        ],
        files: 2,
        excluded_source_files: 3,
    }
}

#[test]
fn one_tsv_record_per_symbol() {
    assert_eq!(
        render_tsv(&report()),
        "src/lib.rs\t3\ttests::covers\tTestFunction\trust\ttrue\tFR-1,FR-2\n\
         ui/x.py\t10\tWidget\tClass\tpython\tfalse\t\n"
    );
}

#[test]
fn the_human_census_pads_its_columns_and_names_an_unbound_run() {
    let lines = summary_lines(&report(), false);
    assert_eq!(lines[0], "2 symbol(s) over 2 file(s)");
    assert_eq!(
        lines[1],
        "  python           1 symbols      1 files      0 can bind"
    );
    assert!(lines[3].contains("NOT ASKED"));
    assert_eq!(
        lines[4],
        "  3 source file(s) removed by a declared `source_exclude` glob"
    );
    let bound = summary_lines(&report(), true);
    assert_eq!(
        bound[2],
        "  rust             1 symbols      1 files      1 can bind      1 bound"
    );
    assert_eq!(bound.len(), 4);
}

#[test]
fn a_language_filter_narrows_both_the_records_and_the_census() {
    let mut r = report();
    retain_language(&mut r, "python");
    assert_eq!(r.symbols.len(), 1);
    assert_eq!(r.symbols[0].symbol, "Widget");
    assert_eq!(r.by_language.len(), 1);
    assert_eq!(r.by_language[0].language, "python");
    assert_eq!(r.files, 2);
}
