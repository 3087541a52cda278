use quire_cli::properties::{percent, unresolved_verdict, Census, CriterionShape, Extraction};

fn shape(p: &str, e: Extraction) -> CriterionShape {
    CriterionShape {
        property: p.to_string(),
        specific: p != "universal",
        extraction: e,
    }
}

#[test]
fn the_census_counts_and_orders_property_shapes() {
    let mut census = Census::new();
    census.add(&[
        shape("round_trip", Extraction::Extractable),
        shape("invariant", Extraction::Candidate),
        shape("round_trip", Extraction::NotExtractable),
    ]);
    census.add(&[shape("example", Extraction::Extractable)]);
    assert_eq!(census.criteria, 4);
    assert_eq!(census.extractable, 2);
    assert_eq!(census.candidate, 1);
    assert_eq!(
        census.by_property,
        vec![
            ("example".to_string(), 1),
            ("invariant".to_string(), 1),
            ("round_trip".to_string(), 2)
        ]
    );
    assert_eq!(
        census.headline(),
        "2/4 criteria extractable (50%), 2 with a specific shape, 1 candidate"
    );
    let messages = census.messages();
    assert_eq!(messages.len(), 1);
    assert_eq!(messages[0].kind, "PropertyShapes");
    assert_eq!(messages[0].message, "example=1 invariant=1 round_trip=2");
}

#[test]
fn the_headline_splits_the_catch_all_out_of_the_extractable_figure() {
    let mut census = Census::new();
    census.add(&[
        shape("universal", Extraction::Extractable),
        shape("round_trip", Extraction::Extractable),
        shape("universal", Extraction::Extractable),
        shape("invariant", Extraction::Candidate),
    ]);
    assert_eq!(census.extractable, 3);
    assert_eq!(census.specific, 1);
    assert_eq!(
        census.headline(),
        "3/4 criteria extractable (75%), 1 with a specific shape, 1 candidate"
    );
}

#[test]
fn an_empty_census_reports_zero_and_no_histogram() {
    let census = Census::new();
    assert_eq!(
        census.headline(),
        "0/0 criteria extractable (0%), 0 with a specific shape, 0 candidate"
    );
    assert!(census.messages().is_empty());
}

#[test]
fn percent_rounds_down_and_is_zero_for_nothing() {
    assert_eq!(percent(1, 3), 33);
    assert_eq!(percent(5, 0), 0);
}

#[test]
fn unresolved_documents_fail_the_run() {
    assert!(unresolved_verdict(0).is_ok());
    assert_eq!(
        unresolved_verdict(2).unwrap_err(),
        "2 document(s) could not be resolved to an archetype"
    );
}
