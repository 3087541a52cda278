use std::str::FromStr;

use quire_cli::assurance::{accepted_premises, ExpectedModule, ExpectedSchema};

#[test]
fn premise_parsers_reject_ambiguous_or_noncanonical_forms() {
    assert!(ExpectedModule::from_str("module@1.2.3").is_ok());
    assert!(ExpectedModule::from_str("module").is_err());
    assert!(ExpectedModule::from_str("@1.2.3").is_err());
    assert!(ExpectedModule::from_str("module@").is_err());

    let digest = "a".repeat(64);
    assert!(ExpectedSchema::from_str(&format!("module/FR@{digest}")).is_ok());
    let scoped = ExpectedSchema::from_str(&format!("scope/module/FR@{digest}"))
        .expect("rightmost slash separates archetype");
    assert_eq!(scoped.module, "scope/module");
    assert_eq!(scoped.archetype, "FR");
    assert!(ExpectedSchema::from_str("module/FR@ABC").is_err());
    assert!(ExpectedSchema::from_str(&format!("module@FR@{digest}")).is_err());
}

#[test]
fn accepted_set_rejects_cross_module_and_duplicate_schema_tuples() {
    let module = ExpectedModule::from_str("module@1.2.3").expect("module");
    let digest = "a".repeat(64);
    let wrong = ExpectedSchema::from_str(&format!("other/FR@{digest}")).expect("schema");
    assert!(accepted_premises(module.clone(), vec![wrong]).is_err());

    let duplicate = ExpectedSchema::from_str(&format!("module/FR@{digest}")).expect("schema");
    assert!(accepted_premises(module, vec![duplicate.clone(), duplicate]).is_err());
}

#[test]
fn the_last_at_sign_splits_a_module_premise() {
    let m = ExpectedModule::from_str("@scope/pkg@2.0.0").unwrap();
    assert_eq!(m.name, "@scope/pkg");
    assert_eq!(m.version, "2.0.0");
    assert_eq!(
        ExpectedModule::from_str("module").unwrap_err(),
        "expected NAME@VERSION"
    );
    assert_eq!(
        ExpectedModule::from_str("module@").unwrap_err(),
        "expected non-empty NAME@VERSION"
    );
}

#[test]
fn schema_premise_errors_are_exact() {
    let digest = "0123456789abcdef".repeat(4);
    assert_eq!(
        ExpectedSchema::from_str("module/FR").unwrap_err(),
        "expected MODULE/ARCHETYPE@SHA256"
    );
    assert_eq!(
        ExpectedSchema::from_str(&format!("module@{digest}")).unwrap_err(),
        "expected MODULE/ARCHETYPE@SHA256"
    );
    assert_eq!(
        ExpectedSchema::from_str(&format!("/FR@{digest}")).unwrap_err(),
        "expected non-empty MODULE/ARCHETYPE@SHA256"
    );
    assert_eq!(
        ExpectedSchema::from_str(&format!("module/FR@{}", digest.to_uppercase())).unwrap_err(),
        "schema digest must be 64 lowercase hexadecimal characters"
    );
    let ok = ExpectedSchema::from_str(&format!("module/FR@{digest}")).unwrap();
    assert_eq!(ok.digest, digest);
}

#[test]
fn accepted_schemas_are_sorted_by_archetype_then_digest() {
    let module = ExpectedModule::from_str("module@1.2.3").unwrap();
    let a = "a".repeat(64);
    let b = "b".repeat(64);
    let schemas = vec![
        ExpectedSchema::from_str(&format!("module/US@{a}")).unwrap(),
        ExpectedSchema::from_str(&format!("module/FR@{b}")).unwrap(),
        ExpectedSchema::from_str(&format!("module/FR@{a}")).unwrap(),
    ];
    let accepted = accepted_premises(module, schemas).unwrap();
    assert_eq!(accepted.format_version, 1);
    assert_eq!(accepted.modules.len(), 1);
    let m = &accepted.modules[0];
    assert_eq!(m.name, "module");
    assert_eq!(m.version, "1.2.3");
    let order: Vec<(String, String)> = m
        .schemas
        .iter()
        .map(|s| (s.archetype.clone(), s.schema_digest.clone()))
        .collect();
    assert_eq!(
        order,
        vec![
            ("FR".to_string(), a.clone()),
            ("FR".to_string(), b.clone()),
            ("US".to_string(), a.clone())
        ]
    );
}

#[test]
fn a_foreign_module_is_named_in_the_refusal() {
    let module = ExpectedModule::from_str("module@1.2.3").unwrap();
    let digest = "a".repeat(64);
    let wrong = ExpectedSchema::from_str(&format!("other/FR@{digest}")).unwrap();
    assert_eq!(
        accepted_premises(module, vec![wrong]).unwrap_err(),
        "schema premise module 'other' does not match expected module 'module'"
    );
}

#[test]
fn no_schema_premises_means_no_active_archetypes() {
    let module = ExpectedModule::from_str("module@1.2.3").unwrap();
    let accepted = accepted_premises(module, vec![]).unwrap();
    assert!(accepted.modules[0].schemas.is_empty());
}
