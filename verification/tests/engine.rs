use quire_cli::engine::{resolve_engine_version, version_line, Provenance, CAPABILITIES};

// A lockfile that pins the engine by tag while the engine crate's manifest
// still says an older number.
const LOCK: &str = "[[package]]\nname = \"quire-rs\"\nversion = \"0.33.0\"\n\
     source = \"git+https://github.com/agent-ix/quire-rs?tag=v0.45.0#99e97f0\"\n";

// Reporting the CLI's number as the engine's is the defect, not the fix.
#[test]
fn the_engine_version_is_resolved_and_is_not_the_cli_version() {
    let p = Provenance::current("0.1.0", LOCK);
    assert_ne!(p.engine, "", "the engine version must be resolved");
    assert_ne!(
        p.engine, "unknown",
        "the lockfile must be readable at build time",
    );
    assert_ne!(
        p.engine, p.cli,
        "reporting the CLI version as the engine version is the defect, not the fix",
    );
}

#[test]
fn the_version_line_names_both_distinctly() {
    let p = Provenance::current("0.1.0", LOCK);
    let line = version_line(&p);
    assert!(line.contains(p.cli.as_str()), "{line}");
    assert!(line.contains(p.engine.as_str()), "{line}");
    assert!(
        line.contains("engine"),
        "the engine number must be labelled, or the two are indistinguishable: {line}",
    );
}

#[test]
fn capability_tokens_are_unique_and_non_empty() {
    let mut sorted = CAPABILITIES.to_vec();
    sorted.sort_unstable();
    let before = sorted.len();
    sorted.dedup();
    assert_eq!(before, sorted.len(), "duplicate capability token");
    assert!(!CAPABILITIES.is_empty());
    assert!(CAPABILITIES.iter().all(|t| !t.is_empty()));
}

#[test]
fn the_version_line_is_exact() {
    let p = Provenance::current("0.1.0", LOCK);
    assert_eq!(version_line(&p), "0.1.0 (engine 0.45.0)");
}

#[test]
fn the_current_provenance_carries_both_versions_and_every_token() {
    let p = Provenance::current("1.2.3", LOCK);
    assert_eq!(p.cli, "1.2.3");
    assert_eq!(p.engine, "0.45.0");
    assert!(p.capabilities.contains(&"binding_census"));
}

#[test]
fn a_lockfile_without_the_engine_reports_unknown() {
    let lock = "[[package]]\nname = \"serde\"\nversion = \"1\"\n";
    assert_eq!(resolve_engine_version(lock), "unknown");
    assert_eq!(Provenance::current("0.1.0", lock).engine, "unknown");
    assert_eq!(resolve_engine_version(""), "unknown");
}

#[test]
fn a_path_dependency_reports_its_manifest_version_as_the_engine() {
    let lock = "[[package]]\nname = \"quire-rs\"\nversion = \"0.33.0\"\n";
    assert_eq!(resolve_engine_version(lock), "0.33.0");
}
