use quire_cli::lockfile::engine_version;

const LOCK: &str = r#"
[[package]]
name = "serde"
version = "1.0.0"

[[package]]
name = "quire-rs"
version = "0.33.0"
source = "git+https://github.com/agent-ix/quire-rs?tag=v0.45.0#99e97f013d858ff678b7c0783c1998703c268d71"
dependencies = [
 "globset",
]

[[package]]
name = "glob"
version = "0.3.0"
"#;

// The lockfile says both 0.33.0 and v0.45.0; the tag is what was built.
#[test]
fn the_git_tag_wins_over_the_stale_manifest_version() {
    assert_eq!(engine_version(LOCK).as_deref(), Some("0.45.0"));
}

#[test]
fn a_path_dependency_reports_its_manifest_version() {
    let lock = "[[package]]\nname = \"quire-rs\"\nversion = \"0.33.0\"\n";
    assert_eq!(engine_version(lock).as_deref(), Some("0.33.0"));
}

#[test]
fn a_describe_suffix_and_a_rev_survive_verbatim() {
    let described = "[[package]]\nname = \"quire-rs\"\nversion = \"0.33.0\"\n\
         source = \"git+https://x?tag=v0.45.0-3-g99e97f0#abc\"\n";
    assert_eq!(
        engine_version(described).as_deref(),
        Some("0.45.0-3-g99e97f0"),
    );

    let rev = "[[package]]\nname = \"quire-rs\"\nversion = \"0.33.0\"\n\
         source = \"git+https://x?rev=99e97f0#99e97f0\"\n";
    assert_eq!(engine_version(rev).as_deref(), Some("99e97f0"));
}

#[test]
fn an_absent_dependency_is_absent_rather_than_guessed() {
    assert_eq!(
        engine_version("[[package]]\nname = \"serde\"\nversion = \"1\"\n"),
        None,
    );
}

// The package flag must clear on the next `name =`, or a later git dependency
// would supply the pin.
#[test]
fn another_packages_source_is_not_read_as_ours() {
    let lock = "[[package]]\nname = \"quire-rs\"\nversion = \"0.33.0\"\n\n\
         [[package]]\nname = \"other\"\nversion = \"9.9.9\"\n\
         source = \"git+https://x?tag=v9.9.9#abc\"\n";
    assert_eq!(engine_version(lock).as_deref(), Some("0.33.0"));
}

#[test]
fn a_branch_pin_travels_verbatim() {
    let lock = "[[package]]\nname = \"quire-rs\"\nversion = \"0.1.0\"\n\
         source = \"git+https://github.com/agent-ix/quire-rs?branch=v2-maint#abc\"\n";
    assert_eq!(engine_version(lock).as_deref(), Some("v2-maint"));
}

#[test]
fn a_rev_pin_travels_verbatim() {
    let lock = "[[package]]\nname = \"quire-rs\"\nversion = \"0.1.0\"\n\
         source = \"git+https://x?rev=v99e97f0#abc\"\n";
    assert_eq!(engine_version(lock).as_deref(), Some("v99e97f0"));
}

#[test]
fn a_tag_pin_loses_exactly_one_leading_v() {
    let lock = "[[package]]\nname = \"quire-rs\"\nversion = \"0.1.0\"\n\
         source = \"git+https://x?tag=vv1.2#abc\"\n";
    assert_eq!(engine_version(lock).as_deref(), Some("v1.2"));
}

#[test]
fn a_registry_source_falls_back_to_the_manifest_version() {
    let lock = "[[package]]\nname = \"quire-rs\"\nversion = \"0.40.1\"\n\
         source = \"registry+https://github.com/rust-lang/crates.io-index\"\n";
    assert_eq!(engine_version(lock).as_deref(), Some("0.40.1"));
}

#[test]
fn an_empty_lockfile_names_no_engine() {
    assert_eq!(engine_version(""), None);
}
