use quire_cli::self_update::{
    cargo_update, detect_source, finish_cargo_update, finish_npm_update, manual_report, npm_update,
    registry_args, run_for_source, Action, CommandOutcome, InstallSource, SelfUpdateConfig,
    SelfUpdateOpts, UpdateStep,
};

const CFG: SelfUpdateConfig = SelfUpdateConfig {
    npm_package: "@agent-ix/quire-cli",
    cargo_git: "https://github.com/agent-ix/quire-cli",
    releases_url: "https://github.com/agent-ix/quire-cli/releases",
};

#[test]
fn registry_args_omitted_when_no_override() {
    assert!(registry_args("@agent-ix/quire-cli", None).is_empty());
}

#[test]
fn registry_args_uses_scope_form_for_scoped_package() {
    // A plain --registry is ignored for scoped packages when an npmrc pins a
    // scope registry; the @scope:registry form is what npm honours.
    assert_eq!(
        registry_args("@agent-ix/quire-cli", Some("http://npm.ix/")),
        vec!["--@agent-ix:registry=http://npm.ix/".to_string()]
    );
}

#[test]
fn registry_args_uses_plain_registry_for_unscoped_package() {
    assert_eq!(
        registry_args("some-cli", Some("https://registry.npmjs.org/")),
        vec![
            "--registry".to_string(),
            "https://registry.npmjs.org/".to_string()
        ]
    );
}

#[test]
fn detect_npm_from_node_modules_path() {
    let p = "/home/u/.npm-global/lib/node_modules/@agent-ix/quire-cli-linux-x64/quire";
    assert_eq!(detect_source(p), InstallSource::Npm);
}

#[test]
fn detect_cargo_from_cargo_bin_path() {
    let p = "/home/u/.cargo/bin/quire";
    assert_eq!(detect_source(p), InstallSource::Cargo);
}

#[test]
fn detect_unknown_from_bare_path() {
    let p = "/usr/local/bin/quire";
    assert_eq!(detect_source(p), InstallSource::Unknown);
}

#[test]
fn detect_ignores_lookalike_path_components() {
    // Substring matching would misclassify these; component matching does not.
    assert_eq!(
        detect_source("/home/u/.cargo-backup/bin/quire"),
        InstallSource::Unknown
    );
    assert_eq!(
        detect_source("/opt/node_modules-tools/quire"),
        InstallSource::Unknown
    );
}

#[test]
fn detect_prefers_npm_when_both_components_appear() {
    assert_eq!(
        detect_source("/home/u/.cargo/lib/node_modules/quire"),
        InstallSource::Npm
    );
}

#[test]
fn unknown_source_emits_manual_instructions_without_installing() {
    let opts = SelfUpdateOpts {
        check: false,
        registry: None,
    };
    let report = run_for_source(&CFG, &opts, InstallSource::Unknown)
        .finished()
        .unwrap();
    assert_eq!(report.action, Action::Manual);
    assert_eq!(report.source, InstallSource::Unknown);
    // Carries both upgrade recipes and the releases URL.
    let joined = report.messages.join("\n");
    assert!(joined.contains("npm install -g @agent-ix/quire-cli@latest"));
    assert!(joined.contains("cargo install --git"));
    assert!(joined.contains("releases"));
}

#[test]
fn cargo_check_reports_branch_tracking_without_a_version() {
    let opts = SelfUpdateOpts {
        check: true,
        registry: None,
    };
    let report = run_for_source(&CFG, &opts, InstallSource::Cargo)
        .finished()
        .unwrap();
    assert_eq!(report.action, Action::Checked { latest: None });
}

#[test]
fn manual_report_lines_are_exact() {
    let report = manual_report(&CFG);
    assert_eq!(
        report.messages,
        vec![
            "could not determine how this binary was installed".to_string(),
            "if installed via npm:   npm install -g @agent-ix/quire-cli@latest".to_string(),
            "if installed via cargo: cargo install --git https://github.com/agent-ix/quire-cli --force"
                .to_string(),
            "or download the latest release: https://github.com/agent-ix/quire-cli/releases"
                .to_string(),
        ]
    );
}

#[test]
fn npm_check_queries_the_registry_with_the_scope_override() {
    let opts = SelfUpdateOpts {
        check: true,
        registry: Some("http://npm.ix/".to_string()),
    };
    match npm_update(&CFG, &opts) {
        UpdateStep::Run(c) => {
            assert_eq!(c.program, "npm");
            assert!(c.capture);
            assert_eq!(
                c.args,
                vec![
                    "view".to_string(),
                    "@agent-ix/quire-cli".to_string(),
                    "version".to_string(),
                    "--@agent-ix:registry=http://npm.ix/".to_string(),
                ]
            );
        }
        UpdateStep::Done(_) => panic!("an npm check runs npm"),
    }
}

#[test]
fn npm_install_runs_on_the_terminal() {
    let opts = SelfUpdateOpts {
        check: false,
        registry: None,
    };
    match npm_update(&CFG, &opts) {
        UpdateStep::Run(c) => {
            assert!(!c.capture);
            assert_eq!(
                c.args,
                vec![
                    "install".to_string(),
                    "-g".to_string(),
                    "@agent-ix/quire-cli@latest".to_string(),
                ]
            );
        }
        UpdateStep::Done(_) => panic!("an npm install runs npm"),
    }
}

#[test]
fn cargo_install_rebuilds_from_the_repository() {
    let opts = SelfUpdateOpts {
        check: false,
        registry: None,
    };
    match cargo_update(&CFG, &opts) {
        UpdateStep::Run(c) => {
            assert_eq!(c.program, "cargo");
            assert_eq!(
                c.args,
                vec![
                    "install".to_string(),
                    "--git".to_string(),
                    "https://github.com/agent-ix/quire-cli".to_string(),
                    "--force".to_string(),
                ]
            );
        }
        UpdateStep::Done(_) => panic!("a cargo install runs cargo"),
    }
}

#[test]
fn npm_check_reports_the_trimmed_latest_version() {
    let opts = SelfUpdateOpts {
        check: true,
        registry: None,
    };
    let report = finish_npm_update(
        &CFG,
        &opts,
        CommandOutcome::Succeeded {
            stdout: "  1.4.2\n".to_string(),
        },
    )
    .unwrap();
    assert_eq!(
        report.action,
        Action::Checked {
            latest: Some("1.4.2".to_string())
        }
    );
    assert_eq!(report.messages[1], "latest published version: 1.4.2");
}

#[test]
fn a_failed_npm_query_is_an_error_under_its_context() {
    let opts = SelfUpdateOpts {
        check: true,
        registry: None,
    };
    let err = finish_npm_update(
        &CFG,
        &opts,
        CommandOutcome::Failed {
            status: "exit status: 1".to_string(),
            stderr: " E404 \n".to_string(),
        },
    )
    .unwrap_err();
    assert_eq!(
        err,
        "querying the npm registry for the latest version: `npm` failed: E404"
    );
}

#[test]
fn a_missing_cargo_is_reported_as_a_spawn_failure() {
    let err = finish_cargo_update(
        &CFG,
        CommandOutcome::SpawnFailed {
            reason: "No such file or directory (os error 2)".to_string(),
        },
    )
    .unwrap_err();
    assert_eq!(
        err,
        "running cargo install --git to upgrade: spawning `cargo` (is it installed and on PATH?): \
         No such file or directory (os error 2)"
    );
}

#[test]
fn a_successful_cargo_install_reports_the_upgrade() {
    let report = finish_cargo_update(
        &CFG,
        CommandOutcome::Succeeded {
            stdout: String::new(),
        },
    )
    .unwrap();
    assert_eq!(report.action, Action::Installed);
    assert_eq!(
        report.messages,
        vec!["upgraded from https://github.com/agent-ix/quire-cli via cargo".to_string()]
    );
}

// Under `--check` nothing installs: npm is only asked for a version, cargo
// runs nothing, and a successful npm query reports `Checked`.
#[test]
fn a_check_never_installs_on_any_channel() {
    let opts = SelfUpdateOpts {
        check: true,
        registry: None,
    };
    for source in [InstallSource::Npm, InstallSource::Cargo, InstallSource::Unknown] {
        match run_for_source(&CFG, &opts, source) {
            UpdateStep::Run(c) => {
                assert_eq!(c.program, "npm");
                assert_eq!(c.args[0], "view");
            }
            UpdateStep::Done(r) => assert_ne!(r.action, Action::Installed),
        }
    }
    let r = finish_npm_update(
        &CFG,
        &opts,
        CommandOutcome::Succeeded {
            stdout: "1.2.3\n".to_string(),
        },
    )
    .unwrap();
    assert_ne!(r.action, Action::Installed);
}
