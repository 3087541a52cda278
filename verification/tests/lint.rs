use quire_cli::lint::{lint_notices, lint_verdict, LintFinding, LintSeverity};

fn finding(severity: LintSeverity, rule: &str, message: &str) -> LintFinding {
    LintFinding {
        severity,
        rule: rule.to_string(),
        message: message.to_string(),
    }
}

#[test]
fn findings_carry_their_severity_in_the_message() {
    let (notices, errors) = lint_notices(&vec![
        finding(LintSeverity::Warning, "vocab", "say 'shall'"),
        finding(LintSeverity::Error, "ids", "bad id"),
    ]);
    assert_eq!(errors, 1);
    assert_eq!(notices[0].kind, "LintWarning");
    assert_eq!(notices[0].message, "warning: vocab: say 'shall'");
    assert_eq!(notices[1].kind, "LintError");
    assert_eq!(notices[1].message, "error: ids: bad id");
}

#[test]
fn only_errors_fail_a_lint_run() {
    assert!(lint_verdict(0).is_ok());
    assert_eq!(
        lint_verdict(2).unwrap_err(),
        "2 error-severity lint finding(s)"
    );
}
