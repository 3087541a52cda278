use std::str::FromStr;

use quire_cli::io::{diagnostic_line, warning_line, ColorChoice, Diagnostics, DiagnosticsFormat};

#[test]
fn diagnostics_format_parses() {
    assert_eq!(
        DiagnosticsFormat::from_str("human").unwrap(),
        DiagnosticsFormat::Human
    );
    assert_eq!(
        DiagnosticsFormat::from_str("json").unwrap(),
        DiagnosticsFormat::Json
    );
    assert!(DiagnosticsFormat::from_str("yaml").is_err());
}

#[test]
fn color_choice_parses() {
    assert_eq!(ColorChoice::from_str("auto").unwrap(), ColorChoice::Auto);
    assert_eq!(
        ColorChoice::from_str("always").unwrap(),
        ColorChoice::Always
    );
    assert_eq!(ColorChoice::from_str("never").unwrap(), ColorChoice::Never);
    assert!(ColorChoice::from_str("rainbow").is_err());
}

#[test]
fn color_choice_resolves_explicit() {
    // Always/Never are deterministic regardless of TTY/NO_COLOR; Auto is off
    // when stderr is not a terminal, as under a test harness.
    assert!(ColorChoice::Always.resolve_with(false, false));
    assert!(!ColorChoice::Never.resolve_with(false, true));
    assert!(!ColorChoice::Auto.resolve_with(false, false));
}

#[test]
fn auto_colour_honours_no_color_and_the_terminal() {
    assert!(ColorChoice::Auto.resolve_with(false, true));
    assert!(!ColorChoice::Auto.resolve_with(true, true));
}

#[test]
fn an_unknown_format_is_refused_by_name() {
    assert_eq!(
        DiagnosticsFormat::parse("yaml").unwrap_err(),
        "unknown diagnostics format: 'yaml'"
    );
}

#[test]
fn json_diagnostics_escape_their_strings() {
    let out = Diagnostics::new(DiagnosticsFormat::Json, false);
    assert_eq!(
        diagnostic_line(out, "QuireError", "a \"b\"\nc"),
        "{\"kind\":\"QuireError\",\"message\":\"a \\\"b\\\"\\nc\",\"severity\":\"error\"}"
    );
    assert_eq!(
        warning_line(out, "w"),
        "{\"kind\":\"ValidationWarning\",\"message\":\"w\",\"severity\":\"warning\"}"
    );
}

#[test]
fn human_diagnostics_are_the_message_or_red() {
    let plain = Diagnostics::new(DiagnosticsFormat::Human, false);
    assert_eq!(diagnostic_line(plain, "K", "boom"), "boom");
    assert_eq!(warning_line(plain, "careful"), "warning: careful");
    let red = Diagnostics::new(DiagnosticsFormat::Human, true);
    assert_eq!(diagnostic_line(red, "K", "boom"), "\x1b[31mboom\x1b[0m");
}

#[test]
fn json_escapes_control_characters_as_serde_json_does() {
    let out = Diagnostics::new(DiagnosticsFormat::Json, false);
    assert_eq!(
        diagnostic_line(out, "K", "\u{1}\u{8}\u{c}\t\r\\\u{1f}é"),
        "{\"kind\":\"K\",\"message\":\"\\u0001\\b\\f\\t\\r\\\\\\u001fé\",\"severity\":\"error\"}"
    );
}
