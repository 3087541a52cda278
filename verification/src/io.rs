//! Stderr diagnostics and stdout results.
//!
//! - Subcommand primary output goes to stdout; nothing else does.
//! - Diagnostics and errors go to stderr, as human lines (optionally red) or
//!   as one JSON object per line.
use std::io::Write;

use vstd::prelude::*;

use crate::tsv::concat;

verus! {

broadcast use vstd::string::group_string_axioms;

/// Format selector for stderr diagnostics.
#[derive(Debug, Clone, Copy, PartialEq, Eq, Structural)]
pub enum DiagnosticsFormat {
    Human,
    Json,
}

impl Default for DiagnosticsFormat {
    fn default() -> (d: Self)
        ensures
            d == DiagnosticsFormat::Human,
    {
        DiagnosticsFormat::Human
    }
}

/// The message refusing an unknown name for an option.
pub open spec fn unknown_choice(what: Seq<char>, other: Seq<char>) -> Seq<char> {
    "unknown "@ + what + ": '"@ + other + "'"@
}

impl DiagnosticsFormat {
    /// `human` or `json`; anything else is refused by name.
    pub fn parse(s: &str) -> (r: Result<Self, String>)
        ensures
            s@ == "human"@ ==> r == Ok::<Self, String>(DiagnosticsFormat::Human),
            s@ == "json"@ ==> r == Ok::<Self, String>(DiagnosticsFormat::Json),
            s@ != "human"@ && s@ != "json"@ ==> (r matches Err(e) && e@ == unknown_choice(
                "diagnostics format"@,
                s@,
            )),
    {
        let c = crate::text::chars_of(s);
        let human = crate::text::chars_of("human");
        let json = crate::text::chars_of("json");
        proof {
            reveal_strlit("human");
            reveal_strlit("json");
            assert("human"@.len() == 5 && "json"@.len() == 4);
        }
        if crate::text::same_chars(&c, &human) {
            Ok(DiagnosticsFormat::Human)
        } else if crate::text::same_chars(&c, &json) {
            Ok(DiagnosticsFormat::Json)
        } else {
            let mut e = String::from_str("unknown ");
            e.append("diagnostics format");
            e.append(": '");
            e.append(s);
            e.append("'");
            Err(e)
        }
    }
}

impl std::str::FromStr for DiagnosticsFormat {
    type Err = String;

    fn from_str(s: &str) -> (r: Result<Self, Self::Err>)
        ensures
            s@ == "human"@ ==> r == Ok::<Self, String>(DiagnosticsFormat::Human),
            s@ == "json"@ ==> r == Ok::<Self, String>(DiagnosticsFormat::Json),
            s@ != "human"@ && s@ != "json"@ ==> (r matches Err(e) && e@ == unknown_choice(
                "diagnostics format"@,
                s@,
            )),
    {
        DiagnosticsFormat::parse(s)
    }
}

/// When to colorize human-format stderr diagnostics.
#[derive(Debug, Clone, Copy, PartialEq, Eq, Structural)]
pub enum ColorChoice {
    /// Colorize only when stderr is a terminal and `NO_COLOR` is unset.
    Auto,
    /// Always colorize, even when piped.
    Always,
    /// Never colorize.
    Never,
}

impl Default for ColorChoice {
    fn default() -> (c: Self)
        ensures
            c == ColorChoice::Auto,
    {
        ColorChoice::Auto
    }
}

impl ColorChoice {
    /// `auto`, `always` or `never`; anything else is refused by name.
    pub fn parse(s: &str) -> (r: Result<Self, String>)
        ensures
            s@ == "auto"@ ==> r == Ok::<Self, String>(ColorChoice::Auto),
            s@ == "always"@ ==> r == Ok::<Self, String>(ColorChoice::Always),
            s@ == "never"@ ==> r == Ok::<Self, String>(ColorChoice::Never),
            s@ != "auto"@ && s@ != "always"@ && s@ != "never"@ ==> (r matches Err(e) && e@
                == unknown_choice("color choice"@, s@)),
    {
        let c = crate::text::chars_of(s);
        let auto = crate::text::chars_of("auto");
        let always = crate::text::chars_of("always");
        let never = crate::text::chars_of("never");
        proof {
            reveal_strlit("auto");
            reveal_strlit("always");
            reveal_strlit("never");
            assert("auto"@.len() == 4 && "always"@.len() == 6 && "never"@.len() == 5);
        }
        if crate::text::same_chars(&c, &auto) {
            Ok(ColorChoice::Auto)
        } else if crate::text::same_chars(&c, &always) {
            Ok(ColorChoice::Always)
        } else if crate::text::same_chars(&c, &never) {
            Ok(ColorChoice::Never)
        } else {
            let mut e = String::from_str("unknown ");
            e.append("color choice");
            e.append(": '");
            e.append(s);
            e.append("'");
            Err(e)
        }
    }

    /// The on/off decision for this run, given whether `NO_COLOR` is set and
    /// whether stderr is a terminal: `Auto` colorizes only a real terminal
    /// with `NO_COLOR` unset.
    pub fn resolve_with(self, no_color_set: bool, stderr_is_terminal: bool) -> (on: bool)
        ensures
            on == match self {
                ColorChoice::Always => true,
                ColorChoice::Never => false,
                ColorChoice::Auto => !no_color_set && stderr_is_terminal,
            },
    {
        match self {
            ColorChoice::Always => true,
            ColorChoice::Never => false,
            ColorChoice::Auto => !no_color_set && stderr_is_terminal,
        }
    }
}

impl std::str::FromStr for ColorChoice {
    type Err = String;

    fn from_str(s: &str) -> (r: Result<Self, Self::Err>)
        ensures
            s@ == "auto"@ ==> r == Ok::<Self, String>(ColorChoice::Auto),
            s@ == "always"@ ==> r == Ok::<Self, String>(ColorChoice::Always),
            s@ == "never"@ ==> r == Ok::<Self, String>(ColorChoice::Never),
            s@ != "auto"@ && s@ != "always"@ && s@ != "never"@ ==> (r matches Err(e) && e@
                == unknown_choice("color choice"@, s@)),
    {
        ColorChoice::parse(s)
    }
}

/// Resolved stderr diagnostic settings: the wire format plus whether to
/// colorize human output.
#[derive(Debug, Clone, Copy)]
pub struct Diagnostics {
    pub format: DiagnosticsFormat,
    pub color: bool,
}

impl Diagnostics {
    pub fn new(format: DiagnosticsFormat, color: bool) -> (d: Self)
        ensures
            d.format == format,
            d.color == color,
    {
        Diagnostics { format, color }
    }
}

/// A diagnostic waiting to be emitted: its machine `kind` and its message.
#[derive(Debug)]
pub struct Notice {
    pub kind: String,
    pub message: String,
}

/// The texts of a list of notices.
pub open spec fn notice_views(v: Seq<Notice>) -> Seq<(Seq<char>, Seq<char>)> {
    v.map_values(|n: Notice| (n.kind@, n.message@))
}

/// A lower-case hexadecimal digit, for `n < 16`.
pub open spec fn hex_digit(n: u32) -> char {
    if n < 10 {
        (('0' as u32) + n) as char
    } else {
        (('a' as u32) + n - 10) as char
    }
}

/// How `serde_json` writes one character inside a string: the quote and the
/// backslash escaped, backspace, form feed, line feed, carriage return and
/// tab as their short escapes, any other control character below U+0020 as
/// `\u00XX` in lower-case hexadecimal, everything else as it is.
pub open spec fn json_char(c: char) -> Seq<char> {
    if c == '"' {
        seq!['\\', '"']
    } else if c == '\\' {
        seq!['\\', '\\']
    } else if c == '\u{08}' {
        seq!['\\', 'b']
    } else if c == '\t' {
        seq!['\\', 't']
    } else if c == '\n' {
        seq!['\\', 'n']
    } else if c == '\u{0C}' {
        seq!['\\', 'f']
    } else if c == '\r' {
        seq!['\\', 'r']
    } else if (c as u32) < 0x20 {
        seq!['\\', 'u', '0', '0', hex_digit((c as u32) / 16), hex_digit((c as u32) % 16)]
    } else {
        seq![c]
    }
}

/// The JSON text of a string value, quoted and escaped as `serde_json`
/// writes it.
pub open spec fn json_string(s: Seq<char>) -> Seq<char> {
    seq!['"'] + concat(s.map_values(|c: char| json_char(c))) + seq!['"']
}

/// `serde_json::to_string` of a string slice: the quoted, escaped JSON
/// string, as [`json_string`] states it after `serde_json`'s
/// `format_escaped_str` and its `ESCAPE` table. Encoding a string into
/// memory does not fail, so the `Err` arm is not reached.
#[verifier::external_body]
fn json_quote(s: &str) -> (r: String)
    ensures
        r@ == json_string(s@),
{
    match serde_json::to_string(s) {
        Ok(q) => q,
        Err(_) => String::new(),
    }
}

/// ANSI red, bold yellow and reset.
pub open spec fn red() -> Seq<char> {
    "\x1b[31m"@
}

pub open spec fn bold_yellow() -> Seq<char> {
    "\x1b[1;33m"@
}

pub open spec fn reset() -> Seq<char> {
    "\x1b[0m"@
}

/// The stderr line of an error diagnostic (without the newline).
pub open spec fn spec_diagnostic_line(out: Diagnostics, kind: Seq<char>, message: Seq<char>) -> Seq<
    char,
> {
    match out.format {
        DiagnosticsFormat::Human => if out.color {
            red() + message + reset()
        } else {
            message
        },
        DiagnosticsFormat::Json => "{\"kind\":"@ + json_string(kind) + ",\"message\":"@
            + json_string(message) + ",\"severity\":\"error\"}"@,
    }
}

/// The stderr line of an advisory warning (without the newline).
pub open spec fn spec_warning_line(out: Diagnostics, message: Seq<char>) -> Seq<char> {
    match out.format {
        DiagnosticsFormat::Human => if out.color {
            bold_yellow() + "warning:"@ + reset() + " "@ + message
        } else {
            "warning: "@ + message
        },
        DiagnosticsFormat::Json => "{\"kind\":"@ + json_string("ValidationWarning"@)
            + ",\"message\":"@ + json_string(message) + ",\"severity\":\"warning\"}"@,
    }
}

/// The stderr line of an error diagnostic: the message (red when color is
/// on) in human format, a `severity: "error"` JSON object otherwise.
pub fn diagnostic_line(out: Diagnostics, kind: &str, message: &str) -> (line: String)
    ensures
        line@ == spec_diagnostic_line(out, kind@, message@),
{
    match out.format {
        DiagnosticsFormat::Human => {
            if out.color {
                let mut s = String::from_str("\x1b[31m");
                s.append(message);
                s.append("\x1b[0m");
                s
            } else {
                String::from_str(message)
            }
        },
        DiagnosticsFormat::Json => {
            let mut s = String::from_str("{\"kind\":");
            let k = json_quote(kind);
            s.append(k.as_str());
            s.append(",\"message\":");
            let m = json_quote(message);
            s.append(m.as_str());
            s.append(",\"severity\":\"error\"}");
            s
        },
    }
}

/// The stderr line of a warning: `warning:`-prefixed in human format, a
/// `ValidationWarning` object with `severity: "warning"` in JSON.
pub fn warning_line(out: Diagnostics, message: &str) -> (line: String)
    ensures
        line@ == spec_warning_line(out, message@),
{
    match out.format {
        DiagnosticsFormat::Human => {
            if out.color {
                let mut s = String::from_str("\x1b[1;33m");
                s.append("warning:");
                s.append("\x1b[0m");
                s.append(" ");
                s.append(message);
                s
            } else {
                let mut s = String::from_str("warning: ");
                s.append(message);
                s
            }
        },
        DiagnosticsFormat::Json => {
            let mut s = String::from_str("{\"kind\":");
            let k = json_quote("ValidationWarning");
            s.append(k.as_str());
            s.append(",\"message\":");
            let m = json_quote(message);
            s.append(m.as_str());
            s.append(",\"severity\":\"warning\"}");
            s
        },
    }
}

/// `eprintln!("{line}")`: one line on stderr. A write failure is dropped,
/// so nothing is promised about the stream.
#[verifier::external_body]
fn write_stderr_line(line: &str) {
    let _ = writeln!(std::io::stderr(), "{}", line);
}

/// `println!("{line}")`: one line on stdout. A write failure is dropped, so
/// nothing is promised about the stream.
#[verifier::external_body]
fn write_stdout_line(line: &str) {
    let _ = writeln!(std::io::stdout(), "{}", line);
}

/// Emit an error diagnostic on stderr in the configured format.
pub fn emit_diagnostic(out: Diagnostics, kind: &str, message: &str) {
    let line = diagnostic_line(out, kind, message);
    write_stderr_line(line.as_str());
}

/// Emit an advisory warning on stderr in the configured format.
pub fn emit_warning(out: Diagnostics, message: &str) {
    let line = warning_line(out, message);
    write_stderr_line(line.as_str());
}

/// Emit one line of a command's primary result on stdout.
pub fn emit_result(line: &str) {
    write_stdout_line(line);
}

/// Emit every notice on stderr, in order.
pub fn emit_notices(out: Diagnostics, notices: &Vec<Notice>) {
    let mut i: usize = 0;
    while i < notices.len()
        invariant
            i <= notices@.len(),
        decreases notices@.len() - i,
    {
        emit_diagnostic(out, notices[i].kind.as_str(), notices[i].message.as_str());
        i = i + 1;
    }
}

/// Emit every line on stdout, in order.
pub fn emit_results(lines: &Vec<String>) {
    let mut i: usize = 0;
    while i < lines.len()
        invariant
            i <= lines@.len(),
        decreases lines@.len() - i,
    {
        emit_result(lines[i].as_str());
        i = i + 1;
    }
}

} // verus!
