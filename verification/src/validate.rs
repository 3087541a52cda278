//! `quire validate`: markdown-only structural validation.
//!
//! The engine validates a document against its archetype and returns errors
//! (exit-failing) and warnings (advisory). This module says how each finding
//! reads on stderr, which inputs are globs, where relative inputs resolve,
//! and what the run as a whole amounts to. It never writes stdout.
use std::path::PathBuf;

use vstd::prelude::*;

use crate::io::{Diagnostics, emit_diagnostic, emit_warning};
use crate::text::{chars_of, dec, push_dec, same_chars};
use crate::commands::{join_text, path_join};
use crate::safety::display_path;

verus! {

broadcast use vstd::string::group_string_axioms;

/// A glob metacharacter: `*`, `?` or `[`.
pub open spec fn is_glob_char(c: char) -> bool {
    c == '*' || c == '?' || c == '['
}

/// Whether `raw` holds a glob metacharacter.
pub fn contains_glob(raw: &str) -> (b: bool)
    ensures
        b == exists|i: int| 0 <= i < raw@.len() && is_glob_char(#[trigger] raw@[i]),
{
    let v = chars_of(raw);
    let mut i: usize = 0;
    while i < v.len()
        invariant
            i <= v@.len(),
            v@ == raw@,
            forall|k: int| 0 <= k < i ==> !is_glob_char(#[trigger] v@[k]),
        decreases v@.len() - i,
    {
        let c = v[i];
        if c == '*' || c == '?' || c == '[' {
            assert(is_glob_char(raw@[i as int]));
            return true;
        }
        i = i + 1;
    }
    false
}

/// `line N: ` for a 1-based line number, nothing when absent.
pub open spec fn spec_line_prefix(line: Option<usize>) -> Seq<char> {
    match line {
        Some(l) => "line "@ + dec(l as nat) + ": "@,
        None => Seq::empty(),
    }
}

/// Render an optional 1-based line number as a `line N: ` prefix.
pub fn line_prefix(line: Option<usize>) -> (s: String)
    ensures
        s@ == spec_line_prefix(line),
{
    match line {
        Some(l) => {
            let mut s = String::from_str("line ");
            push_dec(&mut s, l);
            s.append(": ");
            s
        },
        None => String::new(),
    }
}

/// One engine finding on a document.
#[derive(Debug, Clone, PartialEq, Eq)]
pub struct ValidationIssue {
    /// 1-based line, when the finding has one.
    pub line: Option<usize>,
    pub message: String,
    /// The stable reason token.
    pub reason: String,
}

/// The engine's result on one document.
#[derive(Debug, Clone, PartialEq, Eq)]
pub struct ValidationResult {
    pub errors: Vec<ValidationIssue>,
    pub warnings: Vec<ValidationIssue>,
}

/// How a finding reads: `<label>: [line N: ]<message> [<reason>]`.
pub open spec fn spec_issue_message(label: Seq<char>, issue: ValidationIssue) -> Seq<char> {
    label + ": "@ + spec_line_prefix(issue.line) + issue.message@ + " ["@ + issue.reason@ + "]"@
}

/// The text of one finding on the document `label`.
pub fn issue_message(label: &str, issue: &ValidationIssue) -> (s: String)
    ensures
        s@ == spec_issue_message(label@, *issue),
{
    let mut s = String::from_str(label);
    s.append(": ");
    let l = line_prefix(issue.line);
    s.append(l.as_str());
    s.append(issue.message.as_str());
    s.append(" [");
    s.append(issue.reason.as_str());
    s.append("]");
    s
}

/// Which severities one document's validation surfaced.
#[derive(Debug, Clone, Copy, PartialEq, Eq, Structural)]
pub struct SurfaceOutcome {
    pub had_errors: bool,
    pub had_warnings: bool,
}

/// Surface each finding on stderr, errors as `ValidationError` diagnostics and
/// warnings marked as warnings, and say which severities appeared.
pub fn surface_result(out: Diagnostics, label: &str, result: &ValidationResult) -> (o: SurfaceOutcome)
    ensures
        o.had_errors == (result.errors@.len() > 0),
        o.had_warnings == (result.warnings@.len() > 0),
{
    let mut i: usize = 0;
    while i < result.errors.len()
        invariant
            i <= result.errors@.len(),
        decreases result.errors@.len() - i,
    {
        let m = issue_message(label, &result.errors[i]);
        emit_diagnostic(out, "ValidationError", m.as_str());
        i = i + 1;
    }
    let mut j: usize = 0;
    while j < result.warnings.len()
        invariant
            j <= result.warnings@.len(),
        decreases result.warnings@.len() - j,
    {
        let m = issue_message(label, &result.warnings[j]);
        emit_warning(out, m.as_str());
        j = j + 1;
    }
    SurfaceOutcome { had_errors: result.errors.len() > 0, had_warnings: result.warnings.len() > 0 }
}

/// How a `type` resolution failure reads, in the shape of a `frontmatter`
/// finding: `<label>: <message> [frontmatter]`.
pub open spec fn spec_frontmatter_failure(label: Seq<char>, message: Seq<char>) -> Seq<char> {
    label + ": "@ + message + " [frontmatter]"@
}

/// The text of a `type` resolution failure.
pub fn frontmatter_failure(label: &str, message: &str) -> (s: String)
    ensures
        s@ == spec_frontmatter_failure(label@, message@),
{
    let mut s = String::from_str(label);
    s.append(": ");
    s.append(message);
    s.append(" [frontmatter]");
    s
}

/// Surface a missing or unknown `type` as a `ValidationError`.
pub fn emit_frontmatter_failure(out: Diagnostics, label: &str, message: &str) {
    let m = frontmatter_failure(label, message);
    emit_diagnostic(out, "ValidationError", m.as_str());
}

/// The message of a document whose frontmatter has no `type`.
pub fn missing_type_message() -> (s: &'static str)
    ensures
        s@ == "required 'type' is missing from frontmatter (add `type:`, or pass --archetype <NAME>)"@,
{
    "required 'type' is missing from frontmatter (add `type:`, or pass --archetype <NAME>)"
}

/// The message of a document whose `type` names no registered archetype.
pub fn unknown_type_message(name: &str) -> (s: String)
    ensures
        s@ == "unknown type '"@ + name@ + "' (no archetype registered for it)"@,
{
    let mut s = String::from_str("unknown type '");
    s.append(name);
    s.append("' (no archetype registered for it)");
    s
}

/// What a run over `failures` failed and `warned` warned documents amounts
/// to: any failure fails the run; with `--strict`, so does any warning.
pub open spec fn spec_validation_verdict(failures: usize, warned: usize, strict: bool) -> Result<
    (),
    Seq<char>,
> {
    if failures > 0 {
        Err(dec(failures as nat) + " document(s) failed structural validation"@)
    } else if strict && warned > 0 {
        Err(dec(warned as nat) + " document(s) emitted warnings (--strict)"@)
    } else {
        Ok(())
    }
}

/// The verdict of a validation run.
pub fn validation_verdict(failures: usize, warned: usize, strict: bool) -> (r: Result<(), String>)
    ensures
        (match r {
            Ok(()) => spec_validation_verdict(failures, warned, strict) == Ok::<(), Seq<char>>(()),
            Err(e) => spec_validation_verdict(failures, warned, strict) == Err::<(), Seq<char>>(e@),
        }),
{
    if failures > 0 {
        let mut e = String::new();
        push_dec(&mut e, failures);
        e.append(" document(s) failed structural validation");
        return Err(e);
    }
    if strict && warned > 0 {
        let mut e = String::new();
        push_dec(&mut e, warned);
        e.append(" document(s) emitted warnings (--strict)");
        return Err(e);
    }
    Ok(())
}

/// One OKF bundle finding as a line: `<path>: <message> [<reason>]`.
pub open spec fn spec_bundle_issue(path: Seq<char>, message: Seq<char>, reason: Seq<char>) -> Seq<char> {
    path + ": "@ + message + " ["@ + reason + "]"@
}

/// The text of one OKF bundle finding.
pub fn bundle_issue(path: &str, message: &str, reason: &str) -> (s: String)
    ensures
        s@ == spec_bundle_issue(path@, message@, reason@),
{
    let mut s = String::from_str(path);
    s.append(": ");
    s.append(message);
    s.append(" [");
    s.append(reason);
    s.append("]");
    s
}

/// The verdict of an OKF bundle run: only hard errors fail it.
pub fn okf_verdict(errors: usize) -> (r: Result<(), String>)
    ensures
        errors == 0 ==> r is Ok,
        errors > 0 ==> (r matches Err(e) && e@ == dec(errors as nat)
            + " OKF bundle validation error(s)"@),
{
    if errors > 0 {
        let mut e = String::new();
        push_dec(&mut e, errors);
        e.append(" OKF bundle validation error(s)");
        return Err(e);
    }
    Ok(())
}

/// A relative path, on Unix: one that does not start at the root.
pub open spec fn is_relative(raw: Seq<char>) -> bool {
    raw.len() == 0 || raw[0] != '/'
}

/// Where an input resolves: under the scope when validation is scoped and the
/// path is relative, else as given.
pub open spec fn spec_scoped_path(scope: Seq<char>, scoped: bool, raw: Seq<char>) -> Seq<char> {
    if scoped && is_relative(raw) {
        path_join(scope, raw)
    } else {
        raw
    }
}

/// Resolve an input path against the scope.
pub fn scoped_path(scope: &str, scoped: bool, raw: &str) -> (p: String)
    ensures
        p@ == spec_scoped_path(scope@, scoped, raw@),
{
    let v = chars_of(raw);
    let relative = v.len() == 0 || v[0] != '/';
    if scoped && relative {
        join_text(scope, raw)
    } else {
        String::from_str(raw)
    }
}

/// Whether `roots` already lists `root`.
pub open spec fn lists(roots: Seq<String>, root: Seq<char>) -> bool {
    exists|i: int| 0 <= i < roots.len() && (#[trigger] roots[i])@ == root
}

/// No root is listed twice.
pub open spec fn distinct_roots(roots: Seq<String>) -> bool {
    forall|i: int, j: int| 0 <= i < j < roots.len() ==> (#[trigger] roots[i])@ != (#[trigger] roots[j])@
}

/// Add a search root unless it is already listed; the first listing keeps its
/// place.
pub fn push_root(roots: &mut Vec<String>, root: String)
    ensures
        lists(old(roots)@, root@) ==> final(roots)@ == old(roots)@,
        !lists(old(roots)@, root@) ==> final(roots)@ == old(roots)@.push(root),
        distinct_roots(old(roots)@) ==> distinct_roots(final(roots)@),
{
    let r = chars_of(root.as_str());
    let mut i: usize = 0;
    while i < roots.len()
        invariant
            i <= roots@.len(),
            r@ == root@,
            forall|k: int| 0 <= k < i ==> (#[trigger] roots@[k])@ != root@,
        decreases roots@.len() - i,
    {
        let c = chars_of(roots[i].as_str());
        if same_chars(&c, &r) {
            return;
        }
        i = i + 1;
    }
    roots.push(root);
}

/// How one document argument is read.
#[derive(Debug, Clone, PartialEq, Eq)]
pub enum DocumentArgument {
    /// `-`: the document comes on stdin.
    Stdin,
    /// A glob pattern, already placed under the scope where it is relative.
    Glob(String),
    /// One path, already placed under the scope where it is relative.
    Path(String),
}

/// Whether `raw` holds a glob character.
pub open spec fn has_glob_char(raw: Seq<char>) -> bool {
    exists|i: int| 0 <= i < raw.len() && is_glob_char(#[trigger] raw[i])
}

/// Classify a document argument: `-` is stdin; an argument with a glob
/// character is a pattern; anything else is one path. Patterns and paths are
/// placed under the scope as [`scoped_path`] does.
pub fn classify_document_argument(raw: &str, scope: &str, scoped: bool) -> (a: DocumentArgument)
    ensures
        raw@ == "-"@ ==> a == DocumentArgument::Stdin,
        raw@ != "-"@ && has_glob_char(raw@) ==> (a matches DocumentArgument::Glob(p) && p@
            == spec_scoped_path(scope@, scoped, raw@)),
        raw@ != "-"@ && !has_glob_char(raw@) ==> (a matches DocumentArgument::Path(p) && p@
            == spec_scoped_path(scope@, scoped, raw@)),
{
    let dash = chars_of("-");
    let r = chars_of(raw);
    proof {
        reveal_strlit("-");
    }
    if same_chars(&r, &dash) {
        return DocumentArgument::Stdin;
    }
    if contains_glob(raw) {
        DocumentArgument::Glob(scoped_path(scope, scoped, raw))
    } else {
        DocumentArgument::Path(scoped_path(scope, scoped, raw))
    }
}

/// The refusal of a document glob that matched no file.
pub open spec fn no_match_message(raw: Seq<char>) -> Seq<char> {
    "document glob matched no files: '"@ + raw + "'"@
}

/// A document glob must match at least one file: `matched` files matched
/// `raw`; none is the error naming the pattern as it was given.
pub fn glob_match_verdict(raw: &str, matched: usize) -> (r: Result<(), String>)
    ensures
        matched > 0 <==> r is Ok,
        r matches Err(m) ==> m@ == no_match_message(raw@),
{
    if matched > 0 {
        Ok(())
    } else {
        let mut m = String::from_str("document glob matched no files: '");
        m.append(raw);
        m.append("'");
        proof {
            reveal_strlit("document glob matched no files: '");
            reveal_strlit("'");
        }
        Err(m)
    }
}

/// One document to validate: stdin, or a resolved file.
#[derive(Debug)]
pub enum DocumentInput {
    Stdin,
    Path(PathBuf),
}

impl DocumentInput {
    /// The label a document's findings carry: `-` for stdin, else its path.
    pub fn label(&self) -> (s: String)
        ensures
            self is Stdin ==> s@ == "-"@,
    {
        match self {
            DocumentInput::Stdin => String::from_str("-"),
            DocumentInput::Path(p) => display_path(p),
        }
    }
}

/// The archetype a document is validated against: `--archetype` when given,
/// else the frontmatter `type`, else none (a per-document failure).
pub fn archetype_name(explicit: Option<String>, from_type: Option<String>) -> (r: Option<String>)
    ensures
        r == (if explicit is Some {
            explicit
        } else {
            from_type
        }),
{
    match explicit {
        Some(name) => Some(name),
        None => from_type,
    }
}

/// A name no archetype is registered for: an explicit `--archetype` is a usage
/// error that ends the run (`Err`); a frontmatter `type` is a per-document
/// failure, reported with this message (`Ok`).
pub fn unregistered_archetype(explicit_given: bool, name: &str) -> (r: Result<String, String>)
    ensures
        explicit_given ==> (r matches Err(e) && e@ == "UnknownArchetype: '"@ + name@
            + "' is not registered"@),
        !explicit_given ==> (r matches Ok(m) && m@ == "unknown type '"@ + name@
            + "' (no archetype registered for it)"@),
{
    if explicit_given {
        let mut e = String::from_str("UnknownArchetype: '");
        e.append(name);
        e.append("' is not registered");
        return Err(e);
    }
    Ok(unknown_type_message(name))
}

/// A failing document fails the run whether or not `--strict` is given;
/// `--strict` only adds warnings as a further cause; a run with neither
/// failures nor (under `--strict`) warnings passes.
pub proof fn law_a_failed_document_always_fails_the_run(failures: usize, warned: usize, strict: bool)
    ensures
        failures > 0 ==> spec_validation_verdict(failures, warned, strict) is Err,
        failures > 0 ==> spec_validation_verdict(failures, warned, strict)
            == spec_validation_verdict(failures, warned, !strict),
        failures == 0 && warned > 0 ==> (spec_validation_verdict(failures, warned, strict) is Err
            <==> strict),
        failures == 0 && warned == 0 ==> spec_validation_verdict(failures, warned, strict) is Ok,
        !strict ==> (spec_validation_verdict(failures, warned, strict) is Err <==> failures > 0),
{
}

} // verus!
