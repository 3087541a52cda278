//! `quire lint`: the module's advisory lint rules. The engine evaluates the
//! rules; this module says how each finding reads and when the run fails.
//! Lint never blocks on warnings: only an error-severity finding fails it.
use vstd::prelude::*;

use crate::io::{notice_views, Notice};
use crate::text::{dec, push_dec};

verus! {

broadcast use vstd::string::group_string_axioms;

/// The severity a lint rule declares.
#[derive(Debug, Clone, Copy, PartialEq, Eq, Structural)]
pub enum LintSeverity {
    Warning,
    Error,
}

/// One lint finding.
#[derive(Debug, Clone, PartialEq, Eq)]
pub struct LintFinding {
    pub severity: LintSeverity,
    pub rule: String,
    pub message: String,
}

/// The stable name of a severity.
pub open spec fn severity_name(s: LintSeverity) -> Seq<char> {
    match s {
        LintSeverity::Warning => "warning"@,
        LintSeverity::Error => "error"@,
    }
}

/// The diagnostic kind of a severity.
pub open spec fn severity_kind(s: LintSeverity) -> Seq<char> {
    match s {
        LintSeverity::Warning => "LintWarning"@,
        LintSeverity::Error => "LintError"@,
    }
}

/// One finding as a diagnostic: its kind, and `<severity>: <rule>: <message>`,
/// so the severity shows in the human form too.
pub open spec fn finding_notice(f: LintFinding) -> (Seq<char>, Seq<char>) {
    (severity_kind(f.severity), severity_name(f.severity) + ": "@ + f.rule@ + ": "@ + f.message@)
}

/// How many findings are errors.
pub open spec fn error_count(fs: Seq<LintFinding>) -> nat
    decreases fs.len(),
{
    if fs.len() == 0 {
        0
    } else {
        error_count(fs.drop_last()) + if fs.last().severity == LintSeverity::Error {
            1nat
        } else {
            0nat
        }
    }
}

proof fn lemma_error_count_bound(fs: Seq<LintFinding>)
    ensures
        error_count(fs) <= fs.len(),
    decreases fs.len(),
{
    if fs.len() > 0 {
        lemma_error_count_bound(fs.drop_last());
    }
}

/// The diagnostics of the findings, in order, and how many are errors.
pub fn lint_notices(findings: &Vec<LintFinding>) -> (r: (Vec<Notice>, usize))
    ensures
        notice_views(r.0@) == findings@.map_values(|f: LintFinding| finding_notice(f)),
        r.1 == error_count(findings@),
{
    let mut out: Vec<Notice> = Vec::new();
    let mut errors: usize = 0;
    let mut i: usize = 0;
    while i < findings.len()
        invariant
            i <= findings@.len(),
            notice_views(out@) == findings@.take(i as int).map_values(
                |f: LintFinding| finding_notice(f),
            ),
            errors == error_count(findings@.take(i as int)),
        decreases findings@.len() - i,
    {
        let f = &findings[i];
        assert(findings@.take(i + 1).drop_last() =~= findings@.take(i as int));
        assert(findings@.take(i + 1).last() == *f);
        proof {
            lemma_error_count_bound(findings@.take(i as int));
        }
        let (kind, name) = match f.severity {
            LintSeverity::Warning => ("LintWarning", "warning"),
            LintSeverity::Error => {
                errors = errors + 1;
                ("LintError", "error")
            },
        };
        let mut message = String::from_str(name);
        message.append(": ");
        message.append(f.rule.as_str());
        message.append(": ");
        message.append(f.message.as_str());
        let ghost before = out@;
        out.push(Notice { kind: String::from_str(kind), message });
        assert(notice_views(out@) =~= notice_views(before).push(finding_notice(*f)));
        assert(findings@.take(i + 1).map_values(|f: LintFinding| finding_notice(f))
            =~= findings@.take(i as int).map_values(|f: LintFinding| finding_notice(f)).push(
            finding_notice(*f),
        ));
        i = i + 1;
    }
    assert(findings@.take(findings@.len() as int) =~= findings@);
    (out, errors)
}

/// The verdict of a lint run: only error-severity findings fail it.
pub fn lint_verdict(errors: usize) -> (r: Result<(), String>)
    ensures
        errors == 0 ==> r is Ok,
        errors > 0 ==> (r matches Err(e) && e@ == dec(errors as nat)
            + " error-severity lint finding(s)"@),
{
    if errors > 0 {
        let mut e = String::new();
        push_dec(&mut e, errors);
        e.append(" error-severity lint finding(s)");
        return Err(e);
    }
    Ok(())
}

} // verus!
