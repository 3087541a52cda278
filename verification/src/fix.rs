//! `quire fix`: unlinked artifact references in a bundle's prose. The engine
//! finds them and builds each suggested link; this module says what a dry run
//! reports, which findings only warn, and when a dry run fails.
use vstd::prelude::*;

use crate::text::{dec, push_dec};
use crate::tsv::texts;

verus! {

broadcast use vstd::string::group_string_axioms;

/// Why a reference cannot be fixed automatically.
#[derive(Debug, Clone, Copy, PartialEq, Eq, Structural)]
pub enum UnlinkedReason {
    /// It resolves to no artifact in the bundle.
    Unresolved,
    /// It resolves to more than one artifact.
    Ambiguous,
}

/// What can be done about one reference.
#[derive(Debug, Clone, PartialEq, Eq)]
pub enum UnlinkedFix {
    /// Replace the token with this link.
    AutoFix { suggested_link: String },
    /// Report only.
    WarnOnly { reason: UnlinkedReason },
}

/// One unlinked reference: the file, the bare token, and the fix.
#[derive(Debug, Clone, PartialEq, Eq)]
pub struct UnlinkedFinding {
    pub path: String,
    pub token: String,
    pub fix: UnlinkedFix,
}

/// The explanation of a warn-only reference.
pub open spec fn reason_text(r: UnlinkedReason) -> Seq<char> {
    match r {
        UnlinkedReason::Unresolved => "unresolved — if cross-repo, add an ix:// reference manually"@,
        UnlinkedReason::Ambiguous => "ambiguous — resolves to more than one artifact"@,
    }
}

/// The warning line of a finding, when it only warns.
pub open spec fn warning_of(f: UnlinkedFinding) -> Option<Seq<char>> {
    match f.fix {
        UnlinkedFix::WarnOnly { reason } => Some(
            f.path@ + ": "@ + f.token@ + " ("@ + reason_text(reason) + ")"@,
        ),
        UnlinkedFix::AutoFix { .. } => None,
    }
}

/// The dry-run line of a finding, when it can be fixed.
pub open spec fn would_fix_of(f: UnlinkedFinding) -> Option<Seq<char>> {
    match f.fix {
        UnlinkedFix::AutoFix { suggested_link } => Some(
            "would-fix: "@ + f.path@ + ": "@ + f.token@ + " -> "@ + suggested_link@,
        ),
        UnlinkedFix::WarnOnly { .. } => None,
    }
}

/// The warning lines of the warn-only findings, in order. Warnings never
/// affect the exit code and are never applied.
pub fn warnings(findings: &Vec<UnlinkedFinding>) -> (out: Vec<String>)
    ensures
        texts(out@) == findings@.filter_map(|f: UnlinkedFinding| warning_of(f)),
{
    let mut out: Vec<String> = Vec::new();
    let mut i: usize = 0;
    while i < findings.len()
        invariant
            i <= findings@.len(),
            texts(out@) == findings@.take(i as int).filter_map(|f: UnlinkedFinding| warning_of(f)),
        decreases findings@.len() - i,
    {
        let f = &findings[i];
        let ghost before = out@;
        match &f.fix {
            UnlinkedFix::WarnOnly { reason } => {
                let mut s = String::from_str(f.path.as_str());
                s.append(": ");
                s.append(f.token.as_str());
                s.append(" (");
                match reason {
                    UnlinkedReason::Unresolved => s.append(
                        "unresolved — if cross-repo, add an ix:// reference manually",
                    ),
                    UnlinkedReason::Ambiguous => s.append(
                        "ambiguous — resolves to more than one artifact",
                    ),
                }
                s.append(")");
                out.push(s);
                assert(texts(out@) =~= texts(before).push(warning_of(*f)->0));
            },
            UnlinkedFix::AutoFix { .. } => {},
        }
        assert(findings@.take(i + 1).drop_last() =~= findings@.take(i as int));
        assert(findings@.take(i + 1).last() == *f);
        assert(texts(out@) =~= findings@.take(i + 1).filter_map(|f: UnlinkedFinding| warning_of(f)));
        i = i + 1;
    }
    assert(findings@.take(findings@.len() as int) =~= findings@);
    out
}

/// The dry-run lines of the fixable findings, in order.
pub fn would_fix_lines(findings: &Vec<UnlinkedFinding>) -> (out: Vec<String>)
    ensures
        texts(out@) == findings@.filter_map(|f: UnlinkedFinding| would_fix_of(f)),
{
    let mut out: Vec<String> = Vec::new();
    let mut i: usize = 0;
    while i < findings.len()
        invariant
            i <= findings@.len(),
            texts(out@) == findings@.take(i as int).filter_map(
                |f: UnlinkedFinding| would_fix_of(f),
            ),
        decreases findings@.len() - i,
    {
        let f = &findings[i];
        let ghost before = out@;
        match &f.fix {
            UnlinkedFix::AutoFix { suggested_link } => {
                let mut s = String::from_str("would-fix: ");
                s.append(f.path.as_str());
                s.append(": ");
                s.append(f.token.as_str());
                s.append(" -> ");
                s.append(suggested_link.as_str());
                out.push(s);
                assert(texts(out@) =~= texts(before).push(would_fix_of(*f)->0));
            },
            UnlinkedFix::WarnOnly { .. } => {},
        }
        assert(findings@.take(i + 1).drop_last() =~= findings@.take(i as int));
        assert(findings@.take(i + 1).last() == *f);
        assert(texts(out@) =~= findings@.take(i + 1).filter_map(|f: UnlinkedFinding| would_fix_of(f)));
        i = i + 1;
    }
    assert(findings@.take(findings@.len() as int) =~= findings@);
    out
}

/// The verdict of a dry run with `fixable` fixable references: it fails
/// exactly when there is something `--write` would change.
pub fn dry_run_verdict(fixable: usize) -> (r: Result<(), String>)
    ensures
        fixable == 0 ==> r is Ok,
        fixable > 0 ==> (r matches Err(e) && e@ == dec(fixable as nat)
            + " unlinked reference(s) can be auto-fixed; re-run with --write"@),
{
    if fixable > 0 {
        let mut e = String::new();
        push_dec(&mut e, fixable);
        e.append(" unlinked reference(s) can be auto-fixed; re-run with --write");
        return Err(e);
    }
    Ok(())
}

/// The report of a file rewritten with `n` fixes.
pub fn fixed_message(n: usize, path: &str) -> (s: String)
    ensures
        s@ == "fixed "@ + dec(n as nat) + " reference(s) in "@ + path@,
{
    let mut s = String::from_str("fixed ");
    push_dec(&mut s, n);
    s.append(" reference(s) in ");
    s.append(path);
    s
}

} // verus!
