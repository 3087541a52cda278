//! `quire clauses`: evaluate and compare module-supplied clause sets.
//!
//! The engine owns the clause model, its applicability semantics and the diff;
//! this module reads the declared context and renders the engine's reports as
//! human text or TSV.
use vstd::prelude::*;

use crate::text::{after_first, after_first_chars, before_first, before_first_chars, chars_of,
    push_dec, same_chars, string_of, trim, trim_chars, dec};
use crate::tsv::{concat, join, texts, join_strings};
use crate::coverage::lemma_concat_push;

verus! {

broadcast use vstd::string::group_string_axioms;

/// Output form of `quire clauses`.
#[derive(Debug, Clone, Copy, PartialEq, Eq, Structural)]
pub enum OutputFormat {
    Human,
    Json,
    Tsv,
}

/// `--json` is an alias for `--format json`.
pub fn selected_format(format: OutputFormat, json: bool) -> (f: OutputFormat)
    ensures
        f == (if json { OutputFormat::Json } else { format }),
{
    if json {
        OutputFormat::Json
    } else {
        format
    }
}

/// How strongly a clause applies.
#[derive(Debug, Clone, Copy, PartialEq, Eq, Structural)]
pub enum ClauseForce {
    Mandatory,
    Recommended,
    Permitted,
}

/// Whether a clause binds under the declared context.
#[derive(Debug, Clone, Copy, PartialEq, Eq, Structural)]
pub enum BindingOutcome {
    Binding,
    NotBinding,
    Unresolved,
}

/// The stable name of a force.
pub open spec fn spec_force_name(force: ClauseForce) -> Seq<char> {
    match force {
        ClauseForce::Mandatory => "mandatory"@,
        ClauseForce::Recommended => "recommended"@,
        ClauseForce::Permitted => "permitted"@,
    }
}

/// The stable name of a force.
pub fn force_name(force: ClauseForce) -> (s: &'static str)
    ensures
        s@ == spec_force_name(force),
{
    match force {
        ClauseForce::Mandatory => "mandatory",
        ClauseForce::Recommended => "recommended",
        ClauseForce::Permitted => "permitted",
    }
}

/// The stable name of an outcome.
pub open spec fn spec_outcome_name(outcome: BindingOutcome) -> Seq<char> {
    match outcome {
        BindingOutcome::Binding => "binding"@,
        BindingOutcome::NotBinding => "not_binding"@,
        BindingOutcome::Unresolved => "unresolved"@,
    }
}

/// The stable name of an outcome.
pub fn outcome_name(outcome: BindingOutcome) -> (s: &'static str)
    ensures
        s@ == spec_outcome_name(outcome),
{
    match outcome {
        BindingOutcome::Binding => "binding",
        BindingOutcome::NotBinding => "not_binding",
        BindingOutcome::Unresolved => "unresolved",
    }
}

/// The escape of one character in a TSV cell: backslash, tab, carriage return
/// and newline become two-character escapes; anything else stays.
pub open spec fn escape_char(c: char) -> Seq<char> {
    if c == '\\' {
        seq!['\\', '\\']
    } else if c == '\t' {
        seq!['\\', 't']
    } else if c == '\r' {
        seq!['\\', 'r']
    } else if c == '\n' {
        seq!['\\', 'n']
    } else {
        seq![c]
    }
}

/// A TSV cell: `value` with its structural characters escaped, so that a
/// record stays on one line and the escape can be undone.
pub open spec fn escape_cell(s: Seq<char>) -> Seq<char> {
    concat(s.map_values(|c: char| escape_char(c)))
}

/// Escape `value` for a TSV cell.
pub fn tsv_cell(value: &str) -> (out: String)
    ensures
        out@ == escape_cell(value@),
{
    let v = chars_of(value);
    let mut out = String::new();
    let mut i: usize = 0;
    while i < v.len()
        invariant
            i <= v@.len(),
            v@ == value@,
            out@ == concat(v@.take(i as int).map_values(|c: char| escape_char(c))),
        decreases v@.len() - i,
    {
        let c = v[i];
        let ghost before = out@;
        if c == '\\' {
            crate::text::push_char(&mut out, '\\');
            crate::text::push_char(&mut out, '\\');
        } else if c == '\t' {
            crate::text::push_char(&mut out, '\\');
            crate::text::push_char(&mut out, 't');
        } else if c == '\r' {
            crate::text::push_char(&mut out, '\\');
            crate::text::push_char(&mut out, 'r');
        } else if c == '\n' {
            crate::text::push_char(&mut out, '\\');
            crate::text::push_char(&mut out, 'n');
        } else {
            crate::text::push_char(&mut out, c);
        }
        assert(out@ =~= before + escape_char(c));
        proof {
            let f = |c: char| escape_char(c);
            assert(v@.take(i + 1).map_values(f) =~= v@.take(i as int).map_values(f).push(
                escape_char(c),
            ));
            lemma_concat_push(v@.take(i as int).map_values(f), escape_char(c));
        }
        i = i + 1;
    }
    assert(v@.take(v@.len() as int) =~= v@);
    out
}

/// `format!("{s:?}")`: a string as Rust source would quote it.
pub uninterp spec fn debug_str(s: Seq<char>) -> Seq<char>;

/// Quote `s` the way `{:?}` does.
#[verifier::external_body]
fn debug_quote(s: &str) -> (q: String)
    ensures
        q@ == debug_str(s@),
{
    format!("{s:?}")
}

/// One `--context` entry: `KEY=VALUE`, split at the first `=`, both sides
/// trimmed and non-empty.
pub open spec fn parse_entry(e: Seq<char>) -> Result<(Seq<char>, Seq<char>), Seq<char>> {
    match after_first(e, '=') {
        None => Err("--context "@ + debug_str(e) + " must be KEY=VALUE"@),
        Some(v) => if trim(before_first(e, '=')).len() == 0 || trim(v).len() == 0 {
            Err("--context "@ + debug_str(e) + " must have a non-empty key and value"@)
        } else {
            Ok((trim(before_first(e, '=')), trim(v)))
        },
    }
}

/// Whether `key` is already declared in `ctx`.
pub open spec fn declares(ctx: Seq<(Seq<char>, Seq<char>)>, key: Seq<char>) -> bool {
    exists|i: int| 0 <= i < ctx.len() && #[trigger] ctx[i].0 == key
}

/// The declared context: the entries in order, each parsed; the first bad
/// entry, or the first key declared twice, is the error.
pub open spec fn spec_parse_context(entries: Seq<Seq<char>>) -> Result<
    Seq<(Seq<char>, Seq<char>)>,
    Seq<char>,
>
    decreases entries.len(),
{
    if entries.len() == 0 {
        Ok(Seq::empty())
    } else {
        match spec_parse_context(entries.drop_last()) {
            Err(e) => Err(e),
            Ok(ctx) => match parse_entry(entries.last()) {
                Err(e) => Err(e),
                Ok(kv) => if declares(ctx, kv.0) {
                    Err("--context declares "@ + debug_str(kv.0) + " more than once"@)
                } else {
                    Ok(ctx.push(kv))
                },
            },
        }
    }
}

/// Once a prefix of the entries is refused, the whole list is refused with the
/// same error.
pub proof fn lemma_parse_error_sticks(entries: Seq<Seq<char>>, n: int)
    requires
        0 <= n <= entries.len(),
        spec_parse_context(entries.take(n)) is Err,
    ensures
        spec_parse_context(entries) == spec_parse_context(entries.take(n)),
    decreases entries.len(),
{
    if entries.len() > n {
        assert(entries.drop_last().take(n) =~= entries.take(n));
        lemma_parse_error_sticks(entries.drop_last(), n);
    } else {
        assert(entries.take(n) =~= entries);
    }
}

/// The key/value pairs as characters.
pub open spec fn pair_views(v: Seq<(String, String)>) -> Seq<(Seq<char>, Seq<char>)> {
    v.map_values(|p: (String, String)| (p.0@, p.1@))
}

/// Whether `key` is among the keys of `ctx`.
fn has_key(ctx: &Vec<(String, String)>, key: &[char]) -> (b: bool)
    ensures
        b == declares(pair_views(ctx@), key@),
{
    let mut i: usize = 0;
    while i < ctx.len()
        invariant
            i <= ctx@.len(),
            forall|k: int| 0 <= k < i ==> #[trigger] pair_views(ctx@)[k].0 != key@,
        decreases ctx@.len() - i,
    {
        let k = chars_of(ctx[i].0.as_str());
        if same_chars(&k, key) {
            assert(pair_views(ctx@)[i as int].0 == key@);
            return true;
        }
        i = i + 1;
    }
    false
}

/// Read the repeated `--context KEY=VALUE` arguments into the declared
/// context: keys in order of declaration, none twice.
pub fn parse_context(entries: &[String]) -> (r: Result<Vec<(String, String)>, String>)
    ensures
        (match r {
            Ok(ctx) => spec_parse_context(texts(entries@)) == Ok::<
                Seq<(Seq<char>, Seq<char>)>,
                Seq<char>,
            >(pair_views(ctx@)),
            Err(e) => spec_parse_context(texts(entries@)) == Err::<
                Seq<(Seq<char>, Seq<char>)>,
                Seq<char>,
            >(e@),
        }),
{
    let ghost all = texts(entries@);
    let mut ctx: Vec<(String, String)> = Vec::new();
    assert(all.take(0) =~= Seq::<Seq<char>>::empty());
    assert(pair_views(ctx@) =~= Seq::<(Seq<char>, Seq<char>)>::empty());
    let mut i: usize = 0;
    while i < entries.len()
        invariant
            i <= entries@.len(),
            all == texts(entries@),
            spec_parse_context(all.take(i as int)) == Ok::<
                Seq<(Seq<char>, Seq<char>)>,
                Seq<char>,
            >(pair_views(ctx@)),
        decreases entries@.len() - i,
    {
        assert(all.take(i + 1).drop_last() =~= all.take(i as int));
        assert(all.take(i + 1).last() == entries@[i as int]@);
        let e = chars_of(entries[i].as_str());
        let value = after_first_chars(&e, '=');
        match value {
            None => {
                let mut msg = String::from_str("--context ");
                let q = debug_quote(entries[i].as_str());
                msg.append(q.as_str());
                msg.append(" must be KEY=VALUE");
                proof {
                    lemma_parse_error_sticks(all, i + 1);
                }
                return Err(msg);
            },
            Some(v) => {
                let k = before_first_chars(&e, '=');
                let kt = trim_chars(&k);
                let vt = trim_chars(&v);
                if kt.len() == 0 || vt.len() == 0 {
                    let mut msg = String::from_str("--context ");
                    let q = debug_quote(entries[i].as_str());
                    msg.append(q.as_str());
                    msg.append(" must have a non-empty key and value");
                    proof {
                        lemma_parse_error_sticks(all, i + 1);
                    }
                    return Err(msg);
                }
                if has_key(&ctx, &kt) {
                    let key = string_of(&kt);
                    let mut msg = String::from_str("--context declares ");
                    let q = debug_quote(key.as_str());
                    msg.append(q.as_str());
                    msg.append(" more than once");
                    proof {
                        lemma_parse_error_sticks(all, i + 1);
                    }
                    return Err(msg);
                }
                let ghost before = ctx@;
                ctx.push((string_of(&kt), string_of(&vt)));
                assert(pair_views(ctx@) =~= pair_views(before).push((kt@, vt@)));
            },
        }
        i = i + 1;
    }
    assert(all.take(entries@.len() as int) =~= all);
    Ok(ctx)
}

/// An exact clause-set version: authority, id and version.
#[derive(Debug, Clone, PartialEq, Eq)]
pub struct ClauseSetRef {
    pub authority: String,
    pub id: String,
    pub version: String,
}

/// Why a clause binds or does not: a stable code and a message.
#[derive(Debug, Clone, PartialEq, Eq)]
pub struct BindingReason {
    pub code: String,
    pub message: String,
}

/// One clause evaluated against the declared context.
#[derive(Debug, Clone, PartialEq, Eq)]
pub struct ClauseBinding {
    pub clause_id: String,
    pub force: ClauseForce,
    pub outcome: BindingOutcome,
    pub expected_outputs: Vec<String>,
    pub reasons: Vec<BindingReason>,
}

/// The evaluation of one exact clause set.
#[derive(Debug, Clone, PartialEq, Eq)]
pub struct ClauseBindingReport {
    pub clause_set: ClauseSetRef,
    pub clause_set_digest: String,
    pub clauses: Vec<ClauseBinding>,
}

/// A clause as a diff names it.
#[derive(Debug, Clone, PartialEq, Eq)]
pub struct Clause {
    pub id: String,
    pub force: ClauseForce,
}

/// A clause present in both versions, changed.
#[derive(Debug, Clone, PartialEq, Eq)]
pub struct ClauseChange {
    pub clause_id: String,
    pub before: Clause,
    pub after: Clause,
}

/// The comparison of two exact versions of one clause set.
#[derive(Debug, Clone, PartialEq, Eq)]
pub struct ClauseSetDiff {
    pub before: ClauseSetRef,
    pub after: ClauseSetRef,
    pub added: Vec<Clause>,
    pub removed: Vec<Clause>,
    pub changed: Vec<ClauseChange>,
}

/// The messages of a clause's reasons.
pub open spec fn reason_messages(reasons: Seq<BindingReason>) -> Seq<Seq<char>> {
    reasons.map_values(|r: BindingReason| r.message@)
}

/// The codes of a clause's reasons.
pub open spec fn reason_codes(reasons: Seq<BindingReason>) -> Seq<Seq<char>> {
    reasons.map_values(|r: BindingReason| r.code@)
}

/// The human line of one clause: id, force and outcome, then what it expects
/// and why, each only when there is any.
pub open spec fn binding_human(c: ClauseBinding) -> Seq<char> {
    c.clause_id@ + "\t"@ + spec_force_name(c.force) + "\t"@ + spec_outcome_name(c.outcome) + (
    if c.expected_outputs@.len() > 0 {
        "\texpects "@ + join(texts(c.expected_outputs@), ","@)
    } else {
        Seq::empty()
    }) + (if c.reasons@.len() > 0 {
        "\t"@ + join(reason_messages(c.reasons@), "; "@)
    } else {
        Seq::empty()
    }) + "\n"@
}

/// The human rendering of an evaluation: a header naming the exact set and its
/// digest, then one line per clause.
pub open spec fn spec_render_binding_human(r: ClauseBindingReport) -> Seq<char> {
    "Clause set "@ + r.clause_set.authority@ + "/"@ + r.clause_set.id@ + "/"@
        + r.clause_set.version@ + " ("@ + r.clause_set_digest@ + ")\n"@ + concat(
        r.clauses@.map_values(|c: ClauseBinding| binding_human(c)),
    )
}

/// The TSV record of one clause.
pub open spec fn binding_tsv(c: ClauseBinding) -> Seq<char> {
    escape_cell(c.clause_id@) + "\t"@ + spec_force_name(c.force) + "\t"@ + spec_outcome_name(
        c.outcome,
    ) + "\t"@ + escape_cell(join(texts(c.expected_outputs@), ","@)) + "\t"@ + escape_cell(
        join(reason_codes(c.reasons@), ","@),
    ) + "\n"@
}

/// The TSV rendering of an evaluation.
pub open spec fn spec_render_binding_tsv(r: ClauseBindingReport) -> Seq<char> {
    "clause_id\tforce\toutcome\texpected_outputs\treason_codes\n"@ + concat(
        r.clauses@.map_values(|c: ClauseBinding| binding_tsv(c)),
    )
}

/// The messages of `reasons`, in order.
fn messages_of(reasons: &Vec<BindingReason>) -> (out: Vec<String>)
    ensures
        texts(out@) == reason_messages(reasons@),
{
    let mut out: Vec<String> = Vec::new();
    let mut i: usize = 0;
    while i < reasons.len()
        invariant
            i <= reasons@.len(),
            texts(out@) == reason_messages(reasons@.take(i as int)),
        decreases reasons@.len() - i,
    {
        let ghost before = out@;
        out.push(reasons[i].message.clone());
        assert(texts(out@) =~= texts(before).push(reasons@[i as int].message@));
        assert(reason_messages(reasons@.take(i + 1)) =~= reason_messages(
            reasons@.take(i as int),
        ).push(reasons@[i as int].message@));
        i = i + 1;
    }
    assert(reasons@.take(reasons@.len() as int) =~= reasons@);
    out
}

/// The codes of `reasons`, in order.
fn codes_of(reasons: &Vec<BindingReason>) -> (out: Vec<String>)
    ensures
        texts(out@) == reason_codes(reasons@),
{
    let mut out: Vec<String> = Vec::new();
    let mut i: usize = 0;
    while i < reasons.len()
        invariant
            i <= reasons@.len(),
            texts(out@) == reason_codes(reasons@.take(i as int)),
        decreases reasons@.len() - i,
    {
        let ghost before = out@;
        out.push(reasons[i].code.clone());
        assert(texts(out@) =~= texts(before).push(reasons@[i as int].code@));
        assert(reason_codes(reasons@.take(i + 1)) =~= reason_codes(reasons@.take(i as int)).push(
            reasons@[i as int].code@,
        ));
        i = i + 1;
    }
    assert(reasons@.take(reasons@.len() as int) =~= reasons@);
    out
}

/// The human line of one clause.
fn binding_human_line(c: &ClauseBinding) -> (s: String)
    ensures
        s@ == binding_human(*c),
{
    let mut s = String::from_str(c.clause_id.as_str());
    s.append("\t");
    s.append(force_name(c.force));
    s.append("\t");
    s.append(outcome_name(c.outcome));
    let ghost head = s@;
    let mut expects = String::new();
    if c.expected_outputs.len() > 0 {
        expects.append("\texpects ");
        let j = join_strings(&c.expected_outputs, ",");
        expects.append(j.as_str());
    }
    let mut why = String::new();
    if c.reasons.len() > 0 {
        why.append("\t");
        let m = messages_of(&c.reasons);
        let j = join_strings(&m, "; ");
        why.append(j.as_str());
    }
    proof {
        reveal_strlit("");
    }
    s.append(expects.as_str());
    s.append(why.as_str());
    s.append("\n");
    s
}

/// The TSV record of one clause.
fn binding_tsv_line(c: &ClauseBinding) -> (s: String)
    ensures
        s@ == binding_tsv(*c),
{
    let mut s = tsv_cell(c.clause_id.as_str());
    s.append("\t");
    s.append(force_name(c.force));
    s.append("\t");
    s.append(outcome_name(c.outcome));
    s.append("\t");
    let expected = join_strings(&c.expected_outputs, ",");
    let e = tsv_cell(expected.as_str());
    s.append(e.as_str());
    s.append("\t");
    let codes = codes_of(&c.reasons);
    let joined = join_strings(&codes, ",");
    let k = tsv_cell(joined.as_str());
    s.append(k.as_str());
    s.append("\n");
    s
}

/// Render an evaluation as human text.
pub fn render_binding_human(report: &ClauseBindingReport) -> (out: String)
    ensures
        out@ == spec_render_binding_human(*report),
{
    let mut out = String::from_str("Clause set ");
    out.append(report.clause_set.authority.as_str());
    out.append("/");
    out.append(report.clause_set.id.as_str());
    out.append("/");
    out.append(report.clause_set.version.as_str());
    out.append(" (");
    out.append(report.clause_set_digest.as_str());
    out.append(")\n");
    let ghost s0 = out@;
    let mut i: usize = 0;
    while i < report.clauses.len()
        invariant
            i <= report.clauses@.len(),
            out@ == s0 + concat(
                report.clauses@.take(i as int).map_values(|c: ClauseBinding| binding_human(c)),
            ),
        decreases report.clauses@.len() - i,
    {
        let line = binding_human_line(&report.clauses[i]);
        out.append(line.as_str());
        proof {
            let f = |c: ClauseBinding| binding_human(c);
            assert(report.clauses@.take(i + 1).map_values(f) =~= report.clauses@.take(
                i as int,
            ).map_values(f).push(binding_human(report.clauses@[i as int])));
            lemma_concat_push(
                report.clauses@.take(i as int).map_values(f),
                binding_human(report.clauses@[i as int]),
            );
        }
        i = i + 1;
    }
    assert(report.clauses@.take(i as int) =~= report.clauses@);
    out
}

/// Render an evaluation as TSV: a header, then one record per clause.
pub fn render_binding_tsv(report: &ClauseBindingReport) -> (out: String)
    ensures
        out@ == spec_render_binding_tsv(*report),
{
    let mut out = String::from_str("clause_id\tforce\toutcome\texpected_outputs\treason_codes\n");
    let ghost s0 = out@;
    let mut i: usize = 0;
    while i < report.clauses.len()
        invariant
            i <= report.clauses@.len(),
            out@ == s0 + concat(
                report.clauses@.take(i as int).map_values(|c: ClauseBinding| binding_tsv(c)),
            ),
        decreases report.clauses@.len() - i,
    {
        let line = binding_tsv_line(&report.clauses[i]);
        out.append(line.as_str());
        proof {
            let f = |c: ClauseBinding| binding_tsv(c);
            assert(report.clauses@.take(i + 1).map_values(f) =~= report.clauses@.take(
                i as int,
            ).map_values(f).push(binding_tsv(report.clauses@[i as int])));
            lemma_concat_push(
                report.clauses@.take(i as int).map_values(f),
                binding_tsv(report.clauses@[i as int]),
            );
        }
        i = i + 1;
    }
    assert(report.clauses@.take(i as int) =~= report.clauses@);
    out
}

/// A line `<change>\t<id>\n` of the human diff.
pub open spec fn change_line(change: Seq<char>, id: Seq<char>) -> Seq<char> {
    change + "\t"@ + id + "\n"@
}

/// The human rendering of a diff: the set, both versions, the three counts,
/// then the added, removed and changed clauses in that order.
pub open spec fn spec_render_diff_human(r: ClauseSetDiff) -> Seq<char> {
    "Clause set "@ + r.before.authority@ + "/"@ + r.before.id@ + ": "@ + r.before.version@
        + " -> "@ + r.after.version@ + "\nAdded: "@ + dec(r.added@.len()) + "  Removed: "@ + dec(
        r.removed@.len(),
    ) + "  Changed: "@ + dec(r.changed@.len()) + "\n"@ + concat(
        r.added@.map_values(|c: Clause| change_line("added"@, c.id@)),
    ) + concat(r.removed@.map_values(|c: Clause| change_line("removed"@, c.id@))) + concat(
        r.changed@.map_values(|c: ClauseChange| change_line("changed"@, c.clause_id@)),
    )
}

/// The text of an optional force, empty when absent.
pub open spec fn opt_force_name(f: Option<ClauseForce>) -> Seq<char> {
    match f {
        Some(force) => spec_force_name(force),
        None => Seq::empty(),
    }
}

/// One TSV record of a diff: the change, the clause id (escaped), and the
/// force before and after, empty where the clause is absent.
pub open spec fn diff_row(
    change: Seq<char>,
    id: Seq<char>,
    before: Option<ClauseForce>,
    after: Option<ClauseForce>,
) -> Seq<char> {
    change + "\t"@ + escape_cell(id) + "\t"@ + opt_force_name(before) + "\t"@ + opt_force_name(after)
        + "\n"@
}

/// The TSV rendering of a diff.
pub open spec fn spec_render_diff_tsv(r: ClauseSetDiff) -> Seq<char> {
    "change\tclause_id\tbefore_force\tafter_force\n"@ + concat(
        r.added@.map_values(|c: Clause| diff_row("added"@, c.id@, None, Some(c.force))),
    ) + concat(r.removed@.map_values(|c: Clause| diff_row("removed"@, c.id@, Some(c.force), None)))
        + concat(
        r.changed@.map_values(
            |c: ClauseChange| diff_row("changed"@, c.after.id@, Some(c.before.force), Some(c.after.force)),
        ),
    )
}

/// Append `<change>\t<id>\n`.
fn push_change_line(out: &mut String, change: &str, id: &str)
    ensures
        final(out)@ == old(out)@ + change_line(change@, id@),
{
    out.append(change);
    out.append("\t");
    out.append(id);
    out.append("\n");
}

/// Render a diff as human text.
pub fn render_diff_human(report: &ClauseSetDiff) -> (out: String)
    ensures
        out@ == spec_render_diff_human(*report),
{
    let mut out = String::from_str("Clause set ");
    out.append(report.before.authority.as_str());
    out.append("/");
    out.append(report.before.id.as_str());
    out.append(": ");
    out.append(report.before.version.as_str());
    out.append(" -> ");
    out.append(report.after.version.as_str());
    out.append("\nAdded: ");
    push_dec(&mut out, report.added.len());
    out.append("  Removed: ");
    push_dec(&mut out, report.removed.len());
    out.append("  Changed: ");
    push_dec(&mut out, report.changed.len());
    out.append("\n");
    let ghost s0 = out@;
    let mut i: usize = 0;
    while i < report.added.len()
        invariant
            i <= report.added@.len(),
            out@ == s0 + concat(
                report.added@.take(i as int).map_values(|c: Clause| change_line("added"@, c.id@)),
            ),
        decreases report.added@.len() - i,
    {
        push_change_line(&mut out, "added", report.added[i].id.as_str());
        proof {
            let f = |c: Clause| change_line("added"@, c.id@);
            let x = change_line("added"@, report.added@[i as int].id@);
            assert(report.added@.take(i + 1).map_values(f) =~= report.added@.take(
                i as int,
            ).map_values(f).push(x));
            lemma_concat_push(report.added@.take(i as int).map_values(f), x);
        }
        i = i + 1;
    }
    assert(report.added@.take(i as int) =~= report.added@);
    let ghost s1 = out@;
    let mut i: usize = 0;
    while i < report.removed.len()
        invariant
            i <= report.removed@.len(),
            out@ == s1 + concat(
                report.removed@.take(i as int).map_values(|c: Clause| change_line("removed"@, c.id@)),
            ),
        decreases report.removed@.len() - i,
    {
        push_change_line(&mut out, "removed", report.removed[i].id.as_str());
        proof {
            let f = |c: Clause| change_line("removed"@, c.id@);
            let x = change_line("removed"@, report.removed@[i as int].id@);
            assert(report.removed@.take(i + 1).map_values(f) =~= report.removed@.take(
                i as int,
            ).map_values(f).push(x));
            lemma_concat_push(report.removed@.take(i as int).map_values(f), x);
        }
        i = i + 1;
    }
    assert(report.removed@.take(i as int) =~= report.removed@);
    let ghost s2 = out@;
    let mut i: usize = 0;
    while i < report.changed.len()
        invariant
            i <= report.changed@.len(),
            out@ == s2 + concat(
                report.changed@.take(i as int).map_values(
                    |c: ClauseChange| change_line("changed"@, c.clause_id@),
                ),
            ),
        decreases report.changed@.len() - i,
    {
        push_change_line(&mut out, "changed", report.changed[i].clause_id.as_str());
        proof {
            let f = |c: ClauseChange| change_line("changed"@, c.clause_id@);
            let x = change_line("changed"@, report.changed@[i as int].clause_id@);
            assert(report.changed@.take(i + 1).map_values(f) =~= report.changed@.take(
                i as int,
            ).map_values(f).push(x));
            lemma_concat_push(report.changed@.take(i as int).map_values(f), x);
        }
        i = i + 1;
    }
    assert(report.changed@.take(i as int) =~= report.changed@);
    out
}

/// Append one TSV record of a diff.
pub fn push_diff_row(
    out: &mut String,
    change: &str,
    clause: &Clause,
    before: Option<ClauseForce>,
    after: Option<ClauseForce>,
)
    ensures
        final(out)@ == old(out)@ + diff_row(change@, clause.id@, before, after),
{
    out.append(change);
    out.append("\t");
    let id = tsv_cell(clause.id.as_str());
    out.append(id.as_str());
    out.append("\t");
    match before {
        Some(f) => out.append(force_name(f)),
        None => {},
    }
    out.append("\t");
    match after {
        Some(f) => out.append(force_name(f)),
        None => {},
    }
    out.append("\n");
    proof {
        assert(opt_force_name(None) =~= Seq::<char>::empty());
    }
}

/// Render a diff as TSV: a header, then the added, removed and changed
/// clauses, one record each.
pub fn render_diff_tsv(report: &ClauseSetDiff) -> (out: String)
    ensures
        out@ == spec_render_diff_tsv(*report),
{
    let mut out = String::from_str("change\tclause_id\tbefore_force\tafter_force\n");
    let ghost s0 = out@;
    let mut i: usize = 0;
    while i < report.added.len()
        invariant
            i <= report.added@.len(),
            out@ == s0 + concat(
                report.added@.take(i as int).map_values(
                    |c: Clause| diff_row("added"@, c.id@, None, Some(c.force)),
                ),
            ),
        decreases report.added@.len() - i,
    {
        let c = &report.added[i];
        push_diff_row(&mut out, "added", c, None, Some(c.force));
        proof {
            let f = |c: Clause| diff_row("added"@, c.id@, None, Some(c.force));
            let x = diff_row("added"@, c.id@, None, Some(c.force));
            assert(report.added@.take(i + 1).map_values(f) =~= report.added@.take(
                i as int,
            ).map_values(f).push(x));
            lemma_concat_push(report.added@.take(i as int).map_values(f), x);
        }
        i = i + 1;
    }
    assert(report.added@.take(i as int) =~= report.added@);
    let ghost s1 = out@;
    let mut i: usize = 0;
    while i < report.removed.len()
        invariant
            i <= report.removed@.len(),
            out@ == s1 + concat(
                report.removed@.take(i as int).map_values(
                    |c: Clause| diff_row("removed"@, c.id@, Some(c.force), None),
                ),
            ),
        decreases report.removed@.len() - i,
    {
        let c = &report.removed[i];
        push_diff_row(&mut out, "removed", c, Some(c.force), None);
        proof {
            let f = |c: Clause| diff_row("removed"@, c.id@, Some(c.force), None);
            let x = diff_row("removed"@, c.id@, Some(c.force), None);
            assert(report.removed@.take(i + 1).map_values(f) =~= report.removed@.take(
                i as int,
            ).map_values(f).push(x));
            lemma_concat_push(report.removed@.take(i as int).map_values(f), x);
        }
        i = i + 1;
    }
    assert(report.removed@.take(i as int) =~= report.removed@);
    let ghost s2 = out@;
    let mut i: usize = 0;
    while i < report.changed.len()
        invariant
            i <= report.changed@.len(),
            out@ == s2 + concat(
                report.changed@.take(i as int).map_values(
                    |c: ClauseChange|
                        diff_row("changed"@, c.after.id@, Some(c.before.force), Some(c.after.force)),
                ),
            ),
        decreases report.changed@.len() - i,
    {
        let c = &report.changed[i];
        push_diff_row(&mut out, "changed", &c.after, Some(c.before.force), Some(c.after.force));
        proof {
            let f = |c: ClauseChange|
                diff_row("changed"@, c.after.id@, Some(c.before.force), Some(c.after.force));
            let x = diff_row("changed"@, c.after.id@, Some(c.before.force), Some(c.after.force));
            assert(report.changed@.take(i + 1).map_values(f) =~= report.changed@.take(
                i as int,
            ).map_values(f).push(x));
            lemma_concat_push(report.changed@.take(i as int).map_values(f), x);
        }
        i = i + 1;
    }
    assert(report.changed@.take(i as int) =~= report.changed@);
    out
}

/// The `authority/id/version` name of an exact set.
pub open spec fn set_name(s: ClauseSetRef) -> Seq<char> {
    s.authority@ + "/"@ + s.id@ + "/"@ + s.version@
}

/// The refusal of a clause set that is not loaded, listing the loaded ones
/// (`none` when there are none).
pub open spec fn spec_missing_set_message(
    authority: Seq<char>,
    id: Seq<char>,
    version: Seq<char>,
    available: Seq<ClauseSetRef>,
) -> Seq<char> {
    "clause set "@ + authority + "/"@ + id + "/"@ + version
        + " is not loaded; available exact sets: "@ + (if available.len() == 0 {
        "none"@
    } else {
        join(available.map_values(|s: ClauseSetRef| set_name(s)), ", "@)
    })
}

/// The refusal of a clause set that is not loaded.
pub fn missing_set_message(authority: &str, id: &str, version: &str, available: &Vec<ClauseSetRef>) -> (s:
    String)
    ensures
        s@ == spec_missing_set_message(authority@, id@, version@, available@),
{
    let mut s = String::from_str("clause set ");
    s.append(authority);
    s.append("/");
    s.append(id);
    s.append("/");
    s.append(version);
    s.append(" is not loaded; available exact sets: ");
    if available.len() == 0 {
        s.append("none");
        return s;
    }
    let mut names: Vec<String> = Vec::new();
    let mut i: usize = 0;
    while i < available.len()
        invariant
            i <= available@.len(),
            texts(names@) == available@.take(i as int).map_values(|s: ClauseSetRef| set_name(s)),
        decreases available@.len() - i,
    {
        let a = &available[i];
        let mut n = String::from_str(a.authority.as_str());
        n.append("/");
        n.append(a.id.as_str());
        n.append("/");
        n.append(a.version.as_str());
        let ghost before = names@;
        names.push(n);
        assert(texts(names@) =~= texts(before).push(set_name(*a)));
        assert(available@.take(i + 1).map_values(|s: ClauseSetRef| set_name(s)) =~= available@.take(
            i as int,
        ).map_values(|s: ClauseSetRef| set_name(s)).push(set_name(*a)));
        i = i + 1;
    }
    assert(available@.take(i as int) =~= available@);
    let j = join_strings(&names, ", ");
    s.append(j.as_str());
    s
}

/// An escaped cell holds no tab, carriage return or newline: however hostile
/// the value, its cell keeps a TSV record on one line and in its columns.
pub proof fn law_escaped_cell_keeps_one_record_per_line(s: Seq<char>)
    ensures
        forall|i: int|
            0 <= i < escape_cell(s).len() ==> #[trigger] escape_cell(s)[i] != '\t'
                && escape_cell(s)[i] != '\n' && escape_cell(s)[i] != '\r',
    decreases s.len(),
{
    if s.len() > 0 {
        let f = |c: char| escape_char(c);
        law_escaped_cell_keeps_one_record_per_line(s.drop_last());
        assert(s.map_values(f) =~= s.drop_last().map_values(f).push(escape_char(s.last())));
        lemma_concat_push(s.drop_last().map_values(f), escape_char(s.last()));
        assert(escape_cell(s) == escape_cell(s.drop_last()) + escape_char(s.last()));
        let n = escape_cell(s.drop_last()).len();
        assert forall|i: int| 0 <= i < escape_cell(s).len() implies #[trigger] escape_cell(s)[i]
            != '\t' && escape_cell(s)[i] != '\n' && escape_cell(s)[i] != '\r' by {
            if i < n {
                assert(escape_cell(s)[i] == escape_cell(s.drop_last())[i]);
            } else {
                assert(escape_cell(s)[i] == escape_char(s.last())[i - n]);
            }
        }
    } else {
        assert(s.map_values(|c: char| escape_char(c)) =~= Seq::<Seq<char>>::empty());
    }
}

/// What a two-character escape, a backslash then `d`, reads as in a TSV
/// cell: `\\`, `\t`, `\r` and `\n` are one character each; any other pair
/// stays as it is.
pub open spec fn unescape_pair(d: char) -> Seq<char> {
    if d == '\\' {
        seq!['\\']
    } else if d == 't' {
        seq!['\t']
    } else if d == 'r' {
        seq!['\r']
    } else if d == 'n' {
        seq!['\n']
    } else {
        seq!['\\', d]
    }
}

/// A TSV cell read back, left to right: each backslash escape becomes the
/// character it stands for.
pub open spec fn unescape_cell(s: Seq<char>) -> Seq<char>
    decreases s.len(),
{
    if s.len() == 0 {
        Seq::empty()
    } else if s[0] == '\\' && s.len() >= 2 {
        unescape_pair(s[1]) + unescape_cell(s.skip(2))
    } else {
        seq![s[0]] + unescape_cell(s.skip(1))
    }
}

/// The escape of a non-empty cell ends with the escape of its last character.
proof fn lemma_escape_cell_back(s: Seq<char>)
    requires
        s.len() > 0,
    ensures
        escape_cell(s) == escape_cell(s.drop_last()) + escape_char(s.last()),
{
    let f = |c: char| escape_char(c);
    assert(s.map_values(f) =~= s.drop_last().map_values(f).push(escape_char(s.last())));
    lemma_concat_push(s.drop_last().map_values(f), escape_char(s.last()));
}

/// The escape of a non-empty cell starts with the escape of its first
/// character.
proof fn lemma_escape_cell_front(s: Seq<char>)
    requires
        s.len() > 0,
    ensures
        escape_cell(s) == escape_char(s[0]) + escape_cell(s.drop_first()),
    decreases s.len(),
{
    lemma_escape_cell_back(s);
    if s.len() == 1 {
        assert(s.drop_last() =~= Seq::<char>::empty());
        assert(s.drop_first() =~= Seq::<char>::empty());
        assert(s.drop_last().map_values(|c: char| escape_char(c)) =~= Seq::<Seq<char>>::empty());
        assert(escape_cell(s.drop_last()) =~= Seq::<char>::empty());
        assert(escape_cell(s.drop_first()) =~= Seq::<char>::empty());
        assert(escape_char(s[0]) + Seq::<char>::empty() =~= escape_char(s[0]));
        assert(Seq::<char>::empty() + escape_char(s.last()) =~= escape_char(s.last()));
    } else {
        lemma_escape_cell_front(s.drop_last());
        lemma_escape_cell_back(s.drop_first());
        assert(s.drop_last().drop_first() =~= s.drop_first().drop_last());
        assert(s.drop_first().last() == s.last());
        assert(s.drop_last()[0] == s[0]);
        assert(escape_char(s[0]) + escape_cell(s.drop_last().drop_first()) + escape_char(s.last())
            =~= escape_char(s[0]) + (escape_cell(s.drop_first().drop_last()) + escape_char(
            s.last(),
        )));
    }
}

/// Reading a cell back gives the value it was escaped from, whatever
/// backslashes, tabs or line breaks the value held.
pub proof fn law_unescape_restores_the_cell(s: Seq<char>)
    ensures
        unescape_cell(escape_cell(s)) == s,
    decreases s.len(),
{
    if s.len() == 0 {
        assert(s.map_values(|c: char| escape_char(c)) =~= Seq::<Seq<char>>::empty());
        assert(escape_cell(s) =~= Seq::<char>::empty());
    } else {
        lemma_escape_cell_front(s);
        law_unescape_restores_the_cell(s.drop_first());
        let e = escape_char(s[0]);
        let rest = escape_cell(s.drop_first());
        let t = e + rest;
        if e.len() == 2 {
            assert(t[0] == '\\');
            assert(t.skip(2) =~= rest);
            assert(unescape_pair(t[1]) =~= seq![s[0]]);
        } else {
            assert(e =~= seq![s[0]]);
            assert(t[0] == s[0]);
            assert(t.skip(1) =~= rest);
            if s[0] == '\\' {
                assert(false);
            }
        }
        assert(seq![s[0]] + s.drop_first() =~= s);
    }
}

/// Two different values never share a cell: escaping is injective, so a
/// TSV column read back names exactly one value.
pub proof fn law_distinct_values_have_distinct_cells(a: Seq<char>, b: Seq<char>)
    ensures
        escape_cell(a) == escape_cell(b) ==> a == b,
{
    law_unescape_restores_the_cell(a);
    law_unescape_restores_the_cell(b);
}

/// The trimmed key and value of a well-formed `KEY=VALUE` entry.
pub open spec fn entry_pair(e: Seq<char>) -> (Seq<char>, Seq<char>) {
    match parse_entry(e) {
        Ok(kv) => kv,
        Err(_) => (Seq::empty(), Seq::empty()),
    }
}

/// Every entry has the `KEY=VALUE` form with a non-empty trimmed key and
/// value, and no two entries declare the same trimmed key.
pub open spec fn context_acceptable(entries: Seq<Seq<char>>) -> bool {
    &&& forall|i: int| 0 <= i < entries.len() ==> (#[trigger] parse_entry(entries[i])) is Ok
    &&& forall|i: int, j: int|
        0 <= i < j < entries.len() ==> (#[trigger] entry_pair(entries[i])).0 != (
        #[trigger] entry_pair(entries[j])).0
}

/// A context is accepted exactly when every entry is a well-formed
/// `KEY=VALUE` pair (split at the first `=`, key and value trimmed and
/// non-empty) and the keys are distinct; then it holds one trimmed pair per
/// entry, in order.
pub proof fn law_context_accepted_iff_well_formed_and_distinct(entries: Seq<Seq<char>>)
    ensures
        spec_parse_context(entries) is Ok <==> context_acceptable(entries),
        spec_parse_context(entries) matches Ok(ctx) ==> ctx.len() == entries.len() && forall|i: int|
            0 <= i < entries.len() ==> #[trigger] ctx[i] == entry_pair(entries[i]),
    decreases entries.len(),
{
    if entries.len() > 0 {
        let p = entries.drop_last();
        let l = entries.last();
        let n = p.len() as int;
        law_context_accepted_iff_well_formed_and_distinct(p);
        assert forall|i: int| 0 <= i < n implies #[trigger] p[i] == entries[i] by {}
        if context_acceptable(entries) {
            assert forall|i: int| 0 <= i < p.len() implies (#[trigger] parse_entry(p[i])) is Ok by {
                assert(p[i] == entries[i]);
            }
            assert forall|i: int, j: int| 0 <= i < j < p.len() implies (#[trigger] entry_pair(
                p[i],
            )).0 != (#[trigger] entry_pair(p[j])).0 by {
                assert(p[i] == entries[i]);
                assert(p[j] == entries[j]);
            }
            assert(context_acceptable(p));
        }
        match spec_parse_context(p) {
            Err(_) => {},
            Ok(ctx) => {
                match parse_entry(l) {
                    Err(_) => {
                        assert(parse_entry(entries[n]) is Err);
                    },
                    Ok(kv) => {
                        if declares(ctx, kv.0) {
                            let i = choose|i: int| 0 <= i < ctx.len() && #[trigger] ctx[i].0 == kv.0;
                            assert(entry_pair(entries[i]).0 == entry_pair(entries[n]).0);
                        } else {
                            let c2 = ctx.push(kv);
                            assert forall|i: int| 0 <= i < entries.len() implies #[trigger] c2[i]
                                == entry_pair(entries[i]) by {
                                if i < n {
                                    assert(c2[i] == ctx[i]);
                                }
                            }
                            assert forall|i: int| 0 <= i < entries.len() implies (
                            #[trigger] parse_entry(entries[i])) is Ok by {
                                if i < n {
                                    assert(parse_entry(p[i]) is Ok);
                                }
                            }
                            assert forall|i: int, j: int| 0 <= i < j < entries.len() implies (
                            #[trigger] entry_pair(entries[i])).0 != (#[trigger] entry_pair(
                                entries[j],
                            )).0 by {
                                if j < n {
                                    assert(entry_pair(p[i]).0 != entry_pair(p[j]).0);
                                } else {
                                    assert(ctx[i] == entry_pair(p[i]));
                                    if ctx[i].0 == kv.0 {
                                        assert(declares(ctx, kv.0));
                                    }
                                }
                            }
                        }
                    },
                }
            },
        }
    }
}

/// A declared context never names a key twice.
pub proof fn law_context_keys_are_distinct(entries: Seq<Seq<char>>)
    ensures
        spec_parse_context(entries) matches Ok(ctx) ==> forall|i: int, j: int|
            0 <= i < j < ctx.len() ==> (#[trigger] ctx[i]).0 != (#[trigger] ctx[j]).0,
    decreases entries.len(),
{
    if entries.len() > 0 {
        law_context_keys_are_distinct(entries.drop_last());
        match spec_parse_context(entries.drop_last()) {
            Ok(prev) => match parse_entry(entries.last()) {
                Ok(kv) => if !declares(prev, kv.0) {
                    let ctx = prev.push(kv);
                    assert forall|i: int, j: int| 0 <= i < j < ctx.len() implies (#[trigger] ctx[i]).0
                        != (#[trigger] ctx[j]).0 by {
                        if j == prev.len() {
                            assert(ctx[i] == prev[i]);
                        } else {
                            assert(ctx[i] == prev[i] && ctx[j] == prev[j]);
                        }
                    }
                },
                Err(_) => {},
            },
            Err(_) => {},
        }
    }
}

} // verus!
