//! `quire coverage` — rendering and gating of the AC→TC→code rollup.
//!
//! The engine computes the report; this module holds the report's records as
//! plain values and everything the command decides about them: the TSV
//! projection, the human census and finding lines, the severity projection
//! and the exit verdict. Output is a pure function of the report, so identical
//! input renders byte-identically.
use vstd::prelude::*;

use crate::io::{emit_notices, emit_results, notice_views, Diagnostics, Notice};
use crate::text::{before_first, before_first_chars, chars_of, dec, has_prefix, push_dec, slice_of};
use crate::tsv::{count_of, law_tsv_record_shape, lemma_count_of_add, 
    cell_views, concat, join, join_strings, line_cell, line_text, opt_str, opt_text, texts, tsv_line,
    tsv_record,
};

verus! {

broadcast use vstd::string::group_string_axioms;

/// A declared row no symbol backs.
#[derive(Debug)]
pub struct UnbackedRow {
    pub row_id: Option<String>,
    pub document: String,
    pub reference: String,
    pub line: Option<usize>,
    pub target_ids: Vec<String>,
}

/// A row whose status claims more than the tests show.
#[derive(Debug)]
pub struct StatusLie {
    pub row_id: Option<String>,
    pub document: String,
    pub reference: String,
    pub status: String,
    pub line: Option<usize>,
    pub target_ids: Vec<String>,
}

/// A row verified by a method that mints no source symbol.
#[derive(Debug)]
pub struct NoSymbolRow {
    pub row_id: Option<String>,
    pub document: String,
    pub reference: String,
    pub test_type: String,
    pub line: Option<usize>,
    pub target_ids: Vec<String>,
}

/// A row whose status the declared vocabulary does not class.
#[derive(Debug)]
pub struct UndeclaredStatus {
    pub row_id: Option<String>,
    pub document: String,
    pub reference: String,
    pub status: String,
    pub line: Option<usize>,
}

/// A trace tag matching no declared row.
#[derive(Debug)]
pub struct UntrackedSymbol {
    pub symbol: String,
    pub path: String,
    pub line: Option<usize>,
    pub trace_id: String,
}

/// An engine diagnostic about a declaration.
#[derive(Debug)]
pub struct CoverageDiagnostic {
    pub path: Option<String>,
    pub declaration: String,
    pub reason: String,
    pub message: String,
}

/// A stated obligation.
#[derive(Debug)]
pub struct Obligation {
    pub id: String,
    pub document: String,
    pub source: String,
    pub criticality: Option<String>,
    pub method: Option<String>,
    pub target_ids: Vec<String>,
    pub statement: String,
}

/// An `implements` claim.
#[derive(Debug)]
pub struct ImplementsRecord {
    pub path: String,
    pub form: String,
    pub trace_id: String,
    pub symbol: String,
}

/// The reconciliation totals.
#[derive(Debug)]
pub struct Totals {
    pub total: usize,
    pub backed: usize,
}

/// Per-document totals.
#[derive(Debug)]
pub struct Group {
    pub document: String,
    pub backed: usize,
    pub total: usize,
}

/// A tag the binder could not read.
#[derive(Debug)]
pub struct UnboundSymbol {
    pub path: String,
    pub line: usize,
    pub symbol: String,
}

/// What the trace binder examined and bound, for one language.
#[derive(Debug)]
pub struct BindingCensus {
    pub language: String,
    pub candidates: usize,
    pub tagged: usize,
    pub bound: usize,
    pub forms: Vec<String>,
    pub unmatched_example: Option<UnboundSymbol>,
}

/// Whether a metric is a ratio or a count.
#[derive(Clone, Copy, Debug, PartialEq, Eq, Structural)]
pub enum MetricShape {
    Ratio,
    Count,
}

/// A metric's measurement, or the fact that it was not computed.
#[derive(Debug)]
pub enum Measurement {
    Measured { population: usize, examined: usize, matched: usize },
    NotComputed { because: String },
}

/// One headline metric with its envelope.
#[derive(Debug)]
pub struct Metric {
    pub name: String,
    pub unit: String,
    pub shape: MetricShape,
    pub measurement: Measurement,
}

/// An advisory shape finding.
#[derive(Debug)]
pub struct Suspicion {
    pub kind: String,
    pub symbol: String,
    pub path: String,
    pub line: usize,
    pub message: String,
    pub evidence: String,
}

/// The coverage report, as the engine computed it.
#[derive(Debug)]
pub struct CoverageReport {
    pub totals: Totals,
    pub groups: Vec<Group>,
    pub unbacked_rows: Vec<UnbackedRow>,
    pub status_lies: Vec<StatusLie>,
    pub no_symbol_rows: Vec<NoSymbolRow>,
    pub undeclared_statuses: Vec<UndeclaredStatus>,
    pub untracked_symbols: Vec<UntrackedSymbol>,
    pub diagnostics: Vec<CoverageDiagnostic>,
    pub obligations: Vec<Obligation>,
    pub implements: Vec<ImplementsRecord>,
    pub binding_census: Vec<BindingCensus>,
    pub metrics: Vec<Metric>,
    pub suspicions: Vec<Suspicion>,
    pub excluded_source_files: usize,
}

// ---------------------------------------------------------------------------
// TSV projection
// ---------------------------------------------------------------------------

/// The header of the TSV projection.
pub open spec fn tsv_header() -> Seq<char> {
    "kind\tid\tdocument\treference\tstatus\tmethod\tline\ttargets\ttext\n"@
}

/// Comma-joined target ids.
pub open spec fn targets_text(ids: Seq<String>) -> Seq<char> {
    join(texts(ids), ","@)
}

pub open spec fn empty_cell() -> Seq<char> {
    Seq::<char>::empty()
}

pub open spec fn unbacked_tsv(r: UnbackedRow) -> Seq<char> {
    tsv_record(
        "unbacked-row"@,
        seq![opt_text(r.row_id), r.document@, r.reference@, empty_cell(), empty_cell(), line_text(r.line), targets_text(r.target_ids@), empty_cell()],
    )
}

pub open spec fn status_lie_tsv(r: StatusLie) -> Seq<char> {
    tsv_record(
        "status-lie"@,
        seq![opt_text(r.row_id), r.document@, r.reference@, r.status@, empty_cell(), line_text(r.line), targets_text(r.target_ids@), empty_cell()],
    )
}

pub open spec fn no_symbol_tsv(r: NoSymbolRow) -> Seq<char> {
    tsv_record(
        "no-symbol-row"@,
        seq![opt_text(r.row_id), r.document@, r.reference@, empty_cell(), r.test_type@, line_text(r.line), targets_text(r.target_ids@), empty_cell()],
    )
}

pub open spec fn undeclared_tsv(r: UndeclaredStatus) -> Seq<char> {
    tsv_record(
        "undeclared-status"@,
        seq![opt_text(r.row_id), r.document@, r.reference@, r.status@, empty_cell(), line_text(r.line), empty_cell(), empty_cell()],
    )
}

pub open spec fn untracked_tsv(r: UntrackedSymbol) -> Seq<char> {
    tsv_record(
        "untracked-symbol"@,
        seq![empty_cell(), r.path@, empty_cell(), empty_cell(), empty_cell(), line_text(r.line), r.trace_id@, r.symbol@],
    )
}

pub open spec fn diagnostic_tsv(r: CoverageDiagnostic) -> Seq<char> {
    tsv_record(
        "diagnostic"@,
        seq![empty_cell(), opt_text(r.path), r.declaration@, r.reason@, empty_cell(), empty_cell(), empty_cell(), r.message@],
    )
}

pub open spec fn obligation_tsv(r: Obligation) -> Seq<char> {
    tsv_record(
        "obligation"@,
        seq![r.id@, r.document@, r.source@, opt_text(r.criticality), opt_text(r.method), empty_cell(), targets_text(r.target_ids@), r.statement@],
    )
}

pub open spec fn implements_tsv(r: ImplementsRecord) -> Seq<char> {
    tsv_record(
        "implements"@,
        seq![empty_cell(), r.path@, r.form@, empty_cell(), empty_cell(), empty_cell(), r.trace_id@, r.symbol@],
    )
}

/// The full TSV projection: the header, then every record kind in the order
/// the JSON arrays carry them.
pub open spec fn spec_render_tsv(r: CoverageReport) -> Seq<char> {
    tsv_header() + concat(r.unbacked_rows@.map_values(|x: UnbackedRow| unbacked_tsv(x)))
        + concat(r.status_lies@.map_values(|x: StatusLie| status_lie_tsv(x)))
        + concat(r.no_symbol_rows@.map_values(|x: NoSymbolRow| no_symbol_tsv(x)))
        + concat(r.undeclared_statuses@.map_values(|x: UndeclaredStatus| undeclared_tsv(x)))
        + concat(r.untracked_symbols@.map_values(|x: UntrackedSymbol| untracked_tsv(x)))
        + concat(r.diagnostics@.map_values(|x: CoverageDiagnostic| diagnostic_tsv(x)))
        + concat(r.obligations@.map_values(|x: Obligation| obligation_tsv(x)))
        + concat(r.implements@.map_values(|x: ImplementsRecord| implements_tsv(x)))
}

/// `concat` of a sequence extended by one part.
pub proof fn lemma_concat_push(parts: Seq<Seq<char>>, last: Seq<char>)
    ensures
        concat(parts.push(last)) == concat(parts) + last,
{
    assert(parts.push(last).drop_last() =~= parts);
}

/// The tab-separated projection: full records, one per line, under a
/// nine-column header — `kind id document reference status method line
/// targets text`, with the empty string where a kind carries no value.
pub fn render_tsv(report: &CoverageReport) -> (out: String)
    ensures
        out@ == spec_render_tsv(*report),
{
    proof {
        reveal_strlit("");
    }
    let mut out = String::from_str(
        "kind\tid\tdocument\treference\tstatus\tmethod\tline\ttargets\ttext\n",
    );

    let ghost s0 = out@;
    let mut i: usize = 0;
    while i < report.unbacked_rows.len()
        invariant
            i <= report.unbacked_rows@.len(),
            out@ == s0 + concat(
                report.unbacked_rows@.take(i as int).map_values(|x: UnbackedRow| unbacked_tsv(x)),
            ),
        decreases report.unbacked_rows@.len() - i,
    {
        let r = &report.unbacked_rows[i];
        let targets = join_strings(&r.target_ids, ",");
        let lc = line_cell(r.line);
        proof {
            reveal_strlit("");
            assert(""@ =~= empty_cell());
        }
        let c0 = opt_str(&r.row_id);
        let c1 = r.document.as_str();
        let c2 = r.reference.as_str();
        let c3 = "";
        let c4 = "";
        let c5 = lc.as_str();
        let c6 = targets.as_str();
        let c7 = "";
        let arr = [c0, c1, c2, c3, c4, c5, c6, c7];
        assert(cell_views(arr) =~= seq![c0@, c1@, c2@, c3@, c4@, c5@, c6@, c7@]);
        assert(seq![c0@, c1@, c2@, c3@, c4@, c5@, c6@, c7@] =~= seq![opt_text(r.row_id), r.document@, r.reference@, empty_cell(), empty_cell(), line_text(r.line), targets_text(r.target_ids@), empty_cell()]);
        let line = tsv_line("unbacked-row", arr);
        assert(line@ == unbacked_tsv(*r));
        out.append(line.as_str());
        proof {
            let f = |x: UnbackedRow| unbacked_tsv(x);
            assert(report.unbacked_rows@.take(i + 1).map_values(f) =~= report.unbacked_rows@.take(
                i as int,
            ).map_values(f).push(unbacked_tsv(*r)));
            lemma_concat_push(report.unbacked_rows@.take(i as int).map_values(f), unbacked_tsv(*r));
        }
        i = i + 1;
    }
    assert(report.unbacked_rows@.take(i as int) =~= report.unbacked_rows@);

    let ghost s1 = out@;
    let mut i: usize = 0;
    while i < report.status_lies.len()
        invariant
            i <= report.status_lies@.len(),
            out@ == s1 + concat(
                report.status_lies@.take(i as int).map_values(|x: StatusLie| status_lie_tsv(x)),
            ),
        decreases report.status_lies@.len() - i,
    {
        let r = &report.status_lies[i];
        let targets = join_strings(&r.target_ids, ",");
        let lc = line_cell(r.line);
        proof {
            reveal_strlit("");
            assert(""@ =~= empty_cell());
        }
        let c0 = opt_str(&r.row_id);
        let c1 = r.document.as_str();
        let c2 = r.reference.as_str();
        let c3 = r.status.as_str();
        let c4 = "";
        let c5 = lc.as_str();
        let c6 = targets.as_str();
        let c7 = "";
        let arr = [c0, c1, c2, c3, c4, c5, c6, c7];
        assert(cell_views(arr) =~= seq![c0@, c1@, c2@, c3@, c4@, c5@, c6@, c7@]);
        assert(seq![c0@, c1@, c2@, c3@, c4@, c5@, c6@, c7@] =~= seq![opt_text(r.row_id), r.document@, r.reference@, r.status@, empty_cell(), line_text(r.line), targets_text(r.target_ids@), empty_cell()]);
        let line = tsv_line("status-lie", arr);
        assert(line@ == status_lie_tsv(*r));
        out.append(line.as_str());
        proof {
            let f = |x: StatusLie| status_lie_tsv(x);
            assert(report.status_lies@.take(i + 1).map_values(f) =~= report.status_lies@.take(
                i as int,
            ).map_values(f).push(status_lie_tsv(*r)));
            lemma_concat_push(report.status_lies@.take(i as int).map_values(f), status_lie_tsv(*r));
        }
        i = i + 1;
    }
    assert(report.status_lies@.take(i as int) =~= report.status_lies@);

    let ghost s2 = out@;
    let mut i: usize = 0;
    while i < report.no_symbol_rows.len()
        invariant
            i <= report.no_symbol_rows@.len(),
            out@ == s2 + concat(
                report.no_symbol_rows@.take(i as int).map_values(|x: NoSymbolRow| no_symbol_tsv(x)),
            ),
        decreases report.no_symbol_rows@.len() - i,
    {
        let r = &report.no_symbol_rows[i];
        let targets = join_strings(&r.target_ids, ",");
        let lc = line_cell(r.line);
        proof {
            reveal_strlit("");
            assert(""@ =~= empty_cell());
        }
        let c0 = opt_str(&r.row_id);
        let c1 = r.document.as_str();
        let c2 = r.reference.as_str();
        let c3 = "";
        let c4 = r.test_type.as_str();
        let c5 = lc.as_str();
        let c6 = targets.as_str();
        let c7 = "";
        let arr = [c0, c1, c2, c3, c4, c5, c6, c7];
        assert(cell_views(arr) =~= seq![c0@, c1@, c2@, c3@, c4@, c5@, c6@, c7@]);
        assert(seq![c0@, c1@, c2@, c3@, c4@, c5@, c6@, c7@] =~= seq![opt_text(r.row_id), r.document@, r.reference@, empty_cell(), r.test_type@, line_text(r.line), targets_text(r.target_ids@), empty_cell()]);
        let line = tsv_line("no-symbol-row", arr);
        assert(line@ == no_symbol_tsv(*r));
        out.append(line.as_str());
        proof {
            let f = |x: NoSymbolRow| no_symbol_tsv(x);
            assert(report.no_symbol_rows@.take(i + 1).map_values(f) =~= report.no_symbol_rows@.take(
                i as int,
            ).map_values(f).push(no_symbol_tsv(*r)));
            lemma_concat_push(report.no_symbol_rows@.take(i as int).map_values(f), no_symbol_tsv(*r));
        }
        i = i + 1;
    }
    assert(report.no_symbol_rows@.take(i as int) =~= report.no_symbol_rows@);

    let ghost s3 = out@;
    let mut i: usize = 0;
    while i < report.undeclared_statuses.len()
        invariant
            i <= report.undeclared_statuses@.len(),
            out@ == s3 + concat(
                report.undeclared_statuses@.take(i as int).map_values(
                    |x: UndeclaredStatus| undeclared_tsv(x),
                ),
            ),
        decreases report.undeclared_statuses@.len() - i,
    {
        let r = &report.undeclared_statuses[i];
        let lc = line_cell(r.line);
        proof {
            reveal_strlit("");
            assert(""@ =~= empty_cell());
        }
        let c0 = opt_str(&r.row_id);
        let c1 = r.document.as_str();
        let c2 = r.reference.as_str();
        let c3 = r.status.as_str();
        let c4 = "";
        let c5 = lc.as_str();
        let c6 = "";
        let c7 = "";
        let arr = [c0, c1, c2, c3, c4, c5, c6, c7];
        assert(cell_views(arr) =~= seq![c0@, c1@, c2@, c3@, c4@, c5@, c6@, c7@]);
        assert(seq![c0@, c1@, c2@, c3@, c4@, c5@, c6@, c7@] =~= seq![opt_text(r.row_id), r.document@, r.reference@, r.status@, empty_cell(), line_text(r.line), empty_cell(), empty_cell()]);
        let line = tsv_line("undeclared-status", arr);
        assert(line@ == undeclared_tsv(*r));
        out.append(line.as_str());
        proof {
            let f = |x: UndeclaredStatus| undeclared_tsv(x);
            assert(report.undeclared_statuses@.take(i + 1).map_values(f)
                =~= report.undeclared_statuses@.take(i as int).map_values(f).push(
                undeclared_tsv(*r),
            ));
            lemma_concat_push(
                report.undeclared_statuses@.take(i as int).map_values(f),
                undeclared_tsv(*r),
            );
        }
        i = i + 1;
    }
    assert(report.undeclared_statuses@.take(i as int) =~= report.undeclared_statuses@);

    let ghost s4 = out@;
    let mut i: usize = 0;
    while i < report.untracked_symbols.len()
        invariant
            i <= report.untracked_symbols@.len(),
            out@ == s4 + concat(
                report.untracked_symbols@.take(i as int).map_values(
                    |x: UntrackedSymbol| untracked_tsv(x),
                ),
            ),
        decreases report.untracked_symbols@.len() - i,
    {
        let r = &report.untracked_symbols[i];
        let lc = line_cell(r.line);
        proof {
            reveal_strlit("");
            assert(""@ =~= empty_cell());
        }
        let c0 = "";
        let c1 = r.path.as_str();
        let c2 = "";
        let c3 = "";
        let c4 = "";
        let c5 = lc.as_str();
        let c6 = r.trace_id.as_str();
        let c7 = r.symbol.as_str();
        let arr = [c0, c1, c2, c3, c4, c5, c6, c7];
        assert(cell_views(arr) =~= seq![c0@, c1@, c2@, c3@, c4@, c5@, c6@, c7@]);
        assert(seq![c0@, c1@, c2@, c3@, c4@, c5@, c6@, c7@] =~= seq![empty_cell(), r.path@, empty_cell(), empty_cell(), empty_cell(), line_text(r.line), r.trace_id@, r.symbol@]);
        let line = tsv_line("untracked-symbol", arr);
        assert(line@ == untracked_tsv(*r));
        out.append(line.as_str());
        proof {
            let f = |x: UntrackedSymbol| untracked_tsv(x);
            assert(report.untracked_symbols@.take(i + 1).map_values(f)
                =~= report.untracked_symbols@.take(i as int).map_values(f).push(
                untracked_tsv(*r),
            ));
            lemma_concat_push(
                report.untracked_symbols@.take(i as int).map_values(f),
                untracked_tsv(*r),
            );
        }
        i = i + 1;
    }
    assert(report.untracked_symbols@.take(i as int) =~= report.untracked_symbols@);

    let ghost s5 = out@;
    let mut i: usize = 0;
    while i < report.diagnostics.len()
        invariant
            i <= report.diagnostics@.len(),
            out@ == s5 + concat(
                report.diagnostics@.take(i as int).map_values(
                    |x: CoverageDiagnostic| diagnostic_tsv(x),
                ),
            ),
        decreases report.diagnostics@.len() - i,
    {
        let r = &report.diagnostics[i];
        proof {
            reveal_strlit("");
            assert(""@ =~= empty_cell());
        }
        let c0 = "";
        let c1 = opt_str(&r.path);
        let c2 = r.declaration.as_str();
        let c3 = r.reason.as_str();
        let c4 = "";
        let c5 = "";
        let c6 = "";
        let c7 = r.message.as_str();
        let arr = [c0, c1, c2, c3, c4, c5, c6, c7];
        assert(cell_views(arr) =~= seq![c0@, c1@, c2@, c3@, c4@, c5@, c6@, c7@]);
        assert(seq![c0@, c1@, c2@, c3@, c4@, c5@, c6@, c7@] =~= seq![empty_cell(), opt_text(r.path), r.declaration@, r.reason@, empty_cell(), empty_cell(), empty_cell(), r.message@]);
        let line = tsv_line("diagnostic", arr);
        assert(line@ == diagnostic_tsv(*r));
        out.append(line.as_str());
        proof {
            let f = |x: CoverageDiagnostic| diagnostic_tsv(x);
            assert(report.diagnostics@.take(i + 1).map_values(f) =~= report.diagnostics@.take(
                i as int,
            ).map_values(f).push(diagnostic_tsv(*r)));
            lemma_concat_push(report.diagnostics@.take(i as int).map_values(f), diagnostic_tsv(*r));
        }
        i = i + 1;
    }
    assert(report.diagnostics@.take(i as int) =~= report.diagnostics@);

    let ghost s6 = out@;
    let mut i: usize = 0;
    while i < report.obligations.len()
        invariant
            i <= report.obligations@.len(),
            out@ == s6 + concat(
                report.obligations@.take(i as int).map_values(|x: Obligation| obligation_tsv(x)),
            ),
        decreases report.obligations@.len() - i,
    {
        let r = &report.obligations[i];
        let targets = join_strings(&r.target_ids, ",");
        proof {
            reveal_strlit("");
            assert(""@ =~= empty_cell());
        }
        let c0 = r.id.as_str();
        let c1 = r.document.as_str();
        let c2 = r.source.as_str();
        let c3 = opt_str(&r.criticality);
        let c4 = opt_str(&r.method);
        let c5 = "";
        let c6 = targets.as_str();
        let c7 = r.statement.as_str();
        let arr = [c0, c1, c2, c3, c4, c5, c6, c7];
        assert(cell_views(arr) =~= seq![c0@, c1@, c2@, c3@, c4@, c5@, c6@, c7@]);
        assert(seq![c0@, c1@, c2@, c3@, c4@, c5@, c6@, c7@] =~= seq![r.id@, r.document@, r.source@, opt_text(r.criticality), opt_text(r.method), empty_cell(), targets_text(r.target_ids@), r.statement@]);
        let line = tsv_line("obligation", arr);
        assert(line@ == obligation_tsv(*r));
        out.append(line.as_str());
        proof {
            let f = |x: Obligation| obligation_tsv(x);
            assert(report.obligations@.take(i + 1).map_values(f) =~= report.obligations@.take(
                i as int,
            ).map_values(f).push(obligation_tsv(*r)));
            lemma_concat_push(report.obligations@.take(i as int).map_values(f), obligation_tsv(*r));
        }
        i = i + 1;
    }
    assert(report.obligations@.take(i as int) =~= report.obligations@);

    let ghost s7 = out@;
    let mut i: usize = 0;
    while i < report.implements.len()
        invariant
            i <= report.implements@.len(),
            out@ == s7 + concat(
                report.implements@.take(i as int).map_values(
                    |x: ImplementsRecord| implements_tsv(x),
                ),
            ),
        decreases report.implements@.len() - i,
    {
        let r = &report.implements[i];
        proof {
            reveal_strlit("");
            assert(""@ =~= empty_cell());
        }
        let c0 = "";
        let c1 = r.path.as_str();
        let c2 = r.form.as_str();
        let c3 = "";
        let c4 = "";
        let c5 = "";
        let c6 = r.trace_id.as_str();
        let c7 = r.symbol.as_str();
        let arr = [c0, c1, c2, c3, c4, c5, c6, c7];
        assert(cell_views(arr) =~= seq![c0@, c1@, c2@, c3@, c4@, c5@, c6@, c7@]);
        assert(seq![c0@, c1@, c2@, c3@, c4@, c5@, c6@, c7@] =~= seq![empty_cell(), r.path@, r.form@, empty_cell(), empty_cell(), empty_cell(), r.trace_id@, r.symbol@]);
        let line = tsv_line("implements", arr);
        assert(line@ == implements_tsv(*r));
        out.append(line.as_str());
        proof {
            let f = |x: ImplementsRecord| implements_tsv(x);
            assert(report.implements@.take(i + 1).map_values(f) =~= report.implements@.take(
                i as int,
            ).map_values(f).push(implements_tsv(*r)));
            lemma_concat_push(report.implements@.take(i as int).map_values(f), implements_tsv(*r));
        }
        i = i + 1;
    }
    assert(report.implements@.take(i as int) =~= report.implements@);
    out
}

// ---------------------------------------------------------------------------
// Percentages and finding identity
// ---------------------------------------------------------------------------

/// `backed / total` as a whole percentage, or `None` for an empty
/// denominator: "found nothing" is not "all covered".
pub open spec fn spec_percent(backed: nat, total: nat) -> Option<nat> {
    if total == 0 {
        None
    } else {
        Some((backed * 100) / total)
    }
}

/// `44%`, or a marker naming the empty denominator for what it is.
pub open spec fn spec_percent_label(backed: nat, total: nat) -> Seq<char> {
    match spec_percent(backed, total) {
        Some(p) => dec(p) + "%"@,
        None => "no rows matched"@,
    }
}

/// A backed/total pair as a percentage, or `None` when nothing was counted.
pub fn percent(backed: usize, total: usize) -> (r: Option<usize>)
    requires
        backed * 100 <= usize::MAX,
    ensures
        r matches Some(p) ==> spec_percent(backed as nat, total as nat) == Some(p as nat),
        r is None ==> spec_percent(backed as nat, total as nat) is None,
{
    if total == 0 {
        None
    } else {
        Some((backed * 100) / total)
    }
}

/// `44%`, or `no rows matched` for an empty denominator.
pub fn percent_label(backed: usize, total: usize) -> (s: String)
    requires
        backed * 100 <= usize::MAX,
    ensures
        s@ == spec_percent_label(backed as nat, total as nat),
{
    match percent(backed, total) {
        Some(p) => {
            let mut s = String::new();
            push_dec(&mut s, p);
            s.append("%");
            s
        },
        None => String::from_str("no rows matched"),
    }
}

/// The optional text of an optional borrowed string.
pub open spec fn opt_ref_text(o: Option<&str>) -> Option<Seq<char>> {
    match o {
        Some(s) => Some(s@),
        None => None,
    }
}

/// The lead and trailer of a human finding line: with a row id the id leads
/// (`TC-123 (doc.md:7)`) and the reference kind moves to a ` [kind]` trailer;
/// without one the reference kind leads and there is no trailer. The locus is
/// `document:line` when the line is known, the bare document otherwise.
pub open spec fn spec_finding_identity(
    row_id: Option<Seq<char>>,
    line: Option<usize>,
    reference: Seq<char>,
    document: Seq<char>,
) -> (Seq<char>, Seq<char>) {
    let locus = match line {
        Some(l) => document + ":"@ + dec(l as nat),
        None => document,
    };
    match row_id {
        Some(id) => (id + " ("@ + locus + ")"@, " ["@ + reference + "]"@),
        None => (reference + " ("@ + locus + ")"@, Seq::<char>::empty()),
    }
}

/// The lead and trailer of a human finding line.
pub fn finding_identity(
    row_id: Option<&str>,
    line: Option<usize>,
    reference: &str,
    document: &str,
) -> (r: (String, String))
    ensures
        (r.0@, r.1@) == spec_finding_identity(opt_ref_text(row_id), line, reference@, document@),
{
    let mut locus = String::from_str(document);
    match line {
        Some(l) => {
            locus.append(":");
            push_dec(&mut locus, l);
        },
        None => {},
    }
    match row_id {
        Some(id) => {
            let mut lead = String::from_str(id);
            lead.append(" (");
            lead.append(locus.as_str());
            lead.append(")");
            let mut trailer = String::from_str(" [");
            trailer.append(reference);
            trailer.append("]");
            (lead, trailer)
        },
        None => {
            let mut lead = String::from_str(reference);
            lead.append(" (");
            lead.append(locus.as_str());
            lead.append(")");
            (lead, String::new())
        },
    }
}

// ---------------------------------------------------------------------------
// The human census
// ---------------------------------------------------------------------------

/// The declared binding forms, or `none declared`.
pub open spec fn forms_text(forms: Seq<String>) -> Seq<char> {
    if forms.len() == 0 {
        "none declared"@
    } else {
        join(texts(forms), ", "@)
    }
}

/// The unread-tag example, when there is one.
pub open spec fn unmatched_text(e: Option<UnboundSymbol>) -> Seq<char> {
    match e {
        Some(e) => ", unread tag `"@ + e.symbol@ + "` at "@ + e.path@ + ":"@ + dec(e.line as nat),
        None => Seq::<char>::empty(),
    }
}

/// One language's census line: the bound/tagged/candidates counts and the
/// premises they rest on.
pub open spec fn census_line(c: BindingCensus) -> Seq<char> {
    c.language@ + ": "@ + dec(c.bound as nat) + "/"@ + dec(c.tagged as nat) + "/"@ + dec(
        c.candidates as nat,
    ) + " bound/tagged/candidates ("@ + spec_percent_label(c.bound as nat, c.candidates as nat)
        + " read; "@ + spec_percent_label(c.tagged as nat, c.candidates as nat)
        + " authored; forms: "@ + forms_text(c.forms@) + unmatched_text(c.unmatched_example)
        + ")"@
}

/// The census counts fit the percentage arithmetic.
pub open spec fn census_in_range(c: BindingCensus) -> bool {
    c.bound * 100 <= usize::MAX && c.tagged * 100 <= usize::MAX
}

/// One census line.
fn render_census_line(c: &BindingCensus) -> (s: String)
    requires
        census_in_range(*c),
    ensures
        s@ == census_line(*c),
{
    let forms = if c.forms.len() == 0 {
        String::from_str("none declared")
    } else {
        join_strings(&c.forms, ", ")
    };
    let mut unmatched = String::new();
    match &c.unmatched_example {
        Some(e) => {
            unmatched.append(", unread tag `");
            unmatched.append(e.symbol.as_str());
            unmatched.append("` at ");
            unmatched.append(e.path.as_str());
            unmatched.append(":");
            push_dec(&mut unmatched, e.line);
        },
        None => {},
    }
    let mut s = String::from_str(c.language.as_str());
    s.append(": ");
    push_dec(&mut s, c.bound);
    s.append("/");
    push_dec(&mut s, c.tagged);
    s.append("/");
    push_dec(&mut s, c.candidates);
    s.append(" bound/tagged/candidates (");
    let read = percent_label(c.bound, c.candidates);
    s.append(read.as_str());
    s.append(" read; ");
    let authored = percent_label(c.tagged, c.candidates);
    s.append(authored.as_str());
    s.append(" authored; forms: ");
    s.append(forms.as_str());
    s.append(unmatched.as_str());
    s.append(")");
    s
}

/// The binding census, one line per language.
pub fn census_lines(report: &CoverageReport) -> (out: Vec<String>)
    requires
        forall|i: int|
            0 <= i < report.binding_census@.len() ==> census_in_range(
                #[trigger] report.binding_census@[i],
            ),
    ensures
        texts(out@) == report.binding_census@.map_values(|c: BindingCensus| census_line(c)),
{
    let mut out: Vec<String> = Vec::new();
    let mut i: usize = 0;
    while i < report.binding_census.len()
        invariant
            i <= report.binding_census@.len(),
            forall|j: int|
                0 <= j < report.binding_census@.len() ==> census_in_range(
                    #[trigger] report.binding_census@[j],
                ),
            texts(out@) == report.binding_census@.take(i as int).map_values(
                |c: BindingCensus| census_line(c),
            ),
        decreases report.binding_census@.len() - i,
    {
        let line = render_census_line(&report.binding_census[i]);
        let ghost prev = out@;
        let ghost lv = line@;
        out.push(line);
        assert(texts(out@) =~= texts(prev).push(lv));
        assert(texts(out@) =~= report.binding_census@.take(i + 1).map_values(
            |c: BindingCensus| census_line(c),
        ));
        i = i + 1;
    }
    assert(report.binding_census@.take(i as int) =~= report.binding_census@);
    out
}

/// The envelope line of a measured ratio metric; nothing for a count or a
/// metric that was not computed.
pub open spec fn metric_line(m: Metric) -> Option<Seq<char>> {
    match m.measurement {
        Measurement::Measured { population, examined, matched } => if m.shape == MetricShape::Ratio {
            Some(
                m.name@ + ": over "@ + dec(population as nat) + " "@ + m.unit@ + "(s), examined "@
                    + dec(examined as nat) + ", matched "@ + dec(matched as nat),
            )
        } else {
            None
        },
        Measurement::NotComputed { .. } => None,
    }
}

/// The envelope of each measured ratio metric.
pub fn metric_lines(report: &CoverageReport) -> (out: Vec<String>)
    ensures
        texts(out@) == report.metrics@.filter_map(|m: Metric| metric_line(m)),
{
    let mut out: Vec<String> = Vec::new();
    let mut i: usize = 0;
    while i < report.metrics.len()
        invariant
            i <= report.metrics@.len(),
            texts(out@) == report.metrics@.take(i as int).filter_map(|m: Metric| metric_line(m)),
        decreases report.metrics@.len() - i,
    {
        let m = &report.metrics[i];
        assert(report.metrics@.take(i + 1).drop_last() =~= report.metrics@.take(i as int));
        match &m.measurement {
            Measurement::Measured { population, examined, matched } => {
                if m.shape == MetricShape::Ratio {
                    let mut s = String::from_str(m.name.as_str());
                    s.append(": over ");
                    push_dec(&mut s, *population);
                    s.append(" ");
                    s.append(m.unit.as_str());
                    s.append("(s), examined ");
                    push_dec(&mut s, *examined);
                    s.append(", matched ");
                    push_dec(&mut s, *matched);
                    out.push(s);
                    assert(texts(out@) =~= report.metrics@.take(i + 1).filter_map(
                        |m: Metric| metric_line(m),
                    ));
                } else {
                    assert(texts(out@) =~= report.metrics@.take(i + 1).filter_map(
                        |m: Metric| metric_line(m),
                    ));
                }
            },
            Measurement::NotComputed { .. } => {
                assert(texts(out@) =~= report.metrics@.take(i + 1).filter_map(
                    |m: Metric| metric_line(m),
                ));
            },
        }
        i = i + 1;
    }
    assert(report.metrics@.take(i as int) =~= report.metrics@);
    out
}

// ---------------------------------------------------------------------------
// The human surface: result lines on stdout, findings on stderr
// ---------------------------------------------------------------------------

/// The headline: `Coverage: B/T rows backed (P)`.
pub open spec fn headline(t: Totals) -> Seq<char> {
    "Coverage: "@ + dec(t.backed as nat) + "/"@ + dec(t.total as nat) + " rows backed ("@
        + spec_percent_label(t.backed as nat, t.total as nat) + ")"@
}

/// One document's totals.
pub open spec fn group_line(g: Group) -> Seq<char> {
    g.document@ + ": "@ + dec(g.backed as nat) + "/"@ + dec(g.total as nat) + " ("@
        + spec_percent_label(g.backed as nat, g.total as nat) + ")"@
}

/// What `source_exclude` subtracted; nothing when it subtracted nothing.
pub open spec fn excluded_lines(n: usize) -> Seq<Seq<char>> {
    if n > 0 {
        seq![dec(n as nat) + " source file(s) excluded by source_exclude"@]
    } else {
        Seq::<Seq<char>>::empty()
    }
}

/// The census a human reads on stdout: headline, per-language binding
/// census, per-document totals, the exclusion count and the ratio envelopes.
pub open spec fn spec_result_lines(r: CoverageReport) -> Seq<Seq<char>> {
    seq![headline(r.totals)] + r.binding_census@.map_values(|c: BindingCensus| census_line(c))
        + r.groups@.map_values(|g: Group| group_line(g)) + excluded_lines(r.excluded_source_files)
        + r.metrics@.filter_map(|m: Metric| metric_line(m))
}

/// Every count the percentages are computed from fits the arithmetic.
pub open spec fn report_in_range(r: CoverageReport) -> bool {
    &&& r.totals.backed * 100 <= usize::MAX
    &&& forall|i: int| 0 <= i < r.groups@.len() ==> #[trigger] r.groups@[i].backed * 100 <= usize::MAX
    &&& forall|i: int|
        0 <= i < r.binding_census@.len() ==> census_in_range(#[trigger] r.binding_census@[i])
}

/// The optional text of an optional string.
pub open spec fn opt_seq(o: Option<String>) -> Option<Seq<char>> {
    match o {
        Some(s) => Some(s@),
        None => None,
    }
}

/// `o.as_deref()`.
pub fn as_opt_str(o: &Option<String>) -> (r: Option<&str>)
    ensures
        opt_ref_text(r) == opt_seq(*o),
{
    match o {
        Some(s) => Some(s.as_str()),
        None => None,
    }
}

pub open spec fn diagnostic_notice(d: CoverageDiagnostic) -> (Seq<char>, Seq<char>) {
    let locus = match d.path {
        Some(p) => " ("@ + p@ + ")"@,
        None => Seq::<char>::empty(),
    };
    ("CoverageDiagnostic"@, "["@ + d.reason@ + "] "@ + d.message@ + locus)
}

pub open spec fn suspicion_notice(s: Suspicion) -> (Seq<char>, Seq<char>) {
    (
        "Suspicion"@,
        "["@ + s.kind@ + "] "@ + s.symbol@ + " in "@ + s.path@ + ":"@ + dec(s.line as nat)
            + " — "@ + s.message@ + " ("@ + s.evidence@ + ")"@,
    )
}

pub open spec fn unbacked_notice(r: UnbackedRow) -> (Seq<char>, Seq<char>) {
    let id = spec_finding_identity(opt_seq(r.row_id), r.line, r.reference@, r.document@);
    ("UnbackedRow"@, id.0 + " has no backing symbol"@ + id.1)
}

pub open spec fn status_lie_notice(r: StatusLie) -> (Seq<char>, Seq<char>) {
    let id = spec_finding_identity(opt_seq(r.row_id), r.line, r.reference@, r.document@);
    ("StatusLie"@, id.0 + " claims `"@ + r.status@ + "` but is not backed"@ + id.1)
}

pub open spec fn no_symbol_notice(r: NoSymbolRow) -> (Seq<char>, Seq<char>) {
    let id = spec_finding_identity(opt_seq(r.row_id), r.line, r.reference@, r.document@);
    (
        "NoSymbolRow"@,
        id.0 + " is verified by `"@ + r.test_type@ + "`, which mints no source symbol"@ + id.1,
    )
}

pub open spec fn undeclared_notice(r: UndeclaredStatus) -> (Seq<char>, Seq<char>) {
    let id = spec_finding_identity(opt_seq(r.row_id), r.line, r.reference@, r.document@);
    (
        "UndeclaredStatus"@,
        id.0 + " has status `"@ + r.status@
            + "`, which the declared vocabulary classes as nothing"@ + id.1,
    )
}

pub open spec fn untracked_notice(u: UntrackedSymbol) -> (Seq<char>, Seq<char>) {
    (
        "UntrackedSymbol"@,
        u.symbol@ + " in "@ + u.path@ + " traces to `"@ + u.trace_id@
            + "`, which matches no declared row"@,
    )
}

/// The findings a human reads on stderr, in order: engine diagnostics,
/// suspicions, then every row-level finding kind.
pub open spec fn spec_human_notices(r: CoverageReport) -> Seq<(Seq<char>, Seq<char>)> {
    r.diagnostics@.map_values(|d: CoverageDiagnostic| diagnostic_notice(d)) + r.suspicions@.map_values(
        |s: Suspicion| suspicion_notice(s),
    ) + r.unbacked_rows@.map_values(|x: UnbackedRow| unbacked_notice(x))
        + r.status_lies@.map_values(|x: StatusLie| status_lie_notice(x))
        + r.no_symbol_rows@.map_values(|x: NoSymbolRow| no_symbol_notice(x))
        + r.undeclared_statuses@.map_values(|x: UndeclaredStatus| undeclared_notice(x))
        + r.untracked_symbols@.map_values(|x: UntrackedSymbol| untracked_notice(x))
}

/// The stdout census of the human form.
pub fn result_lines(report: &CoverageReport) -> (out: Vec<String>)
    requires
        report_in_range(*report),
    ensures
        texts(out@) == spec_result_lines(*report),
{
    let t = &report.totals;
    let mut head = String::from_str("Coverage: ");
    push_dec(&mut head, t.backed);
    head.append("/");
    push_dec(&mut head, t.total);
    head.append(" rows backed (");
    let pct = percent_label(t.backed, t.total);
    head.append(pct.as_str());
    head.append(")");
    let mut out: Vec<String> = Vec::new();
    out.push(head);
    assert(texts(out@) =~= seq![headline(report.totals)]);

    let mut census = census_lines(report);
    let ghost before = texts(out@);
    let ghost cv = texts(census@);
    out.append(&mut census);
    assert(texts(out@) =~= before + cv);

    let ghost g0 = texts(out@);
    let mut i: usize = 0;
    while i < report.groups.len()
        invariant
            i <= report.groups@.len(),
            report_in_range(*report),
            texts(out@) == g0 + report.groups@.take(i as int).map_values(|g: Group| group_line(g)),
        decreases report.groups@.len() - i,
    {
        let g = &report.groups[i];
        assert(report.groups@[i as int].backed * 100 <= usize::MAX);
        let mut s = String::from_str(g.document.as_str());
        s.append(": ");
        push_dec(&mut s, g.backed);
        s.append("/");
        push_dec(&mut s, g.total);
        s.append(" (");
        let p = percent_label(g.backed, g.total);
        s.append(p.as_str());
        s.append(")");
        let ghost prev = out@;
        let ghost sv = s@;
        out.push(s);
        assert(texts(out@) =~= texts(prev).push(sv));
        assert(report.groups@.take(i + 1).map_values(|g: Group| group_line(g))
            =~= report.groups@.take(i as int).map_values(|g: Group| group_line(g)).push(sv));
        i = i + 1;
    }
    assert(report.groups@.take(i as int) =~= report.groups@);

    if report.excluded_source_files > 0 {
        let mut s = String::new();
        push_dec(&mut s, report.excluded_source_files);
        s.append(" source file(s) excluded by source_exclude");
        let ghost prev = out@;
        let ghost sv = s@;
        out.push(s);
        assert(texts(out@) =~= texts(prev).push(sv));
    }
    let ghost e0 = texts(out@);
    let mut metrics = metric_lines(report);
    let ghost mv = texts(metrics@);
    out.append(&mut metrics);
    assert(texts(out@) =~= e0 + mv);
    out
}

/// Push a notice.
fn push_notice(out: &mut Vec<Notice>, kind: &str, message: String)
    ensures
        notice_views(final(out)@) == notice_views(old(out)@).push((kind@, message@)),
{
    let ghost mv = message@;
    out.push(Notice { kind: String::from_str(kind), message });
    assert(notice_views(out@) =~= notice_views(old(out)@).push((kind@, mv)));
}

/// The stderr findings of the human form.
pub fn human_notices(report: &CoverageReport) -> (out: Vec<Notice>)
    ensures
        notice_views(out@) == spec_human_notices(*report),
{
    let mut out: Vec<Notice> = Vec::new();

    let ghost n0 = notice_views(out@);
    let mut i: usize = 0;
    while i < report.diagnostics.len()
        invariant
            i <= report.diagnostics@.len(),
            notice_views(out@) == n0 + report.diagnostics@.take(i as int).map_values(
                |d: CoverageDiagnostic| diagnostic_notice(d),
            ),
        decreases report.diagnostics@.len() - i,
    {
        let d = &report.diagnostics[i];
        let mut m = String::from_str("[");
        m.append(d.reason.as_str());
        m.append("] ");
        m.append(d.message.as_str());
        let mut locus = String::new();
        match &d.path {
            Some(p) => {
                locus.append(" (");
                locus.append(p.as_str());
                locus.append(")");
            },
            None => {},
        }
        m.append(locus.as_str());
        push_notice(&mut out, "CoverageDiagnostic", m);
        assert(report.diagnostics@.take(i + 1).map_values(
            |d: CoverageDiagnostic| diagnostic_notice(d),
        ) =~= report.diagnostics@.take(i as int).map_values(
            |d: CoverageDiagnostic| diagnostic_notice(d),
        ).push(diagnostic_notice(*d)));
        i = i + 1;
    }
    assert(report.diagnostics@.take(i as int) =~= report.diagnostics@);

    let ghost n1 = notice_views(out@);
    let mut i: usize = 0;
    while i < report.suspicions.len()
        invariant
            i <= report.suspicions@.len(),
            notice_views(out@) == n1 + report.suspicions@.take(i as int).map_values(
                |s: Suspicion| suspicion_notice(s),
            ),
        decreases report.suspicions@.len() - i,
    {
        let s = &report.suspicions[i];
        let mut m = String::from_str("[");
        m.append(s.kind.as_str());
        m.append("] ");
        m.append(s.symbol.as_str());
        m.append(" in ");
        m.append(s.path.as_str());
        m.append(":");
        push_dec(&mut m, s.line);
        m.append(" — ");
        m.append(s.message.as_str());
        m.append(" (");
        m.append(s.evidence.as_str());
        m.append(")");
        push_notice(&mut out, "Suspicion", m);
        assert(report.suspicions@.take(i + 1).map_values(|s: Suspicion| suspicion_notice(s))
            =~= report.suspicions@.take(i as int).map_values(|s: Suspicion| suspicion_notice(s)).push(
            suspicion_notice(*s),
        ));
        i = i + 1;
    }
    assert(report.suspicions@.take(i as int) =~= report.suspicions@);

    let ghost n2 = notice_views(out@);
    let mut i: usize = 0;
    while i < report.unbacked_rows.len()
        invariant
            i <= report.unbacked_rows@.len(),
            notice_views(out@) == n2 + report.unbacked_rows@.take(i as int).map_values(
                |x: UnbackedRow| unbacked_notice(x),
            ),
        decreases report.unbacked_rows@.len() - i,
    {
        let r = &report.unbacked_rows[i];
        let (lead, kind) = finding_identity(
            as_opt_str(&r.row_id),
            r.line,
            r.reference.as_str(),
            r.document.as_str(),
        );
        let mut m = lead;
        m.append(" has no backing symbol");
        m.append(kind.as_str());
        push_notice(&mut out, "UnbackedRow", m);
        assert(report.unbacked_rows@.take(i + 1).map_values(|x: UnbackedRow| unbacked_notice(x))
            =~= report.unbacked_rows@.take(i as int).map_values(
            |x: UnbackedRow| unbacked_notice(x),
        ).push(unbacked_notice(*r)));
        i = i + 1;
    }
    assert(report.unbacked_rows@.take(i as int) =~= report.unbacked_rows@);

    let ghost n3 = notice_views(out@);
    let mut i: usize = 0;
    while i < report.status_lies.len()
        invariant
            i <= report.status_lies@.len(),
            notice_views(out@) == n3 + report.status_lies@.take(i as int).map_values(
                |x: StatusLie| status_lie_notice(x),
            ),
        decreases report.status_lies@.len() - i,
    {
        let r = &report.status_lies[i];
        let (lead, kind) = finding_identity(
            as_opt_str(&r.row_id),
            r.line,
            r.reference.as_str(),
            r.document.as_str(),
        );
        let mut m = lead;
        m.append(" claims `");
        m.append(r.status.as_str());
        m.append("` but is not backed");
        m.append(kind.as_str());
        push_notice(&mut out, "StatusLie", m);
        assert(report.status_lies@.take(i + 1).map_values(|x: StatusLie| status_lie_notice(x))
            =~= report.status_lies@.take(i as int).map_values(
            |x: StatusLie| status_lie_notice(x),
        ).push(status_lie_notice(*r)));
        i = i + 1;
    }
    assert(report.status_lies@.take(i as int) =~= report.status_lies@);

    let ghost n4 = notice_views(out@);
    let mut i: usize = 0;
    while i < report.no_symbol_rows.len()
        invariant
            i <= report.no_symbol_rows@.len(),
            notice_views(out@) == n4 + report.no_symbol_rows@.take(i as int).map_values(
                |x: NoSymbolRow| no_symbol_notice(x),
            ),
        decreases report.no_symbol_rows@.len() - i,
    {
        let r = &report.no_symbol_rows[i];
        let (lead, kind) = finding_identity(
            as_opt_str(&r.row_id),
            r.line,
            r.reference.as_str(),
            r.document.as_str(),
        );
        let mut m = lead;
        m.append(" is verified by `");
        m.append(r.test_type.as_str());
        m.append("`, which mints no source symbol");
        m.append(kind.as_str());
        push_notice(&mut out, "NoSymbolRow", m);
        assert(report.no_symbol_rows@.take(i + 1).map_values(|x: NoSymbolRow| no_symbol_notice(x))
            =~= report.no_symbol_rows@.take(i as int).map_values(
            |x: NoSymbolRow| no_symbol_notice(x),
        ).push(no_symbol_notice(*r)));
        i = i + 1;
    }
    assert(report.no_symbol_rows@.take(i as int) =~= report.no_symbol_rows@);

    let ghost n5 = notice_views(out@);
    let mut i: usize = 0;
    while i < report.undeclared_statuses.len()
        invariant
            i <= report.undeclared_statuses@.len(),
            notice_views(out@) == n5 + report.undeclared_statuses@.take(i as int).map_values(
                |x: UndeclaredStatus| undeclared_notice(x),
            ),
        decreases report.undeclared_statuses@.len() - i,
    {
        let r = &report.undeclared_statuses[i];
        let (lead, kind) = finding_identity(
            as_opt_str(&r.row_id),
            r.line,
            r.reference.as_str(),
            r.document.as_str(),
        );
        let mut m = lead;
        m.append(" has status `");
        m.append(r.status.as_str());
        m.append("`, which the declared vocabulary classes as nothing");
        m.append(kind.as_str());
        push_notice(&mut out, "UndeclaredStatus", m);
        assert(report.undeclared_statuses@.take(i + 1).map_values(
            |x: UndeclaredStatus| undeclared_notice(x),
        ) =~= report.undeclared_statuses@.take(i as int).map_values(
            |x: UndeclaredStatus| undeclared_notice(x),
        ).push(undeclared_notice(*r)));
        i = i + 1;
    }
    assert(report.undeclared_statuses@.take(i as int) =~= report.undeclared_statuses@);

    let ghost n6 = notice_views(out@);
    let mut i: usize = 0;
    while i < report.untracked_symbols.len()
        invariant
            i <= report.untracked_symbols@.len(),
            notice_views(out@) == n6 + report.untracked_symbols@.take(i as int).map_values(
                |x: UntrackedSymbol| untracked_notice(x),
            ),
        decreases report.untracked_symbols@.len() - i,
    {
        let u = &report.untracked_symbols[i];
        let mut m = String::from_str(u.symbol.as_str());
        m.append(" in ");
        m.append(u.path.as_str());
        m.append(" traces to `");
        m.append(u.trace_id.as_str());
        m.append("`, which matches no declared row");
        push_notice(&mut out, "UntrackedSymbol", m);
        assert(report.untracked_symbols@.take(i + 1).map_values(
            |x: UntrackedSymbol| untracked_notice(x),
        ) =~= report.untracked_symbols@.take(i as int).map_values(
            |x: UntrackedSymbol| untracked_notice(x),
        ).push(untracked_notice(*u)));
        i = i + 1;
    }
    assert(report.untracked_symbols@.take(i as int) =~= report.untracked_symbols@);
    out
}

/// The human form: the census on stdout, every finding on stderr.
pub fn emit_human(diagnostics: Diagnostics, report: &CoverageReport)
    requires
        report_in_range(*report),
{
    let lines = result_lines(report);
    emit_results(&lines);
    let notices = human_notices(report);
    emit_notices(diagnostics, &notices);
}

// ---------------------------------------------------------------------------
// Arguments, severity pack, projection and verdict
// ---------------------------------------------------------------------------

/// How the report leaves the process.
#[derive(Debug, Clone, Copy, PartialEq, Eq, Structural)]
pub enum OutputFormat {
    /// The human census.
    Human,
    /// The `CoverageReport` JSON payload on stdout — the stable interface.
    Json,
    /// One tab-separated record per line on stdout.
    Tsv,
}

/// The `quire coverage` arguments.
#[derive(Debug)]
pub struct Args {
    /// Repository root; documents are read from `<scope>/spec`.
    pub scope: String,
    /// Module directory supplying the `traceability:` model.
    pub module: Option<String>,
    /// Equivalent to `--format json`.
    pub json: bool,
    /// Output form.
    pub format: Option<OutputFormat>,
    /// Exit 1 when any row is unbacked or any status contradicted.
    pub strict: bool,
    /// `PACK:CHECK=LEVEL` severity overrides.
    pub severity: Vec<String>,
}

/// The output form an invocation selects: `--format` when given, else JSON
/// under `--json`, else human.
pub open spec fn spec_selected_format(format: Option<OutputFormat>, json: bool) -> OutputFormat {
    match format {
        Some(f) => f,
        None => if json {
            OutputFormat::Json
        } else {
            OutputFormat::Human
        },
    }
}

/// The output form an invocation selects.
pub fn selected_format(format: Option<OutputFormat>, json: bool) -> (f: OutputFormat)
    ensures
        f == spec_selected_format(format, json),
{
    match format {
        Some(f) => f,
        None => if json {
            OutputFormat::Json
        } else {
            OutputFormat::Human
        },
    }
}

/// The four checks the `coverage` severity pack owns.
pub open spec fn is_pack_check(c: Seq<char>) -> bool {
    c == "unbacked-row"@ || c == "status-lie"@ || c == "untracked-symbol"@ || c
        == "undeclared-status"@
}

/// The check a `coverage:` entry names, when the entry is one.
pub open spec fn pack_entry_check(entry: Seq<char>) -> Option<Seq<char>> {
    if "coverage:"@.is_prefix_of(entry) {
        Some(before_first(entry.skip(9), '='))
    } else {
        None
    }
}

/// A `coverage:` entry naming a check outside the pack.
pub open spec fn names_unknown_check(entry: Seq<char>) -> bool {
    match pack_entry_check(entry) {
        Some(c) => !is_pack_check(c),
        None => false,
    }
}

/// The first entry naming an unknown coverage check, in order.
pub open spec fn first_unknown_check(entries: Seq<Seq<char>>) -> Option<Seq<char>>
    decreases entries.len(),
{
    if entries.len() == 0 {
        None
    } else if names_unknown_check(entries[0]) {
        Some(entries[0])
    } else {
        first_unknown_check(entries.drop_first())
    }
}

/// The refusal of an entry naming no coverage check.
pub open spec fn unknown_check_message(entry: Seq<char>) -> Seq<char> {
    "--severity entry '"@ + entry
        + "' names no coverage check: the coverage pack's checks are unbacked-row, status-lie, untracked-symbol, undeclared-status"@
}

/// Whether `c` is one of the pack's checks.
fn is_pack_check_chars(c: &[char]) -> (r: bool)
    ensures
        r == is_pack_check(c@),
{
    let a = chars_of("unbacked-row");
    let b = chars_of("status-lie");
    let d = chars_of("untracked-symbol");
    let e = chars_of("undeclared-status");
    crate::text::same_chars(c, &a) || crate::text::same_chars(c, &b) || crate::text::same_chars(
        c,
        &d,
    ) || crate::text::same_chars(c, &e)
}

/// Reject a `coverage:<check>` entry naming a check outside the pack's
/// four; entries for other grammars are left alone.
pub fn reject_unknown_pack_checks(entries: &Vec<String>) -> (r: Result<(), String>)
    ensures
        r is Ok <==> first_unknown_check(texts(entries@)) is None,
        r matches Err(m) ==> first_unknown_check(texts(entries@)) matches Some(e) && m@
            == unknown_check_message(e),
{
    let ghost all = texts(entries@);
    let prefix = chars_of("coverage:");
    proof {
        reveal_strlit("coverage:");
    }
    let mut i: usize = 0;
    assert(all.skip(0) =~= all);
    while i < entries.len()
        invariant
            i <= entries@.len(),
            all == texts(entries@),
            prefix@ == "coverage:"@,
            "coverage:"@.len() == 9,
            first_unknown_check(all) == first_unknown_check(all.skip(i as int)),
        decreases entries@.len() - i,
    {
        assert(all.skip(i as int)[0] == entries@[i as int]@);
        assert(all.skip(i as int).drop_first() =~= all.skip(i + 1));
        let entry = chars_of(entries[i].as_str());
        if has_prefix(&entry, &prefix) {
            let rest = slice_of(&entry, 9, entry.len());
            assert(rest@ =~= entry@.skip(9));
            let check = before_first_chars(&rest, '=');
            if !is_pack_check_chars(&check) {
                let mut m = String::from_str("--severity entry '");
                m.append(entries[i].as_str());
                m.append(
                    "' names no coverage check: the coverage pack's checks are unbacked-row, status-lie, untracked-symbol, undeclared-status",
                );
                return Err(m);
            }
        }
        i = i + 1;
    }
    Ok(())
}

/// A configured severity level.
#[derive(Debug, Clone, Copy, PartialEq, Eq, Structural)]
pub enum SeverityLevel {
    Off,
    Warning,
    Error,
}

/// The configured level of each of the pack's four checks.
#[derive(Debug, Clone, Copy)]
pub struct PackLevels {
    pub unbacked_row: SeverityLevel,
    pub status_lie: SeverityLevel,
    pub untracked_symbol: SeverityLevel,
    pub undeclared_status: SeverityLevel,
}

/// Which finding kinds a projection removes: those whose pack level is `off`.
#[derive(Debug, Clone, Copy, PartialEq, Eq)]
pub struct ProjectedKinds {
    pub unbacked_row: bool,
    pub status_lie: bool,
    pub untracked_symbol: bool,
    pub undeclared_status: bool,
}

/// The kinds a projection under `levels` removes from every surface, the
/// engine's JSON payload included: exactly those set to `off`.
pub fn projected_kinds(levels: PackLevels) -> (k: ProjectedKinds)
    ensures
        k.unbacked_row == (levels.unbacked_row == SeverityLevel::Off),
        k.status_lie == (levels.status_lie == SeverityLevel::Off),
        k.untracked_symbol == (levels.untracked_symbol == SeverityLevel::Off),
        k.undeclared_status == (levels.undeclared_status == SeverityLevel::Off),
{
    ProjectedKinds {
        unbacked_row: matches!(levels.unbacked_row, SeverityLevel::Off),
        status_lie: matches!(levels.status_lie, SeverityLevel::Off),
        untracked_symbol: matches!(levels.untracked_symbol, SeverityLevel::Off),
        undeclared_status: matches!(levels.undeclared_status, SeverityLevel::Off),
    }
}

/// The finding counts of the full computation, before any projection.
#[derive(Debug, Clone, Copy)]
pub struct FullCounts {
    pub unbacked_row: usize,
    pub status_lie: usize,
    pub untracked_symbol: usize,
    pub undeclared_status: usize,
}

/// The counts of a report.
pub fn full_counts(report: &CoverageReport) -> (c: FullCounts)
    ensures
        c.unbacked_row == report.unbacked_rows@.len(),
        c.status_lie == report.status_lies@.len(),
        c.untracked_symbol == report.untracked_symbols@.len(),
        c.undeclared_status == report.undeclared_statuses@.len(),
{
    FullCounts {
        unbacked_row: report.unbacked_rows.len(),
        status_lie: report.status_lies.len(),
        untracked_symbol: report.untracked_symbols.len(),
        undeclared_status: report.undeclared_statuses.len(),
    }
}

/// The note announcing that `n` findings of `check` were projected away.
pub open spec fn suppressed_note(check: Seq<char>, n: nat) -> (Seq<char>, Seq<char>) {
    ("CoverageProjection"@, dec(n) + " coverage:"@ + check + " finding(s) suppressed by severity `off`"@)
}

/// The notes a projection announces, one per non-empty `off` kind.
pub open spec fn spec_projection_notes(r: CoverageReport, levels: PackLevels) -> Seq<
    (Seq<char>, Seq<char>),
> {
    (if levels.unbacked_row == SeverityLevel::Off && r.unbacked_rows@.len() > 0 {
        seq![suppressed_note("unbacked-row"@, r.unbacked_rows@.len())]
    } else {
        Seq::empty()
    }) + (if levels.status_lie == SeverityLevel::Off && r.status_lies@.len() > 0 {
        seq![suppressed_note("status-lie"@, r.status_lies@.len())]
    } else {
        Seq::empty()
    }) + (if levels.untracked_symbol == SeverityLevel::Off && r.untracked_symbols@.len() > 0 {
        seq![suppressed_note("untracked-symbol"@, r.untracked_symbols@.len())]
    } else {
        Seq::empty()
    }) + (if levels.undeclared_status == SeverityLevel::Off && r.undeclared_statuses@.len() > 0 {
        seq![suppressed_note("undeclared-status"@, r.undeclared_statuses@.len())]
    } else {
        Seq::empty()
    })
}

/// One suppression note, when there is something to suppress.
fn note_suppressed(notes: &mut Vec<Notice>, check: &str, n: usize)
    ensures
        notice_views(final(notes)@) == notice_views(old(notes)@) + if n > 0 {
            seq![suppressed_note(check@, n as nat)]
        } else {
            Seq::empty()
        },
{
    if n > 0 {
        let mut m = String::new();
        push_dec(&mut m, n);
        m.append(" coverage:");
        m.append(check);
        m.append(" finding(s) suppressed by severity `off`");
        let ghost before = notice_views(notes@);
        let ghost mv = m@;
        notes.push(Notice { kind: String::from_str("CoverageProjection"), message: m });
        assert(notice_views(notes@) =~= before + seq![suppressed_note(check@, n as nat)]);
    } else {
        assert(notice_views(notes@) =~= notice_views(old(notes)@) + Seq::empty());
    }
}

/// Drop every `off` kind's records from the report and say so: the totals,
/// groups and every other list are untouched, and each non-empty
/// suppression gets a note, so a projected report is never mistaken for a
/// clean one.
pub fn project_by_severity(report: CoverageReport, levels: PackLevels) -> (r: (CoverageReport, Vec<Notice>))
    ensures
        r.0.unbacked_rows@ == if levels.unbacked_row == SeverityLevel::Off {
            Seq::empty()
        } else {
            report.unbacked_rows@
        },
        r.0.status_lies@ == if levels.status_lie == SeverityLevel::Off {
            Seq::empty()
        } else {
            report.status_lies@
        },
        r.0.untracked_symbols@ == if levels.untracked_symbol == SeverityLevel::Off {
            Seq::empty()
        } else {
            report.untracked_symbols@
        },
        r.0.undeclared_statuses@ == if levels.undeclared_status == SeverityLevel::Off {
            Seq::empty()
        } else {
            report.undeclared_statuses@
        },
        r.0.totals == report.totals,
        r.0.groups == report.groups,
        r.0.no_symbol_rows == report.no_symbol_rows,
        r.0.diagnostics == report.diagnostics,
        r.0.obligations == report.obligations,
        r.0.implements == report.implements,
        r.0.binding_census == report.binding_census,
        r.0.metrics == report.metrics,
        r.0.suspicions == report.suspicions,
        r.0.excluded_source_files == report.excluded_source_files,
        notice_views(r.1@) == spec_projection_notes(report, levels),
{
    let ghost original = report;
    let mut report = report;
    let mut notes: Vec<Notice> = Vec::new();
    assert(notice_views(notes@) =~= Seq::<(Seq<char>, Seq<char>)>::empty());
    if levels.unbacked_row == SeverityLevel::Off {
        note_suppressed(&mut notes, "unbacked-row", report.unbacked_rows.len());
        report.unbacked_rows.clear();
    } else {
        assert(notice_views(notes@) =~= notice_views(notes@) + Seq::empty());
    }
    let ghost n1 = notice_views(notes@);
    if levels.status_lie == SeverityLevel::Off {
        note_suppressed(&mut notes, "status-lie", report.status_lies.len());
        report.status_lies.clear();
    }
    let ghost n2 = notice_views(notes@);
    if levels.untracked_symbol == SeverityLevel::Off {
        note_suppressed(&mut notes, "untracked-symbol", report.untracked_symbols.len());
        report.untracked_symbols.clear();
    }
    let ghost n3 = notice_views(notes@);
    if levels.undeclared_status == SeverityLevel::Off {
        note_suppressed(&mut notes, "undeclared-status", report.undeclared_statuses.len());
        report.undeclared_statuses.clear();
    }
    assert(notice_views(notes@) =~= spec_projection_notes(original, levels));
    (report, notes)
}

/// The message of a run failed by `error`-promoted kinds.
pub open spec fn promoted_part(check: Seq<char>, n: nat) -> Seq<char> {
    dec(n) + " coverage:"@ + check + " finding(s)"@
}

/// The promoted kinds, in pack order: each kind with findings whose level
/// is `error`.
pub open spec fn spec_promoted(counts: FullCounts, levels: PackLevels) -> Seq<Seq<char>> {
    (if counts.unbacked_row > 0 && levels.unbacked_row == SeverityLevel::Error {
        seq![promoted_part("unbacked-row"@, counts.unbacked_row as nat)]
    } else {
        Seq::empty()
    }) + (if counts.status_lie > 0 && levels.status_lie == SeverityLevel::Error {
        seq![promoted_part("status-lie"@, counts.status_lie as nat)]
    } else {
        Seq::empty()
    }) + (if counts.untracked_symbol > 0 && levels.untracked_symbol == SeverityLevel::Error {
        seq![promoted_part("untracked-symbol"@, counts.untracked_symbol as nat)]
    } else {
        Seq::empty()
    }) + (if counts.undeclared_status > 0 && levels.undeclared_status == SeverityLevel::Error {
        seq![promoted_part("undeclared-status"@, counts.undeclared_status as nat)]
    } else {
        Seq::empty()
    })
}

/// The refusal when `--strict` finds that the model matched nothing.
pub open spec fn matched_nothing_message() -> Seq<char> {
    "the declared traceability model matched no rows in this scope, so nothing was reconciled (--strict); check that the model's trace targets name documents and sections this repo actually has"@
}

/// The refusal when `--strict` finds gaps.
pub open spec fn strict_gap_message(unbacked: nat, lies: nat) -> Seq<char> {
    dec(unbacked) + " unbacked row(s) and "@ + dec(lies) + " contradicted status(es) (--strict)"@
}

/// The exit verdict, judged on the full computation: any `error`-promoted
/// kind with findings fails the run; then, under `--strict`, a model that
/// matched nothing fails, and so do unbacked rows or contradicted statuses.
pub open spec fn spec_verdict(counts: FullCounts, levels: PackLevels, strict: bool, total: usize) -> Result<
    (),
    Seq<char>,
> {
    let promoted = spec_promoted(counts, levels);
    if promoted.len() > 0 {
        Err(join(promoted, ", "@) + " at severity `error` (--severity)"@)
    } else if strict && total == 0 {
        Err(matched_nothing_message())
    } else if strict && (counts.unbacked_row > 0 || counts.status_lie > 0) {
        Err(strict_gap_message(counts.unbacked_row as nat, counts.status_lie as nat))
    } else {
        Ok(())
    }
}

/// Push one promoted kind.
fn push_promoted(parts: &mut Vec<String>, check: &str, n: usize, level: SeverityLevel)
    ensures
        texts(final(parts)@) == texts(old(parts)@) + if n > 0 && level == SeverityLevel::Error {
            seq![promoted_part(check@, n as nat)]
        } else {
            Seq::empty()
        },
{
    if n > 0 && level == SeverityLevel::Error {
        let mut m = String::new();
        push_dec(&mut m, n);
        m.append(" coverage:");
        m.append(check);
        m.append(" finding(s)");
        let ghost before = texts(parts@);
        parts.push(m);
        assert(texts(parts@) =~= before + seq![promoted_part(check@, n as nat)]);
    } else {
        assert(texts(parts@) =~= texts(old(parts)@) + Seq::empty());
    }
}

/// The exit verdict of a coverage run.
pub fn coverage_verdict(counts: FullCounts, levels: PackLevels, strict: bool, total: usize) -> (r:
    Result<(), String>)
    ensures
        r is Ok <==> spec_verdict(counts, levels, strict, total) is Ok,
        r matches Err(m) ==> spec_verdict(counts, levels, strict, total) == Err::<(), Seq<char>>(m@),
{
    let mut parts: Vec<String> = Vec::new();
    assert(texts(parts@) =~= Seq::<Seq<char>>::empty());
    push_promoted(&mut parts, "unbacked-row", counts.unbacked_row, levels.unbacked_row);
    push_promoted(&mut parts, "status-lie", counts.status_lie, levels.status_lie);
    push_promoted(&mut parts, "untracked-symbol", counts.untracked_symbol, levels.untracked_symbol);
    push_promoted(&mut parts, "undeclared-status", counts.undeclared_status, levels.undeclared_status);
    assert(texts(parts@) =~= spec_promoted(counts, levels));
    if parts.len() > 0 {
        let mut m = join_strings(&parts, ", ");
        m.append(" at severity `error` (--severity)");
        return Err(m);
    }
    if strict {
        if total == 0 {
            return Err(String::from_str(
                "the declared traceability model matched no rows in this scope, so nothing was reconciled (--strict); check that the model's trace targets name documents and sections this repo actually has",
            ));
        }
        if counts.unbacked_row > 0 || counts.status_lie > 0 {
            let mut m = String::new();
            push_dec(&mut m, counts.unbacked_row);
            m.append(" unbacked row(s) and ");
            push_dec(&mut m, counts.status_lie);
            m.append(" contradicted status(es) (--strict)");
            return Err(m);
        }
    }
    Ok(())
}

/// Whether every percentage the human form computes fits the machine word.
pub fn is_report_in_range(r: &CoverageReport) -> (b: bool)
    ensures
        b == report_in_range(*r),
{
    if r.totals.backed > usize::MAX / 100 {
        return false;
    }
    let mut i: usize = 0;
    while i < r.groups.len()
        invariant
            i <= r.groups@.len(),
            forall|k: int| 0 <= k < i ==> #[trigger] r.groups@[k].backed * 100 <= usize::MAX,
        decreases r.groups@.len() - i,
    {
        if r.groups[i].backed > usize::MAX / 100 {
            return false;
        }
        i = i + 1;
    }
    let mut j: usize = 0;
    while j < r.binding_census.len()
        invariant
            j <= r.binding_census@.len(),
            forall|k: int| 0 <= k < j ==> census_in_range(#[trigger] r.binding_census@[k]),
        decreases r.binding_census@.len() - j,
    {
        if r.binding_census[j].bound > usize::MAX / 100 || r.binding_census[j].tagged > usize::MAX
            / 100 {
            return false;
        }
        j = j + 1;
    }
    true
}

/// One TSV line of nine fields: eight tabs and no other line break before
/// its single final newline.
pub open spec fn nine_field_line(l: Seq<char>) -> bool {
    &&& l.len() > 0
    &&& l.last() == '\n'
    &&& count_of(l.drop_last(), '\t') == 8
    &&& count_of(l.drop_last(), '\n') == 0
    &&& count_of(l.drop_last(), '\r') == 0
}

/// Every line of `ls` has nine fields.
pub open spec fn all_nine_field(ls: Seq<Seq<char>>) -> bool {
    forall|i: int| 0 <= i < ls.len() ==> nine_field_line(#[trigger] ls[i])
}

/// The lines of the TSV projection: the header, then one line per record, in
/// the order of [`spec_render_tsv`].
pub open spec fn tsv_lines(r: CoverageReport) -> Seq<Seq<char>> {
    seq![tsv_header()]
        + r.unbacked_rows@.map_values(|x: UnbackedRow| unbacked_tsv(x))
        + r.status_lies@.map_values(|x: StatusLie| status_lie_tsv(x))
        + r.no_symbol_rows@.map_values(|x: NoSymbolRow| no_symbol_tsv(x))
        + r.undeclared_statuses@.map_values(|x: UndeclaredStatus| undeclared_tsv(x))
        + r.untracked_symbols@.map_values(|x: UntrackedSymbol| untracked_tsv(x))
        + r.diagnostics@.map_values(|x: CoverageDiagnostic| diagnostic_tsv(x))
        + r.obligations@.map_values(|x: Obligation| obligation_tsv(x))
        + r.implements@.map_values(|x: ImplementsRecord| implements_tsv(x))
}

/// How many records the report holds, over all its kinds.
pub open spec fn record_count(r: CoverageReport) -> nat {
    r.unbacked_rows@.len() + r.status_lies@.len() + r.no_symbol_rows@.len()
        + r.undeclared_statuses@.len() + r.untracked_symbols@.len() + r.diagnostics@.len()
        + r.obligations@.len() + r.implements@.len()
}

/// `concat` distributes over appending.
proof fn lemma_concat_add(a: Seq<Seq<char>>, b: Seq<Seq<char>>)
    ensures
        concat(a + b) == concat(a) + concat(b),
    decreases b.len(),
{
    if b.len() == 0 {
        assert(a + b =~= a);
        assert(concat(a) + concat(b) =~= concat(a));
    } else {
        assert((a + b).drop_last() =~= a + b.drop_last());
        lemma_concat_add(a, b.drop_last());
        assert((a + b).last() == b.last());
        assert(concat(a) + concat(b.drop_last()) + b.last() =~= concat(a) + (concat(b.drop_last())
            + b.last()));
    }
}

/// Nine-field lines stay nine-field lines when two lists are appended.
proof fn lemma_all_nine_field_add(a: Seq<Seq<char>>, b: Seq<Seq<char>>)
    requires
        all_nine_field(a),
        all_nine_field(b),
    ensures
        all_nine_field(a + b),
{
    assert forall|i: int| 0 <= i < (a + b).len() implies nine_field_line(#[trigger] (a + b)[i]) by {
        if i < a.len() {
            assert((a + b)[i] == a[i]);
        } else {
            assert((a + b)[i] == b[i - a.len()]);
        }
    }
}

/// Whether `kind` holds no tab or line break.
pub open spec fn clean_kind(kind: Seq<char>) -> bool {
    count_of(kind, '\t') == 0 && count_of(kind, '\n') == 0 && count_of(kind, '\r') == 0
}

/// The record kinds are clean.
proof fn lemma_kinds_are_clean()
    ensures
        clean_kind("unbacked-row"@),
        clean_kind("status-lie"@),
        clean_kind("no-symbol-row"@),
        clean_kind("undeclared-status"@),
        clean_kind("untracked-symbol"@),
        clean_kind("diagnostic"@),
        clean_kind("obligation"@),
        clean_kind("implements"@),
{
    lemma_clean_unbacked_row();
    lemma_clean_status_lie();
    lemma_clean_no_symbol_row();
    lemma_clean_undeclared_status();
    lemma_clean_untracked_symbol();
    lemma_clean_diagnostic();
    lemma_clean_obligation();
    lemma_clean_implements();
}

proof fn lemma_clean_unbacked_row()
    ensures
        clean_kind("unbacked-row"@),
{
    reveal_strlit("unbacked-row");
    reveal_with_fuel(count_of, 13);
}

proof fn lemma_clean_status_lie()
    ensures
        clean_kind("status-lie"@),
{
    reveal_strlit("status-lie");
    reveal_with_fuel(count_of, 11);
}

proof fn lemma_clean_no_symbol_row()
    ensures
        clean_kind("no-symbol-row"@),
{
    reveal_strlit("no-symbol-row");
    reveal_with_fuel(count_of, 14);
}

proof fn lemma_clean_undeclared_status()
    ensures
        clean_kind("undeclared-status"@),
{
    reveal_strlit("undeclared-status");
    reveal_with_fuel(count_of, 18);
}

proof fn lemma_clean_untracked_symbol()
    ensures
        clean_kind("untracked-symbol"@),
{
    reveal_strlit("untracked-symbol");
    reveal_with_fuel(count_of, 17);
}

proof fn lemma_clean_diagnostic()
    ensures
        clean_kind("diagnostic"@),
{
    reveal_strlit("diagnostic");
    reveal_with_fuel(count_of, 11);
}

proof fn lemma_clean_obligation()
    ensures
        clean_kind("obligation"@),
{
    reveal_strlit("obligation");
    reveal_with_fuel(count_of, 11);
}

proof fn lemma_clean_implements()
    ensures
        clean_kind("implements"@),
{
    reveal_strlit("implements");
    reveal_with_fuel(count_of, 11);
}

/// A record of a clean kind and eight cells is one nine-field line.
proof fn lemma_record_lines(kind: Seq<char>)
    requires
        clean_kind(kind),
    ensures
        forall|cells: Seq<Seq<char>>|
            cells.len() == 8 ==> nine_field_line(#[trigger] tsv_record(kind, cells)),
{
    assert forall|cells: Seq<Seq<char>>| cells.len() == 8 implies nine_field_line(
        #[trigger] tsv_record(kind, cells),
    ) by {
        law_tsv_record_shape(kind, cells);
    }
}

/// The header is one nine-field line.
proof fn lemma_header_line()
    ensures
        nine_field_line(tsv_header()),
{
    reveal_strlit("kind\tid\tdocument\treference\tstatus\tmethod\tline\ttargets\ttext\n");
    let h = tsv_header().drop_last();
    assert(h.len() == 58);
    let a = h.subrange(0, 13);
    let b = h.subrange(13, 26);
    let c = h.subrange(26, 39);
    let d = h.subrange(39, 52);
    let e = h.subrange(52, 58);
    assert(h =~= a + b + c + d + e);
    assert(count_of(a, '\t') == 2) by {
        reveal_with_fuel(count_of, 14);
    }
    assert(count_of(b, '\t') == 1) by {
        reveal_with_fuel(count_of, 14);
    }
    assert(count_of(c, '\t') == 2) by {
        reveal_with_fuel(count_of, 14);
    }
    assert(count_of(d, '\t') == 2) by {
        reveal_with_fuel(count_of, 14);
    }
    assert(count_of(e, '\t') == 1) by {
        reveal_with_fuel(count_of, 14);
    }
    lemma_count_of_add(a, b, '\t');
    lemma_count_of_add(a + b, c, '\t');
    lemma_count_of_add(a + b + c, d, '\t');
    lemma_count_of_add(a + b + c + d, e, '\t');
    assert(count_of(a, '\n') == 0) by {
        reveal_with_fuel(count_of, 14);
    }
    assert(count_of(b, '\n') == 0) by {
        reveal_with_fuel(count_of, 14);
    }
    assert(count_of(c, '\n') == 0) by {
        reveal_with_fuel(count_of, 14);
    }
    assert(count_of(d, '\n') == 0) by {
        reveal_with_fuel(count_of, 14);
    }
    assert(count_of(e, '\n') == 0) by {
        reveal_with_fuel(count_of, 14);
    }
    lemma_count_of_add(a, b, '\n');
    lemma_count_of_add(a + b, c, '\n');
    lemma_count_of_add(a + b + c, d, '\n');
    lemma_count_of_add(a + b + c + d, e, '\n');
    assert(count_of(a, '\r') == 0) by {
        reveal_with_fuel(count_of, 14);
    }
    assert(count_of(b, '\r') == 0) by {
        reveal_with_fuel(count_of, 14);
    }
    assert(count_of(c, '\r') == 0) by {
        reveal_with_fuel(count_of, 14);
    }
    assert(count_of(d, '\r') == 0) by {
        reveal_with_fuel(count_of, 14);
    }
    assert(count_of(e, '\r') == 0) by {
        reveal_with_fuel(count_of, 14);
    }
    lemma_count_of_add(a, b, '\r');
    lemma_count_of_add(a + b, c, '\r');
    lemma_count_of_add(a + b + c, d, '\r');
    lemma_count_of_add(a + b + c + d, e, '\r');
}

/// The TSV projection is the header and then one line per record, every
/// kind in its turn and each kind's records in order; every one of these
/// lines has exactly nine fields and one final newline, whatever tabs or line
/// breaks the records' fields hold.
pub proof fn law_render_tsv_is_a_header_then_one_line_per_record(r: CoverageReport)
    ensures
        spec_render_tsv(r) == concat(tsv_lines(r)),
        tsv_lines(r).len() == 1 + record_count(r),
        tsv_lines(r)[0] == tsv_header(),
        all_nine_field(tsv_lines(r)),
{
    lemma_kinds_are_clean();
    lemma_header_line();
    let h = seq![tsv_header()];
    assert(concat(h) == tsv_header()) by {
        assert(h.drop_last() =~= Seq::<Seq<char>>::empty());
        assert(concat(Seq::<Seq<char>>::empty()) =~= Seq::<char>::empty());
        assert(concat(h.drop_last()) =~= Seq::<char>::empty());
        assert(h.last() == tsv_header());
        assert(Seq::<char>::empty() + tsv_header() =~= tsv_header());
    }
    assert(all_nine_field(h));
    let m0 = r.unbacked_rows@.map_values(|x: UnbackedRow| unbacked_tsv(x));
    assert forall|i: int| 0 <= i < m0.len() implies nine_field_line(#[trigger] m0[i]) by {
        lemma_record_lines("unbacked-row"@);
    }
    lemma_concat_add(h, m0);
    lemma_all_nine_field_add(h, m0);
    let p0 = h + m0;
    let m1 = r.status_lies@.map_values(|x: StatusLie| status_lie_tsv(x));
    assert forall|i: int| 0 <= i < m1.len() implies nine_field_line(#[trigger] m1[i]) by {
        lemma_record_lines("status-lie"@);
    }
    lemma_concat_add(p0, m1);
    lemma_all_nine_field_add(p0, m1);
    let p1 = p0 + m1;
    let m2 = r.no_symbol_rows@.map_values(|x: NoSymbolRow| no_symbol_tsv(x));
    assert forall|i: int| 0 <= i < m2.len() implies nine_field_line(#[trigger] m2[i]) by {
        lemma_record_lines("no-symbol-row"@);
    }
    lemma_concat_add(p1, m2);
    lemma_all_nine_field_add(p1, m2);
    let p2 = p1 + m2;
    let m3 = r.undeclared_statuses@.map_values(|x: UndeclaredStatus| undeclared_tsv(x));
    assert forall|i: int| 0 <= i < m3.len() implies nine_field_line(#[trigger] m3[i]) by {
        lemma_record_lines("undeclared-status"@);
    }
    lemma_concat_add(p2, m3);
    lemma_all_nine_field_add(p2, m3);
    let p3 = p2 + m3;
    let m4 = r.untracked_symbols@.map_values(|x: UntrackedSymbol| untracked_tsv(x));
    assert forall|i: int| 0 <= i < m4.len() implies nine_field_line(#[trigger] m4[i]) by {
        lemma_record_lines("untracked-symbol"@);
    }
    lemma_concat_add(p3, m4);
    lemma_all_nine_field_add(p3, m4);
    let p4 = p3 + m4;
    let m5 = r.diagnostics@.map_values(|x: CoverageDiagnostic| diagnostic_tsv(x));
    assert forall|i: int| 0 <= i < m5.len() implies nine_field_line(#[trigger] m5[i]) by {
        lemma_record_lines("diagnostic"@);
    }
    lemma_concat_add(p4, m5);
    lemma_all_nine_field_add(p4, m5);
    let p5 = p4 + m5;
    let m6 = r.obligations@.map_values(|x: Obligation| obligation_tsv(x));
    assert forall|i: int| 0 <= i < m6.len() implies nine_field_line(#[trigger] m6[i]) by {
        lemma_record_lines("obligation"@);
    }
    lemma_concat_add(p5, m6);
    lemma_all_nine_field_add(p5, m6);
    let p6 = p5 + m6;
    let m7 = r.implements@.map_values(|x: ImplementsRecord| implements_tsv(x));
    assert forall|i: int| 0 <= i < m7.len() implies nine_field_line(#[trigger] m7[i]) by {
        lemma_record_lines("implements"@);
    }
    lemma_concat_add(p6, m7);
    lemma_all_nine_field_add(p6, m7);
    let p7 = p6 + m7;
    assert(tsv_lines(r) =~= p7);
}

/// Whether some kind has findings and is promoted to `error`.
pub open spec fn any_error_promoted(counts: FullCounts, levels: PackLevels) -> bool {
    ||| counts.unbacked_row > 0 && levels.unbacked_row == SeverityLevel::Error
    ||| counts.status_lie > 0 && levels.status_lie == SeverityLevel::Error
    ||| counts.untracked_symbol > 0 && levels.untracked_symbol == SeverityLevel::Error
    ||| counts.undeclared_status > 0 && levels.undeclared_status == SeverityLevel::Error
}

/// The exit verdict of a coverage run fails exactly where it should: any
/// kind with findings at severity `error` fails it; otherwise a run without
/// `--strict` passes, and a `--strict` run fails when the model matched no
/// row, and else exactly when some row is unbacked or some status is
/// contradicted (either alone is enough).
pub proof fn law_coverage_verdict_fails_exactly_on_gaps(
    counts: FullCounts,
    levels: PackLevels,
    strict: bool,
    total: usize,
)
    ensures
        any_error_promoted(counts, levels) ==> spec_verdict(counts, levels, strict, total) is Err,
        !any_error_promoted(counts, levels) && !strict ==> spec_verdict(
            counts,
            levels,
            strict,
            total,
        ) is Ok,
        !any_error_promoted(counts, levels) && strict && total == 0 ==> spec_verdict(
            counts,
            levels,
            strict,
            total,
        ) is Err,
        !any_error_promoted(counts, levels) && strict && total > 0 ==> (spec_verdict(
            counts,
            levels,
            strict,
            total,
        ) is Err <==> (counts.unbacked_row > 0 || counts.status_lie > 0)),
        !any_error_promoted(counts, levels) && strict && total > 0 && (counts.unbacked_row > 0
            || counts.status_lie > 0) ==> spec_verdict(counts, levels, strict, total) == Err::<
            (),
            Seq<char>,
        >(
            dec(counts.unbacked_row as nat) + " unbacked row(s) and "@ + dec(
                counts.status_lie as nat,
            ) + " contradicted status(es) (--strict)"@,
        ),
{
    let p = spec_promoted(counts, levels);
    assert(p.len() > 0 <==> any_error_promoted(counts, levels));
}

/// No `=` in `s`.
proof fn lemma_count_zero_means_absent(s: Seq<char>, c: char)
    requires
        count_of(s, c) == 0,
    ensures
        forall|i: int| 0 <= i < s.len() ==> #[trigger] s[i] != c,
    decreases s.len(),
{
    if s.len() > 0 {
        lemma_count_zero_means_absent(s.drop_last(), c);
        assert forall|i: int| 0 <= i < s.len() implies #[trigger] s[i] != c by {
            if i < s.len() - 1 {
                assert(s[i] == s.drop_last()[i]);
            }
        }
    }
}

/// The part of `c + rest` before the first `sep`, when `c` holds no `sep`
/// and `rest` starts with one, is `c`.
proof fn lemma_before_first_of(c: Seq<char>, rest: Seq<char>, sep: char)
    requires
        forall|i: int| 0 <= i < c.len() ==> #[trigger] c[i] != sep,
        rest.len() > 0,
        rest[0] == sep,
    ensures
        before_first(c + rest, sep) == c,
    decreases c.len(),
{
    if c.len() == 0 {
        assert(c + rest =~= rest);
    } else {
        assert((c + rest)[0] == c[0]);
        assert((c + rest).drop_first() =~= c.drop_first() + rest);
        assert forall|i: int| 0 <= i < c.drop_first().len() implies #[trigger] c.drop_first()[i]
            != sep by {
            assert(c.drop_first()[i] == c[i + 1]);
        }
        lemma_before_first_of(c.drop_first(), rest, sep);
        assert(seq![c[0]] + c.drop_first() =~= c);
    }
}

/// The pack's check names hold no `=`.
proof fn lemma_pack_names_have_no_equals(c: Seq<char>)
    requires
        c == "unbacked-row"@ || c == "status-lie"@ || c == "untracked-symbol"@ || c
            == "undeclared-status"@,
    ensures
        forall|i: int| 0 <= i < c.len() ==> #[trigger] c[i] != '=',
{
    reveal_strlit("unbacked-row");
    reveal_strlit("status-lie");
    reveal_strlit("untracked-symbol");
    reveal_strlit("undeclared-status");
    assert(count_of(c, '=') == 0) by {
        reveal_with_fuel(count_of, 18);
    }
    lemma_count_zero_means_absent(c, '=');
}

/// Every one of the pack's four checks is accepted: an entry
/// `coverage:<check>=<level>` naming unbacked-row, status-lie,
/// untracked-symbol or undeclared-status is never refused, whatever the
/// level, and a list of such entries (among entries for other grammars)
/// passes.
pub proof fn law_the_four_pack_checks_are_accepted(entries: Seq<Seq<char>>)
    requires
        forall|i: int|
            0 <= i < entries.len() ==> !"coverage:"@.is_prefix_of(#[trigger] entries[i]) || exists|
                c: Seq<char>,
                level: Seq<char>,
            |
                (c == "unbacked-row"@ || c == "status-lie"@ || c == "untracked-symbol"@ || c
                    == "undeclared-status"@) && entries[i] == "coverage:"@ + c + "="@ + level,
    ensures
        first_unknown_check(entries) is None,
    decreases entries.len(),
{
    if entries.len() > 0 {
        let e = entries[0];
        if "coverage:"@.is_prefix_of(e) {
            let (c, level) = choose|c: Seq<char>, level: Seq<char>|
                (c == "unbacked-row"@ || c == "status-lie"@ || c == "untracked-symbol"@ || c
                    == "undeclared-status"@) && e == "coverage:"@ + c + "="@ + level;
            reveal_strlit("coverage:");
            reveal_strlit("=");
            assert(e.skip(9) =~= c + ("="@ + level));
            lemma_pack_names_have_no_equals(c);
            lemma_before_first_of(c, "="@ + level, '=');
            assert(pack_entry_check(e) == Some(c));
        }
        assert(!names_unknown_check(e));
        assert forall|i: int| 0 <= i < entries.drop_first().len() implies (!"coverage:"@.is_prefix_of(
            #[trigger] entries.drop_first()[i],
        ) || exists|c: Seq<char>, level: Seq<char>|
            (c == "unbacked-row"@ || c == "status-lie"@ || c == "untracked-symbol"@ || c
                == "undeclared-status"@) && entries.drop_first()[i] == "coverage:"@ + c + "="@
                + level) by {
            assert(entries.drop_first()[i] == entries[i + 1]);
        }
        law_the_four_pack_checks_are_accepted(entries.drop_first());
    }
}

} // verus!
