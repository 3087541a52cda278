//! `quire symbols`: the extracted symbol table, as the engine built it.
//!
//! Without a module the table says what the walk found; with one, each record
//! also carries the trace ids it bound. An unbound run and an untagged
//! repository both show empty id lists, so the human form says which it is.
use vstd::prelude::*;

use crate::io::{emit_diagnostic, Diagnostics};
use crate::text::{chars_of, dec, push_dec, same_chars};
use crate::tsv::{concat, join, join_strings, texts};
use crate::coverage::lemma_concat_push;

verus! {

broadcast use vstd::string::group_string_axioms;

/// Output form of `quire symbols`.
#[derive(Debug, Clone, Copy, PartialEq, Eq, Structural)]
pub enum OutputFormat {
    Human,
    Json,
    Tsv,
}

/// `--format` when given, else JSON under `--json`, else human.
pub fn selected_format(format: Option<OutputFormat>, json: bool) -> (f: OutputFormat)
    ensures
        f == (match format {
            Some(g) => g,
            None => if json {
                OutputFormat::Json
            } else {
                OutputFormat::Human
            },
        }),
{
    match format {
        Some(f) => f,
        None => if json {
            OutputFormat::Json
        } else {
            OutputFormat::Human
        },
    }
}

/// One extracted symbol.
#[derive(Debug, Clone, PartialEq, Eq)]
pub struct SymbolRecord {
    pub path: String,
    pub line: usize,
    pub symbol: String,
    pub kind: String,
    pub language: String,
    /// Whether the symbol's kind could ever bind a trace id.
    pub binds_trace_ids: bool,
    pub trace_ids: Vec<String>,
}

/// The census of one language.
#[derive(Debug, Clone, PartialEq, Eq)]
pub struct LanguageCensus {
    pub language: String,
    pub symbols: usize,
    pub files: usize,
    /// Symbols whose kind can bind: the population a binding rate is drawn
    /// from.
    pub binding_kinds: usize,
    pub bound: usize,
}

/// The symbol table of one walk.
#[derive(Debug, Clone, PartialEq, Eq)]
pub struct SymbolTableReport {
    pub symbols: Vec<SymbolRecord>,
    pub by_language: Vec<LanguageCensus>,
    pub files: usize,
    pub excluded_source_files: usize,
}

/// `true` or `false`, as Rust prints a `bool`.
pub open spec fn bool_text(b: bool) -> Seq<char> {
    if b {
        "true"@
    } else {
        "false"@
    }
}

/// One TSV record: path, line, symbol, kind, language, whether it binds, and
/// its ids comma-joined.
pub open spec fn symbol_tsv(s: SymbolRecord) -> Seq<char> {
    s.path@ + "\t"@ + dec(s.line as nat) + "\t"@ + s.symbol@ + "\t"@ + s.kind@ + "\t"@ + s.language@
        + "\t"@ + bool_text(s.binds_trace_ids) + "\t"@ + join(texts(s.trace_ids@), ","@) + "\n"@
}

/// The TSV projection: one record per symbol, in order.
pub open spec fn spec_render_tsv(r: SymbolTableReport) -> Seq<char> {
    concat(r.symbols@.map_values(|s: SymbolRecord| symbol_tsv(s)))
}

/// One TSV record.
fn symbol_line(s: &SymbolRecord) -> (out: String)
    ensures
        out@ == symbol_tsv(*s),
{
    let mut out = String::from_str(s.path.as_str());
    out.append("\t");
    push_dec(&mut out, s.line);
    out.append("\t");
    out.append(s.symbol.as_str());
    out.append("\t");
    out.append(s.kind.as_str());
    out.append("\t");
    out.append(s.language.as_str());
    out.append("\t");
    out.append(if s.binds_trace_ids {
        "true"
    } else {
        "false"
    });
    out.append("\t");
    let ids = join_strings(&s.trace_ids, ",");
    out.append(ids.as_str());
    out.append("\n");
    out
}

/// Render the table as TSV.
pub fn render_tsv(report: &SymbolTableReport) -> (out: String)
    ensures
        out@ == spec_render_tsv(*report),
{
    let mut out = String::new();
    let mut i: usize = 0;
    while i < report.symbols.len()
        invariant
            i <= report.symbols@.len(),
            out@ == concat(
                report.symbols@.take(i as int).map_values(|s: SymbolRecord| symbol_tsv(s)),
            ),
        decreases report.symbols@.len() - i,
    {
        let line = symbol_line(&report.symbols[i]);
        out.append(line.as_str());
        proof {
            let f = |s: SymbolRecord| symbol_tsv(s);
            let x = symbol_tsv(report.symbols@[i as int]);
            assert(report.symbols@.take(i + 1).map_values(f) =~= report.symbols@.take(
                i as int,
            ).map_values(f).push(x));
            lemma_concat_push(report.symbols@.take(i as int).map_values(f), x);
        }
        i = i + 1;
    }
    assert(report.symbols@.take(i as int) =~= report.symbols@);
    out
}

/// `n` spaces.
pub open spec fn spaces(n: nat) -> Seq<char> {
    Seq::new(n, |i: int| ' ')
}

/// `{:<w}`: `s` followed by spaces up to `w` characters.
pub open spec fn pad_right(s: Seq<char>, w: nat) -> Seq<char> {
    if s.len() >= w {
        s
    } else {
        s + spaces((w - s.len()) as nat)
    }
}

/// `{:>w}`: spaces up to `w` characters, then `s`.
pub open spec fn pad_left(s: Seq<char>, w: nat) -> Seq<char> {
    if s.len() >= w {
        s
    } else {
        spaces((w - s.len()) as nat) + s
    }
}

/// Append `n` spaces.
fn push_spaces(out: &mut String, n: usize)
    ensures
        final(out)@ == old(out)@ + spaces(n as nat),
{
    let ghost start = out@;
    let mut i: usize = 0;
    while i < n
        invariant
            i <= n,
            out@ == start + spaces(i as nat),
        decreases n - i,
    {
        crate::text::push_char(out, ' ');
        i = i + 1;
        assert(out@ =~= start + spaces(i as nat));
    }
}

/// Append `s` left-aligned in a field of `w` characters.
fn push_padded_right(out: &mut String, s: &str, w: usize)
    ensures
        final(out)@ == old(out)@ + pad_right(s@, w as nat),
{
    let n = s.unicode_len();
    out.append(s);
    if n < w {
        push_spaces(out, w - n);
    } else {
        assert(pad_right(s@, w as nat) == s@);
    }
}

/// Append the decimal `n` right-aligned in a field of `w` characters.
fn push_padded_dec(out: &mut String, n: usize, w: usize)
    ensures
        final(out)@ == old(out)@ + pad_left(dec(n as nat), w as nat),
{
    let d = crate::text::dec_string(n);
    let len = d.as_str().unicode_len();
    if len < w {
        push_spaces(out, w - len);
    } else {
        assert(pad_left(dec(n as nat), w as nat) == dec(n as nat));
    }
    out.append(d.as_str());
}

/// The census line of one language: both denominators always, and the bound
/// count when ids were bound.
pub open spec fn census_line(l: LanguageCensus, bound: bool) -> Seq<char> {
    "  "@ + pad_right(l.language@, 11) + " "@ + pad_left(dec(l.symbols as nat), 6) + " symbols  "@
        + pad_left(dec(l.files as nat), 5) + " files  "@ + pad_left(dec(l.binding_kinds as nat), 5)
        + " can bind"@ + if bound {
        "  "@ + pad_left(dec(l.bound as nat), 5) + " bound"@
    } else {
        Seq::empty()
    }
}

/// The note of a run that bound no ids.
pub open spec fn unbound_note() -> Seq<char> {
    "  no --module: trace ids were not bound, so an empty `trace_ids` here means NOT ASKED rather than not tagged"@
}

/// The human summary, line by line: the totals, one line per language, the
/// unbound note when no module was given, and the excluded-file count when
/// any were excluded.
pub open spec fn spec_summary_lines(r: SymbolTableReport, bound: bool) -> Seq<Seq<char>> {
    seq![dec(r.symbols@.len()) + " symbol(s) over "@ + dec(r.files as nat) + " file(s)"@]
        + r.by_language@.map_values(|l: LanguageCensus| census_line(l, bound)) + (if !bound {
        seq![unbound_note()]
    } else {
        Seq::empty()
    }) + if r.excluded_source_files > 0 {
        seq![
            "  "@ + dec(r.excluded_source_files as nat)
                + " source file(s) removed by a declared `source_exclude` glob"@,
        ]
    } else {
        Seq::empty()
    }
}

/// One language's census line.
fn census_text(l: &LanguageCensus, bound: bool) -> (s: String)
    ensures
        s@ == census_line(*l, bound),
{
    let mut s = String::from_str("  ");
    push_padded_right(&mut s, l.language.as_str(), 11);
    s.append(" ");
    push_padded_dec(&mut s, l.symbols, 6);
    s.append(" symbols  ");
    push_padded_dec(&mut s, l.files, 5);
    s.append(" files  ");
    push_padded_dec(&mut s, l.binding_kinds, 5);
    s.append(" can bind");
    let ghost head = s@;
    if bound {
        s.append("  ");
        push_padded_dec(&mut s, l.bound, 5);
        s.append(" bound");
    } else {
        assert(s@ =~= head + Seq::<char>::empty());
    }
    s
}

/// The human summary lines.
pub fn summary_lines(report: &SymbolTableReport, bound: bool) -> (out: Vec<String>)
    ensures
        texts(out@) == spec_summary_lines(*report, bound),
{
    let mut out: Vec<String> = Vec::new();
    let mut first = String::new();
    push_dec(&mut first, report.symbols.len());
    first.append(" symbol(s) over ");
    push_dec(&mut first, report.files);
    first.append(" file(s)");
    out.push(first);
    let ghost head = texts(out@);
    assert(head =~= seq![dec(report.symbols@.len()) + " symbol(s) over "@ + dec(report.files as nat) + " file(s)"@]);
    let mut i: usize = 0;
    while i < report.by_language.len()
        invariant
            i <= report.by_language@.len(),
            texts(out@) == head + report.by_language@.take(i as int).map_values(
                |l: LanguageCensus| census_line(l, bound),
            ),
        decreases report.by_language@.len() - i,
    {
        let line = census_text(&report.by_language[i], bound);
        let ghost before = out@;
        out.push(line);
        assert(texts(out@) =~= texts(before).push(census_line(report.by_language@[i as int], bound)));
        assert(report.by_language@.take(i + 1).map_values(|l: LanguageCensus| census_line(l, bound))
            =~= report.by_language@.take(i as int).map_values(
            |l: LanguageCensus| census_line(l, bound),
        ).push(census_line(report.by_language@[i as int], bound)));
        i = i + 1;
    }
    assert(report.by_language@.take(i as int) =~= report.by_language@);
    let ghost mid = texts(out@);
    if !bound {
        out.push(String::from_str(
            "  no --module: trace ids were not bound, so an empty `trace_ids` here means NOT ASKED rather than not tagged",
        ));
    }
    let ghost mid2 = texts(out@);
    assert(mid2 =~= mid + (if !bound {
        seq![unbound_note()]
    } else {
        Seq::<Seq<char>>::empty()
    }));
    if report.excluded_source_files > 0 {
        let mut e = String::from_str("  ");
        push_dec(&mut e, report.excluded_source_files);
        e.append(" source file(s) removed by a declared `source_exclude` glob");
        let ghost before = out@;
        out.push(e);
        assert(texts(out@) =~= texts(before).push(e@));
    }
    assert(texts(out@) =~= mid2 + (if report.excluded_source_files > 0 {
        seq![
            "  "@ + dec(report.excluded_source_files as nat)
                + " source file(s) removed by a declared `source_exclude` glob"@,
        ]
    } else {
        Seq::<Seq<char>>::empty()
    }));
    assert(texts(out@) =~= spec_summary_lines(*report, bound));
    out
}

/// Emit the human summary as one `SymbolTable` diagnostic, its lines joined
/// by newlines.
pub fn emit_human(diagnostics: Diagnostics, report: &SymbolTableReport, bound: bool) {
    let lines = summary_lines(report, bound);
    let text = join_strings(&lines, "\n");
    emit_diagnostic(diagnostics, "SymbolTable", text.as_str());
}

/// The symbols in `language`, in order.
pub open spec fn symbols_in(v: Seq<SymbolRecord>, language: Seq<char>) -> Seq<SymbolRecord>
    decreases v.len(),
{
    if v.len() == 0 {
        Seq::empty()
    } else if v.last().language@ == language {
        symbols_in(v.drop_last(), language).push(v.last())
    } else {
        symbols_in(v.drop_last(), language)
    }
}

/// The language censuses of `language`, in order.
pub open spec fn census_in(v: Seq<LanguageCensus>, language: Seq<char>) -> Seq<LanguageCensus>
    decreases v.len(),
{
    if v.len() == 0 {
        Seq::empty()
    } else if v.last().language@ == language {
        census_in(v.drop_last(), language).push(v.last())
    } else {
        census_in(v.drop_last(), language)
    }
}

/// `--language`: keep only that language's symbols and census, so the census
/// narrows with the records.
pub fn retain_language(report: &mut SymbolTableReport, language: &str)
    ensures
        final(report).symbols@ == symbols_in(old(report).symbols@, language@),
        final(report).by_language@ == census_in(old(report).by_language@, language@),
        final(report).files == old(report).files,
        final(report).excluded_source_files == old(report).excluded_source_files,
{
    let want = chars_of(language);
    let mut rest: Vec<SymbolRecord> = Vec::new();
    std::mem::swap(&mut rest, &mut report.symbols);
    let ghost all = rest@;
    let total = rest.len();
    let mut symbols: Vec<SymbolRecord> = Vec::new();
    let mut i: usize = 0;
    while rest.len() > 0
        invariant
            i <= all.len(),
            all.len() == total,
            rest@ == all.skip(i as int),
            want@ == language@,
            symbols@ == symbols_in(all.take(i as int), language@),
        decreases rest@.len(),
    {
        let s = rest.remove(0);
        assert(s == all[i as int]);
        assert(all.take(i + 1).drop_last() =~= all.take(i as int));
        assert(all.take(i + 1).last() == s);
        assert(rest@ =~= all.skip(i + 1));
        let l = chars_of(s.language.as_str());
        if same_chars(&l, &want) {
            symbols.push(s);
        }
        i = i + 1;
    }
    assert(all.take(i as int) =~= all);
    let mut crest: Vec<LanguageCensus> = Vec::new();
    std::mem::swap(&mut crest, &mut report.by_language);
    let ghost cs = crest@;
    let ctotal = crest.len();
    let mut census: Vec<LanguageCensus> = Vec::new();
    let mut j: usize = 0;
    while crest.len() > 0
        invariant
            j <= cs.len(),
            cs.len() == ctotal,
            crest@ == cs.skip(j as int),
            want@ == language@,
            census@ == census_in(cs.take(j as int), language@),
        decreases crest@.len(),
    {
        let c = crest.remove(0);
        assert(c == cs[j as int]);
        assert(cs.take(j + 1).drop_last() =~= cs.take(j as int));
        assert(cs.take(j + 1).last() == c);
        assert(crest@ =~= cs.skip(j + 1));
        let l = chars_of(c.language.as_str());
        if same_chars(&l, &want) {
            census.push(c);
        }
        j = j + 1;
    }
    assert(cs.take(j as int) =~= cs);
    report.symbols = symbols;
    report.by_language = census;
}

} // verus!
