//! `quire trace` — claims and citations of a trace-search query.
//!
//! Claims (`verifies`/`implements`) and citations (id-shaped text that binds
//! nothing) are never one list: they live in separate subtrees of the report
//! and separate, visually distinct human sections, the second headed
//! `Citations (N) — NOT verification evidence`.
use vstd::prelude::*;

use crate::io::{emit_notices, emit_results, notice_views, Diagnostics, Notice};
use crate::text::{chars_of, dec, has_prefix, push_dec, same_chars, after_first_chars};
use crate::lookup::ascii_lower;
use crate::tsv::{concat, opt_str, opt_text, push_clean, tabbed, texts, tsv_record};
use crate::coverage::lemma_concat_push;

verus! {

broadcast use vstd::string::group_string_axioms;

/// Output form.
#[derive(Debug, Clone, Copy, PartialEq, Eq, Structural)]
pub enum OutputFormat {
    Human,
    Json,
    Tsv,
}

/// The `quire trace` arguments.
#[derive(Debug)]
pub struct Args {
    pub scope: String,
    pub module: Vec<String>,
    pub id: Option<String>,
    pub symbol: Option<String>,
    pub file: Option<String>,
    pub prefix: bool,
    pub exclude_path: Vec<String>,
    pub json: bool,
    pub format: Option<OutputFormat>,
}

/// A trace-search query.
#[derive(Debug, PartialEq, Eq)]
pub enum Query {
    Id(String),
    Symbol { path: String, qualified_name: String },
    SymbolName(String),
    File(String),
}

/// What was asked, echoed back in the report.
#[derive(Debug)]
pub enum QueryDescription {
    Id { id: String, prefix: bool, matched_ids: Vec<String> },
    Symbol { path: String, qualified_name: String },
    SymbolName { name: String },
    File { path: String },
}

/// A `verifies` claim.
#[derive(Debug)]
pub struct VerifiesRecord {
    pub trace_id: String,
    pub symbol: String,
    pub path: String,
    pub line: usize,
    pub form: String,
    pub provenance: String,
    pub language: Option<String>,
    pub confidence: Option<String>,
}

/// An `implements` claim.
#[derive(Debug)]
pub struct ImplementsRecord {
    pub trace_id: String,
    pub symbol: String,
    pub path: String,
    pub form: String,
    pub language: Option<String>,
    pub confidence: Option<String>,
}

/// Both claim kinds.
#[derive(Debug)]
pub struct ClaimsSection {
    pub verifies: Vec<VerifiesRecord>,
    pub implements: Vec<ImplementsRecord>,
}

/// A non-claim citation. Never evidence.
#[derive(Debug)]
pub struct CitationRecord {
    pub trace_id: String,
    pub path: String,
    pub symbol: Option<String>,
    pub kind: Option<String>,
    pub bucket: String,
    pub line: usize,
    pub excerpt: String,
    pub language: String,
    pub confidence: String,
}

/// The full report of one query.
#[derive(Debug)]
pub struct TraceReport {
    pub query: QueryDescription,
    pub resolved: bool,
    pub claims: ClaimsSection,
    pub citations: Vec<CitationRecord>,
    pub ambiguous_matches: Vec<String>,
    pub citations_excluded_by_path_filter: usize,
}

/// How many of `--id`, `--symbol`, `--file` were given.
pub open spec fn selector_count(id: bool, symbol: bool, file: bool) -> nat {
    (if id { 1nat } else { 0nat }) + (if symbol { 1nat } else { 0nat }) + (if file {
        1nat
    } else {
        0nat
    })
}

/// Exactly one of `--id`, `--symbol`, `--file` is required.
pub fn check_selectors(args: &Args) -> (r: Result<(), String>)
    ensures
        r is Ok <==> selector_count(args.id is Some, args.symbol is Some, args.file is Some) == 1,
        r matches Err(m) ==> m@ == "trace requires exactly one of --id, --symbol, or --file"@,
{
    let mut n: usize = 0;
    if args.id.is_some() {
        n = n + 1;
    }
    if args.symbol.is_some() {
        n = n + 1;
    }
    if args.file.is_some() {
        n = n + 1;
    }
    if n != 1 {
        return Err(String::from_str("trace requires exactly one of --id, --symbol, or --file"));
    }
    Ok(())
}

/// The output form an invocation selects.
pub fn selected_format(format: Option<OutputFormat>, json: bool) -> (f: OutputFormat)
    ensures
        f == match format {
            Some(f) => f,
            None => if json {
                OutputFormat::Json
            } else {
                OutputFormat::Human
            },
        },
{
    match format {
        Some(f) => f,
        None => if json {
            OutputFormat::Json
        } else {
            OutputFormat::Human
        },
    }
}

/// `char::is_ascii_alphanumeric`.
pub open spec fn is_ascii_alnum(c: char) -> bool {
    ('0' <= c && c <= '9') || ('a' <= c && c <= 'z') || ('A' <= c && c <= 'Z')
}

/// The segments of `s` still to be read, `cur` being the segment under way:
/// maximal runs of ASCII alphanumerics, ASCII-lower-cased; every other
/// character only separates.
pub open spec fn segments_from(s: Seq<char>, cur: Seq<char>) -> Seq<Seq<char>>
    decreases s.len(),
{
    if s.len() == 0 {
        if cur.len() > 0 {
            seq![cur]
        } else {
            Seq::empty()
        }
    } else if is_ascii_alnum(s[0]) {
        segments_from(s.drop_first(), cur.push(ascii_lower(s[0])))
    } else {
        let rest = segments_from(s.drop_first(), Seq::empty());
        if cur.len() > 0 {
            seq![cur] + rest
        } else {
            rest
        }
    }
}

/// The normalized form of a trace id: its alphanumeric segments with ASCII
/// case folded, so that `FR-950`, `fr_950` and `FR-950-` read alike.
pub open spec fn id_segments(s: Seq<char>) -> Seq<Seq<char>> {
    segments_from(s, Seq::empty())
}

/// Prefix match on a separator boundary, over normalized ids: the query's
/// segments open the candidate's — `FR-047` matches `FR-047-AC-1` and
/// `fr_047`, never `FR-0470`; a query with no segment matches nothing.
pub open spec fn spec_prefix_matches(candidate: Seq<char>, prefix: Seq<char>) -> bool {
    let q = id_segments(prefix);
    q.len() > 0 && q.is_prefix_of(id_segments(candidate))
}

/// A trailing non-alphanumeric character closes the segment under way and
/// adds none.
proof fn lemma_segments_ignore_a_trailing_separator(s: Seq<char>, cur: Seq<char>, sep: char)
    requires
        !is_ascii_alnum(sep),
    ensures
        segments_from(s.push(sep), cur) == segments_from(s, cur),
    decreases s.len(),
{
    if s.len() == 0 {
        assert(seq![sep].drop_first() =~= Seq::<char>::empty());
        assert(s.push(sep) =~= seq![sep]);
        assert(segments_from(Seq::<char>::empty(), Seq::empty()) =~= Seq::<Seq<char>>::empty());
        if cur.len() > 0 {
            assert(seq![cur] + Seq::<Seq<char>>::empty() =~= seq![cur]);
        }
    } else {
        assert(s.push(sep).drop_first() =~= s.drop_first().push(sep));
        assert(s.push(sep)[0] == s[0]);
        if is_ascii_alnum(s[0]) {
            lemma_segments_ignore_a_trailing_separator(
                s.drop_first(),
                cur.push(ascii_lower(s[0])),
                sep,
            );
        } else {
            lemma_segments_ignore_a_trailing_separator(s.drop_first(), Seq::empty(), sep);
        }
    }
}

/// A prefix query reads ids as they normalize: two candidates, or two
/// queries, that fold to the same segments (case, and `-` against `_`) are
/// matched alike.
pub proof fn law_prefix_matching_reads_normalized_ids(
    c1: Seq<char>,
    c2: Seq<char>,
    p1: Seq<char>,
    p2: Seq<char>,
)
    requires
        id_segments(c1) == id_segments(c2),
        id_segments(p1) == id_segments(p2),
    ensures
        spec_prefix_matches(c1, p1) == spec_prefix_matches(c2, p2),
{
}

/// A trailing separator on the query changes nothing: `FR-950-` matches
/// exactly what `FR-950` matches.
pub proof fn law_a_trailing_separator_changes_nothing(c: Seq<char>, p: Seq<char>, sep: char)
    requires
        !is_ascii_alnum(sep),
    ensures
        spec_prefix_matches(c, p.push(sep)) == spec_prefix_matches(c, p),
{
    lemma_segments_ignore_a_trailing_separator(p, Seq::empty(), sep);
}

/// The normalized segments of `s`, as [`id_segments`] defines them.
fn segments_of(s: &str) -> (out: Vec<Vec<char>>)
    ensures
        out.deep_view() == id_segments(s@),
{
    let c = chars_of(s);
    let mut out: Vec<Vec<char>> = Vec::new();
    let mut cur: Vec<char> = Vec::new();
    let mut i: usize = 0;
    assert(c@.skip(0) =~= c@);
    while i < c.len()
        invariant
            i <= c@.len(),
            c@ == s@,
            out.deep_view() + segments_from(c@.skip(i as int), cur@) == id_segments(s@),
        decreases c@.len() - i,
    {
        let ghost rest = c@.skip((i + 1) as int);
        assert(c@.skip(i as int).drop_first() =~= rest);
        assert(c@.skip(i as int)[0] == c@[i as int]);
        let ch = c[i];
        if ('0' <= ch && ch <= '9') || ('a' <= ch && ch <= 'z') || ('A' <= ch && ch <= 'Z') {
            let l = crate::lookup::to_ascii_lower(ch);
            cur.push(l);
        } else {
            if cur.len() > 0 {
                let ghost before = out.deep_view();
                let ghost old_v = out@;
                let ghost seg = cur@;
                let done = cur;
                cur = Vec::new();
                out.push(done);
                assert forall|j: int| 0 <= j < out@.len() implies #[trigger] out.deep_view()[j]
                    == before.push(seg)[j] by {
                    if j < old_v.len() {
                        assert(out@[j] == old_v[j]);
                    }
                }
                assert(out.deep_view() =~= before.push(seg));
                assert(before + (seq![seg] + segments_from(rest, Seq::empty())) =~= before.push(seg)
                    + segments_from(rest, Seq::empty()));
            }
            assert(cur@ =~= Seq::<char>::empty());
        }
        i = i + 1;
    }
    if cur.len() > 0 {
        let ghost before = out.deep_view();
        let ghost old_v = out@;
        let ghost seg = cur@;
        out.push(cur);
        assert forall|j: int| 0 <= j < out@.len() implies #[trigger] out.deep_view()[j]
            == before.push(seg)[j] by {
            if j < old_v.len() {
                assert(out@[j] == old_v[j]);
            }
        }
        assert(out.deep_view() =~= before.push(seg));
        assert(before + seq![seg] =~= before.push(seg));
    } else {
        assert(out.deep_view() + Seq::<Seq<char>>::empty() =~= out.deep_view());
    }
    out
}

/// Prefix match on a separator boundary, case and separator folded.
pub fn prefix_matches(candidate: &str, prefix: &str) -> (r: bool)
    ensures
        r == spec_prefix_matches(candidate@, prefix@),
{
    let q = segments_of(prefix);
    let c = segments_of(candidate);
    if q.len() == 0 || q.len() > c.len() {
        return false;
    }
    let mut i: usize = 0;
    while i < q.len()
        invariant
            i <= q@.len() <= c@.len(),
            q.deep_view() == id_segments(prefix@),
            c.deep_view() == id_segments(candidate@),
            forall|j: int| 0 <= j < i ==> q.deep_view()[j] == c.deep_view()[j],
        decreases q@.len() - i,
    {
        assert(q.deep_view()[i as int] == q[i as int]@);
        assert(c.deep_view()[i as int] == c[i as int]@);
        if !same_chars(&q[i], &c[i]) {
            return false;
        }
        i = i + 1;
    }
    assert(q.deep_view() =~= c.deep_view().subrange(0, q.deep_view().len() as int));
    true
}

/// `{path}#{qualified_name}` with both sides non-empty becomes an exact
/// symbol query; anything else is a bare name.
pub open spec fn spec_symbol_query_parts(raw: Seq<char>) -> Option<(Seq<char>, Seq<char>)> {
    let path = crate::text::before_first(raw, '#');
    match crate::text::after_first(raw, '#') {
        Some(name) => if path.len() > 0 && name.len() > 0 {
            Some((path, name))
        } else {
            None
        },
        None => None,
    }
}

/// Parse `--symbol`: `{path}#{qualified_name}` splits at the first `#` into
/// an exact symbol query; no `#`, or an empty side, is a bare name.
pub fn parse_symbol_query(raw: &str) -> (q: Query)
    ensures
        match spec_symbol_query_parts(raw@) {
            Some((path, name)) => q matches Query::Symbol { path: p, qualified_name: n } && p@
                == path && n@ == name,
            None => q matches Query::SymbolName(n) && n@ == raw@,
        },
{
    let r = chars_of(raw);
    let path = crate::text::before_first_chars(&r, '#');
    match after_first_chars(&r, '#') {
        Some(name) => {
            if path.len() > 0 && name.len() > 0 {
                return Query::Symbol {
                    path: crate::text::string_of(&path),
                    qualified_name: crate::text::string_of(&name),
                };
            }
        },
        None => {},
    }
    Query::SymbolName(String::from_str(raw))
}

/// The search a `trace` run makes: every id continuing a prefix, or one
/// exact query.
#[derive(Debug)]
pub enum QueryPlan {
    Prefix(String),
    Exact(Query),
}

/// Which search the selectors ask for: `--id` (a prefix search with
/// `--prefix`), else `--symbol` as [`parse_symbol_query`] reads it, else
/// `--file` (empty when absent).
pub fn plan_query(args: &Args) -> (plan: QueryPlan)
    ensures
        args.id matches Some(id) ==> (if args.prefix {
            plan matches QueryPlan::Prefix(p) && p@ == id@
        } else {
            plan matches QueryPlan::Exact(Query::Id(q)) && q@ == id@
        }),
        args.id is None ==> (args.symbol matches Some(sym) ==> match spec_symbol_query_parts(
            sym@,
        ) {
            Some((path, name)) => plan matches QueryPlan::Exact(
                Query::Symbol { path: p, qualified_name: n },
            ) && p@ == path && n@ == name,
            None => plan matches QueryPlan::Exact(Query::SymbolName(n)) && n@ == sym@,
        }),
        args.id is None && args.symbol is None ==> (plan matches QueryPlan::Exact(Query::File(f))
            && f@ == (match args.file {
            Some(f) => f@,
            None => Seq::<char>::empty(),
        })),
{
    match &args.id {
        Some(id) => {
            if args.prefix {
                QueryPlan::Prefix(String::from_str(id.as_str()))
            } else {
                QueryPlan::Exact(Query::Id(String::from_str(id.as_str())))
            }
        },
        None => match &args.symbol {
            Some(sym) => QueryPlan::Exact(parse_symbol_query(sym.as_str())),
            None => match &args.file {
                Some(f) => QueryPlan::Exact(Query::File(String::from_str(f.as_str()))),
                None => {
                    proof {
                        reveal_strlit("");
                    }
                    QueryPlan::Exact(Query::File(String::from_str("")))
                },
            },
        },
    }
}

/// The query as the report echoes it.
pub fn describe_query(query: &Query) -> (d: QueryDescription)
    ensures
        match *query {
            Query::Id(id) => d matches QueryDescription::Id { id: i, prefix, matched_ids } && i@
                == id@ && !prefix && matched_ids@.len() == 0,
            Query::Symbol { path, qualified_name } => d matches QueryDescription::Symbol {
                path: p,
                qualified_name: n,
            } && p@ == path@ && n@ == qualified_name@,
            Query::SymbolName(name) => d matches QueryDescription::SymbolName { name: n } && n@
                == name@,
            Query::File(path) => d matches QueryDescription::File { path: p } && p@ == path@,
        },
{
    match query {
        Query::Id(id) => QueryDescription::Id {
            id: String::from_str(id.as_str()),
            prefix: false,
            matched_ids: Vec::new(),
        },
        Query::Symbol { path, qualified_name } => QueryDescription::Symbol {
            path: String::from_str(path.as_str()),
            qualified_name: String::from_str(qualified_name.as_str()),
        },
        Query::SymbolName(name) => QueryDescription::SymbolName {
            name: String::from_str(name.as_str()),
        },
        Query::File(path) => QueryDescription::File { path: String::from_str(path.as_str()) },
    }
}

/// The confidence trailer of a claim line.
pub open spec fn spec_confidence_suffix(confidence: Option<Seq<char>>) -> Seq<char> {
    match confidence {
        Some(c) => " ("@ + c + ")"@,
        None => " (language unknown)"@,
    }
}

/// The optional text of an optional string.
pub open spec fn opt_seq(o: Option<String>) -> Option<Seq<char>> {
    match o {
        Some(s) => Some(s@),
        None => None,
    }
}

/// ` (structural)`, or ` (language unknown)` when the language could not be
/// joined back.
pub fn confidence_suffix(confidence: &Option<String>) -> (s: String)
    ensures
        s@ == spec_confidence_suffix(opt_seq(*confidence)),
{
    match confidence {
        Some(c) => {
            let mut s = String::from_str(" (");
            s.append(c.as_str());
            s.append(")");
            s
        },
        None => String::from_str(" (language unknown)"),
    }
}

/// Whether a result set holds at least one record whose confidence is
/// `line_heuristic` — read off the records, never off a list of languages.
pub open spec fn spec_has_line_heuristic(r: TraceReport, token: Seq<char>) -> bool {
    (exists|i: int|
        0 <= i < r.claims.verifies@.len() && opt_seq(#[trigger] r.claims.verifies@[i].confidence)
            == Some(token)) || (exists|i: int|
        0 <= i < r.claims.implements@.len() && opt_seq(
            #[trigger] r.claims.implements@[i].confidence,
        ) == Some(token)) || (exists|i: int|
        0 <= i < r.citations@.len() && (#[trigger] r.citations@[i]).confidence@ == token)
}

/// Whether an optional string holds exactly `token`.
fn is_token(o: &Option<String>, token: &[char]) -> (r: bool)
    ensures
        r == (opt_seq(*o) == Some(token@)),
{
    match o {
        Some(s) => {
            let c = chars_of(s.as_str());
            same_chars(&c, token)
        },
        None => false,
    }
}

/// Whether the report holds a record of confidence `line_heuristic`, the
/// token the engine names that confidence by.
pub fn has_line_heuristic_record(report: &TraceReport, line_heuristic: &str) -> (r: bool)
    ensures
        r == spec_has_line_heuristic(*report, line_heuristic@),
{
    let token = chars_of(line_heuristic);
    let mut i: usize = 0;
    while i < report.claims.verifies.len()
        invariant
            i <= report.claims.verifies@.len(),
            token@ == line_heuristic@,
            forall|j: int|
                0 <= j < i ==> opt_seq(#[trigger] report.claims.verifies@[j].confidence) != Some(
                    token@,
                ),
        decreases report.claims.verifies@.len() - i,
    {
        if is_token(&report.claims.verifies[i].confidence, &token) {
            return true;
        }
        i = i + 1;
    }
    let mut i: usize = 0;
    while i < report.claims.implements.len()
        invariant
            i <= report.claims.implements@.len(),
            token@ == line_heuristic@,
            forall|j: int|
                0 <= j < i ==> opt_seq(#[trigger] report.claims.implements@[j].confidence) != Some(
                    token@,
                ),
        decreases report.claims.implements@.len() - i,
    {
        if is_token(&report.claims.implements[i].confidence, &token) {
            return true;
        }
        i = i + 1;
    }
    let mut i: usize = 0;
    while i < report.citations.len()
        invariant
            i <= report.citations@.len(),
            token@ == line_heuristic@,
            forall|j: int| 0 <= j < i ==> (#[trigger] report.citations@[j]).confidence@ != token@,
        decreases report.citations@.len() - i,
    {
        let c = chars_of(report.citations[i].confidence.as_str());
        if same_chars(&c, &token) {
            return true;
        }
        i = i + 1;
    }
    false
}

// ---------------------------------------------------------------------------
// TSV
// ---------------------------------------------------------------------------

/// The texts of seven cells.
pub open spec fn cell_views7(cells: [&str; 7]) -> Seq<Seq<char>> {
    seq![cells[0]@, cells[1]@, cells[2]@, cells[3]@, cells[4]@, cells[5]@, cells[6]@]
}

/// One TSV record: the kind, then the seven fixed data cells.
pub fn tsv_line(kind: &str, cells: [&str; 7]) -> (out: String)
    ensures
        out@ == tsv_record(kind@, cell_views7(cells)),
{
    let ghost views = cell_views7(cells);
    assert(views =~= cells@.map_values(|c: &str| c@));
    let mut line = String::from_str(kind);
    let mut i: usize = 0;
    while i < 7
        invariant
            i <= 7,
            views == cells@.map_values(|c: &str| c@),
            cells@.len() == 7,
            line@ == kind@ + tabbed(views.take(i as int)),
        decreases 7 - i,
    {
        crate::text::push_char(&mut line, '\t');
        push_clean(&mut line, cells[i]);
        assert(views.take(i + 1).drop_last() =~= views.take(i as int));
        i = i + 1;
    }
    assert(views.take(7) =~= views);
    crate::text::push_char(&mut line, '\n');
    line
}

pub open spec fn empty_cell() -> Seq<char> {
    Seq::<char>::empty()
}

pub open spec fn verifies_tsv(v: VerifiesRecord) -> Seq<char> {
    tsv_record(
        "verifies"@,
        seq![v.trace_id@, v.path@, dec(v.line as nat), v.symbol@, v.form@, opt_text(v.language), opt_text(v.confidence)],
    )
}

pub open spec fn implements_tsv(i: ImplementsRecord) -> Seq<char> {
    tsv_record(
        "implements"@,
        seq![i.trace_id@, i.path@, empty_cell(), i.symbol@, i.form@, opt_text(i.language), opt_text(i.confidence)],
    )
}

pub open spec fn citation_tsv(c: CitationRecord) -> Seq<char> {
    tsv_record(
        "citation"@,
        seq![c.trace_id@, c.path@, dec(c.line as nat), opt_text(c.symbol), c.bucket@, c.language@, c.confidence@],
    )
}

/// One record per line under the header `kind trace_id path line symbol
/// form language confidence`.
pub open spec fn spec_render_tsv(r: TraceReport) -> Seq<char> {
    "kind\ttrace_id\tpath\tline\tsymbol\tform\tlanguage\tconfidence\n"@ + concat(
        r.claims.verifies@.map_values(|v: VerifiesRecord| verifies_tsv(v)),
    ) + concat(r.claims.implements@.map_values(|i: ImplementsRecord| implements_tsv(i)))
        + concat(r.citations@.map_values(|c: CitationRecord| citation_tsv(c)))
}

/// The tab-separated projection of a trace report.
pub fn render_tsv(report: &TraceReport) -> (out: String)
    ensures
        out@ == spec_render_tsv(*report),
{
    let mut out = String::from_str("kind\ttrace_id\tpath\tline\tsymbol\tform\tlanguage\tconfidence\n");

    let ghost s0 = out@;
    let mut i: usize = 0;
    while i < report.claims.verifies.len()
        invariant
            i <= report.claims.verifies@.len(),
            out@ == s0 + concat(
                report.claims.verifies@.take(i as int).map_values(
                    |v: VerifiesRecord| verifies_tsv(v),
                ),
            ),
        decreases report.claims.verifies@.len() - i,
    {
        let v = &report.claims.verifies[i];
        let line_no = crate::text::dec_string(v.line);
        let c0 = v.trace_id.as_str();
        let c1 = v.path.as_str();
        let c2 = line_no.as_str();
        let c3 = v.symbol.as_str();
        let c4 = v.form.as_str();
        let c5 = opt_str(&v.language);
        let c6 = opt_str(&v.confidence);
        let arr = [c0, c1, c2, c3, c4, c5, c6];
        assert(cell_views7(arr) =~= seq![c0@, c1@, c2@, c3@, c4@, c5@, c6@]);
        let line = tsv_line("verifies", arr);
        assert(line@ == verifies_tsv(*v));
        out.append(line.as_str());
        proof {
            let f = |v: VerifiesRecord| verifies_tsv(v);
            assert(report.claims.verifies@.take(i + 1).map_values(f)
                =~= report.claims.verifies@.take(i as int).map_values(f).push(verifies_tsv(*v)));
            lemma_concat_push(report.claims.verifies@.take(i as int).map_values(f), verifies_tsv(*v));
        }
        i = i + 1;
    }
    assert(report.claims.verifies@.take(i as int) =~= report.claims.verifies@);

    let ghost s1 = out@;
    let mut i: usize = 0;
    while i < report.claims.implements.len()
        invariant
            i <= report.claims.implements@.len(),
            out@ == s1 + concat(
                report.claims.implements@.take(i as int).map_values(
                    |x: ImplementsRecord| implements_tsv(x),
                ),
            ),
        decreases report.claims.implements@.len() - i,
    {
        let r = &report.claims.implements[i];
        proof {
            reveal_strlit("");
            assert(""@ =~= empty_cell());
        }
        let c0 = r.trace_id.as_str();
        let c1 = r.path.as_str();
        let c2 = "";
        let c3 = r.symbol.as_str();
        let c4 = r.form.as_str();
        let c5 = opt_str(&r.language);
        let c6 = opt_str(&r.confidence);
        let arr = [c0, c1, c2, c3, c4, c5, c6];
        assert(cell_views7(arr) =~= seq![c0@, c1@, c2@, c3@, c4@, c5@, c6@]);
        let line = tsv_line("implements", arr);
        assert(line@ == implements_tsv(*r));
        out.append(line.as_str());
        proof {
            let f = |x: ImplementsRecord| implements_tsv(x);
            assert(report.claims.implements@.take(i + 1).map_values(f)
                =~= report.claims.implements@.take(i as int).map_values(f).push(implements_tsv(*r)));
            lemma_concat_push(report.claims.implements@.take(i as int).map_values(f), implements_tsv(*r));
        }
        i = i + 1;
    }
    assert(report.claims.implements@.take(i as int) =~= report.claims.implements@);

    let ghost s2 = out@;
    let mut i: usize = 0;
    while i < report.citations.len()
        invariant
            i <= report.citations@.len(),
            out@ == s2 + concat(
                report.citations@.take(i as int).map_values(|c: CitationRecord| citation_tsv(c)),
            ),
        decreases report.citations@.len() - i,
    {
        let c = &report.citations[i];
        let line_no = crate::text::dec_string(c.line);
        let c0 = c.trace_id.as_str();
        let c1 = c.path.as_str();
        let c2 = line_no.as_str();
        let c3 = opt_str(&c.symbol);
        let c4 = c.bucket.as_str();
        let c5 = c.language.as_str();
        let c6 = c.confidence.as_str();
        let arr = [c0, c1, c2, c3, c4, c5, c6];
        assert(cell_views7(arr) =~= seq![c0@, c1@, c2@, c3@, c4@, c5@, c6@]);
        let line = tsv_line("citation", arr);
        assert(line@ == citation_tsv(*c));
        out.append(line.as_str());
        proof {
            let f = |c: CitationRecord| citation_tsv(c);
            assert(report.citations@.take(i + 1).map_values(f)
                =~= report.citations@.take(i as int).map_values(f).push(citation_tsv(*c)));
            lemma_concat_push(report.citations@.take(i as int).map_values(f), citation_tsv(*c));
        }
        i = i + 1;
    }
    assert(report.citations@.take(i as int) =~= report.citations@);
    out
}

// ---------------------------------------------------------------------------
// Citation lines: inline under the threshold, grouped by file above it
// ---------------------------------------------------------------------------

/// Up to this many citations render one per line.
pub const CITATION_INLINE_LIMIT: usize = 20;

/// At most this many file groups render before the remainder is counted.
pub const CITATION_GROUP_DISPLAY_LIMIT: usize = 20;

/// One inline citation line.
pub open spec fn inline_line(c: CitationRecord) -> Seq<char> {
    "  "@ + c.trace_id@ + " "@ + c.path@ + ":"@ + dec(c.line as nat) + " "@ + (match c.symbol {
        Some(s) => s@,
        None => "(file scope)"@,
    }) + " ["@ + c.bucket@ + "/"@ + c.confidence@ + "]"@
}

/// How many citations are recorded against `path`.
pub open spec fn path_count(cs: Seq<CitationRecord>, path: Seq<char>) -> nat
    decreases cs.len(),
{
    if cs.len() == 0 {
        0
    } else {
        path_count(cs.drop_last(), path) + if cs.last().path@ == path { 1nat } else { 0nat }
    }
}

/// `str` ordering: lexicographic by code point.
pub open spec fn seq_lt(a: Seq<char>, b: Seq<char>) -> bool
    decreases a.len(),
{
    if a.len() == 0 {
        b.len() > 0
    } else if b.len() == 0 {
        false
    } else if a[0] != b[0] {
        a[0] < b[0]
    } else {
        seq_lt(a.drop_first(), b.drop_first())
    }
}

/// Group order: more citations first, then by path.
pub open spec fn group_before(a: (Seq<char>, nat), b: (Seq<char>, nat)) -> bool {
    a.1 > b.1 || (a.1 == b.1 && seq_lt(a.0, b.0))
}

/// `gs` lists every cited file once with its citation count, densest file
/// first, ties by path.
pub open spec fn is_group_listing(cs: Seq<CitationRecord>, gs: Seq<(Seq<char>, nat)>) -> bool {
    &&& forall|i: int| 0 <= i < gs.len() ==> (#[trigger] gs[i]).1 == path_count(cs, gs[i].0)
    &&& forall|i: int| 0 <= i < gs.len() ==> (#[trigger] gs[i]).1 > 0
    &&& forall|k: int| 0 <= k < cs.len() ==> group_listed(gs, (#[trigger] cs[k]).path@)
    &&& forall|i: int, j: int| 0 <= i < j < gs.len() ==> group_before(#[trigger] gs[i], #[trigger] gs[j])
}

/// Whether `gs` has a group for `path`.
pub open spec fn group_listed(gs: Seq<(Seq<char>, nat)>, path: Seq<char>) -> bool {
    exists|i: int| 0 <= i < gs.len() && (#[trigger] gs[i]).0 == path
}

/// One group line.
pub open spec fn group_line(g: (Seq<char>, nat)) -> Seq<char> {
    "  "@ + g.0 + ": "@ + dec(g.1) + " citation(s)"@
}

/// The grouped rendering of a group listing.
pub open spec fn grouped_lines(gs: Seq<(Seq<char>, nat)>) -> Seq<Seq<char>> {
    seq!["  grouped by file ("@ + dec(gs.len()) + " file(s)) — use --format json for every citation"@]
        + (if gs.len() > 20 { gs.take(20) } else { gs }).map_values(
        |g: (Seq<char>, nat)| group_line(g),
    ) + if gs.len() > 20 {
        seq!["  ... and "@ + dec((gs.len() - 20) as nat) + " more file(s)"@]
    } else {
        Seq::<Seq<char>>::empty()
    }
}

pub proof fn lemma_seq_lt_irreflexive(a: Seq<char>)
    ensures
        !seq_lt(a, a),
    decreases a.len(),
{
    if a.len() > 0 {
        lemma_seq_lt_irreflexive(a.drop_first());
    }
}

pub proof fn lemma_seq_lt_total(a: Seq<char>, b: Seq<char>)
    requires
        a != b,
    ensures
        seq_lt(a, b) || seq_lt(b, a),
    decreases a.len(),
{
    if a.len() > 0 && b.len() > 0 && a[0] == b[0] {
        if a.drop_first() == b.drop_first() {
            assert(a =~= seq![a[0]] + a.drop_first());
            assert(b =~= seq![b[0]] + b.drop_first());
        }
        lemma_seq_lt_total(a.drop_first(), b.drop_first());
    } else if a.len() == 0 && b.len() == 0 {
        assert(a =~= b);
    }
}

pub proof fn lemma_seq_lt_transitive(a: Seq<char>, b: Seq<char>, c: Seq<char>)
    requires
        seq_lt(a, b),
        seq_lt(b, c),
    ensures
        seq_lt(a, c),
    decreases a.len(),
{
    if a.len() > 0 && b.len() > 0 && c.len() > 0 && a[0] == b[0] && b[0] == c[0] {
        lemma_seq_lt_transitive(a.drop_first(), b.drop_first(), c.drop_first());
    }
}

proof fn lemma_group_before_transitive(a: (Seq<char>, nat), b: (Seq<char>, nat), c: (Seq<char>, nat))
    requires
        group_before(a, b),
        group_before(b, c),
    ensures
        group_before(a, c),
{
    if a.1 == b.1 && b.1 == c.1 {
        lemma_seq_lt_transitive(a.0, b.0, c.0);
    }
}

proof fn lemma_group_before_total(a: (Seq<char>, nat), b: (Seq<char>, nat))
    requires
        a.0 != b.0,
    ensures
        group_before(a, b) || group_before(b, a),
{
    lemma_seq_lt_total(a.0, b.0);
}

/// A cited file and how many citations it carries.
pub struct PathCount {
    pub path: Vec<char>,
    pub count: usize,
}

pub open spec fn pcv(p: PathCount) -> (Seq<char>, nat) {
    (p.path@, p.count as nat)
}

pub open spec fn pc_views(v: Seq<PathCount>) -> Seq<(Seq<char>, nat)> {
    v.map_values(|p: PathCount| pcv(p))
}

/// Whether some entry of `v` is for `path`.
pub open spec fn path_listed(v: Seq<PathCount>, path: Seq<char>) -> bool {
    exists|j: int| 0 <= j < v.len() && (#[trigger] v[j]).path@ == path
}

proof fn lemma_path_count_absent(cs: Seq<CitationRecord>, path: Seq<char>)
    requires
        forall|k: int| 0 <= k < cs.len() ==> (#[trigger] cs[k]).path@ != path,
    ensures
        path_count(cs, path) == 0,
    decreases cs.len(),
{
    if cs.len() > 0 {
        lemma_path_count_absent(cs.drop_last(), path);
    }
}

/// `str` ordering of two character sequences.
pub fn path_lt(a: &[char], b: &[char]) -> (r: bool)
    ensures
        r == seq_lt(a@, b@),
{
    let mut i: usize = 0;
    assert(a@.skip(0) =~= a@);
    assert(b@.skip(0) =~= b@);
    while i < a.len() && i < b.len() && a[i] == b[i]
        invariant
            i <= a@.len(),
            i <= b@.len(),
            seq_lt(a@, b@) == seq_lt(a@.skip(i as int), b@.skip(i as int)),
        decreases a@.len() - i,
    {
        assert(a@.skip(i as int).drop_first() =~= a@.skip(i + 1));
        assert(b@.skip(i as int).drop_first() =~= b@.skip(i + 1));
        i = i + 1;
    }
    if i == a.len() {
        i < b.len()
    } else if i == b.len() {
        false
    } else {
        a[i] < b[i]
    }
}

/// Whether `a` sorts before `b` in the group order.
fn before(a: &PathCount, b: &PathCount) -> (r: bool)
    ensures
        r == group_before(pcv(*a), pcv(*b)),
{
    a.count > b.count || (a.count == b.count && path_lt(&a.path, &b.path))
}

/// The per-file citation counts, densest file first, ties by path.
pub fn group_by_path(citations: &Vec<CitationRecord>) -> (out: Vec<PathCount>)
    ensures
        is_group_listing(citations@, pc_views(out@)),
{
    let ghost cs = citations@;
    // Count per distinct path, in first-seen order.
    let mut pool: Vec<PathCount> = Vec::new();
    let mut i: usize = 0;
    while i < citations.len()
        invariant
            i <= cs.len(),
            cs == citations@,
            forall|j: int|
                0 <= j < pool@.len() ==> (#[trigger] pool@[j]).count as nat == path_count(
                    cs.take(i as int),
                    pool@[j].path@,
                ),
            forall|j: int| 0 <= j < pool@.len() ==> (#[trigger] pool@[j]).count > 0,
            forall|j: int| 0 <= j < pool@.len() ==> (#[trigger] pool@[j]).count <= i,
            forall|j: int, k: int|
                0 <= j < k < pool@.len() ==> (#[trigger] pool@[j]).path@ != (#[trigger] pool@[k]).path@,
            forall|k: int| 0 <= k < i ==> path_listed(pool@, (#[trigger] cs[k]).path@),
        decreases cs.len() - i,
    {
        let p = chars_of(citations[i].path.as_str());
        assert(cs.take(i + 1).drop_last() =~= cs.take(i as int));
        assert(cs.take(i + 1).last() == cs[i as int]);
        let mut j: usize = 0;
        let mut found = false;
        while j < pool.len()
            invariant_except_break
                !found,
            invariant
                j <= pool@.len(),
                forall|m: int| 0 <= m < j ==> (#[trigger] pool@[m]).path@ != p@,
            ensures
                found ==> j < pool@.len() && pool@[j as int].path@ == p@,
                !found ==> j == pool@.len() && forall|m: int|
                    0 <= m < pool@.len() ==> (#[trigger] pool@[m]).path@ != p@,
            decreases pool@.len() - j,
        {
            if same_chars(&pool[j].path, &p) {
                found = true;
                break;
            }
            j = j + 1;
        }
        let ghost old_pool = pool@;
        if found {
            let c = pool[j].count;
            let path = pool[j].path.clone();
            pool.set(j, PathCount { path, count: c + 1 });
        } else {
            pool.push(PathCount { path: p, count: 1 });
        }
        proof {
            if !found {
                assert forall|k: int| 0 <= k < i implies (#[trigger] cs.take(i as int)[k]).path@ != p@ by {
                    assert(cs.take(i as int)[k] == cs[k]);
                    if cs[k].path@ == p@ {
                        let m = choose|m: int| 0 <= m < old_pool.len() && (#[trigger] old_pool[m]).path@ == cs[k].path@;
                    }
                }
                lemma_path_count_absent(cs.take(i as int), p@);
            }
        }
        assert forall|m: int|
            0 <= m < pool@.len() implies (#[trigger] pool@[m]).count as nat == path_count(
            cs.take(i + 1),
            pool@[m].path@,
        ) by {
            assert(cs.take(i + 1).drop_last() == cs.take(i as int));
            if m < old_pool.len() {
                assert(pool@[m].path@ == old_pool[m].path@);
            }
        }
        assert forall|k: int| 0 <= k < i + 1 implies path_listed(pool@, (#[trigger] cs[k]).path@) by {
            if k < i {
                assert(path_listed(old_pool, cs[k].path@));
                let m = choose|m: int| 0 <= m < old_pool.len() && (#[trigger] old_pool[m]).path@ == cs[k].path@;
                assert(pool@[m].path@ == old_pool[m].path@);
            } else if found {
                assert(pool@[j as int].path@ == cs[k].path@);
            } else {
                assert(pool@[old_pool.len() as int].path@ == cs[k].path@);
            }
        }
        i = i + 1;
    }
    assert(cs.take(i as int) =~= cs);

    // Selection: repeatedly move the first group in the order out of the pool.
    let mut out: Vec<PathCount> = Vec::new();
    let ghost all_paths = pool@.map_values(|p: PathCount| p.path@);
    while pool.len() > 0
        invariant
            cs == citations@,
            forall|j: int|
                0 <= j < pool@.len() ==> (#[trigger] pool@[j]).count as nat == path_count(cs, pool@[j].path@),
            forall|j: int| 0 <= j < pool@.len() ==> (#[trigger] pool@[j]).count > 0,
            forall|j: int| 0 <= j < out@.len() ==> (#[trigger] out@[j]).count as nat == path_count(cs, out@[j].path@),
            forall|j: int| 0 <= j < out@.len() ==> (#[trigger] out@[j]).count > 0,
            forall|j: int, k: int|
                0 <= j < k < pool@.len() ==> (#[trigger] pool@[j]).path@ != (#[trigger] pool@[k]).path@,
            forall|k: int|
                0 <= k < cs.len() ==> path_listed(pool@, (#[trigger] cs[k]).path@) || path_listed(
                    out@,
                    cs[k].path@,
                ),
            forall|j: int, k: int|
                0 <= j < k < out@.len() ==> group_before(pcv(#[trigger] out@[j]), pcv(#[trigger] out@[k])),
            forall|j: int, k: int|
                0 <= j < out@.len() && 0 <= k < pool@.len() ==> group_before(
                    pcv(#[trigger] out@[j]),
                    pcv(#[trigger] pool@[k]),
                ),
        decreases pool@.len(),
    {
        let mut best: usize = 0;
        let mut m: usize = 1;
        while m < pool.len()
            invariant
                1 <= m <= pool@.len(),
                best < m,
                forall|j: int, k: int|
                    0 <= j < k < pool@.len() ==> (#[trigger] pool@[j]).path@ != (#[trigger] pool@[k]).path@,
                forall|k: int|
                    0 <= k < m && k != best ==> group_before(pcv(pool@[best as int]), pcv(#[trigger] pool@[k])),
            decreases pool@.len() - m,
        {
            if before(&pool[m], &pool[best]) {
                proof {
                    assert forall|k: int| 0 <= k < m + 1 && k != m implies group_before(
                        pcv(pool@[m as int]),
                        pcv(#[trigger] pool@[k]),
                    ) by {
                        if k != best {
                            lemma_group_before_transitive(
                                pcv(pool@[m as int]),
                                pcv(pool@[best as int]),
                                pcv(pool@[k]),
                            );
                        }
                    }
                }
                best = m;
            } else {
                proof {
                    assert(pool@[best as int].path@ != pool@[m as int].path@);
                    lemma_group_before_total(pcv(pool@[best as int]), pcv(pool@[m as int]));
                }
            }
            m = m + 1;
        }
        let ghost old_pool = pool@;
        let ghost old_out = out@;
        let g = pool.remove(best);
        out.push(g);
        proof {
            assert forall|k: int| 0 <= k < cs.len() implies path_listed(pool@, (#[trigger] cs[k]).path@)
                || path_listed(out@, cs[k].path@) by {
                if path_listed(old_pool, cs[k].path@) {
                    let j = choose|j: int| 0 <= j < old_pool.len() && (#[trigger] old_pool[j]).path@ == cs[k].path@;
                    if j < best {
                        assert(pool@[j].path@ == cs[k].path@);
                    } else if j == best {
                        assert(out@[old_out.len() as int].path@ == cs[k].path@);
                    } else {
                        assert(pool@[j - 1].path@ == cs[k].path@);
                    }
                } else {
                    let j = choose|j: int| 0 <= j < old_out.len() && (#[trigger] old_out[j]).path@ == cs[k].path@;
                    assert(out@[j].path@ == cs[k].path@);
                }
            }
            assert forall|j: int, k: int|
                0 <= j < out@.len() && 0 <= k < pool@.len() implies group_before(
                pcv(#[trigger] out@[j]),
                pcv(#[trigger] pool@[k]),
            ) by {
                let src = if k < best { k } else { k + 1 };
                assert(pool@[k] == old_pool[src]);
                if j < old_out.len() {
                    assert(out@[j] == old_out[j]);
                } else {
                    assert(src != best);
                }
            }
            assert forall|j: int, k: int| 0 <= j < k < out@.len() implies group_before(
                pcv(#[trigger] out@[j]),
                pcv(#[trigger] out@[k]),
            ) by {
                if k == old_out.len() {
                    assert(out@[k] == old_pool[best as int]);
                    assert(out@[j] == old_out[j]);
                } else {
                    assert(out@[j] == old_out[j]);
                    assert(out@[k] == old_out[k]);
                }
            }
        }
    }
    proof {
        let gs = pc_views(out@);
        assert forall|k: int| 0 <= k < cs.len() implies group_listed(gs, (#[trigger] cs[k]).path@) by {
            assert(path_listed(out@, cs[k].path@));
            let j = choose|j: int| 0 <= j < out@.len() && (#[trigger] out@[j]).path@ == cs[k].path@;
            assert(gs[j].0 == out@[j].path@);
        }
        assert forall|i: int, j: int| 0 <= i < j < gs.len() implies group_before(
            #[trigger] gs[i],
            #[trigger] gs[j],
        ) by {
            assert(gs[i] == pcv(out@[i]));
            assert(gs[j] == pcv(out@[j]));
        }
        assert forall|i: int| 0 <= i < gs.len() implies (#[trigger] gs[i]).1 == path_count(cs, gs[i].0) && gs[i].1 > 0 by {
            assert(gs[i] == pcv(out@[i]));
        }
        assert(forall|i: int| 0 <= i < gs.len() ==> (#[trigger] gs[i]).1 == path_count(cs, gs[i].0));
        assert(forall|i: int| 0 <= i < gs.len() ==> (#[trigger] gs[i]).1 > 0);
        assert(forall|i: int, j: int| 0 <= i < j < gs.len() ==> group_before(#[trigger] gs[i], #[trigger] gs[j]));
    }
    out
}

/// The human citation section.
pub open spec fn spec_citation_lines_ok(cs: Seq<CitationRecord>, lines: Seq<Seq<char>>) -> bool {
    if cs.len() == 0 {
        lines == seq!["  (none)"@]
    } else if cs.len() <= 20 {
        lines == cs.map_values(|c: CitationRecord| inline_line(c))
    } else {
        exists|gs: Seq<(Seq<char>, nat)>| is_group_listing(cs, gs) && lines == grouped_lines(gs)
    }
}

/// One inline citation line.
fn render_inline_line(c: &CitationRecord) -> (s: String)
    ensures
        s@ == inline_line(*c),
{
    let mut s = String::from_str("  ");
    s.append(c.trace_id.as_str());
    s.append(" ");
    s.append(c.path.as_str());
    s.append(":");
    push_dec(&mut s, c.line);
    s.append(" ");
    let sym = match &c.symbol {
        Some(x) => String::from_str(x.as_str()),
        None => String::from_str("(file scope)"),
    };
    s.append(sym.as_str());
    s.append(" [");
    s.append(c.bucket.as_str());
    s.append("/");
    s.append(c.confidence.as_str());
    s.append("]");
    s
}

/// Full detail inline up to the threshold; above it, grouped by file with
/// counts, densest file first, the first 20 files shown and the rest
/// counted. The JSON form is never grouped.
pub fn citation_lines(citations: &Vec<CitationRecord>) -> (out: Vec<String>)
    ensures
        spec_citation_lines_ok(citations@, texts(out@)),
{
    let mut out: Vec<String> = Vec::new();
    if citations.len() == 0 {
        out.push(String::from_str("  (none)"));
        assert(texts(out@) =~= seq!["  (none)"@]);
        return out;
    }
    if citations.len() <= CITATION_INLINE_LIMIT {
        let mut i: usize = 0;
        while i < citations.len()
            invariant
                i <= citations@.len(),
                texts(out@) == citations@.take(i as int).map_values(|c: CitationRecord| inline_line(c)),
            decreases citations@.len() - i,
        {
            let line = render_inline_line(&citations[i]);
            let ghost prev = texts(out@);
            let ghost lv = line@;
            out.push(line);
            assert(texts(out@) =~= prev.push(lv));
            assert(citations@.take(i + 1).map_values(|c: CitationRecord| inline_line(c))
                =~= citations@.take(i as int).map_values(|c: CitationRecord| inline_line(c)).push(lv));
            i = i + 1;
        }
        assert(citations@.take(i as int) =~= citations@);
        return out;
    }
    let groups = group_by_path(citations);
    let ghost gs = pc_views(groups@);
    let mut head = String::from_str("  grouped by file (");
    push_dec(&mut head, groups.len());
    head.append(" file(s)) — use --format json for every citation");
    out.push(head);
    let shown = if groups.len() > CITATION_GROUP_DISPLAY_LIMIT {
        CITATION_GROUP_DISPLAY_LIMIT
    } else {
        groups.len()
    };
    let ghost shown_gs = if gs.len() > 20 { gs.take(20) } else { gs };
    assert(shown_gs =~= gs.take(shown as int));
    let ghost h = texts(out@);
    let mut i: usize = 0;
    while i < shown
        invariant
            i <= shown <= groups@.len(),
            gs == pc_views(groups@),
            texts(out@) == h + gs.take(i as int).map_values(|g: (Seq<char>, nat)| group_line(g)),
        decreases shown - i,
    {
        let mut line = String::from_str("  ");
        let path = crate::text::string_of(&groups[i].path);
        line.append(path.as_str());
        line.append(": ");
        push_dec(&mut line, groups[i].count);
        line.append(" citation(s)");
        let ghost prev = texts(out@);
        let ghost lv = line@;
        out.push(line);
        assert(texts(out@) =~= prev.push(lv));
        assert(gs[i as int] == pcv(groups@[i as int]));
        assert(gs.take(i + 1).map_values(|g: (Seq<char>, nat)| group_line(g)) =~= gs.take(
            i as int,
        ).map_values(|g: (Seq<char>, nat)| group_line(g)).push(lv));
        i = i + 1;
    }
    if groups.len() > CITATION_GROUP_DISPLAY_LIMIT {
        let mut more = String::from_str("  ... and ");
        push_dec(&mut more, groups.len() - CITATION_GROUP_DISPLAY_LIMIT);
        more.append(" more file(s)");
        let ghost prev = texts(out@);
        let ghost mv = more@;
        out.push(more);
        assert(texts(out@) =~= prev.push(mv));
    }
    assert(texts(out@) =~= grouped_lines(gs));
    out
}

// ---------------------------------------------------------------------------
// The human form
// ---------------------------------------------------------------------------

/// `true` / `false`.
pub open spec fn bool_text(b: bool) -> Seq<char> {
    if b {
        "true"@
    } else {
        "false"@
    }
}

pub open spec fn verifies_line(v: VerifiesRecord) -> Seq<char> {
    "  verifies    "@ + v.trace_id@ + " "@ + v.path@ + ":"@ + dec(v.line as nat) + " "@ + v.symbol@
        + " ["@ + v.form@ + "]"@ + spec_confidence_suffix(opt_seq(v.confidence))
}

pub open spec fn implements_line(i: ImplementsRecord) -> Seq<char> {
    "  implements  "@ + i.trace_id@ + " "@ + i.path@ + " "@ + i.symbol@ + " ["@ + i.form@ + "]"@
        + spec_confidence_suffix(opt_seq(i.confidence))
}

/// The stdout lines of the human form, given the citation section already
/// rendered.
pub open spec fn spec_trace_result_lines(r: TraceReport, citation_section: Seq<Seq<char>>) -> Seq<
    Seq<char>,
> {
    seq![
        "resolved: "@ + bool_text(r.resolved),
        "Claims ("@ + dec(r.claims.verifies@.len() + r.claims.implements@.len()) + ")"@,
    ] + r.claims.verifies@.map_values(|v: VerifiesRecord| verifies_line(v))
        + r.claims.implements@.map_values(|i: ImplementsRecord| implements_line(i)) + seq![
        Seq::<char>::empty(),
        "Citations ("@ + dec(r.citations@.len()) + ") — NOT verification evidence"@,
    ] + citation_section + if r.ambiguous_matches@.len() > 0 {
        seq![
            Seq::<char>::empty(),
            "Ambiguous matches ("@ + dec(r.ambiguous_matches@.len())
                + ") — every candidate, none picked:"@,
        ] + r.ambiguous_matches@.map_values(|m: String| "  "@ + m@)
    } else {
        Seq::<Seq<char>>::empty()
    }
}

/// The caveat on line-heuristic records.
pub open spec fn confidence_caveat() -> Seq<char> {
    "this result set includes line_heuristic record(s): matched by a pre-structural line/indentation scanner, not a parsed syntax tree — treat with the same caution as a grep hit, not as AST-grounded evidence"@
}

/// The stderr notices of the human form.
pub open spec fn spec_trace_notices(r: TraceReport, line_heuristic: Seq<char>) -> Seq<
    (Seq<char>, Seq<char>),
> {
    (if r.citations_excluded_by_path_filter > 0 {
        seq![
            (
                "TraceCitationsExcluded"@,
                dec(r.citations_excluded_by_path_filter as nat)
                    + " citation(s) dropped by --exclude-path"@,
            ),
        ]
    } else {
        Seq::empty()
    }) + if spec_has_line_heuristic(r, line_heuristic) {
        seq![("TraceConfidence"@, confidence_caveat())]
    } else {
        Seq::empty()
    }
}

/// Push a string.
fn push_line(out: &mut Vec<String>, line: String)
    ensures
        texts(final(out)@) == texts(old(out)@).push(line@),
{
    let ghost lv = line@;
    out.push(line);
    assert(texts(out@) =~= texts(old(out)@).push(lv));
}

/// The stdout lines of the human form.
pub fn trace_result_lines(report: &TraceReport) -> (out: Vec<String>)
    requires
        report.claims.verifies@.len() + report.claims.implements@.len() <= usize::MAX,
    ensures
        exists|cites: Seq<Seq<char>>|
            spec_citation_lines_ok(report.citations@, cites) && texts(out@)
                == spec_trace_result_lines(*report, cites),
{
    let mut out: Vec<String> = Vec::new();
    let mut l0 = String::from_str("resolved: ");
    if report.resolved {
        l0.append("true");
    } else {
        l0.append("false");
    }
    push_line(&mut out, l0);
    let mut l1 = String::from_str("Claims (");
    push_dec(&mut l1, report.claims.verifies.len() + report.claims.implements.len());
    l1.append(")");
    push_line(&mut out, l1);
    assert(texts(out@) =~= seq![
        "resolved: "@ + bool_text(report.resolved),
        "Claims ("@ + dec(report.claims.verifies@.len() + report.claims.implements@.len()) + ")"@,
    ]);

    let ghost a0 = texts(out@);
    let mut i: usize = 0;
    while i < report.claims.verifies.len()
        invariant
            i <= report.claims.verifies@.len(),
            texts(out@) == a0 + report.claims.verifies@.take(i as int).map_values(
                |v: VerifiesRecord| verifies_line(v),
            ),
        decreases report.claims.verifies@.len() - i,
    {
        let v = &report.claims.verifies[i];
        let mut s = String::from_str("  verifies    ");
        s.append(v.trace_id.as_str());
        s.append(" ");
        s.append(v.path.as_str());
        s.append(":");
        push_dec(&mut s, v.line);
        s.append(" ");
        s.append(v.symbol.as_str());
        s.append(" [");
        s.append(v.form.as_str());
        s.append("]");
        let suffix = confidence_suffix(&v.confidence);
        s.append(suffix.as_str());
        let ghost sv = s@;
        push_line(&mut out, s);
        assert(report.claims.verifies@.take(i + 1).map_values(|v: VerifiesRecord| verifies_line(v))
            =~= report.claims.verifies@.take(i as int).map_values(
            |v: VerifiesRecord| verifies_line(v),
        ).push(sv));
        i = i + 1;
    }
    assert(report.claims.verifies@.take(i as int) =~= report.claims.verifies@);

    let ghost a1 = texts(out@);
    let mut i: usize = 0;
    while i < report.claims.implements.len()
        invariant
            i <= report.claims.implements@.len(),
            texts(out@) == a1 + report.claims.implements@.take(i as int).map_values(
                |x: ImplementsRecord| implements_line(x),
            ),
        decreases report.claims.implements@.len() - i,
    {
        let x = &report.claims.implements[i];
        let mut s = String::from_str("  implements  ");
        s.append(x.trace_id.as_str());
        s.append(" ");
        s.append(x.path.as_str());
        s.append(" ");
        s.append(x.symbol.as_str());
        s.append(" [");
        s.append(x.form.as_str());
        s.append("]");
        let suffix = confidence_suffix(&x.confidence);
        s.append(suffix.as_str());
        let ghost sv = s@;
        push_line(&mut out, s);
        assert(report.claims.implements@.take(i + 1).map_values(
            |x: ImplementsRecord| implements_line(x),
        ) =~= report.claims.implements@.take(i as int).map_values(
            |x: ImplementsRecord| implements_line(x),
        ).push(sv));
        i = i + 1;
    }
    assert(report.claims.implements@.take(i as int) =~= report.claims.implements@);

    let ghost a2 = texts(out@);
    push_line(&mut out, String::new());
    let mut c = String::from_str("Citations (");
    push_dec(&mut c, report.citations.len());
    c.append(") — NOT verification evidence");
    push_line(&mut out, c);
    assert(texts(out@) =~= a2 + seq![
        Seq::<char>::empty(),
        "Citations ("@ + dec(report.citations@.len()) + ") — NOT verification evidence"@,
    ]);
    let ghost a3 = texts(out@);
    let mut cites = citation_lines(&report.citations);
    let ghost cv = texts(cites@);
    out.append(&mut cites);
    assert(texts(out@) =~= a3 + cv);

    if report.ambiguous_matches.len() > 0 {
        let ghost a4 = texts(out@);
        push_line(&mut out, String::new());
        let mut h = String::from_str("Ambiguous matches (");
        push_dec(&mut h, report.ambiguous_matches.len());
        h.append(") — every candidate, none picked:");
        push_line(&mut out, h);
        let ghost a5 = texts(out@);
        let mut i: usize = 0;
        while i < report.ambiguous_matches.len()
            invariant
                i <= report.ambiguous_matches@.len(),
                texts(out@) == a5 + report.ambiguous_matches@.take(i as int).map_values(
                    |m: String| "  "@ + m@,
                ),
            decreases report.ambiguous_matches@.len() - i,
        {
            let mut s = String::from_str("  ");
            s.append(report.ambiguous_matches[i].as_str());
            let ghost sv = s@;
            push_line(&mut out, s);
            assert(report.ambiguous_matches@.take(i + 1).map_values(|m: String| "  "@ + m@)
                =~= report.ambiguous_matches@.take(i as int).map_values(|m: String| "  "@ + m@).push(
                sv,
            ));
            i = i + 1;
        }
        assert(report.ambiguous_matches@.take(i as int) =~= report.ambiguous_matches@);
        assert(texts(out@) =~= spec_trace_result_lines(*report, cv));
    } else {
        assert(texts(out@) =~= spec_trace_result_lines(*report, cv));
    }
    out
}

/// The stderr notices of the human form.
pub fn trace_notices(report: &TraceReport, line_heuristic: &str) -> (out: Vec<Notice>)
    ensures
        notice_views(out@) == spec_trace_notices(*report, line_heuristic@),
{
    let mut out: Vec<Notice> = Vec::new();
    if report.citations_excluded_by_path_filter > 0 {
        let mut m = String::new();
        push_dec(&mut m, report.citations_excluded_by_path_filter);
        m.append(" citation(s) dropped by --exclude-path");
        out.push(Notice { kind: String::from_str("TraceCitationsExcluded"), message: m });
    }
    let ghost n0 = notice_views(out@);
    if has_line_heuristic_record(report, line_heuristic) {
        out.push(
            Notice {
                kind: String::from_str("TraceConfidence"),
                message: String::from_str(
                    "this result set includes line_heuristic record(s): matched by a pre-structural line/indentation scanner, not a parsed syntax tree — treat with the same caution as a grep hit, not as AST-grounded evidence",
                ),
            },
        );
    }
    assert(notice_views(out@) =~= spec_trace_notices(*report, line_heuristic@));
    out
}

/// The human form: claims and citations on stdout, notices on stderr.
pub fn emit_human(diagnostics: Diagnostics, report: &TraceReport, line_heuristic: &str)
    requires
        report.claims.verifies@.len() + report.claims.implements@.len() <= usize::MAX,
{
    let lines = trace_result_lines(report);
    emit_results(&lines);
    let notices = trace_notices(report, line_heuristic);
    emit_notices(diagnostics, &notices);
}

/// Whether `pattern` is a well-formed glob (`glob::Pattern::new` accepts it).
pub uninterp spec fn glob_compiles(pattern: Seq<char>) -> bool;

/// Whether the glob `pattern` matches `path` (`glob::Pattern::matches`, with
/// the default options).
pub uninterp spec fn glob_match(pattern: Seq<char>, path: Seq<char>) -> bool;

/// Compile `pattern` with `glob::Pattern::new` and match `path` against it
/// with `glob::Pattern::matches` (default options): the match when the
/// pattern compiles, else the compile error's text, of which only that it is
/// an error is stated.
#[verifier::external_body]
fn glob_check(pattern: &str, path: &str) -> (r: Result<bool, String>)
    ensures
        r is Ok <==> glob_compiles(pattern@),
        r matches Ok(b) ==> b == glob_match(pattern@, path@),
{
    match glob::Pattern::new(pattern) {
        Ok(g) => Ok(g.matches(path)),
        Err(e) => Err(e.to_string()),
    }
}

/// The refusal of a malformed `--exclude-path` glob.
pub open spec fn glob_refusal(pattern: Seq<char>, error: Seq<char>) -> Seq<char> {
    "parsing --exclude-path glob '"@ + pattern + "': "@ + error
}

/// Check the `--exclude-path` globs: all of them, in order, when every one
/// compiles; else the refusal of the first that does not.
pub fn compile_exclude_globs(patterns: &[String]) -> (r: Result<Vec<String>, String>)
    ensures
        r matches Ok(gs) ==> gs@ == patterns@ && forall|i: int|
            0 <= i < patterns@.len() ==> glob_compiles(#[trigger] patterns@[i]@),
        r is Err <==> exists|i: int| 0 <= i < patterns@.len() && !glob_compiles(#[trigger] patterns@[i]@),
        r matches Err(e) ==> exists|i: int|
            0 <= i < patterns@.len() && !glob_compiles(#[trigger] patterns@[i]@) && (forall|k: int|
                0 <= k < i ==> glob_compiles(#[trigger] patterns@[k]@)) && e@.len()
                >= glob_refusal(patterns@[i]@, Seq::empty()).len() && e@.subrange(
                0,
                glob_refusal(patterns@[i]@, Seq::empty()).len() as int,
            ) == glob_refusal(patterns@[i]@, Seq::empty()),
{
    let mut out: Vec<String> = Vec::new();
    let mut i: usize = 0;
    while i < patterns.len()
        invariant
            i <= patterns@.len(),
            out@ == patterns@.take(i as int),
            forall|k: int| 0 <= k < i ==> glob_compiles(#[trigger] patterns@[k]@),
        decreases patterns@.len() - i,
    {
        // Whether the pattern compiles is learned by matching it once.
        match glob_check(patterns[i].as_str(), "") {
            Err(err) => {
                let mut e = String::from_str("parsing --exclude-path glob '");
                e.append(patterns[i].as_str());
                e.append("': ");
                let ghost head = e@;
                e.append(err.as_str());
                proof {
                    assert(head =~= glob_refusal(patterns@[i as int]@, Seq::empty()));
                    assert(e@.subrange(0, head.len() as int) =~= head);
                }
                return Err(e);
            },
            Ok(_) => {},
        }
        out.push(patterns[i].clone());
        assert(out@ =~= patterns@.take(i + 1));
        i = i + 1;
    }
    assert(out@ =~= patterns@);
    Ok(out)
}

/// Whether some exclusion glob matches `path`.
pub fn path_excluded(path: &str, globs: &[String]) -> (b: bool)
    requires
        forall|i: int| 0 <= i < globs@.len() ==> glob_compiles(#[trigger] globs@[i]@),
    ensures
        b == exists|i: int| 0 <= i < globs@.len() && glob_match(#[trigger] globs@[i]@, path@),
{
    let mut i: usize = 0;
    while i < globs.len()
        invariant
            i <= globs@.len(),
            forall|k: int| 0 <= k < globs@.len() ==> glob_compiles(#[trigger] globs@[k]@),
            forall|k: int| 0 <= k < i ==> !glob_match(#[trigger] globs@[k]@, path@),
        decreases globs@.len() - i,
    {
        match glob_check(globs[i].as_str(), path) {
            Ok(true) => {
                return true;
            },
            _ => {},
        }
        i = i + 1;
    }
    false
}

/// Whether some exclusion glob matches `path`.
pub open spec fn is_excluded(globs: Seq<String>, path: Seq<char>) -> bool {
    exists|i: int| 0 <= i < globs.len() && glob_match(#[trigger] globs[i]@, path)
}

/// The citations no exclusion glob matches, in order.
pub open spec fn kept_citations(cs: Seq<CitationRecord>, globs: Seq<String>) -> Seq<CitationRecord>
    decreases cs.len(),
{
    if cs.len() == 0 {
        Seq::empty()
    } else if is_excluded(globs, cs.last().path@) {
        kept_citations(cs.drop_last(), globs)
    } else {
        kept_citations(cs.drop_last(), globs).push(cs.last())
    }
}

/// Drop the citations (never claims) whose path an `--exclude-path` glob
/// matches, and count them. Refused, with the first malformed glob, when a
/// glob does not compile.
pub fn drop_excluded_citations(citations: Vec<CitationRecord>, patterns: &[String]) -> (r: Result<
    (Vec<CitationRecord>, usize),
    String,
>)
    ensures
        r is Err <==> exists|i: int| 0 <= i < patterns@.len() && !glob_compiles(#[trigger] patterns@[i]@),
        r matches Ok((kept, n)) ==> kept@ == kept_citations(citations@, patterns@) && n
            == citations@.len() - kept@.len(),
{
    let globs = compile_exclude_globs(patterns)?;
    let ghost all = citations@;
    let total = citations.len();
    let mut rest = citations;
    let mut kept: Vec<CitationRecord> = Vec::new();
    let mut dropped: usize = 0;
    let mut i: usize = 0;
    while rest.len() > 0
        invariant
            i <= all.len(),
            all.len() == total,
            rest@ == all.skip(i as int),
            globs@ == patterns@,
            forall|k: int| 0 <= k < globs@.len() ==> glob_compiles(#[trigger] globs@[k]@),
            kept@ == kept_citations(all.take(i as int), patterns@),
            dropped + kept@.len() == i,
        decreases rest@.len(),
    {
        let c = rest.remove(0);
        assert(c == all[i as int]);
        assert(all.take(i + 1).drop_last() =~= all.take(i as int));
        assert(all.take(i + 1).last() == c);
        assert(rest@ =~= all.skip(i + 1));
        if path_excluded(c.path.as_str(), &globs) {
            dropped = dropped + 1;
        } else {
            kept.push(c);
        }
        i = i + 1;
    }
    assert(all.take(i as int) =~= all);
    Ok((kept, dropped))
}

/// `v` is strictly increasing (so it has no duplicates).
pub open spec fn sorted_distinct(v: Seq<String>) -> bool {
    forall|i: int, j: int| 0 <= i < j < v.len() ==> seq_lt(#[trigger] v[i]@, #[trigger] v[j]@)
}

/// Whether some entry of `v` reads `s`.
pub open spec fn holds_text(v: Seq<String>, s: Seq<char>) -> bool {
    exists|i: int| 0 <= i < v.len() && (#[trigger] v[i])@ == s
}

/// Insert `s` into a strictly increasing list, unless it is already there.
fn insert_sorted(v: &mut Vec<String>, s: String)
    requires
        sorted_distinct(old(v)@),
    ensures
        sorted_distinct(final(v)@),
        forall|t: Seq<char>| #[trigger] holds_text(final(v)@, t) <==> (holds_text(old(v)@, t) || t == s@),
{
    let key = chars_of(s.as_str());
    let ghost v0 = v@;
    let mut pos: usize = 0;
    loop
        invariant
            pos <= v@.len(),
            v@ == v0,
            key@ == s@,
            sorted_distinct(v0),
            forall|q: int| 0 <= q < pos ==> seq_lt(#[trigger] v0[q]@, s@),
        ensures
            pos <= v0.len(),
            v@ == v0,
            forall|q: int| 0 <= q < pos ==> seq_lt(#[trigger] v0[q]@, s@),
            pos == v0.len() || !seq_lt(v0[pos as int]@, s@),
        decreases v@.len() - pos,
    {
        if pos == v.len() {
            break;
        }
        let k = chars_of(v[pos].as_str());
        if !path_lt(&k, &key) {
            break;
        }
        pos = pos + 1;
    }
    if pos < v.len() {
        let k = chars_of(v[pos].as_str());
        if same_chars(&k, &key) {
            assert forall|t: Seq<char>| #[trigger] holds_text(v@, t) <==> (holds_text(v0, t) || t
                == s@) by {
                if t == s@ {
                    assert(v0[pos as int]@ == t);
                }
            }
            return;
        }
        proof {
            lemma_seq_lt_total(v0[pos as int]@, s@);
        }
    }
    v.insert(pos, s);
    proof {
        let v1 = v@;
        assert(v1 =~= v0.insert(pos as int, v1[pos as int]));
        assert forall|q: int| pos <= q < v0.len() implies seq_lt(s@, #[trigger] v0[q]@) by {
            if q > pos {
                assert(seq_lt(v0[pos as int]@, v0[q]@));
                lemma_seq_lt_transitive(s@, v0[pos as int]@, v0[q]@);
            }
        }
        assert forall|a: int, b: int| 0 <= a < b < v1.len() implies seq_lt(
            #[trigger] v1[a]@,
            #[trigger] v1[b]@,
        ) by {
            if a < pos && b > pos {
                assert(v1[b] == v0[b - 1]);
                lemma_seq_lt_transitive(v1[a]@, s@, v1[b]@);
            } else if a == pos && b > pos {
                assert(v1[b] == v0[b - 1]);
            } else if a > pos {
                assert(v1[a] == v0[a - 1]);
                assert(v1[b] == v0[b - 1]);
            }
        }
        assert forall|t: Seq<char>| #[trigger] holds_text(v1, t) <==> (holds_text(v0, t) || t
            == s@) by {
            if holds_text(v1, t) {
                let q = choose|q: int| 0 <= q < v1.len() && (#[trigger] v1[q])@ == t;
                if q < pos {
                    assert(v0[q]@ == t);
                } else if q > pos {
                    assert(v0[q - 1]@ == t);
                }
            }
            if holds_text(v0, t) {
                let q = choose|q: int| 0 <= q < v0.len() && (#[trigger] v0[q])@ == t;
                if q < pos {
                    assert(v1[q]@ == t);
                } else {
                    assert(v1[q + 1]@ == t);
                }
            }
            if t == s@ {
                assert(v1[pos as int]@ == t);
            }
        }
    }
}

/// The distinct ids of `ids` that [`prefix_matches`] `prefix`, in `str` order:
/// what `--id <prefix> --prefix` searches for, one exact id at a time.
pub fn matched_prefix_ids(ids: &Vec<String>, prefix: &str) -> (out: Vec<String>)
    ensures
        sorted_distinct(out@),
        forall|t: Seq<char>|
            #[trigger] holds_text(out@, t) <==> (holds_text(ids@, t) && spec_prefix_matches(
                t,
                prefix@,
            )),
{
    let mut out: Vec<String> = Vec::new();
    let mut i: usize = 0;
    while i < ids.len()
        invariant
            i <= ids@.len(),
            sorted_distinct(out@),
            forall|t: Seq<char>|
                #[trigger] holds_text(out@, t) <==> (holds_text(ids@.take(i as int), t)
                    && spec_prefix_matches(t, prefix@)),
        decreases ids@.len() - i,
    {
        let ghost before = out@;
        if prefix_matches(ids[i].as_str(), prefix) {
            insert_sorted(&mut out, ids[i].clone());
        }
        assert forall|t: Seq<char>| #[trigger] holds_text(ids@.take(i + 1), t) <==> (holds_text(
            ids@.take(i as int),
            t,
        ) || t == ids@[i as int]@) by {
            if holds_text(ids@.take(i + 1), t) {
                let q = choose|q: int| 0 <= q < i + 1 && (#[trigger] ids@.take(i + 1)[q])@ == t;
                if q < i {
                    assert(ids@.take(i as int)[q]@ == t);
                }
            }
            if holds_text(ids@.take(i as int), t) {
                let q = choose|q: int| 0 <= q < i && (#[trigger] ids@.take(i as int)[q])@ == t;
                assert(ids@.take(i + 1)[q]@ == t);
            }
            if t == ids@[i as int]@ {
                assert(ids@.take(i + 1)[i as int]@ == t);
            }
        }
        i = i + 1;
    }
    assert(ids@.take(ids@.len() as int) =~= ids@);
    out
}

/// The first id of each normalized class among `ids`, in order, `seen`
/// holding the classes already taken.
pub open spec fn class_firsts(ids: Seq<Seq<char>>, seen: Seq<Seq<Seq<char>>>) -> Seq<Seq<char>>
    decreases ids.len(),
{
    if ids.len() == 0 {
        Seq::empty()
    } else {
        let n = id_segments(ids[0]);
        if seen.contains(n) {
            class_firsts(ids.drop_first(), seen)
        } else {
            seq![ids[0]] + class_firsts(ids.drop_first(), seen.push(n))
        }
    }
}

/// Whether two normalized ids are the same.
fn same_segments(a: &Vec<Vec<char>>, b: &Vec<Vec<char>>) -> (r: bool)
    ensures
        r == (a.deep_view() == b.deep_view()),
{
    if a.len() != b.len() {
        assert(a.deep_view().len() != b.deep_view().len());
        return false;
    }
    let mut i: usize = 0;
    while i < a.len()
        invariant
            i <= a@.len() == b@.len(),
            a.deep_view().len() == a@.len(),
            b.deep_view().len() == b@.len(),
            forall|j: int| 0 <= j < i ==> a.deep_view()[j] == b.deep_view()[j],
        decreases a@.len() - i,
    {
        assert(a.deep_view()[i as int] == a[i as int]@);
        assert(b.deep_view()[i as int] == b[i as int]@);
        if !same_chars(&a[i], &b[i]) {
            assert(a.deep_view()[i as int] != b.deep_view()[i as int]);
            return false;
        }
        i = i + 1;
    }
    assert(a.deep_view() =~= b.deep_view());
    true
}

/// Whether `n` is among the normalized ids of `seen`.
fn seen_class(seen: &Vec<Vec<Vec<char>>>, n: &Vec<Vec<char>>) -> (r: bool)
    ensures
        r == seen.deep_view().contains(n.deep_view()),
{
    let mut i: usize = 0;
    while i < seen.len()
        invariant
            i <= seen@.len(),
            forall|j: int| 0 <= j < i ==> seen.deep_view()[j] != n.deep_view(),
        decreases seen@.len() - i,
    {
        assert(seen.deep_view()[i as int] == seen[i as int].deep_view());
        if same_segments(&seen[i], n) {
            assert(seen.deep_view()[i as int] == n.deep_view());
            return true;
        }
        i = i + 1;
    }
    false
}

/// The ids to search for a prefix query: the first of `matched` in each
/// class of ids that normalize alike (`FR-950`, `FR_950`), so that the
/// exact search, which folds the same way, runs once per class.
pub fn search_ids(matched: &Vec<String>) -> (out: Vec<String>)
    ensures
        texts(out@) == class_firsts(texts(matched@), Seq::empty()),
{
    let mut out: Vec<String> = Vec::new();
    let mut seen: Vec<Vec<Vec<char>>> = Vec::new();
    let ghost all = texts(matched@);
    let mut i: usize = 0;
    assert(all.skip(0) =~= all);
    assert(seen.deep_view() =~= Seq::<Seq<Seq<char>>>::empty());
    assert(texts(out@) =~= Seq::<Seq<char>>::empty());
    assert(texts(out@) + class_firsts(all, seen.deep_view()) =~= class_firsts(all, Seq::empty()));
    while i < matched.len()
        invariant
            i <= matched@.len(),
            all == texts(matched@),
            texts(out@) + class_firsts(all.skip(i as int), seen.deep_view()) == class_firsts(
                all,
                Seq::empty(),
            ),
        decreases matched@.len() - i,
    {
        let ghost rest = all.skip(i + 1);
        assert(all.skip(i as int).drop_first() =~= rest);
        assert(all.skip(i as int)[0] == matched@[i as int]@);
        let n = segments_of(matched[i].as_str());
        if !seen_class(&seen, &n) {
            let ghost before = texts(out@);
            let ghost sv = seen.deep_view();
            let ghost old_seen = seen@;
            let ghost nv = n.deep_view();
            out.push(matched[i].clone());
            seen.push(n);
            assert(texts(out@) =~= before.push(matched@[i as int]@));
            assert forall|j: int| 0 <= j < seen@.len() implies #[trigger] seen.deep_view()[j]
                == sv.push(nv)[j] by {
                if j < old_seen.len() {
                    assert(seen@[j] == old_seen[j]);
                }
            }
            assert(seen.deep_view() =~= sv.push(nv));
            assert(before + (seq![matched@[i as int]@] + class_firsts(rest, sv.push(nv)))
                =~= before.push(matched@[i as int]@) + class_firsts(rest, sv.push(nv)));
        }
        i = i + 1;
    }
    assert(class_firsts(all.skip(matched@.len() as int), seen.deep_view()) =~= Seq::empty());
    assert(texts(out@) + Seq::<Seq<char>>::empty() =~= texts(out@));
    out
}

/// Print the citation lines on stdout, in order.
pub fn emit_citations(citations: &Vec<CitationRecord>) {
    let lines = citation_lines(citations);
    emit_results(&lines);
}

/// Assemble the report of one query. It is resolved exactly when something
/// answered it: a claim, a citation that survived the exclusion filter, or an
/// ambiguous candidate. A query that matched nothing still has the full shape.
pub fn assemble_report(
    query: QueryDescription,
    verifies: Vec<VerifiesRecord>,
    implements: Vec<ImplementsRecord>,
    citations: Vec<CitationRecord>,
    ambiguous_matches: Vec<String>,
    citations_excluded_by_path_filter: usize,
) -> (r: TraceReport)
    ensures
        r.query == query,
        r.claims.verifies@ == verifies@,
        r.claims.implements@ == implements@,
        r.citations@ == citations@,
        r.ambiguous_matches@ == ambiguous_matches@,
        r.citations_excluded_by_path_filter == citations_excluded_by_path_filter,
        r.resolved == (verifies@.len() > 0 || implements@.len() > 0 || citations@.len() > 0
            || ambiguous_matches@.len() > 0),
{
    let resolved = verifies.len() > 0 || implements.len() > 0 || citations.len() > 0
        || ambiguous_matches.len() > 0;
    TraceReport {
        query,
        resolved,
        claims: ClaimsSection { verifies, implements },
        citations,
        ambiguous_matches,
        citations_excluded_by_path_filter,
    }
}

/// The report of a search once `--exclude-path` has been applied: only
/// citations are filtered, every claim and ambiguous match is kept, the
/// number of citations dropped is recorded, and `resolved` is decided on
/// what is left, so an exclusion that empties the result reports it
/// unresolved. A pattern that does not compile is refused.
pub fn report_after_exclusion(
    query: QueryDescription,
    verifies: Vec<VerifiesRecord>,
    implements: Vec<ImplementsRecord>,
    citations: Vec<CitationRecord>,
    ambiguous_matches: Vec<String>,
    patterns: &[String],
) -> (r: Result<TraceReport, String>)
    ensures
        r is Err <==> exists|i: int| 0 <= i < patterns@.len() && !glob_compiles(#[trigger] patterns@[i]@),
        r matches Ok(rep) ==> {
            &&& rep.query == query
            &&& rep.claims.verifies@ == verifies@
            &&& rep.claims.implements@ == implements@
            &&& rep.citations@ == kept_citations(citations@, patterns@)
            &&& rep.ambiguous_matches@ == ambiguous_matches@
            &&& rep.citations_excluded_by_path_filter == citations@.len() - rep.citations@.len()
            &&& rep.resolved == (verifies@.len() > 0 || implements@.len() > 0 || rep.citations@.len()
                > 0 || ambiguous_matches@.len() > 0)
        },
{
    let (kept, excluded) = drop_excluded_citations(citations, patterns)?;
    Ok(assemble_report(query, verifies, implements, kept, ambiguous_matches, excluded))
}

/// The citation counts of a group listing, added up.
pub open spec fn listed_total(gs: Seq<(Seq<char>, nat)>) -> nat
    decreases gs.len(),
{
    if gs.len() == 0 {
        0
    } else {
        listed_total(gs.drop_last()) + gs.last().1
    }
}

/// The citations of `cs` on each of the paths `ps`, added up.
spec fn counts_on(cs: Seq<CitationRecord>, ps: Seq<Seq<char>>) -> nat
    decreases ps.len(),
{
    if ps.len() == 0 {
        0
    } else {
        counts_on(cs, ps.drop_last()) + path_count(cs, ps.last())
    }
}

/// How many of `ps` are `p`.
spec fn occurrences(ps: Seq<Seq<char>>, p: Seq<char>) -> nat
    decreases ps.len(),
{
    if ps.len() == 0 {
        0
    } else {
        occurrences(ps.drop_last(), p) + if ps.last() == p { 1nat } else { 0nat }
    }
}

proof fn lemma_occurrences_distinct(ps: Seq<Seq<char>>, p: Seq<char>)
    requires
        forall|i: int, j: int| 0 <= i < j < ps.len() ==> ps[i] != ps[j],
    ensures
        occurrences(ps, p) == if ps.contains(p) { 1nat } else { 0nat },
    decreases ps.len(),
{
    if ps.len() > 0 {
        let q = ps.drop_last();
        lemma_occurrences_distinct(q, p);
        if ps.last() == p {
            assert(!q.contains(p)) by {
                if q.contains(p) {
                    let k = choose|k: int| 0 <= k < q.len() && q[k] == p;
                    assert(ps[k] == ps[ps.len() - 1]);
                }
            }
            assert(ps.contains(p)) by {
                assert(ps[ps.len() - 1] == p);
            }
        } else {
            if ps.contains(p) {
                let k = choose|k: int| 0 <= k < ps.len() && ps[k] == p;
                assert(q[k] == p);
            }
            if q.contains(p) {
                let k = choose|k: int| 0 <= k < q.len() && q[k] == p;
                assert(ps[k] == p);
            }
        }
    }
}

/// Adding one citation adds, over paths `ps`, how many of them it is on.
proof fn lemma_counts_on_push(cs: Seq<CitationRecord>, c: CitationRecord, ps: Seq<Seq<char>>)
    ensures
        counts_on(cs.push(c), ps) == counts_on(cs, ps) + occurrences(ps, c.path@),
    decreases ps.len(),
{
    assert(cs.push(c).drop_last() =~= cs);
    if ps.len() > 0 {
        lemma_counts_on_push(cs, c, ps.drop_last());
    }
}

proof fn lemma_counts_on_empty(ps: Seq<Seq<char>>)
    ensures
        counts_on(Seq::<CitationRecord>::empty(), ps) == 0,
    decreases ps.len(),
{
    if ps.len() > 0 {
        lemma_counts_on_empty(ps.drop_last());
    }
}

/// Over distinct paths covering every citation, the counts add up to the
/// number of citations.
proof fn lemma_counts_cover(cs: Seq<CitationRecord>, ps: Seq<Seq<char>>)
    requires
        forall|i: int, j: int| 0 <= i < j < ps.len() ==> ps[i] != ps[j],
        forall|k: int| 0 <= k < cs.len() ==> ps.contains(#[trigger] cs[k].path@),
    ensures
        counts_on(cs, ps) == cs.len(),
    decreases cs.len(),
{
    if cs.len() == 0 {
        assert(cs =~= Seq::<CitationRecord>::empty());
        lemma_counts_on_empty(ps);
    } else {
        let q = cs.drop_last();
        assert forall|k: int| 0 <= k < q.len() implies ps.contains(#[trigger] q[k].path@) by {
            assert(q[k] == cs[k]);
        }
        lemma_counts_cover(q, ps);
        assert(q.push(cs.last()) =~= cs);
        lemma_counts_on_push(q, cs.last(), ps);
        assert(ps.contains(cs[cs.len() - 1].path@));
        lemma_occurrences_distinct(ps, cs.last().path@);
    }
}

proof fn lemma_listed_total_is_counts(cs: Seq<CitationRecord>, gs: Seq<(Seq<char>, nat)>)
    requires
        forall|i: int| 0 <= i < gs.len() ==> (#[trigger] gs[i]).1 == path_count(cs, gs[i].0),
    ensures
        listed_total(gs) == counts_on(cs, gs.map_values(|g: (Seq<char>, nat)| g.0)),
    decreases gs.len(),
{
    if gs.len() > 0 {
        let q = gs.drop_last();
        assert forall|i: int| 0 <= i < q.len() implies (#[trigger] q[i]).1 == path_count(cs, q[i].0) by {
            assert(q[i] == gs[i]);
        }
        lemma_listed_total_is_counts(cs, q);
        assert(gs.map_values(|g: (Seq<char>, nat)| g.0).drop_last() =~= q.map_values(
            |g: (Seq<char>, nat)| g.0,
        ));
        assert(gs[gs.len() - 1].1 == path_count(cs, gs[gs.len() - 1].0));
    }
}

/// A group listing accounts for every citation: its counts add up to the
/// number of citations, so grouping hides detail but never drops a citation.
pub proof fn law_group_counts_add_up(cs: Seq<CitationRecord>, gs: Seq<(Seq<char>, nat)>)
    requires
        is_group_listing(cs, gs),
    ensures
        listed_total(gs) == cs.len(),
{
    let ps = gs.map_values(|g: (Seq<char>, nat)| g.0);
    assert forall|i: int, j: int| 0 <= i < j < ps.len() implies ps[i] != ps[j] by {
        assert(group_before(gs[i], gs[j]));
        if ps[i] == ps[j] {
            assert(gs[i].1 == path_count(cs, gs[i].0));
            assert(gs[j].1 == path_count(cs, gs[j].0));
            lemma_seq_lt_irreflexive(gs[i].0);
        }
    }
    assert forall|k: int| 0 <= k < cs.len() implies ps.contains(#[trigger] cs[k].path@) by {
        assert(group_listed(gs, cs[k].path@));
        let i = choose|i: int| 0 <= i < gs.len() && (#[trigger] gs[i]).0 == cs[k].path@;
        assert(ps[i] == cs[k].path@);
    }
    lemma_counts_cover(cs, ps);
    lemma_listed_total_is_counts(cs, gs);
}

/// The `Claims (N)` header counts exactly the claim lines listed under it:
/// after it come N lines, every `verifies` line and then every
/// `implements` line, and then the blank line before the citations.
pub proof fn law_the_claims_header_counts_the_claims_listed(
    r: TraceReport,
    cites: Seq<Seq<char>>,
)
    ensures
        ({
            let ls = spec_trace_result_lines(r, cites);
            let claims = r.claims.verifies@.map_values(|v: VerifiesRecord| verifies_line(v))
                + r.claims.implements@.map_values(|i: ImplementsRecord| implements_line(i));
            let n = claims.len();
            &&& n == r.claims.verifies@.len() + r.claims.implements@.len()
            &&& ls[1] == "Claims ("@ + dec(n) + ")"@
            &&& ls.subrange(2, 2 + n as int) == claims
            &&& ls[2 + n as int] == Seq::<char>::empty()
        }),
{
    let ls = spec_trace_result_lines(r, cites);
    let claims = r.claims.verifies@.map_values(|v: VerifiesRecord| verifies_line(v))
        + r.claims.implements@.map_values(|i: ImplementsRecord| implements_line(i));
    let n = claims.len() as int;
    assert(ls.subrange(2, 2 + n) =~= claims);
    assert(ls[2 + n] == Seq::<char>::empty());
}

/// Every line-heuristic record raises the confidence caveat, a citation as
/// much as a claim; and with no such record there is no caveat.
pub proof fn law_a_line_heuristic_record_raises_the_caveat(r: TraceReport, token: Seq<char>)
    ensures
        ((exists|i: int| 0 <= i < r.citations@.len() && (#[trigger] r.citations@[i]).confidence@ == token)
            || (exists|i: int|
            0 <= i < r.claims.verifies@.len() && opt_seq(#[trigger] r.claims.verifies@[i].confidence)
                == Some(token)) || (exists|i: int|
            0 <= i < r.claims.implements@.len() && opt_seq(
                #[trigger] r.claims.implements@[i].confidence,
            ) == Some(token))) <==> (spec_trace_notices(r, token).len() > 0 && spec_trace_notices(
            r,
            token,
        ).last() == ("TraceConfidence"@, confidence_caveat())),
{
    reveal_strlit("TraceConfidence");
    reveal_strlit("TraceCitationsExcluded");
    assert("TraceConfidence"@.len() != "TraceCitationsExcluded"@.len());
}

} // verus!
