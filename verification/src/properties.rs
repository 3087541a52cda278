//! `quire properties`: per-criterion property-shape classification.
//!
//! The engine classifies each acceptance criterion. This module keeps the
//! human census of what it classified: how many criteria, how many are
//! extractable or candidates, and how many fall under each property shape.
//! These numbers inform the reader; this module never reports a finding.
use vstd::prelude::*;

use crate::io::{emit_notices, emit_result, notice_views, Diagnostics, Notice};
use crate::text::{chars_of, dec, push_dec, same_chars};
use crate::trace::{path_lt, seq_lt, lemma_seq_lt_irreflexive, lemma_seq_lt_total,
    lemma_seq_lt_transitive};
use crate::tsv::join;

verus! {

broadcast use vstd::string::group_string_axioms;

/// Whether a criterion's property can be extracted into a test.
#[derive(Debug, Clone, Copy, PartialEq, Eq, Structural)]
pub enum Extraction {
    Extractable,
    Candidate,
    NotExtractable,
}

/// What the census reads of one classified criterion: its property shape
/// label, whether that shape is a specific one rather than the catch-all,
/// and its extraction verdict.
#[derive(Debug, Clone, PartialEq, Eq)]
pub struct CriterionShape {
    pub property: String,
    pub specific: bool,
    pub extraction: Extraction,
}

/// How many of `rs` have property `p`.
pub open spec fn property_count(rs: Seq<CriterionShape>, p: Seq<char>) -> nat
    decreases rs.len(),
{
    if rs.len() == 0 {
        0
    } else {
        property_count(rs.drop_last(), p) + if rs.last().property@ == p {
            1nat
        } else {
            0nat
        }
    }
}

/// How many of `rs` have extraction `e`.
pub open spec fn extraction_count(rs: Seq<CriterionShape>, e: Extraction) -> nat
    decreases rs.len(),
{
    if rs.len() == 0 {
        0
    } else {
        extraction_count(rs.drop_last(), e) + if rs.last().extraction == e {
            1nat
        } else {
            0nat
        }
    }
}

/// How many of `rs` are extractable and have a specific shape.
pub open spec fn specific_count(rs: Seq<CriterionShape>) -> nat
    decreases rs.len(),
{
    if rs.len() == 0 {
        0
    } else {
        specific_count(rs.drop_last()) + if rs.last().extraction == Extraction::Extractable
            && rs.last().specific {
            1nat
        } else {
            0nat
        }
    }
}

/// The human census.
#[derive(Debug, Clone, PartialEq, Eq)]
pub struct Census {
    pub criteria: usize,
    pub extractable: usize,
    /// The extractable criteria whose shape is a specific one, not the
    /// catch-all.
    pub specific: usize,
    pub candidate: usize,
    /// Per property shape, how many criteria: ordered by shape, each shape
    /// once, every count positive.
    pub by_property: Vec<(String, usize)>,
}

/// The count listed for `p`, zero when `p` is not listed.
pub open spec fn listed_count(h: Seq<(String, usize)>, p: Seq<char>) -> nat
    decreases h.len(),
{
    if h.len() == 0 {
        0
    } else {
        listed_count(h.drop_last(), p) + if h.last().0@ == p {
            h.last().1 as nat
        } else {
            0nat
        }
    }
}

/// `listed_count` adds up over concatenation.
proof fn lemma_listed_append(a: Seq<(String, usize)>, b: Seq<(String, usize)>, p: Seq<char>)
    ensures
        listed_count(a + b, p) == listed_count(a, p) + listed_count(b, p),
    decreases b.len(),
{
    if b.len() == 0 {
        assert(a + b =~= a);
    } else {
        assert((a + b).drop_last() =~= a + b.drop_last());
        lemma_listed_append(a, b.drop_last(), p);
    }
}

/// `listed_count` of one entry.
proof fn lemma_listed_one(x: (String, usize), p: Seq<char>)
    ensures
        listed_count(seq![x], p) == if x.0@ == p {
            x.1 as nat
        } else {
            0nat
        },
{
    assert(seq![x].drop_last() =~= Seq::<(String, usize)>::empty());
    assert(listed_count(Seq::<(String, usize)>::empty(), p) == 0);
    assert(seq![x].last() == x);
}

/// A histogram: shapes strictly increasing, every count positive.
pub open spec fn histogram_wf(h: Seq<(String, usize)>) -> bool {
    &&& forall|i: int, j: int| 0 <= i < j < h.len() ==> seq_lt(#[trigger] h[i].0@, #[trigger] h[j].0@)
    &&& forall|i: int| 0 <= i < h.len() ==> (#[trigger] h[i]).1 > 0
}

impl Census {
    /// A census of nothing.
    pub fn new() -> (c: Census)
        ensures
            c.criteria == 0 && c.extractable == 0 && c.specific == 0 && c.candidate == 0,
            c.by_property@.len() == 0,
            c.wf(),
    {
        Census { criteria: 0, extractable: 0, specific: 0, candidate: 0, by_property: Vec::new() }
    }

    /// The census is well formed: its histogram is, and the counts agree.
    pub open spec fn wf(&self) -> bool {
        &&& histogram_wf(self.by_property@)
        &&& self.extractable + self.candidate <= self.criteria
        &&& self.specific <= self.extractable
        &&& forall|i: int|
            0 <= i < self.by_property@.len() ==> (#[trigger] self.by_property@[i]).1 <= self.criteria
    }

    /// Count `records` into the census.
    pub fn add(&mut self, records: &[CriterionShape])
        requires
            old(self).wf(),
            old(self).criteria + records@.len() <= usize::MAX,
        ensures
            final(self).wf(),
            final(self).criteria == old(self).criteria + records@.len(),
            final(self).extractable == old(self).extractable + extraction_count(
                records@,
                Extraction::Extractable,
            ),
            final(self).specific == old(self).specific + specific_count(records@),
            final(self).candidate == old(self).candidate + extraction_count(
                records@,
                Extraction::Candidate,
            ),
            forall|p: Seq<char>|
                #[trigger] listed_count(final(self).by_property@, p) == listed_count(
                    old(self).by_property@,
                    p,
                ) + property_count(records@, p),
    {
        let ghost h0 = self.by_property@;
        let ghost e0 = self.extractable;
        let ghost c0 = self.candidate;
        let ghost s0 = self.specific;
        let ghost n0 = self.criteria;
        let mut i: usize = 0;
        while i < records.len()
            invariant
                i <= records@.len(),
                self.wf(),
                n0 + records@.len() <= usize::MAX,
                self.criteria == n0 + i,
                self.extractable == e0 + extraction_count(records@.take(i as int), Extraction::Extractable),
                self.candidate == c0 + extraction_count(records@.take(i as int), Extraction::Candidate),
                self.specific == s0 + specific_count(records@.take(i as int)),
                forall|p: Seq<char>|
                    #[trigger] listed_count(self.by_property@, p) == listed_count(h0, p)
                        + property_count(records@.take(i as int), p),
            decreases records@.len() - i,
        {
            let r = &records[i];
            assert(records@.take(i + 1).drop_last() =~= records@.take(i as int));
            assert(records@.take(i + 1).last() == *r);
            let ghost hb = self.by_property@;
            bump(&mut self.by_property, r.property.as_str(), self.criteria);
            self.criteria = self.criteria + 1;
            match r.extraction {
                Extraction::Extractable => {
                    self.extractable = self.extractable + 1;
                    if r.specific {
                        self.specific = self.specific + 1;
                    }
                },
                Extraction::Candidate => {
                    self.candidate = self.candidate + 1;
                },
                Extraction::NotExtractable => {},
            }
            assert forall|p: Seq<char>|
                #[trigger] listed_count(self.by_property@, p) == listed_count(h0, p)
                    + property_count(records@.take(i + 1), p) by {
                assert(listed_count(hb, p) == listed_count(h0, p) + property_count(
                    records@.take(i as int),
                    p,
                ));
            }
            i = i + 1;
        }
        assert(records@.take(records@.len() as int) =~= records@);
    }

    /// The census headline: the extractable ratio, with the part of it that
    /// has a specific shape beside it, and the candidates.
    pub fn headline(&self) -> (line: String)
        requires
            self.wf(),
            self.extractable * 100 <= usize::MAX,
        ensures
            line@ == census_headline(*self),
    {
        let mut line = String::new();
        push_dec(&mut line, self.extractable);
        line.append("/");
        push_dec(&mut line, self.criteria);
        line.append(" criteria extractable (");
        push_dec(&mut line, percent(self.extractable, self.criteria));
        line.append("%), ");
        push_dec(&mut line, self.specific);
        line.append(" with a specific shape, ");
        push_dec(&mut line, self.candidate);
        line.append(" candidate");
        line
    }

    /// The census diagnostics: the histogram of property shapes, when
    /// anything was classified.
    pub fn messages(&self) -> (out: Vec<Notice>)
        ensures
            notice_views(out@) == census_notices(*self),
    {
        let mut out: Vec<Notice> = Vec::new();
        if self.criteria > 0 {
            let h = histogram_text(&self.by_property);
            out.push(Notice { kind: String::from_str("PropertyShapes"), message: h });
        }
        proof {
            reveal_strlit("");
        }
        assert(notice_views(out@) =~= census_notices(*self));
        out
    }

    /// Emit the census: the headline as a result on stdout, the histogram
    /// as a diagnostic on stderr.
    pub fn emit(&self, diagnostics: Diagnostics)
        requires
            self.wf(),
            self.extractable * 100 <= usize::MAX,
    {
        let line = self.headline();
        emit_result(line.as_str());
        let m = self.messages();
        emit_notices(diagnostics, &m);
    }
}

/// `part * 100 / whole`, rounded down; zero when `whole` is zero.
pub open spec fn spec_percent(part: nat, whole: nat) -> nat {
    if whole == 0 {
        0
    } else {
        part * 100 / whole
    }
}

/// The rounded-down percentage of `part` in `whole`.
pub fn percent(part: usize, whole: usize) -> (p: usize)
    requires
        part * 100 <= usize::MAX,
    ensures
        p == spec_percent(part as nat, whole as nat),
{
    if whole == 0 {
        0
    } else {
        part * 100 / whole
    }
}

/// `shape=n` for one histogram entry.
pub open spec fn histogram_entry(e: (String, usize)) -> Seq<char> {
    e.0@ + "="@ + dec(e.1 as nat)
}

/// The histogram as text: `shape=n` entries in shape order, space-separated.
pub open spec fn spec_histogram_text(h: Seq<(String, usize)>) -> Seq<char> {
    join(h.map_values(|e: (String, usize)| histogram_entry(e)), " "@)
}

/// The census headline.
pub open spec fn census_headline(c: Census) -> Seq<char> {
    dec(c.extractable as nat) + "/"@ + dec(c.criteria as nat) + " criteria extractable ("@ + dec(
        spec_percent(c.extractable as nat, c.criteria as nat),
    ) + "%), "@ + dec(c.specific as nat) + " with a specific shape, "@ + dec(c.candidate as nat)
        + " candidate"@
}

/// The diagnostics of a census: the shape histogram, when anything was
/// classified.
pub open spec fn census_notices(c: Census) -> Seq<(Seq<char>, Seq<char>)> {
    if c.criteria > 0 {
        seq![("PropertyShapes"@, spec_histogram_text(c.by_property@))]
    } else {
        Seq::empty()
    }
}

/// The histogram as text.
fn histogram_text(h: &Vec<(String, usize)>) -> (s: String)
    ensures
        s@ == spec_histogram_text(h@),
{
    let ghost all = h@.map_values(|e: (String, usize)| histogram_entry(e));
    let mut s = String::new();
    let mut i: usize = 0;
    while i < h.len()
        invariant
            i <= h@.len(),
            all == h@.map_values(|e: (String, usize)| histogram_entry(e)),
            s@ == join(all.take(i as int), " "@),
        decreases h@.len() - i,
    {
        assert(all.take(i + 1).drop_last() =~= all.take(i as int));
        assert(all.take(i + 1).last() == histogram_entry(h@[i as int]));
        let mut e = String::from_str(h[i].0.as_str());
        e.append("=");
        push_dec(&mut e, h[i].1);
        if i > 0 {
            s.append(" ");
        } else {
            assert(all.take(1)[0] == histogram_entry(h@[0]));
        }
        s.append(e.as_str());
        i = i + 1;
        if i == 1 {
            assert(s@ =~= join(all.take(i as int), " "@));
        }
    }
    assert(all.take(h@.len() as int) =~= all);
    s
}

/// Count one more criterion of property `p` into the histogram.
fn bump(h: &mut Vec<(String, usize)>, p: &str, bound: usize)
    requires
        histogram_wf(old(h)@),
        bound < usize::MAX,
        forall|i: int| 0 <= i < old(h)@.len() ==> (#[trigger] old(h)@[i]).1 <= bound,
    ensures
        histogram_wf(final(h)@),
        forall|i: int| 0 <= i < final(h)@.len() ==> (#[trigger] final(h)@[i]).1 <= bound + 1,
        listed_count(final(h)@, p@) == listed_count(old(h)@, p@) + 1,
        forall|q: Seq<char>| q != p@ ==> #[trigger] listed_count(final(h)@, q) == listed_count(old(h)@, q),
{
    let key = chars_of(p);
    let ghost h0 = h@;
    let mut pos: usize = 0;
    loop
        invariant
            pos <= h@.len(),
            h@ == h0,
            key@ == p@,
            histogram_wf(h0),
            bound < usize::MAX,
            forall|i: int| 0 <= i < h0.len() ==> (#[trigger] h0[i]).1 <= bound,
            forall|q: int| 0 <= q < pos ==> seq_lt(#[trigger] h0[q].0@, p@),
        ensures
            pos <= h0.len(),
            h@ == h0,
            forall|q: int| 0 <= q < pos ==> seq_lt(#[trigger] h0[q].0@, p@),
            pos == h0.len() || !seq_lt(h0[pos as int].0@, p@),
        decreases h@.len() - pos,
    {
        if pos == h.len() {
            break;
        }
        let k = chars_of(h[pos].0.as_str());
        if !path_lt(&k, &key) {
            break;
        }
        pos = pos + 1;
    }
    if pos < h.len() {
        let k = chars_of(h[pos].0.as_str());
        if same_chars(&k, &key) {
            let n = h[pos].1;
            let next = n + 1;
            let name = h[pos].0.clone();
            h.set(pos, (name, next));
            proof {
                let x = h0[pos as int];
                let y = h@[pos as int];
                assert(h@ =~= h0.take(pos as int) + seq![y] + h0.skip(pos + 1));
                assert(h0 =~= h0.take(pos as int) + seq![x] + h0.skip(pos + 1));
                assert forall|q: Seq<char>| #[trigger] listed_count(h@, q) == listed_count(h0, q)
                    + (if q == p@ { 1nat } else { 0nat }) by {
                    lemma_listed_append(h0.take(pos as int) + seq![y], h0.skip(pos + 1), q);
                    lemma_listed_append(h0.take(pos as int), seq![y], q);
                    lemma_listed_append(h0.take(pos as int) + seq![x], h0.skip(pos + 1), q);
                    lemma_listed_append(h0.take(pos as int), seq![x], q);
                    lemma_listed_one(x, q);
                    lemma_listed_one(y, q);
                }
                assert(listed_count(h@, p@) == listed_count(h0, p@) + 1);
            }
            return;
        }
    }
    proof {
        if pos < h0.len() {
            lemma_seq_lt_total(h0[pos as int].0@, p@);
        }
    }
    h.insert(pos, (String::from_str(p), 1));
    proof {
        let h1 = h@;
        assert(h1 =~= h0.insert(pos as int, (h1[pos as int].0, 1usize)));
        assert forall|q: int| pos <= q < h0.len() implies seq_lt(p@, #[trigger] h0[q].0@) by {
            if q > pos {
                assert(seq_lt(h0[pos as int].0@, h0[q].0@));
                lemma_seq_lt_transitive(p@, h0[pos as int].0@, h0[q].0@);
            }
        }
        assert forall|a: int, b: int| 0 <= a < b < h1.len() implies seq_lt(
            #[trigger] h1[a].0@,
            #[trigger] h1[b].0@,
        ) by {
            if a < pos && b > pos {
                assert(h1[b] == h0[b - 1]);
                assert(seq_lt(p@, h0[b - 1].0@));
                lemma_seq_lt_transitive(h1[a].0@, p@, h1[b].0@);
            } else if a == pos && b > pos {
                assert(h1[b] == h0[b - 1]);
            } else if a > pos {
                assert(h1[a] == h0[a - 1]);
                assert(h1[b] == h0[b - 1]);
            }
        }
        assert forall|i: int| 0 <= i < h0.len() implies (#[trigger] h0[i]).0@ != p@ by {
            if i < pos {
                lemma_seq_lt_irreflexive(p@);
            } else if i > pos {
                assert(seq_lt(p@, h0[i].0@));
                lemma_seq_lt_irreflexive(p@);
            } else {
                lemma_seq_lt_irreflexive(p@);
            }
        }
        let x = h1[pos as int];
        assert(h1 =~= h0.take(pos as int) + seq![x] + h0.skip(pos as int));
        assert(h0 =~= h0.take(pos as int) + h0.skip(pos as int));
        assert forall|q: Seq<char>| #[trigger] listed_count(h1, q) == listed_count(h0, q)
            + (if q == p@ { 1nat } else { 0nat }) by {
            lemma_listed_append(h0.take(pos as int) + seq![x], h0.skip(pos as int), q);
            lemma_listed_append(h0.take(pos as int), seq![x], q);
            lemma_listed_append(h0.take(pos as int), h0.skip(pos as int), q);
            lemma_listed_one(x, q);
        }
        assert(listed_count(h1, p@) == listed_count(h0, p@) + 1);
    }
}

/// The failure of a run in which some documents resolved to no archetype.
pub fn unresolved_verdict(failures: usize) -> (r: Result<(), String>)
    ensures
        failures == 0 ==> r is Ok,
        failures > 0 ==> (r matches Err(e) && e@ == dec(failures as nat)
            + " document(s) could not be resolved to an archetype"@),
{
    if failures > 0 {
        let mut e = String::new();
        push_dec(&mut e, failures);
        e.append(" document(s) could not be resolved to an archetype");
        return Err(e);
    }
    Ok(())
}

/// Counting two batches one after the other counts what counting them
/// together would: each property's count, and each extraction's, add up.
pub proof fn law_counts_add_up(a: Seq<CriterionShape>, b: Seq<CriterionShape>, p: Seq<char>, e: Extraction)
    ensures
        property_count(a + b, p) == property_count(a, p) + property_count(b, p),
        extraction_count(a + b, e) == extraction_count(a, e) + extraction_count(b, e),
    decreases b.len(),
{
    if b.len() == 0 {
        assert(a + b =~= a);
    } else {
        assert((a + b).drop_last() =~= a + b.drop_last());
        law_counts_add_up(a, b.drop_last(), p, e);
    }
}

} // verus!
