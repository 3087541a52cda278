//! `quire assurance`: the premises the caller accepts for an assurance export.
//!
//! The engine owns the corpus, the projection and the fail-closed reader. This
//! module reads the exact module and schema premises from the command line and
//! assembles the accepted premise set the reader checks the export against.
use vstd::prelude::*;

use crate::text::{chars_of, same_chars, slice_of, string_of};
use crate::trace::{path_lt, seq_lt, lemma_seq_lt_irreflexive, lemma_seq_lt_total,
    lemma_seq_lt_transitive};

verus! {

broadcast use vstd::string::group_string_axioms;

/// The index of the last `c` in `s` (`str::rsplit_once`'s split point).
pub open spec fn last_at(s: Seq<char>, c: char) -> Option<int>
    decreases s.len(),
{
    if s.len() == 0 {
        None
    } else if s.last() == c {
        Some(s.len() - 1)
    } else {
        last_at(s.drop_last(), c)
    }
}

proof fn lemma_last_at_bounds(s: Seq<char>, c: char)
    ensures
        last_at(s, c) matches Some(i) ==> 0 <= i < s.len() && s[i] == c,
    decreases s.len(),
{
    if s.len() > 0 && s.last() != c {
        lemma_last_at_bounds(s.drop_last(), c);
    }
}

/// The index of the last `c` in `v`.
fn last_index(v: &[char], c: char) -> (r: Option<usize>)
    ensures
        r matches Some(i) ==> last_at(v@, c) == Some(i as int) && i < v@.len(),
        r is None ==> last_at(v@, c) is None,
{
    let mut i: usize = v.len();
    assert(v@.take(v@.len() as int) =~= v@);
    while i > 0
        invariant
            i <= v@.len(),
            last_at(v@, c) == last_at(v@.take(i as int), c),
        decreases i,
    {
        if v[i - 1] == c {
            assert(v@.take(i as int).last() == c);
            return Some(i - 1);
        }
        assert(v@.take(i as int).drop_last() =~= v@.take(i - 1));
        i = i - 1;
    }
    None
}

/// The one accepted module premise, `NAME@VERSION`.
#[derive(Debug, Clone, PartialEq, Eq)]
pub struct ExpectedModule {
    pub name: String,
    pub version: String,
}

/// `NAME@VERSION`, split at the last `@`; both parts non-empty.
pub open spec fn spec_parse_module(v: Seq<char>) -> Result<(Seq<char>, Seq<char>), Seq<char>> {
    match last_at(v, '@') {
        None => Err("expected NAME@VERSION"@),
        Some(i) => if i == 0 || i == v.len() - 1 {
            Err("expected non-empty NAME@VERSION"@)
        } else {
            Ok((v.take(i), v.skip(i + 1)))
        },
    }
}

impl ExpectedModule {
    /// Read `NAME@VERSION`.
    pub fn parse(value: &str) -> (r: Result<Self, String>)
        ensures
            (match r {
                Ok(m) => spec_parse_module(value@) == Ok::<(Seq<char>, Seq<char>), Seq<char>>(
                    (m.name@, m.version@),
                ),
                Err(e) => spec_parse_module(value@) == Err::<(Seq<char>, Seq<char>), Seq<char>>(e@),
            }),
    {
        let v = chars_of(value);
        proof {
            lemma_last_at_bounds(v@, '@');
        }
        match last_index(&v, '@') {
            None => Err(String::from_str("expected NAME@VERSION")),
            Some(i) => {
                if i == 0 || i == v.len() - 1 {
                    return Err(String::from_str("expected non-empty NAME@VERSION"));
                }
                let name = slice_of(&v, 0, i);
                let version = slice_of(&v, i + 1, v.len());
                assert(name@ =~= v@.take(i as int));
                assert(version@ =~= v@.skip(i + 1));
                Ok(ExpectedModule { name: string_of(&name), version: string_of(&version) })
            },
        }
    }
}

impl std::str::FromStr for ExpectedModule {
    type Err = String;

    fn from_str(value: &str) -> (r: Result<Self, String>)
        ensures
            (match r {
                Ok(m) => spec_parse_module(value@) == Ok::<(Seq<char>, Seq<char>), Seq<char>>(
                    (m.name@, m.version@),
                ),
                Err(e) => spec_parse_module(value@) == Err::<(Seq<char>, Seq<char>), Seq<char>>(e@),
            }),
    {
        ExpectedModule::parse(value)
    }
}

/// One accepted active-archetype premise, `MODULE/ARCHETYPE@SHA256`.
#[derive(Debug, Clone, PartialEq, Eq)]
pub struct ExpectedSchema {
    pub module: String,
    pub archetype: String,
    pub digest: String,
}

/// A lowercase hexadecimal digit.
pub open spec fn is_lower_hex(c: char) -> bool {
    ('0' <= c && c <= '9') || ('a' <= c && c <= 'f')
}

/// A schema digest: exactly 64 lowercase hexadecimal digits.
pub open spec fn is_digest(d: Seq<char>) -> bool {
    d.len() == 64 && forall|i: int| 0 <= i < d.len() ==> is_lower_hex(#[trigger] d[i])
}

/// `MODULE/ARCHETYPE@SHA256`: the digest after the last `@`, the archetype
/// after the last `/` before it, both name parts non-empty, the digest 64
/// lowercase hexadecimal digits.
pub open spec fn spec_parse_schema(v: Seq<char>) -> Result<(Seq<char>, Seq<char>, Seq<char>), Seq<char>> {
    match last_at(v, '@') {
        None => Err("expected MODULE/ARCHETYPE@SHA256"@),
        Some(i) => {
            let identity = v.take(i);
            let digest = v.skip(i + 1);
            match last_at(identity, '/') {
                None => Err("expected MODULE/ARCHETYPE@SHA256"@),
                Some(j) => if j == 0 || j == identity.len() - 1 {
                    Err("expected non-empty MODULE/ARCHETYPE@SHA256"@)
                } else if !is_digest(digest) {
                    Err("schema digest must be 64 lowercase hexadecimal characters"@)
                } else {
                    Ok((identity.take(j), identity.skip(j + 1), digest))
                },
            }
        },
    }
}

/// Whether every character of `d` is a lowercase hexadecimal digit.
fn all_lower_hex(d: &[char]) -> (b: bool)
    ensures
        b == forall|i: int| 0 <= i < d@.len() ==> is_lower_hex(#[trigger] d@[i]),
{
    let mut i: usize = 0;
    while i < d.len()
        invariant
            i <= d@.len(),
            forall|k: int| 0 <= k < i ==> is_lower_hex(#[trigger] d@[k]),
        decreases d@.len() - i,
    {
        let c = d[i];
        if !(('0' <= c && c <= '9') || ('a' <= c && c <= 'f')) {
            assert(!is_lower_hex(d@[i as int]));
            return false;
        }
        i = i + 1;
    }
    true
}

impl ExpectedSchema {
    /// Read `MODULE/ARCHETYPE@SHA256`.
    pub fn parse(value: &str) -> (r: Result<Self, String>)
        ensures
            (match r {
                Ok(s) => spec_parse_schema(value@) == Ok::<
                    (Seq<char>, Seq<char>, Seq<char>),
                    Seq<char>,
                >((s.module@, s.archetype@, s.digest@)),
                Err(e) => spec_parse_schema(value@) == Err::<
                    (Seq<char>, Seq<char>, Seq<char>),
                    Seq<char>,
                >(e@),
            }),
    {
        let v = chars_of(value);
        proof {
            lemma_last_at_bounds(v@, '@');
        }
        let i = match last_index(&v, '@') {
            None => {
                return Err(String::from_str("expected MODULE/ARCHETYPE@SHA256"));
            },
            Some(i) => i,
        };
        let identity = slice_of(&v, 0, i);
        let digest = slice_of(&v, i + 1, v.len());
        assert(identity@ =~= v@.take(i as int));
        assert(digest@ =~= v@.skip(i + 1));
        proof {
            lemma_last_at_bounds(identity@, '/');
        }
        let j = match last_index(&identity, '/') {
            None => {
                return Err(String::from_str("expected MODULE/ARCHETYPE@SHA256"));
            },
            Some(j) => j,
        };
        if j == 0 || j == identity.len() - 1 {
            return Err(String::from_str("expected non-empty MODULE/ARCHETYPE@SHA256"));
        }
        if digest.len() != 64 || !all_lower_hex(&digest) {
            return Err(String::from_str("schema digest must be 64 lowercase hexadecimal characters"));
        }
        let module = slice_of(&identity, 0, j);
        let archetype = slice_of(&identity, j + 1, identity.len());
        assert(module@ =~= identity@.take(j as int));
        assert(archetype@ =~= identity@.skip(j + 1));
        Ok(
            ExpectedSchema {
                module: string_of(&module),
                archetype: string_of(&archetype),
                digest: string_of(&digest),
            },
        )
    }
}

impl std::str::FromStr for ExpectedSchema {
    type Err = String;

    fn from_str(value: &str) -> (r: Result<Self, String>)
        ensures
            (match r {
                Ok(s) => spec_parse_schema(value@) == Ok::<
                    (Seq<char>, Seq<char>, Seq<char>),
                    Seq<char>,
                >((s.module@, s.archetype@, s.digest@)),
                Err(e) => spec_parse_schema(value@) == Err::<
                    (Seq<char>, Seq<char>, Seq<char>),
                    Seq<char>,
                >(e@),
            }),
    {
        ExpectedSchema::parse(value)
    }
}

/// An accepted schema: the archetype and its schema digest.
#[derive(Debug, Clone, PartialEq, Eq)]
pub struct AssuranceSchemaPremise {
    pub archetype: String,
    pub schema_digest: String,
}

/// The accepted module, with its accepted schemas.
#[derive(Debug, Clone, PartialEq, Eq)]
pub struct AssuranceModulePremise {
    pub name: String,
    pub version: String,
    pub schemas: Vec<AssuranceSchemaPremise>,
}

/// The premise set an assurance export is read against.
#[derive(Debug, Clone, PartialEq, Eq)]
pub struct AcceptedAssurancePremises {
    pub format_version: u32,
    pub modules: Vec<AssuranceModulePremise>,
}

/// A schema premise as characters: (archetype, digest).
pub open spec fn premise_view(p: AssuranceSchemaPremise) -> (Seq<char>, Seq<char>) {
    (p.archetype@, p.schema_digest@)
}

/// The tuples of the expected schemas, in the order given.
pub open spec fn schema_tuples(v: Seq<ExpectedSchema>) -> Seq<(Seq<char>, Seq<char>)> {
    v.map_values(|s: ExpectedSchema| (s.archetype@, s.digest@))
}

/// The order of schema premises: by archetype, then by digest.
pub open spec fn premise_lt(a: (Seq<char>, Seq<char>), b: (Seq<char>, Seq<char>)) -> bool {
    seq_lt(a.0, b.0) || (a.0 == b.0 && seq_lt(a.1, b.1))
}

/// `s` is strictly increasing in the premise order (so no tuple occurs twice).
pub open spec fn strictly_sorted(s: Seq<(Seq<char>, Seq<char>)>) -> bool {
    forall|i: int, j: int| 0 <= i < j < s.len() ==> premise_lt(#[trigger] s[i], #[trigger] s[j])
}

/// Some tuple occurs twice in `s`.
pub open spec fn has_duplicate(s: Seq<(Seq<char>, Seq<char>)>) -> bool {
    exists|i: int, j: int| 0 <= i < j < s.len() && #[trigger] s[i] == #[trigger] s[j]
}

/// The first schema whose module is not the expected module's name.
pub open spec fn first_foreign(schemas: Seq<ExpectedSchema>, name: Seq<char>) -> Option<int> {
    if exists|i: int| 0 <= i < schemas.len() && (#[trigger] schemas[i]).module@ != name {
        Some(
            choose|i: int|
                0 <= i < schemas.len() && (#[trigger] schemas[i]).module@ != name && forall|k: int|
                    0 <= k < i ==> (#[trigger] schemas[k]).module@ == name,
        )
    } else {
        None
    }
}

/// The refusal of a schema premise for another module.
pub open spec fn foreign_message(module: Seq<char>, name: Seq<char>) -> Seq<char> {
    "schema premise module '"@ + module + "' does not match expected module '"@ + name + "'"@
}

proof fn lemma_premise_lt_irreflexive(a: (Seq<char>, Seq<char>))
    ensures
        !premise_lt(a, a),
{
    lemma_seq_lt_irreflexive(a.0);
    lemma_seq_lt_irreflexive(a.1);
}

proof fn lemma_premise_lt_transitive(
    a: (Seq<char>, Seq<char>),
    b: (Seq<char>, Seq<char>),
    c: (Seq<char>, Seq<char>),
)
    requires
        premise_lt(a, b),
        premise_lt(b, c),
    ensures
        premise_lt(a, c),
{
    if seq_lt(a.0, b.0) && seq_lt(b.0, c.0) {
        lemma_seq_lt_transitive(a.0, b.0, c.0);
    } else if a.0 == b.0 && b.0 == c.0 {
        lemma_seq_lt_transitive(a.1, b.1, c.1);
    }
}

proof fn lemma_premise_lt_total(a: (Seq<char>, Seq<char>), b: (Seq<char>, Seq<char>))
    requires
        a != b,
    ensures
        premise_lt(a, b) || premise_lt(b, a),
{
    if a.0 != b.0 {
        lemma_seq_lt_total(a.0, b.0);
    } else {
        lemma_seq_lt_total(a.1, b.1);
    }
}

/// Whether premise `a` sorts before `b`.
fn premise_before(a: &AssuranceSchemaPremise, b: &AssuranceSchemaPremise) -> (r: bool)
    ensures
        r == premise_lt(premise_view(*a), premise_view(*b)),
{
    let a0 = chars_of(a.archetype.as_str());
    let b0 = chars_of(b.archetype.as_str());
    if path_lt(&a0, &b0) {
        return true;
    }
    if !same_chars(&a0, &b0) {
        return false;
    }
    let a1 = chars_of(a.schema_digest.as_str());
    let b1 = chars_of(b.schema_digest.as_str());
    path_lt(&a1, &b1)
}

/// Whether two premises are the same tuple.
fn premise_eq(a: &AssuranceSchemaPremise, b: &AssuranceSchemaPremise) -> (r: bool)
    ensures
        r == (premise_view(*a) == premise_view(*b)),
{
    let a0 = chars_of(a.archetype.as_str());
    let b0 = chars_of(b.archetype.as_str());
    let a1 = chars_of(a.schema_digest.as_str());
    let b1 = chars_of(b.schema_digest.as_str());
    same_chars(&a0, &b0) && same_chars(&a1, &b1)
}

/// The premise views of a list.
pub open spec fn premise_views(v: Seq<AssuranceSchemaPremise>) -> Seq<(Seq<char>, Seq<char>)> {
    v.map_values(|p: AssuranceSchemaPremise| premise_view(p))
}

/// Assemble the accepted premise set: every schema premise must belong to the
/// expected module (the first that does not is refused); the schema tuples
/// are sorted, and a tuple given twice is refused.
pub fn accepted_premises(module: ExpectedModule, schemas: Vec<ExpectedSchema>) -> (r: Result<
    AcceptedAssurancePremises,
    String,
>)
    ensures
        (match first_foreign(schemas@, module.name@) {
            Some(k) => r matches Err(e) && e@ == foreign_message(schemas@[k].module@, module.name@),
            None => if has_duplicate(schema_tuples(schemas@)) {
                r matches Err(e) && e@ == "assurance schema premise set contains a duplicate tuple"@
            } else {
                r matches Ok(acc) && acc.format_version == 1 && acc.modules@.len() == 1
                    && acc.modules@[0].name@ == module.name@ && acc.modules@[0].version@
                    == module.version@ && strictly_sorted(premise_views(acc.modules@[0].schemas@))
                    && premise_views(acc.modules@[0].schemas@).len() == schemas@.len() && (forall|
                    t: (Seq<char>, Seq<char>),
                | #[trigger] premise_views(acc.modules@[0].schemas@).contains(t)
                    <==> schema_tuples(schemas@).contains(t))
            },
        }),
{
    let name = chars_of(module.name.as_str());
    let mut k: usize = 0;
    while k < schemas.len()
        invariant
            k <= schemas@.len(),
            name@ == module.name@,
            forall|j: int| 0 <= j < k ==> (#[trigger] schemas@[j]).module@ == module.name@,
        decreases schemas@.len() - k,
    {
        let m = chars_of(schemas[k].module.as_str());
        if !same_chars(&m, &name) {
            let mut e = String::from_str("schema premise module '");
            e.append(schemas[k].module.as_str());
            e.append("' does not match expected module '");
            e.append(module.name.as_str());
            e.append("'");
            proof {
                assert(schemas@[k as int].module@ != module.name@);
                assert(first_foreign(schemas@, module.name@) is Some);
                let c = first_foreign(schemas@, module.name@)->0;
                assert(0 <= c < schemas@.len() && schemas@[c].module@ != module.name@);
                if c < k {
                    assert(schemas@[c].module@ == module.name@);
                } else if c > k {
                    assert(schemas@[k as int].module@ == module.name@);
                }
            }
            return Err(e);
        }
        k = k + 1;
    }
    assert(first_foreign(schemas@, module.name@) is None);
    let ghost input = schema_tuples(schemas@);
    let mut sorted: Vec<AssuranceSchemaPremise> = Vec::new();
    let mut i: usize = 0;
    while i < schemas.len()
        invariant
            i <= schemas@.len(),
            input == schema_tuples(schemas@),
            first_foreign(schemas@, module.name@) is None,
            strictly_sorted(premise_views(sorted@)),
            premise_views(sorted@).len() == i,
            !has_duplicate(input.take(i as int)),
            forall|t: (Seq<char>, Seq<char>)|
                #[trigger] premise_views(sorted@).contains(t) <==> input.take(i as int).contains(t),
        decreases schemas@.len() - i,
    {
        let p = AssuranceSchemaPremise {
            archetype: schemas[i].archetype.clone(),
            schema_digest: schemas[i].digest.clone(),
        };
        let ghost pv = premise_view(p);
        assert(pv == input[i as int]);
        let ghost sv = premise_views(sorted@);
        // Find the first entry that is not below the new premise.
        let mut pos: usize = 0;
        while pos < sorted.len() && premise_before(&sorted[pos], &p)
            invariant
                pos <= sorted@.len(),
                sv == premise_views(sorted@),
                pv == premise_view(p),
                forall|q: int| 0 <= q < pos ==> premise_lt(#[trigger] sv[q], pv),
            decreases sorted@.len() - pos,
        {
            pos = pos + 1;
        }
        if pos < sorted.len() && premise_eq(&sorted[pos], &p) {
            proof {
                assert(sv[pos as int] == pv);
                assert(sv.contains(pv));
                assert(input.take(i as int).contains(pv));
                let q = choose|q: int| 0 <= q < i && #[trigger] input.take(i as int)[q] == pv;
                assert(input[q] == input[i as int]);
                assert(has_duplicate(input));
            }
            return Err(String::from_str("assurance schema premise set contains a duplicate tuple"));
        }
        proof {
            if pos < sv.len() {
                assert(sv[pos as int] != pv);
                lemma_premise_lt_total(sv[pos as int], pv);
            }
            // Everything from `pos` on sorts after the new premise.
            assert forall|q: int| pos <= q < sv.len() implies premise_lt(pv, #[trigger] sv[q]) by {
                if q > pos {
                    lemma_premise_lt_transitive(pv, sv[pos as int], sv[q]);
                }
            }
            // The new premise is not among the earlier ones.
            assert(!sv.contains(pv)) by {
                if sv.contains(pv) {
                    let q = choose|q: int| 0 <= q < sv.len() && #[trigger] sv[q] == pv;
                    lemma_premise_lt_irreflexive(pv);
                }
            }
        }
        sorted.insert(pos, p);
        proof {
            let nv = premise_views(sorted@);
            assert(nv =~= sv.insert(pos as int, pv));
            assert forall|a: int, b: int| 0 <= a < b < nv.len() implies premise_lt(
                #[trigger] nv[a],
                #[trigger] nv[b],
            ) by {
                if a < pos && b == pos {
                } else if a < pos && b > pos {
                    lemma_premise_lt_transitive(nv[a], pv, nv[b]);
                } else if a == pos {
                } else {
                }
            }
            assert(input.take(i + 1) =~= input.take(i as int).push(pv));
            assert forall|t: (Seq<char>, Seq<char>)|
                #[trigger] nv.contains(t) <==> input.take(i + 1).contains(t) by {
                if nv.contains(t) {
                    let q = choose|q: int| 0 <= q < nv.len() && #[trigger] nv[q] == t;
                    if q < pos {
                        assert(sv[q] == t);
                        assert(sv.contains(t));
                        assert(input.take(i as int).contains(t));
                        let w = choose|w: int| 0 <= w < i && #[trigger] input.take(i as int)[w] == t;
                        assert(input.take(i + 1)[w] == t);
                    } else if q == pos {
                        assert(input.take(i + 1)[i as int] == t);
                    } else {
                        assert(sv[q - 1] == t);
                        assert(sv.contains(t));
                        assert(input.take(i as int).contains(t));
                        let w = choose|w: int| 0 <= w < i && #[trigger] input.take(i as int)[w] == t;
                        assert(input.take(i + 1)[w] == t);
                    }
                }
                if input.take(i + 1).contains(t) {
                    let w = choose|w: int| 0 <= w < i + 1 && #[trigger] input.take(i + 1)[w] == t;
                    if w < i {
                        assert(input.take(i as int)[w] == t);
                        assert(input.take(i as int).contains(t));
                        assert(sv.contains(t));
                        let q = choose|q: int| 0 <= q < sv.len() && #[trigger] sv[q] == t;
                        if q < pos {
                            assert(nv[q] == t);
                        } else {
                            assert(nv[q + 1] == t);
                        }
                    } else {
                        assert(nv[pos as int] == t);
                    }
                }
            }
            assert(!has_duplicate(input.take(i + 1))) by {
                if has_duplicate(input.take(i + 1)) {
                    let (a, b) = choose|a: int, b: int|
                        0 <= a < b < i + 1 && #[trigger] input.take(i + 1)[a]
                            == #[trigger] input.take(i + 1)[b];
                    if b == i {
                        assert(input.take(i as int)[a] == pv);
                        assert(input.take(i as int).contains(pv));
                    } else {
                        assert(input.take(i as int)[a] == input.take(i as int)[b]);
                    }
                }
            }
        }
        i = i + 1;
    }
    assert(input.take(schemas@.len() as int) =~= input);
    let mut modules: Vec<AssuranceModulePremise> = Vec::new();
    modules.push(
        AssuranceModulePremise { name: module.name, version: module.version, schemas: sorted },
    );
    Ok(AcceptedAssurancePremises { format_version: 1, modules })
}

} // verus!
