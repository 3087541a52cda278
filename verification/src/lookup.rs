//! Heading matching for `quire lookup`: section-number normalization and the
//! case-insensitive comparison built on it, plus the selector rule.
use vstd::prelude::*;

use crate::text::{chars_of, same_chars, is_whitespace, is_ws, slice_of, string_of, trim, trim_chars, trim_end, trim_start};

verus! {

/// `char::is_ascii_digit`.
pub open spec fn is_digit(c: char) -> bool {
    '0' <= c && c <= '9'
}

/// The number of leading ASCII digits of `s`.
pub open spec fn digit_run(s: Seq<char>) -> nat
    decreases s.len(),
{
    if s.len() > 0 && is_digit(s[0]) {
        1 + digit_run(s.drop_first())
    } else {
        0
    }
}

/// Where a section number that has consumed `t[..p]` ends. The number is
/// `D(.D)*` optionally followed by one more `.`; a `.` followed by neither a
/// digit nor whitespace spoils it (`None`).
pub open spec fn number_end(t: Seq<char>, p: nat) -> Option<nat>
    decreases t.len() - p,
{
    if p < t.len() && t[p as int] == '.' {
        let r = digit_run(t.skip(p + 1 as int));
        if r > 0 {
            proof {
                lemma_digit_run_bound(t.skip(p + 1 as int));
            }
            number_end(t, p + 1 + r)
        } else if p + 1 < t.len() && is_ws(t[p + 1 as int]) {
            Some(p + 1)
        } else {
            None
        }
    } else {
        Some(p)
    }
}

/// A heading with any leading section number (`3`, `1.2`, `4.`) removed,
/// when that number is followed by whitespace; otherwise the trimmed heading.
pub open spec fn spec_normalize_heading(heading: Seq<char>) -> Seq<char> {
    let t = trim(heading);
    let d = digit_run(t);
    if d == 0 {
        t
    } else {
        match number_end(t, d) {
            None => t,
            Some(e) => if e < t.len() && is_ws(t[e as int]) {
                trim_start(t.skip(e as int))
            } else {
                t
            },
        }
    }
}

/// ASCII lower-casing of one character.
pub open spec fn ascii_lower(c: char) -> char {
    if 'A' <= c && c <= 'Z' {
        ((c as u32) + 32) as char
    } else {
        c
    }
}

/// `str::eq_ignore_ascii_case`.
pub open spec fn eq_ignore_ascii_case(a: Seq<char>, b: Seq<char>) -> bool {
    a.len() == b.len() && forall|i: int| 0 <= i < a.len() ==> ascii_lower(#[trigger] a[i]) == ascii_lower(b[i])
}

/// Whether a section heading answers a `--heading` query.
pub open spec fn spec_heading_matches(heading: Seq<char>, query: Seq<char>) -> bool {
    eq_ignore_ascii_case(spec_normalize_heading(heading), spec_normalize_heading(query))
}

/// The leading digit run is within `s` and made of digits only.
pub proof fn lemma_digit_run_bound(s: Seq<char>)
    ensures
        digit_run(s) <= s.len(),
        forall|i: int| 0 <= i < digit_run(s) ==> is_digit(#[trigger] s[i]),
        digit_run(s) < s.len() ==> !is_digit(s[digit_run(s) as int]),
    decreases s.len(),
{
    if s.len() > 0 && is_digit(s[0]) {
        lemma_digit_run_bound(s.drop_first());
        assert forall|i: int| 0 <= i < digit_run(s) implies is_digit(#[trigger] s[i]) by {
            if i > 0 {
                assert(s[i] == s.drop_first()[i - 1]);
            }
        }
    }
}

proof fn lemma_trim_start_is_suffix(s: Seq<char>)
    ensures
        trim_start(s).is_suffix_of(s),
    decreases s.len(),
{
    if s.len() > 0 && is_ws(s[0]) {
        lemma_trim_start_is_suffix(s.drop_first());
        let t = trim_start(s.drop_first());
        assert(s.subrange(s.len() - t.len(), s.len() as int) =~= s.drop_first().subrange(
            s.drop_first().len() - t.len(),
            s.drop_first().len() as int,
        ));
    } else {
        assert(s.subrange(0, s.len() as int) =~= s);
    }
}

/// Normalization only ever removes a leading part: the result is a suffix
/// of the trimmed heading.
pub proof fn law_normalized_is_suffix_of_trimmed(heading: Seq<char>)
    ensures
        spec_normalize_heading(heading).is_suffix_of(trim(heading)),
{
    let t = trim(heading);
    assert(t.subrange(0, t.len() as int) =~= t);
    let d = digit_run(t);
    if d != 0 {
        if let Some(e) = number_end(t, d) {
            if e < t.len() && is_ws(t[e as int]) {
                let r = t.skip(e as int);
                lemma_trim_start_is_suffix(r);
                let u = trim_start(r);
                assert(t.subrange(t.len() - u.len(), t.len() as int) =~= r.subrange(
                    r.len() - u.len(),
                    r.len() as int,
                ));
            }
        }
    }
}

/// The number of leading ASCII digits of `v[from..]`.
fn digit_run_at(v: &[char], from: usize) -> (n: usize)
    requires
        from <= v@.len(),
    ensures
        n == digit_run(v@.skip(from as int)),
        from + n <= v@.len(),
{
    let mut i = from;
    proof {
        lemma_digit_run_bound(v@.skip(from as int));
    }
    while i < v.len() && '0' <= v[i] && v[i] <= '9'
        invariant
            from <= i <= v@.len(),
            digit_run(v@.skip(from as int)) == (i - from) + digit_run(v@.skip(i as int)),
        decreases v@.len() - i,
    {
        assert(v@.skip(i as int).drop_first() =~= v@.skip(i + 1));
        i = i + 1;
    }
    i - from
}

/// The heading with a leading section number (`1.2`, `3.`, `4`) removed
/// when whitespace follows it, compared after trimming.
pub fn normalize_heading(heading: &str) -> (out: String)
    ensures
        out@ == spec_normalize_heading(heading@),
{
    let raw = chars_of(heading);
    let t = trim_chars(&raw);
    let d = digit_run_at(&t, 0);
    assert(t@.skip(0) =~= t@);
    if d == 0 {
        return string_of(&t);
    }
    let mut p = d;
    let mut end: Option<usize> = None;
    loop
        invariant
            0 < d <= p <= t@.len(),
            number_end(t@, d as nat) == number_end(t@, p as nat),
            end matches Some(e) ==> number_end(t@, d as nat) == Some(e as nat) && e <= t@.len(),
        ensures
            end matches Some(e) ==> number_end(t@, d as nat) == Some(e as nat) && e <= t@.len(),
            end is None ==> number_end(t@, d as nat) is None,
        decreases t@.len() - p,
    {
        if p < t.len() && t[p] == '.' {
            let r = digit_run_at(&t, p + 1);
            if r > 0 {
                p = p + 1 + r;
            } else if p + 1 < t.len() && is_whitespace(t[p + 1]) {
                end = Some(p + 1);
                break;
            } else {
                end = None;
                break;
            }
        } else {
            end = Some(p);
            break;
        }
    }
    match end {
        None => string_of(&t),
        Some(e) => {
            if e < t.len() && is_whitespace(t[e]) {
                let rest = slice_of(&t, e, t.len());
                assert(rest@ =~= t@.skip(e as int));
                let mut lo: usize = 0;
                assert(rest@.subrange(0, rest@.len() as int) =~= rest@);
                while lo < rest.len() && is_whitespace(rest[lo])
                    invariant
                        lo <= rest@.len(),
                        trim_start(rest@) == trim_start(rest@.subrange(lo as int, rest@.len() as int)),
                    decreases rest@.len() - lo,
                {
                    assert(rest@.subrange(lo as int, rest@.len() as int).drop_first() =~= rest@.subrange(
                        lo + 1,
                        rest@.len() as int,
                    ));
                    lo = lo + 1;
                }
                let out = slice_of(&rest, lo, rest.len());
                assert(trim_start(out@) == out@) by {
                    if lo < rest@.len() {
                        assert(out@[0] == rest@[lo as int]);
                    }
                }
                string_of(&out)
            } else {
                string_of(&t)
            }
        },
    }
}

/// ASCII lower-casing of one character.
pub(crate) fn to_ascii_lower(c: char) -> (l: char)
    ensures
        l == ascii_lower(c),
{
    if 'A' <= c && c <= 'Z' {
        let code = (c as u32) + 32;
        // An upper-case ASCII letter shifted by 32 is its lower-case letter.
        lower_of(code)
    } else {
        c
    }
}

/// The lower-case letter with code `code` (`'a'..='z'`).
fn lower_of(code: u32) -> (c: char)
    requires
        97 <= code <= 122,
    ensures
        c == code as char,
{
    let letters = chars_of("abcdefghijklmnopqrstuvwxyz");
    proof {
        reveal_strlit("abcdefghijklmnopqrstuvwxyz");
    }
    let c = letters[(code - 97) as usize];
    assert(c as u32 == code) by {
        assert(letters@[(code - 97) as int] == "abcdefghijklmnopqrstuvwxyz"@[(code - 97) as int]);
    }
    c
}

/// `str::eq_ignore_ascii_case` over characters.
fn same_ignoring_ascii_case(a: &[char], b: &[char]) -> (r: bool)
    ensures
        r == eq_ignore_ascii_case(a@, b@),
{
    if a.len() != b.len() {
        return false;
    }
    let mut i: usize = 0;
    while i < a.len()
        invariant
            i <= a@.len() == b@.len(),
            forall|j: int| 0 <= j < i ==> ascii_lower(#[trigger] a@[j]) == ascii_lower(b@[j]),
        decreases a@.len() - i,
    {
        if to_ascii_lower(a[i]) != to_ascii_lower(b[i]) {
            return false;
        }
        i = i + 1;
    }
    true
}

/// Whether a section heading answers a `--heading` query: both sides
/// number-normalized, then compared ignoring ASCII case.
pub fn heading_matches(heading: &str, query: &str) -> (r: bool)
    ensures
        r == spec_heading_matches(heading@, query@),
{
    let h = normalize_heading(heading);
    let q = normalize_heading(query);
    let hc = chars_of(h.as_str());
    let qc = chars_of(q.as_str());
    same_ignoring_ascii_case(&hc, &qc)
}

/// What the lookup tree search reads of a parsed section: its parser id, its
/// optional block id, and its subsections.
#[derive(Debug)]
pub struct SectionKey {
    pub id: String,
    pub block_id: Option<String>,
    pub children: Vec<SectionKey>,
}

/// Whether section `s` carries the id `id` (`by_block` false) or the block id
/// `id` (`by_block` true).
pub open spec fn key_hit(s: SectionKey, id: Seq<char>, by_block: bool) -> bool {
    if by_block {
        s.block_id matches Some(b) && b@ == id
    } else {
        s.id@ == id
    }
}

/// The depth-first, pre-order search of `secs` from index `i`: the index path
/// of the first section carrying `id`, checking each section before its
/// subsections and those before its later siblings.
pub open spec fn find_from(secs: Seq<SectionKey>, i: int, id: Seq<char>, by_block: bool) -> Option<
    Seq<usize>,
>
    decreases secs, secs.len() - i,
{
    if i < 0 || i >= secs.len() {
        None
    } else if key_hit(secs[i], id, by_block) {
        Some(seq![i as usize])
    } else {
        let sub = secs[i].children@;
        proof {
            assert(decreases_to!(secs => secs[i]));
        }
        match find_from(sub, 0, id, by_block) {
            Some(p) => Some(seq![i as usize] + p),
            None => find_from(secs, i + 1, id, by_block),
        }
    }
}

/// The index path as a sequence.
pub open spec fn opt_path(r: Option<Vec<usize>>) -> Option<Seq<usize>> {
    match r {
        Some(v) => Some(v@),
        None => None,
    }
}

/// Whether `s` carries `id` as its id or block id.
fn hits(s: &SectionKey, id: &[char], by_block: bool) -> (b: bool)
    ensures
        b == key_hit(*s, id@, by_block),
{
    if by_block {
        match &s.block_id {
            Some(b) => {
                let c = chars_of(b.as_str());
                same_chars(&c, id)
            },
            None => false,
        }
    } else {
        let c = chars_of(s.id.as_str());
        same_chars(&c, id)
    }
}

/// Search `secs` depth-first, pre-order, for the first section carrying `id`.
fn find_path(secs: &Vec<SectionKey>, id: &[char], by_block: bool) -> (r: Option<Vec<usize>>)
    ensures
        opt_path(r) == find_from(secs@, 0, id@, by_block),
    decreases secs@,
{
    let mut i: usize = 0;
    while i < secs.len()
        invariant
            i <= secs@.len(),
            find_from(secs@, 0, id@, by_block) == find_from(secs@, i as int, id@, by_block),
        decreases secs@.len() - i,
    {
        if hits(&secs[i], id, by_block) {
            let mut p: Vec<usize> = Vec::new();
            p.push(i);
            assert(p@ =~= seq![i]);
            return Some(p);
        }
        proof {
            assert(decreases_to!(secs@ => secs@[i as int]));
        }
        match find_path(&secs[i].children, id, by_block) {
            Some(sub) => {
                let mut p: Vec<usize> = Vec::new();
                p.push(i);
                let mut k: usize = 0;
                while k < sub.len()
                    invariant
                        k <= sub@.len(),
                        p@ == seq![i] + sub@.take(k as int),
                    decreases sub@.len() - k,
                {
                    p.push(sub[k]);
                    assert(sub@.take(k + 1) =~= sub@.take(k as int).push(sub@[k as int]));
                    k = k + 1;
                    assert(p@ =~= seq![i] + sub@.take(k as int));
                }
                assert(sub@.take(sub@.len() as int) =~= sub@);
                return Some(p);
            },
            None => {},
        }
        i = i + 1;
    }
    None
}

/// The index path of the first section, depth-first and pre-order, whose
/// parser id is `id`.
pub fn find_by_id(sections: &Vec<SectionKey>, id: &str) -> (r: Option<Vec<usize>>)
    ensures
        opt_path(r) == find_from(sections@, 0, id@, false),
{
    let key = chars_of(id);
    find_path(sections, &key, false)
}

/// The index path of the first section, depth-first and pre-order, whose
/// block id is `block_id`.
pub fn find_by_block_id(sections: &Vec<SectionKey>, block_id: &str) -> (r: Option<Vec<usize>>)
    ensures
        opt_path(r) == find_from(sections@, 0, block_id@, true),
{
    let key = chars_of(block_id);
    find_path(sections, &key, true)
}

/// Which section `quire lookup` selects.
#[derive(Debug, Clone, PartialEq, Eq)]
pub enum LookupSelector {
    /// By heading text, optionally at one ATX level.
    Heading { heading: String, level: Option<u8> },
    /// By parser-derived section id.
    Id(String),
    /// By block id.
    BlockId(String),
}

/// How many of the three selectors were given.
pub open spec fn given(a: bool, b: bool, c: bool) -> nat {
    (if a { 1nat } else { 0nat }) + (if b { 1nat } else { 0nat }) + (if c { 1nat } else { 0nat })
}

/// Exactly one of `--heading`, `--id` and `--block-id` selects the section.
pub fn lookup_selector(
    heading: Option<String>,
    id: Option<String>,
    block_id: Option<String>,
    level: Option<u8>,
) -> (r: Result<LookupSelector, String>)
    ensures
        given(heading is Some, id is Some, block_id is Some) != 1 ==> (r matches Err(e) && e@
            == "lookup requires exactly one of --heading, --id, or --block-id"@),
        heading is Some && id is None && block_id is None ==> r == Ok::<
            LookupSelector,
            String,
        >(LookupSelector::Heading { heading: heading->0, level }),
        id is Some && heading is None && block_id is None ==> r == Ok::<
            LookupSelector,
            String,
        >(LookupSelector::Id(id->0)),
        block_id is Some && heading is None && id is None ==> r == Ok::<
            LookupSelector,
            String,
        >(LookupSelector::BlockId(block_id->0)),
{
    match (heading, id, block_id) {
        (Some(h), None, None) => Ok(LookupSelector::Heading { heading: h, level }),
        (None, Some(i), None) => Ok(LookupSelector::Id(i)),
        (None, None, Some(b)) => Ok(LookupSelector::BlockId(b)),
        _ => Err(String::from_str("lookup requires exactly one of --heading, --id, or --block-id")),
    }
}

/// The refusal of a selector that matched no section.
pub open spec fn spec_not_found(sel: LookupSelector) -> Seq<char> {
    match sel {
        LookupSelector::Heading { heading, .. } => "section not found for --heading '"@ + heading@
            + "'"@,
        LookupSelector::Id(i) => "section not found for --id '"@ + i@ + "'"@,
        LookupSelector::BlockId(b) => "section not found for --block-id '"@ + b@ + "'"@,
    }
}

/// The refusal of a selector that matched no section.
pub fn not_found_message(sel: &LookupSelector) -> (s: String)
    ensures
        s@ == spec_not_found(*sel),
{
    let (flag, value) = match sel {
        LookupSelector::Heading { heading, .. } => ("section not found for --heading '", heading),
        LookupSelector::Id(i) => ("section not found for --id '", i),
        LookupSelector::BlockId(b) => ("section not found for --block-id '", b),
    };
    let mut s = String::from_str(flag);
    s.append(value.as_str());
    s.append("'");
    s
}

/// The digit run of digits followed by a non-digit is the digits.
proof fn lemma_digit_run_of_digits(d: Seq<char>, rest: Seq<char>)
    requires
        forall|i: int| 0 <= i < d.len() ==> is_digit(#[trigger] d[i]),
        rest.len() > 0,
        !is_digit(rest[0]),
    ensures
        digit_run(d + rest) == d.len(),
    decreases d.len(),
{
    if d.len() == 0 {
        assert(d + rest =~= rest);
    } else {
        lemma_digit_run_of_digits(d.drop_first(), rest);
        assert((d + rest).drop_first() =~= d.drop_first() + rest);
        assert((d + rest)[0] == d[0]);
    }
}

/// A heading numbered `N` or `N.` (digits) and then a space reads as its
/// title: the number is dropped, so `1. Behavior` answers `--heading
/// Behavior`, whatever case the query is written in.
pub proof fn law_a_numbered_heading_answers_its_title(d: Seq<char>, dot: bool, title: Seq<char>)
    requires
        d.len() > 0,
        forall|i: int| 0 <= i < d.len() ==> is_digit(#[trigger] d[i]),
        title.len() > 0,
        !is_ws(title[0]),
        !is_ws(title.last()),
        !is_digit(title[0]),
    ensures
        spec_normalize_heading((if dot { d.push('.') } else { d }) + seq![' '] + title) == title,
        spec_heading_matches((if dot { d.push('.') } else { d }) + seq![' '] + title, title),
{
    let n = if dot { d.push('.') } else { d };
    let s = n + seq![' '] + title;
    assert(s[0] == d[0]);
    assert(!is_ws(s[0]));
    assert(trim_start(s) == s);
    assert(s.last() == title.last());
    assert(trim_end(s) == s);
    assert(trim(s) == s);
    let rest = s.skip(d.len() as int);
    assert(s =~= d + rest);
    assert(rest[0] == if dot { '.' } else { ' ' });
    lemma_digit_run_of_digits(d, rest);
    let e: nat = if dot { d.len() + 1 } else { d.len() };
    assert(s[e as int] == ' ');
    if dot {
        assert(s.skip(d.len() + 1 as int)[0] == ' ');
        assert(digit_run(s.skip(d.len() + 1 as int)) == 0);
    }
    assert(number_end(s, d.len()) == Some(e));
    assert(s.skip(e as int) =~= seq![' '] + title);
    assert((seq![' '] + title).drop_first() =~= title);
    assert(trim_start(title) == title);
    assert(trim_start(s.skip(e as int)) == title);
    assert(trim(title) == title) by {
        assert(trim_start(title) == title);
        assert(trim_end(title) == title);
    }
    assert(digit_run(title) == 0);
    assert(spec_normalize_heading(title) == title);
}

/// Whether `c` may appear in a section number: an ASCII digit or a dot.
pub open spec fn is_number_char(c: char) -> bool {
    is_digit(c) || c == '.'
}

/// Where the run of digits and dots starting at `p` ends.
pub open spec fn number_run_end(t: Seq<char>, p: nat) -> nat
    decreases t.len() - p,
{
    if p < t.len() && is_number_char(t[p as int]) {
        number_run_end(t, p + 1)
    } else {
        p
    }
}

/// Whether `t[p..n]` is a sequence of `.D+` groups, optionally closed by
/// one more `.`: the tail of `^[0-9]+(\.[0-9]+)*\.?$`.
pub open spec fn dotted_groups(t: Seq<char>, p: nat, n: nat) -> bool
    decreases n - p,
{
    if p >= n {
        p == n
    } else if p + 1 == n {
        t[p as int] == '.'
    } else {
        let r = digit_run(t.skip(p + 1 as int));
        t[p as int] == '.' && r > 0 && p + 1 + r <= n && dotted_groups(t, p + 1 + r, n)
    }
}

/// The heading rule as a pattern: after trimming, a leading section number
/// `^[0-9]+(\.[0-9]+)*\.?` that is followed by whitespace is dropped along
/// with that whitespace; anything else is the trimmed heading itself.
pub open spec fn heading_by_pattern(heading: Seq<char>) -> Seq<char> {
    let t = trim(heading);
    let n = number_run_end(t, 0);
    if digit_run(t) > 0 && dotted_groups(t, digit_run(t), n) && n < t.len() && is_ws(t[n as int]) {
        trim_start(t.skip(n as int))
    } else {
        t
    }
}

/// Over a run of number characters the run's end does not move.
proof fn lemma_number_run_end_skips(t: Seq<char>, p: nat, q: nat)
    requires
        p <= q <= t.len(),
        forall|m: int| p <= m < q ==> is_number_char(#[trigger] t[m]),
    ensures
        number_run_end(t, p) == number_run_end(t, q),
    decreases q - p,
{
    if p < q {
        lemma_number_run_end_skips(t, p + 1, q);
    }
}

/// The digit run of `t` from `i`, read by index.
proof fn lemma_digit_run_at(t: Seq<char>, i: int)
    requires
        0 <= i <= t.len(),
    ensures
        i + digit_run(t.skip(i)) <= t.len(),
        forall|m: int| i <= m < i + digit_run(t.skip(i)) ==> is_digit(#[trigger] t[m]),
        i + digit_run(t.skip(i)) < t.len() ==> !is_digit(t[i + digit_run(t.skip(i))]),
{
    lemma_digit_run_bound(t.skip(i));
    let r = digit_run(t.skip(i));
    assert forall|m: int| i <= m < i + r implies is_digit(#[trigger] t[m]) by {
        assert(t.skip(i)[m - i] == t[m]);
    }
    if i + r < t.len() {
        assert(t.skip(i)[r as int] == t[i + r]);
    }
}

/// Reading a section number from `p` (a position after a digit run)
/// agrees with the pattern: it ends at whitespace exactly when the rest of
/// the number run is dotted groups followed by whitespace, and then at the
/// run's end.
proof fn lemma_number_end_is_the_pattern(t: Seq<char>, p: nat)
    requires
        p <= t.len(),
        p < t.len() ==> !is_digit(t[p as int]),
    ensures
        ({
            let n = number_run_end(t, p);
            &&& (number_end(t, p) matches Some(e) && e < t.len() && is_ws(t[e as int])) <==> (
            dotted_groups(t, p, n) && n < t.len() && is_ws(t[n as int]))
            &&& (number_end(t, p) matches Some(e) && e < t.len() && is_ws(t[e as int])) ==> number_end(
                t,
                p,
            ) == Some(n)
        }),
    decreases t.len() - p,
{
    let n = number_run_end(t, p);
    let pi = p as int;
    if p < t.len() && t[pi] == '.' {
        lemma_digit_run_at(t, pi + 1);
        let r = digit_run(t.skip(pi + 1));
        if r > 0 {
            let q = (p + 1 + r) as nat;
            lemma_number_run_end_skips(t, p, q);
            lemma_number_end_is_the_pattern(t, q);
            assert(is_number_char(t[pi + 1]));
            lemma_number_run_end_skips(t, p, (p + 2) as nat);
            lemma_number_run_end_ge(t, (p + 2) as nat);
        } else {
            if pi + 1 < t.len() && is_number_char(t[pi + 1]) {
                assert(t[pi + 1] == '.');
                lemma_number_run_end_skips(t, p, (p + 2) as nat);
                lemma_number_run_end_ge(t, (p + 2) as nat);
            } else {
                lemma_number_run_end_skips(t, p, (p + 1) as nat);
                assert(number_run_end(t, (p + 1) as nat) == p + 1);
            }
        }
    } else {
        assert(n == p);
    }
}

/// The run of number characters never ends before where it starts.
proof fn lemma_number_run_end_ge(t: Seq<char>, p: nat)
    ensures
        number_run_end(t, p) >= p,
    decreases t.len() - p,
{
    if p < t.len() && is_number_char(t[p as int]) {
        lemma_number_run_end_ge(t, p + 1);
    }
}

/// `normalize_heading` is the pattern rule: after trimming, a leading
/// `^[0-9]+(\.[0-9]+)*\.?` followed by whitespace is dropped with that
/// whitespace, and any other heading (`10x Engineers`, `1.x Foo`, `1.`,
/// `12`) comes back trimmed and otherwise unchanged.
pub proof fn law_normalize_heading_is_the_pattern_rule(heading: Seq<char>)
    ensures
        spec_normalize_heading(heading) == heading_by_pattern(heading),
{
    let t = trim(heading);
    let d = digit_run(t);
    if d > 0 {
        lemma_digit_run_at(t, 0);
        assert(t.skip(0) =~= t);
        lemma_number_run_end_skips(t, 0, d);
        lemma_number_end_is_the_pattern(t, d);
    }
}

} // verus!
