//! Read the resolved `quire-rs` version out of a Cargo lockfile.
//!
//! A git source's `?tag=` / `?rev=` / `?branch=` fragment is what the operator
//! pinned, and it wins over the stanza's own `version` field; a path
//! dependency has no locator, so its manifest version is the answer. An
//! absent package is `None`: the parser never guesses.
use vstd::prelude::*;

use crate::text::{
    after_first, after_first_chars, before_first, before_first_chars, chars_of, has_prefix,
    is_whitespace, lines, lines_of, opt_chars, same_chars, slice_of, split_chars, split_on,
    string_of, trim, trim_chars, trim_start,
};

verus! {

/// `key = "value"` → `value`, for the exact key.
pub open spec fn spec_strip_kv(line: Seq<char>, key: Seq<char>) -> Option<Seq<char>> {
    if key.is_prefix_of(line) {
        let after = trim_start(line.skip(key.len() as int));
        if after.len() > 0 && after[0] == '=' {
            let v = trim(after.skip(1));
            if v.len() >= 2 && v[0] == '"' && v.last() == '"' {
                Some(v.subrange(1, v.len() - 1))
            } else {
                None
            }
        } else {
            None
        }
    } else {
        None
    }
}

/// The value of one query parameter when it is `tag=`, `rev=` or `branch=`:
/// a tag loses one leading `v` so that it reads as a version; a `rev=` or
/// `branch=` value travels verbatim.
pub open spec fn param_value(p: Seq<char>) -> Option<Seq<char>> {
    if "tag="@.is_prefix_of(p) {
        Some(strip_v(p.skip(4)))
    } else if "rev="@.is_prefix_of(p) {
        Some(p.skip(4))
    } else if "branch="@.is_prefix_of(p) {
        Some(p.skip(7))
    } else {
        None
    }
}

/// A ref name read as a version: one leading `v` dropped.
pub open spec fn strip_v(v: Seq<char>) -> Seq<char> {
    if v.len() > 0 && v[0] == 'v' {
        v.skip(1)
    } else {
        v
    }
}

/// The first pinning parameter among `ps`, in order.
pub open spec fn pin_in(ps: Seq<Seq<char>>) -> Option<Seq<char>>
    decreases ps.len(),
{
    if ps.len() == 0 {
        None
    } else {
        match param_value(ps[0]) {
            Some(v) => Some(v),
            None => pin_in(ps.drop_first()),
        }
    }
}

/// The pinned ref out of a git source locator, if it is one:
/// `git+URL?tag=v0.45.0#sha` → `0.45.0`.
pub open spec fn spec_git_pin(source: Seq<char>) -> Option<Seq<char>> {
    if "git+"@.is_prefix_of(source) {
        let query = before_first(source.skip(4), '#');
        match after_first(query, '?') {
            Some(params) => pin_in(split_on(params, '&')),
            None => None,
        }
    } else {
        None
    }
}

/// The lockfile scan, line by line: `in_pkg` says whether the current stanza
/// is `quire-rs`, `manifest` is its last `version` value.
pub open spec fn scan(ls: Seq<Seq<char>>, in_pkg: bool, manifest: Option<Seq<char>>) -> Option<
    Seq<char>,
>
    decreases ls.len(),
{
    if ls.len() == 0 {
        if in_pkg {
            manifest
        } else {
            None
        }
    } else {
        let line = ls[0];
        let rest = ls.drop_first();
        if line == "[[package]]"@ {
            if in_pkg {
                manifest
            } else {
                scan(rest, false, None)
            }
        } else {
            match spec_strip_kv(line, "name"@) {
                Some(name) => scan(rest, name == "quire-rs"@, manifest),
                None => {
                    if !in_pkg {
                        scan(rest, in_pkg, manifest)
                    } else {
                        match spec_strip_kv(line, "version"@) {
                            Some(v) => scan(rest, in_pkg, Some(v)),
                            None => match spec_strip_kv(line, "source"@) {
                                Some(src) => match spec_git_pin(src) {
                                    Some(pin) => Some(pin),
                                    None => scan(rest, in_pkg, manifest),
                                },
                                None => scan(rest, in_pkg, manifest),
                            },
                        }
                    }
                },
            }
        }
    }
}

/// The trimmed lines of a lockfile.
pub open spec fn trimmed_lines(lock: Seq<char>) -> Seq<Seq<char>> {
    lines(lock).map_values(|l: Seq<char>| trim(l))
}

/// What `engine_version` returns for a lockfile's text.
pub open spec fn spec_engine_version(lock: Seq<char>) -> Option<Seq<char>> {
    scan(trimmed_lines(lock), false, None)
}

/// Whether some line of `ls` names the `quire-rs` package.
pub open spec fn names_quire(ls: Seq<Seq<char>>) -> bool {
    exists|i: int| 0 <= i < ls.len() && spec_strip_kv(#[trigger] ls[i], "name"@) == Some("quire-rs"@)
}

proof fn lemma_scan_needs_a_name(ls: Seq<Seq<char>>, in_pkg: bool, manifest: Option<Seq<char>>)
    requires
        scan(ls, in_pkg, manifest) is Some,
    ensures
        in_pkg || names_quire(ls),
    decreases ls.len(),
{
    if ls.len() > 0 && !in_pkg {
        let line = ls[0];
        let rest = ls.drop_first();
        if line != "[[package]]"@ {
            match spec_strip_kv(line, "name"@) {
                Some(name) => {
                    if name == "quire-rs"@ {
                        assert(spec_strip_kv(ls[0], "name"@) == Some("quire-rs"@));
                    } else {
                        lemma_scan_needs_a_name(rest, false, manifest);
                        let i = choose|i: int|
                            0 <= i < rest.len() && spec_strip_kv(#[trigger] rest[i], "name"@)
                                == Some("quire-rs"@);
                        assert(ls[i + 1] == rest[i]);
                    }
                },
                None => {
                    lemma_scan_needs_a_name(rest, false, manifest);
                    let i = choose|i: int|
                        0 <= i < rest.len() && spec_strip_kv(#[trigger] rest[i], "name"@) == Some(
                            "quire-rs"@,
                        );
                    assert(ls[i + 1] == rest[i]);
                },
            }
        } else {
            lemma_scan_needs_a_name(rest, false, None);
            let i = choose|i: int|
                0 <= i < rest.len() && spec_strip_kv(#[trigger] rest[i], "name"@) == Some(
                    "quire-rs"@,
                );
            assert(ls[i + 1] == rest[i]);
        }
    }
}

/// An absent dependency is absent rather than guessed: whenever a version is
/// reported, some line of the lockfile names `quire-rs`.
pub proof fn law_version_only_for_a_named_package(lock: Seq<char>)
    requires
        spec_engine_version(lock) is Some,
    ensures
        names_quire(trimmed_lines(lock)),
{
    lemma_scan_needs_a_name(trimmed_lines(lock), false, None);
}

/// Whether `line` names the `quire-rs` package.
pub open spec fn names_quire_line(line: Seq<char>) -> bool {
    spec_strip_kv(line, "name"@) == Some("quire-rs"@)
}

/// Between lines `a` and `b` (both excluded) no stanza starts and no
/// package is named.
pub open spec fn quiet_between(ls: Seq<Seq<char>>, a: int, b: int) -> bool {
    forall|m: int|
        a < m < b ==> #[trigger] ls[m] != "[[package]]"@ && spec_strip_kv(ls[m], "name"@) is None
}

/// Whether `line` gives `v` as a version: its `version` value, or the pinned
/// ref of its git `source`.
pub open spec fn gives_version(line: Seq<char>, v: Seq<char>) -> bool {
    ||| spec_strip_kv(line, "version"@) == Some(v)
    ||| (spec_strip_kv(line, "source"@) matches Some(src) && spec_git_pin(src) == Some(v))
}

/// Line `j` gives `v` inside the stanza that line `k` names `quire-rs`.
pub open spec fn read_in_quire_stanza(ls: Seq<Seq<char>>, k: int, j: int, v: Seq<char>) -> bool {
    &&& 0 <= k < j < ls.len()
    &&& names_quire_line(ls[k])
    &&& quiet_between(ls, k, j)
    &&& gives_version(ls[j], v)
}

/// Whether some line before `i` gives `v` inside a `quire-rs` stanza.
pub open spec fn read_before(ls: Seq<Seq<char>>, i: int, v: Seq<char>) -> bool {
    exists|k: int, j: int| j < i && #[trigger] read_in_quire_stanza(ls, k, j, v)
}

/// The scan's state at line `i` is what the lines before it say: inside the
/// package only after a `quire-rs` name with nothing between, and a carried
/// version only one read inside such a stanza.
pub open spec fn scan_state_ok(
    ls: Seq<Seq<char>>,
    i: int,
    in_pkg: bool,
    manifest: Option<Seq<char>>,
) -> bool {
    &&& in_pkg ==> exists|k: int|
        0 <= k < i && #[trigger] names_quire_line(ls[k]) && quiet_between(ls, k, i)
    &&& manifest matches Some(m) ==> read_before(ls, i, m)
}

proof fn lemma_scan_reads_the_quire_stanza(
    ls: Seq<Seq<char>>,
    i: int,
    in_pkg: bool,
    manifest: Option<Seq<char>>,
)
    requires
        0 <= i <= ls.len(),
        scan_state_ok(ls, i, in_pkg, manifest),
    ensures
        scan(ls.skip(i), in_pkg, manifest) matches Some(v) ==> read_before(ls, ls.len() as int, v),
    decreases ls.len() - i,
{
    if let Some(m) = manifest {
        let (k, j) = choose|k: int, j: int| j < i && #[trigger] read_in_quire_stanza(ls, k, j, m);
        assert(read_in_quire_stanza(ls, k, j, m));
    }
    if i < ls.len() {
        let line = ls[i];
        let rest = ls.skip(i + 1);
        assert(ls.skip(i)[0] == line);
        assert(ls.skip(i).drop_first() =~= rest);
        if line == "[[package]]"@ {
            if !in_pkg {
                lemma_scan_reads_the_quire_stanza(ls, i + 1, false, None);
            }
        } else {
            match spec_strip_kv(line, "name"@) {
                Some(name) => {
                    if name == "quire-rs"@ {
                        assert(names_quire_line(ls[i]));
                        assert(quiet_between(ls, i, i + 1));
                    }
                    if let Some(m) = manifest {
                        let (k, j) = choose|k: int, j: int|
                            j < i && #[trigger] read_in_quire_stanza(ls, k, j, m);
                        assert(read_in_quire_stanza(ls, k, j, m));
                    }
                    lemma_scan_reads_the_quire_stanza(ls, i + 1, name == "quire-rs"@, manifest);
                },
                None => {
                    if !in_pkg {
                        if let Some(m) = manifest {
                            let (k, j) = choose|k: int, j: int|
                                j < i && #[trigger] read_in_quire_stanza(ls, k, j, m);
                            assert(read_in_quire_stanza(ls, k, j, m));
                        }
                        lemma_scan_reads_the_quire_stanza(ls, i + 1, in_pkg, manifest);
                    } else {
                        let k = choose|k: int|
                            0 <= k < i && #[trigger] names_quire_line(ls[k]) && quiet_between(ls, k, i);
                        assert(quiet_between(ls, k, i + 1));
                        match spec_strip_kv(line, "version"@) {
                            Some(v) => {
                                assert(read_in_quire_stanza(ls, k, i, v));
                                lemma_scan_reads_the_quire_stanza(ls, i + 1, in_pkg, Some(v));
                            },
                            None => {
                                if let Some(m) = manifest {
                                    let (k2, j) = choose|k2: int, j: int|
                                        j < i && #[trigger] read_in_quire_stanza(ls, k2, j, m);
                                    assert(read_in_quire_stanza(ls, k2, j, m));
                                }
                                match spec_strip_kv(line, "source"@) {
                                    Some(src) => match spec_git_pin(src) {
                                        Some(pin) => {
                                            assert(read_in_quire_stanza(ls, k, i, pin));
                                        },
                                        None => {
                                            lemma_scan_reads_the_quire_stanza(ls, i + 1, in_pkg, manifest);
                                        },
                                    },
                                    None => {
                                        lemma_scan_reads_the_quire_stanza(ls, i + 1, in_pkg, manifest);
                                    },
                                }
                            },
                        }
                    }
                },
            }
        }
    }
}

/// A reported engine version comes from the `quire-rs` stanza itself: some
/// line names `quire-rs`, and a later line of the same stanza, with no other
/// `name` between them, gives the version, as its `version` value or as the
/// pinned ref of its git `source`. It is never read from another package.
pub proof fn law_version_comes_from_the_quire_stanza(lock: Seq<char>)
    ensures
        spec_engine_version(lock) matches Some(v) ==> read_before(
            trimmed_lines(lock),
            trimmed_lines(lock).len() as int,
            v,
        ),
{
    let ls = trimmed_lines(lock);
    assert(ls.skip(0) =~= ls);
    lemma_scan_reads_the_quire_stanza(ls, 0, false, None);
}

/// Whether `line` is a git `source` pinned to `v`.
pub open spec fn pins(line: Seq<char>, v: Seq<char>) -> bool {
    spec_strip_kv(line, "source"@) matches Some(src) && spec_git_pin(src) == Some(v)
}

/// Whether `line` is a `source` with a pinned ref.
pub open spec fn is_pinned_source(line: Seq<char>) -> bool {
    spec_strip_kv(line, "source"@) matches Some(src) && spec_git_pin(src) is Some
}

/// A `source` line is no stanza header, no `name` and no `version` line.
proof fn lemma_source_line_is_only_a_source(line: Seq<char>)
    requires
        spec_strip_kv(line, "source"@) is Some,
    ensures
        line != "[[package]]"@,
        spec_strip_kv(line, "name"@) is None,
        spec_strip_kv(line, "version"@) is None,
{
    reveal_strlit("source");
    reveal_strlit("[[package]]");
    reveal_strlit("name");
    reveal_strlit("version");
    assert("source"@.is_prefix_of(line));
    assert(line.subrange(0, 6) == "source"@);
    assert(line.subrange(0, 6)[0] == line[0]);
    assert(line[0] == 's');
    assert("[[package]]"@[0] == '[');
    if "name"@.is_prefix_of(line) {
        assert(line.subrange(0, 4) == "name"@);
        assert(line.subrange(0, 4)[0] == line[0]);
    }
    if "version"@.is_prefix_of(line) {
        assert(line.subrange(0, 7) == "version"@);
        assert(line.subrange(0, 7)[0] == line[0]);
    }
}

/// Inside the `quire-rs` stanza, scanning reaches the first pinned source.
proof fn lemma_scan_reaches_the_pin(
    ls: Seq<Seq<char>>,
    k: int,
    i: int,
    j: int,
    v: Seq<char>,
    manifest: Option<Seq<char>>,
)
    requires
        0 <= k < i <= j < ls.len(),
        quiet_between(ls, k, j),
        forall|m: int| i <= m < j ==> !is_pinned_source(#[trigger] ls[m]),
        pins(ls[j], v),
    ensures
        scan(ls.skip(i), true, manifest) == Some(v),
    decreases j - i,
{
    let line = ls[i];
    assert(ls.skip(i)[0] == line);
    assert(ls.skip(i).drop_first() =~= ls.skip(i + 1));
    if i == j {
        lemma_source_line_is_only_a_source(line);
    } else {
        assert(line != "[[package]]"@ && spec_strip_kv(line, "name"@) is None);
        assert(!is_pinned_source(line));
        match spec_strip_kv(line, "version"@) {
            Some(x) => lemma_scan_reaches_the_pin(ls, k, i + 1, j, v, Some(x)),
            None => lemma_scan_reaches_the_pin(ls, k, i + 1, j, v, manifest),
        }
    }
}

/// Before the first line naming `quire-rs`, the scan only carries on.
proof fn lemma_scan_before_the_stanza(
    ls: Seq<Seq<char>>,
    i: int,
    k: int,
    manifest: Option<Seq<char>>,
)
    requires
        0 <= i <= k < ls.len(),
        forall|m: int| 0 <= m < k ==> !names_quire_line(#[trigger] ls[m]),
    ensures
        exists|m2: Option<Seq<char>>|
            scan(ls.skip(i), false, manifest) == #[trigger] scan(ls.skip(k), false, m2),
    decreases k - i,
{
    if i == k {
        assert(scan(ls.skip(i), false, manifest) == scan(ls.skip(k), false, manifest));
    } else {
        let line = ls[i];
        assert(ls.skip(i)[0] == line);
        assert(ls.skip(i).drop_first() =~= ls.skip(i + 1));
        assert(!names_quire_line(ls[i]));
        if line == "[[package]]"@ {
            lemma_scan_before_the_stanza(ls, i + 1, k, None);
        } else {
            lemma_scan_before_the_stanza(ls, i + 1, k, manifest);
        }
    }
}

/// A git pin wins over the stanza's version: when the first line naming
/// `quire-rs` opens a stanza whose first pinned `source` comes before any
/// other stanza or `name`, the engine version is that pin, whatever
/// `version` lines stand before it.
pub proof fn law_the_git_pin_wins_over_the_version(lock: Seq<char>, k: int, j: int, v: Seq<char>)
    requires
        0 <= k < j < trimmed_lines(lock).len(),
        names_quire_line(trimmed_lines(lock)[k]),
        forall|m: int| 0 <= m < k ==> !names_quire_line(#[trigger] trimmed_lines(lock)[m]),
        quiet_between(trimmed_lines(lock), k, j),
        forall|m: int| k < m < j ==> !is_pinned_source(#[trigger] trimmed_lines(lock)[m]),
        pins(trimmed_lines(lock)[j], v),
    ensures
        spec_engine_version(lock) == Some(v),
{
    let ls = trimmed_lines(lock);
    assert(ls.skip(0) =~= ls);
    lemma_scan_before_the_stanza(ls, 0, k, None);
    let m2 = choose|m2: Option<Seq<char>>|
        scan(ls.skip(0), false, None) == #[trigger] scan(ls.skip(k), false, m2);
    reveal_strlit("[[package]]");
    reveal_strlit("name");
    reveal_strlit("quire-rs");
    let line = ls[k];
    assert(ls.skip(k)[0] == line);
    assert(ls.skip(k).drop_first() =~= ls.skip(k + 1));
    assert(spec_strip_kv(line, "name"@) == Some("quire-rs"@));
    assert("name"@.is_prefix_of(line));
    assert(line.subrange(0, 4) == "name"@);
    assert(line.subrange(0, 4)[0] == line[0]);
    assert(line[0] == 'n');
    assert("[[package]]"@[0] == '[');
    assert(line != "[[package]]"@);
    lemma_scan_reaches_the_pin(ls, k, k + 1, j, v, m2);
}

/// `key = "value"` → `value`, for the exact key.
fn strip_kv(line: &[char], key: &[char]) -> (r: Option<Vec<char>>)
    ensures
        r matches Some(v) ==> spec_strip_kv(line@, key@) == Some(v@),
        r is None ==> spec_strip_kv(line@, key@) is None,
{
    if !has_prefix(line, key) {
        return None;
    }
    let rest = slice_of(line, key.len(), line.len());
    let after_start = trim_start_chars(&rest);
    if after_start.len() == 0 || after_start[0] != '=' {
        return None;
    }
    let tail = slice_of(&after_start, 1, after_start.len());
    let v = trim_chars(&tail);
    if v.len() >= 2 && v[0] == '"' && v[v.len() - 1] == '"' {
        Some(slice_of(&v, 1, v.len() - 1))
    } else {
        None
    }
}

/// `v` without its leading whitespace.
fn trim_start_chars(v: &[char]) -> (out: Vec<char>)
    ensures
        out@ == trim_start(v@),
{
    let mut lo: usize = 0;
    assert(v@.subrange(0, v@.len() as int) =~= v@);
    while lo < v.len() && is_whitespace(v[lo])
        invariant
            lo <= v@.len(),
            trim_start(v@) == trim_start(v@.subrange(lo as int, v@.len() as int)),
        decreases v@.len() - lo,
    {
        assert(v@.subrange(lo as int, v@.len() as int).drop_first() =~= v@.subrange(
            lo + 1,
            v@.len() as int,
        ));
        lo = lo + 1;
    }
    let out = slice_of(v, lo, v.len());
    assert(trim_start(out@) == out@) by {
        if lo < v@.len() {
            assert(out@[0] == v@[lo as int]);
        }
    }
    out
}

/// The value of one query parameter when it is `tag=` (without one leading
/// `v`), `rev=` or `branch=` (verbatim).
fn param_value_chars(p: &[char]) -> (out: Option<Vec<char>>)
    ensures
        opt_chars(out) == param_value(p@),
{
    let tag = chars_of("tag=");
    let rev = chars_of("rev=");
    let branch = chars_of("branch=");
    proof {
        reveal_strlit("tag=");
        reveal_strlit("rev=");
        reveal_strlit("branch=");
    }
    if has_prefix(p, &tag) {
        if p.len() > 4 && p[4] == 'v' {
            Some(slice_of(p, 5, p.len()))
        } else {
            Some(slice_of(p, 4, p.len()))
        }
    } else if has_prefix(p, &rev) {
        Some(slice_of(p, 4, p.len()))
    } else if has_prefix(p, &branch) {
        Some(slice_of(p, 7, p.len()))
    } else {
        None
    }
}

/// The first pinning parameter among `ps`, in order.
fn pin_in_chars(ps: &Vec<Vec<char>>) -> (out: Option<Vec<char>>)
    ensures
        opt_chars(out) == pin_in(ps.deep_view()),
{
    let ghost all = ps.deep_view();
    let mut i: usize = 0;
    assert(all.skip(0) =~= all);
    while i < ps.len()
        invariant
            i <= ps@.len(),
            all == ps.deep_view(),
            pin_in(all) == pin_in(all.skip(i as int)),
        decreases ps@.len() - i,
    {
        assert(all.skip(i as int)[0] == ps[i as int]@);
        assert(all.skip(i as int).drop_first() =~= all.skip(i + 1));
        match param_value_chars(&ps[i]) {
            Some(v) => {
                return Some(v);
            },
            None => {},
        }
        i = i + 1;
    }
    None
}

/// The pinned ref out of a git source locator, if it is one.
///
/// `git+https://github.com/agent-ix/quire-rs?tag=v0.45.0#99e97f0…` → `0.45.0`.
/// A tag's leading `v` is dropped so the value reads as a version rather than
/// a ref name; everything else — `rev=`, `branch=`, a `-<n>-g<sha>` describe
/// suffix — travels verbatim.
fn git_pin(source: &[char]) -> (out: Option<Vec<char>>)
    ensures
        opt_chars(out) == spec_git_pin(source@),
{
    let prefix = chars_of("git+");
    proof {
        reveal_strlit("git+");
    }
    if !has_prefix(source, &prefix) {
        return None;
    }
    let rest = slice_of(source, 4, source.len());
    let query = before_first_chars(&rest, '#');
    match after_first_chars(&query, '?') {
        Some(params) => {
            let ps = split_chars(&params, '&');
            pin_in_chars(&ps)
        },
        None => None,
    }
}

/// Parse the `[[package]]` stanza named `quire-rs` out of a lockfile.
///
/// A git source's pinned ref wins over the stanza's `version`; a path
/// dependency reports its manifest version; an absent package is `None`.
pub fn engine_version(lock: &str) -> (out: Option<String>)
    ensures
        out matches Some(s) ==> spec_engine_version(lock@) == Some(s@),
        out is None ==> spec_engine_version(lock@) is None,
{
    let text = chars_of(lock);
    let ls = lines_of(&text);
    let package = chars_of("[[package]]");
    let name_key = chars_of("name");
    let version_key = chars_of("version");
    let source_key = chars_of("source");
    let ours = chars_of("quire-rs");
    let ghost tl = trimmed_lines(lock@);
    let mut in_package = false;
    let mut manifest: Option<Vec<char>> = None;
    let mut i: usize = 0;
    assert(tl.skip(0) =~= tl);
    while i < ls.len()
        invariant
            i <= ls@.len(),
            ls.deep_view() == lines(lock@),
            tl == trimmed_lines(lock@),
            tl.len() == ls@.len(),
            package@ == "[[package]]"@,
            name_key@ == "name"@,
            version_key@ == "version"@,
            source_key@ == "source"@,
            ours@ == "quire-rs"@,
            spec_engine_version(lock@) == scan(tl.skip(i as int), in_package, opt_chars(manifest)),
        decreases ls@.len() - i,
    {
        let line = trim_chars(&ls[i]);
        assert(ls[i as int].deep_view() =~= ls[i as int]@);
        assert(ls.deep_view()[i as int] == ls[i as int].deep_view());
        assert(tl[i as int] == trim(lines(lock@)[i as int]));
        assert(tl.skip(i as int)[0] == line@);
        assert(tl.skip(i as int).drop_first() =~= tl.skip(i + 1));
        if same_chars(&line, &package) {
            if in_package {
                return match manifest {
                    Some(v) => Some(string_of(&v)),
                    None => None,
                };
            }
            in_package = false;
            manifest = None;
        } else {
            match strip_kv(&line, &name_key) {
                Some(name) => {
                    in_package = same_chars(&name, &ours);
                },
                None => {
                    if in_package {
                        match strip_kv(&line, &version_key) {
                            Some(v) => {
                                manifest = Some(v);
                            },
                            None => match strip_kv(&line, &source_key) {
                                Some(src) => match git_pin(&src) {
                                    Some(pin) => {
                                        return Some(string_of(&pin));
                                    },
                                    None => {},
                                },
                                None => {},
                            },
                        }
                    }
                },
            }
        }
        i = i + 1;
    }
    if in_package {
        match manifest {
            Some(v) => Some(string_of(&v)),
            None => None,
        }
    } else {
        None
    }
}

} // verus!
