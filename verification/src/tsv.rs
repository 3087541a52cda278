//! Tab-separated rendering shared by `coverage` and `trace`: one record per
//! line, the structural characters inside a cell replaced by spaces.
use vstd::prelude::*;

use crate::text::{chars_of, dec, push_char, push_dec};

verus! {

broadcast use vstd::string::group_string_axioms;

/// A structural character of the TSV form: tab or line break.
pub open spec fn is_structural(c: char) -> bool {
    c == '\t' || c == '\n' || c == '\r'
}

/// A cell's text with every tab and line break replaced by a space.
pub open spec fn clean_cell(s: Seq<char>) -> Seq<char> {
    s.map_values(|c: char| if is_structural(c) { ' ' } else { c })
}

/// The concatenation of `parts`, in order.
pub open spec fn concat(parts: Seq<Seq<char>>) -> Seq<char>
    decreases parts.len(),
{
    if parts.len() == 0 {
        Seq::<char>::empty()
    } else {
        concat(parts.drop_last()) + parts.last()
    }
}

/// `parts.join(sep)`.
pub open spec fn join(parts: Seq<Seq<char>>, sep: Seq<char>) -> Seq<char>
    decreases parts.len(),
{
    if parts.len() == 0 {
        Seq::<char>::empty()
    } else if parts.len() == 1 {
        parts[0]
    } else {
        join(parts.drop_last(), sep) + sep + parts.last()
    }
}

/// The cells of a record, each preceded by a tab and cleaned.
pub open spec fn tabbed(cells: Seq<Seq<char>>) -> Seq<char>
    decreases cells.len(),
{
    if cells.len() == 0 {
        Seq::<char>::empty()
    } else {
        tabbed(cells.drop_last()) + seq!['\t'] + clean_cell(cells.last())
    }
}

/// One record: the kind, then each cell after a tab, then a newline.
pub open spec fn tsv_record(kind: Seq<char>, cells: Seq<Seq<char>>) -> Seq<char> {
    kind + tabbed(cells) + seq!['\n']
}

/// The text of an optional string, empty when absent.
pub open spec fn opt_text(o: Option<String>) -> Seq<char> {
    match o {
        Some(s) => s@,
        None => Seq::<char>::empty(),
    }
}

/// A 1-based line number as a cell, empty when absent.
pub open spec fn line_text(line: Option<usize>) -> Seq<char> {
    match line {
        Some(l) => dec(l as nat),
        None => Seq::<char>::empty(),
    }
}

/// The views of a list of strings.
pub open spec fn texts(v: Seq<String>) -> Seq<Seq<char>> {
    v.map_values(|s: String| s@)
}

/// How many times `c` occurs in `s`.
pub open spec fn count_of(s: Seq<char>, c: char) -> nat
    decreases s.len(),
{
    if s.len() == 0 {
        0
    } else {
        count_of(s.drop_last(), c) + if s.last() == c { 1nat } else { 0nat }
    }
}

/// Counting distributes over concatenation.
pub proof fn lemma_count_of_add(a: Seq<char>, b: Seq<char>, c: char)
    ensures
        count_of(a + b, c) == count_of(a, c) + count_of(b, c),
    decreases b.len(),
{
    if b.len() == 0 {
        assert(a + b =~= a);
    } else {
        assert((a + b).drop_last() =~= a + b.drop_last());
        lemma_count_of_add(a, b.drop_last(), c);
    }
}

proof fn lemma_clean_has_no_structural(s: Seq<char>, c: char)
    requires
        is_structural(c),
    ensures
        count_of(clean_cell(s), c) == 0,
    decreases s.len(),
{
    if s.len() > 0 {
        assert(clean_cell(s).drop_last() =~= clean_cell(s.drop_last()));
        lemma_clean_has_no_structural(s.drop_last(), c);
    }
}

proof fn lemma_tabbed_counts(cells: Seq<Seq<char>>)
    ensures
        count_of(tabbed(cells), '\t') == cells.len(),
        count_of(tabbed(cells), '\n') == 0,
        count_of(tabbed(cells), '\r') == 0,
    decreases cells.len(),
{
    if cells.len() > 0 {
        lemma_tabbed_counts(cells.drop_last());
        let a = tabbed(cells.drop_last());
        let t = seq!['\t'];
        let b = clean_cell(cells.last());
        lemma_count_of_add(a, t, '\t');
        lemma_count_of_add(a + t, b, '\t');
        lemma_count_of_add(a, t, '\n');
        lemma_count_of_add(a + t, b, '\n');
        lemma_count_of_add(a, t, '\r');
        lemma_count_of_add(a + t, b, '\r');
        assert(t.drop_last() =~= Seq::<char>::empty());
        assert(count_of(Seq::<char>::empty(), '\t') == 0);
        assert(count_of(Seq::<char>::empty(), '\n') == 0);
        assert(count_of(Seq::<char>::empty(), '\r') == 0);
        assert(t.last() == '\t');
        assert(count_of(t, '\t') == 1);
        assert(count_of(t, '\n') == 0);
        assert(count_of(t, '\r') == 0);
        assert(tabbed(cells) == a + t + b);
        lemma_clean_has_no_structural(cells.last(), '\t');
        lemma_clean_has_no_structural(cells.last(), '\n');
        lemma_clean_has_no_structural(cells.last(), '\r');
    }
}

/// Hostile cells cannot break the one-record-per-line contract: whatever the
/// cells hold, a record made of a clean kind and `n` cells has exactly `n`
/// tabs (so `n + 1` columns), and its only line break is the final newline.
pub proof fn law_tsv_record_shape(kind: Seq<char>, cells: Seq<Seq<char>>)
    requires
        count_of(kind, '\t') == 0,
        count_of(kind, '\n') == 0,
        count_of(kind, '\r') == 0,
    ensures
        count_of(tsv_record(kind, cells).drop_last(), '\t') == cells.len(),
        count_of(tsv_record(kind, cells).drop_last(), '\n') == 0,
        count_of(tsv_record(kind, cells).drop_last(), '\r') == 0,
        tsv_record(kind, cells).last() == '\n',
{
    lemma_tabbed_counts(cells);
    assert(tsv_record(kind, cells).drop_last() =~= kind + tabbed(cells));
    lemma_count_of_add(kind, tabbed(cells), '\t');
    lemma_count_of_add(kind, tabbed(cells), '\n');
    lemma_count_of_add(kind, tabbed(cells), '\r');
}

/// Append `s` to `out` with tabs and line breaks replaced by spaces.
pub fn push_clean(out: &mut String, s: &str)
    ensures
        final(out)@ == old(out)@ + clean_cell(s@),
{
    let cs = chars_of(s);
    let ghost start = out@;
    let mut i: usize = 0;
    while i < cs.len()
        invariant
            i <= cs@.len(),
            cs@ == s@,
            out@ == start + clean_cell(cs@.take(i as int)),
        decreases cs@.len() - i,
    {
        let c = cs[i];
        if c == '\t' || c == '\n' || c == '\r' {
            push_char(out, ' ');
        } else {
            push_char(out, c);
        }
        i = i + 1;
        assert(clean_cell(cs@.take(i as int)) =~= clean_cell(cs@.take(i - 1)).push(
            if is_structural(c) { ' ' } else { c },
        ));
    }
    assert(cs@.take(cs@.len() as int) =~= cs@);
}

/// A TSV cell: the two structural characters (tab, newline — and `\r`)
/// become spaces.
pub fn tsv_cell(s: &str) -> (out: String)
    ensures
        out@ == clean_cell(s@),
{
    let mut out = String::new();
    push_clean(&mut out, s);
    out
}

/// The texts of eight cells.
pub open spec fn cell_views(cells: [&str; 8]) -> Seq<Seq<char>> {
    seq![cells[0]@, cells[1]@, cells[2]@, cells[3]@, cells[4]@, cells[5]@, cells[6]@, cells[7]@]
}

/// One TSV record: the kind, then the eight fixed data cells.
pub fn tsv_line(kind: &str, cells: [&str; 8]) -> (out: String)
    ensures
        out@ == tsv_record(kind@, cell_views(cells)),
{
    assert(cell_views(cells) =~= cells@.map_values(|c: &str| c@));
    let ghost views = cells@.map_values(|c: &str| c@);
    let mut line = String::from_str(kind);
    let mut i: usize = 0;
    while i < 8
        invariant
            i <= 8,
            views == cells@.map_values(|c: &str| c@),
            cells@.len() == 8,
            line@ == kind@ + tabbed(views.take(i as int)),
        decreases 8 - i,
    {
        push_char(&mut line, '\t');
        push_clean(&mut line, cells[i]);
        assert(views.take(i + 1).drop_last() =~= views.take(i as int));
        i = i + 1;
    }
    assert(views.take(8) =~= views);
    push_char(&mut line, '\n');
    line
}

/// The text of an optional string, empty when absent.
pub fn opt_str(o: &Option<String>) -> (s: &str)
    ensures
        s@ == opt_text(*o),
{
    match o {
        Some(s) => s.as_str(),
        None => {
            proof {
                reveal_strlit("");
            }
            ""
        },
    }
}

/// A 1-based line number as a cell, empty when absent.
pub fn line_cell(line: Option<usize>) -> (s: String)
    ensures
        s@ == line_text(line),
{
    let mut s = String::new();
    match line {
        Some(l) => push_dec(&mut s, l),
        None => {},
    }
    s
}

/// `parts.join(sep)`.
pub fn join_strings(parts: &Vec<String>, sep: &str) -> (out: String)
    ensures
        out@ == join(texts(parts@), sep@),
{
    let ghost all = texts(parts@);
    let mut out = String::new();
    let mut i: usize = 0;
    while i < parts.len()
        invariant
            i <= parts@.len(),
            all == texts(parts@),
            out@ == join(all.take(i as int), sep@),
        decreases parts@.len() - i,
    {
        assert(all.take(i + 1).drop_last() =~= all.take(i as int));
        assert(all.take(i + 1).last() == parts@[i as int]@);
        if i > 0 {
            out.append(sep);
        } else {
            assert(all.take(1)[0] == parts@[0]@);
        }
        out.append(parts[i].as_str());
        i = i + 1;
        if i == 1 {
            assert(out@ =~= join(all.take(i as int), sep@));
        }
    }
    assert(all.take(parts@.len() as int) =~= all);
    out
}

} // verus!
