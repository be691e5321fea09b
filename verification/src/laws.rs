//! Laws of the line filter, stated and proved once for any predicate and
//! then for each matching policy.

use crate::fold::lower_of;
use crate::lines::spec_lines;
use crate::matching::contains_seq;
use crate::matching::lemma_empty_needle_contained;
use crate::search::exact_pred;
use crate::search::folded_pred;
use crate::search::line_filter;
use crate::search::spec_search;
use crate::search::spec_search_exact;
use crate::search::spec_search_fold;
use crate::search::MatchMode;
use vstd::prelude::*;

verus! {

/// Every filtered line satisfies the predicate and stands somewhere in
/// the source lines.
pub proof fn lemma_line_filter_sound(lines: Seq<Seq<char>>, p: spec_fn(Seq<char>) -> bool)
    ensures
        forall|j: int|
            0 <= j < line_filter(lines, p).len() ==> p(#[trigger] line_filter(lines, p)[j]),
        forall|j: int|
            0 <= j < line_filter(lines, p).len() ==> exists|a: int|
                0 <= a < lines.len() && lines[a] == #[trigger] line_filter(lines, p)[j],
    decreases lines.len(),
{
    if lines.len() > 0 {
        let rest = lines.drop_last();
        lemma_line_filter_sound(rest, p);
        let f = line_filter(lines, p);
        let fr = line_filter(rest, p);
        assert forall|j: int| 0 <= j < f.len() implies p(f[j]) && exists|a: int|
            0 <= a < lines.len() && lines[a] == f[j] by {
            if j < fr.len() {
                assert(f[j] == fr[j]);
                let a = choose|a: int| 0 <= a < rest.len() && rest[a] == fr[j];
                assert(lines[a] == f[j]);
            } else {
                assert(f[j] == lines.last());
                assert(lines[lines.len() - 1] == f[j]);
            }
        }
    }
}

/// Every source line satisfying the predicate appears in the filtered
/// lines.
pub proof fn lemma_line_filter_complete(lines: Seq<Seq<char>>, p: spec_fn(Seq<char>) -> bool)
    ensures
        forall|i: int|
            0 <= i < lines.len() && p(#[trigger] lines[i]) ==> line_filter(lines, p).contains(
                lines[i],
            ),
    decreases lines.len(),
{
    if lines.len() > 0 {
        let rest = lines.drop_last();
        lemma_line_filter_complete(rest, p);
        let f = line_filter(lines, p);
        let fr = line_filter(rest, p);
        assert forall|i: int| 0 <= i < lines.len() && p(lines[i]) implies f.contains(
            lines[i],
        ) by {
            if i < lines.len() - 1 {
                assert(rest[i] == lines[i]);
                assert(fr.contains(lines[i]));
                let j = choose|j: int| 0 <= j < fr.len() && fr[j] == lines[i];
                assert(f[j] == lines[i]);
            } else {
                assert(f[fr.len() as int] == lines[i]);
            }
        }
    }
}

/// Filtering keeps the source order: two filtered lines stand under two
/// source positions in the same relative order.
pub proof fn lemma_line_filter_order(lines: Seq<Seq<char>>, p: spec_fn(Seq<char>) -> bool)
    ensures
        forall|i: int, j: int|
            #![trigger line_filter(lines, p)[i], line_filter(lines, p)[j]]
            0 <= i < j < line_filter(lines, p).len() ==> exists|a: int, b: int|
                0 <= a < b < lines.len() && lines[a] == line_filter(lines, p)[i] && lines[b]
                    == line_filter(lines, p)[j],
    decreases lines.len(),
{
    if lines.len() > 0 {
        let rest = lines.drop_last();
        lemma_line_filter_order(rest, p);
        lemma_line_filter_sound(rest, p);
        let f = line_filter(lines, p);
        let fr = line_filter(rest, p);
        assert forall|i: int, j: int|
            #![trigger f[i], f[j]]
            0 <= i < j < f.len() implies exists|a: int, b: int|
            0 <= a < b < lines.len() && lines[a] == f[i] && lines[b] == f[j] by {
            if j < fr.len() {
                assert(f[i] == fr[i] && f[j] == fr[j]);
                let (a, b) = choose|a: int, b: int|
                    0 <= a < b < rest.len() && rest[a] == fr[i] && rest[b] == fr[j];
                assert(lines[a] == f[i] && lines[b] == f[j]);
            } else {
                assert(f[j] == lines[lines.len() - 1]);
                assert(f[i] == fr[i]);
                let a = choose|a: int| 0 <= a < rest.len() && rest[a] == fr[i];
                assert(0 <= a < lines.len() - 1 && lines[a] == f[i] && lines[lines.len() - 1]
                    == f[j]);
            }
        }
    }
}

/// A predicate holding of every source line filters nothing out.
pub proof fn lemma_line_filter_all(lines: Seq<Seq<char>>, p: spec_fn(Seq<char>) -> bool)
    requires
        forall|i: int| 0 <= i < lines.len() ==> p(#[trigger] lines[i]),
    ensures
        line_filter(lines, p) == lines,
    decreases lines.len(),
{
    if lines.len() == 0 {
        assert(line_filter(lines, p) =~= lines);
    } else {
        let rest = lines.drop_last();
        assert(forall|i: int| 0 <= i < rest.len() ==> p(#[trigger] rest[i]));
        lemma_line_filter_all(rest, p);
        assert(p(lines.last()));
        assert(line_filter(lines, p) =~= lines);
    }
}

/// A line of the document appears in the exact search result when it
/// contains the query as an exact substring, and not otherwise.
pub proof fn lemma_search_exact_characterizes(query: Seq<char>, contents: Seq<char>)
    ensures
        forall|i: int|
            0 <= i < spec_lines(contents).len() && contains_seq(
                #[trigger] spec_lines(contents)[i],
                query,
            ) ==> spec_search_exact(query, contents).contains(spec_lines(contents)[i]),
        forall|j: int|
            0 <= j < spec_search_exact(query, contents).len() ==> contains_seq(
                #[trigger] spec_search_exact(query, contents)[j],
                query,
            ) && spec_lines(contents).contains(spec_search_exact(query, contents)[j]),
{
    let lines = spec_lines(contents);
    let p = exact_pred(query);
    lemma_line_filter_complete(lines, p);
    lemma_line_filter_sound(lines, p);
    let f = line_filter(lines, p);
    assert forall|j: int| 0 <= j < f.len() implies contains_seq(f[j], query) && lines.contains(
        f[j],
    ) by {
        let a = choose|a: int| 0 <= a < lines.len() && lines[a] == f[j];
        assert(lines[a] == f[j]);
    }
}

/// A line of the document appears in the folded search result when its
/// case-folded form contains the case-folded query, and not otherwise.
pub proof fn lemma_search_fold_characterizes(query: Seq<char>, contents: Seq<char>)
    ensures
        forall|i: int|
            0 <= i < spec_lines(contents).len() && contains_seq(
                lower_of(#[trigger] spec_lines(contents)[i]),
                lower_of(query),
            ) ==> spec_search_fold(query, contents).contains(spec_lines(contents)[i]),
        forall|j: int|
            0 <= j < spec_search_fold(query, contents).len() ==> contains_seq(
                lower_of(#[trigger] spec_search_fold(query, contents)[j]),
                lower_of(query),
            ) && spec_lines(contents).contains(spec_search_fold(query, contents)[j]),
{
    let lines = spec_lines(contents);
    let p = folded_pred(query);
    lemma_line_filter_complete(lines, p);
    lemma_line_filter_sound(lines, p);
    let f = line_filter(lines, p);
    assert forall|j: int| 0 <= j < f.len() implies contains_seq(lower_of(f[j]), lower_of(query))
        && lines.contains(f[j]) by {
        let a = choose|a: int| 0 <= a < lines.len() && lines[a] == f[j];
        assert(lines[a] == f[j]);
    }
}

/// A search is a pure function of its inputs: any two results of the
/// same query over the same contents are the same line sequence.
pub proof fn lemma_search_deterministic(
    mode: MatchMode,
    query: Seq<char>,
    contents: Seq<char>,
    r1: Seq<Seq<char>>,
    r2: Seq<Seq<char>>,
)
    requires
        r1 == spec_search(mode, query, contents),
        r2 == spec_search(mode, query, contents),
    ensures
        r1 == r2,
{
}

/// The empty query matches every line: searching for it exactly returns
/// every line of the document, in order.
pub proof fn lemma_search_exact_empty_query(contents: Seq<char>)
    ensures
        spec_search_exact(Seq::<char>::empty(), contents) == spec_lines(contents),
{
    let lines = spec_lines(contents);
    let p = exact_pred(Seq::<char>::empty());
    assert forall|i: int| 0 <= i < lines.len() implies p(#[trigger] lines[i]) by {
        lemma_empty_needle_contained(lines[i]);
    }
    lemma_line_filter_all(lines, p);
}

/// Result lines keep the relative order they have in the document,
/// whichever matching policy produced them and however many match: any
/// two result positions stand under two document positions in the same
/// relative order.
pub proof fn lemma_search_order_preserved(
    mode: MatchMode,
    query: Seq<char>,
    contents: Seq<char>,
    i: int,
    j: int,
)
    requires
        0 <= i < j < spec_search(mode, query, contents).len(),
    ensures
        exists|a: int, b: int|
            0 <= a < b < spec_lines(contents).len() && spec_lines(contents)[a] == spec_search(
                mode,
                query,
                contents,
            )[i] && spec_lines(contents)[b] == spec_search(mode, query, contents)[j],
{
    let lines = spec_lines(contents);
    let p = match mode {
        MatchMode::Exact => exact_pred(query),
        MatchMode::Folded => folded_pred(query),
    };
    lemma_line_filter_order(lines, p);
    let f = line_filter(lines, p);
    assert(spec_search(mode, query, contents) == f);
    assert(f[i] == spec_search(mode, query, contents)[i]);
    assert(f[j] == spec_search(mode, query, contents)[j]);
    let (a, b) = choose|a: int, b: int|
        0 <= a < b < lines.len() && lines[a] == f[i] && lines[b] == f[j];
    assert(0 <= a < b < spec_lines(contents).len() && spec_lines(contents)[a] == spec_search(
        mode,
        query,
        contents,
    )[i] && spec_lines(contents)[b] == spec_search(mode, query, contents)[j]);
}

} // verus!
