//! The line filter: the lines of a document that contain a query.

use crate::fold::lower_of;
use crate::fold::to_lowercase;
use crate::lines::spec_lines;
use crate::lines::split_lines;
use crate::matching::contains_seq;
use crate::matching::contains_substring;
use vstd::prelude::*;

verus! {

/// The lines among `lines` satisfying `p`, in their original order.
pub open spec fn line_filter(
    lines: Seq<Seq<char>>,
    p: spec_fn(Seq<char>) -> bool,
) -> Seq<Seq<char>>
    decreases lines.len(),
{
    if lines.len() == 0 {
        Seq::empty()
    } else if p(lines.last()) {
        line_filter(lines.drop_last(), p) + seq![lines.last()]
    } else {
        line_filter(lines.drop_last(), p)
    }
}

/// A line matches exactly when it contains the query as it stands.
pub open spec fn exact_pred(query: Seq<char>) -> spec_fn(Seq<char>) -> bool {
    |line: Seq<char>| contains_seq(line, query)
}

/// A line matches under folding when its lowercased form contains the
/// lowercased query.
pub open spec fn folded_pred(query: Seq<char>) -> spec_fn(Seq<char>) -> bool {
    |line: Seq<char>| contains_seq(lower_of(line), lower_of(query))
}

/// The lines of `contents` that contain `query` exactly, in order.
pub open spec fn spec_search_exact(query: Seq<char>, contents: Seq<char>) -> Seq<Seq<char>> {
    line_filter(spec_lines(contents), exact_pred(query))
}

/// The lines of `contents` that contain `query` after both sides are
/// case folded, in order.
pub open spec fn spec_search_fold(query: Seq<char>, contents: Seq<char>) -> Seq<Seq<char>> {
    line_filter(spec_lines(contents), folded_pred(query))
}

/// Returns the lines of `contents` that contain `query` as an exact,
/// case-sensitive substring, in document order.
pub fn search<'a>(query: &str, contents: &'a str) -> (r: Vec<&'a str>)
    ensures
        r.deep_view() == spec_search_exact(query@, contents@),
{
    let lines = split_lines(contents);
    let ghost all = lines.deep_view();
    let ghost p = exact_pred(query@);
    let mut r: Vec<&'a str> = Vec::new();
    let mut k: usize = 0;
    proof {
        assert(all.take(0) =~= Seq::<Seq<char>>::empty());
        assert(r.deep_view() =~= Seq::<Seq<char>>::empty());
    }
    while k < lines.len()
        invariant
            all == lines.deep_view(),
            all == spec_lines(contents@),
            p == exact_pred(query@),
            lines@.len() == all.len(),
            k <= lines@.len(),
            r.deep_view() == line_filter(all.take(k as int), p),
        decreases lines@.len() - k,
    {
        let line = lines[k];
        let ghost prev = r.deep_view();
        proof {
            assert(all.take(k + 1).drop_last() =~= all.take(k as int));
            assert(all.take(k + 1).last() == all[k as int]);
            assert(line@ == all[k as int]);
        }
        if contains_substring(line, query) {
            r.push(line);
            proof {
                assert(r.deep_view() =~= prev.push(line@));
                assert(prev.push(line@) =~= prev + seq![all[k as int]]);
            }
        }
        k = k + 1;
    }
    proof {
        assert(all.take(all.len() as int) =~= all);
    }
    r
}

/// Returns the lines of `contents` whose case-folded form contains the
/// case-folded `query`, in document order. The lines returned are the
/// original lines, not their folded forms.
pub fn search_incase_sensitive<'a>(query: &str, contents: &'a str) -> (r: Vec<&'a str>)
    ensures
        r.deep_view() == spec_search_fold(query@, contents@),
{
    let folded_query = to_lowercase(query);
    let lines = split_lines(contents);
    let ghost all = lines.deep_view();
    let ghost p = folded_pred(query@);
    let mut r: Vec<&'a str> = Vec::new();
    let mut k: usize = 0;
    proof {
        assert(all.take(0) =~= Seq::<Seq<char>>::empty());
        assert(r.deep_view() =~= Seq::<Seq<char>>::empty());
    }
    while k < lines.len()
        invariant
            all == lines.deep_view(),
            all == spec_lines(contents@),
            p == folded_pred(query@),
            folded_query@ == lower_of(query@),
            lines@.len() == all.len(),
            k <= lines@.len(),
            r.deep_view() == line_filter(all.take(k as int), p),
        decreases lines@.len() - k,
    {
        let line = lines[k];
        let folded_line = to_lowercase(line);
        let ghost prev = r.deep_view();
        proof {
            assert(all.take(k + 1).drop_last() =~= all.take(k as int));
            assert(all.take(k + 1).last() == all[k as int]);
            assert(line@ == all[k as int]);
        }
        if contains_substring(folded_line.as_str(), folded_query.as_str()) {
            r.push(line);
            proof {
                assert(r.deep_view() =~= prev.push(line@));
                assert(prev.push(line@) =~= prev + seq![all[k as int]]);
            }
        }
        k = k + 1;
    }
    proof {
        assert(all.take(all.len() as int) =~= all);
    }
    r
}

/// Which matching policy a search uses, chosen once at configuration time.
#[derive(Clone, Copy, Debug, PartialEq, Eq, Structural)]
pub enum MatchMode {
    Exact,
    Folded,
}

/// The result of one search under the chosen matching policy.
pub open spec fn spec_search(mode: MatchMode, query: Seq<char>, contents: Seq<char>) -> Seq<
    Seq<char>,
> {
    match mode {
        MatchMode::Exact => spec_search_exact(query, contents),
        MatchMode::Folded => spec_search_fold(query, contents),
    }
}

/// Runs one search over `contents` under the chosen matching policy.
pub fn run_search<'a>(mode: MatchMode, query: &str, contents: &'a str) -> (r: Vec<&'a str>)
    ensures
        r.deep_view() == spec_search(mode, query@, contents@),
{
    match mode {
        MatchMode::Exact => search(query, contents),
        MatchMode::Folded => search_incase_sensitive(query, contents),
    }
}

} // verus!
