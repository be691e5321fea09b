//! Substring containment on character sequences.

use vstd::prelude::*;

verus! {

/// `needle` occurs in `text` starting at position `i`.
pub open spec fn contains_at(text: Seq<char>, needle: Seq<char>, i: int) -> bool {
    0 <= i && i + needle.len() <= text.len() && text.subrange(i, i + needle.len() as int)
        == needle
}

/// `needle` occurs somewhere in `text` as a contiguous substring.
/// The empty sequence occurs in every `text`, at position 0.
pub open spec fn contains_seq(text: Seq<char>, needle: Seq<char>) -> bool {
    exists|i: int| contains_at(text, needle, i)
}

/// The empty needle is contained in every text.
pub proof fn lemma_empty_needle_contained(text: Seq<char>)
    ensures
        contains_seq(text, Seq::<char>::empty()),
{
    assert(text.subrange(0, 0) =~= Seq::<char>::empty());
    assert(contains_at(text, Seq::<char>::empty(), 0));
}

/// Checks whether `needle` occurs in `text` starting at character position `i`.
fn matches_at(text: &str, needle: &str, i: usize) -> (r: bool)
    requires
        text@.len() <= usize::MAX,
        i + needle@.len() <= text@.len(),
    ensures
        r == contains_at(text@, needle@, i as int),
{
    let m = needle.unicode_len();
    let mut j: usize = 0;
    while j < m
        invariant
            m == needle@.len(),
            text@.len() <= usize::MAX,
            i + m <= text@.len(),
            j <= m,
            forall|k: int| 0 <= k < j ==> text@[i + k] == needle@[k],
        decreases m - j,
    {
        if text.get_char(i + j) != needle.get_char(j) {
            assert(text@.subrange(i as int, i + m) != needle@) by {
                assert(text@.subrange(i as int, i + m)[j as int] == text@[i + j]);
            }
            return false;
        }
        j = j + 1;
    }
    assert(text@.subrange(i as int, i + m) =~= needle@);
    true
}

/// Whether `text` contains `needle` as a contiguous substring of characters.
pub fn contains_substring(text: &str, needle: &str) -> (r: bool)
    ensures
        r == contains_seq(text@, needle@),
{
    let n = text.unicode_len();
    let m = needle.unicode_len();
    if m > n {
        assert(forall|i: int| !contains_at(text@, needle@, i));
        return false;
    }
    let limit: usize = n - m;
    let mut i: usize = 0;
    loop
        invariant
            n == text@.len(),
            m == needle@.len(),
            m <= n,
            limit == n - m,
            i <= limit,
            forall|k: int| 0 <= k < i ==> !contains_at(text@, needle@, k),
        decreases limit - i,
    {
        if matches_at(text, needle, i) {
            return true;
        }
        if i == limit {
            assert(forall|k: int| !contains_at(text@, needle@, k));
            return false;
        }
        i = i + 1;
    }
}

} // verus!
