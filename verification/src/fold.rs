//! Case folding, done by the standard library.
//!
//! Folding lowercases both sides before comparing, so that matching
//! ignores case. Simple lowercasing is not a full case folding for every
//! script (locale-sensitive and multi-codepoint cases are not handled);
//! that is an accepted limitation of this library.

use vstd::prelude::*;

verus! {

/// The lowercased form of a character sequence, as the standard library
/// computes it. It depends on the characters alone.
pub uninterp spec fn lower_of(s: Seq<char>) -> Seq<char>;

/// Relies on `str::to_lowercase`: returns the lowercase equivalent of the
/// string, a function of its characters alone.
#[verifier::external_body]
pub(crate) fn to_lowercase(s: &str) -> (r: String)
    ensures
        r@ == lower_of(s@),
{
    s.to_lowercase()
}

} // verus!
