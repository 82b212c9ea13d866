//! What holds of a trimmed text.

use vstd::prelude::*;
use crate::text::drop_whitespace;
use crate::text::is_whitespace;
use crate::text::skip_whitespace;
use crate::text::trimmed;

verus! {

/// No white space stands at either end of `s`.
pub open spec fn is_bare(s: Seq<char>) -> bool {
    s.len() > 0 ==> !is_whitespace(s.first()) && !is_whitespace(s.last())
}

proof fn lemma_skip_whitespace(s: Seq<char>, i: int)
    requires
        0 <= i <= s.len(),
    ensures
        i <= skip_whitespace(s, i) <= s.len(),
        skip_whitespace(s, i) < s.len() ==> !is_whitespace(s[skip_whitespace(s, i)]),
        forall|j: int| i <= j < skip_whitespace(s, i) ==> is_whitespace(#[trigger] s[j]),
    decreases s.len() - i,
{
    if i < s.len() && is_whitespace(s[i]) {
        lemma_skip_whitespace(s, i + 1);
    }
}

proof fn lemma_drop_whitespace(s: Seq<char>, lo: int, j: int)
    requires
        0 <= lo <= j <= s.len(),
    ensures
        lo <= drop_whitespace(s, lo, j) <= j,
        lo < drop_whitespace(s, lo, j) ==> !is_whitespace(s[drop_whitespace(s, lo, j) - 1]),
        forall|n: int| drop_whitespace(s, lo, j) <= n < j ==> is_whitespace(#[trigger] s[n]),
    decreases j,
{
    if lo < j && is_whitespace(s[j - 1]) {
        lemma_drop_whitespace(s, lo, j - 1);
    }
}

/// A trimmed text is a stretch of the text, `s[lo..hi]`, with white space and
/// nothing else before and behind it, and none at its own two ends.
pub proof fn lemma_trimmed(s: Seq<char>) -> (bounds: (int, int))
    ensures
        0 <= bounds.0 <= bounds.1 <= s.len(),
        trimmed(s) == s.subrange(bounds.0, bounds.1),
        forall|j: int| 0 <= j < bounds.0 ==> is_whitespace(#[trigger] s[j]),
        forall|j: int| bounds.1 <= j < s.len() ==> is_whitespace(#[trigger] s[j]),
        is_bare(trimmed(s)),
{
    let lo = skip_whitespace(s, 0);
    lemma_skip_whitespace(s, 0);
    let hi = drop_whitespace(s, lo, s.len() as int);
    lemma_drop_whitespace(s, lo, s.len() as int);
    if lo < hi {
        assert(s.subrange(lo, hi).first() == s[lo]);
        assert(s.subrange(lo, hi).last() == s[hi - 1]);
    }
    (lo, hi)
}

/// Trimming changes nothing in a text without white space at its ends; so
/// trimming twice is trimming once.
pub proof fn lemma_trimmed_bare(s: Seq<char>)
    ensures
        is_bare(s) ==> trimmed(s) == s,
        trimmed(trimmed(s)) == trimmed(s),
{
    if is_bare(s) {
        lemma_bare_unchanged(s);
    }
    lemma_trimmed(s);
    lemma_bare_unchanged(trimmed(s));
}

proof fn lemma_bare_unchanged(s: Seq<char>)
    requires
        is_bare(s),
    ensures
        trimmed(s) == s,
{
    if s.len() > 0 {
        assert(skip_whitespace(s, 0) == 0);
        assert(drop_whitespace(s, 0, s.len() as int) == s.len());
    }
    let lo = skip_whitespace(s, 0);
    assert(s.subrange(lo, drop_whitespace(s, lo, s.len() as int)) =~= s);
}

} // verus!
