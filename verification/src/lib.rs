//! Sentence segmentation of plain prose.
//!
//! A text is cut into sentences in five stages: periods, question marks and
//! exclamation marks that do not end a sentence are masked by placeholder
//! tokens, stuck sentences are parted, terminators next to a closing quote or
//! parenthesis are masked, the text is cut behind each remaining terminator,
//! and every piece has its tokens turned back into punctuation and is trimmed.
//! No sentence that comes out holds a token.

use vstd::prelude::*;

pub mod text;
pub mod pattern;
pub mod mask;
pub mod split;
pub mod repair;
pub mod repair_laws;
pub mod split_laws;
pub mod trim_laws;

use crate::mask::masked;
use crate::mask::normalized;
use crate::mask::unstuck;
use crate::repair::kept;
use crate::repair::closers_restored;
use crate::repair::is_clean;
use crate::repair_laws::lemma_kept;
use crate::repair_laws::lemma_repaired;
use crate::text::trimmed;
use crate::split::segments;
use crate::split_laws::lemma_plain_text_one_sentence;
use crate::text::chars_of;
use crate::text::is_terminator;
use crate::text::texts;

verus! {

/// A text as the splitter sees it: masked, unstuck, and with the terminators
/// next to a closing quote or parenthesis masked too.
pub open spec fn prepared(text: Seq<char>) -> Seq<char> {
    normalized(unstuck(masked(text)))
}

/// The sentences of a text.
pub open spec fn sentences(text: Seq<char>) -> Seq<Seq<char>> {
    kept(segments(prepared(text)))
}

/// What holds of every sentence: it has more than one character, no white
/// space at its ends, and none of the fourteen tokens in it.
pub open spec fn is_sentence(s: Seq<char>) -> bool {
    s.len() > 1 && trimmed(s) == s && is_clean(s)
}

/// A text in which there is nothing to mask and nothing to cut: it holds no
/// terminator and no ampersand, and no pattern finds anything in it.
pub open spec fn is_plain(text: Seq<char>) -> bool {
    &&& forall|j: int| 0 <= j < text.len() ==> !is_terminator(#[trigger] text[j]) && text[j] != '&'
    &&& prepared(text) == text
    &&& closers_restored(text) == text
}

/// The one sentence that `s` is, or none where it has at most one character.
pub open spec fn one_or_none(s: Seq<char>) -> Seq<Seq<char>> {
    if s.len() > 1 {
        seq![s]
    } else {
        Seq::empty()
    }
}

/// Tells whether a text is plain, by looking for a terminator or an
/// ampersand in it and by running the patterns on it. A plain text is one
/// sentence, itself trimmed, or none.
pub fn reads_plain(text: &String) -> (r: bool)
    ensures
        r == is_plain(text@),
        r ==> sentences(text@) == one_or_none(trimmed(text@)),
{
    let chars = chars_of(text.as_str());
    let mut i: usize = 0;
    while i < chars.len()
        invariant
            i <= chars.len(),
            chars@ == text@,
            forall|j: int| 0 <= j < i ==> !is_terminator(#[trigger] text@[j]) && text@[j] != '&',
        decreases chars.len() - i,
    {
        let c = chars[i];
        if c == '.' || c == '!' || c == '?' || c == '&' {
            return false;
        }
        i += 1;
    }
    let masked = mask::mask(text.as_str());
    let parted = mask::unstick(masked.as_str());
    let normal = mask::normalize(parted.as_str());
    let restored = repair::restore_closers(text.as_str());
    let same = normal == *text && restored == *text;
    proof {
        if same {
            lemma_plain_text_one_sentence(text@);
        }
    }
    same
}

/// Whether the engine compiles every pattern of the rules. Where it does
/// not, the rule in question rewrites nothing.
pub open spec fn all_rules_compile() -> bool {
    mask::masks_compile() && repair::repairs_compile()
}

/// Tells whether the engine compiles every pattern of the rules, for a
/// caller that wants to fail at its start where one does not.
pub fn rules_compile() -> (r: bool)
    ensures
        r == all_rules_compile(),
{
    mask::check_masks() && repair::check_repairs()
}

/// Cuts a text into its sentences, in the order in which they stand in it.
pub fn cut(origin_text: &String) -> (r: Vec<String>)
    ensures
        texts(r@) == sentences(origin_text@),
        forall|k: int| 0 <= k < r.len() ==> is_sentence((#[trigger] r[k])@),
        is_plain(origin_text@) ==> texts(r@) == one_or_none(trimmed(origin_text@)),
{
    let text = mask::mask(origin_text.as_str());
    let text = mask::unstick(text.as_str());
    let text = mask::normalize(text.as_str());
    let pieces = split::split(text.as_str());
    let out = repair::repair_all(&pieces);
    proof {
        if is_plain(origin_text@) {
            lemma_plain_text_one_sentence(origin_text@);
        }
        assert forall|k: int| 0 <= k < out.len() implies is_sentence((#[trigger] out[k])@) by {
            assert(texts(out@)[k] == out[k]@);
            let n = lemma_kept(texts(pieces@), k);
            lemma_repaired(texts(pieces@)[n]);
        }
    }
    out
}

} // verus!
