//! Turning the placeholder tokens of a segment back into punctuation.

use vstd::prelude::*;
use crate::mask::ABBREVIATION_TOKEN;
use crate::mask::BEFORE_CURLY_TOKEN;
use crate::mask::BEFORE_DOUBLE_TOKEN;
use crate::mask::BEFORE_SINGLE_DOUBLE_TOKEN;
use crate::mask::BEFORE_SINGLE_TOKEN;
use crate::mask::BARE_DECIMAL_TOKEN;
use crate::mask::COMPOSITE_TOKEN;
use crate::mask::DECIMAL_TOKEN;
use crate::mask::ELLIPSIS_TOKEN;
use crate::mask::INITIAL_TOKEN;
use crate::mask::PAREN_TOKEN;
use crate::mask::PERIOD;
use crate::mask::SINGLE_INSIDE_CURLY_TOKEN;
use crate::mask::SINGLE_INSIDE_DOUBLE_TOKEN;
use crate::mask::TITLE_TOKEN;
use crate::pattern::accepts;
use crate::pattern::apply_rule;
use crate::pattern::compiles;
use crate::pattern::rule_applied;
use crate::text::contains_token;
use crate::text::replace;
use crate::text::replaced;
use crate::text::texts;
use crate::text::trim;
use crate::text::trimmed;

verus! {

/// What an ellipsis token gives back: the third period was never masked.
pub const TWO_PERIODS: &'static str = "..";

/// A closing parenthesis, as text.
pub const PAREN: &'static str = ")";

/// A single and a double quote, as text.
pub const SINGLE_DOUBLE: &'static str = "'\"";

/// A single and a typographic double quote, as text.
pub const SINGLE_CURLY: &'static str = "'”";

/// A typographic double quote, as text.
pub const CURLY: &'static str = "”";

/// A single quote, as text.
pub const SINGLE: &'static str = "'";

/// A double quote, as text.
pub const DOUBLE: &'static str = "\"";

/// The token for a closing parenthesis, and the terminator behind it.
pub const PAREN_MASKED: &'static str = r"&==&(?P<p>[.!?])";
/// The terminator, then the parenthesis.
pub const PAREN_RESTORED: &'static str = "$1)";

/// The token for a terminator between a single and a double quote, and the
/// terminator.
pub const SINGLE_INSIDE_DOUBLE_MASKED: &'static str = r"&\^&(?P<p>[.!?])";
/// The single quote, the terminator, the double quote.
pub const SINGLE_INSIDE_DOUBLE_RESTORED: &'static str = "'$p\"";

/// The token for a terminator between a single and a typographic double
/// quote, and the terminator.
pub const SINGLE_INSIDE_CURLY_MASKED: &'static str = r"&\*\*&(?P<p>[.!?])";
/// The single quote, the terminator, the typographic double quote.
pub const SINGLE_INSIDE_CURLY_RESTORED: &'static str = "'$p”";

/// The token for a typographic double quote, and the terminator behind it.
pub const BEFORE_CURLY_MASKED: &'static str = r"&=&(?P<p>[.!?])";
/// The terminator, then the typographic double quote.
pub const BEFORE_CURLY_RESTORED: &'static str = "$p”";

/// The token for a single and a double quote, and the terminator behind it.
pub const BEFORE_SINGLE_DOUBLE_MASKED: &'static str = r"&,&(?P<p>[.!?])";
/// The terminator, then the single and the double quote.
pub const BEFORE_SINGLE_DOUBLE_RESTORED: &'static str = "$p'\"";

/// The token for a single quote, and the terminator behind it.
pub const BEFORE_SINGLE_MASKED: &'static str = r"&##&(?P<p>[.!?])";
/// The terminator, then the single quote.
pub const BEFORE_SINGLE_RESTORED: &'static str = "$p'";

/// The token for a double quote, and the terminator behind it.
pub const BEFORE_DOUBLE_MASKED: &'static str = r"&\$&(?P<p>[.!?])";
/// The terminator, then the double quote.
pub const BEFORE_DOUBLE_RESTORED: &'static str = "$p\"";

/// The fourteen tokens: the seven that stand for periods, then the seven
/// that stand for closers.
pub open spec fn tokens() -> Seq<Seq<char>> {
    seq![
        COMPOSITE_TOKEN@,
        ELLIPSIS_TOKEN@,
        DECIMAL_TOKEN@,
        BARE_DECIMAL_TOKEN@,
        ABBREVIATION_TOKEN@,
        INITIAL_TOKEN@,
        TITLE_TOKEN@,
        PAREN_TOKEN@,
        SINGLE_INSIDE_DOUBLE_TOKEN@,
        SINGLE_INSIDE_CURLY_TOKEN@,
        BEFORE_CURLY_TOKEN@,
        BEFORE_SINGLE_DOUBLE_TOKEN@,
        BEFORE_SINGLE_TOKEN@,
        BEFORE_DOUBLE_TOKEN@,
    ]
}

/// The punctuation that the token at place `k` of [`tokens`] stands for.
pub open spec fn stands_for(k: int) -> Seq<char> {
    if k == 1 {
        TWO_PERIODS@
    } else if k < 7 {
        PERIOD@
    } else if k == 7 {
        PAREN@
    } else if k == 8 {
        SINGLE_DOUBLE@
    } else if k == 9 {
        SINGLE_CURLY@
    } else if k == 10 {
        CURLY@
    } else if k == 11 {
        SINGLE_DOUBLE@
    } else if k == 12 {
        SINGLE@
    } else {
        DOUBLE@
    }
}

/// None of the fourteen tokens stands in `s`.
pub open spec fn is_clean(s: Seq<char>) -> bool {
    forall|k: int| 0 <= k < 14 ==> !contains_token(s, #[trigger] tokens()[k])
}

/// A text with the terminators next to a closing parenthesis or quote put
/// back in their places: a token and the terminator behind it give way to the
/// terminator and the closer. The rules run in the reverse of the order in
/// which the tokens were put in, so that a terminator that was masked twice
/// gets its closers back in their order.
pub open spec fn closers_restored(text: Seq<char>) -> Seq<char> {
    let t = rule_applied(BEFORE_DOUBLE_MASKED@, text, BEFORE_DOUBLE_RESTORED@);
    let t = rule_applied(BEFORE_SINGLE_MASKED@, t, BEFORE_SINGLE_RESTORED@);
    let t = rule_applied(BEFORE_SINGLE_DOUBLE_MASKED@, t, BEFORE_SINGLE_DOUBLE_RESTORED@);
    let t = rule_applied(BEFORE_CURLY_MASKED@, t, BEFORE_CURLY_RESTORED@);
    let t = rule_applied(SINGLE_INSIDE_CURLY_MASKED@, t, SINGLE_INSIDE_CURLY_RESTORED@);
    let t = rule_applied(SINGLE_INSIDE_DOUBLE_MASKED@, t, SINGLE_INSIDE_DOUBLE_RESTORED@);
    rule_applied(PAREN_MASKED@, t, PAREN_RESTORED@)
}

/// A text with every token turned into the punctuation it stands for: the
/// seven tokens for periods in the order in which they were put in, then
/// what is left of the seven tokens for closers.
pub open spec fn tokens_restored(text: Seq<char>) -> Seq<char> {
    let t = replaced(text, COMPOSITE_TOKEN@, PERIOD@);
    let t = replaced(t, ELLIPSIS_TOKEN@, TWO_PERIODS@);
    let t = replaced(t, DECIMAL_TOKEN@, PERIOD@);
    let t = replaced(t, BARE_DECIMAL_TOKEN@, PERIOD@);
    let t = replaced(t, ABBREVIATION_TOKEN@, PERIOD@);
    let t = replaced(t, INITIAL_TOKEN@, PERIOD@);
    let t = replaced(t, TITLE_TOKEN@, PERIOD@);
    let t = replaced(t, PAREN_TOKEN@, PAREN@);
    let t = replaced(t, SINGLE_INSIDE_DOUBLE_TOKEN@, SINGLE_DOUBLE@);
    let t = replaced(t, SINGLE_INSIDE_CURLY_TOKEN@, SINGLE_CURLY@);
    let t = replaced(t, BEFORE_CURLY_TOKEN@, CURLY@);
    let t = replaced(t, BEFORE_SINGLE_DOUBLE_TOKEN@, SINGLE_DOUBLE@);
    let t = replaced(t, BEFORE_SINGLE_TOKEN@, SINGLE@);
    replaced(t, BEFORE_DOUBLE_TOKEN@, DOUBLE@)
}

/// A segment as a sentence: the closers put back behind their terminators,
/// every token turned back, and the result trimmed.
pub open spec fn repaired(segment: Seq<char>) -> Seq<char> {
    trimmed(tokens_restored(closers_restored(segment)))
}

/// The sentences that a list of segments gives: each segment repaired, and
/// those of more than one character kept, in order. A length is a number of
/// characters, not of bytes.
pub open spec fn kept(segments: Seq<Seq<char>>) -> Seq<Seq<char>>
    decreases segments.len(),
{
    if segments.len() == 0 {
        Seq::empty()
    } else {
        let sentence = repaired(segments.last());
        if sentence.len() > 1 {
            kept(segments.drop_last()).push(sentence)
        } else {
            kept(segments.drop_last())
        }
    }
}

/// Whether the engine compiles every pattern of this file.
pub open spec fn repairs_compile() -> bool {
    &&& compiles(PAREN_MASKED@)
    &&& compiles(SINGLE_INSIDE_DOUBLE_MASKED@)
    &&& compiles(SINGLE_INSIDE_CURLY_MASKED@)
    &&& compiles(BEFORE_CURLY_MASKED@)
    &&& compiles(BEFORE_SINGLE_DOUBLE_MASKED@)
    &&& compiles(BEFORE_SINGLE_MASKED@)
    &&& compiles(BEFORE_DOUBLE_MASKED@)
}

/// Tells whether the engine compiles every pattern of this file.
pub fn check_repairs() -> (r: bool)
    ensures
        r == repairs_compile(),
{
    accepts(PAREN_MASKED) && accepts(SINGLE_INSIDE_DOUBLE_MASKED) && accepts(
        SINGLE_INSIDE_CURLY_MASKED,
    ) && accepts(BEFORE_CURLY_MASKED) && accepts(BEFORE_SINGLE_DOUBLE_MASKED) && accepts(
        BEFORE_SINGLE_MASKED,
    ) && accepts(BEFORE_DOUBLE_MASKED)
}

/// Puts the closers back behind their terminators.
pub fn restore_closers(text: &str) -> (r: String)
    ensures
        r@ == closers_restored(text@),
{
    let t = apply_rule(BEFORE_DOUBLE_MASKED, text, BEFORE_DOUBLE_RESTORED);
    let t = apply_rule(BEFORE_SINGLE_MASKED, t.as_str(), BEFORE_SINGLE_RESTORED);
    let t = apply_rule(BEFORE_SINGLE_DOUBLE_MASKED, t.as_str(), BEFORE_SINGLE_DOUBLE_RESTORED);
    let t = apply_rule(BEFORE_CURLY_MASKED, t.as_str(), BEFORE_CURLY_RESTORED);
    let t = apply_rule(SINGLE_INSIDE_CURLY_MASKED, t.as_str(), SINGLE_INSIDE_CURLY_RESTORED);
    let t = apply_rule(SINGLE_INSIDE_DOUBLE_MASKED, t.as_str(), SINGLE_INSIDE_DOUBLE_RESTORED);
    apply_rule(PAREN_MASKED, t.as_str(), PAREN_RESTORED)
}

/// Turns every token into the punctuation it stands for.
pub fn restore_tokens(text: &str) -> (r: String)
    ensures
        r@ == tokens_restored(text@),
{
    let t = replace(text, COMPOSITE_TOKEN, PERIOD);
    let t = replace(t.as_str(), ELLIPSIS_TOKEN, TWO_PERIODS);
    let t = replace(t.as_str(), DECIMAL_TOKEN, PERIOD);
    let t = replace(t.as_str(), BARE_DECIMAL_TOKEN, PERIOD);
    let t = replace(t.as_str(), ABBREVIATION_TOKEN, PERIOD);
    let t = replace(t.as_str(), INITIAL_TOKEN, PERIOD);
    let t = replace(t.as_str(), TITLE_TOKEN, PERIOD);
    let t = replace(t.as_str(), PAREN_TOKEN, PAREN);
    let t = replace(t.as_str(), SINGLE_INSIDE_DOUBLE_TOKEN, SINGLE_DOUBLE);
    let t = replace(t.as_str(), SINGLE_INSIDE_CURLY_TOKEN, SINGLE_CURLY);
    let t = replace(t.as_str(), BEFORE_CURLY_TOKEN, CURLY);
    let t = replace(t.as_str(), BEFORE_SINGLE_DOUBLE_TOKEN, SINGLE_DOUBLE);
    let t = replace(t.as_str(), BEFORE_SINGLE_TOKEN, SINGLE);
    replace(t.as_str(), BEFORE_DOUBLE_TOKEN, DOUBLE)
}

/// Repairs one segment.
pub fn repair(segment: &str) -> (r: String)
    ensures
        r@ == repaired(segment@),
{
    let t = restore_closers(segment);
    let t = restore_tokens(t.as_str());
    trim(t.as_str())
}

/// Repairs every segment and keeps the sentences of more than one character.
pub fn repair_all(segments: &Vec<String>) -> (r: Vec<String>)
    ensures
        texts(r@) == kept(texts(segments@)),
{
    let mut out: Vec<String> = Vec::new();
    let mut k: usize = 0;
    proof {
        assert(texts(segments@).take(0) =~= Seq::<Seq<char>>::empty());
        assert(texts(out@) =~= Seq::<Seq<char>>::empty());
    }
    while k < segments.len()
        invariant
            k <= segments.len(),
            texts(out@) == kept(texts(segments@).take(k as int)),
        decreases segments.len() - k,
    {
        let ghost before = out@;
        let sentence = repair(segments[k].as_str());
        proof {
            let upto = texts(segments@).take(k + 1);
            assert(upto.drop_last() =~= texts(segments@).take(k as int));
            assert(upto.last() == segments@[k as int]@);
        }
        if sentence.as_str().unicode_len() > 1 {
            out.push(sentence);
            proof {
                assert(texts(out@) =~= texts(before).push(sentence@));
            }
        }
        k += 1;
    }
    proof {
        assert(texts(segments@).take(k as int) =~= texts(segments@));
    }
    out
}

} // verus!
