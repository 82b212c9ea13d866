//! What holds of literal replacement, and with it of the repair of tokens
//! and of the sentences that are kept.

use vstd::prelude::*;
use crate::mask::ABBREVIATION_TOKEN;
use crate::mask::PERIOD;
use crate::repair::closers_restored;
use crate::repair::kept;
use crate::repair::is_clean;
use crate::repair::repaired;
use crate::repair::stands_for;
use crate::repair::tokens;
use crate::repair::tokens_restored;
use crate::text::contains_token;
use crate::text::occurs_at;
use crate::text::replaced;
use crate::text::replaced_from;
use crate::text::trimmed;
use crate::trim_laws::lemma_trimmed;
use crate::trim_laws::lemma_trimmed_bare;

verus! {

/// The characters that tokens stand for: a period, a closing parenthesis,
/// and the quotes. No token holds one of them.
pub open spec fn is_mark(c: char) -> bool {
    c == '.' || c == ')' || c == '\'' || c == '"' || c == '”'
}

/// A non-empty text of marks.
pub open spec fn is_marks(s: Seq<char>) -> bool {
    s.len() > 0 && forall|k: int| 0 <= k < s.len() ==> is_mark(#[trigger] s[k])
}

/// A non-empty text without a mark.
pub open spec fn is_markless(s: Seq<char>) -> bool {
    s.len() > 0 && forall|k: int| 0 <= k < s.len() ==> !is_mark(#[trigger] s[k])
}

/// Where a replacement by marks starts with `m` characters that are no
/// marks, nothing was replaced there: they are the characters of the text
/// that was given.
proof fn lemma_markless_prefix(s: Seq<char>, from: Seq<char>, to: Seq<char>, i: int, m: int)
    requires
        0 <= i <= s.len(),
        from.len() > 0,
        is_marks(to),
        0 <= m <= replaced_from(s, from, to, i).len(),
        forall|j: int| 0 <= j < m ==> !is_mark(#[trigger] replaced_from(s, from, to, i)[j]),
    ensures
        i + m <= s.len(),
        s.subrange(i, i + m) == replaced_from(s, from, to, i).subrange(0, m),
    decreases m,
{
    let out = replaced_from(s, from, to, i);
    if m == 0 {
        assert(s.subrange(i, i) =~= out.subrange(0, 0));
    } else {
        assert(i < s.len());
        if occurs_at(s, from, i) {
            assert(out[0] == to[0]);
        } else {
            let rest = replaced_from(s, from, to, i + 1);
            assert(out =~= seq![s[i]] + rest);
            assert forall|j: int| 0 <= j < m - 1 implies !is_mark(#[trigger] rest[j]) by {
                assert(rest[j] == out[j + 1]);
            }
            lemma_markless_prefix(s, from, to, i + 1, m - 1);
            assert forall|j: int| 0 <= j < m implies s.subrange(i, i + m)[j] == out.subrange(0, m)[j] by {
                if j > 0 {
                    assert(out[j] == rest[j - 1]);
                    assert(rest.subrange(0, m - 1)[j - 1] == s.subrange(i + 1, i + m)[j - 1]);
                }
            }
            assert(s.subrange(i, i + m) =~= out.subrange(0, m));
        }
    }
}

/// A stretch without marks in a replacement by marks stands in `s` as
/// well; the result is a place where it does.
proof fn lemma_markless_window(s: Seq<char>, from: Seq<char>, to: Seq<char>, i: int, p: int, m: int) -> (q: int)
    requires
        0 <= i <= s.len(),
        from.len() > 0,
        is_marks(to),
        0 <= p,
        0 < m,
        p + m <= replaced_from(s, from, to, i).len(),
        forall|j: int| p <= j < p + m ==> !is_mark(#[trigger] replaced_from(s, from, to, i)[j]),
    ensures
        i <= q,
        q + m <= s.len(),
        s.subrange(q, q + m) == replaced_from(s, from, to, i).subrange(p, p + m),
    decreases s.len() - i,
{
    let out = replaced_from(s, from, to, i);
    assert(i < s.len());
    if occurs_at(s, from, i) {
        let rest = replaced_from(s, from, to, i + from.len());
        assert(out =~= to + rest);
        if p < to.len() {
            assert(out[p] == to[p]);
            i
        } else {
            let shifted = p - to.len();
            assert forall|j: int| shifted <= j < shifted + m implies !is_mark(#[trigger] rest[j]) by {
                assert(rest[j] == out[j + to.len()]);
            }
            let q = lemma_markless_window(s, from, to, i + from.len(), shifted, m);
            assert(out.subrange(p, p + m) =~= rest.subrange(shifted, shifted + m));
            q
        }
    } else {
        let rest = replaced_from(s, from, to, i + 1);
        assert(out =~= seq![s[i]] + rest);
        if p == 0 {
            lemma_markless_prefix(s, from, to, i, m);
            i
        } else {
            assert forall|j: int| p - 1 <= j < p - 1 + m implies !is_mark(#[trigger] rest[j]) by {
                assert(rest[j] == out[j + 1]);
            }
            let q = lemma_markless_window(s, from, to, i + 1, p - 1, m);
            assert(out.subrange(p, p + m) =~= rest.subrange(p - 1, p - 1 + m));
            q
        }
    }
}

/// A replacement of `from` by marks leaves `from` nowhere behind.
proof fn lemma_replaced_away(s: Seq<char>, from: Seq<char>, to: Seq<char>, i: int, p: int)
    requires
        0 <= i <= s.len(),
        is_markless(from),
        is_marks(to),
    ensures
        !occurs_at(replaced_from(s, from, to, i), from, p),
    decreases s.len() - i,
{
    let out = replaced_from(s, from, to, i);
    let m = from.len() as int;
    if occurs_at(out, from, p) {
        assert(i < s.len());
        assert forall|j: int| p <= j < p + m implies !is_mark(#[trigger] out[j]) by {
            assert(out.subrange(p, p + m)[j - p] == from[j - p]);
        }
        if occurs_at(s, from, i) {
            let rest = replaced_from(s, from, to, i + m);
            assert(out =~= to + rest);
            if p < to.len() {
                assert(out[p] == to[p]);
            } else {
                let shifted = p - to.len();
                assert(out.subrange(p, p + m) =~= rest.subrange(shifted, shifted + m));
                lemma_replaced_away(s, from, to, i + m, shifted);
            }
        } else {
            let rest = replaced_from(s, from, to, i + 1);
            assert(out =~= seq![s[i]] + rest);
            if p == 0 {
                lemma_markless_prefix(s, from, to, i, m);
            } else {
                assert(out.subrange(p, p + m) =~= rest.subrange(p - 1, p - 1 + m));
                lemma_replaced_away(s, from, to, i + 1, p - 1);
            }
        }
    }
}

/// Replacing a text without a mark by a run of marks removes every
/// occurrence of it, and brings in no text without a mark that was not
/// there before: no `token` that is the replaced text, or that `s` lacks,
/// stands in the result.
pub proof fn lemma_replaced_lacks(s: Seq<char>, from: Seq<char>, to: Seq<char>, token: Seq<char>)
    requires
        is_markless(from),
        is_marks(to),
        is_markless(token),
        token == from || !contains_token(s, token),
    ensures
        !contains_token(replaced(s, from, to), token),
{
    let out = replaced(s, from, to);
    let m = token.len() as int;
    assert forall|p: int| !occurs_at(out, token, p) by {
        if occurs_at(out, token, p) {
            if token == from {
                lemma_replaced_away(s, from, to, 0, p);
            } else {
                assert forall|j: int| p <= j < p + m implies !is_mark(#[trigger] out[j]) by {
                    assert(out.subrange(p, p + m)[j - p] == token[j - p]);
                }
                let q = lemma_markless_window(s, from, to, 0, p, m);
                assert(occurs_at(s, token, q));
            }
        }
    }
}

proof fn lemma_replaced_from_unchanged(s: Seq<char>, from: Seq<char>, to: Seq<char>, i: int)
    requires
        0 <= i <= s.len(),
        !contains_token(s, from),
    ensures
        replaced_from(s, from, to, i) == s.subrange(i, s.len() as int),
    decreases s.len() - i,
{
    if i < s.len() {
        assert(!occurs_at(s, from, i));
        lemma_replaced_from_unchanged(s, from, to, i + 1);
        assert(seq![s[i]] + s.subrange(i + 1, s.len() as int) =~= s.subrange(i, s.len() as int));
    } else {
        assert(s.subrange(i, s.len() as int) =~= Seq::<char>::empty());
    }
}

/// Replacing what does not occur changes nothing.
pub proof fn lemma_replaced_unchanged(s: Seq<char>, from: Seq<char>, to: Seq<char>)
    requires
        !contains_token(s, from),
    ensures
        replaced(s, from, to) == s,
{
    lemma_replaced_from_unchanged(s, from, to, 0);
    assert(s.subrange(0, s.len() as int) =~= s);
}

proof fn lemma_replaced_behind(head: Seq<char>, s: Seq<char>, from: Seq<char>, to: Seq<char>, i: int)
    requires
        0 <= i <= s.len(),
    ensures
        replaced_from(head + s, from, to, head.len() + i) == replaced_from(s, from, to, i),
    decreases s.len() - i,
{
    let whole = head + s;
    if i < s.len() {
        if i + from.len() <= s.len() {
            assert(whole.subrange(head.len() + i, head.len() + i + from.len()) =~= s.subrange(
                i,
                i + from.len(),
            ));
        }
        assert(occurs_at(whole, from, head.len() + i) == occurs_at(s, from, i));
        if from.len() > 0 && occurs_at(s, from, i) {
            lemma_replaced_behind(head, s, from, to, i + from.len());
        } else {
            lemma_replaced_behind(head, s, from, to, i + 1);
        }
    }
}

proof fn lemma_masked_from_restored(s: Seq<char>, token: Seq<char>, i: int)
    requires
        0 <= i <= s.len(),
        is_markless(token),
        forall|j: int| 0 <= j < s.len() ==> s[j] != token[0],
    ensures
        replaced(replaced_from(s, seq!['.'], token, i), token, seq!['.']) == s.subrange(
            i,
            s.len() as int,
        ),
    decreases s.len() - i,
{
    let period = seq!['.'];
    let masked = replaced_from(s, period, token, i);
    if i >= s.len() {
        assert(s.subrange(i, s.len() as int) =~= Seq::<char>::empty());
    } else {
        let rest = replaced_from(s, period, token, i + 1);
        lemma_masked_from_restored(s, token, i + 1);
        assert(s.subrange(i, i + 1) =~= seq![s[i]]);
        assert(seq![s[i]] + s.subrange(i + 1, s.len() as int) =~= s.subrange(i, s.len() as int));
        if occurs_at(s, period, i) {
            assert(s.subrange(i, i + 1)[0] == period[0]);
            assert(masked == token + rest);
            assert(masked.subrange(0, token.len() as int) =~= token);
            lemma_replaced_behind(token, rest, token, period, 0);
        } else {
            assert(s[i] != '.') by {
                if s[i] == '.' {
                    assert(s.subrange(i, i + 1) =~= period);
                }
            }
            assert(masked == seq![s[i]] + rest);
            assert(!occurs_at(masked, token, 0)) by {
                if occurs_at(masked, token, 0) {
                    assert(masked.subrange(0, token.len() as int)[0] == masked[0]);
                }
            }
            lemma_replaced_behind(seq![s[i]], rest, token, period, 0);
        }
    }
}

/// Masking the periods of a text by a token and turning the token back gives
/// the text again, where the text held nothing of the token's first
/// character, and the token holds no mark.
pub proof fn lemma_masked_restored(s: Seq<char>, token: Seq<char>)
    requires
        is_markless(token),
        forall|j: int| 0 <= j < s.len() ==> s[j] != token[0],
    ensures
        replaced(replaced(s, seq!['.'], token), token, seq!['.']) == s,
{
    lemma_masked_from_restored(s, token, 0);
    assert(s.subrange(0, s.len() as int) =~= s);
}

/// What the abbreviation rule does to a match is undone by the repair, where
/// the match holds no ampersand.
pub proof fn lemma_abbreviation_restored(matched: Seq<char>)
    requires
        forall|j: int| 0 <= j < matched.len() ==> matched[j] != '&',
    ensures
        replaced(replaced(matched, PERIOD@, ABBREVIATION_TOKEN@), ABBREVIATION_TOKEN@, PERIOD@)
            == matched,
{
    reveal_strlit(".");
    lemma_tokens(4);
    assert(PERIOD@ =~= seq!['.']);
    lemma_masked_restored(matched, ABBREVIATION_TOKEN@);
}

/// `s` with the first `n` tokens turned back, in order.
pub open spec fn restored_upto(s: Seq<char>, n: int) -> Seq<char>
    decreases n,
{
    if n <= 0 {
        s
    } else {
        replaced(restored_upto(s, n - 1), tokens()[n - 1], stands_for(n - 1))
    }
}

proof fn lemma_token_texts()
    ensures
        tokens().len() == 14,
        tokens()[0] == seq!['&', ';', '&'],
        tokens()[1] == seq!['&', '&', '&'],
        tokens()[2] == seq!['&', '@', '&'],
        tokens()[3] == seq!['&', '#', '&'],
        tokens()[4] == seq!['&', '-', '&'],
        tokens()[5] == seq!['&', '_', '&'],
        tokens()[6] == seq!['&', '*', '&'],
        tokens()[7] == seq!['&', '=', '=', '&'],
        tokens()[8] == seq!['&', '^', '&'],
        tokens()[9] == seq!['&', '*', '*', '&'],
        tokens()[10] == seq!['&', '=', '&'],
        tokens()[11] == seq!['&', ',', '&'],
        tokens()[12] == seq!['&', '#', '#', '&'],
        tokens()[13] == seq!['&', '$', '&'],
{
    reveal_strlit("&;&");
    reveal_strlit("&&&");
    reveal_strlit("&@&");
    reveal_strlit("&#&");
    reveal_strlit("&-&");
    reveal_strlit("&_&");
    reveal_strlit("&*&");
    reveal_strlit("&==&");
    reveal_strlit("&^&");
    reveal_strlit("&**&");
    reveal_strlit("&=&");
    reveal_strlit("&,&");
    reveal_strlit("&##&");
    reveal_strlit("&$&");
    assert(tokens()[0] =~= seq!['&', ';', '&']);
    assert(tokens()[1] =~= seq!['&', '&', '&']);
    assert(tokens()[2] =~= seq!['&', '@', '&']);
    assert(tokens()[3] =~= seq!['&', '#', '&']);
    assert(tokens()[4] =~= seq!['&', '-', '&']);
    assert(tokens()[5] =~= seq!['&', '_', '&']);
    assert(tokens()[6] =~= seq!['&', '*', '&']);
    assert(tokens()[7] =~= seq!['&', '=', '=', '&']);
    assert(tokens()[8] =~= seq!['&', '^', '&']);
    assert(tokens()[9] =~= seq!['&', '*', '*', '&']);
    assert(tokens()[10] =~= seq!['&', '=', '&']);
    assert(tokens()[11] =~= seq!['&', ',', '&']);
    assert(tokens()[12] =~= seq!['&', '#', '#', '&']);
    assert(tokens()[13] =~= seq!['&', '$', '&']);
}

/// No token holds a mark, every token begins with an ampersand, and each
/// stands for a run of marks.
pub proof fn lemma_tokens(k: int)
    requires
        0 <= k < 14,
    ensures
        tokens().len() == 14,
        is_markless(tokens()[k]),
        tokens()[k][0] == '&',
        is_marks(stands_for(k)),
{
    lemma_token_texts();
    reveal_strlit(".");
    reveal_strlit("..");
    reveal_strlit(")");
    reveal_strlit("'\"");
    reveal_strlit("'”");
    reveal_strlit("”");
    reveal_strlit("'");
    reveal_strlit("\"");
}

/// Once a token has been turned back, the later steps do not bring it in
/// again.
proof fn lemma_restored_upto_lacks(s: Seq<char>, n: int, k: int)
    requires
        0 <= k < n <= 14,
    ensures
        !contains_token(restored_upto(s, n), tokens()[k]),
    decreases n,
{
    lemma_tokens(k);
    lemma_tokens(n - 1);
    if k < n - 1 {
        lemma_restored_upto_lacks(s, n - 1, k);
    }
    lemma_replaced_lacks(restored_upto(s, n - 1), tokens()[n - 1], stands_for(n - 1), tokens()[k]);
}

proof fn lemma_restored_all(text: Seq<char>)
    ensures
        tokens_restored(text) == restored_upto(text, 14),
{
    reveal_with_fuel(restored_upto, 15);
    lemma_token_texts();
}

/// No token is left in a text whose tokens have been turned back, whatever
/// the text held.
pub proof fn lemma_tokens_restored_clean(text: Seq<char>)
    ensures
        is_clean(tokens_restored(text)),
{
    lemma_restored_all(text);
    assert forall|k: int| 0 <= k < 14 implies !contains_token(
        tokens_restored(text),
        #[trigger] tokens()[k],
    ) by {
        lemma_restored_upto_lacks(text, 14, k);
    }
}

proof fn lemma_restored_upto_plain(s: Seq<char>, n: int)
    requires
        0 <= n <= 14,
        forall|j: int| 0 <= j < s.len() ==> s[j] != '&',
    ensures
        restored_upto(s, n) == s,
    decreases n,
{
    if n > 0 {
        lemma_restored_upto_plain(s, n - 1);
        lemma_tokens(n - 1);
        let token = tokens()[n - 1];
        assert forall|p: int| !occurs_at(s, token, p) by {
            if occurs_at(s, token, p) {
                assert(s.subrange(p, p + token.len())[0] == token[0]);
            }
        }
        lemma_replaced_unchanged(s, token, stands_for(n - 1));
    }
}

/// Where a text holds no ampersand, it holds no token: turning the tokens
/// back changes nothing.
pub proof fn lemma_tokens_restored_plain(text: Seq<char>)
    requires
        forall|j: int| 0 <= j < text.len() ==> text[j] != '&',
    ensures
        tokens_restored(text) == text,
{
    lemma_restored_all(text);
    lemma_restored_upto_plain(text, 14);
}

/// What stands in no text stands in no stretch of it.
proof fn lemma_stretch_lacks(s: Seq<char>, lo: int, hi: int, token: Seq<char>)
    requires
        0 <= lo <= hi <= s.len(),
        !contains_token(s, token),
    ensures
        !contains_token(s.subrange(lo, hi), token),
{
    let part = s.subrange(lo, hi);
    assert forall|p: int| !occurs_at(part, token, p) by {
        if occurs_at(part, token, p) {
            assert(part.subrange(p, p + token.len()) =~= s.subrange(lo + p, lo + p + token.len()));
            assert(occurs_at(s, token, lo + p));
        }
    }
}

/// A repaired segment holds none of the fourteen tokens and no white space
/// at its ends, whatever the segment held and whatever the engine made of it.
pub proof fn lemma_repaired(segment: Seq<char>)
    ensures
        is_clean(repaired(segment)),
        trimmed(repaired(segment)) == repaired(segment),
{
    let t = tokens_restored(closers_restored(segment));
    lemma_tokens_restored_clean(closers_restored(segment));
    let bounds = lemma_trimmed(t);
    assert forall|k: int| 0 <= k < 14 implies !contains_token(repaired(segment), #[trigger] tokens()[k]) by {
        lemma_stretch_lacks(t, bounds.0, bounds.1, tokens()[k]);
    }
    lemma_trimmed_bare(t);
}

/// Where a segment holds no ampersand and the closers' patterns find nothing
/// in it, repairing it only trims it.
pub proof fn lemma_repaired_plain(segment: Seq<char>)
    requires
        forall|j: int| 0 <= j < segment.len() ==> segment[j] != '&',
        closers_restored(segment) == segment,
    ensures
        repaired(segment) == trimmed(segment),
{
    lemma_tokens_restored_plain(segment);
}

/// Every sentence that is kept has more than one character, is the repair of
/// one of the segments, and no more sentences are kept than there are
/// segments.
pub proof fn lemma_kept(segments: Seq<Seq<char>>, k: int) -> (n: int)
    requires
        0 <= k < kept(segments).len(),
    ensures
        kept(segments).len() <= segments.len(),
        kept(segments)[k].len() > 1,
        0 <= n < segments.len(),
        kept(segments)[k] == repaired(segments[n]),
    decreases segments.len(),
{
    let before = kept(segments.drop_last());
    lemma_kept_count(segments);
    if k < before.len() {
        lemma_kept(segments.drop_last(), k)
    } else {
        segments.len() - 1
    }
}

/// The sentences kept are the repaired segments, filtered by their length:
/// they stand in the order of the segments they come from.
pub proof fn lemma_kept_filters(segments: Seq<Seq<char>>)
    ensures
        kept(segments) == segments.map_values(|s: Seq<char>| repaired(s)).filter(
            |s: Seq<char>| s.len() > 1,
        ),
    decreases segments.len(),
{
    let all = segments.map_values(|s: Seq<char>| repaired(s));
    let long = |s: Seq<char>| s.len() > 1;
    reveal(Seq::filter);
    if segments.len() > 0 {
        lemma_kept_filters(segments.drop_last());
        assert(all.drop_last() =~= segments.drop_last().map_values(|s: Seq<char>| repaired(s)));
        assert(all.last() == repaired(segments.last()));
    } else {
        assert(all.filter(long) =~= Seq::<Seq<char>>::empty());
    }
}

proof fn lemma_kept_count(segments: Seq<Seq<char>>)
    ensures
        kept(segments).len() <= segments.len(),
    decreases segments.len(),
{
    if segments.len() > 0 {
        lemma_kept_count(segments.drop_last());
    }
}

} // verus!
