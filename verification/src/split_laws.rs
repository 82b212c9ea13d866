//! What holds of the segments of a text.

use vstd::prelude::*;
use crate::is_plain;
use crate::one_or_none;
use crate::sentences;
use crate::repair::kept;
use crate::repair_laws::lemma_repaired_plain;
use crate::text::trimmed;
use crate::repair::repaired;
use crate::split::cut_after;
use crate::split::cut_each;
use crate::split::pieces_from;
use crate::split::segments;
use crate::text::is_terminator;

verus! {

/// The pieces put together again, with nothing between them.
pub open spec fn joined(pieces: Seq<Seq<char>>) -> Seq<char>
    decreases pieces.len(),
{
    if pieces.len() == 0 {
        Seq::empty()
    } else {
        joined(pieces.drop_last()) + pieces.last()
    }
}

/// `c` stands in `piece` at its end or nowhere.
pub open spec fn only_at_end(piece: Seq<char>, c: char) -> bool {
    forall|j: int| 0 <= j < piece.len() - 1 ==> piece[j] != c
}

/// No terminator stands in `piece` but at its end.
pub open spec fn ends_once(piece: Seq<char>) -> bool {
    forall|j: int| 0 <= j < piece.len() - 1 ==> !is_terminator(#[trigger] piece[j])
}

proof fn lemma_joined_one(piece: Seq<char>)
    ensures
        joined(seq![piece]) == piece,
{
    assert(seq![piece].drop_last() =~= Seq::<Seq<char>>::empty());
    assert(joined(seq![piece].drop_last()) =~= Seq::<char>::empty());
    assert(Seq::<char>::empty() + piece =~= piece);
}

proof fn lemma_joined_both(a: Seq<Seq<char>>, b: Seq<Seq<char>>)
    ensures
        joined(a + b) == joined(a) + joined(b),
    decreases b.len(),
{
    if b.len() == 0 {
        assert(a + b =~= a);
        assert(joined(a) + joined(b) =~= joined(a));
    } else {
        assert((a + b).drop_last() =~= a + b.drop_last());
        assert((a + b).last() == b.last());
        lemma_joined_both(a, b.drop_last());
        assert((joined(a) + joined(b.drop_last())) + b.last() =~= joined(a) + (joined(b.drop_last())
            + b.last()));
    }
}

proof fn lemma_pieces_joined(s: Seq<char>, c: char, start: int, i: int)
    requires
        0 <= start <= i <= s.len(),
    ensures
        joined(pieces_from(s, c, start, i)) == s.subrange(start, s.len() as int),
    decreases s.len() - i,
{
    if i >= s.len() {
        lemma_joined_one(s.subrange(start, s.len() as int));
    } else if s[i] == c {
        let head = s.subrange(start, i + 1);
        let rest = pieces_from(s, c, i + 1, i + 1);
        lemma_pieces_joined(s, c, i + 1, i + 1);
        lemma_joined_both(seq![head], rest);
        lemma_joined_one(head);
        assert(head + s.subrange(i + 1, s.len() as int) =~= s.subrange(start, s.len() as int));
    } else {
        lemma_pieces_joined(s, c, start, i + 1);
    }
}

/// Cutting a text behind every `c` loses nothing of it.
pub proof fn lemma_cut_after_joined(s: Seq<char>, c: char)
    ensures
        joined(cut_after(s, c)) == s,
{
    lemma_pieces_joined(s, c, 0, 0);
    assert(s.subrange(0, s.len() as int) =~= s);
}

/// Cutting every piece behind every `c` loses nothing of them.
pub proof fn lemma_cut_each_joined(pieces: Seq<Seq<char>>, c: char)
    ensures
        joined(cut_each(pieces, c)) == joined(pieces),
    decreases pieces.len(),
{
    if pieces.len() > 0 {
        lemma_cut_each_joined(pieces.drop_last(), c);
        lemma_cut_after_joined(pieces.last(), c);
        lemma_joined_both(cut_each(pieces.drop_last(), c), cut_after(pieces.last(), c));
    }
}

/// The segments of a text, put together again, are the text: the splitter
/// neither drops nor adds nor moves a character.
pub proof fn lemma_segments_joined(text: Seq<char>)
    ensures
        joined(segments(text)) == text,
{
    let first = cut_after(text, '!');
    let second = cut_each(first, '?');
    lemma_cut_after_joined(text, '!');
    lemma_cut_each_joined(first, '?');
    lemma_cut_each_joined(second, '.');
}

proof fn lemma_pieces_whole(s: Seq<char>, c: char, start: int, i: int)
    requires
        0 <= start <= i <= s.len(),
        forall|j: int| i <= j < s.len() ==> s[j] != c,
    ensures
        pieces_from(s, c, start, i) == seq![s.subrange(start, s.len() as int)],
    decreases s.len() - i,
{
    if i < s.len() {
        lemma_pieces_whole(s, c, start, i + 1);
    }
}

/// A text that holds no `c` is cut into one piece, itself.
pub proof fn lemma_cut_after_whole(s: Seq<char>, c: char)
    requires
        forall|j: int| 0 <= j < s.len() ==> s[j] != c,
    ensures
        cut_after(s, c) == seq![s],
        cut_each(seq![s], c) == seq![s],
{
    lemma_pieces_whole(s, c, 0, 0);
    assert(s.subrange(0, s.len() as int) =~= s);
    assert(seq![s].drop_last() =~= Seq::<Seq<char>>::empty());
    assert(cut_each(seq![s].drop_last(), c) =~= Seq::<Seq<char>>::empty());
    assert(Seq::<Seq<char>>::empty() + seq![s] =~= seq![s]);
}

/// A text without a terminator is one segment, and gives one sentence, the
/// text repaired, or none where that has at most one character.
pub proof fn lemma_no_terminator_one_segment(text: Seq<char>)
    requires
        forall|j: int| 0 <= j < text.len() ==> !is_terminator(#[trigger] text[j]),
    ensures
        segments(text) == seq![text],
        kept(segments(text)) == if repaired(text).len() > 1 {
            seq![repaired(text)]
        } else {
            Seq::<Seq<char>>::empty()
        },
{
    assert forall|j: int| 0 <= j < text.len() implies text[j] != '!' && text[j] != '?' && text[j]
        != '.' by {
        assert(!is_terminator(text[j]));
    }
    lemma_cut_after_whole(text, '!');
    lemma_cut_after_whole(text, '?');
    lemma_cut_after_whole(text, '.');
    assert(seq![text].drop_last() =~= Seq::<Seq<char>>::empty());
    assert(kept(seq![text].drop_last()) =~= Seq::<Seq<char>>::empty());
    assert(Seq::<Seq<char>>::empty().push(repaired(text)) =~= seq![repaired(text)]);
}

/// A plain text gives one sentence, the text trimmed, or none where that
/// has at most one character; so an empty text that is plain gives none.
/// That no pattern finds anything in the text is part of being plain:
/// `reads_plain` tells it of a given text.
pub proof fn lemma_plain_text_one_sentence(text: Seq<char>)
    requires
        is_plain(text),
    ensures
        sentences(text) == one_or_none(trimmed(text)),
{
    assert forall|j: int| 0 <= j < text.len() implies text[j] != '&' by {
        assert(!is_terminator(text[j]) && text[j] != '&');
    }
    lemma_no_terminator_one_segment(text);
    lemma_repaired_plain(text);
}

proof fn lemma_pieces_end(s: Seq<char>, c: char, d: char, start: int, i: int, k: int)
    requires
        0 <= start <= i <= s.len(),
        0 <= k < pieces_from(s, c, start, i).len(),
        forall|j: int| start <= j < i ==> s[j] != c,
        d == c || only_at_end(s, d),
    ensures
        only_at_end(pieces_from(s, c, start, i)[k], d),
    decreases s.len() - i,
{
    if i >= s.len() {
    } else if s[i] == c {
        if k > 0 {
            lemma_pieces_end(s, c, d, i + 1, i + 1, k - 1);
        }
    } else {
        lemma_pieces_end(s, c, d, start, i + 1, k);
    }
}

proof fn lemma_cut_each_end(pieces: Seq<Seq<char>>, c: char, d: char, k: int)
    requires
        0 <= k < cut_each(pieces, c).len(),
        d == c || forall|n: int| 0 <= n < pieces.len() ==> only_at_end(#[trigger] pieces[n], d),
    ensures
        only_at_end(cut_each(pieces, c)[k], d),
    decreases pieces.len(),
{
    let before = cut_each(pieces.drop_last(), c);
    if k < before.len() {
        assert forall|n: int| 0 <= n < pieces.drop_last().len() implies only_at_end(
            #[trigger] pieces.drop_last()[n],
            d,
        ) || d == c by {
            assert(pieces.drop_last()[n] == pieces[n]);
        }
        lemma_cut_each_end(pieces.drop_last(), c, d, k);
    } else {
        assert(d == c || only_at_end(pieces[pieces.len() - 1], d));
        lemma_pieces_end(pieces.last(), c, d, 0, 0, k - before.len());
    }
}

/// `piece` is not empty and ends with a terminator.
pub open spec fn is_closed(piece: Seq<char>) -> bool {
    piece.len() > 0 && is_terminator(piece.last())
}

/// `piece` is not empty and ends with `a` or `b`.
pub open spec fn ends_with(piece: Seq<char>, a: char, b: char) -> bool {
    piece.len() > 0 && (piece.last() == a || piece.last() == b)
}

proof fn lemma_pieces_some(s: Seq<char>, c: char, start: int, i: int)
    ensures
        pieces_from(s, c, start, i).len() >= 1,
    decreases s.len() - i,
{
    if 0 <= i < s.len() && s[i] != c {
        lemma_pieces_some(s, c, start, i + 1);
    }
}

proof fn lemma_pieces_tail(s: Seq<char>, c: char, start: int, i: int, k: int)
    requires
        0 <= start <= i <= s.len(),
        0 <= k < pieces_from(s, c, start, i).len(),
        start > 0 ==> s[start - 1] == c,
    ensures
        k < pieces_from(s, c, start, i).len() - 1 ==> ends_with(pieces_from(s, c, start, i)[k], c, c),
        k == pieces_from(s, c, start, i).len() - 1 && s.len() > 0 && s.last() != c ==> ends_with(
            pieces_from(s, c, start, i)[k],
            s.last(),
            s.last(),
        ),
    decreases s.len() - i,
{
    if i >= s.len() {
        if s.len() > 0 && s.last() != c {
            assert(start < s.len());
            assert(s.subrange(start, s.len() as int).last() == s.last());
        }
    } else if s[i] == c {
        lemma_pieces_some(s, c, i + 1, i + 1);
        if k > 0 {
            lemma_pieces_tail(s, c, i + 1, i + 1, k - 1);
        } else {
            assert(s.subrange(start, i + 1).last() == c);
        }
    } else {
        lemma_pieces_tail(s, c, start, i + 1, k);
    }
}

proof fn lemma_cut_each_tail(pieces: Seq<Seq<char>>, c: char, a: char, b: char, k: int)
    requires
        0 <= k < cut_each(pieces, c).len() - 1,
        a != c,
        b != c,
        forall|n: int| 0 <= n < pieces.len() - 1 ==> ends_with(#[trigger] pieces[n], a, b),
    ensures
        ends_with(cut_each(pieces, c)[k], a, b) || ends_with(cut_each(pieces, c)[k], c, c),
    decreases pieces.len(),
{
    assert(pieces.len() > 0);
    let head = pieces.drop_last();
    let before = cut_each(head, c);
    let after = cut_after(pieces.last(), c);
    assert(cut_each(pieces, c) == before + after);
    lemma_pieces_some(pieces.last(), c, 0, 0);
    if k < before.len() - 1 {
        assert forall|n: int| 0 <= n < head.len() - 1 implies ends_with(#[trigger] head[n], a, b) by {
            assert(head[n] == pieces[n]);
        }
        lemma_cut_each_tail(head, c, a, b, k);
    } else if k == before.len() - 1 {
        assert(head.len() > 0);
        let inner = cut_each(head.drop_last(), c);
        let last = head.last();
        assert(before == inner + cut_after(last, c));
        assert(last == pieces[pieces.len() - 2]);
        assert(ends_with(last, a, b));
        lemma_pieces_some(last, c, 0, 0);
        lemma_pieces_tail(last, c, 0, 0, k - inner.len());
    } else {
        lemma_pieces_tail(pieces.last(), c, 0, 0, k - before.len());
    }
}

/// Every segment but the last is not empty and ends with a terminator.
pub proof fn lemma_segments_closed(text: Seq<char>, k: int)
    requires
        0 <= k < segments(text).len() - 1,
    ensures
        is_closed(segments(text)[k]),
{
    let first = cut_after(text, '!');
    let second = cut_each(first, '?');
    assert forall|n: int| 0 <= n < first.len() - 1 implies ends_with(#[trigger] first[n], '!', '!') by {
        lemma_pieces_tail(text, '!', 0, 0, n);
    }
    assert forall|n: int| 0 <= n < second.len() - 1 implies ends_with(#[trigger] second[n], '!', '?') by {
        lemma_cut_each_tail(first, '?', '!', '!', n);
    }
    lemma_cut_each_tail(second, '.', '!', '?', k);
}

/// In no segment does a terminator stand anywhere but at the end: a text is
/// cut behind every terminator that is left in it.
pub proof fn lemma_segments_end_once(text: Seq<char>, k: int)
    requires
        0 <= k < segments(text).len(),
    ensures
        ends_once(segments(text)[k]),
{
    let first = cut_after(text, '!');
    let second = cut_each(first, '?');
    let third = cut_each(second, '.');
    assert forall|n: int| 0 <= n < first.len() implies only_at_end(#[trigger] first[n], '!') by {
        lemma_pieces_end(text, '!', '!', 0, 0, n);
    }
    assert forall|n: int| 0 <= n < second.len() implies only_at_end(#[trigger] second[n], '!')
        && only_at_end(second[n], '?') by {
        lemma_cut_each_end(first, '?', '!', n);
        lemma_cut_each_end(first, '?', '?', n);
    }
    lemma_cut_each_end(second, '.', '!', k);
    lemma_cut_each_end(second, '.', '?', k);
    lemma_cut_each_end(second, '.', '.', k);
}

} // verus!
