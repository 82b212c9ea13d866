//! Cutting a masked text into segments, behind each terminator.

use vstd::prelude::*;
use crate::text::chars_of;
use crate::text::texts;

verus! {

/// The pieces of `s[start..]` when `s` is cut behind every `c` at or behind
/// index `i`; `s[start..i]` is the part of the first piece already passed.
pub open spec fn pieces_from(s: Seq<char>, c: char, start: int, i: int) -> Seq<Seq<char>>
    decreases s.len() - i,
{
    if i < 0 || i >= s.len() {
        seq![s.subrange(start, s.len() as int)]
    } else if s[i] == c {
        seq![s.subrange(start, i + 1)] + pieces_from(s, c, i + 1, i + 1)
    } else {
        pieces_from(s, c, start, i + 1)
    }
}

/// `s` cut behind every `c`. Each piece but the last ends with `c`; the last
/// is what follows the last `c`, and may be empty.
pub open spec fn cut_after(s: Seq<char>, c: char) -> Seq<Seq<char>> {
    pieces_from(s, c, 0, 0)
}

/// Every piece cut behind every `c`, the results in order.
pub open spec fn cut_each(pieces: Seq<Seq<char>>, c: char) -> Seq<Seq<char>>
    decreases pieces.len(),
{
    if pieces.len() == 0 {
        Seq::empty()
    } else {
        cut_each(pieces.drop_last(), c) + cut_after(pieces.last(), c)
    }
}

/// The segments of a text: it is cut behind each exclamation mark, the pieces
/// behind each question mark, and their pieces behind each period.
pub open spec fn segments(text: Seq<char>) -> Seq<Seq<char>> {
    cut_each(cut_each(cut_after(text, '!'), '?'), '.')
}

/// Cuts `s` behind every `c`.
pub fn split_after(s: &str, c: char) -> (r: Vec<String>)
    ensures
        texts(r@) == cut_after(s@, c),
{
    let chars = chars_of(s);
    let n: usize = chars.len();
    let mut out: Vec<String> = Vec::new();
    let mut start: usize = 0;
    let mut i: usize = 0;
    proof {
        assert(texts(out@) + pieces_from(s@, c, 0, 0) =~= cut_after(s@, c));
    }
    while i < n
        invariant
            start <= i <= n == s@.len(),
            chars@ == s@,
            texts(out@) + pieces_from(s@, c, start as int, i as int) == cut_after(s@, c),
        decreases n - i,
    {
        if chars[i] == c {
            let ghost before = out@;
            let piece = String::from_str(s.substring_char(start, i + 1));
            out.push(piece);
            proof {
                assert(texts(out@) =~= texts(before).push(piece@));
                assert(texts(out@) + pieces_from(s@, c, i + 1, i + 1) =~= texts(before) + (seq![
                    piece@,
                ] + pieces_from(s@, c, i + 1, i + 1)));
            }
            start = i + 1;
        }
        i += 1;
    }
    let ghost before = out@;
    let piece = String::from_str(s.substring_char(start, n));
    out.push(piece);
    proof {
        assert(texts(out@) =~= texts(before) + seq![piece@]);
    }
    out
}

/// Cuts every piece behind every `c` and lines the results up.
pub fn split_each(pieces: &Vec<String>, c: char) -> (r: Vec<String>)
    ensures
        texts(r@) == cut_each(texts(pieces@), c),
{
    let mut out: Vec<String> = Vec::new();
    let mut k: usize = 0;
    proof {
        assert(texts(pieces@).take(0) =~= Seq::<Seq<char>>::empty());
        assert(texts(out@) =~= Seq::<Seq<char>>::empty());
    }
    while k < pieces.len()
        invariant
            k <= pieces.len(),
            texts(out@) == cut_each(texts(pieces@).take(k as int), c),
        decreases pieces.len() - k,
    {
        let ghost before = out@;
        let mut part = split_after(pieces[k].as_str(), c);
        let ghost added = part@;
        out.append(&mut part);
        proof {
            let upto = texts(pieces@).take(k + 1);
            assert(upto.drop_last() =~= texts(pieces@).take(k as int));
            assert(upto.last() == pieces@[k as int]@);
            assert(texts(out@) =~= texts(before) + texts(added));
        }
        k += 1;
    }
    proof {
        assert(texts(pieces@).take(k as int) =~= texts(pieces@));
    }
    out
}

/// Cuts a masked text into its segments.
pub fn split(text: &str) -> (r: Vec<String>)
    ensures
        texts(r@) == segments(text@),
{
    let by_exclamation = split_after(text, '!');
    let by_question = split_each(&by_exclamation, '?');
    split_each(&by_question, '.')
}

} // verus!
