//! Character-level helpers: white space, trimming, and literal replacement.

use vstd::prelude::*;
use vstd::std_specs::iter::IteratorSpec;

verus! {

/// The three characters that can end a sentence.
pub open spec fn is_terminator(c: char) -> bool {
    c == '.' || c == '!' || c == '?'
}

/// Unicode's `White_Space` property.
pub open spec fn is_whitespace(c: char) -> bool {
    let n = c as u32;
    ||| 0x09 <= n <= 0x0D
    ||| n == 0x20
    ||| n == 0x85
    ||| n == 0xA0
    ||| n == 0x1680
    ||| 0x2000 <= n <= 0x200A
    ||| n == 0x2028
    ||| n == 0x2029
    ||| n == 0x202F
    ||| n == 0x205F
    ||| n == 0x3000
}

/// The first index at or behind `i` that holds no white space, or the length
/// of `s` if there is none.
pub open spec fn skip_whitespace(s: Seq<char>, i: int) -> int
    decreases s.len() - i,
{
    if 0 <= i < s.len() && is_whitespace(s[i]) {
        skip_whitespace(s, i + 1)
    } else {
        i
    }
}

/// The end of `s[lo..j]` once the white space at its end is taken off.
pub open spec fn drop_whitespace(s: Seq<char>, lo: int, j: int) -> int
    decreases j,
{
    if 0 <= lo < j <= s.len() && is_whitespace(s[j - 1]) {
        drop_whitespace(s, lo, j - 1)
    } else {
        j
    }
}

/// `s` without the white space at its two ends.
pub open spec fn trimmed(s: Seq<char>) -> Seq<char> {
    let lo = skip_whitespace(s, 0);
    let hi = drop_whitespace(s, lo, s.len() as int);
    s.subrange(lo, hi)
}

/// Whether `token` stands in `s` at index `i`.
pub open spec fn occurs_at(s: Seq<char>, token: Seq<char>, i: int) -> bool {
    0 <= i && i + token.len() <= s.len() && s.subrange(i, i + token.len()) == token
}

/// Whether `token` stands anywhere in `s`.
pub open spec fn contains_token(s: Seq<char>, token: Seq<char>) -> bool {
    exists|i: int| occurs_at(s, token, i)
}

/// `s[i..]` with every occurrence of `from` replaced by `to`, the occurrences
/// taken from the left and without overlap. An empty `from` occurs nowhere.
pub open spec fn replaced_from(s: Seq<char>, from: Seq<char>, to: Seq<char>, i: int) -> Seq<char>
    decreases s.len() - i,
{
    if i < 0 || i >= s.len() {
        Seq::empty()
    } else if from.len() > 0 && occurs_at(s, from, i) {
        to + replaced_from(s, from, to, i + from.len())
    } else {
        seq![s[i]] + replaced_from(s, from, to, i + 1)
    }
}

/// `s` with every occurrence of `from` replaced by `to`.
pub open spec fn replaced(s: Seq<char>, from: Seq<char>, to: Seq<char>) -> Seq<char> {
    replaced_from(s, from, to, 0)
}

/// The views of a list of strings.
pub open spec fn texts(v: Seq<String>) -> Seq<Seq<char>> {
    Seq::new(v.len(), |i: int| v[i]@)
}

/// The characters of `s`, for reading by index.
pub fn chars_of(s: &str) -> (v: Vec<char>)
    ensures
        v@ == s@,
{
    let mut it = s.chars();
    let mut v: Vec<char> = Vec::new();
    proof {
        assert(v@ + it.remaining() =~= s@);
    }
    loop
        invariant
            v@ + it.remaining() == s@,
            it.decrease() is Some,
        ensures
            v@ == s@,
        decreases it.decrease()->0,
    {
        let ghost before = v@;
        let ghost left = it.remaining();
        match it.next() {
            Some(c) => {
                v.push(c);
                proof {
                    assert(before.push(c) + left.drop_first() =~= before + left);
                }
            },
            None => {
                proof {
                    assert(before + left =~= before);
                }
                break ;
            },
        }
    }
    v
}

/// Tells whether `c` is white space.
pub fn is_white(c: char) -> (r: bool)
    ensures
        r == is_whitespace(c),
{
    let n: u32 = c as u32;
    (0x09 <= n && n <= 0x0D) || n == 0x20 || n == 0x85 || n == 0xA0 || n == 0x1680
        || (0x2000 <= n && n <= 0x200A) || n == 0x2028 || n == 0x2029 || n == 0x202F
        || n == 0x205F || n == 0x3000
}

/// Removes the white space at both ends of `s`.
pub fn trim(s: &str) -> (r: String)
    ensures
        r@ == trimmed(s@),
{
    let chars = chars_of(s);
    let n: usize = chars.len();
    let mut lo: usize = 0;
    while lo < n && is_white(chars[lo])
        invariant
            lo <= n == s@.len(),
            chars@ == s@,
            skip_whitespace(s@, lo as int) == skip_whitespace(s@, 0),
        decreases n - lo,
    {
        lo += 1;
    }
    let mut hi: usize = n;
    while lo < hi && is_white(chars[hi - 1])
        invariant
            lo <= hi <= n == s@.len(),
            chars@ == s@,
            drop_whitespace(s@, lo as int, hi as int) == drop_whitespace(s@, lo as int, n as int),
        decreases hi,
    {
        hi -= 1;
    }
    String::from_str(s.substring_char(lo, hi))
}

/// Tells whether the characters `token` stand in `s` at index `i`.
pub fn occurs(s: &Vec<char>, token: &Vec<char>, i: usize) -> (r: bool)
    ensures
        r == occurs_at(s@, token@, i as int),
{
    let n: usize = s.len();
    let m: usize = token.len();
    if i > n || m > n - i {
        return false;
    }
    let mut k: usize = 0;
    while k < m
        invariant
            k <= m == token@.len(),
            n == s@.len(),
            i + m <= n,
            s@.subrange(i as int, i + k) == token@.subrange(0, k as int),
        decreases m - k,
    {
        if s[i + k] != token[k] {
            proof {
                assert(s@.subrange(i as int, i + m)[k as int] == s@[i + k]);
            }
            return false;
        }
        proof {
            assert(s@.subrange(i as int, i + k + 1) =~= s@.subrange(i as int, i + k).push(s@[i + k]));
            assert(token@.subrange(0, k + 1) =~= token@.subrange(0, k as int).push(token@[k as int]));
        }
        k += 1;
    }
    proof {
        assert(token@.subrange(0, m as int) =~= token@);
    }
    true
}

/// Tells whether `token` stands in `s` at index `i`, counted in characters.
pub fn starts_at(s: &str, token: &str, i: usize) -> (r: bool)
    ensures
        r == occurs_at(s@, token@, i as int),
{
    let chars = chars_of(s);
    let wanted = chars_of(token);
    occurs(&chars, &wanted, i)
}

/// Replaces every occurrence of `from` in `s` by `to`, from the left and
/// without overlap. An empty `from` is found nowhere.
pub fn replace(s: &str, from: &str, to: &str) -> (r: String)
    ensures
        r@ == replaced(s@, from@, to@),
{
    let chars = chars_of(s);
    let wanted = chars_of(from);
    let n: usize = chars.len();
    let m: usize = wanted.len();
    let mut out = String::new();
    let mut start: usize = 0;
    let mut i: usize = 0;
    proof {
        assert(out@ + s@.subrange(0, 0) + replaced_from(s@, from@, to@, 0) =~= replaced(s@, from@, to@));
    }
    while i < n
        invariant
            start <= i <= n == s@.len(),
            chars@ == s@,
            wanted@ == from@,
            m == from@.len(),
            out@ + s@.subrange(start as int, i as int) + replaced_from(s@, from@, to@, i as int)
                == replaced(s@, from@, to@),
        decreases n - i,
    {
        let ghost before = out@;
        let ghost kept = s@.subrange(start as int, i as int);
        if m > 0 && occurs(&chars, &wanted, i) {
            out.append(s.substring_char(start, i));
            out.append(to);
            proof {
                let rest = replaced_from(s@, from@, to@, i + m);
                assert(s@.subrange(i + m, i + m) =~= Seq::<char>::empty());
                assert((before + kept + to@) + s@.subrange(i + m, i + m) + rest =~= before + kept + (to@
                    + rest));
            }
            i += m;
            start = i;
        } else {
            proof {
                let rest = replaced_from(s@, from@, to@, i + 1);
                assert(before + s@.subrange(start as int, i + 1) + rest =~= before + kept + (seq![
                    s@[i as int],
                ] + rest));
            }
            i += 1;
        }
    }
    let ghost before = out@;
    out.append(s.substring_char(start, n));
    proof {
        assert(before + s@.subrange(start as int, n as int) + Seq::<char>::empty() =~= out@);
    }
    out
}

} // verus!
