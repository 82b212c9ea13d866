//! The pattern engine: the `regex` crate, behind contracts that are taken on
//! trust, and the verified functions that decide what a rule does with it.

use vstd::prelude::*;
use regex::Captures;
use regex::Regex;
use crate::text::replace;
use crate::text::replaced;

verus! {

/// Whether `regex::Regex::new` compiles `pattern`. The engine decides this from
/// the pattern alone, by its syntax and its fixed default size limit. The
/// limit is counted in bytes of the engine's own data, so a pattern close to
/// it may compile on one kind of machine and not on another; the patterns of
/// this library are short and far from it.
pub uninterp spec fn compiles(pattern: Seq<char>) -> bool;

/// What `regex::Regex::replace_all` returns for the compiled `pattern` on
/// `text` with the string `template` as the replacement: every match, taken
/// from the left and without overlap, gives way to the template with its
/// references to capture groups filled in.
pub uninterp spec fn substituted(pattern: Seq<char>, text: Seq<char>, template: Seq<char>) -> Seq<char>;

/// What `regex::Regex::replace_all` returns for the compiled `pattern` on
/// `text` when every match gives way to `replaced(m, from, to)`, `m` being
/// the matched text.
pub uninterp spec fn rewritten(pattern: Seq<char>, text: Seq<char>, from: Seq<char>, to: Seq<char>) -> Seq<char>;

/// Calls `regex::Regex::new` on `pattern` and, where that compiles,
/// `regex::Regex::replace_all` with `text` and the string `template`.
///
/// Taken on trust: the result is `None` exactly when the pattern does not
/// compile, and otherwise the engine's answer, which depends on the three
/// arguments alone. Nothing is claimed about what that answer looks like.
#[verifier::external_body]
pub(crate) fn substitute(pattern: &str, text: &str, template: &str) -> (r: Option<String>)
    ensures
        r is Some <==> compiles(pattern@),
        r matches Some(s) ==> s@ == substituted(pattern@, text@, template@),
{
    match Regex::new(pattern) {
        Ok(re) => Some(re.replace_all(text, template).into_owned()),
        Err(_) => None,
    }
}

/// Calls `regex::Regex::new` on `pattern` and, where that compiles,
/// `regex::Regex::replace_all` with `text` and a closure that hands each
/// matched text to [`replace`] with `from` and `to`.
///
/// Taken on trust: the result is `None` exactly when the pattern does not
/// compile, and otherwise the engine's answer, which depends on the four
/// arguments alone.
#[verifier::external_body]
pub(crate) fn rewrite(pattern: &str, text: &str, from: &str, to: &str) -> (r: Option<String>)
    ensures
        r is Some <==> compiles(pattern@),
        r matches Some(s) ==> s@ == rewritten(pattern@, text@, from@, to@),
{
    match Regex::new(pattern) {
        Ok(re) => Some(re.replace_all(text, |caps: &Captures| replace(&caps[0], from, to)).into_owned()),
        Err(_) => None,
    }
}

/// What a rule makes of `text`, given what the engine made of it: the
/// engine's answer, or `text` itself where the pattern did not compile.
pub open spec fn settled(outcome: Option<Seq<char>>, text: Seq<char>) -> Seq<char> {
    match outcome {
        Some(s) => s,
        None => text,
    }
}

/// The outcome of a substitution as a value of the model.
pub open spec fn outcome_of(r: Option<String>) -> Option<Seq<char>> {
    match r {
        Some(s) => Some(s@),
        None => None,
    }
}

/// A substitution rule applied to `text`: a rule whose pattern does not
/// compile rewrites nothing.
pub open spec fn rule_applied(pattern: Seq<char>, text: Seq<char>, template: Seq<char>) -> Seq<char> {
    settled(
        if compiles(pattern) {
            Some(substituted(pattern, text, template))
        } else {
            None
        },
        text,
    )
}

/// A rewriting rule applied to `text`: every match of `pattern` has its
/// occurrences of `from` replaced by `to`.
pub open spec fn rewrite_applied(pattern: Seq<char>, text: Seq<char>, from: Seq<char>, to: Seq<char>) -> Seq<char> {
    settled(
        if compiles(pattern) {
            Some(rewritten(pattern, text, from, to))
        } else {
            None
        },
        text,
    )
}

/// Settles a rule: the engine's answer where there is one, the text as it
/// was where there is none.
pub fn settle(outcome: Option<String>, text: &str) -> (r: String)
    ensures
        r@ == settled(outcome_of(outcome), text@),
{
    match outcome {
        Some(s) => s,
        None => String::from_str(text),
    }
}

/// Tells whether the engine compiles `pattern`, by asking it to rewrite an
/// empty text.
pub fn accepts(pattern: &str) -> (r: bool)
    ensures
        r == compiles(pattern@),
{
    substitute(pattern, "", "").is_some()
}

/// Applies the substitution rule `pattern` → `template` to `text`.
pub fn apply_rule(pattern: &str, text: &str, template: &str) -> (r: String)
    ensures
        r@ == rule_applied(pattern@, text@, template@),
{
    settle(substitute(pattern, text, template), text)
}

/// Applies to `text` the rule that replaces `from` by `to` inside every match
/// of `pattern`.
pub fn apply_rewrite(pattern: &str, text: &str, from: &str, to: &str) -> (r: String)
    ensures
        r@ == rewrite_applied(pattern@, text@, from@, to@),
{
    settle(rewrite(pattern, text, from, to), text)
}

} // verus!
