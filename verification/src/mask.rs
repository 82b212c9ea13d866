//! The rules that mask terminators which end no sentence, part sentences that
//! stick together, and mask terminators next to a closing quote or parenthesis.

use vstd::prelude::*;
use crate::pattern::accepts;
use crate::pattern::apply_rewrite;
use crate::pattern::apply_rule;
use crate::pattern::compiles;
use crate::pattern::rewrite_applied;
use crate::pattern::rule_applied;

verus! {

/// Stands for the period behind a composite abbreviation.
pub const COMPOSITE_TOKEN: &'static str = "&;&";

/// Stands for the first two periods of an ellipsis.
pub const ELLIPSIS_TOKEN: &'static str = "&&&";

/// Stands for the period inside a decimal number.
pub const DECIMAL_TOKEN: &'static str = "&@&";

/// Stands for the period in front of a decimal number without a leading digit.
pub const BARE_DECIMAL_TOKEN: &'static str = "&#&";

/// Stands for a period of an abbreviation of several letters.
pub const ABBREVIATION_TOKEN: &'static str = "&-&";

/// Stands for the period behind an initial.
pub const INITIAL_TOKEN: &'static str = "&_&";

/// Stands for the period behind a title.
pub const TITLE_TOKEN: &'static str = "&*&";

/// Stands for a closing parenthesis that stood behind a terminator.
pub const PAREN_TOKEN: &'static str = "&==&";

/// Stands for the quotes round a terminator: a single one before it, a
/// double one behind.
pub const SINGLE_INSIDE_DOUBLE_TOKEN: &'static str = "&^&";

/// Stands for the quotes round a terminator: a single one before it, a
/// typographic double one behind.
pub const SINGLE_INSIDE_CURLY_TOKEN: &'static str = "&**&";

/// Stands for a typographic double quote that stood behind a terminator.
pub const BEFORE_CURLY_TOKEN: &'static str = "&=&";

/// Stands for a single and a double quote that stood behind a terminator.
pub const BEFORE_SINGLE_DOUBLE_TOKEN: &'static str = "&,&";

/// Stands for a single quote that stood behind a terminator.
pub const BEFORE_SINGLE_TOKEN: &'static str = "&##&";

/// Stands for a double quote that stood behind a terminator.
pub const BEFORE_DOUBLE_TOKEN: &'static str = "&$&";

/// A composite abbreviation and the period behind it; the period is masked.
pub const COMPOSITE: &'static str = r"(?P<comp>et al)\.";
/// What a composite abbreviation gives way to.
pub const COMPOSITE_MASK: &'static str = "$comp&;&";

/// Three periods in a row.
pub const ELLIPSIS: &'static str = r"\.{3}";
/// What an ellipsis gives way to: the token, and one period that stays.
pub const ELLIPSIS_MASK: &'static str = "&&&.";

/// Digits, a period, digits.
pub const DECIMAL: &'static str = r"(?P<number>[0-9]+)\.(?P<decimal>[0-9]+)";
/// What a decimal number gives way to.
pub const DECIMAL_MASK: &'static str = "$number&@&$decimal";

/// White space, a period, digits.
pub const BARE_DECIMAL: &'static str = r"(?P<space>\s)\.(?P<nums>[0-9]+)";
/// What a decimal number without a leading digit gives way to: the white
/// space as it stood, the token, the digits.
pub const BARE_DECIMAL_MASK: &'static str = "${space}&#&$nums";

/// Two or more times a letter and a period.
pub const ABBREVIATION: &'static str = r"(?:[A-Za-z]\.){2,}";
/// A period, as text.
pub const PERIOD: &'static str = ".";

/// A capital letter and a period.
pub const INITIAL: &'static str = r"(?P<init>[A-Z])(?P<point>\.)";
/// What an initial gives way to.
pub const INITIAL_MASK: &'static str = "$init&_&";

/// A capital letter, one to three small letters, and a period.
pub const TITLE: &'static str = r"(?P<title>[A-Z][a-z]{1,3})(\.)";
/// What a title gives way to.
pub const TITLE_MASK: &'static str = "$title&*&";

/// A terminator followed at once by a character that is neither white space
/// nor a straight quote. A period counts only behind a character that is no
/// terminator.
pub const STUCK: &'static str = r##"(?P<left>[^.?!]\.|!|\?)(?P<right>[^\s"'])"##;
/// The two sides of the place where sentences stuck, with a space between.
pub const STUCK_PARTED: &'static str = "$left $right";

/// A terminator before a closing parenthesis.
pub const BEFORE_PAREN: &'static str = r"(?P<bef>[.?!])\s?\)";
/// What a terminator before a closing parenthesis gives way to.
pub const BEFORE_PAREN_MASK: &'static str = "&==&$bef";

/// A single quote, a terminator, a double quote.
pub const SINGLE_INSIDE_DOUBLE: &'static str = r##"'(?P<quote>[.?!])\s?""##;
/// What a terminator between a single and a double quote gives way to.
pub const SINGLE_INSIDE_DOUBLE_MASK: &'static str = "&^&$quote";

/// A single quote, a terminator, a typographic double quote.
pub const SINGLE_INSIDE_CURLY: &'static str = r"'(?P<quote>[.?!])\s?”";
/// What a terminator between a single and a typographic double quote gives way to.
pub const SINGLE_INSIDE_CURLY_MASK: &'static str = "&**&$quote";

/// A terminator before a typographic double quote.
pub const BEFORE_CURLY: &'static str = r"(?P<quote>[.?!])\s?”";
/// What a terminator before a typographic double quote gives way to.
pub const BEFORE_CURLY_MASK: &'static str = "&=&$quote";

/// A terminator, a single quote, a double quote.
pub const BEFORE_SINGLE_DOUBLE: &'static str = r##"(?P<quote>[.?!])\s?'""##;
/// What a terminator before a single and a double quote gives way to.
pub const BEFORE_SINGLE_DOUBLE_MASK: &'static str = "&,&$quote";

/// A terminator before a single quote.
pub const BEFORE_SINGLE: &'static str = r"(?P<quote>[.?!])\s?'";
/// What a terminator before a single quote gives way to.
pub const BEFORE_SINGLE_MASK: &'static str = "&##&$quote";

/// A terminator before a double quote.
pub const BEFORE_DOUBLE: &'static str = r##"(?P<quote>[.?!])\s?""##;
/// What a terminator before a double quote gives way to.
pub const BEFORE_DOUBLE_MASK: &'static str = "&$&$quote";

/// `text` after the seven masking rules, in their order: composite
/// abbreviations, ellipses, decimal numbers, decimal numbers without a
/// leading digit, abbreviations of several letters, initials, titles.
pub open spec fn masked(text: Seq<char>) -> Seq<char> {
    let t = rule_applied(COMPOSITE@, text, COMPOSITE_MASK@);
    let t = rule_applied(ELLIPSIS@, t, ELLIPSIS_MASK@);
    let t = rule_applied(DECIMAL@, t, DECIMAL_MASK@);
    let t = rule_applied(BARE_DECIMAL@, t, BARE_DECIMAL_MASK@);
    let t = rewrite_applied(ABBREVIATION@, t, PERIOD@, ABBREVIATION_TOKEN@);
    let t = rule_applied(INITIAL@, t, INITIAL_MASK@);
    rule_applied(TITLE@, t, TITLE_MASK@)
}

/// `text` with a space put behind every terminator that is followed at once
/// by a character other than white space or a straight quote.
pub open spec fn unstuck(text: Seq<char>) -> Seq<char> {
    rule_applied(STUCK@, text, STUCK_PARTED@)
}

/// `text` after the seven rules for a terminator next to a closing
/// parenthesis or quote, in their order. A token is put before the
/// terminator. One character of white space between the terminator and the
/// closer, as the parting of stuck sentences puts it before a parenthesis or
/// a typographic quote, is dropped.
pub open spec fn normalized(text: Seq<char>) -> Seq<char> {
    let t = rule_applied(BEFORE_PAREN@, text, BEFORE_PAREN_MASK@);
    let t = rule_applied(SINGLE_INSIDE_DOUBLE@, t, SINGLE_INSIDE_DOUBLE_MASK@);
    let t = rule_applied(SINGLE_INSIDE_CURLY@, t, SINGLE_INSIDE_CURLY_MASK@);
    let t = rule_applied(BEFORE_CURLY@, t, BEFORE_CURLY_MASK@);
    let t = rule_applied(BEFORE_SINGLE_DOUBLE@, t, BEFORE_SINGLE_DOUBLE_MASK@);
    let t = rule_applied(BEFORE_SINGLE@, t, BEFORE_SINGLE_MASK@);
    rule_applied(BEFORE_DOUBLE@, t, BEFORE_DOUBLE_MASK@)
}

/// Whether the engine compiles every pattern of this file.
pub open spec fn masks_compile() -> bool {
    &&& compiles(COMPOSITE@)
    &&& compiles(ELLIPSIS@)
    &&& compiles(DECIMAL@)
    &&& compiles(BARE_DECIMAL@)
    &&& compiles(ABBREVIATION@)
    &&& compiles(INITIAL@)
    &&& compiles(TITLE@)
    &&& compiles(STUCK@)
    &&& compiles(BEFORE_PAREN@)
    &&& compiles(SINGLE_INSIDE_DOUBLE@)
    &&& compiles(SINGLE_INSIDE_CURLY@)
    &&& compiles(BEFORE_CURLY@)
    &&& compiles(BEFORE_SINGLE_DOUBLE@)
    &&& compiles(BEFORE_SINGLE@)
    &&& compiles(BEFORE_DOUBLE@)
}

/// Tells whether the engine compiles every pattern of this file.
pub fn check_masks() -> (r: bool)
    ensures
        r == masks_compile(),
{
    accepts(COMPOSITE) && accepts(ELLIPSIS) && accepts(DECIMAL) && accepts(BARE_DECIMAL)
        && accepts(ABBREVIATION) && accepts(INITIAL) && accepts(TITLE) && accepts(STUCK)
        && accepts(BEFORE_PAREN) && accepts(SINGLE_INSIDE_DOUBLE) && accepts(SINGLE_INSIDE_CURLY)
        && accepts(BEFORE_CURLY) && accepts(BEFORE_SINGLE_DOUBLE) && accepts(BEFORE_SINGLE)
        && accepts(BEFORE_DOUBLE)
}

/// Masks the periods that end no sentence.
pub fn mask(text: &str) -> (r: String)
    ensures
        r@ == masked(text@),
{
    let t = apply_rule(COMPOSITE, text, COMPOSITE_MASK);
    let t = apply_rule(ELLIPSIS, t.as_str(), ELLIPSIS_MASK);
    let t = apply_rule(DECIMAL, t.as_str(), DECIMAL_MASK);
    let t = apply_rule(BARE_DECIMAL, t.as_str(), BARE_DECIMAL_MASK);
    let t = apply_rewrite(ABBREVIATION, t.as_str(), PERIOD, ABBREVIATION_TOKEN);
    let t = apply_rule(INITIAL, t.as_str(), INITIAL_MASK);
    apply_rule(TITLE, t.as_str(), TITLE_MASK)
}

/// Parts sentences that stick together.
pub fn unstick(text: &str) -> (r: String)
    ensures
        r@ == unstuck(text@),
{
    apply_rule(STUCK, text, STUCK_PARTED)
}

/// Masks the terminators next to a closing parenthesis or quote.
pub fn normalize(text: &str) -> (r: String)
    ensures
        r@ == normalized(text@),
{
    let t = apply_rule(BEFORE_PAREN, text, BEFORE_PAREN_MASK);
    let t = apply_rule(SINGLE_INSIDE_DOUBLE, t.as_str(), SINGLE_INSIDE_DOUBLE_MASK);
    let t = apply_rule(SINGLE_INSIDE_CURLY, t.as_str(), SINGLE_INSIDE_CURLY_MASK);
    let t = apply_rule(BEFORE_CURLY, t.as_str(), BEFORE_CURLY_MASK);
    let t = apply_rule(BEFORE_SINGLE_DOUBLE, t.as_str(), BEFORE_SINGLE_DOUBLE_MASK);
    let t = apply_rule(BEFORE_SINGLE, t.as_str(), BEFORE_SINGLE_MASK);
    apply_rule(BEFORE_DOUBLE, t.as_str(), BEFORE_DOUBLE_MASK)
}

} // verus!
