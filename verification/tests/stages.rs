use sentence_cutter::mask;
use sentence_cutter::pattern::{apply_rewrite, apply_rule, settle};
use sentence_cutter::repair;
use sentence_cutter::split::{split, split_after, split_each};
use sentence_cutter::text::{chars_of, is_white, occurs, replace, starts_at, trim};

fn strings(v: &[&str]) -> Vec<String> {
    v.iter().map(|s| String::from(*s)).collect()
}

#[test]
fn white_space_is_unicode_white_space() {
    for c in [' ', '\t', '\n', '\r', '\u{b}', '\u{c}', '\u{85}', '\u{a0}', '\u{1680}', '\u{2000}', '\u{200a}', '\u{2028}', '\u{2029}', '\u{202f}', '\u{205f}', '\u{3000}'] {
        assert!(is_white(c));
    }
    for c in ['a', '.', '\u{8}', '\u{e}', '\u{200b}', '\u{1f}', '”'] {
        assert!(!is_white(c));
    }
    let mut n: u32 = 0;
    while n < 0x3100 {
        if let Some(c) = char::from_u32(n) {
            assert_eq!(is_white(c), c.is_whitespace());
        }
        n += 1;
    }
}

#[test]
fn trim_takes_white_space_off_both_ends() {
    assert_eq!(trim("  a b \n"), "a b");
    assert_eq!(trim("\u{3000}é\u{a0}"), "é");
    assert_eq!(trim(""), "");
    assert_eq!(trim(" \t "), "");
    assert_eq!(trim("x"), "x");
}

#[test]
fn chars_of_lists_the_characters() {
    assert_eq!(chars_of("aé”."), vec!['a', 'é', '”', '.']);
    assert_eq!(chars_of(""), Vec::<char>::new());
}

#[test]
fn occurs_compares_at_an_index() {
    let s = chars_of("é&;&b");
    assert!(occurs(&s, &chars_of("&;&"), 1));
    assert!(!occurs(&s, &chars_of("&;&"), 2));
    assert!(!occurs(&s, &chars_of("&;&"), 3));
    assert!(occurs(&s, &chars_of(""), 5));
    assert!(!occurs(&s, &chars_of(""), 6));
}

#[test]
fn starts_at_finds_a_token() {
    assert!(starts_at("a&;&b", "&;&", 1));
    assert!(!starts_at("a&;&b", "&;&", 0));
    assert!(!starts_at("a&;", "&;&", 1));
    assert!(!starts_at("abc", "b", 7));
    assert!(starts_at("abc", "", 3));
}

#[test]
fn replace_goes_from_the_left_without_overlap() {
    assert_eq!(replace("a&;&b&;&", "&;&", "."), "a.b.");
    assert_eq!(replace("&&&&", "&&&", ".."), "..&");
    assert_eq!(replace("aaa", "aa", "b"), "ba");
    assert_eq!(replace("héllo", "l", "LL"), "héLLLLo");
    assert_eq!(replace("abc", "", "x"), "abc");
    assert_eq!(replace("", "a", "x"), "");
    assert_eq!(replace("U.A.", ".", "&-&"), "U&-&A&-&");
    assert_eq!(replace("é&@&é&@&é", "&@&", "."), "é.é.é");
    assert_eq!(replace("ab", "abc", "x"), "ab");
}

#[test]
fn a_rule_substitutes_every_match() {
    assert_eq!(apply_rule("a+", "caaat baa", "b"), "cbt bb");
    assert_eq!(apply_rule(r"(?P<x>[0-9])\.", "1.2.", "$x!"), "1!2!");
    assert_eq!(apply_rule("z", "abc", "y"), "abc");
}

#[test]
fn a_rule_that_does_not_compile_rewrites_nothing() {
    assert_eq!(apply_rule("(", "a ( b", "x"), "a ( b");
    assert_eq!(apply_rewrite("[", "a [ b", "a", "x"), "a [ b");
}

#[test]
fn a_rewrite_works_inside_the_matches_only() {
    assert_eq!(apply_rewrite(r"(?:[A-Za-z]\.){2,}", "The U.A.E.R. is. big.", ".", "&-&"), "The U&-&A&-&E&-&R&-& is. big.");
    assert_eq!(apply_rewrite("b+", "abba b", "b", "cc"), "acccca cc");
}

#[test]
fn settle_keeps_the_answer_or_the_text() {
    assert_eq!(settle(Some(String::from("new")), "old"), "new");
    assert_eq!(settle(None, "old"), "old");
    assert_eq!(settle(Some(String::new()), "old"), "");
}

#[test]
fn split_after_keeps_the_terminator() {
    assert_eq!(split_after("a!b!c", '!'), strings(&["a!", "b!", "c"]));
    assert_eq!(split_after("a!", '!'), strings(&["a!", ""]));
    assert_eq!(split_after("", '!'), strings(&[""]));
    assert_eq!(split_after("abc", '?'), strings(&["abc"]));
    assert_eq!(split_after("??", '?'), strings(&["?", "?", ""]));
}

#[test]
fn split_each_lines_the_pieces_up() {
    assert_eq!(split_each(&strings(&["a?b!", "c"]), '?'), strings(&["a?", "b!", "c"]));
    assert_eq!(split_each(&strings(&[]), '?'), strings(&[]));
}

#[test]
fn split_cuts_behind_each_terminator() {
    assert_eq!(split("Who? Me! Yes. Fine"), strings(&["Who?", " Me!", " Yes.", " Fine"]));
    assert_eq!(split("a!?"), strings(&["a!", "?", ""]));
    assert_eq!(split("a.b?c!d"), strings(&["a.", "b?", "c!", "d"]));
    assert_eq!(split(""), strings(&[""]));
}

#[test]
fn masks_put_tokens_in() {
    assert_eq!(mask::mask("Smith et al. say"), "Smith et al&;& say");
    assert_eq!(mask::mask("Wait..."), "Wait&&&.");
    assert_eq!(mask::mask("about 1.5 minutes"), "about 1&@&5 minutes");
    assert_eq!(mask::mask("to be .625."), "to be &#&625.");
    assert_eq!(mask::mask("x\t.5 y\n.25 z\u{a0}.125"), "x\t&#&5 y\n&#&25 z\u{a0}&#&125");
    assert_eq!(mask::mask("the U.A.E.R. is"), "the U&-&A&-&E&-&R&-& is");
    assert_eq!(mask::mask("by C. Jeung"), "by C&_& Jeung");
    assert_eq!(mask::mask("Dr. Who and Mrs. Who"), "Dr&*& Who and Mrs&*& Who");
    assert_eq!(mask::mask("nothing to mask"), "nothing to mask");
}

#[test]
fn unstick_puts_a_space_in() {
    assert_eq!(mask::unstick("ignore.Some"), "ignore. Some");
    assert_eq!(mask::unstick("What?No!Yes"), "What? No! Yes");
    assert_eq!(mask::unstick("fine. Some"), "fine. Some");
    assert_eq!(mask::unstick("we?\""), "we?\"");
}

#[test]
fn normalize_masks_terminators_next_to_closers() {
    assert_eq!(mask::normalize("(a note.)"), "(a note&==&.");
    assert_eq!(mask::normalize("it'.\""), "it&^&.");
    assert_eq!(mask::normalize("it'?”"), "it&**&?");
    assert_eq!(mask::normalize("it?”"), "it&=&?");
    assert_eq!(mask::normalize("it!'\""), "it&,&!");
    assert_eq!(mask::normalize("it!'"), "it&##&!");
    assert_eq!(mask::normalize("it?\""), "it&$&?");
}

#[test]
fn every_period_rule_is_undone_by_its_repair() {
    let cases = [
        (mask::COMPOSITE, mask::COMPOSITE_MASK, mask::COMPOSITE_TOKEN, ".", "et al."),
        (mask::ELLIPSIS, mask::ELLIPSIS_MASK, mask::ELLIPSIS_TOKEN, "..", "..."),
        (mask::DECIMAL, mask::DECIMAL_MASK, mask::DECIMAL_TOKEN, ".", "12.75"),
        (mask::BARE_DECIMAL, mask::BARE_DECIMAL_MASK, mask::BARE_DECIMAL_TOKEN, ".", " .625"),
        (mask::BARE_DECIMAL, mask::BARE_DECIMAL_MASK, mask::BARE_DECIMAL_TOKEN, ".", "x\t.5"),
        (mask::BARE_DECIMAL, mask::BARE_DECIMAL_MASK, mask::BARE_DECIMAL_TOKEN, ".", "x\n.5"),
        (mask::BARE_DECIMAL, mask::BARE_DECIMAL_MASK, mask::BARE_DECIMAL_TOKEN, ".", "x\u{a0}.5"),
        (mask::INITIAL, mask::INITIAL_MASK, mask::INITIAL_TOKEN, ".", "C."),
        (mask::TITLE, mask::TITLE_MASK, mask::TITLE_TOKEN, ".", "Mrs."),
    ];
    for (pattern, template, token, back, text) in cases {
        let masked = apply_rule(pattern, text, template);
        assert_ne!(masked, text);
        assert!(masked.contains(token));
        assert_eq!(replace(&masked, token, back), text);
    }
    let masked = apply_rewrite(mask::ABBREVIATION, "U.A.E.R.", mask::PERIOD, mask::ABBREVIATION_TOKEN);
    assert_eq!(masked, "U&-&A&-&E&-&R&-&");
    assert_eq!(replace(&masked, mask::ABBREVIATION_TOKEN, mask::PERIOD), "U.A.E.R.");
}

#[test]
fn every_closer_rule_is_undone_by_its_repair() {
    let cases = [
        (mask::BEFORE_PAREN, mask::BEFORE_PAREN_MASK, repair::PAREN_MASKED, repair::PAREN_RESTORED, ".)"),
        (mask::SINGLE_INSIDE_DOUBLE, mask::SINGLE_INSIDE_DOUBLE_MASK, repair::SINGLE_INSIDE_DOUBLE_MASKED, repair::SINGLE_INSIDE_DOUBLE_RESTORED, "'?\""),
        (mask::SINGLE_INSIDE_CURLY, mask::SINGLE_INSIDE_CURLY_MASK, repair::SINGLE_INSIDE_CURLY_MASKED, repair::SINGLE_INSIDE_CURLY_RESTORED, "'!”"),
        (mask::BEFORE_CURLY, mask::BEFORE_CURLY_MASK, repair::BEFORE_CURLY_MASKED, repair::BEFORE_CURLY_RESTORED, "?”"),
        (mask::BEFORE_SINGLE_DOUBLE, mask::BEFORE_SINGLE_DOUBLE_MASK, repair::BEFORE_SINGLE_DOUBLE_MASKED, repair::BEFORE_SINGLE_DOUBLE_RESTORED, ".'\""),
        (mask::BEFORE_SINGLE, mask::BEFORE_SINGLE_MASK, repair::BEFORE_SINGLE_MASKED, repair::BEFORE_SINGLE_RESTORED, "!'"),
        (mask::BEFORE_DOUBLE, mask::BEFORE_DOUBLE_MASK, repair::BEFORE_DOUBLE_MASKED, repair::BEFORE_DOUBLE_RESTORED, "?\""),
    ];
    for (pattern, template, masked_pattern, restored, text) in cases {
        let masked = apply_rule(pattern, text, template);
        assert_ne!(masked, text);
        assert_eq!(apply_rule(masked_pattern, &masked, restored), text);
    }
}

#[test]
fn restore_tokens_turns_every_token_back() {
    assert_eq!(repair::restore_tokens("the U&-&A&-& paid 1&@&5 and &#&25&&&."), "the U.A. paid 1.5 and .25...");
    assert_eq!(repair::restore_tokens("Dr&*& C&_& Jeung et al&;&"), "Dr. C. Jeung et al.");
    assert_eq!(repair::restore_tokens("&==& &^& &**& &=& &,& &##& &$&"), ") '\" '” ” '\" ' \"");
    assert_eq!(repair::restore_tokens(" plain \n"), " plain \n");
}

#[test]
fn restore_closers_puts_the_closer_behind_the_terminator() {
    assert_eq!(repair::restore_closers("(a note&==&."), "(a note.)");
    assert_eq!(repair::restore_closers("it&^&. it&**&? it&=&? it&,&! it&##&! it&$&?"), "it'.\" it'?” it?” it!'\" it!' it?\"");
    assert_eq!(repair::restore_closers("&==& alone"), "&==& alone");
}

#[test]
fn restore_closers_unmasks_inside_out() {
    assert_eq!(repair::restore_closers("a&==&&$&."), "a.)\"");
    assert_eq!(repair::restore_closers("a&==&&,&!"), "a!)'\"");
}

#[test]
fn repair_trims_last() {
    assert_eq!(repair::repair(" Wait&&&. "), "Wait...");
    assert_eq!(repair::repair("  (a note&==&. \n"), "(a note.)");
    assert_eq!(repair::repair(" \n"), "");
    assert_eq!(repair::repair("a &==& b"), "a ) b");
}

#[test]
fn every_pattern_compiles() {
    assert!(mask::check_masks());
    assert!(repair::check_repairs());
    assert!(sentence_cutter::rules_compile());
    assert!(sentence_cutter::pattern::accepts("a+"));
    assert!(!sentence_cutter::pattern::accepts("("));
}

#[test]
fn repair_all_drops_what_is_too_short() {
    assert_eq!(
        repair::repair_all(&strings(&[" One.", "", " x ", " Two&==&!", "  "])),
        strings(&["One.", "Two!)"])
    );
}
