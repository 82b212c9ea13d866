use sentence_cutter::cut;
use sentence_cutter::reads_plain;

fn sentences(text: &str) -> Vec<String> {
    cut(&String::from(text))
}

#[test]
fn it_works() {
    let text = String::from("For years, people in the U.A.E.R. have accepted murky air, tainted waters and scarred landscapes as the unavoidable price of the country’s meteoric economic growth. But public dissent over environmental issues has been growing steadily in the communist nation, and now seems to be building the foundations of a fledgling green movement! In July alone, two separate demonstrations made international news when they turned violent after about 1.5 minutes... These recent successes come after a slew of ever-larger and more violent green protests over the past few years, as the environmentalist Dr. C. Jeung of China’s growth becomes harder to ignore.Some ask: “Are demonstrations are evidence of the public anger and frustration at opaque environmental management and decision-making?” Others yet say: \"Should we be scared about these 'protests'?\" The man made a quick calculation and found the result to be .625. (This is another sentence in parens.) This is the last sentence.");
    let result = vec![
        "For years, people in the U.A.E.R. have accepted murky air, tainted waters and scarred landscapes as the unavoidable price of the country’s meteoric economic growth.",
        "But public dissent over environmental issues has been growing steadily in the communist nation, and now seems to be building the foundations of a fledgling green movement!",
        "In July alone, two separate demonstrations made international news when they turned violent after about 1.5 minutes...",
        "These recent successes come after a slew of ever-larger and more violent green protests over the past few years, as the environmentalist Dr. C. Jeung of China’s growth becomes harder to ignore.",
        "Some ask: “Are demonstrations are evidence of the public anger and frustration at opaque environmental management and decision-making?”",
        "Others yet say: \"Should we be scared about these 'protests'?\"",
        "The man made a quick calculation and found the result to be .625.",
        "(This is another sentence in parens.)",
        "This is the last sentence.",
    ];
    assert_eq!(result, cut(&text));
}

#[test]
fn two_plain_sentences() {
    assert_eq!(sentences("Text one. Text two."), vec!["Text one.", "Text two."]);
}

#[test]
fn abbreviation_periods_do_not_split() {
    let out = sentences("The U.A.E.R. is large. It has grown.");
    assert_eq!(out, vec!["The U.A.E.R. is large.", "It has grown."]);
    assert!(out[0].contains("U.A.E.R."));
}

#[test]
fn abbreviation_alone_in_a_sentence() {
    assert_eq!(sentences("The U.A.E.R. is large."), vec!["The U.A.E.R. is large."]);
}

#[test]
fn decimal_without_leading_digit_is_kept() {
    assert_eq!(sentences("The result is .625. Done."), vec!["The result is .625.", "Done."]);
}

#[test]
fn decimal_number_is_kept() {
    assert_eq!(sentences("It took 1.5 minutes. Then it ended."), vec!["It took 1.5 minutes.", "Then it ended."]);
}

#[test]
fn ellipsis_is_kept() {
    assert_eq!(sentences("Wait... Really?"), vec!["Wait...", "Really?"]);
}

#[test]
fn terminator_inside_a_closing_quote() {
    assert_eq!(sentences("Others say: \"Should we?\""), vec!["Others say: \"Should we?\""]);
}

#[test]
fn terminator_inside_a_closing_curly_quote() {
    assert_eq!(sentences("Some ask: “Are they?” Yes."), vec!["Some ask: “Are they?”", "Yes."]);
}

#[test]
fn terminator_inside_single_then_double_quote() {
    assert_eq!(
        sentences("He said: \"Call it 'done'.\" We left."),
        vec!["He said: \"Call it 'done'.\"", "We left."]
    );
}

#[test]
fn terminator_before_single_then_double_quote() {
    assert_eq!(
        sentences("He said: \"Call it 'done.'\" We left."),
        vec!["He said: \"Call it 'done.'\"", "We left."]
    );
}

#[test]
fn terminator_before_a_single_quote() {
    assert_eq!(sentences("She wrote 'stop!' Then nothing."), vec!["She wrote 'stop!'", "Then nothing."]);
}

#[test]
fn terminator_inside_a_closing_parenthesis() {
    assert_eq!(sentences("(This is a note.) Next."), vec!["(This is a note.)", "Next."]);
}

#[test]
fn titles_and_initials_do_not_split() {
    assert_eq!(
        sentences("We met Dr. C. Jeung today. He was late."),
        vec!["We met Dr. C. Jeung today.", "He was late."]
    );
}

#[test]
fn stuck_sentences_are_parted() {
    assert_eq!(sentences("It is hard to ignore.Some ask why."), vec!["It is hard to ignore.", "Some ask why."]);
}

#[test]
fn empty_text_has_no_sentence() {
    assert_eq!(sentences(""), Vec::<String>::new());
}

#[test]
fn text_without_terminator_is_one_sentence() {
    assert_eq!(sentences("  no terminator here \n"), vec!["no terminator here"]);
}

#[test]
fn short_remnants_are_dropped() {
    assert_eq!(sentences("a"), Vec::<String>::new());
    assert_eq!(sentences("!?."), Vec::<String>::new());
    assert_eq!(sentences("Stop!! Go."), vec!["Stop!", "Go."]);
    assert_eq!(sentences("   "), Vec::<String>::new());
}

#[test]
fn length_counts_characters() {
    assert_eq!(sentences("é"), Vec::<String>::new());
    assert_eq!(sentences("éa"), vec!["éa"]);
}

#[test]
fn a_short_capitalised_word_reads_as_a_title() {
    assert_eq!(sentences("He said Yes. Then he left."), vec!["He said Yes. Then he left."]);
}

#[test]
fn trailing_remainder_is_a_sentence() {
    assert_eq!(sentences("First one. and the rest"), vec!["First one.", "and the rest"]);
}

#[test]
fn mixed_terminators_keep_their_order() {
    assert_eq!(sentences("Who? Me! Surely. Fine"), vec!["Who?", "Me!", "Surely.", "Fine"]);
}

#[test]
fn no_period_token_is_left_in_a_sentence() {
    let out = sentences("In the U.S.A. Dr. B. Who paid 3.5 and .25 for it... Smith et al. agree. &;& &&& &@& &#& &-& &_& &*& end.");
    assert!(!out.is_empty());
    for s in out.iter() {
        for token in ["&;&", "&&&", "&@&", "&#&", "&-&", "&_&", "&*&"] {
            assert!(!s.contains(token), "{:?} holds {:?}", s, token);
        }
    }
}

#[test]
fn joined_sentences_give_the_text_back() {
    let text = "The U.A.E.R. is large. It took 1.5 minutes... Dr. C. Jeung et al. said: \"Should we?\" (This is a note.)\" Done!";
    assert_eq!(sentences(text).join(" "), text);
}

#[test]
fn joined_sentences_differ_by_the_parting_space_only() {
    let out = sentences("First.Second. Third");
    assert_eq!(out, vec!["First.", "Second.", "Third"]);
    assert_eq!(out.join(" "), "First. Second. Third");
}

#[test]
fn a_long_text_is_cut_in_order() {
    let mut text = String::new();
    let mut expected: Vec<String> = Vec::new();
    let mut k = 0;
    while k < 400 {
        let sentence = format!("This is sentence number {} of the text, and it cost 3.5 units.", k);
        text.push_str(&sentence);
        text.push(' ');
        expected.push(sentence);
        k += 1;
    }
    assert_eq!(cut(&text), expected);
}

#[test]
fn a_period_token_in_the_text_reads_as_a_period() {
    assert_eq!(sentences("a &;& b"), vec!["a . b"]);
    assert_eq!(sentences("x &&& y"), vec!["x .. y"]);
}

#[test]
fn a_closer_token_in_the_text_reads_as_its_closer() {
    assert_eq!(sentences("a &==& b"), vec!["a ) b"]);
    assert_eq!(sentences("a &$& b"), vec!["a \" b"]);
}

#[test]
fn composite_abbreviation_does_not_split() {
    assert_eq!(sentences("Smith et al. agree"), vec!["Smith et al. agree"]);
    assert_eq!(sentences("Smith et al. agree on this. Others do not."), vec!["Smith et al. agree on this.", "Others do not."]);
}

#[test]
fn a_terminator_masked_twice_gets_both_closers_back() {
    assert_eq!(sentences("a.)\""), vec!["a.)\""]);
    assert_eq!(sentences("He said: \"(It is done.)\" Then he left."), vec!["He said: \"(It is done.)\"", "Then he left."]);
    assert_eq!(sentences("Is it 'so?)' Yes, it is."), vec!["Is it 'so?)'", "Yes, it is."]);
}

const TOKENS: [&str; 14] = ["&;&", "&&&", "&@&", "&#&", "&-&", "&_&", "&*&", "&==&", "&^&", "&**&", "&=&", "&,&", "&##&", "&$&"];

#[test]
fn no_token_is_left_in_a_sentence() {
    let texts = [
        "a.)\"",
        "He said: \"(It is 'done.')\" Then: 'It is?'” or “so!” (Fine.) End.",
        "&;& &&& &@& &#& &-& &_& &*& &==& &^& &**& &=& &,& &##& &$& all of them.",
        "&==&&$&&==& &=&=&. &&&&&&& &*&*&*&! &#&#&#&?",
        "&&==&& &&;&& &==&;& left.",
    ];
    for text in texts {
        let out = sentences(text);
        assert!(!out.is_empty());
        for s in out.iter() {
            for token in TOKENS {
                assert!(!s.contains(token), "{:?} holds {:?}", s, token);
            }
        }
    }
}

#[test]
fn every_sentence_is_trimmed_and_longer_than_one_character() {
    let texts = ["  One more.  \n Another one!   x ", "It ended (at last. ) \t", " . ! ? ", "a. b. c."];
    for text in texts {
        for s in sentences(text).iter() {
            assert_eq!(s.trim(), s.as_str());
            assert!(s.chars().count() > 1);
        }
    }
}

#[test]
fn a_text_whose_periods_are_all_masked_is_one_sentence() {
    let text = "Smith et al. paid 3.5 and .25 in the U.S.A. to Dr. C. Jeung";
    assert_eq!(sentences(text), vec![text]);
}

#[test]
fn joined_sentences_match_the_text_without_white_space() {
    let texts = ["a.)\"", "He said: \"(It is done. )\" Then he left.It was late", "Smith et al. agree!"];
    for text in texts {
        let joined: String = sentences(text).join(" ").chars().filter(|c| !c.is_whitespace()).collect();
        let given: String = text.chars().filter(|c| !c.is_whitespace()).collect();
        assert_eq!(joined, given);
    }
}

#[test]
fn white_space_before_a_bare_decimal_is_kept() {
    assert_eq!(sentences("x\t.5 y"), vec!["x\t.5 y"]);
    assert_eq!(sentences("x\n.5 y"), vec!["x\n.5 y"]);
    assert_eq!(sentences("x\u{a0}.5 y"), vec!["x\u{a0}.5 y"]);
    assert_eq!(sentences("It cost\t.25 then. Done now."), vec!["It cost\t.25 then.", "Done now."]);
}

#[test]
fn a_plain_text_is_told_and_is_one_sentence() {
    for text in ["  no terminator here \n", "", " x ", "two words", "—“quoted”, (bracketed) and 'more'"] {
        let owned = String::from(text);
        assert!(reads_plain(&owned), "{:?}", text);
        let trimmed = text.trim();
        let expected: Vec<String> = if trimmed.chars().count() > 1 { vec![String::from(trimmed)] } else { Vec::new() };
        assert_eq!(cut(&owned), expected);
    }
    for text in ["One. Two", "a & b", "why?", "a &;& b", "stop!"] {
        assert!(!reads_plain(&String::from(text)), "{:?}", text);
    }
}
