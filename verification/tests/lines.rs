use gherkin_outline::{
    one_or_more, prefixed_line, until_n, ws, Expected, Keyword, ParseError,
};

#[test]
fn ws_takes_one_newline() {
    assert_eq!(ws("\n\nrest"), Ok(("\nrest", "\n")));
}

#[test]
fn ws_rejects_other_characters() {
    assert_eq!(
        ws(" \n"),
        Err(ParseError { input: " \n", expected: Expected::LineEnd })
    );
    assert_eq!(ws(""), Err(ParseError { input: "", expected: Expected::LineEnd }));
}

#[test]
fn until_n_stops_in_front_of_the_first_newline() {
    assert_eq!(until_n("one\ntwo\n"), Ok(("\ntwo\n", "one")));
    assert_eq!(until_n("\nrest"), Ok(("\nrest", "")));
}

#[test]
fn until_n_needs_a_newline() {
    assert_eq!(
        until_n("no end"),
        Err(ParseError { input: "no end", expected: Expected::LineEnd })
    );
}

#[test]
fn until_n_counts_characters_not_bytes() {
    assert_eq!(until_n("héllo wörld\nü"), Ok(("\nü", "héllo wörld")));
}

#[test]
fn keyword_literals() {
    assert_eq!(Keyword::Language.literal(), "# language:");
    assert_eq!(Keyword::Comment.literal(), "#");
    assert_eq!(Keyword::Tag.literal(), "@");
    assert_eq!(Keyword::Feature.literal(), "Feature:");
    assert_eq!(Keyword::ScenarioOutline.literal(), "Scenario Outline:");
    assert_eq!(Keyword::Given.literal(), "Given");
    assert_eq!(Keyword::When.literal(), "When");
    assert_eq!(Keyword::Then.literal(), "Then");
    assert_eq!(Keyword::And.literal(), "And");
}

#[test]
fn prefixed_line_keeps_the_payload_untrimmed() {
    assert_eq!(
        prefixed_line(Keyword::Given, "Given  I wait \nWhen"),
        Ok(("When", "  I wait "))
    );
}

#[test]
fn prefixed_line_accepts_an_empty_payload() {
    assert_eq!(prefixed_line(Keyword::When, "When\n"), Ok(("", "")));
}

#[test]
fn prefixed_line_without_its_keyword_consumes_nothing() {
    assert_eq!(
        prefixed_line(Keyword::Given, " Given indented\n"),
        Err(ParseError {
            input: " Given indented\n",
            expected: Expected::Keyword(Keyword::Given),
        })
    );
    assert_eq!(
        prefixed_line(Keyword::Feature, ""),
        Err(ParseError { input: "", expected: Expected::Keyword(Keyword::Feature) })
    );
}

#[test]
fn prefixed_line_is_case_sensitive() {
    assert_eq!(
        prefixed_line(Keyword::Given, "given x\n"),
        Err(ParseError { input: "given x\n", expected: Expected::Keyword(Keyword::Given) })
    );
}

#[test]
fn prefixed_line_without_newline_fails_behind_the_keyword() {
    assert_eq!(
        prefixed_line(Keyword::Then, "Then nothing ends"),
        Err(ParseError { input: " nothing ends", expected: Expected::LineEnd })
    );
}

#[test]
fn one_or_more_collects_the_whole_run() {
    assert_eq!(
        one_or_more(Keyword::Given, "Given a\nGiven b\nGiven c\nWhen d\n"),
        Ok(("When d\n", vec![" a", " b", " c"]))
    );
}

#[test]
fn one_or_more_stops_at_an_unterminated_line() {
    assert_eq!(
        one_or_more(Keyword::And, "And a\nAnd b"),
        Ok(("And b", vec![" a"]))
    );
}

#[test]
fn one_or_more_needs_one_line() {
    assert_eq!(
        one_or_more(Keyword::When, "Then a\n"),
        Err(ParseError { input: "Then a\n", expected: Expected::Keyword(Keyword::When) })
    );
    assert_eq!(
        one_or_more(Keyword::When, "When a"),
        Err(ParseError { input: " a", expected: Expected::LineEnd })
    );
}
