use gherkin_outline::{
    closing_step_parser, header_parser, outline_parser, Expected, Keyword, ParseError,
};

const TAGGED: &str = "@smoke\n@wip\nFeature: Fake Test Stuff\nScenario Outline: This is a fake scenario\nGiven I have a login\nWhen I type in a password and click login\nThen the page redirects\n";

fn block(lines: &[&str]) -> String {
    let mut text = String::new();
    for l in lines {
        text.push_str(l);
        text.push('\n');
    }
    text
}

const STAGES: [&str; 5] = [
    "Feature: Ordering",
    "Scenario Outline: Stages keep their places",
    "Given a first line",
    "When a second line",
    "Then a third line",
];

#[test]
fn parses_the_tagged_block() {
    let (rest, outline) = outline_parser(TAGGED).unwrap();
    assert_eq!(rest, "");
    assert_eq!(outline.tags(), &vec!["smoke".to_string(), "wip".to_string()]);
    assert_eq!(outline.feature(), "Fake Test Stuff");
    assert_eq!(outline.scenario(), "This is a fake scenario");
    assert_eq!(outline.given(), "I have a login");
    assert_eq!(outline.when(), "I type in a password and click login");
    assert_eq!(outline.then_step(), "the page redirects");
}

#[test]
fn parses_a_block_without_tags() {
    let input = block(&STAGES);
    let (rest, outline) = outline_parser(&input).unwrap();
    assert_eq!(rest, "");
    assert!(outline.tags().is_empty());
    assert_eq!(outline.feature(), "Ordering");
    assert_eq!(outline.scenario(), "Stages keep their places");
    assert_eq!(outline.given(), "a first line");
    assert_eq!(outline.when(), "a second line");
    assert_eq!(outline.then_step(), "a third line");
}

#[test]
fn trims_every_payload() {
    let input = "@  slow\t\n@fast  \nFeature:\t Spaces  \nScenario Outline:   wide   \nGiven   a  b \nWhen\tc\t\nAnd  d  e  \n";
    let (rest, outline) = outline_parser(input).unwrap();
    assert_eq!(rest, "");
    assert_eq!(outline.tags(), &vec!["slow".to_string(), "fast".to_string()]);
    assert_eq!(outline.feature(), "Spaces");
    assert_eq!(outline.scenario(), "wide");
    assert_eq!(outline.given(), "a  b");
    assert_eq!(outline.when(), "c");
    assert_eq!(outline.then_step(), "d  e");
}

#[test]
fn trims_unicode_white_space() {
    let input = "Feature:\u{a0}\u{2003}Ünïcode\u{3000}\nScenario Outline: s\nGiven g\nWhen w\nThen t\u{2028}\n";
    let (_, outline) = outline_parser(input).unwrap();
    assert_eq!(outline.feature(), "Ünïcode");
    assert_eq!(outline.then_step(), "t");
}

#[test]
fn a_payload_of_white_space_is_stored_empty() {
    let input = "Feature:   \nScenario Outline:\t\nGiven \nWhen  \nThen \u{a0}\n";
    let (rest, outline) = outline_parser(input).unwrap();
    assert_eq!(rest, "");
    assert_eq!(outline.feature(), "");
    assert_eq!(outline.scenario(), "");
    assert_eq!(outline.given(), "");
    assert_eq!(outline.when(), "");
    assert_eq!(outline.then_step(), "");
}

#[test]
fn accepts_empty_payloads() {
    let input = "Feature:\nScenario Outline:\nGiven\nWhen\nThen\n";
    let (rest, outline) = outline_parser(input).unwrap();
    assert_eq!(rest, "");
    assert_eq!(outline.feature(), "");
    assert_eq!(outline.scenario(), "");
    assert_eq!(outline.given(), "");
    assert_eq!(outline.when(), "");
    assert_eq!(outline.then_step(), "");
}

#[test]
fn then_and_and_fill_the_same_field() {
    let with_then = block(&[STAGES[0], STAGES[1], STAGES[2], STAGES[3], "Then the end"]);
    let with_and = block(&[STAGES[0], STAGES[1], STAGES[2], STAGES[3], "And the end"]);
    let (rest_then, from_then) = outline_parser(&with_then).unwrap();
    let (rest_and, from_and) = outline_parser(&with_and).unwrap();
    assert_eq!(from_then.then_step(), "the end");
    assert_eq!(from_and.then_step(), "the end");
    assert_eq!(from_then, from_and);
    assert_eq!(rest_then, rest_and);
}

#[test]
fn hands_back_what_follows_the_block() {
    let mut lines = STAGES.to_vec();
    lines.push("Then one more");
    lines.push("Scenario Outline: next");
    let input = block(&lines);
    let (rest, outline) = outline_parser(&input).unwrap();
    assert_eq!(rest, "Then one more\nScenario Outline: next\n");
    assert_eq!(outline.then_step(), "a third line");
}

#[test]
fn takes_one_step_of_each_kind() {
    let input = block(&[STAGES[0], STAGES[1], "Given a", "Given b", STAGES[3], STAGES[4]]);
    assert_eq!(
        outline_parser(&input),
        Err(ParseError {
            input: "Given b\nWhen a second line\nThen a third line\n",
            expected: Expected::Keyword(Keyword::When),
        })
    );
}

#[test]
fn any_two_stages_exchanged_fail() {
    for i in 0..5 {
        for j in (i + 1)..5 {
            let mut lines = STAGES.to_vec();
            lines.swap(i, j);
            let input = block(&lines);
            assert!(outline_parser(&input).is_err(), "stages {} and {}", i, j);
            let tagged = format!("@t\n{}", input);
            assert!(outline_parser(&tagged).is_err(), "tagged, stages {} and {}", i, j);
        }
    }
}

#[test]
fn when_before_given_names_the_missing_given() {
    let input = block(&[STAGES[0], STAGES[1], STAGES[3], STAGES[2], STAGES[4]]);
    assert_eq!(
        outline_parser(&input),
        Err(ParseError {
            input: "When a second line\nGiven a first line\nThen a third line\n",
            expected: Expected::Keyword(Keyword::Given),
        })
    );
}

#[test]
fn a_missing_final_newline_fails() {
    let input = block(&STAGES);
    let cut = &input[..input.len() - 1];
    assert_eq!(
        outline_parser(cut),
        Err(ParseError { input: " a third line", expected: Expected::LineEnd })
    );
    let with_and = "Feature: f\nScenario Outline: s\nGiven g\nWhen w\nAnd t";
    assert_eq!(
        outline_parser(with_and),
        Err(ParseError { input: " t", expected: Expected::LineEnd })
    );
}

#[test]
fn parsing_again_gives_the_same() {
    let first = outline_parser(TAGGED);
    let second = outline_parser(TAGGED);
    let copy = TAGGED.to_string();
    let third = outline_parser(&copy);
    assert_eq!(first, second);
    assert_eq!(second, third);
    let broken = "Feature: f\nGiven g\n";
    assert_eq!(outline_parser(broken), outline_parser(broken));
    assert!(outline_parser(broken).is_err());
}

#[test]
fn rejects_an_empty_tag() {
    let input = "@\nFeature: F\nScenario Outline: S\nGiven g\nWhen w\nThen t\n";
    assert_eq!(
        outline_parser(input),
        Err(ParseError { input, expected: Expected::TagName })
    );
}

#[test]
fn rejects_a_blank_tag() {
    let input = "@ok\n@  \nFeature: F\nScenario Outline: S\nGiven g\nWhen w\nThen t\n";
    assert_eq!(
        outline_parser(input),
        Err(ParseError {
            input: "@  \nFeature: F\nScenario Outline: S\nGiven g\nWhen w\nThen t\n",
            expected: Expected::TagName,
        })
    );
}

#[test]
fn a_blank_tag_is_reported_before_a_missing_feature() {
    assert_eq!(
        outline_parser("@a\n@\nGiven g\n"),
        Err(ParseError { input: "@\nGiven g\n", expected: Expected::TagName })
    );
}

#[test]
fn needs_the_feature_line() {
    assert_eq!(
        outline_parser("@a\nScenario Outline: S\n"),
        Err(ParseError {
            input: "Scenario Outline: S\n",
            expected: Expected::Keyword(Keyword::Feature),
        })
    );
    assert_eq!(
        outline_parser(""),
        Err(ParseError { input: "", expected: Expected::Keyword(Keyword::Feature) })
    );
}

#[test]
fn needs_the_scenario_outline_line() {
    assert_eq!(
        outline_parser("Feature: F\nScenario: S\nGiven g\nWhen w\nThen t\n"),
        Err(ParseError {
            input: "Scenario: S\nGiven g\nWhen w\nThen t\n",
            expected: Expected::Keyword(Keyword::ScenarioOutline),
        })
    );
}

#[test]
fn needs_the_when_line() {
    assert_eq!(
        outline_parser("Feature: F\nScenario Outline: S\nGiven g\nThen t\n"),
        Err(ParseError { input: "Then t\n", expected: Expected::Keyword(Keyword::When) })
    );
}

#[test]
fn needs_a_closing_step() {
    assert_eq!(
        outline_parser("Feature: F\nScenario Outline: S\nGiven g\nWhen w\nBut t\n"),
        Err(ParseError { input: "But t\n", expected: Expected::Keyword(Keyword::And) })
    );
    assert_eq!(
        outline_parser("Feature: F\nScenario Outline: S\nGiven g\nWhen w\n"),
        Err(ParseError { input: "", expected: Expected::Keyword(Keyword::And) })
    );
}

#[test]
fn an_indented_step_is_not_recognized() {
    assert_eq!(
        outline_parser("Feature: F\nScenario Outline: S\n  Given g\nWhen w\nThen t\n"),
        Err(ParseError {
            input: "  Given g\nWhen w\nThen t\n",
            expected: Expected::Keyword(Keyword::Given),
        })
    );
}

#[test]
fn a_tag_line_without_newline_ends_the_tags() {
    assert_eq!(
        outline_parser("@a\n@b"),
        Err(ParseError { input: "@b", expected: Expected::Keyword(Keyword::Feature) })
    );
}

#[test]
fn header_parser_trims_tags_and_keeps_the_title() {
    assert_eq!(
        header_parser("@ a \n@b\nFeature:  Title \nScenario Outline: s\n"),
        Ok(("Scenario Outline: s\n", (vec!["a", "b"], "  Title ")))
    );
}

#[test]
fn header_parser_without_tags() {
    assert_eq!(
        header_parser("Feature: Title\n"),
        Ok(("", (Vec::new(), " Title")))
    );
}

#[test]
fn header_parser_failures() {
    assert_eq!(
        header_parser("@a\n@\t\nFeature: x\n"),
        Err(ParseError { input: "@\t\nFeature: x\n", expected: Expected::TagName })
    );
    assert_eq!(
        header_parser("@a\nfeature: x\n"),
        Err(ParseError { input: "feature: x\n", expected: Expected::Keyword(Keyword::Feature) })
    );
    assert_eq!(
        header_parser("@a\nFeature: x"),
        Err(ParseError { input: " x", expected: Expected::LineEnd })
    );
}

#[test]
fn closing_step_parser_takes_then_or_and() {
    assert_eq!(closing_step_parser("Then a\nrest"), Ok(("rest", " a")));
    assert_eq!(closing_step_parser("And a\nrest"), Ok(("rest", " a")));
}

#[test]
fn closing_step_parser_takes_a_single_line() {
    assert_eq!(closing_step_parser("Then a\nThen b\n"), Ok(("Then b\n", " a")));
}

#[test]
fn closing_step_parser_failures() {
    assert_eq!(
        closing_step_parser("Then a"),
        Err(ParseError { input: " a", expected: Expected::LineEnd })
    );
    assert_eq!(
        closing_step_parser("And a"),
        Err(ParseError { input: " a", expected: Expected::LineEnd })
    );
    assert_eq!(
        closing_step_parser("When a\n"),
        Err(ParseError { input: "When a\n", expected: Expected::Keyword(Keyword::And) })
    );
}
