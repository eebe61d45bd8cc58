use gherkin_outline::{
    and_parser, comment_parser, feature_parser, given_parser, language_parser, scenario_parser,
    tag_parser, then_and_parser, then_parser, when_parser, Expected, Keyword, ParseError,
};

#[test]
fn test_language_parser() {
    assert_eq!(
        language_parser("# language: en\n").unwrap(),
        ("", (Some(" en")))
    )
}

#[test]
fn test_comment_parser() {
    assert_eq!(
        comment_parser("# this is a comment\n").unwrap(),
        ("", Some(" this is a comment"))
    )
}

#[test]
fn test_tag_parser() {
    let mut test_vec = Vec::new();
    test_vec.push("foo");
    test_vec.push("bar");

    assert_eq!(
        tag_parser("@foo\n@bar\nFeature: This is my test feature\n").unwrap(),
        ("Feature: This is my test feature\n", Some(test_vec)),
    )
}

#[test]
fn test_feature_parser() {
    let mut test_vec = Vec::new();
    test_vec.push(" This is my test feature");
    assert_eq!(
        feature_parser("Feature: This is my test feature\n").unwrap(),
        ("", " This is my test feature")
    )
}

#[test]
fn test_scenario_parser() {
    assert_eq!(
        scenario_parser("Scenario Outline: This is my outline\n").unwrap(),
        ("", " This is my outline")
    )
}

#[test]
fn test_given_parser() {
    let mut test_vec = Vec::new();
    test_vec.push(" I have a task");
    assert_eq!(
        given_parser("Given I have a task\n").unwrap(),
        ("", test_vec)
    )
}

#[test]
fn test_when_parser() {
    let mut test_vec = Vec::new();
    test_vec.push(" I click a button");
    assert_eq!(
        when_parser("When I click a button\n").unwrap(),
        ("", test_vec)
    )
}

#[test]
fn test_then_parser() {
    let mut test_vec = Vec::new();
    test_vec.push(" i do some stuff");
    assert_eq!(
        then_parser("Then i do some stuff\n").unwrap(),
        ("", test_vec)
    )
}

#[test]
fn test_and_parser() {
    let mut test_vec = Vec::new();
    test_vec.push(" i do more stuff");
    assert_eq!(
        and_parser("And i do more stuff\n").unwrap(),
        ("", test_vec)
    )
}

#[test]
fn language_parser_may_find_nothing() {
    assert_eq!(
        language_parser("Feature: x\n").unwrap(),
        ("Feature: x\n", None)
    );
    assert_eq!(language_parser("# language: en").unwrap(), ("# language: en", None));
}

#[test]
fn comment_parser_may_find_nothing() {
    assert_eq!(comment_parser("@tag\n").unwrap(), ("@tag\n", None));
    assert_eq!(comment_parser("").unwrap(), ("", None));
}

#[test]
fn comment_parser_takes_a_language_line_as_a_comment() {
    assert_eq!(
        comment_parser("# language: en\nnext").unwrap(),
        ("next", Some(" language: en"))
    );
}

#[test]
fn tag_parser_may_find_nothing() {
    assert_eq!(
        tag_parser("Feature: untagged\n").unwrap(),
        ("Feature: untagged\n", None)
    );
}

#[test]
fn tag_parser_keeps_payloads_as_they_stand() {
    assert_eq!(
        tag_parser("@ spaced \n@\nrest").unwrap(),
        ("rest", Some(vec![" spaced ", ""]))
    );
}

#[test]
fn feature_parser_reports_what_it_missed() {
    assert_eq!(
        feature_parser("Scenario Outline: x\n"),
        Err(ParseError {
            input: "Scenario Outline: x\n",
            expected: Expected::Keyword(Keyword::Feature),
        })
    );
    assert_eq!(
        feature_parser("Feature: x"),
        Err(ParseError { input: " x", expected: Expected::LineEnd })
    );
}

#[test]
fn scenario_parser_reports_what_it_missed() {
    assert_eq!(
        scenario_parser("Scenario: x\n"),
        Err(ParseError {
            input: "Scenario: x\n",
            expected: Expected::Keyword(Keyword::ScenarioOutline),
        })
    );
}

#[test]
fn step_parsers_take_one_line() {
    assert_eq!(
        given_parser("Given a\nGiven b\nWhen c\n").unwrap(),
        ("Given b\nWhen c\n", vec![" a"])
    );
    assert_eq!(
        when_parser("When a\nWhen b\nThen c\n").unwrap(),
        ("When b\nThen c\n", vec![" a"])
    );
    assert_eq!(
        then_parser("Then a\nThen b\n").unwrap(),
        ("Then b\n", vec![" a"])
    );
    assert_eq!(
        and_parser("And a\nAnd b\nThen c\n").unwrap(),
        ("And b\nThen c\n", vec![" a"])
    );
}

#[test]
fn step_parsers_report_what_they_missed() {
    assert_eq!(
        given_parser("When a\n"),
        Err(ParseError { input: "When a\n", expected: Expected::Keyword(Keyword::Given) })
    );
    assert_eq!(
        when_parser("When a"),
        Err(ParseError { input: " a", expected: Expected::LineEnd })
    );
    assert_eq!(
        then_parser("And a\n"),
        Err(ParseError { input: "And a\n", expected: Expected::Keyword(Keyword::Then) })
    );
    assert_eq!(
        and_parser(""),
        Err(ParseError { input: "", expected: Expected::Keyword(Keyword::And) })
    );
}

#[test]
fn then_and_parser_tries_then_first() {
    assert_eq!(
        then_and_parser("Then a\nThen b\nAnd c\n").unwrap(),
        ("Then b\nAnd c\n", vec![" a"])
    );
}

#[test]
fn then_and_parser_takes_and_where_then_is_absent() {
    assert_eq!(
        then_and_parser("And a\nAnd b\nThen c\n").unwrap(),
        ("And b\nThen c\n", vec![" a"])
    );
}

#[test]
fn then_and_parser_failures() {
    assert_eq!(
        then_and_parser("Given a\n"),
        Err(ParseError { input: "Given a\n", expected: Expected::Keyword(Keyword::And) })
    );
    assert_eq!(
        then_and_parser("Then a"),
        Err(ParseError { input: " a", expected: Expected::LineEnd })
    );
    assert_eq!(
        then_and_parser("And a"),
        Err(ParseError { input: " a", expected: Expected::LineEnd })
    );
}
