//! What a failed parse reports: where the input stopped matching and which
//! element of the grammar was looked for there.

use vstd::prelude::*;

verus! {

/// The fixed prefixes that open a line of the grammar.
#[derive(Clone, Copy, Debug, PartialEq, Eq, Structural)]
pub enum Keyword {
    Language,
    Comment,
    Tag,
    Feature,
    ScenarioOutline,
    Given,
    When,
    Then,
    And,
}

impl Keyword {
    /// The characters of the prefix.
    pub open spec fn text(self) -> Seq<char> {
        match self {
            Keyword::Language => "# language:"@,
            Keyword::Comment => "#"@,
            Keyword::Tag => "@"@,
            Keyword::Feature => "Feature:"@,
            Keyword::ScenarioOutline => "Scenario Outline:"@,
            Keyword::Given => "Given"@,
            Keyword::When => "When"@,
            Keyword::Then => "Then"@,
            Keyword::And => "And"@,
        }
    }

    /// The prefix as it is written in a feature file.
    pub fn literal(self) -> (lit: &'static str)
        ensures
            lit@ == self.text(),
    {
        match self {
            Keyword::Language => "# language:",
            Keyword::Comment => "#",
            Keyword::Tag => "@",
            Keyword::Feature => "Feature:",
            Keyword::ScenarioOutline => "Scenario Outline:",
            Keyword::Given => "Given",
            Keyword::When => "When",
            Keyword::Then => "Then",
            Keyword::And => "And",
        }
    }
}

/// The element of the grammar that was missing where a parse stopped.
#[derive(Clone, Copy, Debug, PartialEq, Eq, Structural)]
pub enum Expected {
    /// A line had to open with this keyword.
    Keyword(Keyword),
    /// A line had to be closed by a newline.
    LineEnd,
    /// A tag line had to carry a name.
    TagName,
}

/// The mathematical content of a [`ParseError`].
pub struct Failure {
    /// The input from the point of failure on.
    pub rest: Seq<char>,
    /// What should have stood at the head of `rest`.
    pub expected: Expected,
}

/// A structural mismatch between the grammar and the input.
#[derive(Clone, Copy, Debug, PartialEq, Eq)]
pub struct ParseError<'a> {
    /// The input from the point of failure on.
    pub input: &'a str,
    /// What should have stood at the head of `input`.
    pub expected: Expected,
}

impl<'a> View for ParseError<'a> {
    type V = Failure;

    open spec fn view(&self) -> Failure {
        Failure { rest: self.input@, expected: self.expected }
    }
}

/// What a parser hands back: the unconsumed input with what was captured, or
/// the reason why nothing was.
pub type Parsed<'a, T> = Result<(&'a str, T), ParseError<'a>>;

/// What the grammar assigns to an input: the unconsumed characters with what
/// is captured, or the failure.
pub type Outcome<V> = Result<(Seq<char>, V), Failure>;

/// The outcome of a parse that captured `found` and left `rest` unconsumed.
pub open spec fn accepted<V>(rest: Seq<char>, found: V) -> Outcome<V> {
    Ok((rest, found))
}

/// The failure of an outcome, where it is one.
pub open spec fn failure_of<V>(o: Outcome<V>) -> Option<Failure> {
    match o {
        Ok(_) => None,
        Err(f) => Some(f),
    }
}

/// The mathematical content of a parser's result.
pub open spec fn outcome<'a, T: DeepView>(r: Parsed<'a, T>) -> Outcome<T::V> {
    match r {
        Ok((rest, out)) => Ok((rest@, out.deep_view())),
        Err(e) => Err(e@),
    }
}

} // verus!
