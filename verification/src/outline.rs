//! The scenario outline and the grammar that builds it: tag lines, the feature
//! header, the scenario-outline header and the three steps, in that order.

use crate::diagnosis::{outcome, Expected, Failure, Keyword, Outcome, ParseError, Parsed};
use crate::lines::{lemma_line_consumes, line_of, prefixed_line};
use crate::parse::{closing_step_of, closing_step_parser, scenario_parser};
use crate::text::{is_trimmed, lemma_trimmed_twice, trim, trimmed};
use vstd::prelude::*;

verus! {

/// What a scenario outline holds, as sequences of characters.
pub struct OutlineView {
    pub scenario: Seq<char>,
    pub tags: Seq<Seq<char>>,
    pub feature: Seq<char>,
    pub given: Seq<char>,
    pub when: Seq<char>,
    pub then_step: Seq<char>,
}

/// Every name in `names` is trimmed and not empty.
pub open spec fn well_named(names: Seq<Seq<char>>) -> bool {
    forall|k: int|
        0 <= k < names.len() ==> (#[trigger] names[k]).len() > 0 && is_trimmed(names[k])
}

impl OutlineView {
    /// What holds of every outline: each text is stored without white space
    /// around it, and no tag is empty.
    pub open spec fn well_formed(self) -> bool {
        &&& is_trimmed(self.scenario)
        &&& well_named(self.tags)
        &&& is_trimmed(self.feature)
        &&& is_trimmed(self.given)
        &&& is_trimmed(self.when)
        &&& is_trimmed(self.then_step)
    }
}

/// One scenario outline of a feature: its tags, the title of the feature it
/// belongs to, its own title and its three steps. Every text is stored without
/// the white space that surrounded it in the source, and no tag is empty.
#[derive(Debug, PartialEq, Eq)]
pub struct ScenarioOutline {
    scenario: String,
    tags: Vec<String>,
    feature: String,
    given: String,
    when: String,
    then_step: String,
}

impl View for ScenarioOutline {
    type V = OutlineView;

    closed spec fn view(&self) -> OutlineView {
        OutlineView {
            scenario: self.scenario@,
            tags: self.tags.deep_view(),
            feature: self.feature@,
            given: self.given@,
            when: self.when@,
            then_step: self.then_step@,
        }
    }
}

impl DeepView for ScenarioOutline {
    type V = OutlineView;

    open spec fn deep_view(&self) -> OutlineView {
        self.view()
    }
}

impl ScenarioOutline {
    #[verifier::type_invariant]
    spec fn valid(&self) -> bool {
        self@.well_formed()
    }

    /// The title of the scenario outline.
    pub fn scenario(&self) -> (r: &str)
        ensures
            r@ == self@.scenario,
            self@.well_formed(),
    {
        proof {
            use_type_invariant(self);
        }
        self.scenario.as_str()
    }

    /// The tag names, in the order of the source, without the `@`.
    pub fn tags(&self) -> (r: &Vec<String>)
        ensures
            r.deep_view() == self@.tags,
            self@.well_formed(),
    {
        proof {
            use_type_invariant(self);
        }
        &self.tags
    }

    /// The title of the feature.
    pub fn feature(&self) -> (r: &str)
        ensures
            r@ == self@.feature,
            self@.well_formed(),
    {
        proof {
            use_type_invariant(self);
        }
        self.feature.as_str()
    }

    /// The text of the `Given` step.
    pub fn given(&self) -> (r: &str)
        ensures
            r@ == self@.given,
            self@.well_formed(),
    {
        proof {
            use_type_invariant(self);
        }
        self.given.as_str()
    }

    /// The text of the `When` step.
    pub fn when(&self) -> (r: &str)
        ensures
            r@ == self@.when,
            self@.well_formed(),
    {
        proof {
            use_type_invariant(self);
        }
        self.when.as_str()
    }

    /// The text of the closing step, whether `Then` or `And` opened it.
    pub fn then_step(&self) -> (r: &str)
        ensures
            r@ == self@.then_step,
            self@.well_formed(),
    {
        proof {
            use_type_invariant(self);
        }
        self.then_step.as_str()
    }
}

/// The tag lines at the head of `s`, as many as there are: what follows them,
/// and their names, each without the white space around it. A tag line whose
/// name is empty is a failure at that line.
pub open spec fn tags_of(s: Seq<char>) -> Outcome<Seq<Seq<char>>>
    decreases s.len(),
    via tags_of_terminates
{
    match line_of(Keyword::Tag, s) {
        Err(_) => Ok((s, Seq::empty())),
        Ok((rest, payload)) => if trimmed(payload).len() == 0 {
            Err(Failure { rest: s, expected: Expected::TagName })
        } else {
            named(trimmed(payload), tags_of(rest))
        },
    }
}

#[via_fn]
proof fn tags_of_terminates(s: Seq<char>) {
    lemma_line_consumes(Keyword::Tag, s);
}

/// `o` with `name` in front of the names it captured.
pub open spec fn named(name: Seq<char>, o: Outcome<Seq<Seq<char>>>) -> Outcome<Seq<Seq<char>>> {
    match o {
        Ok((rest, names)) => Ok((rest, seq![name] + names)),
        Err(e) => Err(e),
    }
}

/// The header of a feature: zero or more tag lines, then the `Feature:` line.
/// Captured are the tag names and the payload of the feature line.
pub open spec fn header_of(s: Seq<char>) -> Outcome<(Seq<Seq<char>>, Seq<char>)> {
    match tags_of(s) {
        Err(e) => Err(e),
        Ok((rest, names)) => match line_of(Keyword::Feature, rest) {
            Err(e) => Err(e),
            Ok((tail, title)) => Ok((tail, (names, title))),
        },
    }
}

/// The header of `s` with `names` in front of the tag names it captures.
pub open spec fn header_behind(names: Seq<Seq<char>>, s: Seq<char>) -> Outcome<
    (Seq<Seq<char>>, Seq<char>),
> {
    match header_of(s) {
        Ok((tail, (more, title))) => Ok((tail, (names + more, title))),
        Err(e) => Err(e),
    }
}

/// The whole grammar: header, scenario-outline line, `Given` line, `When`
/// line and closing step, each beginning where the one before it ended. The
/// outline holds every payload without the white space around it.
pub open spec fn outline_of(s: Seq<char>) -> Outcome<OutlineView> {
    match header_of(s) {
        Err(e) => Err(e),
        Ok((s1, (tags, feature))) => match line_of(Keyword::ScenarioOutline, s1) {
            Err(e) => Err(e),
            Ok((s2, scenario)) => match line_of(Keyword::Given, s2) {
                Err(e) => Err(e),
                Ok((s3, given)) => match line_of(Keyword::When, s3) {
                    Err(e) => Err(e),
                    Ok((s4, when)) => match closing_step_of(s4) {
                        Err(e) => Err(e),
                        Ok((s5, closing)) => Ok(
                            (
                                s5,
                                OutlineView {
                                    scenario: trimmed(scenario),
                                    tags,
                                    feature: trimmed(feature),
                                    given: trimmed(given),
                                    when: trimmed(when),
                                    then_step: trimmed(closing),
                                },
                            ),
                        ),
                    },
                },
            },
        },
    }
}

/// The names that `tags_of` captures are trimmed and never empty.
pub proof fn lemma_tags_of_named(s: Seq<char>)
    ensures
        tags_of(s) matches Ok((_, names)) ==> well_named(names),
    decreases s.len(),
{
    if let Ok((rest, payload)) = line_of(Keyword::Tag, s) {
        lemma_line_consumes(Keyword::Tag, s);
        lemma_tags_of_named(rest);
        lemma_trimmed_twice(payload);
    }
}

/// The outline that the grammar yields is well formed.
pub proof fn lemma_outline_well_formed(s: Seq<char>)
    ensures
        outline_of(s) matches Ok((_, found)) ==> found.well_formed(),
{
    lemma_tags_of_named(s);
    if let Ok((s1, (tags, feature))) = header_of(s) {
        lemma_trimmed_twice(feature);
        if let Ok((s2, scenario)) = line_of(Keyword::ScenarioOutline, s1) {
            lemma_trimmed_twice(scenario);
            if let Ok((s3, given)) = line_of(Keyword::Given, s2) {
                lemma_trimmed_twice(given);
                if let Ok((s4, when)) = line_of(Keyword::When, s3) {
                    lemma_trimmed_twice(when);
                    if let Ok((s5, closing)) = closing_step_of(s4) {
                        lemma_trimmed_twice(closing);
                    }
                }
            }
        }
    }
}

/// Recognizes the header of a feature: zero or more `@` lines and the
/// `Feature:` line. Tag names come back trimmed, the feature's payload as it
/// stands.
pub fn header_parser<'a>(i: &'a str) -> (r: Parsed<'a, (Vec<&'a str>, &'a str)>)
    ensures
        outcome(r) == header_of(i@),
{
    let mut cur = i;
    let mut names: Vec<&'a str> = Vec::new();
    assert(header_behind(names.deep_view(), cur@) == header_of(i@)) by {
        if let Ok((tail, (more, title))) = header_of(i@) {
            assert(names.deep_view() + more =~= more);
        }
    }
    loop
        invariant
            header_of(i@) == header_behind(names.deep_view(), cur@),
        decreases cur@.len(),
    {
        match prefixed_line(Keyword::Tag, cur) {
            Err(_) => {
                assert(names.deep_view() + Seq::<Seq<char>>::empty() =~= names.deep_view());
                return match prefixed_line(Keyword::Feature, cur) {
                    Err(e) => Err(e),
                    Ok((tail, title)) => Ok((tail, (names, title))),
                };
            },
            Ok((rest, payload)) => {
                let name = trim(payload);
                if name.is_empty() {
                    return Err(ParseError { input: cur, expected: Expected::TagName });
                }
                proof {
                    lemma_line_consumes(Keyword::Tag, cur@);
                }
                let ghost before = names.deep_view();
                names.push(name);
                proof {
                    assert(names.deep_view() =~= before.push(name@));
                    if let Ok((tail, more)) = tags_of(rest@) {
                        assert(before + (seq![name@] + more) =~= before.push(name@) + more);
                    }
                }
                cur = rest;
            },
        }
    }
}

/// Copies the names into strings of their own.
fn owned_names(names: &Vec<&str>) -> (r: Vec<String>)
    ensures
        r.deep_view() == names.deep_view(),
{
    let mut out: Vec<String> = Vec::new();
    let mut n: usize = 0;
    while n < names.len()
        invariant
            n <= names.len(),
            out.len() == n,
            forall|k: int| 0 <= k < n ==> out[k]@ == names[k]@,
        decreases names.len() - n,
    {
        out.push(names[n].to_owned());
        n = n + 1;
    }
    assert(out.deep_view() =~= names.deep_view());
    out
}

/// Parses one scenario outline from the head of `i` and hands back what
/// follows it. The stages run in their fixed order; the first one that fails
/// ends the parse with its failure, and nothing is built.
pub fn outline_parser<'a>(i: &'a str) -> (r: Parsed<'a, ScenarioOutline>)
    ensures
        outcome(r) == outline_of(i@),
{
    let (i1, (names, feature)) = match header_parser(i) {
        Ok(found) => found,
        Err(e) => {
            return Err(e);
        },
    };
    let (i2, scenario) = match scenario_parser(i1) {
        Ok(found) => found,
        Err(e) => {
            return Err(e);
        },
    };
    let (i3, given) = match prefixed_line(Keyword::Given, i2) {
        Ok(found) => found,
        Err(e) => {
            return Err(e);
        },
    };
    let (i4, when) = match prefixed_line(Keyword::When, i3) {
        Ok(found) => found,
        Err(e) => {
            return Err(e);
        },
    };
    let (i5, closing) = match closing_step_parser(i4) {
        Ok(found) => found,
        Err(e) => {
            return Err(e);
        },
    };
    proof {
        lemma_outline_well_formed(i@);
    }
    let outline = ScenarioOutline {
        scenario: trim(scenario).to_owned(),
        tags: owned_names(&names),
        feature: trim(feature).to_owned(),
        given: trim(given).to_owned(),
        when: trim(when).to_owned(),
        then_step: trim(closing).to_owned(),
    };
    Ok((i5, outline))
}

} // verus!
