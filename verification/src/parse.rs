//! The recognizers of the grammar's lines: optional lines, the run of tag
//! lines, the two header lines and the steps, each of which is one line.

use crate::diagnosis::{outcome, Expected, Keyword, Outcome, Parsed};
use crate::lines::{lemma_line_consumes, line_of, prefixed_line};
use vstd::prelude::*;

verus! {

/// A parse that may be absent: where `o` failed, nothing of `s` is consumed
/// and nothing is captured.
pub open spec fn optional<V>(o: Outcome<V>, s: Seq<char>) -> Outcome<Option<V>> {
    match o {
        Ok((rest, v)) => Ok((rest, Some(v))),
        Err(_) => Ok((s, None)),
    }
}

/// A parse whose capture stands alone in a sequence.
pub open spec fn alone<V>(o: Outcome<V>) -> Outcome<Seq<V>> {
    match o {
        Ok((rest, v)) => Ok((rest, seq![v])),
        Err(e) => Err(e),
    }
}

/// Exactly one line opened by `k`: its payload is the only capture, and a
/// second such line behind it stays in the input.
pub open spec fn one_line_of(k: Keyword, s: Seq<char>) -> Outcome<Seq<Seq<char>>> {
    alone(line_of(k, s))
}

/// The closing step: a `Then` line where the input opens with that keyword,
/// an `And` line where it does not.
pub open spec fn closing_step_of(s: Seq<char>) -> Outcome<Seq<char>> {
    if Keyword::Then.text().is_prefix_of(s) {
        line_of(Keyword::Then, s)
    } else {
        line_of(Keyword::And, s)
    }
}

/// The run of consecutive lines opened by `k` at the head of `s`, as long as
/// it goes: what follows the run, and the payloads in order.
pub open spec fn lines_of(k: Keyword, s: Seq<char>) -> (Seq<char>, Seq<Seq<char>>)
    decreases s.len(),
    via lines_of_terminates
{
    match line_of(k, s) {
        Ok((rest, payload)) => (lines_of(k, rest).0, seq![payload] + lines_of(k, rest).1),
        Err(_) => (s, Seq::empty()),
    }
}

#[via_fn]
proof fn lines_of_terminates(k: Keyword, s: Seq<char>) {
    lemma_line_consumes(k, s);
}

/// A run of at least one line opened by `k`.
pub open spec fn some_lines_of(k: Keyword, s: Seq<char>) -> Outcome<Seq<Seq<char>>> {
    match line_of(k, s) {
        Ok(_) => Ok(lines_of(k, s)),
        Err(e) => Err(e),
    }
}

/// Recognizes one or more consecutive lines opened by `k` and captures their
/// payloads in order. Fails as the first line does.
pub fn one_or_more<'a>(k: Keyword, i: &'a str) -> (r: Parsed<'a, Vec<&'a str>>)
    ensures
        outcome(r) == some_lines_of(k, i@),
{
    let (after, first) = match prefixed_line(k, i) {
        Ok(found) => found,
        Err(e) => {
            return Err(e);
        },
    };
    let mut cur = after;
    let mut acc: Vec<&'a str> = Vec::new();
    acc.push(first);
    assert(acc.deep_view() =~= seq![first@]);
    loop
        invariant
            line_of(k, i@) is Ok,
            lines_of(k, i@) == (lines_of(k, cur@).0, acc.deep_view() + lines_of(k, cur@).1),
        decreases cur@.len(),
    {
        match prefixed_line(k, cur) {
            Err(_) => {
                return Ok((cur, acc));
            },
            Ok((rest, payload)) => {
                proof {
                    lemma_line_consumes(k, cur@);
                }
                let ghost before = acc.deep_view();
                acc.push(payload);
                assert(acc.deep_view() =~= before.push(payload@));
                cur = rest;
            },
        }
    }
}

/// An optional `# language:` line.
pub fn language_parser<'a>(i: &'a str) -> (r: Parsed<'a, Option<&'a str>>)
    ensures
        outcome(r) == optional(line_of(Keyword::Language, i@), i@),
{
    match prefixed_line(Keyword::Language, i) {
        Ok((rest, payload)) => Ok((rest, Some(payload))),
        Err(_) => Ok((i, None)),
    }
}

/// An optional run of `@` lines.
pub fn tag_parser<'a>(i: &'a str) -> (r: Parsed<'a, Option<Vec<&'a str>>>)
    ensures
        outcome(r) == optional(some_lines_of(Keyword::Tag, i@), i@),
{
    match one_or_more(Keyword::Tag, i) {
        Ok((rest, tags)) => Ok((rest, Some(tags))),
        Err(_) => Ok((i, None)),
    }
}

/// An optional `#` line.
pub fn comment_parser<'a>(i: &'a str) -> (r: Parsed<'a, Option<&'a str>>)
    ensures
        outcome(r) == optional(line_of(Keyword::Comment, i@), i@),
{
    match prefixed_line(Keyword::Comment, i) {
        Ok((rest, payload)) => Ok((rest, Some(payload))),
        Err(_) => Ok((i, None)),
    }
}

/// The `Feature:` line.
pub fn feature_parser<'a>(i: &'a str) -> (r: Parsed<'a, &'a str>)
    ensures
        outcome(r) == line_of(Keyword::Feature, i@),
{
    prefixed_line(Keyword::Feature, i)
}

/// The `Scenario Outline:` line.
pub fn scenario_parser<'a>(i: &'a str) -> (r: Parsed<'a, &'a str>)
    ensures
        outcome(r) == line_of(Keyword::ScenarioOutline, i@),
{
    prefixed_line(Keyword::ScenarioOutline, i)
}

/// Hands a single capture on as a list of one.
fn single<'a>(r: Parsed<'a, &'a str>) -> (out: Parsed<'a, Vec<&'a str>>)
    ensures
        outcome(out) == alone(outcome(r)),
{
    match r {
        Ok((rest, payload)) => {
            let mut found: Vec<&'a str> = Vec::new();
            found.push(payload);
            assert(found.deep_view() =~= seq![payload@]);
            Ok((rest, found))
        },
        Err(e) => Err(e),
    }
}

/// The `Given` step: exactly one line.
pub fn given_parser<'a>(i: &'a str) -> (r: Parsed<'a, Vec<&'a str>>)
    ensures
        outcome(r) == one_line_of(Keyword::Given, i@),
{
    single(prefixed_line(Keyword::Given, i))
}

/// The `When` step: exactly one line.
pub fn when_parser<'a>(i: &'a str) -> (r: Parsed<'a, Vec<&'a str>>)
    ensures
        outcome(r) == one_line_of(Keyword::When, i@),
{
    single(prefixed_line(Keyword::When, i))
}

/// A `Then` step: exactly one line.
pub fn then_parser<'a>(i: &'a str) -> (r: Parsed<'a, Vec<&'a str>>)
    ensures
        outcome(r) == one_line_of(Keyword::Then, i@),
{
    single(prefixed_line(Keyword::Then, i))
}

/// An `And` step: exactly one line.
pub fn and_parser<'a>(i: &'a str) -> (r: Parsed<'a, Vec<&'a str>>)
    ensures
        outcome(r) == one_line_of(Keyword::And, i@),
{
    single(prefixed_line(Keyword::And, i))
}

/// Recognizes the closing step. `Then` is tried first, and `And` only where
/// the input does not open with `Then`; which of the two stood there is not
/// kept.
pub fn closing_step_parser<'a>(i: &'a str) -> (r: Parsed<'a, &'a str>)
    ensures
        outcome(r) == closing_step_of(i@),
{
    match prefixed_line(Keyword::Then, i) {
        Ok(found) => Ok(found),
        Err(e) => match e.expected {
            Expected::Keyword(_) => prefixed_line(Keyword::And, i),
            _ => Err(e),
        },
    }
}

/// The closing step, its payload as a list of one.
pub fn then_and_parser<'a>(i: &'a str) -> (r: Parsed<'a, Vec<&'a str>>)
    ensures
        outcome(r) == alone(closing_step_of(i@)),
{
    single(closing_step_parser(i))
}

} // verus!
