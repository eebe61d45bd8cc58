//! What holds of the grammar as a whole, stated over the text of well-formed
//! blocks and proved from the definitions of the grammar.

use crate::diagnosis::{
    accepted, failure_of, outcome, Expected, Failure, Keyword, Outcome, Parsed,
};
use crate::lines::{lemma_line_consumes, lemma_line_end_unique, line_end, line_of, terminated};
use crate::outline::{
    outline_of, tags_of, OutlineView, ScenarioOutline,
};
use crate::parse::closing_step_of;
use crate::text::{lemma_trims_to, trimmed};
use vstd::prelude::*;

verus! {

/// `p` can be the payload of a line: it holds no newline.
pub open spec fn single_line(p: Seq<char>) -> bool {
    forall|j: int| 0 <= j < p.len() ==> p[j] != '\n'
}

/// The line that `k` opens and that carries `payload`, followed by `rest`.
#[verifier::opaque]
pub open spec fn followed(k: Keyword, payload: Seq<char>, rest: Seq<char>) -> Seq<char> {
    k.text() + payload + seq!['\n'] + rest
}

/// One `@` line for each of `tags`, followed by `rest`.
pub open spec fn tag_lines(tags: Seq<Seq<char>>, rest: Seq<char>) -> Seq<char>
    decreases tags.len(),
{
    if tags.len() == 0 {
        rest
    } else {
        followed(Keyword::Tag, tags.first(), tag_lines(tags.drop_first(), rest))
    }
}

/// Each of `tags` without the white space around it.
pub open spec fn names_of(tags: Seq<Seq<char>>) -> Seq<Seq<char>> {
    Seq::new(tags.len(), |k: int| trimmed(tags[k]))
}

/// The parts from which a block of source text is written: the payloads of
/// its tag lines and of its five stage lines, and the keyword that opens the
/// closing step.
pub struct Block {
    pub tags: Seq<Seq<char>>,
    pub feature: Seq<char>,
    pub scenario: Seq<char>,
    pub given: Seq<char>,
    pub when: Seq<char>,
    pub closing_keyword: Keyword,
    pub closing: Seq<char>,
}

impl Block {
    /// Every payload fits on one line, every tag has a name, and the closing
    /// step opens with `Then` or with `And`.
    pub open spec fn well_formed(self) -> bool {
        &&& forall|k: int|
            0 <= k < self.tags.len() ==> single_line(#[trigger] self.tags[k]) && trimmed(
                self.tags[k],
            ).len() > 0
        &&& single_line(self.feature)
        &&& single_line(self.scenario)
        &&& single_line(self.given)
        &&& single_line(self.when)
        &&& single_line(self.closing)
        &&& (self.closing_keyword == Keyword::Then || self.closing_keyword == Keyword::And)
    }

    /// The keyword of the stage line with number `n`, counted from 0 in the
    /// order of the grammar.
    pub open spec fn stage_keyword(self, n: int) -> Keyword {
        if n == 0 {
            Keyword::Feature
        } else if n == 1 {
            Keyword::ScenarioOutline
        } else if n == 2 {
            Keyword::Given
        } else if n == 3 {
            Keyword::When
        } else {
            self.closing_keyword
        }
    }

    /// The payload of the stage line with number `n`.
    pub open spec fn stage_payload(self, n: int) -> Seq<char> {
        if n == 0 {
            self.feature
        } else if n == 1 {
            self.scenario
        } else if n == 2 {
            self.given
        } else if n == 3 {
            self.when
        } else {
            self.closing
        }
    }

    /// The stage lines whose numbers `order` lists, one after the other.
    pub open spec fn stage_lines(self, order: Seq<int>) -> Seq<char>
        decreases order.len(),
    {
        if order.len() == 0 {
            Seq::empty()
        } else {
            followed(
                self.stage_keyword(order.first()),
                self.stage_payload(order.first()),
                self.stage_lines(order.drop_first()),
            )
        }
    }

    /// The tag lines, then the stage lines in the order `order`.
    pub open spec fn arranged(self, order: Seq<int>) -> Seq<char> {
        tag_lines(self.tags, self.stage_lines(order))
    }

    /// The stage lines from the feature to the `When` step, followed by
    /// `tail`.
    pub open spec fn leading_stages(self, tail: Seq<char>) -> Seq<char> {
        followed(
            Keyword::Feature,
            self.feature,
            followed(
                Keyword::ScenarioOutline,
                self.scenario,
                followed(Keyword::Given, self.given, followed(Keyword::When, self.when, tail)),
            ),
        )
    }

    /// The five stage lines in the order of the grammar, followed by `rest`.
    pub open spec fn stages_before(self, rest: Seq<char>) -> Seq<char> {
        self.leading_stages(followed(self.closing_keyword, self.closing, rest))
    }

    /// The block as it is written, followed by `rest`.
    pub open spec fn text_before(self, rest: Seq<char>) -> Seq<char> {
        tag_lines(self.tags, self.stages_before(rest))
    }

    /// The block as it is written.
    pub open spec fn text(self) -> Seq<char> {
        self.text_before(Seq::empty())
    }

    /// The block with its last line left without a newline.
    pub open spec fn unterminated(self) -> Seq<char> {
        tag_lines(self.tags, self.leading_stages(self.closing_keyword.text() + self.closing))
    }

    /// The outline of the block once its closing step has come to `o`: the
    /// payload that `o` captured stands for the block's own.
    pub open spec fn closed_by(self, o: Outcome<Seq<char>>) -> Outcome<OutlineView> {
        match o {
            Ok((rest, closing)) => Ok((rest, (Block { closing, ..self }).outline())),
            Err(e) => Err(e),
        }
    }

    /// The outline that the block describes.
    pub open spec fn outline(self) -> OutlineView {
        OutlineView {
            scenario: trimmed(self.scenario),
            tags: names_of(self.tags),
            feature: trimmed(self.feature),
            given: trimmed(self.given),
            when: trimmed(self.when),
            then_step: trimmed(self.closing),
        }
    }
}

/// The first character of each keyword of the outline grammar, and that the
/// two keywords of the closing step hold no newline.
pub proof fn lemma_keyword_texts()
    ensures
        Keyword::Tag.text().len() == 1 && Keyword::Tag.text()[0] == '@',
        Keyword::Feature.text().len() == 8 && Keyword::Feature.text()[0] == 'F',
        Keyword::ScenarioOutline.text().len() == 17 && Keyword::ScenarioOutline.text()[0] == 'S',
        Keyword::Given.text().len() == 5 && Keyword::Given.text()[0] == 'G',
        Keyword::When.text().len() == 4 && Keyword::When.text()[0] == 'W',
        Keyword::Then.text().len() == 4 && Keyword::Then.text()[0] == 'T',
        Keyword::And.text().len() == 3 && Keyword::And.text()[0] == 'A',
        single_line(Keyword::Then.text()),
        single_line(Keyword::And.text()),
{
    reveal_strlit("@");
    reveal_strlit("Feature:");
    reveal_strlit("Scenario Outline:");
    reveal_strlit("Given");
    reveal_strlit("When");
    reveal_strlit("Then");
    reveal_strlit("And");
}

/// A recognized line is the one that was written.
pub proof fn lemma_line_of_followed(k: Keyword, payload: Seq<char>, rest: Seq<char>)
    requires
        single_line(payload),
    ensures
        line_of(k, followed(k, payload, rest)) == accepted(rest, payload),
{
    reveal(followed);
    let s = followed(k, payload, rest);
    let n = k.text().len() as int;
    let body = s.skip(n);
    lemma_line_end_unique(body, payload.len() as int);
    assert(body.take(payload.len() as int) =~= payload);
    assert(body.skip(payload.len() as int + 1) =~= rest);
}

/// A line that opens with one keyword is not taken for a line of a keyword
/// that begins with another character.
pub proof fn lemma_other_keyword(want: Keyword, have: Keyword, payload: Seq<char>, rest: Seq<char>)
    requires
        want.text().len() > 0,
        have.text().len() > 0,
        want.text()[0] != have.text()[0],
    ensures
        !want.text().is_prefix_of(followed(have, payload, rest)),
        failure_of(line_of(want, followed(have, payload, rest))) == Some(
            Failure { rest: followed(have, payload, rest), expected: Expected::Keyword(want) },
        ),
{
    reveal(followed);
    assert(followed(have, payload, rest)[0] == have.text()[0]);
}

/// Tag lines that were written with names are recognized as far as they go,
/// and their names come back trimmed.
pub proof fn lemma_tags_of_tag_lines(tags: Seq<Seq<char>>, rest: Seq<char>)
    requires
        forall|k: int|
            0 <= k < tags.len() ==> single_line(#[trigger] tags[k]) && trimmed(tags[k]).len() > 0,
        line_of(Keyword::Tag, rest) is Err,
    ensures
        tags_of(tag_lines(tags, rest)) == accepted(rest, names_of(tags)),
    decreases tags.len(),
{
    if tags.len() == 0 {
        assert(names_of(tags) =~= Seq::empty());
    } else {
        let tail = tags.drop_first();
        assert forall|k: int| 0 <= k < tail.len() implies single_line(#[trigger] tail[k])
            && trimmed(tail[k]).len() > 0 by {
            assert(tail[k] == tags[k + 1]);
        }
        lemma_line_of_followed(Keyword::Tag, tags.first(), tag_lines(tail, rest));
        lemma_tags_of_tag_lines(tail, rest);
        assert(seq![trimmed(tags.first())] + names_of(tail) =~= names_of(tags));
    }
}

/// The closing step of a block is recognized under either keyword.
pub proof fn lemma_closing_step(b: Block, rest: Seq<char>)
    requires
        b.well_formed(),
    ensures
        closing_step_of(followed(b.closing_keyword, b.closing, rest)) == accepted(rest, b.closing),
{
    lemma_keyword_texts();
    lemma_line_of_followed(b.closing_keyword, b.closing, rest);
    if b.closing_keyword == Keyword::And {
        lemma_other_keyword(Keyword::Then, Keyword::And, b.closing, rest);
    } else {
        reveal(followed);
    }
}

/// The header and the stage lines up to the `When` step parse whatever
/// follows them; the outcome is then that of the closing step.
pub proof fn lemma_leading_stages_parse(b: Block, tail: Seq<char>)
    requires
        b.well_formed(),
    ensures
        outline_of(tag_lines(b.tags, b.leading_stages(tail))) == b.closed_by(
            closing_step_of(tail),
        ),
{
    lemma_keyword_texts();
    let s3 = followed(Keyword::When, b.when, tail);
    let s2 = followed(Keyword::Given, b.given, s3);
    let s1 = followed(Keyword::ScenarioOutline, b.scenario, s2);
    let s0 = followed(Keyword::Feature, b.feature, s1);
    lemma_other_keyword(Keyword::Tag, Keyword::Feature, b.feature, s1);
    lemma_tags_of_tag_lines(b.tags, s0);
    lemma_line_of_followed(Keyword::Feature, b.feature, s1);
    lemma_line_of_followed(Keyword::ScenarioOutline, b.scenario, s2);
    lemma_line_of_followed(Keyword::Given, b.given, s3);
    lemma_line_of_followed(Keyword::When, b.when, tail);
}

/// A well-formed block parses to the outline it describes, and the parse
/// consumes exactly the block: what follows it is handed back untouched.
pub proof fn lemma_block_parses(b: Block, rest: Seq<char>)
    requires
        b.well_formed(),
    ensures
        outline_of(b.text_before(rest)) == accepted(rest, b.outline()),
{
    lemma_leading_stages_parse(b, followed(b.closing_keyword, b.closing, rest));
    lemma_closing_step(b, rest);
}

/// A well-formed block parses to the outline it describes and leaves nothing
/// unconsumed.
pub proof fn lemma_whole_block_parses(b: Block)
    requires
        b.well_formed(),
    ensures
        outline_of(b.text()) == accepted(Seq::empty(), b.outline()),
{
    lemma_block_parses(b, Seq::empty());
}

/// A block without tag lines parses as well, and its outline has no tags.
pub proof fn lemma_untagged_block_parses(b: Block)
    requires
        b.well_formed(),
        b.tags.len() == 0,
    ensures
        b.text() == b.stages_before(Seq::empty()),
        outline_of(b.stages_before(Seq::empty())) matches Ok((rest, found)) && rest.len() == 0
            && found == b.outline() && found.tags.len() == 0,
{
    lemma_block_parses(b, Seq::empty());
}

/// `Then` and `And` open the closing step alike: two blocks that differ in
/// that keyword alone parse to the same outline, and the keyword leaves no
/// trace in it.
pub proof fn lemma_then_and_alike(b: Block, rest: Seq<char>)
    requires
        b.well_formed(),
    ensures
        outline_of(Block { closing_keyword: Keyword::Then, ..b }.text_before(rest)) == outline_of(
            Block { closing_keyword: Keyword::And, ..b }.text_before(rest),
        ),
        outline_of(Block { closing_keyword: Keyword::Then, ..b }.text_before(rest)) is Ok,
        closing_step_of(followed(Keyword::Then, b.closing, rest)) == closing_step_of(
            followed(Keyword::And, b.closing, rest),
        ),
{
    let with_then = Block { closing_keyword: Keyword::Then, ..b };
    let with_and = Block { closing_keyword: Keyword::And, ..b };
    lemma_block_parses(with_then, rest);
    lemma_block_parses(with_and, rest);
    lemma_closing_step(with_then, rest);
    lemma_closing_step(with_and, rest);
}

/// A line without its newline is no line.
pub proof fn lemma_unterminated_line(k: Keyword, payload: Seq<char>)
    requires
        single_line(payload),
    ensures
        k.text().is_prefix_of(k.text() + payload),
        failure_of(line_of(k, k.text() + payload)) == Some(
            Failure { rest: payload, expected: Expected::LineEnd },
        ),
{
    assert((k.text() + payload).skip(k.text().len() as int) =~= payload);
}

/// Taking the last character from text that follows a line takes it from
/// what follows.
proof fn lemma_followed_drop_last(k: Keyword, payload: Seq<char>, rest: Seq<char>)
    ensures
        rest.len() > 0 ==> followed(k, payload, rest).drop_last() == followed(
            k,
            payload,
            rest.drop_last(),
        ),
        followed(k, payload, Seq::empty()).drop_last() == k.text() + payload,
        followed(k, payload, rest).len() > 0,
{
    reveal(followed);
    if rest.len() > 0 {
        assert(followed(k, payload, rest).drop_last() =~= followed(k, payload, rest.drop_last()));
    }
    assert(followed(k, payload, Seq::empty()).drop_last() =~= k.text() + payload);
}

/// Taking the last character from text that follows tag lines takes it from
/// what follows.
proof fn lemma_tag_lines_drop_last(tags: Seq<Seq<char>>, rest: Seq<char>)
    requires
        rest.len() > 0,
    ensures
        tag_lines(tags, rest).drop_last() == tag_lines(tags, rest.drop_last()),
        tag_lines(tags, rest).len() > 0,
    decreases tags.len(),
{
    if tags.len() > 0 {
        let tail = tags.drop_first();
        lemma_tag_lines_drop_last(tail, rest);
        lemma_followed_drop_last(Keyword::Tag, tags.first(), tag_lines(tail, rest));
    }
}

/// A block whose last line lacks its newline does not parse: the parse stops
/// in that line, behind its keyword, for want of a line end.
pub proof fn lemma_unterminated_block_fails(b: Block)
    requires
        b.well_formed(),
    ensures
        b.text().drop_last() == b.unterminated(),
        failure_of(outline_of(b.unterminated())) == Some(
            Failure { rest: b.closing, expected: Expected::LineEnd },
        ),
{
    lemma_keyword_texts();
    let cut = b.closing_keyword.text() + b.closing;
    lemma_leading_stages_parse(b, cut);
    lemma_unterminated_line(b.closing_keyword, b.closing);

    let e = Seq::<char>::empty();
    let t4 = followed(b.closing_keyword, b.closing, e);
    let t3 = followed(Keyword::When, b.when, t4);
    let t2 = followed(Keyword::Given, b.given, t3);
    let t1 = followed(Keyword::ScenarioOutline, b.scenario, t2);
    let t0 = followed(Keyword::Feature, b.feature, t1);
    lemma_followed_drop_last(b.closing_keyword, b.closing, e);
    lemma_followed_drop_last(Keyword::When, b.when, t4);
    lemma_followed_drop_last(Keyword::Given, b.given, t3);
    lemma_followed_drop_last(Keyword::ScenarioOutline, b.scenario, t2);
    lemma_followed_drop_last(Keyword::Feature, b.feature, t1);
    lemma_tag_lines_drop_last(b.tags, t0);
}

/// Five stage lines in any order are five lines, each followed by the next.
pub proof fn lemma_stage_lines_unfold(b: Block, order: Seq<int>)
    requires
        order.len() == 5,
    ensures
        b.stage_lines(order) == followed(
            b.stage_keyword(order[0]),
            b.stage_payload(order[0]),
            followed(
                b.stage_keyword(order[1]),
                b.stage_payload(order[1]),
                followed(
                    b.stage_keyword(order[2]),
                    b.stage_payload(order[2]),
                    followed(
                        b.stage_keyword(order[3]),
                        b.stage_payload(order[3]),
                        followed(
                            b.stage_keyword(order[4]),
                            b.stage_payload(order[4]),
                            Seq::empty(),
                        ),
                    ),
                ),
            ),
        ),
{
    let o1 = order.drop_first();
    let o2 = o1.drop_first();
    let o3 = o2.drop_first();
    let o4 = o3.drop_first();
    let o5 = o4.drop_first();
    assert(b.stage_lines(o5) == Seq::<char>::empty());
    assert(b.stage_lines(o4) == followed(
        b.stage_keyword(order[4]),
        b.stage_payload(order[4]),
        b.stage_lines(o5),
    ));
    assert(b.stage_lines(o3) == followed(
        b.stage_keyword(order[3]),
        b.stage_payload(order[3]),
        b.stage_lines(o4),
    ));
    assert(b.stage_lines(o2) == followed(
        b.stage_keyword(order[2]),
        b.stage_payload(order[2]),
        b.stage_lines(o3),
    ));
    assert(b.stage_lines(o1) == followed(
        b.stage_keyword(order[1]),
        b.stage_payload(order[1]),
        b.stage_lines(o2),
    ));
}

/// The stage lines of a block are recognized in the order of the grammar and
/// in no other: where any stage line stands out of its place, the parse
/// fails.
pub proof fn lemma_stage_order_is_fixed(b: Block, order: Seq<int>)
    requires
        b.well_formed(),
        order.len() == 5,
        forall|n: int| 0 <= n < 5 ==> 0 <= #[trigger] order[n] < 5,
        exists|n: int| 0 <= n < 5 && #[trigger] order[n] != n,
    ensures
        outline_of(b.arranged(order)) is Err,
{
    lemma_keyword_texts();
    let e = Seq::<char>::empty();
    let t4 = followed(b.stage_keyword(order[4]), b.stage_payload(order[4]), e);
    let t3 = followed(b.stage_keyword(order[3]), b.stage_payload(order[3]), t4);
    let t2 = followed(b.stage_keyword(order[2]), b.stage_payload(order[2]), t3);
    let t1 = followed(b.stage_keyword(order[1]), b.stage_payload(order[1]), t2);
    let t0 = followed(b.stage_keyword(order[0]), b.stage_payload(order[0]), t1);
    lemma_stage_lines_unfold(b, order);
    lemma_other_keyword(Keyword::Tag, b.stage_keyword(order[0]), b.stage_payload(order[0]), t1);
    lemma_tags_of_tag_lines(b.tags, t0);
    if order[0] != 0 {
        lemma_other_keyword(
            Keyword::Feature,
            b.stage_keyword(order[0]),
            b.stage_payload(order[0]),
            t1,
        );
    } else {
        lemma_line_of_followed(Keyword::Feature, b.feature, t1);
        if order[1] != 1 {
            lemma_other_keyword(
                Keyword::ScenarioOutline,
                b.stage_keyword(order[1]),
                b.stage_payload(order[1]),
                t2,
            );
        } else {
            lemma_line_of_followed(Keyword::ScenarioOutline, b.scenario, t2);
            if order[2] != 2 {
                lemma_other_keyword(
                    Keyword::Given,
                    b.stage_keyword(order[2]),
                    b.stage_payload(order[2]),
                    t3,
                );
            } else {
                lemma_line_of_followed(Keyword::Given, b.given, t3);
                if order[3] != 3 {
                    lemma_other_keyword(
                        Keyword::When,
                        b.stage_keyword(order[3]),
                        b.stage_payload(order[3]),
                        t4,
                    );
                } else {
                    lemma_line_of_followed(Keyword::When, b.when, t4);
                    lemma_other_keyword(
                        Keyword::Then,
                        b.stage_keyword(order[4]),
                        b.stage_payload(order[4]),
                        e,
                    );
                    lemma_other_keyword(
                        Keyword::And,
                        b.stage_keyword(order[4]),
                        b.stage_payload(order[4]),
                        e,
                    );
                }
            }
        }
    }
}

/// The order of the grammar, by stage numbers.
pub open spec fn grammar_order() -> Seq<int> {
    seq![0, 1, 2, 3, 4]
}

/// A block is its stage lines in the order of the grammar; with any two of
/// them exchanged it does not parse.
pub proof fn lemma_swapped_stages_fail(b: Block, i: int, j: int)
    requires
        b.well_formed(),
        0 <= i < 5,
        0 <= j < 5,
        i != j,
    ensures
        b.arranged(grammar_order()) == b.text(),
        outline_of(b.arranged(grammar_order().update(i, j).update(j, i))) is Err,
{
    let order = grammar_order().update(i, j).update(j, i);
    assert(order[i] != i);
    lemma_stage_order_is_fixed(b, order);
    lemma_stage_lines_unfold(b, grammar_order());
}

/// Parsing keeps no state: two results for inputs of the same characters that
/// both meet the parser's contract agree in what is left over, in every field
/// of the outline and in the failure.
pub proof fn lemma_reparse_agrees<'a, 'b>(
    first_input: &'a str,
    second_input: &'b str,
    first: Parsed<'a, ScenarioOutline>,
    second: Parsed<'b, ScenarioOutline>,
)
    requires
        first_input@ == second_input@,
        outcome(first) == outline_of(first_input@),
        outcome(second) == outline_of(second_input@),
    ensures
        match (first, second) {
            (Ok((rest1, found1)), Ok((rest2, found2))) => rest1@ == rest2@ && found1@ == found2@,
            (Err(e1), Err(e2)) => e1.input@ == e2.input@ && e1.expected == e2.expected,
            _ => false,
        },
{
}

/// A line is recognized only where it was written: the input is the keyword,
/// the payload, a newline and what is left, and the payload holds no newline.
pub proof fn lemma_line_was_written(k: Keyword, s: Seq<char>)
    ensures
        line_of(k, s) matches Ok((rest, payload)) ==> s == followed(k, payload, rest)
            && single_line(payload),
{
    reveal(followed);
    if let Ok((rest, payload)) = line_of(k, s) {
        assert(s =~= k.text() + payload + seq!['\n'] + rest);
    }
}

/// The tag lines that were recognized at the head of `s`, as they were
/// written: their payloads have names, and behind them stands no further tag
/// line.
pub proof fn lemma_tags_were_written(s: Seq<char>) -> (tags: Seq<Seq<char>>)
    requires
        tags_of(s) is Ok,
    ensures
        forall|k: int|
            0 <= k < tags.len() ==> single_line(#[trigger] tags[k]) && trimmed(tags[k]).len() > 0,
        tags_of(s) matches Ok((rest, names)) && s == tag_lines(tags, rest) && names == names_of(
            tags,
        ) && line_of(Keyword::Tag, rest) is Err,
    decreases s.len(),
{
    match line_of(Keyword::Tag, s) {
        Err(_) => {
            Seq::empty()
        },
        Ok((rest, payload)) => {
            lemma_line_was_written(Keyword::Tag, s);
            lemma_line_consumes(Keyword::Tag, s);
            let tail = lemma_tags_were_written(rest);
            let tags = seq![payload] + tail;
            assert(tags.drop_first() =~= tail);
            assert forall|k: int| 0 <= k < tags.len() implies single_line(#[trigger] tags[k])
                && trimmed(tags[k]).len() > 0 by {
                if k > 0 {
                    assert(tags[k] == tail[k - 1]);
                }
            }
            assert(seq![trimmed(payload)] + names_of(tail) =~= names_of(tags));
            tags
        },
    }
}

/// Only well-formed blocks parse: an input that parses is a well-formed
/// block followed by what the parse left over, and the outline is the one
/// that the block describes.
pub proof fn lemma_parsed_was_written(s: Seq<char>) -> (b: Block)
    requires
        outline_of(s) is Ok,
    ensures
        b.well_formed(),
        outline_of(s) matches Ok((rest, found)) && s == b.text_before(rest) && found
            == b.outline(),
{
    lemma_keyword_texts();
    let tags = lemma_tags_were_written(s);
    let (s0, names) = tags_of(s)->Ok_0;
    lemma_line_was_written(Keyword::Feature, s0);
    let (s1, feature) = line_of(Keyword::Feature, s0)->Ok_0;
    lemma_line_was_written(Keyword::ScenarioOutline, s1);
    let (s2, scenario) = line_of(Keyword::ScenarioOutline, s1)->Ok_0;
    lemma_line_was_written(Keyword::Given, s2);
    let (s3, given) = line_of(Keyword::Given, s2)->Ok_0;
    lemma_line_was_written(Keyword::When, s3);
    let (s4, when) = line_of(Keyword::When, s3)->Ok_0;
    lemma_line_was_written(Keyword::Then, s4);
    lemma_line_was_written(Keyword::And, s4);
    let (s5, closing) = closing_step_of(s4)->Ok_0;
    let closing_keyword = if Keyword::Then.text().is_prefix_of(s4) {
        Keyword::Then
    } else {
        Keyword::And
    };
    Block { tags, feature, scenario, given, when, closing_keyword, closing }
}

/// What an outcome points at in the input: the unconsumed part of a success,
/// the place of a failure.
pub open spec fn place_of<V>(o: Outcome<V>) -> Seq<char> {
    match o {
        Ok((rest, _)) => rest,
        Err(f) => f.rest,
    }
}

/// A tail of a tail is a tail.
proof fn lemma_tail_of_tail(a: Seq<char>, b: Seq<char>, c: Seq<char>)
    requires
        a.is_suffix_of(b),
        b.is_suffix_of(c),
    ensures
        a.is_suffix_of(c),
{
    assert forall|j: int| 0 <= j < a.len() implies a[j] == c[c.len() - a.len() + j] by {
        assert(a[j] == b[b.len() - a.len() + j]);
    }
    assert(a =~= c.subrange(c.len() - a.len(), c.len() as int));
}

/// Whatever a line parser reports, it points into its input.
pub proof fn lemma_line_stays_in_input(k: Keyword, s: Seq<char>)
    ensures
        place_of(line_of(k, s)).is_suffix_of(s),
{
    let body = s.skip(k.text().len() as int);
    if k.text().is_prefix_of(s) && terminated(body) {
        lemma_tail_of_tail(body.skip(line_end(body) + 1), body, s);
    }
}

/// Whatever the tag lines come to, the outcome points into the input.
pub proof fn lemma_tags_stay_in_input(s: Seq<char>)
    ensures
        place_of(tags_of(s)).is_suffix_of(s),
    decreases s.len(),
{
    if let Ok((rest, payload)) = line_of(Keyword::Tag, s) {
        if trimmed(payload).len() > 0 {
            lemma_line_consumes(Keyword::Tag, s);
            lemma_line_stays_in_input(Keyword::Tag, s);
            lemma_tags_stay_in_input(rest);
            lemma_tail_of_tail(place_of(tags_of(rest)), rest, s);
        }
    }
}

/// The parse never looks outside its input: what it leaves over on success
/// is a proper tail of the input, and the place of a failure is a tail of
/// it.
pub proof fn lemma_outline_stays_in_input(s: Seq<char>)
    ensures
        place_of(outline_of(s)).is_suffix_of(s),
        outline_of(s) is Ok ==> place_of(outline_of(s)).len() < s.len(),
{
    lemma_tags_stay_in_input(s);
    if let Ok((s0, names)) = tags_of(s) {
        lemma_line_stays_in_input(Keyword::Feature, s0);
        lemma_tail_of_tail(place_of(line_of(Keyword::Feature, s0)), s0, s);
        if let Ok((s1, feature)) = line_of(Keyword::Feature, s0) {
            lemma_line_consumes(Keyword::Feature, s0);
            lemma_line_stays_in_input(Keyword::ScenarioOutline, s1);
            lemma_tail_of_tail(place_of(line_of(Keyword::ScenarioOutline, s1)), s1, s);
            if let Ok((s2, scenario)) = line_of(Keyword::ScenarioOutline, s1) {
                lemma_line_stays_in_input(Keyword::Given, s2);
                lemma_tail_of_tail(place_of(line_of(Keyword::Given, s2)), s2, s);
                if let Ok((s3, given)) = line_of(Keyword::Given, s2) {
                    lemma_line_stays_in_input(Keyword::When, s3);
                    lemma_tail_of_tail(place_of(line_of(Keyword::When, s3)), s3, s);
                    if let Ok((s4, when)) = line_of(Keyword::When, s3) {
                        lemma_line_stays_in_input(Keyword::Then, s4);
                        lemma_line_stays_in_input(Keyword::And, s4);
                        lemma_tail_of_tail(place_of(closing_step_of(s4)), s4, s);
                    }
                }
            }
        }
    }
}

/// A tagged block about a login, as it is written, and the outline that it
/// parses to: nothing is left over, the two tags come without their `@`, and
/// every text has lost the space that followed its keyword.
pub proof fn lemma_login_block_parses()
    ensures
        outline_of(
            "@smoke\n@wip\nFeature: Fake Test Stuff\nScenario Outline: This is a fake scenario\nGiven I have a login\nWhen I type in a password and click login\nThen the page redirects\n"@,
        ) == accepted(
            Seq::empty(),
            OutlineView {
                scenario: "This is a fake scenario"@,
                tags: seq!["smoke"@, "wip"@],
                feature: "Fake Test Stuff"@,
                given: "I have a login"@,
                when: "I type in a password and click login"@,
                then_step: "the page redirects"@,
            },
        ),
{
    let b = Block {
        tags: seq!["smoke"@, "wip"@],
        feature: " Fake Test Stuff"@,
        scenario: " This is a fake scenario"@,
        given: " I have a login"@,
        when: " I type in a password and click login"@,
        closing_keyword: Keyword::Then,
        closing: " the page redirects"@,
    };
    reveal_strlit("smoke");
    reveal_strlit("wip");
    reveal_strlit(" Fake Test Stuff");
    reveal_strlit(" This is a fake scenario");
    reveal_strlit(" I have a login");
    reveal_strlit(" I type in a password and click login");
    reveal_strlit(" the page redirects");
    reveal_strlit("Fake Test Stuff");
    reveal_strlit("This is a fake scenario");
    reveal_strlit("I have a login");
    reveal_strlit("I type in a password and click login");
    reveal_strlit("the page redirects");
    lemma_trims_to("smoke"@, 0, 5);
    lemma_trims_to("wip"@, 0, 3);
    lemma_trims_to(b.feature, 1, 16);
    lemma_trims_to(b.scenario, 1, 24);
    lemma_trims_to(b.given, 1, 15);
    lemma_trims_to(b.when, 1, 37);
    lemma_trims_to(b.closing, 1, 19);
    assert(b.outline().tags =~= seq!["smoke"@, "wip"@]) by {
        assert("smoke"@.subrange(0, 5) =~= "smoke"@);
        assert("wip"@.subrange(0, 3) =~= "wip"@);
    }
    assert(b.outline().feature =~= "Fake Test Stuff"@);
    assert(b.outline().scenario =~= "This is a fake scenario"@);
    assert(b.outline().given =~= "I have a login"@);
    assert(b.outline().when =~= "I type in a password and click login"@);
    assert(b.outline().then_step =~= "the page redirects"@);
    assert(b.well_formed());
    lemma_whole_block_parses(b);
    lemma_login_block_text(b);
}

/// The login block is the text of its parts.
proof fn lemma_login_block_text(b: Block)
    requires
        b == (Block {
            tags: seq!["smoke"@, "wip"@],
            feature: " Fake Test Stuff"@,
            scenario: " This is a fake scenario"@,
            given: " I have a login"@,
            when: " I type in a password and click login"@,
            closing_keyword: Keyword::Then,
            closing: " the page redirects"@,
        }),
    ensures
        b.text()
            == "@smoke\n@wip\nFeature: Fake Test Stuff\nScenario Outline: This is a fake scenario\nGiven I have a login\nWhen I type in a password and click login\nThen the page redirects\n"@,
{
    let whole =
        "@smoke\n@wip\nFeature: Fake Test Stuff\nScenario Outline: This is a fake scenario\nGiven I have a login\nWhen I type in a password and click login\nThen the page redirects\n"@;
    reveal(followed);
    reveal_with_fuel(tag_lines, 3);
    reveal_strlit(
        "@smoke\n@wip\nFeature: Fake Test Stuff\nScenario Outline: This is a fake scenario\nGiven I have a login\nWhen I type in a password and click login\nThen the page redirects\n",
    );
    reveal_strlit("smoke");
    reveal_strlit("wip");
    reveal_strlit(" Fake Test Stuff");
    reveal_strlit(" This is a fake scenario");
    reveal_strlit(" I have a login");
    reveal_strlit(" I type in a password and click login");
    reveal_strlit(" the page redirects");
    reveal_strlit("@");
    reveal_strlit("Feature:");
    reveal_strlit("Scenario Outline:");
    reveal_strlit("Given");
    reveal_strlit("When");
    reveal_strlit("Then");
    assert(b.text() =~= whole);
}

} // verus!
