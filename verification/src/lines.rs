//! One logical line: a keyword, a payload that runs up to the next newline,
//! and that newline.

use crate::diagnosis::{outcome, Expected, Failure, Keyword, Outcome, ParseError, Parsed};
use crate::primitives::{match_prefix, split_before};
use crate::text::occurs_at;
use vstd::prelude::*;

verus! {

/// The newline at index `n` is the first one in `s`.
pub open spec fn closes_line(s: Seq<char>, n: int) -> bool {
    &&& 0 <= n < s.len()
    &&& s[n] == '\n'
    &&& forall|j: int| 0 <= j < n ==> s[j] != '\n'
}

/// `s` holds a newline.
pub open spec fn terminated(s: Seq<char>) -> bool {
    exists|n: int| closes_line(s, n)
}

/// The index of the first newline in `s`, where there is one.
pub open spec fn line_end(s: Seq<char>) -> int {
    choose|n: int| closes_line(s, n)
}

/// Only one index closes the first line.
pub proof fn lemma_line_end_unique(s: Seq<char>, n: int)
    requires
        closes_line(s, n),
    ensures
        terminated(s),
        line_end(s) == n,
{
    let m = line_end(s);
    assert(closes_line(s, m));
    assert(m == n) by {
        if m < n {
            assert(s[m] != '\n');
        }
        if n < m {
            assert(s[n] != '\n');
        }
    }
}

/// A single newline at the head of `s`.
pub open spec fn newline_of(s: Seq<char>) -> Outcome<Seq<char>> {
    if s.len() > 0 && s[0] == '\n' {
        Ok((s.skip(1), s.take(1)))
    } else {
        Err(Failure { rest: s, expected: Expected::LineEnd })
    }
}

/// Everything in front of the first newline of `s`; the newline stays.
pub open spec fn payload_of(s: Seq<char>) -> Outcome<Seq<char>> {
    if terminated(s) {
        Ok((s.skip(line_end(s)), s.take(line_end(s))))
    } else {
        Err(Failure { rest: s, expected: Expected::LineEnd })
    }
}

/// The line that `k` opens at the head of `s`: its payload is what stands
/// between the keyword and the first newline behind it, and the input goes on
/// behind that newline.
pub open spec fn line_of(k: Keyword, s: Seq<char>) -> Outcome<Seq<char>> {
    let body = s.skip(k.text().len() as int);
    if !k.text().is_prefix_of(s) {
        Err(Failure { rest: s, expected: Expected::Keyword(k) })
    } else if !terminated(body) {
        Err(Failure { rest: body, expected: Expected::LineEnd })
    } else {
        Ok((body.skip(line_end(body) + 1), body.take(line_end(body))))
    }
}

/// A recognized line accounts for its keyword, its payload and one newline
/// of the input, and for nothing else.
pub proof fn lemma_line_consumes(k: Keyword, s: Seq<char>)
    ensures
        line_of(k, s) matches Ok((rest, payload)) ==> rest.len() + payload.len() + k.text().len()
            + 1 == s.len(),
{
    if line_of(k, s) is Ok {
        let body = s.skip(k.text().len() as int);
        assert(closes_line(body, line_end(body)));
    }
}

/// A newline occurs where the one-character pattern does.
proof fn lemma_newline_occurrence(s: Seq<char>)
    ensures
        "\n"@ == seq!['\n'],
        forall|k: int| occurs_at(s, "\n"@, k) <==> 0 <= k < s.len() && s[k] == '\n',
{
    reveal_strlit("\n");
    assert("\n"@ =~= seq!['\n']);
    assert forall|k: int| occurs_at(s, "\n"@, k) <==> 0 <= k < s.len() && s[k] == '\n' by {
        if 0 <= k < s.len() {
            if s[k] == '\n' {
                assert(s.subrange(k, k + 1) =~= seq!['\n']);
            }
            if occurs_at(s, "\n"@, k) {
                assert(s.subrange(k, k + 1)[0] == '\n');
            }
        }
    }
}

/// Consumes the newline at the head of the input.
pub fn ws<'a>(i: &'a str) -> (r: Parsed<'a, &'a str>)
    ensures
        outcome(r) == newline_of(i@),
{
    proof {
        lemma_newline_occurrence(i@);
    }
    match match_prefix("\n", i) {
        Ok((rest, hit)) => {
            assert(occurs_at(i@, "\n"@, 0));
            assert(hit@ =~= i@.take(1));
            Ok((rest, hit))
        },
        Err(_) => {
            assert(!occurs_at(i@, "\n"@, 0));
            Err(ParseError { input: i, expected: Expected::LineEnd })
        },
    }
}

/// Captures the input up to its first newline, which it leaves in place.
pub fn until_n<'a>(i: &'a str) -> (r: Parsed<'a, &'a str>)
    ensures
        outcome(r) == payload_of(i@),
{
    proof {
        lemma_newline_occurrence(i@);
    }
    match split_before("\n", i) {
        Ok((rest, head)) => {
            proof {
                let n = head@.len() as int;
                assert(closes_line(i@, n)) by {
                    assert(occurs_at(i@, "\n"@, n));
                    assert forall|j: int| 0 <= j < n implies i@[j] != '\n' by {
                        assert(!occurs_at(i@, "\n"@, j));
                    }
                }
                lemma_line_end_unique(i@, n);
            }
            Ok((rest, head))
        },
        Err(_) => {
            assert(!terminated(i@)) by {
                if terminated(i@) {
                    assert(occurs_at(i@, "\n"@, line_end(i@)));
                }
            }
            Err(ParseError { input: i, expected: Expected::LineEnd })
        },
    }
}

/// Recognizes one line that opens with `k`: the keyword, a payload, a newline.
/// The payload is handed back as it stands, white space included.
pub fn prefixed_line<'a>(k: Keyword, i: &'a str) -> (r: Parsed<'a, &'a str>)
    ensures
        outcome(r) == line_of(k, i@),
{
    match match_prefix(k.literal(), i) {
        Err(_) => Err(ParseError { input: i, expected: Expected::Keyword(k) }),
        Ok((body, _)) => {
            match until_n(body) {
                Err(e) => Err(e),
                Ok((tail, payload)) => {
                    match ws(tail) {
                        Err(e) => {
                            assert(false) by {
                                assert(closes_line(body@, line_end(body@)));
                            }
                            Err(e)
                        },
                        Ok((rest, _)) => {
                            assert(rest@ =~= body@.skip(line_end(body@) + 1));
                            Ok((rest, payload))
                        },
                    }
                },
            }
        },
    }
}

} // verus!
