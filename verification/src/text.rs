//! The vocabulary of the contracts, over sequences of characters: where a
//! pattern occurs, what white space surrounds a text, and the trimming that
//! takes it away.

use crate::primitives::is_white_space;
use vstd::prelude::*;
use vstd::std_specs::iter::IteratorSpec;
use vstd::string::StrSliceExecFns;

verus! {

/// `pat` stands in `s` at index `k`.
pub open spec fn occurs_at(s: Seq<char>, pat: Seq<char>, k: int) -> bool {
    &&& 0 <= k
    &&& k + pat.len() <= s.len()
    &&& s.subrange(k, k + pat.len()) == pat
}

/// `k` is the leftmost index at which `pat` stands in `s`.
pub open spec fn first_occurrence(s: Seq<char>, pat: Seq<char>, k: int) -> bool {
    &&& occurs_at(s, pat, k)
    &&& forall|j: int| 0 <= j < k ==> !occurs_at(s, pat, j)
}

/// `c` has the Unicode property `White_Space`. The Unicode Character Database
/// lists twenty-five code points for it: the controls from tab to carriage
/// return and the next-line control, the space and the no-break space, the
/// Ogham space mark, the spaces from en quad to hair space, the line and the
/// paragraph separator, and the narrow no-break, medium mathematical and
/// ideographic spaces.
pub open spec fn white_space(c: char) -> bool {
    let n = c as u32;
    ||| 0x0009 <= n <= 0x000D
    ||| n == 0x0020
    ||| n == 0x0085
    ||| n == 0x00A0
    ||| n == 0x1680
    ||| 0x2000 <= n <= 0x200A
    ||| n == 0x2028
    ||| n == 0x2029
    ||| n == 0x202F
    ||| n == 0x205F
    ||| n == 0x3000
}

/// `s` without its leading white space.
pub open spec fn trim_start(s: Seq<char>) -> Seq<char>
    decreases s.len(),
{
    if s.len() > 0 && white_space(s.first()) {
        trim_start(s.drop_first())
    } else {
        s
    }
}

/// `s` without its trailing white space.
pub open spec fn trim_end(s: Seq<char>) -> Seq<char>
    decreases s.len(),
{
    if s.len() > 0 && white_space(s.last()) {
        trim_end(s.drop_last())
    } else {
        s
    }
}

/// `s` without the white space around it.
pub open spec fn trimmed(s: Seq<char>) -> Seq<char> {
    trim_end(trim_start(s))
}

/// `s` has no white space around it.
pub open spec fn is_trimmed(s: Seq<char>) -> bool {
    trimmed(s) == s
}

/// What `trim_start` takes away is white space, and all of it: the result is
/// `s` from the index `a` on, every character in front of `a` is white space,
/// and the one at `a`, if there is one, is not.
pub proof fn lemma_trim_start(s: Seq<char>) -> (a: int)
    ensures
        0 <= a <= s.len(),
        trim_start(s) == s.skip(a),
        forall|k: int| 0 <= k < a ==> white_space(s[k]),
        a < s.len() ==> !white_space(s[a]),
    decreases s.len(),
{
    if s.len() > 0 && white_space(s.first()) {
        let tail = s.drop_first();
        let a = lemma_trim_start(tail);
        assert(tail.skip(a) =~= s.skip(a + 1));
        assert forall|k: int| 0 <= k < a + 1 implies white_space(s[k]) by {
            if k > 0 {
                assert(s[k] == tail[k - 1]);
            } else {
                assert(s[k] == s.first());
            }
        }
        assert(a < tail.len() ==> s[a + 1] == tail[a]);
        a + 1
    } else {
        assert(s.skip(0) =~= s);
        0
    }
}

/// What `trim_end` takes away is white space, and all of it: the result is
/// `s` up to the index `b`, every character from `b` on is white space, and
/// the one in front of `b`, if there is one, is not.
pub proof fn lemma_trim_end(s: Seq<char>) -> (b: int)
    ensures
        0 <= b <= s.len(),
        trim_end(s) == s.take(b),
        forall|k: int| b <= k < s.len() ==> white_space(s[k]),
        0 < b ==> !white_space(s[b - 1]),
    decreases s.len(),
{
    if s.len() > 0 && white_space(s.last()) {
        let head = s.drop_last();
        let b = lemma_trim_end(head);
        assert(head.take(b) =~= s.take(b));
        assert forall|k: int| b <= k < s.len() implies white_space(s[k]) by {
            if k < head.len() {
                assert(s[k] == head[k]);
            } else {
                assert(s[k] == s.last());
            }
        }
        assert(0 < b ==> s[b - 1] == head[b - 1]);
        b
    } else {
        assert(s.take(s.len() as int) =~= s);
        s.len() as int
    }
}

/// Trimmed text is a stretch of the text it was cut from that neither begins nor ends
/// with white space, and only white space was left out on either side.
pub proof fn lemma_trimmed_is_tight(s: Seq<char>) -> (ends: (int, int))
    ensures
        0 <= ends.0 <= ends.1 <= s.len(),
        trimmed(s) == s.subrange(ends.0, ends.1),
        forall|k: int| 0 <= k < ends.0 || ends.1 <= k < s.len() ==> white_space(s[k]),
        trimmed(s).len() > 0 ==> !white_space(trimmed(s).first()) && !white_space(
            trimmed(s).last(),
        ),
{
    let a = lemma_trim_start(s);
    let inner = s.skip(a);
    let b = lemma_trim_end(inner);
    assert(inner.take(b) =~= s.subrange(a, a + b));
    assert forall|k: int| 0 <= k < a || a + b <= k < s.len() implies white_space(s[k]) by {
        if a + b <= k {
            assert(s[k] == inner[k - a]);
        }
    }
    (a, a + b)
}

/// The stretch of `s` from `a` to `b` is what trimming leaves of it: only
/// white space lies outside, and the stretch neither begins nor ends with
/// any.
pub open spec fn trims_to(s: Seq<char>, a: int, b: int) -> bool {
    &&& 0 <= a <= b <= s.len()
    &&& forall|k: int| 0 <= k < a || b <= k < s.len() ==> white_space(s[k])
    &&& a < b ==> !white_space(s[a]) && !white_space(s[b - 1])
}

/// A stretch that trimming could leave is the one it leaves.
pub proof fn lemma_trims_to(s: Seq<char>, a: int, b: int)
    requires
        trims_to(s, a, b),
    ensures
        trimmed(s) == s.subrange(a, b),
{
    let (x, y) = lemma_trimmed_is_tight(s);
    if x < y {
        assert(!white_space(s[x]) && !white_space(s[y - 1])) by {
            assert(s.subrange(x, y).first() == s[x]);
            assert(s.subrange(x, y).last() == s[y - 1]);
        }
        assert(a == x && b == y);
    } else {
        assert(a == b) by {
            if a < b {
                assert(white_space(s[a]));
            }
        }
        assert(s.subrange(a, b) =~= s.subrange(x, y));
    }
}

/// Trimming twice is trimming once.
pub proof fn lemma_trimmed_twice(s: Seq<char>)
    ensures
        is_trimmed(trimmed(s)),
{
    let t = trimmed(s);
    lemma_trimmed_is_tight(s);
    let a = lemma_trim_start(t);
    if a > 0 {
        assert(white_space(t[0]));
    }
    assert(t.skip(0) =~= t);
    let b = lemma_trim_end(t);
    if b < t.len() {
        assert(white_space(t[t.len() - 1]));
    }
    assert(t.take(t.len() as int) =~= t);
}

/// The slice without the white space around it. One pass over the
/// characters finds the first and the last that are no white space; what
/// lies between them, both included, is handed back.
pub fn trim<'a>(s: &'a str) -> (r: &'a str)
    ensures
        r@ == trimmed(s@),
{
    let total = s.unicode_len();
    let mut chars = s.chars();
    let mut n: usize = 0;
    let mut start: usize = 0;
    let mut end: usize = 0;
    while n < total
        invariant
            total == s@.len(),
            n <= total,
            chars.remaining() == s@.skip(n as int),
            trims_to(s@.take(n as int), start as int, end as int),
        decreases total - n,
    {
        let ghost seen = s@.take(n as int);
        let ghost next = s@.take(n + 1);
        assert(forall|k: int| 0 <= k < n ==> seen[k] == next[k]);
        match chars.next() {
            Some(c) => {
                assert(next[n as int] == c);
                if !is_white_space(c) {
                    if start == end {
                        start = n;
                    }
                    end = n + 1;
                }
            },
            None => {
                assert(false);
            },
        }
        n = n + 1;
    }
    proof {
        assert(s@.take(n as int) =~= s@);
        lemma_trims_to(s@, start as int, end as int);
    }
    s.substring_char(start, end)
}

} // verus!
