//! The calls that leave this crate. Their contracts are taken on trust from
//! the sources and documentation of the functions they name; everything else
//! in the crate is proved from them.

use crate::text::{first_occurrence, occurs_at, white_space};
use vstd::prelude::*;

verus! {

/// `nom::Err`, the value with which a nom parser fails. Nothing is read from
/// it here.
#[verifier::external_type_specification]
#[verifier::external_body]
#[verifier::reject_recursive_types(E)]
pub struct ExErr<E>(nom::Err<E>);

/// `nom::error::Error`, the place and the code of a failure in nom. Nothing is
/// read from it here.
#[verifier::external_type_specification]
#[verifier::external_body]
#[verifier::reject_recursive_types(I)]
pub struct ExError<I>(nom::error::Error<I>);

/// `nom::bytes::complete::tag` on string slices.
///
/// nom compares the bytes of `lit` with the first bytes of `i`; in UTF-8 the
/// bytes of one text begin those of another exactly when its characters do.
/// So the call succeeds exactly when `i` begins with `lit`, and then splits
/// `i` behind that prefix: the first component is what follows it, the second
/// is the prefix itself. Every other input is an error.
#[verifier::external_body]
pub(crate) fn match_prefix<'a>(lit: &str, i: &'a str) -> (r: Result<
    (&'a str, &'a str),
    nom::Err<nom::error::Error<&'a str>>,
>)
    ensures
        r is Ok <==> lit@.is_prefix_of(i@),
        r matches Ok((rest, hit)) ==> hit@ == lit@ && rest@ == i@.skip(lit@.len() as int),
{
    nom::bytes::complete::tag(lit)(i)
}

/// `nom::bytes::complete::take_until` on string slices.
///
/// nom looks for `pat` with `str::find`, which gives the place of the
/// leftmost match, and splits `i` in front of it: the second component is
/// what precedes the match, the first begins with it. Where `pat` occurs
/// nowhere in `i`, the call is an error.
#[verifier::external_body]
pub(crate) fn split_before<'a>(pat: &str, i: &'a str) -> (r: Result<
    (&'a str, &'a str),
    nom::Err<nom::error::Error<&'a str>>,
>)
    ensures
        match r {
            Ok((rest, head)) => {
                &&& first_occurrence(i@, pat@, head@.len() as int)
                &&& head@ == i@.take(head@.len() as int)
                &&& rest@ == i@.skip(head@.len() as int)
            },
            Err(_) => forall|k: int| !occurs_at(i@, pat@, k),
        },
{
    nom::bytes::complete::take_until(pat)(i)
}

/// `char::is_whitespace`.
///
/// Tells whether `c` has the Unicode property `White_Space`, for which the
/// standard library refers to the Unicode Character Database. The contract
/// takes the property to be the code points that the database lists.
#[verifier::external_body]
pub(crate) fn is_white_space(c: char) -> (r: bool)
    ensures
        r == white_space(c),
{
    c.is_whitespace()
}

} // verus!
