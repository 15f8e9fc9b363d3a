//! Byte-pattern search, done by the `boyer_moore_magiclen` searcher.

use boyer_moore_magiclen::BMByte;
use vstd::prelude::*;

verus! {

/// `needle` lies in `hay` at offset `at`.
pub open spec fn occurs_at(needle: Seq<u8>, hay: Seq<u8>, at: int) -> bool {
    0 <= at && at + needle.len() <= hay.len() && hay.subrange(at, at + needle.len()) == needle
}

/// `needle` lies somewhere in `hay`.
pub open spec fn occurs(needle: Seq<u8>, hay: Seq<u8>) -> bool {
    exists|at: int| occurs_at(needle, hay, at)
}

/// `boyer_moore_magiclen::BMByte`: a searcher made for one pattern. Nothing
/// of its inside is known here but the pattern it stands for.
#[verifier::external_type_specification]
#[verifier::external_body]
pub struct ExBMByte(BMByte);

/// The pattern that a searcher looks for: the bytes it was built from.
pub uninterp spec fn searcher_pattern(searcher: BMByte) -> Seq<u8>;

/// `BMByte::from` on a byte vector. The searcher keeps a copy of the pattern;
/// the only pattern it refuses is the empty one.
#[verifier::external_body]
pub(crate) fn build_searcher(pattern: &Vec<u8>) -> (r: Option<BMByte>)
    ensures
        r is Some <==> pattern@.len() > 0,
        r matches Some(s) ==> searcher_pattern(s) == pattern@,
{
    BMByte::from(pattern)
}

/// `BMByte::find_first_in` on a byte vector: the offset of the leftmost place
/// where the searcher's pattern lies in `text`, or `None` where it lies nowhere.
#[verifier::external_body]
pub(crate) fn find_first_in(searcher: &BMByte, text: &Vec<u8>) -> (r: Option<usize>)
    ensures
        r is Some <==> occurs(searcher_pattern(*searcher), text@),
        r matches Some(at) ==> occurs_at(searcher_pattern(*searcher), text@, at as int),
        r matches Some(at) ==> forall|j: int|
            0 <= j < at ==> !occurs_at(searcher_pattern(*searcher), text@, j),
{
    searcher.find_first_in(text)
}

} // verus!
