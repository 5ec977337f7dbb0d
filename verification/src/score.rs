use vstd::prelude::*;

verus! {

/// The sign bit of an IEEE-754 binary64 pattern.
pub const SIGN_BIT: u64 = 0x8000_0000_0000_0000u64;

/// The rank of a score, given as its IEEE-754 binary64 bit pattern.
///
/// A larger rank means a larger number: patterns with the sign bit set are
/// complemented, so that a more negative number ranks lower, and the others
/// get the top bit, so that they rank above every negative one. Negative
/// zero ranks just below zero, and a pattern that is not a number ranks
/// beyond the infinity of its sign.
pub open spec fn rank_of(bits: u64) -> u64 {
    if bits & SIGN_BIT != 0 {
        !bits
    } else {
        bits | SIGN_BIT
    }
}

/// Computes the rank of a score from its bit pattern.
pub fn score_rank(bits: u64) -> (rank: u64)
    ensures
        rank == rank_of(bits),
{
    if bits & SIGN_BIT != 0 {
        !bits
    } else {
        bits | SIGN_BIT
    }
}

/// The rank orders bit patterns as the numbers behind them are ordered: among
/// patterns without the sign bit the larger pattern is the larger number and
/// ranks higher; among patterns with the sign bit the larger pattern is the
/// more negative number and ranks lower; every pattern with the sign bit
/// ranks below every pattern without it. Two patterns never share a rank.
pub proof fn lemma_rank_order(a: u64, b: u64)
    ensures
        a & SIGN_BIT == 0 && b & SIGN_BIT == 0 ==> (rank_of(a) < rank_of(b) <==> a < b),
        a & SIGN_BIT != 0 && b & SIGN_BIT != 0 ==> (rank_of(a) < rank_of(b) <==> a > b),
        a & SIGN_BIT != 0 && b & SIGN_BIT == 0 ==> rank_of(a) < rank_of(b),
        rank_of(a) == rank_of(b) ==> a == b,
{
    assert(a & 0x8000_0000_0000_0000u64 == 0 && b & 0x8000_0000_0000_0000u64 == 0 ==> ((a
        | 0x8000_0000_0000_0000u64) < (b | 0x8000_0000_0000_0000u64) <==> a < b))
        by (bit_vector);
    assert(a & 0x8000_0000_0000_0000u64 != 0 && b & 0x8000_0000_0000_0000u64 != 0 ==> (!a < !b
        <==> a > b)) by (bit_vector);
    assert(a & 0x8000_0000_0000_0000u64 != 0 && b & 0x8000_0000_0000_0000u64 == 0 ==> !a < (b
        | 0x8000_0000_0000_0000u64)) by (bit_vector);
    assert(a & 0x8000_0000_0000_0000u64 == 0 && b & 0x8000_0000_0000_0000u64 != 0 ==> (a
        | 0x8000_0000_0000_0000u64) != !b) by (bit_vector);
    assert(!a == !b ==> a == b) by (bit_vector);
    assert((a | 0x8000_0000_0000_0000u64) == (b | 0x8000_0000_0000_0000u64) && a
        & 0x8000_0000_0000_0000u64 == 0 && b & 0x8000_0000_0000_0000u64 == 0 ==> a == b)
        by (bit_vector);
}

} // verus!
