//! Similarity scores carried as IEEE-754 single-precision encodings.
//!
//! The registry only ever *compares* similarity scores (pick the closer of
//! two candidates, reject one below a threshold, rank candidates
//! best-first). A score is therefore carried as its 32-bit IEEE-754 binary32
//! encoding, and every comparison here has exactly the meaning of the
//! corresponding binary32 comparison: NaN compares false against anything,
//! `+0` and `-0` compare equal, and the infinities sit at the ends.

use vstd::prelude::*;

verus! {

/// The binary32 encoding of a similarity score.
pub type ScoreBits = u32;

/// The sign bit of a binary32 encoding.
pub const SIGN_BIT: u32 = 0x8000_0000;

/// The encoding of positive infinity (all exponent bits set, zero fraction).
pub const POSITIVE_INFINITY_BITS: u32 = 0x7F80_0000;

/// The encoding of `0.45`, the similarity at or above which two photos are
/// reported as showing the same person.
pub const SAME_PERSON_THRESHOLD_BITS: u32 = 0x3EE6_6666;

/// The magnitude part of an encoding (everything but the sign bit).
pub open spec fn magnitude(b: u32) -> int {
    if b >= SIGN_BIT { b - SIGN_BIT } else { b as int }
}

/// An encoding is NaN when its exponent bits are all set and its fraction is
/// non-zero, i.e. when its magnitude exceeds that of infinity.
pub open spec fn is_nan(b: u32) -> bool {
    magnitude(b) > POSITIVE_INFINITY_BITS
}

/// An integer that orders non-NaN encodings exactly as their binary32 values
/// are ordered: magnitudes of non-negative values grow with the value, those
/// of negative values shrink with it, and both zeros map to `0`.
pub open spec fn order_key(b: u32) -> int {
    if b >= SIGN_BIT { -(b - SIGN_BIT) } else { b as int }
}

/// binary32 `a < b`.
pub open spec fn score_lt(a: u32, b: u32) -> bool {
    !is_nan(a) && !is_nan(b) && order_key(a) < order_key(b)
}

/// binary32 `a >= b`.
pub open spec fn score_ge(a: u32, b: u32) -> bool {
    !is_nan(a) && !is_nan(b) && order_key(a) >= order_key(b)
}

/// Whether an encoding is NaN.
pub fn score_is_nan(b: ScoreBits) -> (r: bool)
    ensures
        r == is_nan(b),
{
    let m: u32 = if b >= SIGN_BIT { b - SIGN_BIT } else { b };
    m > POSITIVE_INFINITY_BITS
}

/// The order key of a non-NaN encoding, as a machine integer.
fn score_key(b: ScoreBits) -> (k: i64)
    ensures
        k as int == order_key(b),
{
    if b >= SIGN_BIT {
        0i64 - ((b - SIGN_BIT) as i64)
    } else {
        b as i64
    }
}

/// binary32 `a < b` on encodings.
pub fn score_less_than(a: ScoreBits, b: ScoreBits) -> (r: bool)
    ensures
        r == score_lt(a, b),
{
    !score_is_nan(a) && !score_is_nan(b) && score_key(a) < score_key(b)
}

/// binary32 `a > b` on encodings.
pub fn score_greater_than(a: ScoreBits, b: ScoreBits) -> (r: bool)
    ensures
        r == score_lt(b, a),
{
    score_less_than(b, a)
}

/// binary32 `a >= b` on encodings.
pub fn score_at_least(a: ScoreBits, b: ScoreBits) -> (r: bool)
    ensures
        r == score_ge(a, b),
{
    !score_is_nan(a) && !score_is_nan(b) && score_key(a) >= score_key(b)
}

/// Among non-NaN encodings, `>=` is the negation of `<`: the order is total.
pub proof fn lemma_score_order_total(a: u32, b: u32)
    requires
        !is_nan(a),
        !is_nan(b),
    ensures
        score_ge(a, b) <==> !score_lt(a, b),
        score_lt(a, b) || score_lt(b, a) || order_key(a) == order_key(b),
{
}

/// The comparisons are the IEEE binary32 ones: a NaN is neither below,
/// above nor equal to anything; both zeros compare equal; positive infinity
/// is at or above and negative infinity at or below every other number;
/// among non-negative encodings a larger encoding is a larger number, among
/// negative ones a larger encoding is a smaller number, and every negative
/// number other than `-0` is below every non-negative one; both orders are
/// transitive.
pub proof fn law_score_order_is_the_ieee_order(a: u32, b: u32, c: u32)
    ensures
        is_nan(a) ==> !score_lt(a, b) && !score_lt(b, a) && !score_ge(a, b) && !score_ge(b, a),
        !is_nan(a) ==> score_ge(a, a) && !score_lt(a, a),
        score_ge(0, SIGN_BIT) && score_ge(SIGN_BIT, 0) && !score_lt(SIGN_BIT, 0),
        !is_nan(a) ==> score_ge(POSITIVE_INFINITY_BITS, a) && score_ge(a, 0xFF80_0000u32),
        !is_nan(a) && !is_nan(b) && a < SIGN_BIT && b < SIGN_BIT ==> (score_lt(a, b) <==> a < b),
        !is_nan(a) && !is_nan(b) && a >= SIGN_BIT && b >= SIGN_BIT ==> (score_lt(a, b) <==> a > b),
        !is_nan(a) && !is_nan(b) && a < SIGN_BIT && b > SIGN_BIT ==> score_lt(b, a),
        score_lt(a, b) && score_lt(b, c) ==> score_lt(a, c),
        score_ge(a, b) && score_ge(b, c) ==> score_ge(a, c),
        score_lt(a, b) ==> !score_ge(a, b) && !score_lt(b, a),
{
}

} // verus!
