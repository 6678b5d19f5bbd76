use vstd::prelude::*;

verus! {

/// The lowest quality score of the scale.
pub const MIN_SCORE: i64 = 0;

/// The highest quality score of the scale.
pub const MAX_SCORE: i64 = 41;

/// `n` moved into `[lo, hi]`: below it becomes `lo`, above it becomes `hi`.
pub open spec fn clamped(n: int, lo: int, hi: int) -> int {
    if n < lo {
        lo
    } else if n > hi {
        hi
    } else {
        n
    }
}

/// Narrows a rounded draw of the score distribution to the score scale.
///
/// Out-of-range draws are clamped to the nearest bound, not redrawn. As the
/// bounds are whole numbers, clamping the rounded draw gives the same score
/// as rounding the clamped draw.
pub fn score_from_draw(rounded: i64) -> (r: u8)
    ensures
        r as int == clamped(rounded as int, MIN_SCORE as int, MAX_SCORE as int),
        MIN_SCORE <= r <= MAX_SCORE,
{
    if rounded < MIN_SCORE {
        MIN_SCORE as u8
    } else if rounded > MAX_SCORE {
        MAX_SCORE as u8
    } else {
        rounded as u8
    }
}

} // verus!
