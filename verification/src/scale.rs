//! Derivation of random-draw ranges that stay proportional to the canvas.
//!
//! A hint is a non-negative decimal number held in thousandths, so that the
//! hint 2.5 is the integer 2500. For a canvas of width `w` and height `h`
//! the base magnitude is `(w + h) * hint`, and the range derived from it
//! runs from one hundredth to three hundredths of the base, both rounded
//! down and both included.

use vstd::prelude::*;
use vstd::arithmetic::div_mod::lemma_div_is_ordered;
use vstd::arithmetic::mul::lemma_mul_inequality;

verus! {

/// How many thousandths make up the hint 1.
pub const HINT_UNIT: u64 = 1000;

/// The largest bound that a range can have.
pub const BOUND_MAX: u32 = 0xFFFF_FFFF;

/// `percent` hundredths of the base magnitude, rounded down, and capped at
/// `BOUND_MAX`.
pub open spec fn scaled_bound(w: u32, h: u32, hint_milli: u64, percent: int) -> int {
    let exact = ((w + h) * hint_milli * percent) / 100_000;
    if exact > BOUND_MAX {
        BOUND_MAX as int
    } else {
        exact
    }
}

/// The lower bound of the derived range.
pub open spec fn scale_lower(w: u32, h: u32, hint_milli: u64) -> int {
    scaled_bound(w, h, hint_milli, 1)
}

/// The upper bound of the derived range.
pub open spec fn scale_upper(w: u32, h: u32, hint_milli: u64) -> int {
    scaled_bound(w, h, hint_milli, 3)
}

/// The hint that stands for a whole number.
pub fn whole_hint(n: u8) -> (hint_milli: u64)
    ensures
        hint_milli == n * HINT_UNIT,
{
    n as u64 * HINT_UNIT
}

/// Derives the range of magnitudes for a hint on a `w` x `h` canvas.
pub fn scaled_size(w: u32, h: u32, hint_milli: u64) -> (range: (u32, u32))
    ensures
        range.0 == scale_lower(w, h, hint_milli),
        range.1 == scale_upper(w, h, hint_milli),
        range.0 <= range.1,
{
    let span: u128 = w as u128 + h as u128;
    assert(span * hint_milli <= 0x2_0000_0000 * 0x1_0000_0000_0000_0000) by (nonlinear_arith)
        requires
            0 <= span <= 0x2_0000_0000,
            0 <= hint_milli <= 0x1_0000_0000_0000_0000,
    ;
    let base: u128 = span * hint_milli as u128;
    let low: u128 = base / 100_000;
    let high: u128 = (base * 3) / 100_000;
    proof {
        lemma_scale_ordered(w, h, hint_milli);
    }
    let lower: u32 = if low > BOUND_MAX as u128 {
        BOUND_MAX
    } else {
        low as u32
    };
    let upper: u32 = if high > BOUND_MAX as u128 {
        BOUND_MAX
    } else {
        high as u32
    };
    (lower, upper)
}

/// The lower bound of a derived range never exceeds its upper bound.
pub proof fn lemma_scale_ordered(w: u32, h: u32, hint_milli: u64)
    ensures
        0 <= scale_lower(w, h, hint_milli) <= scale_upper(w, h, hint_milli) <= BOUND_MAX,
{
    let base = (w + h) * hint_milli;
    assert(base >= 0) by (nonlinear_arith)
        requires
            base == (w + h) * hint_milli,
    ;
    lemma_div_is_ordered(base * 1, base * 3, 100_000);
}

/// On a fixed canvas both bounds grow, or stay, as the hint grows.
pub proof fn lemma_scale_monotonic(w: u32, h: u32, hint_a: u64, hint_b: u64)
    requires
        hint_a <= hint_b,
    ensures
        scale_lower(w, h, hint_a) <= scale_lower(w, h, hint_b),
        scale_upper(w, h, hint_a) <= scale_upper(w, h, hint_b),
{
    let base_a = (w + h) * hint_a;
    let base_b = (w + h) * hint_b;
    assert(0 <= base_a <= base_b) by (nonlinear_arith)
        requires
            base_a == (w + h) * hint_a,
            base_b == (w + h) * hint_b,
            hint_a <= hint_b,
    ;
    lemma_div_is_ordered(base_a * 1, base_b * 1, 100_000);
    lemma_div_is_ordered(base_a * 3, base_b * 3, 100_000);
}

} // verus!
