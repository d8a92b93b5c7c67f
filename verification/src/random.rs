//! The random draws that the generators make, all from one seedable source
//! that the caller passes in.

use vstd::prelude::*;
use rand::rngs::StdRng;
use rand::seq::SliceRandom;
use rand::Rng;
use crate::color::Rgb;
use crate::quadrant::Quad;

verus! {

/// `rand::rngs::StdRng`, the seedable random source. It is handed on to
/// the draws and never looked into.
#[verifier::external_type_specification]
#[verifier::external_body]
pub struct ExStdRng(rand::rngs::StdRng);

/// Whether `picks` lists pairwise different positions of a sequence of
/// length `len`.
pub open spec fn distinct_positions(picks: Seq<int>, len: int) -> bool {
    &&& forall|i: int| 0 <= i < picks.len() ==> 0 <= #[trigger] picks[i] < len
    &&& forall|i: int, j: int| 0 <= i < j < picks.len() ==> picks[i] != picks[j]
}

/// Whether `chosen` holds the items of `items` at the positions `picks`,
/// in that order.
pub open spec fn chosen_at<T>(chosen: Seq<T>, items: Seq<T>, picks: Seq<int>) -> bool {
    &&& picks.len() == chosen.len()
    &&& distinct_positions(picks, items.len() as int)
    &&& forall|i: int| 0 <= i < chosen.len() ==> #[trigger] chosen[i] == items[picks[i]]
}

/// Whether `v` can come of a draw from the half-open range from `lo` up
/// to `hi`: a value of the range, or `lo` where the range is empty.
pub open spec fn drawn_from(v: int, lo: int, hi: int) -> bool {
    if lo < hi {
        lo <= v < hi
    } else {
        v == lo
    }
}

/// Whether the point can come of a draw inside the rectangle.
pub open spec fn drawn_inside(p: (u32, u32), q: Quad) -> bool {
    drawn_from(p.0 as int, q.0 as int, q.2 as int) && drawn_from(p.1 as int, q.1 as int, q.3 as int)
}

/// Calls `Rng::gen_range` on the half-open range `lo..hi`, which panics on
/// an empty range and otherwise returns a value of the range.
#[verifier::external_body]
pub(crate) fn gen_below(rng: &mut StdRng, lo: u64, hi: u64) -> (r: u64)
    requires
        lo < hi,
    ensures
        lo <= r < hi,
{
    rng.gen_range(lo..hi)
}

/// Calls `SliceRandom::choose`, which returns `None` for an empty slice and
/// otherwise one of the slice's items.
#[verifier::external_body]
pub(crate) fn choose_color(rng: &mut StdRng, colors: &[Rgb]) -> (r: Option<Rgb>)
    ensures
        r is None <==> colors@.len() == 0,
        r matches Some(c) ==> colors@.contains(c),
{
    colors.choose(rng).copied()
}

/// Calls `SliceRandom::shuffle`, which reorders the slice in place: the
/// items stay the same, each as often as before.
#[verifier::external_body]
pub(crate) fn shuffle_positions(rng: &mut StdRng, positions: &mut Vec<usize>)
    ensures
        final(positions)@.to_multiset() == old(positions)@.to_multiset(),
{
    positions.shuffle(rng)
}

/// Calls `SliceRandom::choose_multiple`, which hands out the items at
/// `amount` different positions of the slice, or at all positions where
/// the slice is shorter than `amount`.
#[verifier::external_body]
pub(crate) fn choose_constants(rng: &mut StdRng, items: &[(i32, i32)], amount: usize) -> (r: Vec<(i32, i32)>)
    ensures
        r@.len() == (if amount <= items@.len() { amount as int } else { items@.len() as int }),
        exists|picks: Seq<int>| chosen_at(r@, items@, picks),
{
    items.choose_multiple(rng, amount).cloned().collect()
}

/// Draws a value of the closed range from `lo` to `hi`. Where `hi` lies
/// below `lo` nothing is drawn and `lo` is returned.
pub fn draw_closed(rng: &mut StdRng, lo: u32, hi: u32) -> (r: u32)
    ensures
        lo <= hi ==> lo <= r <= hi,
        lo > hi ==> r == lo,
{
    if lo <= hi {
        gen_below(rng, lo as u64, hi as u64 + 1) as u32
    } else {
        lo
    }
}

/// Draws a value of the half-open range from `lo` up to, not including,
/// `hi`. Where the range is empty nothing is drawn and `lo` is returned.
pub fn draw_half_open(rng: &mut StdRng, lo: u32, hi: u32) -> (r: u32)
    ensures
        drawn_from(r as int, lo as int, hi as int),
{
    if lo < hi {
        gen_below(rng, lo as u64, hi as u64) as u32
    } else {
        lo
    }
}

} // verus!
