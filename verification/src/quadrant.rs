//! The four rectangles that partition a canvas, and point lookup in them.

use vstd::prelude::*;

verus! {

/// An axis-aligned rectangle `(x1, y1, x2, y2)`.
pub type Quad = (u32, u32, u32, u32);

/// The result of a lookup that matched no rectangle.
pub const NOT_FOUND: i32 = -1;

/// The four quadrants of a `w` x `h` canvas, split at half the width and
/// half the height (rounded down): top-left, top-right, bottom-left,
/// bottom-right.
pub open spec fn quadrants_of(w: u32, h: u32) -> Seq<Quad> {
    seq![
        (0u32, 0u32, w / 2, h / 2),
        (w / 2, 0u32, w, h / 2),
        (0u32, h / 2, w / 2, h),
        (w / 2, h / 2, w, h),
    ]
}

/// Whether the point lies within the rectangle, all four edges included.
pub open spec fn quad_contains(q: Quad, x: int, y: int) -> bool {
    q.0 <= x <= q.2 && q.1 <= y <= q.3
}

/// The index of the first rectangle that contains the point, or
/// `NOT_FOUND` when none does.
pub open spec fn first_match(quads: Seq<Quad>, x: int, y: int) -> int
    decreases quads.len(),
{
    if quads.len() == 0 {
        NOT_FOUND as int
    } else if quad_contains(quads[0], x, y) {
        0
    } else {
        let rest = first_match(quads.drop_first(), x, y);
        if rest == NOT_FOUND {
            NOT_FOUND as int
        } else {
            rest + 1
        }
    }
}

/// The quadrant diagonally opposite to the one with the given index;
/// `None` for anything that is not the index of a quadrant.
pub open spec fn opposite_of(idx: int) -> Option<int> {
    if 0 <= idx <= 3 {
        Some(3 - idx)
    } else {
        None
    }
}

/// A lookup reports either no match or the index of a rectangle that
/// contains the point and that no matching rectangle precedes.
pub proof fn lemma_first_match(quads: Seq<Quad>, x: int, y: int)
    ensures
        first_match(quads, x, y) == NOT_FOUND || 0 <= first_match(quads, x, y) < quads.len(),
        first_match(quads, x, y) != NOT_FOUND ==> quad_contains(quads[first_match(quads, x, y)], x, y),
        forall|j: int|
            0 <= j < (if first_match(quads, x, y) == NOT_FOUND {
                quads.len() as int
            } else {
                first_match(quads, x, y)
            }) ==> !quad_contains(#[trigger] quads[j], x, y),
    decreases quads.len(),
{
    if quads.len() > 0 && !quad_contains(quads[0], x, y) {
        let tail = quads.drop_first();
        lemma_first_match(tail, x, y);
        assert forall|j: int|
            0 <= j < (if first_match(quads, x, y) == NOT_FOUND {
                quads.len() as int
            } else {
                first_match(quads, x, y)
            }) implies !quad_contains(#[trigger] quads[j], x, y) by {
            if j > 0 {
                assert(quads[j] == tail[j - 1]);
            }
        }
    }
}

/// The quadrants cover the canvas: every point from the origin to the far
/// corner, edges included, is found in one of them, and nothing else is.
pub proof fn lemma_quadrants_cover(w: u32, h: u32, x: int, y: int)
    ensures
        (0 <= x <= w && 0 <= y <= h) <==> first_match(quadrants_of(w, h), x, y) != NOT_FOUND,
{
    let quads = quadrants_of(w, h);
    lemma_first_match(quads, x, y);
    if 0 <= x <= w && 0 <= y <= h {
        if first_match(quads, x, y) == NOT_FOUND {
            assert(!quad_contains(quads[0], x, y));
            assert(!quad_contains(quads[1], x, y));
            assert(!quad_contains(quads[2], x, y));
            assert(!quad_contains(quads[3], x, y));
        }
    }
}

/// Computes the four quadrants of a `w` x `h` canvas.
pub fn quadrants(w: u32, h: u32) -> (quads: [Quad; 4])
    ensures
        quads@ == quadrants_of(w, h),
{
    let halfx: u32 = w / 2;
    let halfy: u32 = h / 2;
    let quads: [Quad; 4] = [(0, 0, halfx, halfy), (halfx, 0, w, halfy), (0, halfy, halfx, h), (halfx, halfy, w, h)];
    assert(quads@ =~= quadrants_of(w, h));
    quads
}

/// Finds the first rectangle, in the order given, whose bounds contain the
/// point. A point on a shared edge lies within more than one rectangle;
/// the earliest of them is reported.
pub fn locate(x: i64, y: i64, quads: &[Quad]) -> (idx: i32)
    requires
        quads@.len() <= i32::MAX,
    ensures
        idx == first_match(quads@, x as int, y as int),
        idx == NOT_FOUND || 0 <= idx < quads@.len(),
        idx != NOT_FOUND ==> quad_contains(quads@[idx as int], x as int, y as int),
        forall|j: int| 0 <= j < (if idx == NOT_FOUND { quads@.len() as int } else { idx as int })
            ==> !quad_contains(#[trigger] quads@[j], x as int, y as int),
{
    let n: usize = quads.len();
    let mut i: usize = 0;
    assert(quads@.skip(0) =~= quads@);
    while i < n
        invariant
            i <= n,
            n == quads@.len(),
            n <= i32::MAX,
            forall|j: int| 0 <= j < i ==> !quad_contains(#[trigger] quads@[j], x as int, y as int),
            first_match(quads@, x as int, y as int) == (if first_match(quads@.skip(i as int), x as int, y as int) == NOT_FOUND {
                NOT_FOUND as int
            } else {
                first_match(quads@.skip(i as int), x as int, y as int) + i
            }),
        decreases n - i,
    {
        let q: Quad = quads[i];
        let ghost rest = quads@.skip(i as int);
        assert(rest[0] == quads@[i as int]);
        assert(rest.drop_first() =~= quads@.skip(i as int + 1));
        if x >= q.0 as i64 && x <= q.2 as i64 && y >= q.1 as i64 && y <= q.3 as i64 {
            return i as i32;
        }
        proof {
            lemma_first_match(rest.drop_first(), x as int, y as int);
        }
        assert(first_match(rest, x as int, y as int) == (if first_match(
            rest.drop_first(),
            x as int,
            y as int,
        ) == NOT_FOUND {
            NOT_FOUND as int
        } else {
            first_match(rest.drop_first(), x as int, y as int) + 1
        }));
        i += 1;
    }
    assert(quads@.skip(n as int).len() == 0);
    NOT_FOUND
}

/// The index of the quadrant diagonally opposite to `idx`: 0 and 3 are
/// opposite, and so are 1 and 2.
pub fn opposite(idx: i32) -> (r: Option<usize>)
    ensures
        r matches Some(o) ==> opposite_of(idx as int) == Some(o as int),
        r is None ==> opposite_of(idx as int) is None,
{
    if 0 <= idx && idx <= 3 {
        Some((3 - idx) as usize)
    } else {
        None
    }
}

} // verus!
