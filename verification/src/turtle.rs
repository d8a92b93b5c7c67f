//! The drawing cursor of the turtle generator: a position and a heading
//! that is always a whole number of quarter turns.

use vstd::prelude::*;
use crate::canvas::{in_block, on_block_edge, on_segment, Canvas, MAX_SIDE};
use crate::color::{black, Rgb};

verus! {

/// The colour of lines and outlines.
pub fn ink() -> (c: Rgb)
    ensures
        c == black(),
{
    Rgb { r: 0, g: 0, b: 0 }
}

/// The farthest that the turtle can be from the origin along either axis.
pub const REACH: i32 = 16_777_216;

/// The position and heading of the turtle. The heading is in degrees and
/// one of 0, 90, 180 and 270.
#[derive(Clone, Copy, Debug, PartialEq, Eq, Structural)]
pub struct TurtleState {
    pub x: i32,
    pub y: i32,
    pub heading: u16,
}

/// The cosine of a heading of whole quarter turns.
pub open spec fn cos_of(heading: int) -> int {
    if heading == 0 {
        1
    } else if heading == 180 {
        -1
    } else {
        0
    }
}

/// The sine of a heading of whole quarter turns.
pub open spec fn sin_of(heading: int) -> int {
    if heading == 90 {
        1
    } else if heading == 270 {
        -1
    } else {
        0
    }
}

/// The coordinate nearest to `v` that the turtle can have.
pub open spec fn confined(v: int) -> int {
    if v < -REACH {
        -REACH as int
    } else if v > REACH {
        REACH as int
    } else {
        v
    }
}

impl TurtleState {
    /// A state is well formed when the heading is a whole quarter turn
    /// below a full turn and the position is within reach.
    pub open spec fn wf(&self) -> bool {
        &&& self.heading == 0 || self.heading == 90 || self.heading == 180 || self.heading == 270
        &&& -REACH <= self.x <= REACH
        &&& -REACH <= self.y <= REACH
    }

    /// The state after a quarter turn that adds 90 degrees to the heading.
    pub open spec fn turned_left(&self) -> TurtleState {
        TurtleState { heading: ((self.heading + 90) % 360) as u16, ..*self }
    }

    /// The state after a quarter turn that takes 90 degrees off the
    /// heading.
    pub open spec fn turned_right(&self) -> TurtleState {
        TurtleState { heading: ((self.heading + 270) % 360) as u16, ..*self }
    }

    /// The state after a move of `step` along the heading: the position
    /// changes by `step` times the cosine and the sine of the heading, and
    /// stays within reach.
    pub open spec fn moved(&self, step: int) -> TurtleState {
        TurtleState {
            x: confined(self.x + step * cos_of(self.heading as int)) as i32,
            y: confined(self.y + step * sin_of(self.heading as int)) as i32,
            heading: self.heading,
        }
    }

    /// The turtle at the centre of a `w` x `h` canvas, heading 0.
    pub fn centered(w: u32, h: u32) -> (state: TurtleState)
        requires
            w <= MAX_SIDE,
            h <= MAX_SIDE,
        ensures
            state == (TurtleState { x: (w / 2) as i32, y: (h / 2) as i32, heading: 0 }),
            state.wf(),
    {
        TurtleState { x: (w / 2) as i32, y: (h / 2) as i32, heading: 0 }
    }

    /// Adds 90 degrees to the heading.
    pub fn turn_left(&self) -> (next: TurtleState)
        requires
            self.wf(),
        ensures
            next == self.turned_left(),
            next.wf(),
    {
        TurtleState { x: self.x, y: self.y, heading: (self.heading + 90) % 360 }
    }

    /// Takes 90 degrees off the heading.
    pub fn turn_right(&self) -> (next: TurtleState)
        requires
            self.wf(),
        ensures
            next == self.turned_right(),
            next.wf(),
    {
        TurtleState { x: self.x, y: self.y, heading: (self.heading + 270) % 360 }
    }

    /// Moves the turtle by `step` along its heading.
    pub fn forward(&self, step: u32) -> (next: TurtleState)
        requires
            self.wf(),
        ensures
            next == self.moved(step as int),
            next.wf(),
            next.x == self.x || next.y == self.y,
    {
        let dx: i64 = if self.heading == 0 {
            1
        } else if self.heading == 180 {
            -1
        } else {
            0
        };
        let dy: i64 = if self.heading == 90 {
            1
        } else if self.heading == 270 {
            -1
        } else {
            0
        };
        let x: i64 = self.x as i64 + step as i64 * dx;
        let y: i64 = self.y as i64 + step as i64 * dy;
        TurtleState { x: confine(x), y: confine(y), heading: self.heading }
    }

    /// Puts the turtle at `(x, y)` and keeps its heading.
    pub fn moved_to(&self, x: u32, y: u32) -> (next: TurtleState)
        requires
            self.wf(),
            x <= MAX_SIDE,
            y <= MAX_SIDE,
        ensures
            next == (TurtleState { x: x as i32, y: y as i32, heading: self.heading }),
            next.wf(),
    {
        TurtleState { x: x as i32, y: y as i32, heading: self.heading }
    }
}

/// Four quarter turns to the left bring the heading back, and a quarter
/// turn to the right undoes one to the left.
pub proof fn lemma_turns(state: TurtleState)
    requires
        state.wf(),
    ensures
        state.turned_left().turned_left().turned_left().turned_left() == state,
        state.turned_left().turned_right() == state,
        state.turned_right().turned_left() == state,
        state.turned_left().wf(),
        state.turned_right().wf(),
{
}

/// A move changes the position along one axis only, and by no more than
/// the step.
pub proof fn lemma_moved_along_axis(state: TurtleState, step: int)
    requires
        state.wf(),
        step >= 0,
    ensures
        state.moved(step).wf(),
        state.moved(step).x == state.x || state.moved(step).y == state.y,
        state.x - step <= state.moved(step).x <= state.x + step,
        state.y - step <= state.moved(step).y <= state.y + step,
{
}

/// Brings a coordinate within reach.
pub fn confine(v: i64) -> (r: i32)
    ensures
        r == confined(v as int),
        -REACH <= r <= REACH,
{
    if v < -(REACH as i64) {
        -REACH
    } else if v > REACH as i64 {
        REACH
    } else {
        v as i32
    }
}

/// What the pixel at `(px, py)` becomes when the turtle in `state` moves by
/// `step` and leaves its mark: a block of `w` columns and `h` rows at the
/// place it leaves, outlined in ink and filled with `fill`, over an ink
/// line from that place to the one it reaches.
pub open spec fn marked(before: Rgb, px: int, py: int, state: TurtleState, step: int, w: int, h: int, fill: Rgb) -> Rgb {
    let next = state.moved(step);
    if on_block_edge(px, py, state.x as int, state.y as int, w, h) {
        black()
    } else if in_block(px, py, state.x as int, state.y as int, w, h) {
        fill
    } else if on_segment(px, py, state.x as int, state.y as int, next.x as int, next.y as int) {
        black()
    } else {
        before
    }
}

/// Whether `after` is `before` with the mark that the turtle in `state`
/// leaves when it moves by `step`.
pub open spec fn stamped(before: Canvas, after: Canvas, state: TurtleState, step: int, w: int, h: int, fill: Rgb) -> bool {
    &&& after.spec_width() == before.spec_width()
    &&& after.spec_height() == before.spec_height()
    &&& forall|px: int, py: int|
        before.has(px, py) ==> #[trigger] after.at(px, py) == marked(before.at(px, py), px, py, state, step, w, h, fill)
}

/// Moves the turtle by `step` and draws its mark on the canvas: the line
/// that it travels, and over it a block of `w` columns and `h` rows at the
/// place it left. Returns the state after the move.
pub fn stamp(canvas: &mut Canvas, state: TurtleState, step: u32, w: u32, h: u32, fill: Rgb) -> (next: TurtleState)
    requires
        old(canvas).drawable(),
        state.wf(),
    ensures
        next == state.moved(step as int),
        next.wf(),
        stamped(*old(canvas), *final(canvas), state, step as int, w as int, h as int, fill),
{
    let next = state.forward(step);
    let ghost before = *canvas;
    canvas.draw_segment(state.x, state.y, next.x, next.y, ink());
    let ghost lined = *canvas;
    canvas.draw_block(state.x, state.y, w, h, fill, ink());
    assert forall|px: int, py: int| before.has(px, py) implies #[trigger] canvas.at(px, py) == marked(
        before.at(px, py),
        px,
        py,
        state,
        step as int,
        w as int,
        h as int,
        fill,
    ) by {
        assert(lined.has(px, py));
    }
    next
}

} // verus!
