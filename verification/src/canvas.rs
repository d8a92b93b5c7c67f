//! The pixel grid that the generators paint on, and the drawing operations
//! on it.

use vstd::prelude::*;
use crate::color::Rgb;

verus! {

/// The longest side that a canvas can have, and the farthest that a drawing
/// coordinate can lie from the origin.
pub const MAX_SIDE: u32 = 16_777_216;

/// A `width` x `height` grid of RGB triples, stored in an
/// `image::ImageBuffer`. The size is fixed when the canvas is created.
#[verifier::external_body]
pub struct Canvas {
    buf: image::ImageBuffer<image::Rgb<u8>, Vec<u8>>,
}

/// The width and height of a canvas.
pub uninterp spec fn canvas_size(c: Canvas) -> (int, int);

/// The pixels of a canvas, by column and row.
pub uninterp spec fn canvas_pixels(c: Canvas) -> Map<(int, int), Rgb>;

/// Whether the point lies on the axis-parallel segment between two points,
/// ends included.
pub open spec fn on_segment(px: int, py: int, x0: int, y0: int, x1: int, y1: int) -> bool {
    ||| py == y0 && y0 == y1 && (x0 <= px <= x1 || x1 <= px <= x0)
    ||| px == x0 && x0 == x1 && (y0 <= py <= y1 || y1 <= py <= y0)
}

/// Whether the point lies in the block of `w` columns and `h` rows whose
/// top-left corner is `(x, y)`.
pub open spec fn in_block(px: int, py: int, x: int, y: int, w: int, h: int) -> bool {
    x <= px < x + w && y <= py < y + h
}

/// Whether the point lies on the outermost columns or rows of the block.
pub open spec fn on_block_edge(px: int, py: int, x: int, y: int, w: int, h: int) -> bool {
    in_block(px, py, x, y, w, h) && (px == x || px == x + w - 1 || py == y || py == y + h - 1)
}

/// Calls `ImageBuffer::from_pixel`, which panics where the three bytes per
/// pixel do not fit a vector, and otherwise returns a buffer of the given
/// size with every pixel set to the given one.
#[verifier::external_body]
fn buffer_new(width: u32, height: u32, color: Rgb) -> (c: Canvas)
    requires
        3 * width * height <= isize::MAX,
    ensures
        canvas_size(c) == (width as int, height as int),
        forall|x: int, y: int| 0 <= x < width && 0 <= y < height ==> #[trigger] canvas_pixels(c)[(x, y)] == color,
{
    Canvas { buf: image::ImageBuffer::from_pixel(width, height, image::Rgb([color.r, color.g, color.b])) }
}

/// Calls `ImageBuffer::dimensions`, which returns the width and height that
/// the buffer was created with.
#[verifier::external_body]
fn buffer_dimensions(c: &Canvas) -> (size: (u32, u32))
    ensures
        canvas_size(*c) == (size.0 as int, size.1 as int),
{
    c.buf.dimensions()
}

/// Calls `ImageBuffer::get_pixel`, which panics out of bounds and otherwise
/// returns the pixel at the given column and row.
#[verifier::external_body]
fn buffer_get(c: &Canvas, x: u32, y: u32) -> (color: Rgb)
    requires
        x < canvas_size(*c).0,
        y < canvas_size(*c).1,
    ensures
        color == canvas_pixels(*c)[(x as int, y as int)],
{
    let p = c.buf.get_pixel(x, y);
    Rgb { r: p.0[0], g: p.0[1], b: p.0[2] }
}

/// Calls `ImageBuffer::put_pixel`, which panics out of bounds and otherwise
/// replaces the pixel at the given column and row, and no other.
#[verifier::external_body]
fn buffer_put(c: &mut Canvas, x: u32, y: u32, color: Rgb)
    requires
        x < canvas_size(*old(c)).0,
        y < canvas_size(*old(c)).1,
    ensures
        canvas_size(*final(c)) == canvas_size(*old(c)),
        canvas_pixels(*final(c)) == canvas_pixels(*old(c)).insert((x as int, y as int), color),
{
    c.buf.put_pixel(x, y, image::Rgb([color.r, color.g, color.b]))
}

/// Calls `imageproc::drawing::draw_filled_rect_mut` with the rectangle
/// `Rect::at(x, y).of_size(w, h)`. It panics on an empty rectangle or
/// canvas, and otherwise sets every pixel of the rectangle that lies on the
/// canvas to the given colour, and no other.
#[verifier::external_body]
fn buffer_fill_rect(c: &mut Canvas, x: i32, y: i32, w: u32, h: u32, color: Rgb)
    requires
        1 <= w <= i32::MAX,
        1 <= h <= i32::MAX,
        x + w <= i32::MAX,
        y + h <= i32::MAX,
        1 <= canvas_size(*old(c)).0 <= i32::MAX,
        1 <= canvas_size(*old(c)).1 <= i32::MAX,
    ensures
        canvas_size(*final(c)) == canvas_size(*old(c)),
        forall|px: int, py: int|
            0 <= px < canvas_size(*old(c)).0 && 0 <= py < canvas_size(*old(c)).1 ==> #[trigger] canvas_pixels(
                *final(c),
            )[(px, py)] == (if in_block(px, py, x as int, y as int, w as int, h as int) {
                color
            } else {
                canvas_pixels(*old(c))[(px, py)]
            }),
{
    let rect = imageproc::rect::Rect::at(x, y).of_size(w, h);
    imageproc::drawing::draw_filled_rect_mut(&mut c.buf, rect, image::Rgb([color.r, color.g, color.b]))
}

/// Calls `imageproc::drawing::draw_hollow_rect_mut` with the rectangle
/// `Rect::at(x, y).of_size(w, h)`. It panics on an empty rectangle, and
/// otherwise sets every pixel on the four sides of the rectangle that lies
/// on the canvas to the given colour, and no other. The sides are traced
/// in single-precision coordinates, which are exact within `MAX_SIDE` of
/// the origin.
#[verifier::external_body]
fn buffer_outline_rect(c: &mut Canvas, x: i32, y: i32, w: u32, h: u32, color: Rgb)
    requires
        1 <= w,
        1 <= h,
        -MAX_SIDE <= x,
        -MAX_SIDE <= y,
        x + w - 1 <= MAX_SIDE,
        y + h - 1 <= MAX_SIDE,
        canvas_size(*old(c)).0 <= i32::MAX,
        canvas_size(*old(c)).1 <= i32::MAX,
    ensures
        canvas_size(*final(c)) == canvas_size(*old(c)),
        forall|px: int, py: int|
            0 <= px < canvas_size(*old(c)).0 && 0 <= py < canvas_size(*old(c)).1 ==> #[trigger] canvas_pixels(
                *final(c),
            )[(px, py)] == (if on_block_edge(px, py, x as int, y as int, w as int, h as int) {
                color
            } else {
                canvas_pixels(*old(c))[(px, py)]
            }),
{
    let rect = imageproc::rect::Rect::at(x, y).of_size(w, h);
    imageproc::drawing::draw_hollow_rect_mut(&mut c.buf, rect, image::Rgb([color.r, color.g, color.b]))
}

/// Calls `imageproc::drawing::draw_antialiased_line_segment_mut` with
/// `imageproc::pixelops::interpolate` as the blend, on a segment that runs
/// along a row or a column. On such a segment the line has full weight on
/// its own pixels and none beside them: every pixel of the segment that
/// lies on the canvas is set to the given colour, and no other is changed.
#[verifier::external_body]
fn buffer_line(c: &mut Canvas, x0: i32, y0: i32, x1: i32, y1: i32, color: Rgb)
    requires
        x0 == x1 || y0 == y1,
        -MAX_SIDE <= x0 <= MAX_SIDE,
        -MAX_SIDE <= y0 <= MAX_SIDE,
        -MAX_SIDE <= x1 <= MAX_SIDE,
        -MAX_SIDE <= y1 <= MAX_SIDE,
        canvas_size(*old(c)).0 <= i32::MAX,
        canvas_size(*old(c)).1 <= i32::MAX,
    ensures
        canvas_size(*final(c)) == canvas_size(*old(c)),
        forall|px: int, py: int|
            0 <= px < canvas_size(*old(c)).0 && 0 <= py < canvas_size(*old(c)).1 ==> #[trigger] canvas_pixels(
                *final(c),
            )[(px, py)] == (if on_segment(px, py, x0 as int, y0 as int, x1 as int, y1 as int) {
                color
            } else {
                canvas_pixels(*old(c))[(px, py)]
            }),
{
    let ink = image::Rgb([color.r, color.g, color.b]);
    imageproc::drawing::draw_antialiased_line_segment_mut(
        &mut c.buf,
        (x0, y0),
        (x1, y1),
        ink,
        imageproc::pixelops::interpolate,
    )
}

impl Canvas {
    /// The number of columns.
    pub open spec fn spec_width(&self) -> int {
        canvas_size(*self).0
    }

    /// The number of rows.
    pub open spec fn spec_height(&self) -> int {
        canvas_size(*self).1
    }

    /// Whether the canvas has a pixel at column `x` and row `y`.
    pub open spec fn has(&self, x: int, y: int) -> bool {
        0 <= x < self.spec_width() && 0 <= y < self.spec_height()
    }

    /// The pixel at column `x` and row `y`.
    pub open spec fn at(&self, x: int, y: int) -> Rgb {
        canvas_pixels(*self)[(x, y)]
    }

    /// Whether both sides of the canvas are within the limit for drawing.
    pub open spec fn drawable(&self) -> bool {
        self.spec_width() <= MAX_SIDE && self.spec_height() <= MAX_SIDE
    }

    /// Creates a canvas with every pixel set to `color`.
    pub fn filled(width: u32, height: u32, color: Rgb) -> (c: Canvas)
        requires
            3 * width * height <= isize::MAX,
        ensures
            c.spec_width() == width,
            c.spec_height() == height,
            forall|x: int, y: int| c.has(x, y) ==> #[trigger] c.at(x, y) == color,
    {
        buffer_new(width, height, color)
    }

    /// The number of columns.
    pub fn width(&self) -> (w: u32)
        ensures
            w == self.spec_width(),
    {
        buffer_dimensions(self).0
    }

    /// The number of rows.
    pub fn height(&self) -> (h: u32)
        ensures
            h == self.spec_height(),
    {
        buffer_dimensions(self).1
    }

    /// Reads the pixel at column `x` and row `y`, if the canvas has one
    /// there.
    pub fn pixel(&self, x: u32, y: u32) -> (p: Option<Rgb>)
        ensures
            self.has(x as int, y as int) ==> p == Some(self.at(x as int, y as int)),
            !self.has(x as int, y as int) ==> p is None,
    {
        let (w, h) = buffer_dimensions(self);
        if x < w && y < h {
            Some(buffer_get(self, x, y))
        } else {
            None
        }
    }

    /// Sets the pixel at column `x` and row `y`; the canvas is left as it
    /// is where it has no such pixel.
    pub fn set_pixel(&mut self, x: u32, y: u32, color: Rgb)
        ensures
            final(self).spec_width() == old(self).spec_width(),
            final(self).spec_height() == old(self).spec_height(),
            forall|px: int, py: int|
                old(self).has(px, py) ==> #[trigger] final(self).at(px, py) == (if px == x && py == y {
                    color
                } else {
                    old(self).at(px, py)
                }),
    {
        let (w, h) = buffer_dimensions(self);
        if x < w && y < h {
            buffer_put(self, x, y, color);
        }
    }

    /// Draws a straight line along a row or a column, from `(x0, y0)` to
    /// `(x1, y1)`, both included. What lies off the canvas is not drawn.
    pub fn draw_segment(&mut self, x0: i32, y0: i32, x1: i32, y1: i32, color: Rgb)
        requires
            old(self).drawable(),
            x0 == x1 || y0 == y1,
            -MAX_SIDE <= x0 <= MAX_SIDE,
            -MAX_SIDE <= y0 <= MAX_SIDE,
            -MAX_SIDE <= x1 <= MAX_SIDE,
            -MAX_SIDE <= y1 <= MAX_SIDE,
        ensures
            final(self).spec_width() == old(self).spec_width(),
            final(self).spec_height() == old(self).spec_height(),
            forall|px: int, py: int|
                old(self).has(px, py) ==> #[trigger] final(self).at(px, py) == (if on_segment(
                    px,
                    py,
                    x0 as int,
                    y0 as int,
                    x1 as int,
                    y1 as int,
                ) {
                    color
                } else {
                    old(self).at(px, py)
                }),
    {
        buffer_line(self, x0, y0, x1, y1, color);
    }

    /// Draws a block of `w` columns and `h` rows with its top-left corner
    /// at `(x, y)`: filled with `fill`, and its outermost columns and rows
    /// drawn over in `outline`. What lies off the canvas is not drawn, and
    /// a block without columns or rows is not drawn at all.
    pub fn draw_block(&mut self, x: i32, y: i32, w: u32, h: u32, fill: Rgb, outline: Rgb)
        requires
            old(self).drawable(),
        ensures
            final(self).spec_width() == old(self).spec_width(),
            final(self).spec_height() == old(self).spec_height(),
            forall|px: int, py: int|
                old(self).has(px, py) ==> #[trigger] final(self).at(px, py) == (if on_block_edge(
                    px,
                    py,
                    x as int,
                    y as int,
                    w as int,
                    h as int,
                ) {
                    outline
                } else if in_block(px, py, x as int, y as int, w as int, h as int) {
                    fill
                } else {
                    old(self).at(px, py)
                }),
    {
        let (cw, ch) = buffer_dimensions(self);
        if w == 0 || h == 0 || cw == 0 || ch == 0 {
            return ;
        }
        let right: i64 = x as i64 + w as i64 - 1;
        let bottom: i64 = y as i64 + h as i64 - 1;
        if right < 0 || bottom < 0 || x as i64 >= cw as i64 || y as i64 >= ch as i64 {
            return ;
        }
        // The part of the block beyond one pixel off the canvas is cut
        // away: no side that is cut or moved lies on the canvas.
        let left_cut: i32 = if x < -1 { -1 } else { x };
        let top_cut: i32 = if y < -1 { -1 } else { y };
        let right_cut: i64 = if right > cw as i64 { cw as i64 } else { right };
        let bottom_cut: i64 = if bottom > ch as i64 { ch as i64 } else { bottom };
        let w_cut: u32 = (right_cut - left_cut as i64 + 1) as u32;
        let h_cut: u32 = (bottom_cut - top_cut as i64 + 1) as u32;
        let ghost before = *self;
        buffer_fill_rect(self, left_cut, top_cut, w_cut, h_cut, fill);
        let ghost between = *self;
        buffer_outline_rect(self, left_cut, top_cut, w_cut, h_cut, outline);
        assert forall|px: int, py: int| before.has(px, py) implies #[trigger] self.at(px, py) == (if on_block_edge(
            px,
            py,
            x as int,
            y as int,
            w as int,
            h as int,
        ) {
            outline
        } else if in_block(px, py, x as int, y as int, w as int, h as int) {
            fill
        } else {
            before.at(px, py)
        }) by {
            assert(between.has(px, py));
            assert(in_block(px, py, left_cut as int, top_cut as int, w_cut as int, h_cut as int) == in_block(
                px,
                py,
                x as int,
                y as int,
                w as int,
                h as int,
            ));
            assert(on_block_edge(px, py, left_cut as int, top_cut as int, w_cut as int, h_cut as int)
                == on_block_edge(px, py, x as int, y as int, w as int, h as int));
        }
    }
}

} // verus!
