//! The fractal generator: bands of colour from the escape times of several
//! Julia sets, counted on from one seed to the next.
//!
//! The iteration itself is done in floating point by a kernel that the
//! caller passes in: asked with the base magnitude of the axis scales, a
//! seed, and the coordinates of a pixel relative to the seed's start, it
//! reports the seed's escape time there, `COUNT_MAX` at most. This module
//! holds what surrounds it: the draws of the seeds and of the magnitude,
//! the relative coordinates, the counter that runs on across the seeds,
//! the bands, and the painting of the canvas.

use vstd::prelude::*;
use rand::rngs::StdRng;
use crate::canvas::Canvas;
use crate::color::{decode_hex, decoded, Rgb};
use crate::quadrant::{quadrants, quadrants_of, Quad};
use crate::random::{choose_constants, chosen_at, draw_half_open, drawn_from, drawn_inside};

verus! {

/// The highest value of the escape counter.
pub const COUNT_MAX: u8 = 255;

/// How many hundred-thousandths make up the number 1 in a constant.
pub const CONSTANT_UNIT: i32 = 100_000;

/// How many millionths make up the number 1 in a base magnitude.
pub const MAGNITUDE_UNIT: u32 = 1_000_000;

/// The least base magnitude, 2.5, in millionths.
pub const MAGNITUDE_MIN: u32 = 2_500_000;

/// The bound below which every base magnitude lies, 5, in millionths.
pub const MAGNITUDE_END: u32 = 5_000_000;

/// The configuration of the fractal generator.
#[derive(Debug)]
pub struct JuliaConfig {
    pub x: u32,
    pub y: u32,
    pub color1: String,
    pub color2: String,
    pub color3: String,
    pub bg_color: String,
    pub min: u8,
    pub max: u8,
}

/// The fractal generator.
#[derive(Debug)]
pub struct Julia {
    pub config: JuliaConfig,
}

/// One seed: the constant of a Julia set, real and imaginary part in
/// hundred-thousandths, and the pixel that its iteration space starts at.
#[derive(Clone, Copy, Debug, PartialEq, Eq, Structural)]
pub struct FractalSeed {
    pub re: i32,
    pub im: i32,
    pub x: u32,
    pub y: u32,
}

/// The band that an escape count falls into.
#[derive(Clone, Copy, Debug, PartialEq, Eq, Structural)]
pub enum Band {
    Background,
    First,
    Second,
    Third,
}

/// The constants that seeds are chosen from, in hundred-thousandths.
pub open spec fn constants() -> Seq<(i32, i32)> {
    seq![
        (-80000i32, 15600i32),
        (-72690i32, 18890i32),
        (-40000i32, 60000i32),
        (37000i32, 10000i32),
        (35500i32, 35500i32),
        (-25270i32, -67090i32),
        (35680i32, -7694i32),
        (32560i32, 50660i32),
        (-88840i32, -24360i32),
        (-56010i32, 49090i32),
        (-65390i32, 41280i32),
    ]
}

/// The distance from `start` to `current`, or 0 where `current` lies
/// before `start`.
pub open spec fn relative(start: u32, current: u32) -> int {
    if current >= start {
        current - start
    } else {
        0
    }
}

/// The counter after one more seed: it runs on by the seed's escape time
/// and stops at `COUNT_MAX`.
pub open spec fn counted_on(count: int, escape: int) -> int {
    if count + escape >= COUNT_MAX {
        COUNT_MAX as int
    } else {
        count + escape
    }
}

/// The counter after all seeds, in their order, from 0: it is not reset
/// between seeds.
pub open spec fn accumulated(escapes: Seq<u8>) -> int
    decreases escapes.len(),
{
    if escapes.len() == 0 {
        0
    } else {
        counted_on(accumulated(escapes.drop_last()), escapes.last() as int)
    }
}

/// The sum of the escape times.
pub open spec fn total(escapes: Seq<u8>) -> int
    decreases escapes.len(),
{
    if escapes.len() == 0 {
        0
    } else {
        total(escapes.drop_last()) + escapes.last()
    }
}

/// The band of an escape count: below 50 the background, from 50 the
/// first colour, from 120 the second, from 200 the third.
pub open spec fn band_of(count: int) -> Band {
    if count < 50 {
        Band::Background
    } else if count < 120 {
        Band::First
    } else if count < 200 {
        Band::Second
    } else {
        Band::Third
    }
}

/// Counts on from `count` by the escape time of one more seed.
pub fn advance(count: u8, escape: u8) -> (next: u8)
    ensures
        next == counted_on(count as int, escape as int),
        next >= count,
{
    let sum: u16 = count as u16 + escape as u16;
    if sum >= COUNT_MAX as u16 {
        COUNT_MAX
    } else {
        sum as u8
    }
}

/// The band that an escape count falls into.
pub fn band(count: u8) -> (b: Band)
    ensures
        b == band_of(count as int),
{
    if count < 50 {
        Band::Background
    } else if count < 120 {
        Band::First
    } else if count < 200 {
        Band::Second
    } else {
        Band::Third
    }
}

/// Running the counter on across the seeds gives the sum of their escape
/// times, stopped at `COUNT_MAX`.
pub proof fn lemma_accumulated_is_capped_total(escapes: Seq<u8>)
    ensures
        accumulated(escapes) == (if total(escapes) >= COUNT_MAX {
            COUNT_MAX as int
        } else {
            total(escapes)
        }),
        0 <= total(escapes),
    decreases escapes.len(),
{
    if escapes.len() > 0 {
        lemma_accumulated_is_capped_total(escapes.drop_last());
    }
}

/// Every count from 0 to `COUNT_MAX` lies in exactly one of the four
/// bands, which the thresholds 50, 120 and 200 divide.
pub proof fn lemma_bands_partition(count: int)
    requires
        0 <= count <= COUNT_MAX,
    ensures
        (band_of(count) == Band::Background) <==> 0 <= count < 50,
        (band_of(count) == Band::First) <==> 50 <= count < 120,
        (band_of(count) == Band::Second) <==> 120 <= count < 200,
        (band_of(count) == Band::Third) <==> 200 <= count <= COUNT_MAX,
{
}

/// At the pixel where a seed starts, and at every pixel to the left of it
/// or above it, the relative coordinate is 0: the iteration there begins
/// at the low corner of the iteration space.
pub proof fn lemma_relative_at_start(start: u32, current: u32)
    requires
        current <= start,
    ensures
        relative(start, current) == 0,
{
}

/// The constants of the seeds, in their order.
pub open spec fn seed_constants(seeds: Seq<FractalSeed>) -> Seq<(i32, i32)> {
    Seq::new(seeds.len(), |i: int| (seeds[i].re, seeds[i].im))
}

/// Whether `escapes` can be what `kernel` reports, seed by seed, for the
/// pixel `(px, py)`: for each seed one escape time, asked for with the base
/// magnitude of the scales, the seed, and the pixel's coordinates relative
/// to the seed's start.
pub open spec fn reported<K: Fn(u32, FractalSeed, u32, u32) -> u8>(
    kernel: K,
    magnitude: u32,
    seeds: Seq<FractalSeed>,
    px: u32,
    py: u32,
    escapes: Seq<u8>,
) -> bool {
    &&& escapes.len() == seeds.len()
    &&& forall|k: int|
        0 <= k < seeds.len() ==> call_ensures(
            kernel,
            (magnitude, seeds[k], relative(seeds[k].x, px) as u32, relative(seeds[k].y, py) as u32),
            #[trigger] escapes[k],
        )
}

/// Whether `count` is the counter of the pixel `(px, py)` after all seeds,
/// for escape times that `kernel` can report.
pub open spec fn counted<K: Fn(u32, FractalSeed, u32, u32) -> u8>(
    kernel: K,
    magnitude: u32,
    seeds: Seq<FractalSeed>,
    px: u32,
    py: u32,
    count: u8,
) -> bool {
    exists|escapes: Seq<u8>| #[trigger] reported(kernel, magnitude, seeds, px, py, escapes) && count == accumulated(escapes)
}

impl Julia {
    /// Whether a canvas of the configured size can be created.
    pub open spec fn fits(&self) -> bool {
        3 * self.config.x * self.config.y <= isize::MAX
    }

    /// The colour of a band.
    pub open spec fn band_color(&self, b: Band) -> Rgb {
        match b {
            Band::Background => decoded(self.config.bg_color@),
            Band::First => decoded(self.config.color1@),
            Band::Second => decoded(self.config.color2@),
            Band::Third => decoded(self.config.color3@),
        }
    }

    /// The constants that seeds are chosen from, in hundred-thousandths.
    pub fn get_julia_set_numbers(&self) -> (table: [(i32, i32); 11])
        ensures
            table@ == constants(),
    {
        let table: [(i32, i32); 11] = [
            (-80000, 15600),
            (-72690, 18890),
            (-40000, 60000),
            (37000, 10000),
            (35500, 35500),
            (-25270, -67090),
            (35680, -7694),
            (32560, 50660),
            (-88840, -24360),
            (-56010, 49090),
            (-65390, 41280),
        ];
        assert(table@ =~= constants());
        table
    }

    /// The four quadrants of the configured canvas.
    pub fn generate_quadrants(&self) -> (quads: [Quad; 4])
        ensures
            quads@ == quadrants_of(self.config.x, self.config.y),
    {
        quadrants(self.config.x, self.config.y)
    }

    /// The coordinates of the pixel `(currentx, currenty)` relative to the
    /// start `(x, y)` of a seed, each 0 where the pixel lies before the
    /// start.
    pub fn calculate_coordinates(&self, x: u32, y: u32, currentx: u32, currenty: u32) -> (rel: (u32, u32))
        ensures
            rel.0 == relative(x, currentx),
            rel.1 == relative(y, currenty),
    {
        let relativex: u32 = if currentx >= x {
            currentx - x
        } else {
            0
        };
        let relativey: u32 = if currenty >= y {
            currenty - y
        } else {
            0
        };
        (relativex, relativey)
    }

    /// The three foreground colours and the background colour.
    pub fn get_color_rgbs(&self) -> (colors: ([Rgb; 3], Rgb))
        ensures
            colors.0@ == seq![
                self.band_color(Band::First),
                self.band_color(Band::Second),
                self.band_color(Band::Third),
            ],
            colors.1 == self.band_color(Band::Background),
    {
        let color1 = decode_hex(self.config.color1.as_str());
        let color2 = decode_hex(self.config.color2.as_str());
        let color3 = decode_hex(self.config.color3.as_str());
        let bg_color = decode_hex(self.config.bg_color.as_str());
        let colors: [Rgb; 3] = [color1, color2, color3];
        assert(colors@ =~= seq![color1, color2, color3]);
        (colors, bg_color)
    }

    /// Draws `size` start coordinates, one inside each rectangle in turn,
    /// beginning again with the first rectangle after the last.
    pub fn generate_xy_start_pos(&self, size: u8, quads: &[Quad], rng: &mut StdRng) -> (coords: Vec<(u32, u32)>)
        requires
            quads@.len() > 0,
        ensures
            coords@.len() == size,
            forall|i: int| 0 <= i < size ==> drawn_inside(#[trigger] coords@[i], quads@[i % (quads@.len() as int)]),
    {
        let mut coords: Vec<(u32, u32)> = Vec::new();
        let mut count: usize = 0;
        let mut i: u8 = 0;
        while i < size
            invariant
                i <= size,
                quads@.len() > 0,
                coords@.len() == i,
                count == i as int % (quads@.len() as int),
                forall|k: int| 0 <= k < i ==> drawn_inside(#[trigger] coords@[k], quads@[k % (quads@.len() as int)]),
            decreases size - i,
        {
            let (x1, y1, x2, y2) = quads[count];
            let x = draw_half_open(rng, x1, x2);
            let y = draw_half_open(rng, y1, y2);
            coords.push((x, y));
            proof {
                let n = quads@.len() as int;
                if count >= n - 1 {
                    assert((i as int + 1) % n == 0) by (nonlinear_arith)
                        requires
                            i as int % n == n - 1,
                            n > 0,
                    ;
                } else {
                    assert((i as int + 1) % n == count + 1) by (nonlinear_arith)
                        requires
                            i as int % n == count,
                            count + 1 < n,
                            n > 0,
                            i >= 0,
                    ;
                }
            }
            if count >= quads.len() - 1 {
                count = 0;
            } else {
                count += 1;
            }
            i += 1;
        }
        coords
    }

    /// Whether `seeds` can come of `draw_seeds`: as many as a draw from the
    /// half-open range from `min` up to `max` asks for, though no more
    /// than there are constants; their constants from different places of
    /// the table; and the start of each inside the quadrant that is its
    /// turn, the quadrants taken in order and again from the first.
    pub open spec fn seeded(&self, seeds: Seq<FractalSeed>) -> bool {
        &&& exists|n: int|
            drawn_from(n, self.config.min as int, self.config.max as int) && seeds.len() == (if n
                <= constants().len() {
                n
            } else {
                constants().len() as int
            })
        &&& exists|picks: Seq<int>| #[trigger] chosen_at(seed_constants(seeds), constants(), picks)
        &&& forall|i: int|
            0 <= i < seeds.len() ==> drawn_inside(
                (#[trigger] seeds[i].x, seeds[i].y),
                quadrants_of(self.config.x, self.config.y)[i % 4],
            )
    }

    /// No two seeds of one run have the same constant.
    pub proof fn lemma_seeded_constants_differ(&self, seeds: Seq<FractalSeed>, i: int, j: int)
        requires
            self.seeded(seeds),
            0 <= i < j < seeds.len(),
        ensures
            (seeds[i].re, seeds[i].im) != (seeds[j].re, seeds[j].im),
    {
        let picks = choose|picks: Seq<int>| #[trigger] chosen_at(seed_constants(seeds), constants(), picks);
        let consts = seed_constants(seeds);
        assert(consts[i] == constants()[picks[i]]);
        assert(consts[j] == constants()[picks[j]]);
        assert(picks[i] != picks[j]);
        assert(0 <= picks[i] < 11 && 0 <= picks[j] < 11);
        assert(forall|a: int, b: int| 0 <= a < b < 11 ==> constants()[a] != constants()[b]);
    }

    /// Draws the seeds of one run: first their number, then their
    /// constants, then their start coordinates.
    pub fn draw_seeds(&self, rng: &mut StdRng) -> (seeds: Vec<FractalSeed>)
        ensures
            self.seeded(seeds@),
    {
        let wanted: u32 = draw_half_open(rng, self.config.min as u32, self.config.max as u32);
        let table = self.get_julia_set_numbers();
        let chosen = choose_constants(rng, table.as_slice(), wanted as usize);
        let quads = self.generate_quadrants();
        let coords = self.generate_xy_start_pos(chosen.len() as u8, quads.as_slice(), rng);
        let mut seeds: Vec<FractalSeed> = Vec::new();
        let mut i: usize = 0;
        while i < chosen.len()
            invariant
                i <= chosen@.len(),
                chosen@.len() == coords@.len(),
                seeds@.len() == i,
                forall|k: int|
                    0 <= k < i ==> #[trigger] seeds@[k] == (FractalSeed {
                        re: chosen@[k].0,
                        im: chosen@[k].1,
                        x: coords@[k].0,
                        y: coords@[k].1,
                    }),
            decreases chosen@.len() - i,
        {
            seeds.push(FractalSeed { re: chosen[i].0, im: chosen[i].1, x: coords[i].0, y: coords[i].1 });
            i += 1;
        }
        proof {
            let picks = choose|picks: Seq<int>| chosen_at(chosen@, table@, picks);
            let consts = seed_constants(seeds@);
            assert(consts =~= chosen@);
            assert(chosen_at(consts, constants(), picks));
            assert(drawn_from(wanted as int, self.config.min as int, self.config.max as int));
            assert forall|i: int| 0 <= i < seeds@.len() implies drawn_inside(
                (#[trigger] seeds@[i].x, seeds@[i].y),
                quadrants_of(self.config.x, self.config.y)[i % 4],
            ) by {
                assert(drawn_inside(coords@[i], quads@[i % 4]));
            }
        }
        seeds
    }

    /// Paints the canvas from the final escape counts of its pixels, given
    /// row by row: each pixel gets the colour of the band of its count.
    pub fn paint(&self, counts: &Vec<u8>) -> (canvas: Canvas)
        requires
            self.fits(),
            counts@.len() == self.config.x * self.config.y,
        ensures
            canvas.spec_width() == self.config.x,
            canvas.spec_height() == self.config.y,
            forall|px: int, py: int|
                canvas.has(px, py) ==> #[trigger] canvas.at(px, py) == self.band_color(
                    band_of(counts@[py * self.config.x + px] as int),
                ),
    {
        let w: u32 = self.config.x;
        let h: u32 = self.config.y;
        let (colors, bg_color) = self.get_color_rgbs();
        let mut canvas = Canvas::filled(w, h, bg_color);
        let len: usize = counts.len();
        let mut idx: usize = 0;
        let mut py: u32 = 0;
        while py < h
            invariant
                py <= h,
                w == self.config.x,
                h == self.config.y,
                len == counts@.len() == w * h,
                idx == py * w,
                canvas.spec_width() == w,
                canvas.spec_height() == h,
                colors@ == seq![
                    self.band_color(Band::First),
                    self.band_color(Band::Second),
                    self.band_color(Band::Third),
                ],
                bg_color == self.band_color(Band::Background),
                forall|qx: int, qy: int|
                    0 <= qx < w && 0 <= qy < py ==> #[trigger] canvas.at(qx, qy) == self.band_color(
                        band_of(counts@[qy * w + qx] as int),
                    ),
            decreases h - py,
        {
            let mut px: u32 = 0;
            while px < w
                invariant
                    px <= w,
                    py < h,
                    w == self.config.x,
                    h == self.config.y,
                    len == counts@.len() == w * h,
                    idx == py * w + px,
                    canvas.spec_width() == w,
                    canvas.spec_height() == h,
                    colors@ == seq![
                        self.band_color(Band::First),
                        self.band_color(Band::Second),
                        self.band_color(Band::Third),
                    ],
                    bg_color == self.band_color(Band::Background),
                    forall|qx: int, qy: int|
                        0 <= qx < w && (0 <= qy < py || (qy == py && qx < px)) ==> #[trigger] canvas.at(qx, qy)
                            == self.band_color(band_of(counts@[qy * w + qx] as int)),
                decreases w - px,
            {
                assert(py * w + px < w * h) by (nonlinear_arith)
                    requires
                        0 <= px < w,
                        0 <= py < h,
                ;
                let color = match band(counts[idx]) {
                    Band::Background => bg_color,
                    Band::First => colors[0],
                    Band::Second => colors[1],
                    Band::Third => colors[2],
                };
                canvas.set_pixel(px, py, color);
                idx += 1;
                px += 1;
            }
            assert((py + 1) * w == py * w + w) by (nonlinear_arith);
            py += 1;
        }
        canvas
    }

    /// Whether `canvas` shows the fractal of the seeds: it has the
    /// configured size, and each pixel has the colour of the band of its
    /// counter after all seeds, for escape times that `kernel` can report.
    pub open spec fn rendered<K: Fn(u32, FractalSeed, u32, u32) -> u8>(
        &self,
        canvas: Canvas,
        seeds: Seq<FractalSeed>,
        magnitude: u32,
        kernel: K,
    ) -> bool {
        &&& canvas.spec_width() == self.config.x
        &&& canvas.spec_height() == self.config.y
        &&& forall|px: u32, py: u32|
            canvas.has(px as int, py as int) ==> exists|count: u8|
                #[trigger] counted(kernel, magnitude, seeds, px, py, count) && canvas.at(px as int, py as int)
                    == self.band_color(band_of(count as int))
    }

    /// The counter of one pixel after all seeds: `kernel` is asked for the
    /// escape time of each seed in turn, and the counter runs on from one
    /// seed to the next.
    pub fn count_at<K: Fn(u32, FractalSeed, u32, u32) -> u8>(&self, seeds: &Vec<FractalSeed>, magnitude: u32, px: u32, py: u32, kernel: &K) -> (count: u8)
        requires
            forall|m: u32, seed: FractalSeed, rx: u32, ry: u32| call_requires(*kernel, (m, seed, rx, ry)),
        ensures
            counted(*kernel, magnitude, seeds@, px, py, count),
    {
        let mut count: u8 = 0;
        let ghost mut escapes: Seq<u8> = Seq::empty();
        let mut k: usize = 0;
        while k < seeds.len()
            invariant
                k <= seeds@.len(),
                forall|m: u32, seed: FractalSeed, rx: u32, ry: u32| call_requires(*kernel, (m, seed, rx, ry)),
                escapes.len() == k,
                reported(*kernel, magnitude, seeds@.take(k as int), px, py, escapes),
                count == accumulated(escapes),
            decreases seeds@.len() - k,
        {
            let seed = seeds[k];
            let (rx, ry) = self.calculate_coordinates(seed.x, seed.y, px, py);
            let escape = kernel(magnitude, seed, rx, ry);
            count = advance(count, escape);
            proof {
                let longer = escapes.push(escape);
                assert(longer.drop_last() =~= escapes);
                assert forall|j: int| 0 <= j < k + 1 implies call_ensures(
                    *kernel,
                    (
                        magnitude,
                        seeds@.take(k + 1)[j],
                        relative(seeds@.take(k + 1)[j].x, px) as u32,
                        relative(seeds@.take(k + 1)[j].y, py) as u32,
                    ),
                    #[trigger] longer[j],
                ) by {
                    if j < k {
                        assert(seeds@.take(k as int)[j] == seeds@.take(k + 1)[j]);
                        assert(longer[j] == escapes[j]);
                    }
                }
                escapes = longer;
            }
            k += 1;
        }
        assert(seeds@.take(seeds@.len() as int) =~= seeds@);
        count
    }

    /// Renders the fractal for the given seeds: each pixel gets the colour
    /// of the band of its counter after all seeds, with the escape times
    /// that `kernel` reports.
    pub fn render<K: Fn(u32, FractalSeed, u32, u32) -> u8>(&self, seeds: &Vec<FractalSeed>, magnitude: u32, kernel: &K) -> (canvas: Canvas)
        requires
            self.fits(),
            forall|m: u32, seed: FractalSeed, rx: u32, ry: u32| call_requires(*kernel, (m, seed, rx, ry)),
        ensures
            self.rendered(canvas, seeds@, magnitude, *kernel),
    {
        let w: u32 = self.config.x;
        let h: u32 = self.config.y;
        let mut counts: Vec<u8> = Vec::new();
        let mut py: u32 = 0;
        while py < h
            invariant
                py <= h,
                w == self.config.x,
                h == self.config.y,
                self.fits(),
                forall|m: u32, seed: FractalSeed, rx: u32, ry: u32| call_requires(*kernel, (m, seed, rx, ry)),
                counts@.len() == py * w,
                forall|qx: u32, qy: u32|
                    qx < w && qy < py ==> #[trigger] counted(*kernel, magnitude, seeds@, qx, qy, counts@[qy * w + qx]),
            decreases h - py,
        {
            let mut px: u32 = 0;
            while px < w
                invariant
                    px <= w,
                    py < h,
                    w == self.config.x,
                    h == self.config.y,
                    self.fits(),
                    forall|m: u32, seed: FractalSeed, rx: u32, ry: u32| call_requires(*kernel, (m, seed, rx, ry)),
                    counts@.len() == py * w + px,
                    forall|qx: u32, qy: u32|
                        qx < w && (qy < py || (qy == py && qx < px)) ==> #[trigger] counted(
                            *kernel,
                            magnitude,
                            seeds@,
                            qx,
                            qy,
                            counts@[qy * w + qx],
                        ),
                decreases w - px,
            {
                let count = self.count_at(seeds, magnitude, px, py, kernel);
                let ghost before = counts@;
                counts.push(count);
                assert forall|qx: u32, qy: u32|
                    qx < w && (qy < py || (qy == py && qx < px + 1)) implies #[trigger] counted(
                    *kernel,
                    magnitude,
                    seeds@,
                    qx,
                    qy,
                    counts@[qy * w + qx],
                ) by {
                    if qy < py {
                        assert(qy * w + qx < py * w) by (nonlinear_arith)
                            requires
                                qy < py,
                                qx < w,
                        ;
                        assert(counts@[qy * w + qx] == before[qy * w + qx]);
                    } else if qx < px {
                        assert(counts@[qy * w + qx] == before[qy * w + qx]);
                    }
                }
                px += 1;
            }
            assert((py + 1) * w == py * w + w) by (nonlinear_arith);
            py += 1;
        }
        assert(h * w == w * h) by (nonlinear_arith);
        let canvas = self.paint(&counts);
        assert forall|px: u32, py: u32| canvas.has(px as int, py as int) implies exists|count: u8|
            #[trigger] counted(*kernel, magnitude, seeds@, px, py, count) && canvas.at(px as int, py as int)
                == self.band_color(band_of(count as int)) by {
            let count = counts@[py * w + px];
            assert(counted(*kernel, magnitude, seeds@, px, py, count));
        }
        canvas
    }

    /// Generates the pattern: the seeds are drawn, then the base magnitude
    /// of the axis scales, from 2.5 up to 5, and the fractal of the seeds
    /// is rendered with the escape times that `kernel` reports.
    pub fn generate<K: Fn(u32, FractalSeed, u32, u32) -> u8>(&self, rng: &mut StdRng, kernel: &K) -> (canvas: Canvas)
        requires
            self.fits(),
            forall|m: u32, seed: FractalSeed, rx: u32, ry: u32| call_requires(*kernel, (m, seed, rx, ry)),
        ensures
            canvas.spec_width() == self.config.x,
            canvas.spec_height() == self.config.y,
            exists|seeds: Seq<FractalSeed>, magnitude: u32|
                {
                    &&& self.seeded(seeds)
                    &&& MAGNITUDE_MIN <= magnitude < MAGNITUDE_END
                    &&& #[trigger] self.rendered(canvas, seeds, magnitude, *kernel)
                },
    {
        let seeds = self.draw_seeds(rng);
        let magnitude = draw_half_open(rng, MAGNITUDE_MIN, MAGNITUDE_END);
        let canvas = self.render(&seeds, magnitude, kernel);
        assert(self.rendered(canvas, seeds@, magnitude, *kernel));
        canvas
    }
}

} // verus!
