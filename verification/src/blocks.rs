//! The turtle generator: a branching path of line segments, each with a
//! coloured block at its start, drawn from a string that two rounds of
//! random rewriting produce.

use vstd::prelude::*;
use rand::rngs::StdRng;
use crate::canvas::{Canvas, MAX_SIDE};
use crate::color::{black, decode_hex, decoded, Rgb};
use crate::lsystem::{generate_rule, is_branching_of, is_symbol_string, rewrite, rewritten, rule_views, Rule};
use crate::quadrant::{first_match, locate, opposite, opposite_of, quadrants, quadrants_of, Quad};
use crate::random::{choose_color, draw_closed, draw_half_open, drawn_inside};
use crate::scale::{scale_lower, scale_upper, scaled_size, whole_hint, HINT_UNIT};
use crate::turtle::{stamp, stamped, TurtleState};

verus! {

/// The configuration of the turtle generator. `density_milli` is the
/// density hint in thousandths.
#[derive(Debug)]
pub struct BlocksConfig {
    pub x: u32,
    pub y: u32,
    pub color1: String,
    pub color2: String,
    pub color3: String,
    pub bg_color: String,
    pub block_size: u8,
    pub line_size: u8,
    pub density_milli: u32,
}

/// The turtle generator.
#[derive(Debug)]
pub struct Blocks {
    pub config: BlocksConfig,
}

/// The string that rewriting starts from.
pub open spec fn start_string() -> Seq<char> {
    seq!['+', 'F', 'A', '+']
}

/// Whether `rule` can be the replacement string of a branching rule whose
/// length is drawn from the closed range from `min` to `max`.
pub open spec fn is_generated_rule(rule: Seq<char>, min: u32, max: u32) -> bool {
    exists|base: Seq<char>, positions: Seq<usize>|
        is_symbol_string(base, min, max) && is_branching_of(rule, base, positions)
}

/// The string that two rounds produce from `+FA+`, with `first` the
/// replacement of the first round's rule for `'F'` and `second` that of
/// the second round's: each round applies all rules made so far, once.
pub open spec fn production_of(first: Seq<char>, second: Seq<char>) -> Seq<char> {
    rewritten(rewritten(start_string(), seq![('F', first)]), seq![('F', first), ('F', second)])
}

/// The rectangle that the turtle jumps into from `(x, y)`: the quadrant
/// diagonally opposite to the one it is in, or the whole canvas where it
/// is in none.
pub open spec fn jump_target(w: u32, h: u32, x: int, y: int) -> Quad {
    match opposite_of(first_match(quadrants_of(w, h), x, y)) {
        Some(o) => quadrants_of(w, h)[o],
        None => (0u32, 0u32, w, h),
    }
}

/// The turtle, the states saved by `'['`, oldest first, and the canvas.
pub type WalkState = (TurtleState, Seq<TurtleState>, Canvas);

impl Blocks {
    /// Whether `p` is a colour that the generator paints with: the
    /// background colour, one of the three foreground colours, or the
    /// black of lines and outlines.
    pub open spec fn paints(&self, p: Rgb) -> bool {
        ||| p == black()
        ||| p == decoded(self.config.bg_color@)
        ||| p == decoded(self.config.color1@)
        ||| p == decoded(self.config.color2@)
        ||| p == decoded(self.config.color3@)
    }

    /// Whether every pixel of the canvas has a colour that the generator
    /// paints with.
    pub open spec fn painted(&self, canvas: Canvas) -> bool {
        forall|x: int, y: int| canvas.has(x, y) ==> self.paints(#[trigger] canvas.at(x, y))
    }

    /// Whether a canvas of the configured size can be created and drawn
    /// on.
    pub open spec fn fits(&self) -> bool {
        &&& self.config.x <= MAX_SIDE
        &&& self.config.y <= MAX_SIDE
        &&& 3 * self.config.x * self.config.y <= isize::MAX
    }

    /// The four quadrants of the configured canvas.
    pub fn generate_quadrants(&self) -> (quads: [Quad; 4])
        ensures
            quads@ == quadrants_of(self.config.x, self.config.y),
    {
        quadrants(self.config.x, self.config.y)
    }

    /// The range of magnitudes for a hint on the configured canvas.
    pub fn get_scaled_size(&self, hint_milli: u64) -> (range: (u32, u32))
        ensures
            range.0 == scale_lower(self.config.x, self.config.y, hint_milli),
            range.1 == scale_upper(self.config.x, self.config.y, hint_milli),
            range.0 <= range.1,
    {
        scaled_size(self.config.x, self.config.y, hint_milli)
    }

    /// The three foreground colours and the background colour.
    pub fn get_color_rgbs(&self) -> (colors: ([Rgb; 3], Rgb))
        ensures
            colors.0@ == seq![
                decoded(self.config.color1@),
                decoded(self.config.color2@),
                decoded(self.config.color3@),
            ],
            colors.1 == decoded(self.config.bg_color@),
    {
        let color1 = decode_hex(self.config.color1.as_str());
        let color2 = decode_hex(self.config.color2.as_str());
        let color3 = decode_hex(self.config.color3.as_str());
        let bg_color = decode_hex(self.config.bg_color.as_str());
        let colors: [Rgb; 3] = [color1, color2, color3];
        assert(colors@ =~= seq![color1, color2, color3]);
        (colors, bg_color)
    }

    /// The rectangle that the turtle jumps into from `(x, y)`.
    pub fn jump_rect(&self, x: i32, y: i32) -> (target: Quad)
        ensures
            target == jump_target(self.config.x, self.config.y, x as int, y as int),
            target.0 <= self.config.x && target.2 <= self.config.x,
            target.1 <= self.config.y && target.3 <= self.config.y,
    {
        let quads = self.generate_quadrants();
        let idx = locate(x as i64, y as i64, quads.as_slice());
        match opposite(idx) {
            Some(o) => quads[o],
            None => (0, 0, self.config.x, self.config.y),
        }
    }

    /// Whether `c` is one of the three foreground colours.
    pub open spec fn is_fill(&self, c: Rgb) -> bool {
        ||| c == decoded(self.config.color1@)
        ||| c == decoded(self.config.color2@)
        ||| c == decoded(self.config.color3@)
    }

    /// Whether `v` lies in the range derived from a hint on the configured
    /// canvas.
    pub open spec fn in_scale(&self, v: int, hint_milli: int) -> bool {
        scale_lower(self.config.x, self.config.y, hint_milli as u64) <= v <= scale_upper(
            self.config.x,
            self.config.y,
            hint_milli as u64,
        )
    }

    /// Whether `production` can come of `produce`: two rounds of rewriting
    /// from `+FA+`, each with a new branching rule for `'F'` whose length
    /// is drawn from the range derived from the density hint.
    pub open spec fn produced(&self, production: Seq<char>) -> bool {
        exists|first: Seq<char>, second: Seq<char>|
            {
                &&& is_generated_rule(
                    first,
                    scale_lower(self.config.x, self.config.y, self.config.density_milli as u64) as u32,
                    scale_upper(self.config.x, self.config.y, self.config.density_milli as u64) as u32,
                )
                &&& is_generated_rule(
                    second,
                    scale_lower(self.config.x, self.config.y, self.config.density_milli as u64) as u32,
                    scale_upper(self.config.x, self.config.y, self.config.density_milli as u64) as u32,
                )
                &&& production == #[trigger] production_of(first, second)
            }
    }

    /// Whether the turtle in `state` can get to `next`, and the canvas
    /// from `before` to `after`, by one drawing move: the turtle moves by
    /// a step from the range derived from the line size hint and its mark
    /// is drawn, with one of the foreground colours as the fill and both
    /// sides of the block in the range derived from the block size hint.
    pub open spec fn forward_drawn(&self, before: Canvas, after: Canvas, state: TurtleState, next: TurtleState) -> bool {
        exists|step: int, fill: Rgb, w: int, h: int|
            {
                &&& self.in_scale(step, self.config.line_size * HINT_UNIT)
                &&& self.is_fill(fill)
                &&& self.in_scale(w, self.config.block_size * HINT_UNIT)
                &&& self.in_scale(h, self.config.block_size * HINT_UNIT)
                &&& next == state.moved(step)
                &&& #[trigger] stamped(before, after, state, step, w, h, fill)
            }
    }

    /// Whether the turtle can be in `after` once it has jumped from
    /// `before`: at a point drawn inside the rectangle that it jumps into,
    /// with its heading kept.
    pub open spec fn jumped(&self, before: TurtleState, after: TurtleState) -> bool {
        &&& after.heading == before.heading
        &&& after.x >= 0
        &&& after.y >= 0
        &&& drawn_inside(
            (after.x as u32, after.y as u32),
            jump_target(self.config.x, self.config.y, before.x as int, before.y as int),
        )
    }

    /// Whether `after` can follow `before` when the turtle reads `symbol`:
    /// `'F'` draws and moves, `'+'` and `'-'` turn by a quarter,
    /// `'['` saves the turtle and `']'` returns to the turtle saved last,
    /// if any is saved, `'A'` jumps, and any other character changes
    /// nothing.
    pub open spec fn follows(&self, symbol: char, before: WalkState, after: WalkState) -> bool {
        if symbol == 'F' {
            &&& after.1 == before.1
            &&& self.forward_drawn(before.2, after.2, before.0, after.0)
        } else if symbol == '+' {
            after == (before.0.turned_left(), before.1, before.2)
        } else if symbol == '-' {
            after == (before.0.turned_right(), before.1, before.2)
        } else if symbol == '[' {
            after == (before.0, before.1.push(before.0), before.2)
        } else if symbol == ']' {
            if before.1.len() > 0 {
                after == (before.1.last(), before.1.drop_last(), before.2)
            } else {
                after == before
            }
        } else if symbol == 'A' {
            &&& self.jumped(before.0, after.0)
            &&& after.1 == before.1
            &&& after.2 == before.2
        } else {
            after == before
        }
    }

    /// Whether `trace` lists the states of a walk over `production` from
    /// the canvas `start` to the canvas `end`: it begins with the turtle
    /// at the centre, heading 0, and nothing saved, and each state follows
    /// the one before it by the next character.
    pub open spec fn traces(&self, trace: Seq<WalkState>, production: Seq<char>, start: Canvas, end: Canvas) -> bool {
        &&& trace.len() == production.len() + 1
        &&& trace[0] == (
            TurtleState { x: (self.config.x / 2) as i32, y: (self.config.y / 2) as i32, heading: 0 },
            Seq::<TurtleState>::empty(),
            start,
        )
        &&& trace.last().2 == end
        &&& forall|i: int|
            0 <= i < production.len() ==> self.follows(#[trigger] production[i], trace[i], trace[i + 1])
    }

    /// Whether a walk over `production` can lead from the canvas `start`
    /// to the canvas `end`.
    pub open spec fn walked(&self, production: Seq<char>, start: Canvas, end: Canvas) -> bool {
        exists|trace: Seq<WalkState>| #[trigger] self.traces(trace, production, start, end)
    }

    /// Whether the canvas has the configured size and the background
    /// colour on every pixel.
    pub open spec fn blank(&self, canvas: Canvas) -> bool {
        &&& canvas.spec_width() == self.config.x
        &&& canvas.spec_height() == self.config.y
        &&& forall|x: int, y: int| canvas.has(x, y) ==> #[trigger] canvas.at(x, y) == decoded(self.config.bg_color@)
    }

    /// Whether `canvas` can come of `generate`: of a walk over a produced
    /// string, from a blank canvas.
    pub open spec fn generated(&self, canvas: Canvas) -> bool {
        exists|production: Seq<char>, start: Canvas|
            {
                &&& self.produced(production)
                &&& self.blank(start)
                &&& #[trigger] self.walked(production, start, canvas)
            }
    }

    /// Along a walk the canvas keeps its size, and if it began with no
    /// colours but those that the generator paints with, it holds no other
    /// at any state of the walk.
    pub proof fn lemma_walk_keeps_palette(
        &self,
        trace: Seq<WalkState>,
        production: Seq<char>,
        start: Canvas,
        end: Canvas,
        i: int,
    )
        requires
            self.traces(trace, production, start, end),
            self.painted(start),
            0 <= i <= production.len(),
        ensures
            self.painted(trace[i].2),
            trace[i].2.spec_width() == start.spec_width(),
            trace[i].2.spec_height() == start.spec_height(),
        decreases i,
    {
        if i > 0 {
            self.lemma_walk_keeps_palette(trace, production, start, end, i - 1);
            let before = trace[i - 1];
            let after = trace[i];
            assert(self.follows(production[i - 1], before, after));
            if production[i - 1] == 'F' {
                let (step, fill, w, h) = choose|step: int, fill: Rgb, w: int, h: int|
                    {
                        &&& self.in_scale(step, self.config.line_size * HINT_UNIT)
                        &&& self.is_fill(fill)
                        &&& self.in_scale(w, self.config.block_size * HINT_UNIT)
                        &&& self.in_scale(h, self.config.block_size * HINT_UNIT)
                        &&& after.0 == before.0.moved(step)
                        &&& #[trigger] stamped(before.2, after.2, before.0, step, w, h, fill)
                    };
                assert forall|x: int, y: int| after.2.has(x, y) implies self.paints(#[trigger] after.2.at(x, y)) by {
                    assert(before.2.has(x, y));
                    assert(self.paints(before.2.at(x, y)));
                }
            }
        }
    }

    /// Whatever is drawn at random, a generated canvas has the configured
    /// size and holds no colours but the background colour, the three
    /// foreground colours and black.
    pub proof fn lemma_generated_is_painted(&self, canvas: Canvas)
        requires
            self.generated(canvas),
        ensures
            canvas.spec_width() == self.config.x,
            canvas.spec_height() == self.config.y,
            self.painted(canvas),
    {
        let (production, start) = choose|production: Seq<char>, start: Canvas|
            {
                &&& self.produced(production)
                &&& self.blank(start)
                &&& #[trigger] self.walked(production, start, canvas)
            };
        let trace = choose|trace: Seq<WalkState>| #[trigger] self.traces(trace, production, start, canvas);
        self.lemma_walk_keeps_palette(trace, production, start, canvas, production.len() as int);
    }

    /// Produces the string that is drawn: twice a new rule for `'F'` is
    /// generated, with branching, and all rules made so far are applied to
    /// the string, which starts as `+FA+`.
    pub fn produce(&self, rng: &mut StdRng) -> (production: Vec<char>)
        ensures
            self.produced(production@),
    {
        let (lower, upper) = self.get_scaled_size(self.config.density_milli as u64);
        let mut rules: Vec<Rule> = Vec::new();
        let start: Vec<char> = vec!['+', 'F', 'A', '+'];
        assert(start@ =~= start_string());

        let first = generate_rule(lower, upper, true, rng);
        let ghost first_view = first@;
        rules.push(Rule { symbol: 'F', replacement: first });
        assert(rule_views(rules@) =~= seq![('F', first_view)]);
        let once = rewrite(&start, &rules);

        let second = generate_rule(lower, upper, true, rng);
        let ghost second_view = second@;
        rules.push(Rule { symbol: 'F', replacement: second });
        assert(rule_views(rules@) =~= seq![('F', first_view), ('F', second_view)]);
        let twice = rewrite(&once, &rules);
        assert(is_generated_rule(first_view, lower, upper));
        assert(is_generated_rule(second_view, lower, upper));
        assert(twice@ == production_of(first_view, second_view));
        twice
    }

    /// Draws one line and block: the step, the fill colour and the
    /// block's two sides are drawn at random, in that order.
    fn draw_forward(&self, canvas: &mut Canvas, state: TurtleState, colors: &[Rgb; 3], rng: &mut StdRng) -> (next: TurtleState)
        requires
            old(canvas).drawable(),
            state.wf(),
            colors@ == seq![
                decoded(self.config.color1@),
                decoded(self.config.color2@),
                decoded(self.config.color3@),
            ],
        ensures
            next.wf(),
            self.forward_drawn(*old(canvas), *final(canvas), state, next),
    {
        let (step_lower, step_upper) = self.get_scaled_size(whole_hint(self.config.line_size));
        let step = draw_closed(rng, step_lower, step_upper);
        let fill = match choose_color(rng, colors.as_slice()) {
            Some(c) => c,
            None => Rgb { r: 255, g: 128, b: 30 },
        };
        assert(self.is_fill(fill)) by {
            let k = choose|k: int| 0 <= k < colors@.len() && colors@[k] == fill;
            assert(0 <= k < 3);
        }
        let (lower, upper) = self.get_scaled_size(whole_hint(self.config.block_size));
        let w = draw_closed(rng, lower, upper);
        let h = draw_closed(rng, lower, upper);
        let ghost before = *canvas;
        let next = stamp(canvas, state, step, w, h, fill);
        assert(stamped(before, *canvas, state, step as int, w as int, h as int, fill));
        next
    }

    /// Puts the turtle at a random point of the rectangle that it jumps
    /// into from where it is.
    fn jump(&self, state: TurtleState, rng: &mut StdRng) -> (next: TurtleState)
        requires
            self.fits(),
            state.wf(),
        ensures
            next.wf(),
            self.jumped(state, next),
    {
        let target = self.jump_rect(state.x, state.y);
        let x = draw_half_open(rng, target.0, target.2);
        let y = draw_half_open(rng, target.1, target.3);
        state.moved_to(x, y)
    }

    /// Walks the turtle over the canvas as the string directs, from the
    /// centre and heading 0.
    pub fn walk(&self, production: &Vec<char>, canvas: &mut Canvas, rng: &mut StdRng)
        requires
            self.fits(),
            old(canvas).spec_width() == self.config.x,
            old(canvas).spec_height() == self.config.y,
        ensures
            self.walked(production@, *old(canvas), *final(canvas)),
            final(canvas).spec_width() == self.config.x,
            final(canvas).spec_height() == self.config.y,
    {
        let (colors, _) = self.get_color_rgbs();
        let mut state = TurtleState::centered(self.config.x, self.config.y);
        let mut saved: Vec<TurtleState> = Vec::new();
        let ghost mut trace: Seq<WalkState> = seq![(state, saved@, *canvas)];
        let mut i: usize = 0;
        while i < production.len()
            invariant
                i <= production@.len(),
                self.fits(),
                canvas.spec_width() == self.config.x,
                canvas.spec_height() == self.config.y,
                colors@ == seq![
                    decoded(self.config.color1@),
                    decoded(self.config.color2@),
                    decoded(self.config.color3@),
                ],
                state.wf(),
                forall|k: int| 0 <= k < saved@.len() ==> (#[trigger] saved@[k]).wf(),
                trace.len() == i + 1,
                trace[0] == (
                    TurtleState { x: (self.config.x / 2) as i32, y: (self.config.y / 2) as i32, heading: 0 },
                    Seq::<TurtleState>::empty(),
                    *old(canvas),
                ),
                trace.last() == (state, saved@, *canvas),
                forall|k: int|
                    0 <= k < i ==> self.follows(#[trigger] production@[k], trace[k], trace[k + 1]),
            decreases production@.len() - i,
        {
            let symbol: char = production[i];
            let ghost before: WalkState = (state, saved@, *canvas);
            if symbol == 'F' {
                state = self.draw_forward(canvas, state, &colors, rng);
            } else if symbol == '+' {
                state = state.turn_left();
            } else if symbol == '-' {
                state = state.turn_right();
            } else if symbol == '[' {
                saved.push(state);
            } else if symbol == ']' {
                match saved.pop() {
                    Some(s) => {
                        state = s;
                    },
                    None => {},
                }
            } else if symbol == 'A' {
                state = self.jump(state, rng);
            }
            proof {
                let after: WalkState = (state, saved@, *canvas);
                assert(self.follows(symbol, before, after));
                let ghost longer = trace.push(after);
                assert forall|k: int| 0 <= k < i + 1 implies self.follows(
                    #[trigger] production@[k],
                    longer[k],
                    longer[k + 1],
                ) by {
                    if k < i {
                        assert(longer[k] == trace[k] && longer[k + 1] == trace[k + 1]);
                    }
                }
                trace = longer;
            }
            i += 1;
        }
        assert(self.traces(trace, production@, *old(canvas), *canvas));
    }

    /// Generates the pattern: a canvas of the configured size, filled with
    /// the background colour and then drawn on by the turtle as a string
    /// produced by two rounds of random rewriting directs.
    pub fn generate(&self, rng: &mut StdRng) -> (canvas: Canvas)
        requires
            self.fits(),
        ensures
            canvas.spec_width() == self.config.x,
            canvas.spec_height() == self.config.y,
            self.generated(canvas),
    {
        let (_, bg_color) = self.get_color_rgbs();
        let mut canvas = Canvas::filled(self.config.x, self.config.y, bg_color);
        let production = self.produce(rng);
        let ghost start = canvas;
        self.walk(&production, &mut canvas, rng);
        assert(self.walked(production@, start, canvas));
        canvas
    }
}

} // verus!
