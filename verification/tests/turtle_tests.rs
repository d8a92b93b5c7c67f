use pattern_gen::canvas::Canvas;
use pattern_gen::color::Rgb;
use pattern_gen::turtle::{confine, ink, stamp, TurtleState, REACH};

const WHITE: Rgb = Rgb { r: 255, g: 255, b: 255 };
const GREEN: Rgb = Rgb { r: 0, g: 200, b: 0 };

fn rows(c: &Canvas) -> Vec<String> {
    (0..c.height())
        .map(|y| {
            (0..c.width())
                .map(|x| {
                    let p = c.pixel(x, y).unwrap();
                    if p == WHITE {
                        '.'
                    } else if p == GREEN {
                        'g'
                    } else if p == ink() {
                        '#'
                    } else {
                        '?'
                    }
                })
                .collect()
        })
        .collect()
}

fn at(x: i32, y: i32, heading: u16) -> TurtleState {
    TurtleState { x, y, heading }
}

#[test]
fn ink_is_black() {
    assert_eq!(ink(), Rgb { r: 0, g: 0, b: 0 });
}

#[test]
fn the_turtle_starts_at_the_centre() {
    assert_eq!(TurtleState::centered(100, 60), at(50, 30, 0));
    assert_eq!(TurtleState::centered(7, 5), at(3, 2, 0));
    assert_eq!(TurtleState::centered(0, 1), at(0, 0, 0));
}

#[test]
fn four_left_turns_make_a_full_turn() {
    let s = at(1, 2, 0);
    assert_eq!(s.turn_left(), at(1, 2, 90));
    assert_eq!(s.turn_left().turn_left(), at(1, 2, 180));
    assert_eq!(s.turn_left().turn_left().turn_left(), at(1, 2, 270));
    assert_eq!(s.turn_left().turn_left().turn_left().turn_left(), s);
}

#[test]
fn a_right_turn_undoes_a_left_turn() {
    for heading in [0u16, 90, 180, 270] {
        let s = at(4, 5, heading);
        assert_eq!(s.turn_left().turn_right(), s);
        assert_eq!(s.turn_right().turn_left(), s);
    }
    assert_eq!(at(0, 0, 0).turn_right(), at(0, 0, 270));
}

#[test]
fn forward_moves_along_the_heading() {
    assert_eq!(at(10, 10, 0).forward(3), at(13, 10, 0));
    assert_eq!(at(10, 10, 90).forward(3), at(10, 13, 90));
    assert_eq!(at(10, 10, 180).forward(3), at(7, 10, 180));
    assert_eq!(at(10, 10, 270).forward(3), at(10, 7, 270));
}

#[test]
fn forward_by_nothing_stays() {
    assert_eq!(at(10, 10, 90).forward(0), at(10, 10, 90));
}

#[test]
fn forward_stops_at_the_reach() {
    assert_eq!(REACH, 1 << 24);
    assert_eq!(at(REACH - 2, 0, 0).forward(5), at(REACH, 0, 0));
    assert_eq!(at(0, 5, 270).forward(u32::MAX), at(0, -REACH, 270));
    assert_eq!(at(-REACH, 0, 180).forward(1), at(-REACH, 0, 180));
}

#[test]
fn confine_brings_a_coordinate_within_reach() {
    assert_eq!(confine(0), 0);
    assert_eq!(confine(REACH as i64), REACH);
    assert_eq!(confine(REACH as i64 + 1), REACH);
    assert_eq!(confine(-(REACH as i64) - 1), -REACH);
    assert_eq!(confine(i64::MAX), REACH);
    assert_eq!(confine(i64::MIN), -REACH);
}

#[test]
fn moved_to_keeps_the_heading() {
    assert_eq!(at(1, 2, 180).moved_to(30, 40), at(30, 40, 180));
}

#[test]
fn stamp_draws_the_block_over_the_line() {
    let mut c = Canvas::filled(9, 5, WHITE);
    let next = stamp(&mut c, at(1, 1, 0), 6, 3, 3, GREEN);
    assert_eq!(next, at(7, 1, 0));
    assert_eq!(rows(&c), vec![".........", ".#######.", ".#g#.....", ".###.....", "........."]);
}

#[test]
fn stamp_heading_up_draws_the_line_above_the_block() {
    let mut c = Canvas::filled(5, 7, WHITE);
    let next = stamp(&mut c, at(1, 4, 270), 3, 3, 3, GREEN);
    assert_eq!(next, at(1, 1, 270));
    assert_eq!(rows(&c), vec![".....", ".#...", ".#...", ".#...", ".###.", ".#g#.", ".###."]);
}

#[test]
fn stamp_without_a_block_draws_only_the_line() {
    let mut c = Canvas::filled(5, 3, WHITE);
    let next = stamp(&mut c, at(4, 1, 180), 2, 0, 3, GREEN);
    assert_eq!(next, at(2, 1, 180));
    assert_eq!(rows(&c), vec![".....", "..###", "....."]);
}

#[test]
fn stamp_without_a_step_marks_the_place() {
    let mut c = Canvas::filled(3, 3, WHITE);
    let next = stamp(&mut c, at(1, 1, 90), 0, 0, 0, GREEN);
    assert_eq!(next, at(1, 1, 90));
    assert_eq!(rows(&c), vec!["...", ".#.", "..."]);
}

#[test]
fn stamp_far_from_the_canvas_changes_nothing() {
    let mut c = Canvas::filled(3, 3, WHITE);
    let next = stamp(&mut c, at(REACH, REACH, 0), 50, 9, 9, GREEN);
    assert_eq!(next, at(REACH, REACH, 0));
    assert_eq!(rows(&c), vec!["...", "...", "..."]);
}
