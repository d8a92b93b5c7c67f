use pattern_gen::canvas::{Canvas, MAX_SIDE};
use pattern_gen::color::Rgb;

const WHITE: Rgb = Rgb { r: 255, g: 255, b: 255 };
const RED: Rgb = Rgb { r: 200, g: 10, b: 20 };
const BLUE: Rgb = Rgb { r: 1, g: 2, b: 250 };

fn rows(c: &Canvas, of: fn(Rgb) -> char) -> Vec<String> {
    (0..c.height())
        .map(|y| (0..c.width()).map(|x| of(c.pixel(x, y).unwrap())).collect())
        .collect()
}

fn letter(p: Rgb) -> char {
    if p == WHITE {
        '.'
    } else if p == RED {
        'r'
    } else if p == BLUE {
        'b'
    } else {
        '?'
    }
}

#[test]
fn a_new_canvas_has_its_size_and_one_colour() {
    let c = Canvas::filled(4, 3, RED);
    assert_eq!(c.width(), 4);
    assert_eq!(c.height(), 3);
    assert_eq!(rows(&c, letter), vec!["rrrr", "rrrr", "rrrr"]);
}

#[test]
fn a_canvas_without_pixels() {
    let c = Canvas::filled(0, 5, RED);
    assert_eq!((c.width(), c.height()), (0, 5));
    assert_eq!(c.pixel(0, 0), None);
}

#[test]
fn the_side_limit() {
    assert_eq!(MAX_SIDE, 1 << 24);
}

#[test]
fn pixel_outside_the_canvas_is_none() {
    let c = Canvas::filled(4, 3, RED);
    assert_eq!(c.pixel(3, 2), Some(RED));
    assert_eq!(c.pixel(4, 2), None);
    assert_eq!(c.pixel(3, 3), None);
    assert_eq!(c.pixel(u32::MAX, u32::MAX), None);
}

#[test]
fn set_pixel_changes_one_pixel() {
    let mut c = Canvas::filled(3, 2, WHITE);
    c.set_pixel(2, 1, BLUE);
    c.set_pixel(0, 0, RED);
    assert_eq!(rows(&c, letter), vec!["r..", "..b"]);
}

#[test]
fn set_pixel_outside_the_canvas_changes_nothing() {
    let mut c = Canvas::filled(3, 2, WHITE);
    c.set_pixel(3, 0, BLUE);
    c.set_pixel(0, 2, BLUE);
    assert_eq!(rows(&c, letter), vec!["...", "..."]);
}

#[test]
fn draw_segment_along_a_row() {
    let mut c = Canvas::filled(6, 3, WHITE);
    c.draw_segment(1, 1, 4, 1, RED);
    assert_eq!(rows(&c, letter), vec!["......", ".rrrr.", "......"]);
}

#[test]
fn draw_segment_along_a_column_in_either_direction() {
    let mut down = Canvas::filled(3, 5, WHITE);
    down.draw_segment(1, 0, 1, 3, RED);
    let mut up = Canvas::filled(3, 5, WHITE);
    up.draw_segment(1, 3, 1, 0, RED);
    let expected = vec![".r.", ".r.", ".r.", ".r.", "..."];
    assert_eq!(rows(&down, letter), expected);
    assert_eq!(rows(&up, letter), expected);
}

#[test]
fn draw_segment_of_one_point() {
    let mut c = Canvas::filled(3, 3, WHITE);
    c.draw_segment(2, 0, 2, 0, BLUE);
    assert_eq!(rows(&c, letter), vec!["..b", "...", "..."]);
}

#[test]
fn draw_segment_is_cut_at_the_canvas() {
    let mut c = Canvas::filled(4, 3, WHITE);
    c.draw_segment(-5, 2, 100, 2, RED);
    c.draw_segment(3, -10, 3, 0, BLUE);
    assert_eq!(rows(&c, letter), vec!["...b", "....", "rrrr"]);
}

#[test]
fn draw_segment_off_the_canvas_changes_nothing() {
    let mut c = Canvas::filled(4, 3, WHITE);
    c.draw_segment(0, 3, 3, 3, RED);
    c.draw_segment(-1, 0, -1, 2, RED);
    c.draw_segment(-(MAX_SIDE as i32), -1, MAX_SIDE as i32, -1, RED);
    assert_eq!(rows(&c, letter), vec!["....", "....", "...."]);
}

#[test]
fn draw_segment_leaves_the_next_row_as_it_was() {
    let mut c = Canvas::filled(4, 3, BLUE);
    c.draw_segment(0, 0, 3, 0, RED);
    assert_eq!(rows(&c, letter), vec!["rrrr", "bbbb", "bbbb"]);
}

#[test]
fn draw_block_fills_and_outlines() {
    let mut c = Canvas::filled(7, 6, WHITE);
    c.draw_block(1, 1, 5, 4, BLUE, RED);
    assert_eq!(rows(&c, letter), vec![".......", ".rrrrr.", ".rbbbr.", ".rbbbr.", ".rrrrr.", "......."]);
}

#[test]
fn draw_block_of_one_or_two_pixels_is_all_outline() {
    let mut c = Canvas::filled(4, 3, WHITE);
    c.draw_block(0, 0, 1, 1, BLUE, RED);
    c.draw_block(2, 1, 2, 2, BLUE, RED);
    assert_eq!(rows(&c, letter), vec!["r...", "..rr", "..rr"]);
}

#[test]
fn draw_block_without_columns_or_rows_draws_nothing() {
    let mut c = Canvas::filled(4, 3, WHITE);
    c.draw_block(1, 1, 0, 2, BLUE, RED);
    c.draw_block(1, 1, 2, 0, BLUE, RED);
    assert_eq!(rows(&c, letter), vec!["....", "....", "...."]);
}

#[test]
fn draw_block_is_cut_at_the_canvas() {
    let mut c = Canvas::filled(5, 4, WHITE);
    c.draw_block(2, 1, 10, 10, BLUE, RED);
    assert_eq!(rows(&c, letter), vec![".....", "..rrr", "..rbb", "..rbb"]);
}

#[test]
fn draw_block_from_before_the_canvas() {
    let mut c = Canvas::filled(5, 4, WHITE);
    c.draw_block(-3, -2, 6, 5, BLUE, RED);
    assert_eq!(rows(&c, letter), vec!["bbr..", "bbr..", "rrr..", "....."]);
}

#[test]
fn draw_block_around_the_canvas_only_fills() {
    let mut c = Canvas::filled(3, 2, WHITE);
    c.draw_block(-1000, -1000, 5000, 5000, BLUE, RED);
    assert_eq!(rows(&c, letter), vec!["bbb", "bbb"]);
}

#[test]
fn draw_block_with_a_side_one_pixel_off_the_canvas() {
    let mut c = Canvas::filled(3, 3, WHITE);
    c.draw_block(-1, -1, 5, 5, BLUE, RED);
    assert_eq!(rows(&c, letter), vec!["bbb", "bbb", "bbb"]);
    c.draw_block(0, 0, 4, 4, WHITE, RED);
    assert_eq!(rows(&c, letter), vec!["rrr", "r..", "r.."]);
}

#[test]
fn draw_block_of_the_largest_size() {
    let mut c = Canvas::filled(3, 2, WHITE);
    c.draw_block(1, 0, u32::MAX, u32::MAX, BLUE, RED);
    assert_eq!(rows(&c, letter), vec![".rr", ".rb"]);
    c.draw_block(i32::MIN, i32::MIN, u32::MAX, u32::MAX, BLUE, RED);
    assert_eq!(rows(&c, letter), vec!["bbb", "bbb"]);
}

#[test]
fn draw_block_off_the_canvas_changes_nothing() {
    let mut c = Canvas::filled(3, 2, WHITE);
    c.draw_block(3, 0, 4, 4, BLUE, RED);
    c.draw_block(0, 2, 4, 4, BLUE, RED);
    c.draw_block(-4, 0, 4, 4, BLUE, RED);
    c.draw_block(i32::MAX, i32::MAX, u32::MAX, u32::MAX, BLUE, RED);
    assert_eq!(rows(&c, letter), vec!["...", "..."]);
}

#[test]
fn draw_block_on_a_canvas_without_pixels() {
    let mut c = Canvas::filled(0, 0, WHITE);
    c.draw_block(0, 0, 4, 4, BLUE, RED);
    assert_eq!((c.width(), c.height()), (0, 0));
}
