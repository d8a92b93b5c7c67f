use pattern_gen::random::{draw_closed, draw_half_open};
use rand::rngs::StdRng;
use rand::SeedableRng;

#[test]
fn draw_closed_stays_in_the_range() {
    let mut rng = StdRng::seed_from_u64(1);
    for _ in 0..500 {
        let v = draw_closed(&mut rng, 10, 13);
        assert!(10 <= v && v <= 13);
    }
}

#[test]
fn draw_closed_reaches_every_value() {
    let mut rng = StdRng::seed_from_u64(2);
    let mut seen = [false; 4];
    for _ in 0..500 {
        seen[(draw_closed(&mut rng, 10, 13) - 10) as usize] = true;
    }
    assert_eq!(seen, [true; 4]);
}

#[test]
fn draw_closed_of_a_single_value() {
    let mut rng = StdRng::seed_from_u64(3);
    assert_eq!(draw_closed(&mut rng, 0, 0), 0);
    assert_eq!(draw_closed(&mut rng, u32::MAX, u32::MAX), u32::MAX);
}

#[test]
fn draw_closed_of_the_whole_type() {
    let mut rng = StdRng::seed_from_u64(4);
    let a = draw_closed(&mut rng, 0, u32::MAX);
    let b = draw_closed(&mut rng, 0, u32::MAX);
    let c = draw_closed(&mut rng, 0, u32::MAX);
    assert!(a != b || b != c);
}

#[test]
fn draw_closed_of_an_empty_range_gives_the_lower_bound() {
    let mut rng = StdRng::seed_from_u64(5);
    assert_eq!(draw_closed(&mut rng, 8, 3), 8);
}

#[test]
fn draw_half_open_leaves_out_the_upper_bound() {
    let mut rng = StdRng::seed_from_u64(6);
    let mut seen = [false; 3];
    for _ in 0..500 {
        let v = draw_half_open(&mut rng, 10, 13);
        assert!(10 <= v && v < 13);
        seen[(v - 10) as usize] = true;
    }
    assert_eq!(seen, [true; 3]);
}

#[test]
fn draw_half_open_of_an_empty_range_gives_the_lower_bound() {
    let mut rng = StdRng::seed_from_u64(7);
    assert_eq!(draw_half_open(&mut rng, 5, 5), 5);
    assert_eq!(draw_half_open(&mut rng, 9, 2), 9);
}

#[test]
fn draws_repeat_for_the_same_seed() {
    let mut a = StdRng::seed_from_u64(99);
    let mut b = StdRng::seed_from_u64(99);
    for _ in 0..50 {
        assert_eq!(draw_closed(&mut a, 0, 1000), draw_closed(&mut b, 0, 1000));
    }
}
