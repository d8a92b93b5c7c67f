use pattern_gen::lsystem::{
    bracket_positions, generate_rule, insert_brackets, pick, random_symbols, rewrite, sort_ascending,
    weighted_choice, Rule, BRACKET_COUNT, SYMBOLS, SYMBOL_WEIGHTS,
};
use rand::rngs::StdRng;
use rand::SeedableRng;

fn chars(s: &str) -> Vec<char> {
    s.chars().collect()
}

fn text(v: &[char]) -> String {
    v.iter().collect()
}

fn is_symbol(c: char) -> bool {
    c == 'F' || c == '+' || c == '-' || c == 'A'
}

#[test]
fn the_alphabet_and_its_weights() {
    assert_eq!(SYMBOLS, ['F', '+', '-', 'A']);
    assert_eq!(SYMBOL_WEIGHTS, [15, 10, 10, 8]);
    assert_eq!(BRACKET_COUNT, 6);
}

#[test]
fn pick_gives_each_symbol_its_share() {
    let mut counts = [0u32; 4];
    for threshold in 0..43u64 {
        let c = pick(SYMBOLS, SYMBOL_WEIGHTS, threshold);
        let k = SYMBOLS.iter().position(|s| *s == c).unwrap();
        counts[k] += 1;
    }
    assert_eq!(counts, [15, 10, 10, 8]);
}

#[test]
fn pick_changes_at_the_running_sums() {
    assert_eq!(pick(SYMBOLS, SYMBOL_WEIGHTS, 0), 'F');
    assert_eq!(pick(SYMBOLS, SYMBOL_WEIGHTS, 14), 'F');
    assert_eq!(pick(SYMBOLS, SYMBOL_WEIGHTS, 15), '+');
    assert_eq!(pick(SYMBOLS, SYMBOL_WEIGHTS, 24), '+');
    assert_eq!(pick(SYMBOLS, SYMBOL_WEIGHTS, 25), '-');
    assert_eq!(pick(SYMBOLS, SYMBOL_WEIGHTS, 34), '-');
    assert_eq!(pick(SYMBOLS, SYMBOL_WEIGHTS, 35), 'A');
    assert_eq!(pick(SYMBOLS, SYMBOL_WEIGHTS, 42), 'A');
}

#[test]
fn pick_beyond_the_total_gives_the_last_item() {
    assert_eq!(pick(SYMBOLS, SYMBOL_WEIGHTS, 43), 'A');
    assert_eq!(pick(SYMBOLS, SYMBOL_WEIGHTS, u64::MAX), 'A');
}

#[test]
fn pick_skips_an_item_without_weight() {
    let items = ['a', 'b', 'c', 'd'];
    assert_eq!(pick(items, [0, 2, 0, 1], 0), 'b');
    assert_eq!(pick(items, [0, 2, 0, 1], 1), 'b');
    assert_eq!(pick(items, [0, 2, 0, 1], 2), 'd');
}

#[test]
fn pick_with_the_largest_weights() {
    let items = ['a', 'b', 'c', 'd'];
    let weights = [u32::MAX; 4];
    assert_eq!(pick(items, weights, u32::MAX as u64 - 1), 'a');
    assert_eq!(pick(items, weights, u32::MAX as u64), 'b');
    assert_eq!(pick(items, weights, 3 * (u32::MAX as u64)), 'd');
}

#[test]
fn weighted_choice_never_gives_an_item_without_weight() {
    let mut rng = StdRng::seed_from_u64(11);
    for _ in 0..200 {
        let c = weighted_choice(&mut rng, ['a', 'b', 'c', 'd'], [0, 5, 0, 1]);
        assert!(c == 'b' || c == 'd');
    }
}

#[test]
fn weighted_choice_gives_every_item_with_weight() {
    let mut rng = StdRng::seed_from_u64(12);
    let mut seen = [false; 4];
    for _ in 0..500 {
        let c = weighted_choice(&mut rng, SYMBOLS, SYMBOL_WEIGHTS);
        let k = SYMBOLS.iter().position(|s| *s == c).unwrap();
        seen[k] = true;
    }
    assert_eq!(seen, [true; 4]);
}

#[test]
fn weighted_choice_without_any_weight_gives_the_last_item() {
    let mut rng = StdRng::seed_from_u64(13);
    assert_eq!(weighted_choice(&mut rng, ['a', 'b', 'c', 'd'], [0, 0, 0, 0]), 'd');
}

#[test]
fn insert_brackets_before_the_characters_at_the_positions() {
    let rule = chars("abcdefgh");
    let out = insert_brackets(&rule, &vec![1, 2, 4, 5, 6, 7]);
    assert_eq!(text(&out), "a[b]cd[e]f[g]h");
}

#[test]
fn insert_brackets_at_the_start() {
    let rule = chars("FFFFFF");
    let out = insert_brackets(&rule, &vec![0, 1, 2, 3, 4, 5]);
    assert_eq!(text(&out), "[F]F[F]F[F]F");
}

#[test]
fn insert_brackets_keeps_every_character() {
    let rule = chars("F+-AF+-AF+");
    let out = insert_brackets(&rule, &vec![0, 3, 4, 7, 8, 9]);
    assert_eq!(text(&out), "[F+-]A[F+-]A[F]+");
    let kept: Vec<char> = out.iter().copied().filter(|c| *c != '[' && *c != ']').collect();
    assert_eq!(kept, rule);
}

#[test]
fn insert_brackets_without_positions_changes_nothing() {
    let rule = chars("F+A");
    assert_eq!(insert_brackets(&rule, &vec![]), rule);
}

#[test]
fn sort_ascending_orders_the_items() {
    assert_eq!(sort_ascending(&vec![5, 3, 9, 0, 7, 1]), vec![0, 1, 3, 5, 7, 9]);
    assert_eq!(sort_ascending(&vec![2, 2, 1]), vec![1, 2, 2]);
    assert_eq!(sort_ascending(&vec![]), Vec::<usize>::new());
}

#[test]
fn bracket_positions_are_six_rising_indices() {
    for seed in 0..50u64 {
        let mut rng = StdRng::seed_from_u64(seed);
        let len = 6 + (seed as usize % 20);
        let positions = bracket_positions(&mut rng, len);
        assert_eq!(positions.len(), 6);
        for pair in positions.windows(2) {
            assert!(pair[0] < pair[1]);
        }
        assert!(positions[5] < len);
    }
}

#[test]
fn bracket_positions_of_six_indices_are_all_of_them() {
    let mut rng = StdRng::seed_from_u64(3);
    assert_eq!(bracket_positions(&mut rng, 6), vec![0, 1, 2, 3, 4, 5]);
}

#[test]
fn bracket_positions_depend_on_the_draw() {
    let mut seen_other = false;
    for seed in 0..20u64 {
        let mut rng = StdRng::seed_from_u64(seed);
        if bracket_positions(&mut rng, 40) != vec![0, 1, 2, 3, 4, 5] {
            seen_other = true;
        }
    }
    assert!(seen_other);
}

#[test]
fn random_symbols_stay_in_the_alphabet_and_the_range() {
    for seed in 0..50u64 {
        let mut rng = StdRng::seed_from_u64(seed);
        let out = random_symbols(4, 12, &mut rng);
        assert!(4 <= out.len() && out.len() <= 12);
        assert!(out.iter().all(|c| is_symbol(*c)));
    }
}

#[test]
fn random_symbols_reach_both_ends_of_the_range() {
    let mut lengths = [false; 3];
    for seed in 0..100u64 {
        let mut rng = StdRng::seed_from_u64(seed);
        let out = random_symbols(2, 4, &mut rng);
        lengths[out.len() - 2] = true;
    }
    assert_eq!(lengths, [true; 3]);
}

#[test]
fn random_symbols_of_a_single_length() {
    let mut rng = StdRng::seed_from_u64(5);
    assert_eq!(random_symbols(7, 7, &mut rng).len(), 7);
    assert_eq!(random_symbols(0, 0, &mut rng).len(), 0);
}

#[test]
fn random_symbols_of_an_empty_range_have_the_lower_length() {
    let mut rng = StdRng::seed_from_u64(5);
    assert_eq!(random_symbols(9, 3, &mut rng).len(), 9);
}

#[test]
fn generate_rule_without_branching_has_no_brackets() {
    for seed in 0..50u64 {
        let mut rng = StdRng::seed_from_u64(seed);
        let rule = generate_rule(6, 18, false, &mut rng);
        assert!(6 <= rule.len() && rule.len() <= 18);
        assert!(rule.iter().all(|c| is_symbol(*c)));
    }
}

#[test]
fn generate_rule_with_branching_has_three_bracket_pairs() {
    for seed in 0..50u64 {
        let mut rng = StdRng::seed_from_u64(seed);
        let rule = generate_rule(6, 18, true, &mut rng);
        assert!(12 <= rule.len() && rule.len() <= 24);
        let brackets: Vec<char> = rule.iter().copied().filter(|c| !is_symbol(*c)).collect();
        assert_eq!(brackets, vec!['[', ']', '[', ']', '[', ']']);
        for pair in rule.windows(2) {
            assert!(is_symbol(pair[0]) || is_symbol(pair[1]));
        }
        assert!(is_symbol(*rule.last().unwrap()));
    }
}

#[test]
fn generate_rule_too_short_for_brackets_is_left_as_it_is() {
    for seed in 0..20u64 {
        let mut rng = StdRng::seed_from_u64(seed);
        let rule = generate_rule(0, 5, true, &mut rng);
        assert!(rule.len() <= 5);
        assert!(rule.iter().all(|c| is_symbol(*c)));
    }
}

#[test]
fn rewrite_replaces_every_occurrence_and_keeps_the_rest() {
    let rules = vec![Rule { symbol: 'F', replacement: chars("F-[A]") }];
    assert_eq!(text(&rewrite(&chars("+FA+"), &rules)), "+F-[A]A+");
    assert_eq!(text(&rewrite(&chars("FF+F"), &rules)), "F-[A]F-[A]+F-[A]");
}

#[test]
fn rewrite_does_not_rewrite_what_it_inserted() {
    let rules = vec![Rule { symbol: 'F', replacement: chars("FF") }];
    assert_eq!(text(&rewrite(&chars("F"), &rules)), "FF");
}

#[test]
fn rewrite_applies_the_first_rule_for_a_symbol() {
    let rules = vec![
        Rule { symbol: 'F', replacement: chars("1") },
        Rule { symbol: 'F', replacement: chars("2") },
        Rule { symbol: 'A', replacement: chars("3") },
    ];
    assert_eq!(text(&rewrite(&chars("+FA+"), &rules)), "+13+");
}

#[test]
fn rewrite_with_an_empty_replacement_removes_the_symbol() {
    let rules = vec![Rule { symbol: 'F', replacement: vec![] }];
    assert_eq!(text(&rewrite(&chars("+FA+F"), &rules)), "+A+");
}

#[test]
fn rewrite_without_rules_or_text() {
    assert_eq!(text(&rewrite(&chars("+FA+"), &vec![])), "+FA+");
    let rules = vec![Rule { symbol: 'F', replacement: chars("FF") }];
    assert_eq!(rewrite(&vec![], &rules), Vec::<char>::new());
}
