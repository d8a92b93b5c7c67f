//! The string-rewriting grammar of the turtle generator: weighted symbol
//! choice, random rules with bracket pairs, and the rewriting of a string
//! by rules.

use vstd::prelude::*;
use rand::rngs::StdRng;
use crate::random::{draw_closed, gen_below, shuffle_positions};

verus! {

/// The symbols that a random rule is built from.
pub const SYMBOLS: [char; 4] = ['F', '+', '-', 'A'];

/// The weight of each symbol of `SYMBOLS`.
pub const SYMBOL_WEIGHTS: [u32; 4] = [15, 10, 10, 8];

/// How many brackets a branching rule receives: three pairs.
pub const BRACKET_COUNT: usize = 6;

/// Whether `c` is one of the four symbols that a random rule is built from.
pub open spec fn in_alphabet(c: char) -> bool {
    c == 'F' || c == '+' || c == '-' || c == 'A'
}

/// The sum of the first `k` weights.
pub open spec fn prefix_weight(weights: Seq<u32>, k: int) -> int
    decreases k,
{
    if k <= 0 {
        0
    } else {
        prefix_weight(weights, k - 1) + weights[k - 1]
    }
}

/// The position that a threshold selects: the one whose weight takes the
/// running sum of the weights past the threshold. A threshold at or beyond
/// the sum of all four weights selects the last position.
pub open spec fn picked(weights: Seq<u32>, threshold: int) -> int {
    if threshold < prefix_weight(weights, 1) {
        0
    } else if threshold < prefix_weight(weights, 2) {
        1
    } else if threshold < prefix_weight(weights, 3) {
        2
    } else {
        3
    }
}

/// Selects the item whose share of the total weight the threshold falls
/// into: with the weights 15, 10, 10 and 8, the thresholds 0 to 14 select
/// the first item, 15 to 24 the second, 25 to 34 the third and 35 to 42
/// the fourth.
pub fn pick(items: [char; 4], weights: [u32; 4], threshold: u64) -> (item: char)
    ensures
        item == items@[picked(weights@, threshold as int)],
{
    let mut running: u64 = 0;
    let mut i: usize = 0;
    assert(prefix_weight(weights@, 0) == 0);
    while i < 3
        invariant
            i <= 3,
            running == prefix_weight(weights@, i as int),
            running <= i * 0xFFFF_FFFF,
            forall|j: int| 0 < j <= i ==> threshold >= prefix_weight(weights@, j),
        decreases 3 - i,
    {
        assert(prefix_weight(weights@, i as int + 1) == prefix_weight(weights@, i as int) + weights@[i as int]);
        running = running + weights[i] as u64;
        if threshold < running {
            return items[i];
        }
        i += 1;
    }
    items[3]
}

/// Draws one item at random, each with a chance in proportion to its
/// weight. Where all weights are zero nothing is drawn and the last item
/// is returned.
pub fn weighted_choice(rng: &mut StdRng, items: [char; 4], weights: [u32; 4]) -> (item: char)
    ensures
        prefix_weight(weights@, 4) > 0 ==> exists|threshold: int|
            0 <= threshold < prefix_weight(weights@, 4) && item == items@[#[trigger] picked(weights@, threshold)],
        prefix_weight(weights@, 4) == 0 ==> item == items@[3],
{
    let total: u64 = weights[0] as u64 + weights[1] as u64 + weights[2] as u64 + weights[3] as u64;
    assert(total == prefix_weight(weights@, 4)) by {
        reveal_with_fuel(prefix_weight, 5);
    }
    if total == 0 {
        return items[3];
    }
    let threshold: u64 = gen_below(rng, 0, total);
    pick(items, weights, threshold)
}

/// The bracket that takes the `k`-th place: opening at even places, closing
/// at odd ones.
pub open spec fn bracket_at(k: int) -> char {
    if k % 2 == 0 {
        '['
    } else {
        ']'
    }
}

/// Whether the positions rise strictly and all lie among the indices of a
/// string of length `len`.
pub open spec fn rising_within(positions: Seq<usize>, len: int) -> bool {
    &&& forall|i: int| 0 <= i < positions.len() ==> #[trigger] positions[i] < len
    &&& forall|i: int, j: int| 0 <= i < j < positions.len() ==> positions[i] < positions[j]
}

/// The start of the `k`-th segment of a string cut at the given positions.
pub open spec fn segment_start(positions: Seq<usize>, k: int) -> int {
    if k <= 0 {
        0
    } else {
        positions[k - 1] as int
    }
}

/// The first `k` segments of `rule`, each followed by its bracket: the
/// `j`-th segment runs from the position before it, or from the start, up
/// to the `j`-th position.
pub open spec fn closed_segments(rule: Seq<char>, positions: Seq<usize>, k: int) -> Seq<char>
    decreases k,
{
    if k <= 0 {
        Seq::<char>::empty()
    } else {
        closed_segments(rule, positions, k - 1) + rule.subrange(
            segment_start(positions, k - 1),
            positions[k - 1] as int,
        ) + seq![bracket_at(k - 1)]
    }
}

/// `rule` with one bracket inserted immediately before the character at
/// each position, opening and closing brackets in turn. Every character of
/// `rule` is kept, in its order.
pub open spec fn bracketed(rule: Seq<char>, positions: Seq<usize>) -> Seq<char> {
    closed_segments(rule, positions, positions.len() as int) + rule.subrange(
        segment_start(positions, positions.len() as int),
        rule.len() as int,
    )
}

/// Inserting brackets lengthens a string by the number of brackets.
pub proof fn lemma_bracketed_len(rule: Seq<char>, positions: Seq<usize>)
    requires
        rising_within(positions, rule.len() as int),
    ensures
        bracketed(rule, positions).len() == rule.len() + positions.len(),
{
    lemma_closed_segments_len(rule, positions, positions.len() as int);
}

/// The first `k` segments with their brackets hold the characters before
/// the `k`-th cut and `k` brackets.
proof fn lemma_closed_segments_len(rule: Seq<char>, positions: Seq<usize>, k: int)
    requires
        rising_within(positions, rule.len() as int),
        0 <= k <= positions.len(),
    ensures
        closed_segments(rule, positions, k).len() == segment_start(positions, k) + k,
        0 <= segment_start(positions, k) <= rule.len(),
    decreases k,
{
    if k > 0 {
        lemma_closed_segments_len(rule, positions, k - 1);
        if k > 1 {
            assert(positions[k - 2] < positions[k - 1]);
        }
    }
}

/// Copies the characters of `rule` from `from` up to `to` to the end of
/// `out`.
fn push_segment(out: &mut Vec<char>, rule: &Vec<char>, from: usize, to: usize)
    requires
        from <= to <= rule@.len(),
    ensures
        final(out)@ == old(out)@ + rule@.subrange(from as int, to as int),
{
    let mut i: usize = from;
    while i < to
        invariant
            from <= i <= to <= rule@.len(),
            out@ == old(out)@ + rule@.subrange(from as int, i as int),
        decreases to - i,
    {
        out.push(rule[i]);
        assert(rule@.subrange(from as int, i as int + 1) == rule@.subrange(from as int, i as int).push(rule@[i as int]));
        i += 1;
    }
}

/// Inserts brackets into `rule` before the characters at the given
/// positions, which rise strictly.
pub fn insert_brackets(rule: &Vec<char>, positions: &Vec<usize>) -> (out: Vec<char>)
    requires
        rising_within(positions@, rule@.len() as int),
    ensures
        out@ == bracketed(rule@, positions@),
{
    let mut out: Vec<char> = Vec::new();
    let mut k: usize = 0;
    let mut start: usize = 0;
    while k < positions.len()
        invariant
            k <= positions@.len(),
            rising_within(positions@, rule@.len() as int),
            start == segment_start(positions@, k as int),
            start <= rule@.len(),
            out@ == closed_segments(rule@, positions@, k as int),
        decreases positions@.len() - k,
    {
        let p: usize = positions[k];
        assert(start <= p) by {
            if k > 0 {
                assert(positions@[k - 1] < positions@[k as int]);
            }
        }
        push_segment(&mut out, rule, start, p);
        out.push(if k % 2 == 0 { '[' } else { ']' });
        start = p;
        k += 1;
    }
    push_segment(&mut out, rule, start, rule.len());
    out
}

/// Whether the items never fall from one place to the next.
pub open spec fn ascending(items: Seq<usize>) -> bool {
    forall|i: int, j: int| 0 <= i < j < items.len() ==> items[i] <= items[j]
}

/// The indices of a string of length `len`, in their order.
pub open spec fn indices(len: int) -> Seq<usize> {
    Seq::new(len as nat, |i: int| i as usize)
}

/// A rearrangement of items that are pairwise different holds pairwise
/// different items too, each of them one of the items it was made of.
pub proof fn lemma_rearranged(a: Seq<usize>, b: Seq<usize>)
    requires
        a.to_multiset() == b.to_multiset(),
        b.no_duplicates(),
    ensures
        a.no_duplicates(),
        a.len() == b.len(),
        forall|i: int| 0 <= i < a.len() ==> b.contains(#[trigger] a[i]),
{
    a.to_multiset_ensures();
    b.to_multiset_ensures();
    b.lemma_multiset_has_no_duplicates();
    a.lemma_multiset_has_no_duplicates_conv();
    assert forall|i: int| 0 <= i < a.len() implies b.contains(#[trigger] a[i]) by {
        assert(a.contains(a[i]));
        assert(a.to_multiset().count(a[i]) > 0);
        assert(b.to_multiset().count(a[i]) > 0);
    }
}

/// Returns the items in ascending order.
pub fn sort_ascending(items: &Vec<usize>) -> (out: Vec<usize>)
    ensures
        out@.to_multiset() == items@.to_multiset(),
        ascending(out@),
{
    let mut out: Vec<usize> = Vec::new();
    let mut i: usize = 0;
    assert(items@.take(0) =~= out@);
    while i < items.len()
        invariant
            i <= items@.len(),
            out@.len() == i,
            out@.to_multiset() == items@.take(i as int).to_multiset(),
            ascending(out@),
        decreases items@.len() - i,
    {
        let x: usize = items[i];
        let mut j: usize = 0;
        while j < out.len() && out[j] <= x
            invariant
                j <= out@.len(),
                forall|k: int| 0 <= k < j ==> out@[k] <= x,
            decreases out@.len() - j,
        {
            j += 1;
        }
        proof {
            vstd::seq_lib::to_multiset_insert(out@, j as int, x);
            items@.take(i as int).to_multiset_ensures();
            assert(items@.take(i as int + 1) =~= items@.take(i as int).push(x));
        }
        let ghost before = out@;
        out.insert(j, x);
        assert(ascending(out@)) by {
            assert forall|a: int, b: int| 0 <= a < b < out@.len() implies out@[a] <= out@[b] by {
                if a < j && b > j {
                    assert(out@[a] == before[a] && out@[b] == before[b - 1]);
                } else if a > j {
                    assert(out@[a] == before[a - 1] && out@[b] == before[b - 1]);
                } else if b < j {
                    assert(out@[a] == before[a] && out@[b] == before[b]);
                } else if a == j {
                    assert(out@[b] == before[b - 1]);
                    assert(before[j as int] > x);
                }
            }
        }
        i += 1;
    }
    assert(items@.take(items@.len() as int) =~= items@);
    out
}

/// Chooses `BRACKET_COUNT` different indices of a string of length `len`
/// at random and returns them in ascending order.
pub fn bracket_positions(rng: &mut StdRng, len: usize) -> (positions: Vec<usize>)
    requires
        len >= BRACKET_COUNT,
    ensures
        positions@.len() == BRACKET_COUNT,
        rising_within(positions@, len as int),
{
    let mut all: Vec<usize> = Vec::new();
    let mut i: usize = 0;
    while i < len
        invariant
            i <= len,
            all@ =~= indices(i as int),
        decreases len - i,
    {
        all.push(i);
        i += 1;
    }
    proof {
        assert(indices(len as int).no_duplicates());
    }
    shuffle_positions(rng, &mut all);
    proof {
        lemma_rearranged(all@, indices(len as int));
    }
    let mut first: Vec<usize> = Vec::new();
    let mut k: usize = 0;
    while k < BRACKET_COUNT
        invariant
            k <= BRACKET_COUNT <= all@.len(),
            first@ =~= all@.take(k as int),
        decreases BRACKET_COUNT - k,
    {
        first.push(all[k]);
        k += 1;
    }
    let positions = sort_ascending(&first);
    proof {
        assert(first@.no_duplicates());
        lemma_rearranged(positions@, first@);
        assert forall|a: int| 0 <= a < positions@.len() implies #[trigger] positions@[a] < len by {
            assert(first@.contains(positions@[a]));
            let b = choose|b: int| 0 <= b < first@.len() && first@[b] == positions@[a];
            assert(all@.contains(all@[b]));
            assert(indices(len as int).contains(all@[b]));
        }
    }
    positions
}

/// Whether `s` is a string over the four symbols whose length lies in the
/// closed range from `min` to `max`; where that range is empty, whether its
/// length is `min`.
pub open spec fn is_symbol_string(s: Seq<char>, min: u32, max: u32) -> bool {
    &&& forall|i: int| 0 <= i < s.len() ==> in_alphabet(#[trigger] s[i])
    &&& min <= max ==> min <= s.len() <= max
    &&& min > max ==> s.len() == min
}

/// Whether `rule` is `base` with three bracket pairs inserted at rising
/// positions, or `base` itself where it is too short to hold them.
pub open spec fn is_branching_of(rule: Seq<char>, base: Seq<char>, positions: Seq<usize>) -> bool {
    if base.len() < BRACKET_COUNT {
        rule == base
    } else {
        &&& positions.len() == BRACKET_COUNT
        &&& rising_within(positions, base.len() as int)
        &&& rule == bracketed(base, positions)
    }
}

/// Draws a length from the closed range from `min` to `max`, and then that
/// many symbols by weighted choice.
pub fn random_symbols(min: u32, max: u32, rng: &mut StdRng) -> (out: Vec<char>)
    ensures
        is_symbol_string(out@, min, max),
{
    let count: u32 = draw_closed(rng, min, max);
    let mut out: Vec<char> = Vec::new();
    let mut i: u32 = 0;
    while i < count
        invariant
            i <= count,
            out@.len() == i,
            forall|k: int| 0 <= k < out@.len() ==> in_alphabet(#[trigger] out@[k]),
        decreases count - i,
    {
        let symbol = weighted_choice(rng, SYMBOLS, SYMBOL_WEIGHTS);
        assert(in_alphabet(symbol)) by {
            reveal_with_fuel(prefix_weight, 5);
        }
        out.push(symbol);
        i += 1;
    }
    out
}

/// Generates the replacement string of one rule. Without branching it is a
/// random string over the four symbols. With branching, three pairs of
/// brackets are inserted into that string at six different positions
/// chosen at random; a string of fewer than six symbols has no room for
/// them and is returned as it is.
pub fn generate_rule(min: u32, max: u32, branching: bool, rng: &mut StdRng) -> (rule: Vec<char>)
    ensures
        !branching ==> is_symbol_string(rule@, min, max),
        branching ==> exists|base: Seq<char>, positions: Seq<usize>|
            is_symbol_string(base, min, max) && is_branching_of(rule@, base, positions),
{
    let base = random_symbols(min, max, rng);
    if !branching {
        return base;
    }
    if base.len() < BRACKET_COUNT {
        assert(is_branching_of(base@, base@, Seq::<usize>::empty()));
        return base;
    }
    let positions = bracket_positions(rng, base.len());
    let rule = insert_brackets(&base, &positions);
    assert(is_branching_of(rule@, base@, positions@));
    rule
}

/// One rule of the grammar: every occurrence of `symbol` is replaced by
/// `replacement`.
#[derive(Debug)]
pub struct Rule {
    pub symbol: char,
    pub replacement: Vec<char>,
}

impl View for Rule {
    type V = (char, Seq<char>);

    open spec fn view(&self) -> (char, Seq<char>) {
        (self.symbol, self.replacement@)
    }
}

/// The rules of a table as pairs of a symbol and its replacement.
pub open spec fn rule_views(rules: Seq<Rule>) -> Seq<(char, Seq<char>)> {
    Seq::new(rules.len(), |i: int| rules[i]@)
}

/// What one character is rewritten to: the replacement of the first rule
/// for it, or the character itself where no rule is for it.
pub open spec fn replacement_of(c: char, rules: Seq<(char, Seq<char>)>) -> Seq<char>
    decreases rules.len(),
{
    if rules.len() == 0 {
        seq![c]
    } else if rules[0].0 == c {
        rules[0].1
    } else {
        replacement_of(c, rules.drop_first())
    }
}

/// What a string is rewritten to in one round: the rewritings of its
/// characters, one after the other. The result is not rewritten again.
pub open spec fn rewritten(s: Seq<char>, rules: Seq<(char, Seq<char>)>) -> Seq<char>
    decreases s.len(),
{
    if s.len() == 0 {
        Seq::<char>::empty()
    } else {
        rewritten(s.drop_last(), rules) + replacement_of(s.last(), rules)
    }
}

/// Where a table holds several rules for one symbol, the first of them
/// applies and the later ones never do.
pub proof fn lemma_first_rule_applies(c: char, replacement: Seq<char>, later: Seq<(char, Seq<char>)>)
    ensures
        replacement_of(c, seq![(c, replacement)] + later) == replacement,
{
}

/// A character that no rule is for is left as it is.
pub proof fn lemma_unmatched_is_kept(c: char, rules: Seq<(char, Seq<char>)>)
    requires
        forall|i: int| 0 <= i < rules.len() ==> (#[trigger] rules[i]).0 != c,
    ensures
        replacement_of(c, rules) == seq![c],
    decreases rules.len(),
{
    if rules.len() > 0 {
        let rest = rules.drop_first();
        assert forall|i: int| 0 <= i < rest.len() implies (#[trigger] rest[i]).0 != c by {
            assert(rest[i] == rules[i + 1]);
        }
        lemma_unmatched_is_kept(c, rest);
    }
}

/// Applies the rules to every character of `s`, once.
pub fn rewrite(s: &Vec<char>, rules: &Vec<Rule>) -> (out: Vec<char>)
    ensures
        out@ == rewritten(s@, rule_views(rules@)),
{
    let ghost table = rule_views(rules@);
    let mut out: Vec<char> = Vec::new();
    let mut i: usize = 0;
    assert(s@.take(0) =~= Seq::<char>::empty());
    while i < s.len()
        invariant
            i <= s@.len(),
            out@ == rewritten(s@.take(i as int), table),
            table == rule_views(rules@),
        decreases s@.len() - i,
    {
        let c: char = s[i];
        let mut j: usize = 0;
        let mut found: bool = false;
        assert(table.skip(0) =~= table);
        while j < rules.len() && !found
            invariant
                j <= rules@.len(),
                table == rule_views(rules@),
                !found ==> replacement_of(c, table) == replacement_of(c, table.skip(j as int)),
                found ==> j < rules@.len() && replacement_of(c, table) == rules@[j as int].replacement@,
            decreases rules@.len() - j + (if found { 0int } else { 1int }),
        {
            assert(table.skip(j as int)[0] == rules@[j as int]@);
            assert(table.skip(j as int).drop_first() =~= table.skip(j as int + 1));
            if rules[j].symbol == c {
                found = true;
            } else {
                j += 1;
            }
        }
        proof {
            assert(s@.take(i as int + 1).drop_last() =~= s@.take(i as int));
            assert(s@.take(i as int + 1).last() == c);
        }
        if found {
            let replacement = &rules[j].replacement;
            push_segment(&mut out, replacement, 0, replacement.len());
            assert(replacement@.subrange(0, replacement@.len() as int) =~= replacement@);
        } else {
            assert(table.skip(rules@.len() as int).len() == 0);
            out.push(c);
            assert(out@ =~= rewritten(s@.take(i as int), table) + seq![c]);
        }
        i += 1;
    }
    assert(s@.take(s@.len() as int) =~= s@);
    out
}

} // verus!
