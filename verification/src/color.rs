//! RGB triples and their six-digit hexadecimal notation.

use vstd::prelude::*;
use vstd::string::StrSliceExecFns;

verus! {

/// An RGB triple.
#[derive(Clone, Copy, Debug, PartialEq, Eq, Structural)]
pub struct Rgb {
    pub r: u8,
    pub g: u8,
    pub b: u8,
}

/// The colour that a malformed notation decodes to.
pub open spec fn black() -> Rgb {
    Rgb { r: 0, g: 0, b: 0 }
}

/// The value of one hexadecimal digit, in either case; `None` for any
/// other character.
pub open spec fn hex_value(c: char) -> Option<u8> {
    let v = c as u32;
    if 48 <= v <= 57 {
        Some((v - 48) as u8)
    } else if 97 <= v <= 102 {
        Some((v - 87) as u8)
    } else if 65 <= v <= 70 {
        Some((v - 55) as u8)
    } else {
        None
    }
}

/// A notation is well formed when it is exactly six hexadecimal digits.
pub open spec fn is_hex6(s: Seq<char>) -> bool {
    s.len() == 6 && forall|i: int| 0 <= i < 6 ==> (#[trigger] hex_value(s[i])) is Some
}

/// The byte written by two hexadecimal digits, most significant first.
pub open spec fn pair_value(hi: char, lo: char) -> u8
    recommends
        hex_value(hi) is Some,
        hex_value(lo) is Some,
{
    (16 * hex_value(hi).unwrap() + hex_value(lo).unwrap()) as u8
}

/// The colour that a notation stands for: its three digit pairs as red,
/// green and blue when it is well formed, black otherwise.
pub open spec fn decoded(s: Seq<char>) -> Rgb {
    if is_hex6(s) {
        Rgb { r: pair_value(s[0], s[1]), g: pair_value(s[2], s[3]), b: pair_value(s[4], s[5]) }
    } else {
        black()
    }
}

/// Reads one hexadecimal digit.
pub fn hex_digit(c: char) -> (d: Option<u8>)
    ensures
        d == hex_value(c),
        d matches Some(v) ==> v < 16,
{
    let v: u32 = c as u32;
    if 48 <= v && v <= 57 {
        Some((v - 48) as u8)
    } else if 97 <= v && v <= 102 {
        Some((v - 87) as u8)
    } else if 65 <= v && v <= 70 {
        Some((v - 55) as u8)
    } else {
        None
    }
}

/// Decodes a six-digit hexadecimal colour. Any malformed notation, whether
/// by a foreign character or by its length, gives black as a whole: no
/// partially decoded colour is ever returned.
pub fn decode_hex(s: &str) -> (color: Rgb)
    ensures
        color == decoded(s@),
{
    if s.unicode_len() != 6 {
        return Rgb { r: 0, g: 0, b: 0 };
    }
    let mut bytes: [u8; 3] = [0, 0, 0];
    let mut k: usize = 0;
    while k < 3
        invariant
            k <= 3,
            s@.len() == 6,
            forall|i: int| 0 <= i < 2 * k ==> (#[trigger] hex_value(s@[i])) is Some,
            forall|j: int| 0 <= j < k ==> (#[trigger] bytes[j]) == pair_value(s@[2 * j], s@[2 * j + 1]),
        decreases 3 - k,
    {
        let hi = hex_digit(s.get_char(2 * k));
        let lo = hex_digit(s.get_char(2 * k + 1));
        match (hi, lo) {
            (Some(h), Some(l)) => {
                bytes[k] = 16 * h + l;
            },
            _ => {
                return Rgb { r: 0, g: 0, b: 0 };
            },
        }
        k += 1;
    }
    Rgb { r: bytes[0], g: bytes[1], b: bytes[2] }
}

} // verus!
