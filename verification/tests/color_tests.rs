use pattern_gen::color::{decode_hex, hex_digit, Rgb};

const BLACK: Rgb = Rgb { r: 0, g: 0, b: 0 };

#[test]
fn decode_reads_three_pairs() {
    assert_eq!(decode_hex("ff8000"), Rgb { r: 255, g: 128, b: 0 });
}

#[test]
fn decode_accepts_either_case() {
    assert_eq!(decode_hex("FF8000"), Rgb { r: 255, g: 128, b: 0 });
    assert_eq!(decode_hex("aAbBcC"), Rgb { r: 170, g: 187, b: 204 });
}

#[test]
fn decode_reads_low_digits() {
    assert_eq!(decode_hex("010203"), Rgb { r: 1, g: 2, b: 3 });
    assert_eq!(decode_hex("000000"), BLACK);
    assert_eq!(decode_hex("ffffff"), Rgb { r: 255, g: 255, b: 255 });
}

#[test]
fn decode_gives_black_for_a_foreign_character() {
    assert_eq!(decode_hex("zz0000"), BLACK);
    assert_eq!(decode_hex("ff80zz"), BLACK);
    assert_eq!(decode_hex("ff 000"), BLACK);
}

#[test]
fn decode_gives_black_for_a_wrong_length() {
    assert_eq!(decode_hex("fff"), BLACK);
    assert_eq!(decode_hex(""), BLACK);
    assert_eq!(decode_hex("ff80"), BLACK);
    assert_eq!(decode_hex("ff8000ff"), BLACK);
    assert_eq!(decode_hex("ff80001"), BLACK);
}

#[test]
fn decode_gives_black_for_a_sign_or_prefix() {
    assert_eq!(decode_hex("+f8000"), BLACK);
    assert_eq!(decode_hex("#ff800"), BLACK);
    assert_eq!(decode_hex("0xff80"), BLACK);
}

#[test]
fn decode_gives_black_for_characters_beyond_ascii() {
    assert_eq!(decode_hex("ff80\u{e9}0"), BLACK);
    assert_eq!(decode_hex("\u{ff11}\u{ff11}0000"), BLACK);
}

#[test]
fn hex_digit_reads_every_digit() {
    let digits = "0123456789abcdef";
    for (value, c) in digits.chars().enumerate() {
        assert_eq!(hex_digit(c), Some(value as u8));
    }
    for (value, c) in "ABCDEF".chars().enumerate() {
        assert_eq!(hex_digit(c), Some(10 + value as u8));
    }
}

#[test]
fn hex_digit_rejects_the_neighbours_of_digits() {
    for c in ['/', ':', '@', 'G', '`', 'g', ' ', '-'] {
        assert_eq!(hex_digit(c), None);
    }
}
