use layaway::parse::{delimiter, hori, hori_spec, rotation, skip_spaces, space, vert, vert_spec};
use layaway::geometry::{Hori, MaybeCenter, Rotation, Vert};
use layaway::text::{
    chars_of, digit, digit_text, number_in, push_decimal, push_fixed, push_int, range_is,
    skip_digits, starts_at,
};

fn chars(s: &str) -> Vec<char> {
    s.chars().collect()
}

#[test]
fn chars_of_text() {
    assert_eq!(chars_of("dp1 é"), vec!['d', 'p', '1', ' ', 'é']);
    assert_eq!(chars_of(""), Vec::<char>::new());
}

#[test]
fn starts_at_within_bounds() {
    let input = chars("left,top");
    assert!(starts_at(&input, input.len(), 0, "left"));
    assert!(starts_at(&input, input.len(), 5, "top"));
    assert!(!starts_at(&input, 7, 5, "top"));
    assert!(!starts_at(&input, input.len(), 6, "top"));
    assert!(!starts_at(&input, input.len(), 0, "lift"));
    assert!(starts_at(&input, input.len(), 8, ""));
    assert!(!starts_at(&input, input.len(), 9, ""));
    assert!(range_is(&input, 5, 8, "top"));
    assert!(!range_is(&input, 4, 8, "top"));
    assert!(!range_is(&input, 5, 7, "top"));
}

#[test]
fn digits_and_numbers() {
    assert!(digit('0') && digit('9'));
    assert!(!digit('/') && !digit(':') && !digit('a') && !digit('\u{0663}'));
    let input = chars("x0123y");
    assert_eq!(skip_digits(&input, input.len(), 1), 5);
    assert_eq!(skip_digits(&input, 3, 1), 3);
    assert_eq!(skip_digits(&input, input.len(), 0), 0);
    assert_eq!(number_in(&input, 1, 5, 1000), Some(123));
    assert_eq!(number_in(&input, 1, 5, 123), Some(123));
    assert_eq!(number_in(&input, 1, 5, 122), None);
    assert_eq!(number_in(&input, 1, 1, 0), Some(0));
}

#[test]
fn numbers_as_text() {
    let mut out = String::from("n=");
    push_decimal(&mut out, 0);
    push_int(&mut out, -45);
    push_int(&mut out, 45);
    push_int(&mut out, i64::MIN);
    push_decimal(&mut out, u64::MAX);
    push_fixed(&mut out, 5, 3);
    push_fixed(&mut out, 12345, 2);
    push_fixed(&mut out, 7, 0);
    assert_eq!(out, "n=0-4545-92233720368547758081844674407370955161500545");
    assert_eq!(digit_text(7), "7");
}

#[test]
fn white_space() {
    for c in [' ', '\t', '\n', '\r', '\u{b}', '\u{c}', '\u{85}', '\u{a0}', '\u{1680}', '\u{2000}',
        '\u{200a}', '\u{2028}', '\u{2029}', '\u{202f}', '\u{205f}', '\u{3000}']
    {
        assert!(space(c), "{c:?}");
    }
    for c in ['a', '0', '+', '\u{200b}', '\u{feff}', '\u{1f}', '\u{8}'] {
        assert!(!space(c), "{c:?}");
    }
    for code in 0..0x3100u32 {
        if let Some(c) = char::from_u32(code) {
            assert_eq!(space(c), c.is_whitespace(), "{code:x}");
        }
    }
    let input = chars("a \n\t b");
    assert_eq!(skip_spaces(&input, input.len(), 1), 5);
    assert_eq!(skip_spaces(&input, 3, 1), 3);
    assert_eq!(skip_spaces(&input, input.len(), 0), 0);
}

#[test]
fn delimiters_with_white_space() {
    let input = chars("a  @  b");
    assert_eq!(delimiter(&input, input.len(), 1, '@'), Some(6));
    assert_eq!(delimiter(&input, input.len(), 1, ':'), None);
    assert_eq!(delimiter(&input, 4, 1, '@'), Some(4));
    assert_eq!(delimiter(&input, 3, 1, '@'), None);
}

#[test]
fn words_of_the_description() {
    let read = |text: &str| {
        let input = chars(text);
        (
            rotation(&input, input.len(), 0),
            hori(&input, input.len(), 0),
            vert(&input, input.len(), 0),
            hori_spec(&input, input.len(), 0),
            vert_spec(&input, input.len(), 0),
        )
    };
    assert_eq!(read("0").0, Some((Rotation::Zero, 1)));
    assert_eq!(read("90").0, Some((Rotation::Quarter, 2)));
    assert_eq!(read("180").0, Some((Rotation::Half, 3)));
    assert_eq!(read("270").0, Some((Rotation::ThreeQuarter, 3)));
    assert_eq!(read("9").0, None);
    assert_eq!(read("left").1, Some((Hori::Left, 4)));
    assert_eq!(read("right").1, Some((Hori::Right, 5)));
    assert_eq!(read("center").1, None);
    assert_eq!(read("top").2, Some((Vert::Top, 3)));
    assert_eq!(read("bottom").2, Some((Vert::Bottom, 6)));
    assert_eq!(read("left").2, None);
    assert_eq!(read("center").3, Some((MaybeCenter::Center, 6)));
    assert_eq!(read("right").3, Some((MaybeCenter::Extreme(Hori::Right), 5)));
    assert_eq!(read("top").3, None);
    assert_eq!(read("center").4, Some((MaybeCenter::Center, 6)));
    assert_eq!(read("bottom").4, Some((MaybeCenter::Extreme(Vert::Bottom), 6)));
    assert_eq!(read("left").4, None);
}
