use xenu::geometry::{
    is_area, is_offset, is_size, parse_area, parse_offset, parse_size, to_area, to_offset,
    to_size, Area,
};
use xenu::text::{chars_of, parse_integer, parse_natural, split};

fn chars(text: &str) -> Vec<char> {
    text.chars().collect()
}

#[test]
fn chars_are_the_characters_of_the_text() {
    assert_eq!(chars_of(""), Vec::<char>::new());
    assert_eq!(chars_of("a:1"), vec!['a', ':', '1']);
    assert_eq!(chars_of("\u{e9}\u{4e16}x"), vec!['\u{e9}', '\u{4e16}', 'x']);
}

#[test]
fn split_cuts_at_every_colon() {
    assert_eq!(split(&chars("")), vec![chars("")]);
    assert_eq!(split(&chars("12")), vec![chars("12")]);
    assert_eq!(split(&chars("1:2")), vec![chars("1"), chars("2")]);
    assert_eq!(split(&chars(":")), vec![chars(""), chars("")]);
    assert_eq!(split(&chars("1::2:")), vec![chars("1"), chars(""), chars("2"), chars("")]);
}

#[test]
fn naturals_are_digits_within_the_limit() {
    assert_eq!(parse_natural(&chars("0"), 10), Some(0));
    assert_eq!(parse_natural(&chars("10"), 10), Some(10));
    assert_eq!(parse_natural(&chars("11"), 10), None);
    assert_eq!(parse_natural(&chars("0000000000000000000000000007"), 10), Some(7));
    assert_eq!(parse_natural(&chars(""), 10), None);
    assert_eq!(parse_natural(&chars("+1"), 10), None);
    assert_eq!(parse_natural(&chars("-1"), 10), None);
    assert_eq!(parse_natural(&chars("1a"), 10), None);
    assert_eq!(parse_natural(&chars("\u{661}"), 10), None);
    assert_eq!(parse_natural(&chars("18446744073709551615"), u64::MAX), Some(u64::MAX));
    assert_eq!(parse_natural(&chars("18446744073709551616"), u64::MAX), None);
    assert_eq!(parse_natural(&chars("99999999999999999999999999"), u64::MAX), None);
}

#[test]
fn integers_may_have_a_minus_sign() {
    assert_eq!(parse_integer(&chars("0")), Some(0));
    assert_eq!(parse_integer(&chars("-0")), Some(0));
    assert_eq!(parse_integer(&chars("42")), Some(42));
    assert_eq!(parse_integer(&chars("-42")), Some(-42));
    assert_eq!(parse_integer(&chars("9223372036854775807")), Some(i64::MAX));
    assert_eq!(parse_integer(&chars("9223372036854775808")), None);
    assert_eq!(parse_integer(&chars("-9223372036854775808")), Some(i64::MIN));
    assert_eq!(parse_integer(&chars("-9223372036854775809")), None);
    assert_eq!(parse_integer(&chars("")), None);
    assert_eq!(parse_integer(&chars("-")), None);
    assert_eq!(parse_integer(&chars("--1")), None);
    assert_eq!(parse_integer(&chars("1-2")), None);
    assert_eq!(parse_integer(&chars("+1")), None);
}

#[test]
fn offsets_are_one_or_two_integers() {
    assert_eq!(parse_offset("10:20"), Some((10, 20)));
    assert_eq!(parse_offset("-10:-20"), Some((-10, -20)));
    assert_eq!(parse_offset("7"), Some((7, 0)));
    assert_eq!(parse_offset("-7"), Some((-7, 0)));
    assert_eq!(to_offset("3:-4"), (3, -4));
    assert_eq!(is_offset("3:-4"), Ok(()));
}

#[test]
fn malformed_offsets_are_rejected() {
    for text in ["", ":", "1:", ":1", "1:2:3", "a:b", "1:-", "-", "1-2:3", "1 :2", "9223372036854775808:0"] {
        assert_eq!(parse_offset(text), None);
        assert_eq!(is_offset(text), Err(String::from("offsets must be in the X:Y syntax")));
    }
}

#[test]
fn sizes_are_two_naturals() {
    assert_eq!(parse_size("640:480"), Some((640, 480)));
    assert_eq!(parse_size("0:0"), Some((0, 0)));
    assert_eq!(parse_size("4294967295:1"), Some((u32::MAX, 1)));
    assert_eq!(to_size("12:34"), (12, 34));
    assert_eq!(is_size("12:34"), Ok(()));
}

#[test]
fn malformed_sizes_are_rejected() {
    for text in ["", "640", "640:", ":480", "640:480:1", "-1:2", "1:-2", "4294967296:1", "w:h", "6 40:480"] {
        assert_eq!(parse_size(text), None);
        assert_eq!(is_size(text), Err(String::from("sizes must be in the W:H syntax")));
    }
}

#[test]
fn areas_are_four_naturals() {
    assert_eq!(parse_area("1:2:3:4"), Some(Area { x: 1, y: 2, width: 3, height: 4 }));
    assert_eq!(to_area("0:0:10:20"), Area { x: 0, y: 0, width: 10, height: 20 });
    assert_eq!(is_area("0:0:10:20"), Ok(()));
}

#[test]
fn malformed_areas_are_rejected() {
    for text in ["", "1:2:3", "1:2:3:4:5", "1:2:3:", "1:2::4", "-1:2:3:4", "1:2:3:4294967296", "a:b:c:d"] {
        assert_eq!(parse_area(text), None);
        assert_eq!(is_area(text), Err(String::from("areas must be in the X:Y:W:H syntax")));
    }
}
