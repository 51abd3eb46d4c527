use xenu::color::{is_color, parse_color, to_color, with_opacity, Rgb, Rgba};

#[test]
fn opaque_source_replaces_what_is_below() {
    let source = Rgba { red: 10, green: 20, blue: 30, alpha: 255 };
    let below = Rgb { red: 200, green: 100, blue: 0 };
    assert_eq!(source.over(below), Rgb { red: 10, green: 20, blue: 30 });
}

#[test]
fn transparent_source_keeps_what_is_below() {
    let source = Rgba { red: 10, green: 20, blue: 30, alpha: 0 };
    let below = Rgb { red: 200, green: 100, blue: 0 };
    assert_eq!(source.over(below), below);
}

#[test]
fn half_alpha_mixes_to_the_nearest_value() {
    let source = Rgba { red: 255, green: 0, blue: 100, alpha: 128 };
    let below = Rgb { red: 0, green: 255, blue: 100 };
    // red: (255 * 128 + 0 * 127 + 127) / 255 = 128
    // green: (0 * 128 + 255 * 127 + 127) / 255 = 127
    assert_eq!(source.over(below), Rgb { red: 128, green: 127, blue: 100 });
}

#[test]
fn opacity_reduces_alpha_by_its_distance_from_full() {
    let value = Rgba { red: 1, green: 2, blue: 3, alpha: 200 };
    assert_eq!(with_opacity(&value, 255), value);
    assert_eq!(with_opacity(&value, 155).alpha, 100);
    assert_eq!(with_opacity(&value, 55).alpha, 0);
    assert_eq!(with_opacity(&value, 0).alpha, 0);
    assert_eq!(with_opacity(&value, 54).alpha, 0);
}

#[test]
fn short_and_long_white_are_the_same_opaque_colour() {
    let white = Rgba { red: 255, green: 255, blue: 255, alpha: 255 };
    assert_eq!(parse_color("#fff"), Some(white));
    assert_eq!(parse_color("#ffffff"), Some(white));
    assert_eq!(parse_color("#FFF"), Some(white));
}

#[test]
fn short_digits_are_doubled() {
    assert_eq!(
        parse_color("#1a9"),
        Some(Rgba { red: 0x11, green: 0xaa, blue: 0x99, alpha: 255 })
    );
    assert_eq!(to_color("#1a9"), to_color("#11aa99"));
}

#[test]
fn long_form_gives_each_channel_two_digits() {
    assert_eq!(to_color("#ff0000"), Rgba { red: 255, green: 0, blue: 0, alpha: 255 });
    assert_eq!(to_color("#0180Fe"), Rgba { red: 1, green: 128, blue: 254, alpha: 255 });
}

#[test]
fn malformed_colours_are_rejected() {
    for text in ["", "#", "fff", "#ff", "#ffff", "#fffff", "#fffffff", "#ggg", "#12345z", "ffffff", "#ff ", "#\u{e9}ff", "0fff"] {
        assert_eq!(parse_color(text), None);
        assert_eq!(is_color(text), Err(String::from("invalid color")));
    }
    assert_eq!(is_color("#abc"), Ok(()));
    assert_eq!(is_color("#abcdef"), Ok(()));
}
