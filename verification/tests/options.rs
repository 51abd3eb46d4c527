use xenu::color::Rgb;
use xenu::compose::Placement;
use xenu::failure::Failure;
use xenu::geometry::{Area, Orientation};
use xenu::options::{configure, parse_flip, Options, Ratio};
use xenu::pipeline::Background;
use xenu::scaling::Resize;

fn none() -> Options {
    Options {
        solid: None,
        gradient: Vec::new(),
        horizontal: false,
        vertical: false,
        image: false,
        center: false,
        position: None,
        tile: None,
        fit: false,
        resize: None,
        scale: None,
        crop: None,
        opacity: None,
        flip: Vec::new(),
    }
}

fn image() -> Options {
    Options { image: true, ..none() }
}

fn text(value: &str) -> Option<String> {
    Some(String::from(value))
}

fn failure(options: &Options) -> Failure {
    match configure(options) {
        Ok(_) => panic!("the options were accepted"),
        Err(failure) => failure,
    }
}

#[test]
fn flips_are_named_in_either_case() {
    for word in ["vertically", "vertical", "vert", "v", "V", "Vertical", "VERT"] {
        assert_eq!(parse_flip(word), Some(Orientation::Vertical));
    }
    for word in ["horizontally", "horizontal", "horiz", "h", "H", "HORIZONTAL", "hOrIz"] {
        assert_eq!(parse_flip(word), Some(Orientation::Horizontal));
    }
    for word in ["", "x", "vertica", "verticall", "hor", " h", "h ", "horizontaly", "\u{212a}"] {
        assert_eq!(parse_flip(word), None);
    }
}

#[test]
fn a_solid_colour_alone_is_a_solid_background() {
    let config = configure(&Options { solid: text("#ff0000"), ..none() }).unwrap();
    assert!(matches!(config.background, Background::Solid(Rgb { red: 255, green: 0, blue: 0 })));
    assert_eq!(config.crop, None);
    assert_eq!(config.resize, Resize::Keep);
    assert_eq!(config.placement, Placement::Stretch);
    assert_eq!(config.opacity, 255);
    assert_eq!(config.flips, Vec::new());
}

#[test]
fn an_image_alone_is_stretched_over_black() {
    let config = configure(&image()).unwrap();
    assert!(matches!(config.background, Background::Blank));
    assert_eq!(config.placement, Placement::Stretch);
    assert_eq!(config.opacity, 255);
}

#[test]
fn a_gradient_goes_before_a_solid_colour() {
    let options = Options {
        solid: text("#fff"),
        gradient: vec![String::from("#000"), String::from("#ffffff")],
        ..none()
    };
    let config = configure(&options).unwrap();
    match config.background {
        Background::Gradient { gradient, orientation } => {
            assert_eq!(orientation, Orientation::Horizontal);
            assert_eq!(gradient.sample(2, 0), Rgb { red: 0, green: 0, blue: 0 });
            assert_eq!(gradient.sample(2, 1), Rgb { red: 255, green: 255, blue: 255 });
        }
        _ => panic!("no gradient"),
    }
}

#[test]
fn a_gradient_is_vertical_where_that_is_asked_for() {
    let options = Options { gradient: vec![String::from("#000")], vertical: true, ..none() };
    assert!(matches!(
        configure(&options).unwrap().background,
        Background::Gradient { orientation: Orientation::Vertical, .. }
    ));
    let options = Options {
        gradient: vec![String::from("#000")],
        vertical: true,
        horizontal: true,
        ..none()
    };
    assert!(matches!(
        configure(&options).unwrap().background,
        Background::Gradient { orientation: Orientation::Vertical, .. }
    ));
}

#[test]
fn every_image_option_is_read() {
    let options = Options {
        solid: text("#00f"),
        tile: text("-3:4"),
        resize: text("30:40"),
        crop: text("1:2:3:4"),
        opacity: Some(77),
        flip: vec![String::from("H"), String::from("sideways"), String::from("vert")],
        ..image()
    };
    let config = configure(&options).unwrap();
    assert!(matches!(config.background, Background::Solid(Rgb { red: 0, green: 0, blue: 255 })));
    assert_eq!(config.crop, Some(Area { x: 1, y: 2, width: 3, height: 4 }));
    assert_eq!(config.resize, Resize::Exact { width: 30, height: 40 });
    assert_eq!(config.placement, Placement::Tile { x: -3, y: 4 });
    assert_eq!(config.opacity, 77);
    assert_eq!(config.flips, vec![Orientation::Horizontal, Orientation::Vertical]);
}

#[test]
fn each_placement_and_each_resize_is_read() {
    assert_eq!(configure(&Options { center: true, ..image() }).unwrap().placement, Placement::Center);
    assert_eq!(
        configure(&Options { position: text("5"), ..image() }).unwrap().placement,
        Placement::Position { x: 5, y: 0 }
    );
    assert_eq!(configure(&Options { fit: true, ..image() }).unwrap().resize, Resize::Fit);
    assert_eq!(
        configure(&Options { scale: Some(Ratio { numerator: 3, denominator: 2 }), ..image() })
            .unwrap()
            .resize,
        Resize::Scale { numerator: 3, denominator: 2 }
    );
}

#[test]
fn flips_need_no_image() {
    let options = Options { solid: text("#123"), flip: vec![String::from("v")], ..none() };
    assert_eq!(configure(&options).unwrap().flips, vec![Orientation::Vertical]);
}

#[test]
fn options_without_a_background_are_refused() {
    assert_eq!(failure(&none()), Failure::Options);
    assert_eq!(failure(&Options { flip: vec![String::from("v")], ..none() }), Failure::Options);
}

#[test]
fn an_axis_without_a_gradient_is_refused() {
    assert_eq!(failure(&Options { solid: text("#fff"), vertical: true, ..none() }), Failure::Options);
    assert_eq!(failure(&Options { horizontal: true, ..image() }), Failure::Options);
}

#[test]
fn image_options_without_an_image_are_refused() {
    let solid = || Options { solid: text("#fff"), ..none() };
    assert_eq!(failure(&Options { center: true, ..solid() }), Failure::Options);
    assert_eq!(failure(&Options { position: text("1:1"), ..solid() }), Failure::Options);
    assert_eq!(failure(&Options { tile: text("1:1"), ..solid() }), Failure::Options);
    assert_eq!(failure(&Options { fit: true, ..solid() }), Failure::Options);
    assert_eq!(failure(&Options { resize: text("1:1"), ..solid() }), Failure::Options);
    assert_eq!(
        failure(&Options { scale: Some(Ratio { numerator: 1, denominator: 1 }), ..solid() }),
        Failure::Options
    );
    assert_eq!(failure(&Options { crop: text("0:0:1:1"), ..solid() }), Failure::Options);
    assert_eq!(failure(&Options { opacity: Some(255), ..solid() }), Failure::Options);
}

#[test]
fn two_placements_are_refused() {
    assert_eq!(failure(&Options { center: true, tile: text("0:0"), ..image() }), Failure::Options);
    assert_eq!(failure(&Options { center: true, position: text("0:0"), ..image() }), Failure::Options);
    assert_eq!(
        failure(&Options { position: text("0:0"), tile: text("0:0"), ..image() }),
        Failure::Options
    );
}

#[test]
fn two_resizes_are_refused() {
    assert_eq!(failure(&Options { fit: true, resize: text("1:1"), ..image() }), Failure::Options);
    assert_eq!(
        failure(&Options {
            fit: true,
            scale: Some(Ratio { numerator: 1, denominator: 1 }),
            ..image()
        }),
        Failure::Options
    );
    assert_eq!(
        failure(&Options {
            resize: text("1:1"),
            scale: Some(Ratio { numerator: 1, denominator: 1 }),
            ..image()
        }),
        Failure::Options
    );
}

#[test]
fn a_colour_that_cannot_be_read_is_a_colour_failure() {
    assert_eq!(failure(&Options { solid: text("red"), ..none() }), Failure::Color);
    assert_eq!(
        failure(&Options { gradient: vec![String::from("#000"), String::from("#00")], ..none() }),
        Failure::Color
    );
    assert_eq!(
        failure(&Options { gradient: vec![String::from("oops"), String::from("#000")], ..none() }),
        Failure::Color
    );
    // before any geometry is looked at
    assert_eq!(failure(&Options { solid: text("red"), crop: text("x"), ..image() }), Failure::Color);
}

#[test]
fn a_geometry_that_cannot_be_read_is_a_geometry_failure() {
    assert_eq!(failure(&Options { crop: text("1:2:3"), ..image() }), Failure::Geometry);
    assert_eq!(failure(&Options { resize: text("1"), ..image() }), Failure::Geometry);
    assert_eq!(failure(&Options { position: text("1:2:3"), ..image() }), Failure::Geometry);
    assert_eq!(failure(&Options { tile: text("a"), ..image() }), Failure::Geometry);
    assert_eq!(
        failure(&Options { scale: Some(Ratio { numerator: 1, denominator: 0 }), ..image() }),
        Failure::Geometry
    );
}

#[test]
fn conflicts_are_found_before_texts_are_read() {
    assert_eq!(
        failure(&Options { solid: text("red"), center: true, tile: text("x"), ..image() }),
        Failure::Options
    );
}
