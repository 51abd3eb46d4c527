use xenu::color::{Rgb, Rgba};
use xenu::compose::Placement;
use xenu::failure::Failure;
use xenu::geometry::{Area, Orientation};
use xenu::options::{configure, Options};
use xenu::pipeline::{paint, render, Background, Config};
use xenu::raster::{Canvas, Image, Raster};
use xenu::scaling::Resize;
use xenu::source::Gradient;

const RED: Rgb = Rgb { red: 255, green: 0, blue: 0 };
const BLUE: Rgb = Rgb { red: 0, green: 0, blue: 255 };

fn config(background: Background) -> Config {
    Config {
        background,
        crop: None,
        resize: Resize::Keep,
        placement: Placement::Stretch,
        opacity: 255,
        flips: Vec::new(),
    }
}

fn level(value: u8) -> Rgba {
    Rgba { red: value, green: value, blue: value, alpha: 255 }
}

fn numbered_image(width: u32, height: u32) -> Image {
    let pixels = (0..width * height).map(|i| level(i as u8 + 1)).collect();
    Raster::from_pixels(width, height, pixels).unwrap()
}

fn reds(canvas: &Canvas) -> Vec<u8> {
    canvas.pixels().iter().map(|pixel| pixel.red).collect()
}

#[test]
fn solid_red_on_a_hundred_by_a_hundred_is_uniform_red() {
    let options = Options {
        solid: Some(String::from("#ff0000")),
        gradient: Vec::new(),
        horizontal: false,
        vertical: false,
        image: false,
        center: false,
        position: None,
        tile: None,
        fit: false,
        resize: None,
        scale: None,
        crop: None,
        opacity: None,
        flip: Vec::new(),
    };
    let canvas = render(&configure(&options).unwrap(), 100, 100, None).unwrap();
    assert_eq!(canvas.width(), 100);
    assert_eq!(canvas.height(), 100);
    assert_eq!(canvas.pixels().len(), 10000);
    assert!(canvas.pixels().iter().all(|pixel| *pixel == RED));
}

#[test]
fn paint_shows_the_background() {
    assert!(paint(&Background::Blank, 3, 2).pixels().iter().all(|pixel| pixel.red == 0 && pixel.green == 0 && pixel.blue == 0));
    assert!(paint(&Background::Solid(BLUE), 3, 2).pixels().iter().all(|pixel| *pixel == BLUE));
    let gradient = Gradient::new(vec![RED, BLUE]).unwrap();
    let canvas = paint(&Background::Gradient { gradient, orientation: Orientation::Horizontal }, 2, 2);
    assert_eq!(canvas.get(0, 1), RED);
    assert_eq!(canvas.get(1, 0), BLUE);
}

#[test]
fn without_an_image_the_background_is_only_flipped() {
    let gradient = Gradient::new(vec![RED, BLUE]).unwrap();
    let description = Config {
        flips: vec![Orientation::Horizontal],
        ..config(Background::Gradient { gradient, orientation: Orientation::Horizontal })
    };
    let canvas = render(&description, 2, 1, None).unwrap();
    assert_eq!(canvas.get(0, 0), BLUE);
    assert_eq!(canvas.get(1, 0), RED);
}

#[test]
fn the_stages_run_in_their_order() {
    // crop the middle 2x2 of a 4x4, put it at (1, 0) on a 4x2 canvas, flip left to right
    let description = Config {
        crop: Some(Area { x: 1, y: 1, width: 2, height: 2 }),
        placement: Placement::Position { x: 1, y: 0 },
        flips: vec![Orientation::Horizontal],
        ..config(Background::Blank)
    };
    let canvas = render(&description, 4, 2, Some(numbered_image(4, 4))).unwrap();
    // cropped: [6, 7 / 10, 11]; placed: [0, 6, 7, 0 / 0, 10, 11, 0]; flipped
    assert_eq!(reds(&canvas), vec![0, 7, 6, 0, 0, 11, 10, 0]);
}

#[test]
fn the_canvas_always_has_the_size_of_the_screen() {
    for placement in [
        Placement::Stretch,
        Placement::Center,
        Placement::Position { x: -5, y: 3 },
        Placement::Tile { x: 2, y: -9 },
    ] {
        for resize in [
            Resize::Keep,
            Resize::Fit,
            Resize::Exact { width: 9, height: 2 },
            Resize::Scale { numerator: 5, denominator: 3 },
        ] {
            let description = Config { resize, placement, ..config(Background::Solid(BLUE)) };
            let canvas = render(&description, 7, 5, Some(numbered_image(3, 4))).unwrap();
            assert_eq!((canvas.width(), canvas.height()), (7, 5));
            assert_eq!(canvas.pixels().len(), 35);
        }
    }
}

#[test]
fn a_crop_beyond_the_image_ends_the_rendering() {
    let description = Config {
        crop: Some(Area { x: 3, y: 3, width: 2, height: 2 }),
        ..config(Background::Blank)
    };
    assert!(matches!(
        render(&description, 4, 4, Some(numbered_image(4, 4))),
        Err(Failure::Geometry)
    ));
}

#[test]
fn an_impossible_resize_ends_the_rendering() {
    let description = Config {
        resize: Resize::Scale { numerator: 1, denominator: 0 },
        ..config(Background::Blank)
    };
    assert!(matches!(
        render(&description, 4, 4, Some(numbered_image(4, 4))),
        Err(Failure::Geometry)
    ));
}

#[test]
fn an_invisible_image_leaves_the_background() {
    let description = Config { opacity: 0, placement: Placement::Center, ..config(Background::Solid(BLUE)) };
    let canvas = render(&description, 4, 4, Some(numbered_image(2, 2))).unwrap();
    assert!(canvas.pixels().iter().all(|pixel| *pixel == BLUE));
}

#[test]
fn a_screen_without_pixels_gives_a_canvas_without_pixels() {
    let canvas = render(&config(Background::Solid(BLUE)), 0, 0, Some(numbered_image(2, 2))).unwrap();
    assert_eq!(canvas.pixels().len(), 0);
}

#[test]
fn by_default_a_flat_image_is_stretched_over_the_whole_screen() {
    let green = Rgba { red: 0, green: 255, blue: 0, alpha: 255 };
    let image = Raster::from_pixels(3, 2, vec![green; 6]).unwrap();
    let canvas = render(&config(Background::Solid(BLUE)), 8, 5, Some(image)).unwrap();
    assert_eq!((canvas.width(), canvas.height()), (8, 5));
    assert!(canvas.pixels().iter().all(|pixel| *pixel == Rgb { red: 0, green: 255, blue: 0 }));
}
