use xenu::color::Rgb;
use xenu::geometry::Orientation;
use xenu::source::{blank, from_gradient, solid, Gradient};

const BLACK: Rgb = Rgb { red: 0, green: 0, blue: 0 };
const WHITE: Rgb = Rgb { red: 255, green: 255, blue: 255 };
const RED: Rgb = Rgb { red: 255, green: 0, blue: 0 };
const GREEN: Rgb = Rgb { red: 0, green: 255, blue: 0 };
const BLUE: Rgb = Rgb { red: 0, green: 0, blue: 255 };

fn grey(level: u8) -> Rgb {
    Rgb { red: level, green: level, blue: level }
}

#[test]
fn solid_fills_every_pixel() {
    let canvas = solid(4, 3, RED);
    assert_eq!(canvas.width(), 4);
    assert_eq!(canvas.height(), 3);
    assert_eq!(canvas.pixels().len(), 12);
    assert!(canvas.pixels().iter().all(|pixel| *pixel == RED));
}

#[test]
fn blank_is_black() {
    let canvas = blank(2, 2);
    assert!(canvas.pixels().iter().all(|pixel| *pixel == BLACK));
}

#[test]
fn a_canvas_may_have_no_pixels() {
    assert_eq!(solid(0, 5, RED).pixels().len(), 0);
    assert_eq!(solid(5, 0, RED).pixels().len(), 0);
}

#[test]
fn a_gradient_needs_a_stop() {
    assert!(Gradient::new(Vec::new()).is_none());
    assert!(Gradient::new(vec![RED]).is_some());
}

#[test]
fn vertical_black_to_white_runs_from_black_row_to_white_row() {
    let gradient = Gradient::new(vec![BLACK, WHITE]).unwrap();
    let canvas = from_gradient(3, 5, Orientation::Vertical, &gradient);
    let levels = [0u8, 63, 127, 191, 255];
    for y in 0..5u32 {
        for x in 0..3u32 {
            assert_eq!(canvas.get(x, y), grey(levels[y as usize]));
        }
    }
}

#[test]
fn vertical_black_to_white_never_gets_darker() {
    let gradient = Gradient::new(vec![BLACK, WHITE]).unwrap();
    for height in [2u16, 3, 7, 100, 256, 1000] {
        let canvas = from_gradient(1, height, Orientation::Vertical, &gradient);
        assert_eq!(canvas.get(0, 0), BLACK);
        assert_eq!(canvas.get(0, height as u32 - 1), WHITE);
        for y in 1..height as u32 {
            assert!(canvas.get(0, y - 1).red <= canvas.get(0, y).red);
        }
    }
}

#[test]
fn horizontal_gradient_gives_each_column_one_colour() {
    let gradient = Gradient::new(vec![RED, GREEN, BLUE]).unwrap();
    let canvas = from_gradient(5, 2, Orientation::Horizontal, &gradient);
    let columns = [
        RED,
        Rgb { red: 127, green: 127, blue: 0 },
        GREEN,
        Rgb { red: 0, green: 127, blue: 127 },
        BLUE,
    ];
    for x in 0..5u32 {
        assert_eq!(canvas.get(x, 0), columns[x as usize]);
        assert_eq!(canvas.get(x, 1), columns[x as usize]);
    }
}

#[test]
fn a_single_stop_or_a_single_sample_gives_the_first_stop() {
    let one = Gradient::new(vec![GREEN]).unwrap();
    assert_eq!(one.sample(4, 0), GREEN);
    assert_eq!(one.sample(4, 3), GREEN);
    let two = Gradient::new(vec![BLACK, WHITE]).unwrap();
    assert_eq!(two.sample(1, 0), BLACK);
    let canvas = from_gradient(4, 1, Orientation::Vertical, &two);
    assert!(canvas.pixels().iter().all(|pixel| *pixel == BLACK));
}

#[test]
fn samples_between_stops_are_interpolated_and_rounded_down() {
    let gradient = Gradient::new(vec![Rgb { red: 10, green: 200, blue: 0 }, Rgb { red: 20, green: 100, blue: 255 }]).unwrap();
    // sample 1 of 4: one third of the way
    assert_eq!(gradient.sample(4, 1), Rgb { red: 13, green: 166, blue: 85 });
    assert_eq!(gradient.sample(4, 2), Rgb { red: 16, green: 133, blue: 170 });
}
