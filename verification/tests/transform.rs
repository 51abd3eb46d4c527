use xenu::color::Rgb;
use xenu::failure::Failure;
use xenu::geometry::{Area, Orientation};
use xenu::raster::Raster;
use xenu::transform::{crop, flip, flip_all};

fn grey(level: u8) -> Rgb {
    Rgb { red: level, green: level, blue: level }
}

fn numbered(width: u32, height: u32) -> Raster<Rgb> {
    let pixels = (0..width * height).map(|i| grey(i as u8)).collect();
    Raster::from_pixels(width, height, pixels).unwrap()
}

fn levels(raster: &Raster<Rgb>) -> Vec<u8> {
    raster.pixels().iter().map(|pixel| pixel.red).collect()
}

#[test]
fn crop_keeps_the_named_rectangle() {
    let cut = crop(numbered(4, 3), &Area { x: 1, y: 1, width: 2, height: 2 }).unwrap();
    assert_eq!(cut.width(), 2);
    assert_eq!(cut.height(), 2);
    assert_eq!(levels(&cut), vec![5, 6, 9, 10]);
}

#[test]
fn crop_of_the_whole_is_the_whole() {
    let cut = crop(numbered(4, 3), &Area { x: 0, y: 0, width: 4, height: 3 }).unwrap();
    assert_eq!(levels(&cut), levels(&numbered(4, 3)));
}

#[test]
fn crop_beyond_the_raster_is_refused() {
    for area in [
        Area { x: 3, y: 0, width: 2, height: 1 },
        Area { x: 0, y: 2, width: 1, height: 2 },
        Area { x: 5, y: 0, width: 0, height: 0 },
        Area { x: u32::MAX, y: 0, width: u32::MAX, height: 1 },
        Area { x: 0, y: 0, width: 5, height: 3 },
    ] {
        assert!(matches!(crop(numbered(4, 3), &area), Err(Failure::Geometry)));
    }
}

#[test]
fn an_empty_crop_changes_nothing() {
    let cut = crop(numbered(4, 3), &Area { x: 1, y: 1, width: 0, height: 2 }).unwrap();
    assert_eq!(cut.width(), 4);
    assert_eq!(levels(&cut), levels(&numbered(4, 3)));
    let cut = crop(numbered(4, 3), &Area { x: 4, y: 3, width: 0, height: 0 }).unwrap();
    assert_eq!(levels(&cut), levels(&numbered(4, 3)));
}

#[test]
fn horizontal_flip_exchanges_left_and_right() {
    let flipped = flip(numbered(3, 2), Orientation::Horizontal);
    assert_eq!(levels(&flipped), vec![2, 1, 0, 5, 4, 3]);
}

#[test]
fn vertical_flip_exchanges_top_and_bottom() {
    let flipped = flip(numbered(3, 2), Orientation::Vertical);
    assert_eq!(levels(&flipped), vec![3, 4, 5, 0, 1, 2]);
}

#[test]
fn flips_are_applied_in_order() {
    let both = flip_all(numbered(3, 2), &vec![Orientation::Horizontal, Orientation::Vertical]);
    assert_eq!(levels(&both), vec![5, 4, 3, 2, 1, 0]);
    let twice = flip_all(numbered(3, 2), &vec![Orientation::Horizontal, Orientation::Horizontal]);
    assert_eq!(levels(&twice), levels(&numbered(3, 2)));
    let none = flip_all(numbered(3, 2), &Vec::new());
    assert_eq!(levels(&none), levels(&numbered(3, 2)));
}

#[test]
fn flipping_an_empty_raster_gives_an_empty_raster() {
    let flipped = flip(numbered(0, 3), Orientation::Vertical);
    assert_eq!(flipped.width(), 0);
    assert_eq!(flipped.height(), 3);
    assert_eq!(flipped.pixels().len(), 0);
}
