use xenu::color::Rgb;
use xenu::raster::Raster;

fn grey(level: u8) -> Rgb {
    Rgb { red: level, green: level, blue: level }
}

#[test]
fn a_raster_needs_one_pixel_per_coordinate() {
    assert!(Raster::from_pixels(2, 2, vec![grey(0), grey(1), grey(2)]).is_none());
    assert!(Raster::from_pixels(2, 2, vec![grey(0); 5]).is_none());
    assert!(Raster::from_pixels(0, 7, Vec::<Rgb>::new()).is_some());
    assert!(Raster::from_pixels(u32::MAX, u32::MAX, vec![grey(0)]).is_none());
}

#[test]
fn pixels_are_stored_row_after_row() {
    let raster =
        Raster::from_pixels(3, 2, vec![grey(0), grey(1), grey(2), grey(3), grey(4), grey(5)])
            .unwrap();
    assert_eq!(raster.width(), 3);
    assert_eq!(raster.height(), 2);
    assert_eq!(raster.get(0, 0), grey(0));
    assert_eq!(raster.get(2, 0), grey(2));
    assert_eq!(raster.get(0, 1), grey(3));
    assert_eq!(raster.get(2, 1), grey(5));
    assert_eq!(raster.pixel(1, 1), Some(grey(4)));
    assert_eq!(raster.pixel(3, 0), None);
    assert_eq!(raster.pixel(0, 2), None);
    assert_eq!(raster.pixels().len(), 6);
    assert_eq!(raster.into_pixels()[4], grey(4));
}
