use skid_core::color::SKIDColor;
use skid_core::image::{SKIDImage, SKIDSizeVector2};

#[test]
fn new_image_is_transparent_black() {
    let img = SKIDImage::new(3, 2);
    assert_eq!(img.get_size(), SKIDSizeVector2 { width: 3, height: 2 });
    assert_eq!(img.len(), 6);
    assert_eq!(img.get_pixel(2, 1), Some(SKIDColor::new(0, 0, 0, 0)));
}

#[test]
fn get_pixel_out_of_bounds_is_absent() {
    let img = SKIDImage::new(3, 2);
    assert_eq!(img.get_pixel(3, 0), None);
    assert_eq!(img.get_pixel(0, 2), None);
    assert_eq!(img.get_pixel(100, 100), None);
}

#[test]
fn set_pixel_in_and_out_of_bounds() {
    let mut img = SKIDImage::new(2, 2);
    let red = SKIDColor::new(255, 0, 0, 255);
    assert_eq!(img.set_pixel(1, 0, red), Some(()));
    assert_eq!(img.get_pixel(1, 0), Some(red));
    // The neighbors are untouched.
    assert_eq!(img.get_pixel(0, 0), Some(SKIDColor::new(0, 0, 0, 0)));
    // Out of bounds: reported, nothing changes.
    assert_eq!(img.set_pixel(2, 0, red), None);
    assert_eq!(img.get_pixel(0, 1), Some(SKIDColor::new(0, 0, 0, 0)));
}

#[test]
fn fill_overwrites_every_pixel() {
    let mut img = SKIDImage::new_with_color(2, 3, SKIDColor::new(1, 1, 1, 1));
    let c = SKIDColor::new(9, 8, 7, 6);
    img.fill(c);
    for y in 0..3 {
        for x in 0..2 {
            assert_eq!(img.get_pixel(x, y), Some(c));
        }
    }
}

#[test]
fn from_data_row_major_layout() {
    let data = vec![
        SKIDColor::new(1, 0, 0, 0),
        SKIDColor::new(2, 0, 0, 0),
        SKIDColor::new(3, 0, 0, 0),
        SKIDColor::new(4, 0, 0, 0),
        SKIDColor::new(5, 0, 0, 0),
        SKIDColor::new(6, 0, 0, 0),
    ];
    let img = SKIDImage::from_1d_data(SKIDSizeVector2 { width: 3, height: 2 }, data);
    // Index y * width + x.
    assert_eq!(img.get_pixel(0, 0), Some(SKIDColor::new(1, 0, 0, 0)));
    assert_eq!(img.get_pixel(2, 0), Some(SKIDColor::new(3, 0, 0, 0)));
    assert_eq!(img.get_pixel(0, 1), Some(SKIDColor::new(4, 0, 0, 0)));
    assert_eq!(img.get_pixel(2, 1), Some(SKIDColor::new(6, 0, 0, 0)));
    let flat = img.get_1d_data();
    assert_eq!(flat.len(), 6);
    assert_eq!(flat[4], SKIDColor::new(5, 0, 0, 0));
}
