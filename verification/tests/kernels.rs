use skid_core::color::SKIDColor;
use skid_core::generator::generate_example_image;
use skid_core::image::{SKIDImage, SKIDSizeVector2};
use skid_core::normal_map::{make_normal_map, make_normal_map_base};
use skid_core::ops::apply_add_const;
use skid_core::resize::{resize_bilinear, resize_image, resize_nearest};

fn distinct_2x2() -> SKIDImage {
    SKIDImage::from_data(
        2,
        2,
        vec![
            SKIDColor::new(255, 0, 0, 255),
            SKIDColor::new(0, 255, 0, 255),
            SKIDColor::new(0, 0, 255, 255),
            SKIDColor::new(255, 255, 0, 255),
        ],
    )
}

#[test]
fn resize_identity_nearest_is_exact() {
    let img = distinct_2x2();
    let out = resize_image(&img, SKIDSizeVector2 { width: 2, height: 2 });
    for y in 0..2 {
        for x in 0..2 {
            assert_eq!(out.get_pixel(x, y), img.get_pixel(x, y));
        }
    }
}

#[test]
fn resize_identity_bilinear_is_exact() {
    let img = distinct_2x2();
    let out = resize_bilinear(&img, SKIDSizeVector2 { width: 2, height: 2 });
    for y in 0..2 {
        for x in 0..2 {
            assert_eq!(out.get_pixel(x, y), img.get_pixel(x, y));
        }
    }
}

#[test]
fn upscale_2x2_to_4x4_bilinear() {
    let img = distinct_2x2();
    let out = resize_image(&img, SKIDSizeVector2 { width: 4, height: 4 });
    assert_eq!(out.get_size(), SKIDSizeVector2 { width: 4, height: 4 });
    // The four corner pixels reproduce the four source colors exactly:
    // their sample windows clamp to a single source pixel.
    assert_eq!(out.get_pixel(0, 0), img.get_pixel(0, 0));
    assert_eq!(out.get_pixel(3, 0), img.get_pixel(1, 0));
    assert_eq!(out.get_pixel(0, 3), img.get_pixel(0, 1));
    assert_eq!(out.get_pixel(3, 3), img.get_pixel(1, 1));
    // Interior pixels blend by the exact fractional weights.
    assert_eq!(out.get_pixel(1, 1), Some(SKIDColor::new(159, 63, 47, 255)));
    assert_eq!(out.get_pixel(2, 2), Some(SKIDColor::new(159, 191, 47, 255)));
}

#[test]
fn downscale_4x4_to_2x2_nearest() {
    let mut data = Vec::new();
    for i in 0..16u8 {
        data.push(SKIDColor::new(i, 16 * i, 255 - i, 255));
    }
    let img = SKIDImage::from_data(4, 4, data);
    let out = resize_image(&img, SKIDSizeVector2 { width: 2, height: 2 });
    assert_eq!(out.get_size(), SKIDSizeVector2 { width: 2, height: 2 });
    for y in 0..2 {
        for x in 0..2 {
            // Nearest-neighbor index formula: (x * 4 / 2, y * 4 / 2).
            assert_eq!(out.get_pixel(x, y), img.get_pixel(2 * x, 2 * y));
        }
    }
}

#[test]
fn downscale_3x3_to_2x2_nearest_truncates() {
    let mut data = Vec::new();
    for i in 0..9u8 {
        data.push(SKIDColor::new(i, i, i, 255));
    }
    let img = SKIDImage::from_data(3, 3, data);
    let out = resize_nearest(&img, SKIDSizeVector2 { width: 2, height: 2 });
    // x * 3 / 2 truncates: output columns sample source columns 0 and 1.
    assert_eq!(out.get_pixel(0, 0), img.get_pixel(0, 0));
    assert_eq!(out.get_pixel(1, 0), img.get_pixel(1, 0));
    assert_eq!(out.get_pixel(1, 1), img.get_pixel(1, 1));
}

#[test]
fn normal_map_of_flat_image_points_straight_out() {
    let img = SKIDImage::new_with_color(4, 4, SKIDColor::new(128, 128, 128, 255));
    let out = make_normal_map_base(&img);
    assert_eq!(out.get_size(), img.get_size());
    for y in 0..4 {
        for x in 0..4 {
            // (0.5, 0.5, 1.0) in bytes: the straight-out normal.
            assert_eq!(out.get_pixel(x, y), Some(SKIDColor::new(127, 127, 255, 255)));
        }
    }
}

#[test]
fn normal_map_of_horizontal_ramp() {
    // Columns black, mid-gray, white: a pure horizontal slope.
    let mut data = Vec::new();
    for _y in 0..3 {
        data.push(SKIDColor::new(0, 0, 0, 255));
        data.push(SKIDColor::new(128, 128, 128, 255));
        data.push(SKIDColor::new(255, 255, 255, 255));
    }
    let img = SKIDImage::from_data(3, 3, data);
    let out = make_normal_map_base(&img);
    // Center pixel: dx is exactly one half in fixed point, dy is zero.
    assert_eq!(out.get_pixel(1, 1), Some(SKIDColor::new(184, 127, 241, 255)));
    // Left edge clamps to itself: a gentler slope against the gray column.
    assert_eq!(out.get_pixel(0, 1), Some(SKIDColor::new(158, 127, 251, 255)));
}

#[test]
fn normal_map_with_zero_factors_is_flat_everywhere() {
    let mut data = Vec::new();
    for i in 0..9u8 {
        data.push(SKIDColor::new(28 * i, 0, 100, 255));
    }
    let img = SKIDImage::from_data(3, 3, data);
    let out = make_normal_map(&img, 0, 0);
    for y in 0..3 {
        for x in 0..3 {
            assert_eq!(out.get_pixel(x, y), Some(SKIDColor::new(127, 127, 255, 255)));
        }
    }
}

#[test]
fn example_generator_pattern() {
    let out = generate_example_image(SKIDSizeVector2 { width: 4, height: 4 });
    assert_eq!(out.get_size(), SKIDSizeVector2 { width: 4, height: 4 });
    // Border lines (coordinates divisible by the border period) drop blue.
    assert_eq!(out.get_pixel(0, 0), Some(SKIDColor::new(0, 0, 0, 255)));
    assert_eq!(out.get_pixel(2, 0), Some(SKIDColor::new(127, 0, 0, 255)));
    // Interior: gradient channels, 255 * c / 4 per axis.
    assert_eq!(out.get_pixel(1, 1), Some(SKIDColor::new(63, 63, 193, 255)));
    assert_eq!(out.get_pixel(3, 2), Some(SKIDColor::new(191, 127, 97, 255)));
}

#[test]
fn add_const_saturates_per_pixel() {
    let img = distinct_2x2();
    let out = apply_add_const(&img, SKIDColor::new(10, 250, 0, 5));
    assert_eq!(out.get_pixel(0, 0), Some(SKIDColor::new(255, 250, 0, 255)));
    assert_eq!(out.get_pixel(1, 0), Some(SKIDColor::new(10, 255, 0, 255)));
}

#[test]
fn gpu_example_generator_tests() {
    let start = std::time::Instant::now();
    let _result_image = generate_example_image(SKIDSizeVector2 { width: 5120, height: 2880 });
    let duration = start.elapsed();
    println!("Example generator took: {:?}", duration);
    println!("Result image: {:?}", _result_image.get_size());
    assert_eq!(
        _result_image.get_size(),
        SKIDSizeVector2 { width: 5120, height: 2880 }
    );
}
