use activestorage_ocr::buffer::PixelBuffer;
use activestorage_ocr::preprocessing::steps::{
    denoise, deskew, grayscale, normalize, resize, sharpen, threshold,
};

fn gray_from_fn(width: u32, height: u32, f: impl Fn(u32, u32) -> u8) -> PixelBuffer {
    let mut samples = Vec::new();
    for y in 0..height {
        for x in 0..width {
            samples.push(f(x, y));
        }
    }
    PixelBuffer::new(width, height, 1, samples).unwrap()
}

fn rgb_from_fn(width: u32, height: u32, f: impl Fn(u32, u32) -> [u8; 3]) -> PixelBuffer {
    let mut samples = Vec::new();
    for y in 0..height {
        for x in 0..width {
            samples.extend_from_slice(&f(x, y));
        }
    }
    PixelBuffer::new(width, height, 3, samples).unwrap()
}

fn pixel(image: &PixelBuffer, x: u32, y: u32) -> u8 {
    image.get(x, y, 0).unwrap()
}

fn find_min_max(image: &PixelBuffer) -> (u8, u8) {
    normalize::find_min_max(image.samples())
}

fn calculate_variance(image: &PixelBuffer) -> f64 {
    let pixels: Vec<f64> = image.samples().iter().map(|p| *p as f64).collect();
    let mean = pixels.iter().sum::<f64>() / pixels.len() as f64;
    pixels.iter().map(|p| (p - mean).powi(2)).sum::<f64>() / pixels.len() as f64
}

fn clamped(at: i64, limit: u32) -> u32 {
    at.max(0).min(limit as i64 - 1) as u32
}

fn window(image: &PixelBuffer, x: u32, y: u32) -> Vec<u8> {
    let mut values = Vec::new();
    for dy in -1i64..=1 {
        for dx in -1i64..=1 {
            values.push(pixel(
                image,
                clamped(x as i64 + dx, image.width()),
                clamped(y as i64 + dy, image.height()),
            ));
        }
    }
    values
}

#[test]
fn test_denoise_reduces_salt_pepper_noise() {
    let img = gray_from_fn(10, 10, |x, y| match (x, y) {
        (5, 5) => 0,
        (6, 5) => 255,
        _ => 128,
    });

    let result = denoise::apply(img.clone()).unwrap();

    let original_variance = calculate_variance(&img);
    let result_variance = calculate_variance(&result);

    assert!(result_variance <= original_variance);
}

#[test]
fn test_deskew_detects_zero_angle_for_straight_image() {
    let img = gray_from_fn(100, 50, |x, y| if y == 25 && (10..90).contains(&x) { 0 } else { 255 });

    let tenths = deskew::detect_skew_angle(img.samples(), 100, 50);
    let angle = (tenths as f32 / 10.0).to_radians();

    assert!(
        angle.abs() < 0.5_f32.to_radians(),
        "Expected near-zero angle, got {} radians",
        angle
    );
}

#[test]
fn test_deskew_preserves_dimensions() {
    let img = gray_from_fn(100, 50, |_, _| 0);
    let result = deskew::apply(img).unwrap();
    assert_eq!(result.width(), 100);
    assert_eq!(result.height(), 50);
}

#[test]
fn test_grayscale_converts_color() {
    let img = rgb_from_fn(10, 10, |x, y| match (x, y) {
        (0, 0) => [255, 0, 0],
        (1, 0) => [0, 255, 0],
        (2, 0) => [0, 0, 255],
        _ => [0, 0, 0],
    });

    let gray = grayscale::apply(img).unwrap();

    assert!(pixel(&gray, 0, 0) > 0);
    assert!(pixel(&gray, 1, 0) > 0);
    assert!(pixel(&gray, 2, 0) > 0);
}

#[test]
fn test_grayscale_preserves_dimensions() {
    let img = rgb_from_fn(100, 50, |_, _| [0, 0, 0]);
    let result = grayscale::apply(img).unwrap();
    assert_eq!(result.width(), 100);
    assert_eq!(result.height(), 50);
}

#[test]
fn test_normalize_stretches_histogram() {
    let img = gray_from_fn(10, 10, |x, _| 50 + (x as u8 * 15).min(150));

    let result = normalize::apply(img).unwrap();

    let (min, max) = find_min_max(&result);

    assert_eq!(min, 0);
    assert_eq!(max, 255);
}

#[test]
fn test_normalize_handles_uniform_image() {
    let img = gray_from_fn(10, 10, |_, _| 128);

    let result = normalize::apply(img.clone()).unwrap();

    assert_eq!(pixel(&result, 0, 0), 128);
}

#[test]
fn test_resize_upscales_small_image() {
    let img = gray_from_fn(100, 100, |_, _| 0);
    let result = resize::apply(img).unwrap();
    assert!(result.width() > 100);
    assert!(result.height() > 100);
}

#[test]
fn test_resize_limits_large_image() {
    let img = gray_from_fn(2000, 2000, |_, _| 0);
    let result = resize::apply(img).unwrap();
    assert!(result.width() <= resize::MAX_DIMENSION);
    assert!(result.height() <= resize::MAX_DIMENSION);
}

#[test]
fn test_sharpen_enhances_edges() {
    let img = gray_from_fn(20, 10, |x, _| if x < 10 { 50 } else { 200 });

    let result = sharpen::apply(img.clone()).unwrap();

    let edge_left = pixel(&result, 9, 5);
    let edge_right = pixel(&result, 10, 5);

    let original_diff = 200i32 - 50;
    let result_diff = (edge_right as i32 - edge_left as i32).abs();

    assert!(
        result_diff >= original_diff,
        "Edge should be enhanced: {} >= {}",
        result_diff,
        original_diff
    );
}

#[test]
fn test_threshold_binarizes_image() {
    let img = gray_from_fn(50, 50, |x, _| (x as u8 * 5).min(255));

    let result = threshold::apply(img).unwrap();

    for value in result.samples() {
        assert!(*value == 0 || *value == 255, "Expected binary pixel, got {}", value);
    }
}

#[test]
fn test_threshold_handles_text_pattern() {
    let img = gray_from_fn(50, 20, |x, y| if y == 10 && (10..40).contains(&x) { 20 } else { 240 });

    let result = threshold::apply(img).unwrap();

    assert_eq!(pixel(&result, 25, 10), 0);
    assert_eq!(pixel(&result, 25, 5), 255);
}

#[test]
fn grayscale_uses_perceptual_weights() {
    let img = rgb_from_fn(4, 1, |x, _| match x {
        0 => [255, 0, 0],
        1 => [0, 255, 0],
        2 => [0, 0, 255],
        _ => [255, 255, 255],
    });
    let gray = grayscale::apply(img).unwrap();
    assert_eq!(gray.channels(), 1);
    assert_eq!(gray.samples(), &vec![76, 149, 29, 255]);
    assert_eq!(grayscale::luma_exec(10, 20, 30), 18);
}

#[test]
fn grayscale_is_idempotent() {
    let img = rgb_from_fn(7, 5, |x, y| [(x * 30) as u8, (y * 50) as u8, (x * y) as u8]);
    let once = grayscale::apply(img).unwrap();
    let twice = grayscale::apply(once.clone()).unwrap();
    assert_eq!(once, twice);
}

#[test]
fn normalize_maps_each_sample_linearly() {
    let img = gray_from_fn(4, 1, |x, _| [10, 20, 35, 60][x as usize]);
    let result = normalize::apply(img).unwrap();
    // (v - 10) * 255 / 50, rounded down.
    assert_eq!(result.samples(), &vec![0, 51, 127, 255]);
    assert_eq!(normalize::stretch_exec(35, 10, 60), 127);
}

#[test]
fn normalize_leaves_uniform_and_empty_images() {
    let uniform = gray_from_fn(6, 3, |_, _| 77);
    assert_eq!(normalize::apply(uniform.clone()).unwrap(), uniform);
    let empty = PixelBuffer::new(0, 0, 1, vec![]).unwrap();
    assert_eq!(normalize::apply(empty.clone()).unwrap(), empty);
    assert_eq!(normalize::find_min_max(&vec![]), (255, 0));
}

#[test]
fn normalize_converts_colour_first() {
    let img = rgb_from_fn(2, 1, |x, _| if x == 0 { [0, 0, 0] } else { [100, 100, 100] });
    let result = normalize::apply(img).unwrap();
    assert_eq!(result.channels(), 1);
    assert_eq!(result.samples(), &vec![0, 255]);
}

#[test]
fn denoise_gives_the_median_of_each_neighbourhood() {
    let img = gray_from_fn(9, 7, |x, y| ((x * 37 + y * 91 + x * y * 13) % 256) as u8);
    let result = denoise::apply(img.clone()).unwrap();
    assert_eq!(result.width(), 9);
    assert_eq!(result.height(), 7);
    for y in 0..7 {
        for x in 0..9 {
            let mut values = window(&img, x, y);
            values.sort();
            assert_eq!(pixel(&result, x, y), values[4], "at ({}, {})", x, y);
        }
    }
    assert_ne!(result, img);
}

#[test]
fn denoise_documented_example() {
    let img = gray_from_fn(3, 3, |x, y| [[1, 2, 3], [200, 6, 7], [9, 100, 11]][y as usize][x as usize]);
    let result = denoise::apply(img).unwrap();
    assert_eq!(result.samples(), &vec![2, 3, 3, 9, 7, 7, 9, 11, 11]);
}

#[test]
fn denoise_removes_isolated_pixels() {
    let img = gray_from_fn(10, 10, |x, y| if (x, y) == (5, 5) { 0 } else { 128 });
    let result = denoise::apply(img).unwrap();
    assert!(result.samples().iter().all(|v| *v == 128));
}

#[test]
fn sharpen_applies_the_kernel_with_clamping() {
    let img = gray_from_fn(8, 6, |x, y| ((x * 41 + y * 67 + x * y * 29) % 256) as u8);
    let result = sharpen::apply(img.clone()).unwrap();
    for y in 0..6 {
        for x in 0..8 {
            let w = window(&img, x, y);
            let sum = 5 * w[4] as i32 - w[1] as i32 - w[3] as i32 - w[5] as i32 - w[7] as i32;
            assert_eq!(pixel(&result, x, y) as i32, sum.clamp(0, 255), "at ({}, {})", x, y);
        }
    }
    assert_ne!(result, img);
}

#[test]
fn sharpen_exact_edge_values() {
    let img = gray_from_fn(20, 10, |x, _| if x < 10 { 50 } else { 200 });
    let result = sharpen::apply(img).unwrap();
    // 5 * 50 - 50 - 50 - 50 - 200 is negative; 5 * 200 - 200 - 200 - 200 - 50 = 350.
    assert_eq!(pixel(&result, 9, 5), 0);
    assert_eq!(pixel(&result, 10, 5), 255);
    assert_eq!(pixel(&result, 3, 5), 50);
    assert_eq!(pixel(&result, 15, 5), 200);
}

#[test]
fn resize_targets() {
    assert_eq!(resize::compute_target(100, 100), (416, 416));
    assert_eq!(resize::compute_target(2000, 2000), (4000, 4000));
    assert_eq!(resize::compute_target(4000, 3000), (4000, 3000));
    // Both scaled sides below 300: the smaller one is raised to 300.
    assert_eq!(resize::compute_target(10, 20), (300, 607));
    assert_eq!(resize::compute_target(1, 1), (300, 300));
    // 1 x 10000 scales to 4 x 41666 and is capped to 0 x 4000; no side falls below 1.
    assert_eq!(resize::compute_target(1, 10000), (1, 4000));
    assert_eq!(resize::compute_target(u32::MAX, u32::MAX), (4000, 4000));
}

#[test]
fn resize_exact_sizes() {
    let small = resize::apply(gray_from_fn(100, 100, |x, y| (x + y) as u8)).unwrap();
    assert_eq!((small.width(), small.height(), small.channels()), (416, 416, 1));
    let large = resize::apply(gray_from_fn(2000, 2000, |_, _| 9)).unwrap();
    assert_eq!((large.width(), large.height()), (4000, 4000));
    let colour = resize::apply(rgb_from_fn(30, 60, |_, _| [1, 2, 3])).unwrap();
    assert_eq!((colour.width(), colour.height(), colour.channels()), (300, 600, 3));
    assert_eq!(colour.samples().len(), 300 * 600 * 3);
    // Resampling a constant image leaves the constant.
    assert!(colour.samples().chunks(3).all(|p| p == [1, 2, 3]));
}

#[test]
fn resize_keeps_images_near_their_target() {
    let img = gray_from_fn(4000, 3000, |_, _| 200);
    let result = resize::apply(img.clone()).unwrap();
    assert_eq!(result, img);
}

#[test]
fn resize_rejects_empty_images() {
    let empty = PixelBuffer::new(0, 5, 1, vec![]).unwrap();
    let error = resize::apply(empty).unwrap_err();
    assert_eq!(error.message(), "Preprocessing failed: resize: empty image");
}

#[test]
fn threshold_is_binary_on_colour_and_noise() {
    let img = rgb_from_fn(33, 17, |x, y| {
        [((x * 53 + y * 7) % 256) as u8, ((x * 11 + y * 97) % 256) as u8, ((x * y) % 256) as u8]
    });
    let result = threshold::apply(img).unwrap();
    assert_eq!(result.channels(), 1);
    assert_eq!((result.width(), result.height()), (33, 17));
    assert!(result.samples().iter().all(|v| *v == 0 || *v == 255));
}

#[test]
fn threshold_uniform_image_is_black() {
    // With no deviation the threshold is 0.8 of the mean: every sample is above it,
    // except where the mean is 0.
    let bright = threshold::apply(gray_from_fn(20, 20, |_, _| 100)).unwrap();
    assert!(bright.samples().iter().all(|v| *v == 255));
    let dark = threshold::apply(gray_from_fn(20, 20, |_, _| 0)).unwrap();
    assert!(dark.samples().iter().all(|v| *v == 0));
}

#[test]
fn threshold_window_statistics() {
    let samples: Vec<u8> = (0..24u32).map(|i| (i * 10) as u8).collect();
    let tables = threshold::compute_integral_images(&samples, 6, 4);
    // Rows 1..=2, columns 2..=4.
    let mut sum = 0u64;
    let mut squares = 0u64;
    for y in 1..=2usize {
        for x in 2..=4usize {
            let v = samples[y * 6 + x] as u64;
            sum += v;
            squares += v * v;
        }
    }
    assert_eq!(tables.window_stats(2, 1, 4, 2), (sum, squares));
    assert_eq!(tables.window_stats(0, 0, 0, 0), (0, 0));
    let all: u64 = samples.iter().map(|v| *v as u64).sum();
    let all_squares: u64 = samples.iter().map(|v| (*v as u64) * (*v as u64)).sum();
    assert_eq!(tables.window_stats(0, 0, 5, 3), (all, all_squares));
}

#[test]
fn threshold_decision_matches_the_formula() {
    for &(sample, count, sum, squares) in &[
        (20u8, 225u64, 50_700u64, 12_102_000u64),
        (240, 195, 43_500, 10_374_000),
        (100, 9, 900, 90_000),
        (0, 9, 0, 0),
        (128, 4, 500, 64_000),
        (200, 4, 500, 90_000),
    ] {
        let mean = sum as f64 / count as f64;
        let variance = (squares as f64 / count as f64 - mean * mean).max(0.0);
        let limit = mean * (1.0 + 0.2 * (variance.sqrt() / 128.0 - 1.0));
        assert_eq!(
            threshold::is_white(sample, count, sum, squares),
            sample as f64 > limit,
            "sample {} in a window of mean {}",
            sample,
            mean
        );
    }
}

#[test]
fn deskew_trigonometry() {
    assert_eq!(deskew::sine_cosine(0), (0, 1_000_000));
    for tenths in -55..=55 {
        let (sin, cos) = deskew::sine_cosine(tenths);
        let angle = (tenths as f64 / 10.0).to_radians();
        assert!((sin as f64 - angle.sin() * 1e6).abs() < 2.0, "sine of {}", tenths);
        assert!((cos as f64 - angle.cos() * 1e6).abs() < 2.0, "cosine of {}", tenths);
    }
    assert_eq!(deskew::sine_cosine(55), (95_846, 995_396));
    assert_eq!(deskew::sine_cosine(-55), (-95_846, 995_396));
}

#[test]
fn deskew_projection_variance_of_a_line() {
    let img = gray_from_fn(100, 50, |x, y| if y == 25 && (10..90).contains(&x) { 0 } else { 255 });
    // All 80 dark pixels land in one row: 50 * 80^2 - 80^2.
    assert_eq!(deskew::compute_projection_variance(img.samples(), 100, 50, 0), 313_600);
    assert!(deskew::compute_projection_variance(img.samples(), 100, 50, 5) < 313_600);
    assert_eq!(deskew::detect_skew_angle(img.samples(), 100, 50), 0);
}

#[test]
fn deskew_leaves_a_straight_image() {
    let img = gray_from_fn(100, 50, |x, y| if y == 25 && (10..90).contains(&x) { 0 } else { 255 });
    assert_eq!(deskew::apply(img.clone()).unwrap(), img);
    let white = gray_from_fn(30, 30, |_, _| 255);
    assert_eq!(deskew::apply(white.clone()).unwrap(), white);
}

#[test]
fn deskew_detects_a_tilted_line() {
    // A line that falls by one row every twenty columns: about 2.9 degrees.
    let img = gray_from_fn(200, 100, |x, y| if y == 45 + x / 20 { 0 } else { 255 });
    let tenths = deskew::detect_skew_angle(img.samples(), 200, 100);
    assert!((27..=31).contains(&tenths), "found {} tenths of a degree", tenths);
    let straightened = deskew::apply(img).unwrap();
    assert_eq!((straightened.width(), straightened.height()), (200, 100));
    assert_eq!(deskew::detect_skew_angle(straightened.samples(), 200, 100), 0);
}

#[test]
fn deskew_rotation_fills_with_white_and_blends() {
    let img = gray_from_fn(40, 40, |_, _| 0);
    let rotated = deskew::rotate_about_center(img.samples(), 40, 40, 50);
    assert_eq!(rotated.len(), 1600);
    // The corners turn out of the image.
    assert_eq!(rotated[0], 255);
    // The centre stays black.
    assert_eq!(rotated[20 * 40 + 20], 0);
    assert_eq!(deskew::blend_exec(0, 255, 1_000_000), 127);
    assert_eq!(deskew::blend_exec(10, 20, 0), 10);
    assert_eq!(deskew::blend_exec(10, 20, 1_999_999), 19);
}

#[test]
fn denoise_rejects_images_wider_than_the_filter_takes() {
    let wide = PixelBuffer::new(u32::MAX, 0, 1, vec![]).unwrap();
    let error = denoise::apply(wide).unwrap_err();
    assert_eq!(error.message(), "Preprocessing failed: denoise: image too large");
    let high = PixelBuffer::new(0, denoise::MAX_FILTER_DIMENSION + 1, 1, vec![]).unwrap();
    assert!(denoise::apply(high).is_err());
    let fits = PixelBuffer::new(denoise::MAX_FILTER_DIMENSION, 0, 1, vec![]).unwrap();
    assert_eq!(denoise::apply(fits.clone()).unwrap(), fits);
}

#[test]
fn steps_accept_images_without_pixels() {
    let empty = PixelBuffer::new(0, 0, 3, vec![]).unwrap();
    let gray = PixelBuffer::new(0, 0, 1, vec![]).unwrap();
    assert_eq!(grayscale::apply(empty.clone()).unwrap(), gray);
    assert_eq!(sharpen::apply(empty.clone()).unwrap(), gray);
    assert_eq!(denoise::apply(empty.clone()).unwrap(), gray);
    assert_eq!(deskew::apply(empty.clone()).unwrap(), gray);
    assert_eq!(threshold::apply(empty).unwrap(), gray);
    let row = PixelBuffer::new(5, 1, 1, vec![0, 50, 100, 150, 200]).unwrap();
    assert_eq!(threshold::apply(row.clone()).unwrap().samples().len(), 5);
    assert_eq!(denoise::apply(row.clone()).unwrap().samples(), &vec![0, 50, 100, 150, 200]);
    assert_eq!(deskew::apply(row).unwrap().width(), 5);
}
