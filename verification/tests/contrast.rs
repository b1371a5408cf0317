use img_accel::image::GrayImage;
use img_accel::{ExecError, Executor, FeatureSet};

fn executor() -> Executor {
    Executor::new(FeatureSet { contrast: true, geometric_trans: true })
}

fn constant_image(width: u32, height: u32, intensity: u8) -> GrayImage {
    GrayImage::from_pixel(width, height, intensity)
}

fn assert_images_eq(actual: &GrayImage, expected: &GrayImage) {
    assert_eq!(actual.dimensions(), expected.dimensions());
    let (w, h) = actual.dimensions();
    for y in 0..h {
        for x in 0..w {
            assert_eq!(
                actual.get_pixel(x, y),
                expected.get_pixel(x, y),
                "pixel ({}, {}) differs",
                x,
                y
            );
        }
    }
}

#[test]
fn adaptive_threshold_constant() {
    let executor = executor();

    let image = GrayImage::from_pixel(3, 3, 100u8);
    let binary = executor.adaptive_threshold(&image, 1).unwrap();
    let expected = GrayImage::from_pixel(3, 3, 255u8);
    assert_images_eq(&binary, &expected);
}

#[test]
fn adaptive_threshold_one_darker_pixel() {
    let executor = executor();

    for y in 0..3 {
        for x in 0..3 {
            let mut image = GrayImage::from_pixel(3, 3, 200u8);
            image.put_pixel(x, y, 100u8);
            let binary = executor.adaptive_threshold(&image, 1).unwrap();
            // All except the dark pixel have brightness >= their local mean
            let mut expected = GrayImage::from_pixel(3, 3, 255u8);
            expected.put_pixel(x, y, 0u8);
            assert_images_eq(&binary, &expected);
        }
    }
}

#[test]
fn adaptive_threshold_one_lighter_pixel() {
    let executor = executor();

    for y in 0..5 {
        for x in 0..5 {
            let mut image = GrayImage::from_pixel(5, 5, 100u8);
            image.put_pixel(x, y, 200u8);

            let binary = executor.adaptive_threshold(&image, 1).unwrap();

            for yb in 0..5 {
                for xb in 0..5 {
                    let output_intensity = binary.get_pixel(xb, yb);

                    let is_light_pixel = xb == x && yb == y;

                    let local_mean_includes_light_pixel =
                        (yb as i32 - y as i32).abs() <= 1 && (xb as i32 - x as i32).abs() <= 1;

                    if is_light_pixel {
                        assert_eq!(output_intensity, 255);
                    } else if local_mean_includes_light_pixel {
                        assert_eq!(output_intensity, 0);
                    } else {
                        assert_eq!(output_intensity, 255);
                    }
                }
            }
        }
    }
}

#[test]
fn test_threshold_0_image_0() {
    let executor = executor();

    let expected = 0u8;
    let actual = executor.threshold(&constant_image(10, 10, 0), 0).unwrap();
    assert_images_eq(&actual, &constant_image(10, 10, expected));
}

#[test]
fn test_threshold_0_image_1() {
    let executor = executor();

    let expected = 255u8;
    let actual = executor.threshold(&constant_image(10, 10, 1), 0).unwrap();
    assert_images_eq(&actual, &constant_image(10, 10, expected));
}

#[test]
fn test_threshold_threshold_255_image_255() {
    let executor = executor();

    let expected = 0u8;
    let actual = executor.threshold(&constant_image(10, 10, 255), 255).unwrap();
    assert_images_eq(&actual, &constant_image(10, 10, expected));
}

#[test]
fn test_threshold() {
    let executor = executor();

    let original_contents: Vec<u8> = (0u8..26u8).map(|x| x * 10u8).collect();
    let original = GrayImage::from_raw(26, 1, original_contents).unwrap();

    let expected_contents: Vec<u8> = vec![0u8; 13].into_iter().chain(vec![255u8; 13]).collect();

    let expected = GrayImage::from_raw(26, 1, expected_contents).unwrap();

    let actual = executor.threshold(&original, 125u8).unwrap();
    assert_images_eq(&expected, &actual);
}

#[test]
fn threshold_mut_matches_threshold() {
    let executor = executor();

    let contents: Vec<u8> = vec![3, 250, 125, 126, 0, 255, 17, 99, 124, 200, 1, 77];
    let original = GrayImage::from_raw(4, 3, contents).unwrap();

    let fresh = executor.threshold(&original, 124).unwrap();
    let mut inplace = GrayImage::from_raw(4, 3, vec![3, 250, 125, 126, 0, 255, 17, 99, 124, 200, 1, 77]).unwrap();
    executor.threshold_mut(&mut inplace, 124).unwrap();

    assert_images_eq(&fresh, &inplace);
}

#[test]
fn threshold_requires_contrast_feature() {
    let executor = Executor::new(FeatureSet { contrast: false, geometric_trans: true });

    let image = constant_image(2, 2, 7);
    assert_eq!(executor.threshold(&image, 3).unwrap_err(), ExecError::FeatureNotEnabled);

    let mut buffer = constant_image(2, 2, 7);
    assert_eq!(executor.threshold_mut(&mut buffer, 3).unwrap_err(), ExecError::FeatureNotEnabled);
    // The buffer is untouched on failure.
    assert_images_eq(&buffer, &constant_image(2, 2, 7));

    assert_eq!(
        executor.adaptive_threshold(&image, 1).unwrap_err(),
        ExecError::FeatureNotEnabled
    );
    assert_eq!(
        executor.stretch_contrast(&image, 10, 20).unwrap_err(),
        ExecError::FeatureNotEnabled
    );
}

#[test]
fn adaptive_threshold_zero_radius_is_invalid() {
    let executor = executor();
    let image = constant_image(3, 3, 100);
    assert_eq!(executor.adaptive_threshold(&image, 0).unwrap_err(), ExecError::InvalidParam);

    // The parameter check comes before the feature check.
    let disabled = Executor::new(FeatureSet { contrast: false, geometric_trans: false });
    assert_eq!(disabled.adaptive_threshold(&image, 0).unwrap_err(), ExecError::InvalidParam);
}

#[test]
fn adaptive_threshold_large_radius_covers_whole_image() {
    let executor = executor();

    let mut image = GrayImage::from_pixel(4, 4, 10u8);
    image.put_pixel(2, 1, 9u8);
    let binary = executor.adaptive_threshold(&image, 100).unwrap();
    // Every neighborhood is the whole image; only the darker pixel falls
    // below the mean.
    for y in 0..4 {
        for x in 0..4 {
            let expected = if x == 2 && y == 1 { 0 } else { 255 };
            assert_eq!(binary.get_pixel(x, y), expected);
        }
    }
}

#[test]
fn stretch_contrast_rejects_bad_bounds() {
    let executor = executor();
    let image = constant_image(2, 2, 100);

    assert_eq!(executor.stretch_contrast(&image, 80, 80).unwrap_err(), ExecError::InvalidParam);
    assert_eq!(executor.stretch_contrast(&image, 90, 80).unwrap_err(), ExecError::InvalidParam);

    // The parameter check comes before the feature check.
    let disabled = Executor::new(FeatureSet { contrast: false, geometric_trans: false });
    assert_eq!(disabled.stretch_contrast(&image, 90, 80).unwrap_err(), ExecError::InvalidParam);
}

#[test]
fn stretch_contrast_exact_values() {
    let executor = executor();

    let contents: Vec<u8> = vec![0, 49, 50, 51, 100, 149, 150, 151, 255];
    let image = GrayImage::from_raw(9, 1, contents).unwrap();
    let stretched = executor.stretch_contrast(&image, 50, 150).unwrap();

    // At or below 50: 0. At or above 150: 255. In between: (v - 50) * 255 / 100.
    let expected: Vec<u8> = vec![0, 0, 0, 2, 127, 252, 255, 255, 255];
    for (i, &e) in expected.iter().enumerate() {
        assert_eq!(stretched.get_pixel(i as u32, 0), e, "sample {}", i);
    }
}
