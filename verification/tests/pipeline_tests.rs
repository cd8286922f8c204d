use activestorage_ocr::buffer::PixelBuffer;
use activestorage_ocr::preprocessing::pipeline::{advance, saturate, time_step, Pipeline, Preset, Step};
use activestorage_ocr::preprocessing::steps::{
    denoise, deskew, grayscale, normalize, resize, sharpen, threshold,
};

fn sample_image() -> PixelBuffer {
    let mut samples = Vec::new();
    for y in 0..40u32 {
        for x in 0..60u32 {
            samples.extend_from_slice(&[(x * 4) as u8, (y * 6) as u8, ((x + y) * 2) as u8]);
        }
    }
    PixelBuffer::new(60, 40, 3, samples).unwrap()
}

fn names(preset: Preset) -> Vec<String> {
    Pipeline::new(preset)
        .process(sample_image())
        .unwrap()
        .steps
        .into_iter()
        .map(|timing| timing.name)
        .collect()
}

#[test]
fn preset_off_returns_the_input_unchanged() {
    let image = sample_image();
    let result = Pipeline::new(Preset::Off).process(image.clone()).unwrap();
    assert_eq!(result.image, image);
    assert_eq!(result.total_time_ms, 0);
    assert!(result.steps.is_empty());
    assert_eq!(result.preset, "none");
}

#[test]
fn preset_off_accepts_an_empty_image() {
    let empty = PixelBuffer::new(0, 0, 3, vec![]).unwrap();
    let result = Pipeline::new(Preset::Off).process(empty.clone()).unwrap();
    assert_eq!(result.image, empty);
}

#[test]
fn presets_run_their_steps_in_order() {
    assert_eq!(names(Preset::Off), Vec::<String>::new());
    assert_eq!(names(Preset::Minimal), vec!["grayscale"]);
    assert_eq!(names(Preset::Default), vec!["grayscale", "resize", "normalize", "sharpen"]);
    assert_eq!(
        names(Preset::Aggressive),
        vec!["grayscale", "resize", "denoise", "normalize", "sharpen", "deskew", "threshold"]
    );
    assert_eq!(Preset::Aggressive.steps().len(), 7);
    assert_eq!(Preset::Default.steps()[1], Step::Resize);
}

#[test]
fn minimal_is_grayscale() {
    let result = Pipeline::new(Preset::Minimal).process(sample_image()).unwrap();
    assert_eq!(result.image, grayscale::apply(sample_image()).unwrap());
    assert_eq!(result.preset, "minimal");
}

#[test]
fn default_composes_its_steps() {
    let result = Pipeline::new(Preset::Default).process(sample_image()).unwrap();
    let mut expected = grayscale::apply(sample_image()).unwrap();
    expected = resize::apply(expected).unwrap();
    expected = normalize::apply(expected).unwrap();
    expected = sharpen::apply(expected).unwrap();
    assert_eq!(result.image, expected);
    assert_eq!((result.image.width(), result.image.height()), (451, 300));
    assert_eq!(result.preset, "default");
}

#[test]
fn aggressive_composes_its_steps() {
    let result = Pipeline::new(Preset::Aggressive).process(sample_image()).unwrap();
    let mut expected = grayscale::apply(sample_image()).unwrap();
    expected = resize::apply(expected).unwrap();
    expected = denoise::apply(expected).unwrap();
    expected = normalize::apply(expected).unwrap();
    expected = sharpen::apply(expected).unwrap();
    expected = deskew::apply(expected).unwrap();
    expected = threshold::apply(expected).unwrap();
    assert_eq!(result.image, expected);
    assert!(result.image.samples().iter().all(|v| *v == 0 || *v == 255));
    assert_eq!(result.preset, "aggressive");
}

#[test]
fn a_failing_step_aborts_the_run() {
    let empty = PixelBuffer::new(0, 7, 1, vec![]).unwrap();
    for preset in [Preset::Default, Preset::Aggressive] {
        let error = Pipeline::new(preset).process(empty.clone()).unwrap_err();
        assert_eq!(error.message(), "Preprocessing failed: resize: empty image");
    }
    assert!(Pipeline::new(Preset::Minimal).process(empty).is_ok());
}

#[test]
fn steps_run_by_name() {
    let image = sample_image();
    assert_eq!(Step::Grayscale.run(image.clone()), grayscale::apply(image.clone()));
    assert_eq!(Step::Sharpen.run(image.clone()), sharpen::apply(image.clone()));
    assert_eq!(Step::Threshold.as_str(), "threshold");
    assert_eq!(Step::Deskew.as_str(), "deskew");
}

#[test]
fn preset_names_parse_in_any_case() {
    assert_eq!(Preset::from_str("none"), Some(Preset::Off));
    assert_eq!(Preset::from_str("minimal"), Some(Preset::Minimal));
    assert_eq!(Preset::from_str("default"), Some(Preset::Default));
    assert_eq!(Preset::from_str("aggressive"), Some(Preset::Aggressive));
    assert_eq!(Preset::from_str("AGGRESSIVE"), Some(Preset::Aggressive));
    assert_eq!(Preset::from_str("MiNiMaL"), Some(Preset::Minimal));
    assert_eq!(Preset::from_str("fast"), None);
    assert_eq!(Preset::from_str(""), None);
    assert_eq!(Preset::from_lowercase("NONE"), None);
    assert_eq!(Preset::from_lowercase("none"), Some(Preset::Off));
}

#[test]
fn preset_names_round_trip() {
    for preset in [Preset::Off, Preset::Minimal, Preset::Default, Preset::Aggressive] {
        assert_eq!(Preset::from_str(preset.as_str()), Some(preset));
    }
    assert_eq!(Preset::Off.as_str(), "none");
    assert_eq!(Preset::default(), Preset::Default);
}

#[test]
fn presets_are_ordered_by_cost() {
    assert!(Preset::Off < Preset::Minimal);
    assert!(Preset::Minimal < Preset::Default);
    assert!(Preset::Default < Preset::Aggressive);
    let mut counts = Vec::new();
    for preset in [Preset::Off, Preset::Minimal, Preset::Default, Preset::Aggressive] {
        counts.push(preset.steps().len());
    }
    assert_eq!(counts, vec![0, 1, 4, 7]);
}

#[test]
fn step_times_never_exceed_the_total() {
    for preset in [Preset::Minimal, Preset::Default, Preset::Aggressive] {
        let result = Pipeline::new(preset).process(sample_image()).unwrap();
        let sum: u64 = result.steps.iter().map(|s| s.time_ms).sum();
        assert!(sum <= result.total_time_ms, "{} > {}", sum, result.total_time_ms);
    }
}

#[test]
fn readings_that_fall_count_as_the_last_one() {
    assert_eq!(advance(5, 9), 9);
    assert_eq!(advance(5, 5), 5);
    assert_eq!(advance(5, 2), 5);
    let (timing, now) = time_step("resize", 10, 12, 20);
    assert_eq!((timing.name.as_str(), timing.time_ms, now), ("resize", 8, 20));
    // The beginning fell behind the last reading: it counts from there.
    let (timing, now) = time_step("resize", 10, 7, 20);
    assert_eq!((timing.time_ms, now), (10, 20));
    // The end fell behind the beginning: no time passed.
    let (timing, now) = time_step("resize", 10, 15, 12);
    assert_eq!((timing.time_ms, now), (0, 15));
    assert_eq!(saturate(17), 17);
    assert_eq!(saturate(u128::MAX), u64::MAX);
    assert_eq!(saturate(u64::MAX as u128), u64::MAX);
}
