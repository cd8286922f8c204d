//! Resampling towards the resolution that recognition works best at.

use crate::buffer::{PixelBuffer, Raster};
use crate::error::{ErrorModel, OcrError};
use vstd::prelude::*;

verus! {

/// Resolution that recognition works best at, in dots per inch.
pub const TARGET_DPI: u32 = 300;

/// Resolution that an input image is taken to have.
pub const ASSUMED_INPUT_DPI: u32 = 72;

/// No side of the target exceeds this after capping.
pub const MAX_DIMENSION: u32 = 4000;

/// A target with both sides below this is enlarged.
pub const MIN_DIMENSION: u32 = 300;

/// A side scaled from the assumed input resolution to the target
/// resolution, rounded down.
pub open spec fn scaled(side: int) -> int {
    side * TARGET_DPI / (ASSUMED_INPUT_DPI as int)
}

/// A size scaled down in proportion so that its larger side is
/// `MAX_DIMENSION`, if a side exceeds that.
pub open spec fn capped(size: (int, int)) -> (int, int) {
    if size.0 > MAX_DIMENSION || size.1 > MAX_DIMENSION {
        let larger = if size.0 >= size.1 {
            size.0
        } else {
            size.1
        };
        (size.0 * MAX_DIMENSION / larger, size.1 * MAX_DIMENSION / larger)
    } else {
        size
    }
}

/// A size scaled up in proportion so that its smaller side is
/// `MIN_DIMENSION`, if both sides are below that.
pub open spec fn raised(size: (int, int)) -> (int, int) {
    if size.0 < MIN_DIMENSION && size.1 < MIN_DIMENSION {
        let smaller = if size.0 <= size.1 {
            size.0
        } else {
            size.1
        };
        (size.0 * MIN_DIMENSION / smaller, size.1 * MIN_DIMENSION / smaller)
    } else {
        size
    }
}

/// A size with each side of 0 replaced by 1.
pub open spec fn at_least_one(size: (int, int)) -> (int, int) {
    (
        if size.0 < 1 {
            1
        } else {
            size.0
        },
        if size.1 < 1 {
            1
        } else {
            size.1
        },
    )
}

/// The size that an image of the given size is resampled to: scaled to
/// the target resolution, capped, raised, and never without pixels.
pub open spec fn target_size(width: int, height: int) -> (int, int) {
    at_least_one(raised(capped((scaled(width), scaled(height)))))
}

/// Whether a side stays within five percent of its old length.
pub open spec fn within_five_percent(old_side: int, new_side: int) -> bool {
    95 * old_side <= 100 * new_side <= 105 * old_side
}

/// Whether an image of the given size is left as it is: both sides of its
/// target are within five percent of its own.
pub open spec fn keeps_size(width: int, height: int) -> bool {
    let target = target_size(width, height);
    within_five_percent(width, target.0) && within_five_percent(height, target.1)
}

/// The sides of a target lie between 1 and 22500, and none exceeds
/// `MAX_DIMENSION` once a side of the image is at least 72.
pub proof fn lemma_target_bounds(width: int, height: int)
    requires
        1 <= width <= u32::MAX,
        1 <= height <= u32::MAX,
    ensures
        1 <= target_size(width, height).0 <= 22500,
        1 <= target_size(width, height).1 <= 22500,
        (width >= 72 || height >= 72) ==> target_size(width, height).0 <= MAX_DIMENSION
            && target_size(width, height).1 <= MAX_DIMENSION,
{
    let a = scaled(width);
    let b = scaled(height);
    assert(4 <= a && 4 <= b);
    let c = capped((a, b));
    if a > MAX_DIMENSION || b > MAX_DIMENSION {
        let larger = if a >= b {
            a
        } else {
            b
        };
        assert(0 <= a * 4000 / larger <= 4000) by (nonlinear_arith)
            requires
                0 <= a <= larger,
                larger > 0,
        ;
        assert(0 <= b * 4000 / larger <= 4000) by (nonlinear_arith)
            requires
                0 <= b <= larger,
                larger > 0,
        ;
        assert(larger * 4000 / larger == 4000) by (nonlinear_arith)
            requires
                larger > 0,
        ;
        assert(c.0 == 4000 || c.1 == 4000);
    } else {
        let smaller = if a <= b {
            a
        } else {
            b
        };
        if a < MIN_DIMENSION && b < MIN_DIMENSION {
            assert(0 <= a * 300 / smaller <= 22500) by (nonlinear_arith)
                requires
                    4 <= smaller <= a < 300,
            ;
            assert(0 <= b * 300 / smaller <= 22500) by (nonlinear_arith)
                requires
                    4 <= smaller <= b < 300,
            ;
        }
    }
}

/// The target of a 100 by 100 image is 416 by 416, that of a 2000 by 2000
/// image 4000 by 4000, and neither image keeps its size.
pub proof fn lemma_target_examples()
    ensures
        target_size(100, 100) == (416int, 416int),
        !keeps_size(100, 100),
        target_size(2000, 2000) == (4000int, 4000int),
        !keeps_size(2000, 2000),
{
    assert(scaled(100) == 416);
    assert(scaled(2000) == 8333);
    assert(8333 * 4000 / 8333 == 4000int);
    assert(capped((8333int, 8333int)) == (4000int, 4000int));
}

/// Whether `output` is a raster that the Lanczos filter of window 3 makes
/// of `input`, resampled to the size of `output`.
pub uninterp spec fn is_resampling_of(output: Raster, input: Raster) -> bool;

/// `image::imageops::resize` with the Lanczos filter of window 3, on a
/// grayscale image that is not empty. The result has the size asked for
/// and holds one sample for each of its pixels. The filter rests on the
/// sine of the machine, whose last bit is not fixed, so the samples are
/// not named by the arguments: `is_resampling_of` says of the result only
/// that the filter made it of the input.
#[verifier::external_body]
fn resample_gray(width: u32, height: u32, samples: &Vec<u8>, new_width: u32, new_height: u32) -> (out:
    Vec<u8>)
    requires
        1 <= width,
        1 <= height,
        1 <= new_width <= 22500,
        1 <= new_height <= 22500,
        samples@.len() == width * height,
    ensures
        out@.len() == new_width * new_height,
        is_resampling_of(
            Raster {
                width: new_width as nat,
                height: new_height as nat,
                channels: 1,
                samples: out@,
            },
            Raster { width: width as nat, height: height as nat, channels: 1, samples: samples@ },
        ),
{
    let image = image::GrayImage::from_raw(width, height, samples.clone()).unwrap();
    let filter = image::imageops::FilterType::Lanczos3;
    image::imageops::resize(&image, new_width, new_height, filter).into_raw()
}

/// `image::imageops::resize` with the Lanczos filter of window 3, on an
/// RGB image that is not empty. As `resample_gray`, with three samples for
/// each pixel.
#[verifier::external_body]
fn resample_rgb(width: u32, height: u32, samples: &Vec<u8>, new_width: u32, new_height: u32) -> (out:
    Vec<u8>)
    requires
        1 <= width,
        1 <= height,
        1 <= new_width <= 22500,
        1 <= new_height <= 22500,
        samples@.len() == width * height * 3,
    ensures
        out@.len() == new_width * new_height * 3,
        is_resampling_of(
            Raster {
                width: new_width as nat,
                height: new_height as nat,
                channels: 3,
                samples: out@,
            },
            Raster { width: width as nat, height: height as nat, channels: 3, samples: samples@ },
        ),
{
    let image = image::RgbImage::from_raw(width, height, samples.clone()).unwrap();
    let filter = image::imageops::FilterType::Lanczos3;
    image::imageops::resize(&image, new_width, new_height, filter).into_raw()
}

/// Computes `target_size`.
pub fn compute_target(width: u32, height: u32) -> (target: (u32, u32))
    requires
        1 <= width,
        1 <= height,
    ensures
        target.0 == target_size(width as int, height as int).0,
        target.1 == target_size(width as int, height as int).1,
        1 <= target.0 <= 22500,
        1 <= target.1 <= 22500,
{
    proof {
        lemma_target_bounds(width as int, height as int);
    }
    let mut new_width: u64 = (width as u64) * (TARGET_DPI as u64) / (ASSUMED_INPUT_DPI as u64);
    let mut new_height: u64 = (height as u64) * (TARGET_DPI as u64) / (ASSUMED_INPUT_DPI as u64);
    assert(new_width == scaled(width as int) && new_height == scaled(height as int));
    if new_width > MAX_DIMENSION as u64 || new_height > MAX_DIMENSION as u64 {
        let larger: u64 = if new_width >= new_height {
            new_width
        } else {
            new_height
        };
        proof {
            assert(larger * 4000 / (larger as int) == 4000) by (nonlinear_arith)
                requires
                    larger > 0,
            ;
        }
        new_width = new_width * (MAX_DIMENSION as u64) / larger;
        new_height = new_height * (MAX_DIMENSION as u64) / larger;
        assert(new_width == 4000 || new_height == 4000);
    }
    assert((new_width as int, new_height as int) == capped(
        (scaled(width as int), scaled(height as int)),
    ));
    if new_width < MIN_DIMENSION as u64 && new_height < MIN_DIMENSION as u64 {
        let smaller: u64 = if new_width <= new_height {
            new_width
        } else {
            new_height
        };
        assert(smaller >= 4);
        new_width = new_width * (MIN_DIMENSION as u64) / smaller;
        new_height = new_height * (MIN_DIMENSION as u64) / smaller;
    }
    if new_width < 1 {
        new_width = 1;
    }
    if new_height < 1 {
        new_height = 1;
    }
    (new_width as u32, new_height as u32)
}

/// Whether `output` is a resized version of `input`: the input itself
/// where it keeps its size, else a raster of the target size with the
/// channels of the input that the filter made of it.
pub open spec fn is_resized(input: Raster, output: Raster) -> bool {
    &&& output.wf()
    &&& output == resized(input, output.samples)
    &&& keeps_size(input.width as int, input.height as int) || is_resampling_of(output, input)
}

/// The resized version of a raster of which resampling gave `samples`:
/// the raster itself where it keeps its size, else a raster of the target
/// size with the channels of the input.
pub open spec fn resized(image: Raster, samples: Seq<u8>) -> Raster {
    if keeps_size(image.width as int, image.height as int) {
        image
    } else {
        let target = target_size(image.width as int, image.height as int);
        Raster {
            width: target.0 as nat,
            height: target.1 as nat,
            channels: image.channels,
            samples,
        }
    }
}

/// Resizes an image towards the target resolution.
///
/// Fails on an image without pixels. An image whose target is within five
/// percent of its size is returned as it is. Any other image is resampled
/// to its target size with the Lanczos filter, keeping its channels.
pub fn apply(image: PixelBuffer) -> (r: Result<PixelBuffer, OcrError>)
    ensures
        r is Err <==> (image@.width == 0 || image@.height == 0),
        r is Err ==> r->Err_0@ == ErrorModel::PreprocessingError("resize: empty image"@),
        r is Ok ==> is_resized(image@, r->Ok_0@),
{
    let width = image.width();
    let height = image.height();
    if width == 0 || height == 0 {
        return Err(OcrError::preprocessing("resize: empty image"));
    }
    let (new_width, new_height) = compute_target(width, height);
    let keep_width = 95 * (width as u64) <= 100 * (new_width as u64) && 100 * (new_width as u64)
        <= 105 * (width as u64);
    let keep_height = 95 * (height as u64) <= 100 * (new_height as u64) && 100 * (
    new_height as u64) <= 105 * (height as u64);
    if keep_width && keep_height {
        return Ok(image);
    }
    if image.channels() == 1 {
        let samples = resample_gray(width, height, image.samples(), new_width, new_height);
        Ok(PixelBuffer::from_parts(new_width, new_height, 1, samples))
    } else {
        let samples = resample_rgb(width, height, image.samples(), new_width, new_height);
        Ok(PixelBuffer::from_parts(new_width, new_height, 3, samples))
    }
}

/// A 100 by 100 raster is resized to 416 by 416, larger on both sides;
/// and a resized raster has no side above `MAX_DIMENSION` where the input
/// has a side of at least 72 pixels.
pub proof fn lemma_resized_sizes(image: Raster, samples: Seq<u8>)
    requires
        image.wf(),
        image.width >= 1,
        image.height >= 1,
    ensures
        image.width == 100 && image.height == 100 ==> resized(image, samples).width == 416
            && resized(image, samples).height == 416,
        (image.width >= 72 || image.height >= 72) && !keeps_size(
            image.width as int,
            image.height as int,
        ) ==> resized(image, samples).width <= MAX_DIMENSION && resized(image, samples).height
            <= MAX_DIMENSION,
{
    lemma_target_bounds(image.width as int, image.height as int);
    lemma_target_examples();
}

} // verus!
