//! Noise reduction by a 3x3 median filter.

use crate::buffer::{PixelBuffer, Raster};
use crate::error::{ErrorModel, OcrError};
use crate::preprocessing::steps::grayscale::{grayscale_of, to_luma8};
use crate::preprocessing::steps::neighbors::neighborhood_at;
use vstd::prelude::*;

verus! {

/// How many samples of a window are at most `bound`.
pub open spec fn count_at_most(window: Seq<u8>, bound: int) -> nat
    decreases window.len(),
{
    if window.len() == 0 {
        0
    } else {
        count_at_most(window.drop_last(), bound) + if window.last() <= bound {
            1nat
        } else {
            0nat
        }
    }
}

/// Whether `value` is the median of a window of nine samples: the
/// smallest value that at least five of the samples do not exceed.
pub open spec fn is_median(value: u8, window: Seq<u8>) -> bool {
    &&& count_at_most(window, value as int) >= 5
    &&& count_at_most(window, value - 1) <= 4
}

/// The median of a window of nine samples.
pub open spec fn median_of(window: Seq<u8>) -> u8 {
    choose|value: u8| is_median(value, window)
}

/// Raising the bound does not lower the count.
pub proof fn lemma_count_monotonic(window: Seq<u8>, low: int, high: int)
    requires
        low <= high,
    ensures
        count_at_most(window, low) <= count_at_most(window, high),
    decreases window.len(),
{
    if window.len() > 0 {
        lemma_count_monotonic(window.drop_last(), low, high);
    }
}

/// A window has at most one median.
pub proof fn lemma_median_unique(a: u8, b: u8, window: Seq<u8>)
    requires
        is_median(a, window),
        is_median(b, window),
    ensures
        a == b,
{
    if a < b {
        lemma_count_monotonic(window, a as int, b - 1);
    } else if b < a {
        lemma_count_monotonic(window, b as int, a - 1);
    }
}

/// How many samples a window of equal samples has at most `bound`: all
/// of them or none.
pub proof fn lemma_count_flat(window: Seq<u8>, value: u8, bound: int)
    requires
        forall|i: int| 0 <= i < window.len() ==> window[i] == value,
    ensures
        count_at_most(window, bound) == (if value <= bound {
            window.len()
        } else {
            0
        }),
    decreases window.len(),
{
    if window.len() > 0 {
        lemma_count_flat(window.drop_last(), value, bound);
    }
}

/// The median of nine equal samples is their value.
pub proof fn lemma_median_flat(window: Seq<u8>, value: u8)
    requires
        window.len() == 9,
        forall|i: int| 0 <= i < window.len() ==> window[i] == value,
    ensures
        median_of(window) == value,
{
    lemma_count_flat(window, value, value as int);
    lemma_count_flat(window, value, value - 1);
    assert(is_median(value, window));
    lemma_median_unique(value, median_of(window), window);
}

/// The samples of a grayscale image after the median filter.
pub open spec fn median_samples(samples: Seq<u8>, width: int, height: int) -> Seq<u8> {
    Seq::new(samples.len(), |i: int| median_of(neighborhood_at(samples, width, height, i)))
}

/// The denoised version of a raster: its grayscale version with every
/// sample replaced by the median of its 3x3 neighbourhood.
pub open spec fn denoised(image: Raster) -> Raster {
    let gray = grayscale_of(image);
    Raster {
        samples: median_samples(gray.samples, gray.width as int, gray.height as int),
        ..gray
    }
}

/// The largest width or height that the median filter takes.
pub const MAX_FILTER_DIMENSION: u32 = 0x7fff_fffe;

/// `imageproc::filter::median_filter` with both radii 1, on a grayscale
/// image. The result has the size of the input, and each of its samples is
/// the median of the nine input samples around it, the image being padded
/// by continuity. The filter panics on wider or higher images than
/// `requires` admits.
#[verifier::external_body]
fn median_filter_3x3(width: u32, height: u32, samples: &Vec<u8>) -> (out: Vec<u8>)
    requires
        samples@.len() == width * height,
        width <= MAX_FILTER_DIMENSION,
        height <= MAX_FILTER_DIMENSION,
    ensures
        out@.len() == samples@.len(),
        forall|i: int|
            0 <= i < out@.len() ==> is_median(
                #[trigger] out@[i],
                neighborhood_at(samples@, width as int, height as int, i),
            ),
{
    let image = image::GrayImage::from_raw(width, height, samples.clone()).unwrap();
    imageproc::filter::median_filter(&image, 1, 1).into_raw()
}

/// Removes isolated outlier pixels with a 3x3 median filter.
///
/// The image is first converted to grayscale. Fails only on an image wider
/// or higher than `MAX_FILTER_DIMENSION`.
pub fn apply(image: PixelBuffer) -> (r: Result<PixelBuffer, OcrError>)
    ensures
        r is Err <==> (image@.width > MAX_FILTER_DIMENSION || image@.height
            > MAX_FILTER_DIMENSION),
        r is Ok ==> r->Ok_0@ == denoised(image@),
        r is Ok ==> r->Ok_0@.wf(),
        r is Err ==> r->Err_0@ == ErrorModel::PreprocessingError("denoise: image too large"@),
{
    let gray = to_luma8(&image);
    let width = gray.width();
    let height = gray.height();
    if width > MAX_FILTER_DIMENSION || height > MAX_FILTER_DIMENSION {
        return Err(OcrError::preprocessing("denoise: image too large"));
    }
    let out = median_filter_3x3(width, height, gray.samples());
    proof {
        let samples = gray@.samples;
        let expected = median_samples(samples, width as int, height as int);
        assert forall|i: int| 0 <= i < out@.len() implies out@[i] == expected[i] by {
            let window = neighborhood_at(samples, width as int, height as int, i);
            assert(is_median(out@[i], window));
            lemma_median_unique(out@[i], median_of(window), window);
        }
        assert(out@ =~= expected);
    }
    Ok(PixelBuffer::from_parts(width, height, 1, out))
}

} // verus!
