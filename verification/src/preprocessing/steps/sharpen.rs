//! Edge enhancement by a 3x3 Laplacian kernel.

use crate::buffer::{PixelBuffer, Raster};
use crate::error::OcrError;
use crate::preprocessing::steps::grayscale::{grayscale_of, to_luma8};
use crate::preprocessing::steps::neighbors::neighborhood_at;
use vstd::prelude::*;

verus! {

/// The nearest value to `value` that a sample can hold.
pub open spec fn clamp_sample(value: int) -> u8 {
    if value < 0 {
        0
    } else if value > 255 {
        255
    } else {
        value as u8
    }
}

/// The correlation of a window of nine samples with a row-major kernel.
pub open spec fn weighted_sum(window: Seq<u8>, kernel: Seq<i32>) -> int {
    window[0] * kernel[0] + window[1] * kernel[1] + window[2] * kernel[2] + window[3] * kernel[3]
        + window[4] * kernel[4] + window[5] * kernel[5] + window[6] * kernel[6] + window[7]
        * kernel[7] + window[8] * kernel[8]
}

/// The sharpened value of the centre of a window: five times the centre
/// less its four direct neighbours, clamped to a sample.
pub open spec fn sharpened_sample(window: Seq<u8>) -> u8 {
    clamp_sample(5 * window[4] - window[1] - window[3] - window[5] - window[7])
}

/// Sharpening leaves a pixel whose four direct neighbours equal it as it
/// is.
pub proof fn lemma_sharpen_flat(window: Seq<u8>)
    requires
        window.len() == 9,
        window[1] == window[4],
        window[3] == window[4],
        window[5] == window[4],
        window[7] == window[4],
    ensures
        sharpened_sample(window) == window[4],
{
}

/// The sharpening kernel.
pub open spec fn kernel() -> Seq<i32> {
    seq![0i32, -1i32, 0i32, -1i32, 5i32, -1i32, 0i32, -1i32, 0i32]
}

/// `sharpened_sample` is the clamped correlation of the window with the
/// sharpening kernel.
pub proof fn lemma_sharpen_is_correlation(window: Seq<u8>)
    ensures
        sharpened_sample(window) == clamp_sample(weighted_sum(window, kernel())),
{
    let k = kernel();
    assert(k[0] == 0 && k[1] == -1 && k[2] == 0 && k[3] == -1 && k[4] == 5 && k[5] == -1 && k[6]
        == 0 && k[7] == -1 && k[8] == 0);
}

/// The samples of a grayscale image after sharpening.
pub open spec fn sharpened_samples(samples: Seq<u8>, width: int, height: int) -> Seq<u8> {
    Seq::new(samples.len(), |i: int| sharpened_sample(neighborhood_at(samples, width, height, i)))
}

/// The sharpened version of a raster: its grayscale version with every
/// sample replaced by `sharpened_sample` of its 3x3 neighbourhood.
pub open spec fn sharpened(image: Raster) -> Raster {
    let gray = grayscale_of(image);
    Raster {
        samples: sharpened_samples(gray.samples, gray.width as int, gray.height as int),
        ..gray
    }
}

/// Largest magnitude of a kernel weight that `correlate_3x3` takes.
pub const MAX_WEIGHT: i32 = 100_000;

/// `imageproc::filter::filter3x3` on a grayscale image, with the sums
/// formed in `i32` and clamped to a sample. The result has the size of the
/// input, and each of its samples is the clamped correlation of the kernel
/// with the nine input samples around it, the image being padded by
/// continuity. The bound on the weights keeps the sums inside `i32`.
#[verifier::external_body]
fn correlate_3x3(width: u32, height: u32, samples: &Vec<u8>, kernel: &[i32; 9]) -> (out: Vec<u8>)
    requires
        samples@.len() == width * height,
        forall|k: int| 0 <= k < 9 ==> -MAX_WEIGHT <= #[trigger] kernel@[k] <= MAX_WEIGHT,
    ensures
        out@.len() == samples@.len(),
        forall|i: int|
            0 <= i < out@.len() ==> #[trigger] out@[i] == clamp_sample(
                weighted_sum(neighborhood_at(samples@, width as int, height as int, i), kernel@),
            ),
{
    let image = image::GrayImage::from_raw(width, height, samples.clone()).unwrap();
    imageproc::filter::filter3x3::<image::Luma<u8>, i32, u8>(&image, kernel).into_raw()
}

/// Sharpens an image with the kernel `[[0,-1,0],[-1,5,-1],[0,-1,0]]`.
/// Never fails.
///
/// The image is first converted to grayscale.
pub fn apply(image: PixelBuffer) -> (r: Result<PixelBuffer, OcrError>)
    ensures
        r is Ok,
        r->Ok_0@ == sharpened(image@),
        r->Ok_0@.wf(),
{
    let gray = to_luma8(&image);
    let width = gray.width();
    let height = gray.height();
    let kernel: [i32; 9] = [0, -1, 0, -1, 5, -1, 0, -1, 0];
    let out = correlate_3x3(width, height, gray.samples(), &kernel);
    proof {
        assert(out@ =~= sharpened_samples(gray@.samples, width as int, height as int));
    }
    Ok(PixelBuffer::from_parts(width, height, 1, out))
}

} // verus!
