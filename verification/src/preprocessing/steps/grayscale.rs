//! Luminance conversion.

use crate::buffer::{PixelBuffer, Raster};
use crate::error::OcrError;
use vstd::prelude::*;

verus! {

/// Perceptual luminance of an RGB pixel: `0.299 R + 0.587 G + 0.114 B`,
/// rounded down.
pub open spec fn luma(r: u8, g: u8, b: u8) -> u8 {
    ((299 * r + 587 * g + 114 * b) / 1000) as u8
}

/// The single-channel samples of an RGB sample array of `pixels` pixels.
pub open spec fn luma_samples(samples: Seq<u8>, pixels: nat) -> Seq<u8> {
    Seq::new(pixels, |i: int| luma(samples[3 * i], samples[3 * i + 1], samples[3 * i + 2]))
}

/// The grayscale version of a raster: the raster itself when it has one
/// channel, else the luminance of each pixel.
pub open spec fn grayscale_of(image: Raster) -> Raster {
    if image.channels == 1 {
        image
    } else {
        Raster {
            width: image.width,
            height: image.height,
            channels: 1,
            samples: luma_samples(image.samples, image.width * image.height),
        }
    }
}

/// Converting to grayscale keeps a raster well formed, and leaves a
/// grayscale raster as it is.
pub proof fn lemma_grayscale_idempotent(image: Raster)
    requires
        image.wf(),
    ensures
        grayscale_of(image).wf(),
        grayscale_of(image).channels == 1,
        grayscale_of(grayscale_of(image)) == grayscale_of(image),
{
}

/// A pixel whose three samples are equal has that value as its luminance.
pub proof fn lemma_luma_of_gray(value: u8)
    ensures
        luma(value, value, value) == value,
{
}

/// Computes `luma`.
pub fn luma_exec(r: u8, g: u8, b: u8) -> (l: u8)
    ensures
        l == luma(r, g, b),
{
    let sum: u32 = 299 * (r as u32) + 587 * (g as u32) + 114 * (b as u32);
    (sum / 1000) as u8
}

/// The grayscale version of an image, leaving the image in place.
pub fn to_luma8(image: &PixelBuffer) -> (gray: PixelBuffer)
    ensures
        gray@ == grayscale_of(image@),
        gray@.wf(),
        gray@.channels == 1,
{
    let width = image.width();
    let height = image.height();
    if image.channels() == 1 {
        return image.clone();
    }
    let samples = image.samples();
    let len = samples.len();
    assert(len == width * height * 3);
    let pixels: usize = len / 3;
    let mut out: Vec<u8> = Vec::new();
    let mut i: usize = 0;
    while i < pixels
        invariant
            i <= pixels,
            len == samples@.len(),
            len == pixels * 3,
            out@ == luma_samples(samples@, i as nat),
        decreases pixels - i,
    {
        out.push(luma_exec(samples[3 * i], samples[3 * i + 1], samples[3 * i + 2]));
        proof {
            assert(out@ =~= luma_samples(samples@, (i + 1) as nat));
        }
        i += 1;
    }
    assert(pixels == width * height) by (nonlinear_arith)
        requires
            pixels * 3 == width * height * 3,
    ;
    PixelBuffer::from_parts(width, height, 1, out)
}

/// Converts an image to grayscale. Never fails.
pub fn apply(image: PixelBuffer) -> (r: Result<PixelBuffer, OcrError>)
    ensures
        r is Ok,
        r->Ok_0@ == grayscale_of(image@),
        r->Ok_0@.wf(),
{
    if image.channels() == 1 {
        Ok(image)
    } else {
        Ok(to_luma8(&image))
    }
}

} // verus!
