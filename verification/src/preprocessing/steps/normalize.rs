//! Contrast normalisation by histogram stretching.

use crate::buffer::{PixelBuffer, Raster};
use crate::error::OcrError;
use crate::preprocessing::steps::grayscale::{grayscale_of, to_luma8};
use vstd::prelude::*;

verus! {

/// The smallest sample of a sequence; 255 for the empty sequence.
pub open spec fn min_of(samples: Seq<u8>) -> u8
    decreases samples.len(),
{
    if samples.len() == 0 {
        255
    } else {
        let rest = min_of(samples.drop_last());
        if samples.last() < rest {
            samples.last()
        } else {
            rest
        }
    }
}

/// The largest sample of a sequence; 0 for the empty sequence.
pub open spec fn max_of(samples: Seq<u8>) -> u8
    decreases samples.len(),
{
    if samples.len() == 0 {
        0
    } else {
        let rest = max_of(samples.drop_last());
        if samples.last() > rest {
            samples.last()
        } else {
            rest
        }
    }
}

/// `min_of` and `max_of` bound every sample, and each is a sample of a
/// sequence that is not empty.
pub proof fn lemma_min_max(samples: Seq<u8>)
    ensures
        forall|i: int| 0 <= i < samples.len() ==> min_of(samples) <= #[trigger] samples[i] <= max_of(samples),
        samples.len() > 0 ==> exists|i: int| 0 <= i < samples.len() && samples[i] == min_of(samples),
        samples.len() > 0 ==> exists|i: int| 0 <= i < samples.len() && samples[i] == max_of(samples),
    decreases samples.len(),
{
    if samples.len() > 0 {
        let rest = samples.drop_last();
        lemma_min_max(rest);
        let last = samples.len() - 1;
        assert forall|i: int| 0 <= i < samples.len() implies min_of(samples) <= #[trigger] samples[i]
            <= max_of(samples) by {
            if i < last {
                assert(samples[i] == rest[i]);
            }
        }
        if rest.len() > 0 {
            let lo = choose|i: int| 0 <= i < rest.len() && rest[i] == min_of(rest);
            let hi = choose|i: int| 0 <= i < rest.len() && rest[i] == max_of(rest);
            assert(samples[lo] == rest[lo]);
            assert(samples[hi] == rest[hi]);
            if samples.last() < min_of(rest) {
                assert(samples[last] == min_of(samples));
            } else {
                assert(samples[lo] == min_of(samples));
            }
            if samples.last() > max_of(rest) {
                assert(samples[last] == max_of(samples));
            } else {
                assert(samples[hi] == max_of(samples));
            }
        } else {
            assert(samples[last] == min_of(samples));
            assert(samples[last] == max_of(samples));
        }
    }
}

/// Linear map of `[lo, hi]` onto `[0, 255]`, rounded down.
pub open spec fn stretch(value: u8, lo: u8, hi: u8) -> u8
    recommends
        lo <= value <= hi,
        lo < hi,
{
    (((value - lo) * 255) / (hi - lo)) as u8
}

/// The samples of a grayscale image after stretching: unchanged when all
/// samples are equal (or there is none), else each one mapped by `stretch`
/// between the smallest and the largest sample.
pub open spec fn stretched(samples: Seq<u8>) -> Seq<u8> {
    let lo = min_of(samples);
    let hi = max_of(samples);
    if hi <= lo {
        samples
    } else {
        Seq::new(samples.len(), |i: int| stretch(samples[i], lo, hi))
    }
}

/// The normalised version of a raster: its grayscale version with the
/// samples stretched.
pub open spec fn normalized(image: Raster) -> Raster {
    let gray = grayscale_of(image);
    Raster { samples: stretched(gray.samples), ..gray }
}

/// Stretching a sequence whose samples are not all equal yields a sequence
/// whose smallest sample is 0 and whose largest is 255; a sequence of equal
/// samples is left as it is.
pub proof fn lemma_stretched_range(samples: Seq<u8>)
    ensures
        max_of(samples) > min_of(samples) ==> min_of(stretched(samples)) == 0 && max_of(
            stretched(samples),
        ) == 255,
        max_of(samples) <= min_of(samples) ==> stretched(samples) == samples,
        stretched(samples).len() == samples.len(),
{
    let lo = min_of(samples);
    let hi = max_of(samples);
    if hi > lo {
        lemma_min_max(samples);
        let out = stretched(samples);
        lemma_min_max(out);
        let at_lo = choose|i: int| 0 <= i < samples.len() && samples[i] == lo;
        let at_hi = choose|i: int| 0 <= i < samples.len() && samples[i] == hi;
        assert(out[at_lo] == 0);
        assert(((hi - lo) * 255) / (hi - lo) == 255) by (nonlinear_arith)
            requires
                hi - lo > 0,
        ;
        assert(out[at_hi] == 255);
    }
}

/// Normalising a raster whose grayscale samples are not all equal yields
/// a raster whose smallest sample is 0 and whose largest is 255; a raster
/// of equal samples comes out as its grayscale version, which for a
/// grayscale raster is the raster itself.
pub proof fn lemma_normalized_range(image: Raster)
    requires
        image.wf(),
    ensures
        normalized(image).wf(),
        normalized(image).width == image.width,
        normalized(image).height == image.height,
        max_of(grayscale_of(image).samples) > min_of(grayscale_of(image).samples) ==> min_of(
            normalized(image).samples,
        ) == 0 && max_of(normalized(image).samples) == 255,
        max_of(grayscale_of(image).samples) <= min_of(grayscale_of(image).samples) ==> normalized(
            image,
        ) == grayscale_of(image),
        image.channels == 1 && max_of(image.samples) <= min_of(image.samples) ==> normalized(image)
            == image,
{
    lemma_stretched_range(grayscale_of(image).samples);
}

/// The smallest and the largest sample of an image.
pub fn find_min_max(samples: &Vec<u8>) -> (r: (u8, u8))
    ensures
        r.0 == min_of(samples@),
        r.1 == max_of(samples@),
{
    let mut lo: u8 = 255;
    let mut hi: u8 = 0;
    let mut i: usize = 0;
    while i < samples.len()
        invariant
            i <= samples@.len(),
            lo == min_of(samples@.take(i as int)),
            hi == max_of(samples@.take(i as int)),
        decreases samples@.len() - i,
    {
        let value = samples[i];
        proof {
            assert(samples@.take(i + 1).drop_last() =~= samples@.take(i as int));
        }
        if value < lo {
            lo = value;
        }
        if value > hi {
            hi = value;
        }
        i += 1;
    }
    proof {
        assert(samples@.take(i as int) =~= samples@);
    }
    (lo, hi)
}

/// Computes `stretch`.
pub fn stretch_exec(value: u8, lo: u8, hi: u8) -> (r: u8)
    requires
        lo <= value <= hi,
        lo < hi,
    ensures
        r == stretch(value, lo, hi),
{
    let span: u32 = (hi - lo) as u32;
    let scaled: u32 = ((value - lo) as u32) * 255;
    assert(scaled / span <= 255) by (nonlinear_arith)
        requires
            scaled <= span * 255,
            span > 0,
    ;
    (scaled / span) as u8
}

/// Stretches the contrast of an image to the full range. Never fails.
///
/// The image is first converted to grayscale. One whose samples are all
/// equal is returned as it is.
pub fn apply(image: PixelBuffer) -> (r: Result<PixelBuffer, OcrError>)
    ensures
        r is Ok,
        r->Ok_0@ == normalized(image@),
        r->Ok_0@.wf(),
{
    let gray = to_luma8(&image);
    let (lo, hi) = find_min_max(gray.samples());
    if hi <= lo {
        return Ok(gray);
    }
    let width = gray.width();
    let height = gray.height();
    let samples = gray.samples();
    proof {
        lemma_min_max(samples@);
    }
    let mut out: Vec<u8> = Vec::new();
    let mut i: usize = 0;
    while i < samples.len()
        invariant
            i <= samples@.len(),
            lo == min_of(samples@),
            hi == max_of(samples@),
            lo < hi,
            forall|j: int| 0 <= j < samples@.len() ==> lo <= #[trigger] samples@[j] <= hi,
            out@ == Seq::new(i as nat, |j: int| stretch(samples@[j], lo, hi)),
        decreases samples@.len() - i,
    {
        out.push(stretch_exec(samples[i], lo, hi));
        proof {
            assert(out@ =~= Seq::new((i + 1) as nat, |j: int| stretch(samples@[j], lo, hi)));
        }
        i += 1;
    }
    Ok(PixelBuffer::from_parts(width, height, 1, out))
}

} // verus!
