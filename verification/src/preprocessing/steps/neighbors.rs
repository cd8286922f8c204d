//! The 3x3 neighbourhood of a pixel, padded by continuity.

use vstd::prelude::*;

verus! {

/// The coordinate nearest to `at` that lies inside `[0, limit)`.
pub open spec fn clamp_index(at: int, limit: int) -> int {
    if at < 0 {
        0
    } else if at >= limit {
        limit - 1
    } else {
        at
    }
}

/// The nine samples around `(x, y)` in a grayscale image, row by row from
/// the upper left. Beyond a border the nearest sample of the image stands
/// in.
pub open spec fn neighborhood(samples: Seq<u8>, width: int, height: int, x: int, y: int) -> Seq<u8> {
    Seq::new(
        9,
        |k: int|
            samples[clamp_index(y + k / 3 - 1, height) * width + clamp_index(x + k % 3 - 1, width)],
    )
}

/// The neighbourhood of the pixel at position `at` of the sample array.
pub open spec fn neighborhood_at(samples: Seq<u8>, width: int, height: int, at: int) -> Seq<u8> {
    neighborhood(samples, width, height, at % width, at / width)
}

} // verus!
