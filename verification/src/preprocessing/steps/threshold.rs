//! Sauvola adaptive binarisation over summed-area tables.

use crate::buffer::{lemma_index_bound, PixelBuffer, Raster};
use crate::error::OcrError;
use crate::preprocessing::steps::grayscale::{grayscale_of, to_luma8};
use vstd::arithmetic::div_mod::lemma_fundamental_div_mod_converse;
use vstd::arithmetic::mul::lemma_mul_upper_bound;
use vstd::prelude::*;

verus! {

/// Side of the square window around each pixel.
pub const WINDOW_SIZE: u32 = 15;

/// Pixels on each side of the centre of a window.
pub const HALF_WINDOW: u32 = 7;

/// The largest number of samples in a window whose sums are had from the
/// tables.
pub const MAX_WINDOW: u64 = 0x8000_0000_0000;

/// What a sample adds to a sum: itself, or its square.
pub open spec fn term(value: u8, squared: bool) -> int {
    if squared {
        value * value
    } else {
        value as int
    }
}

/// Sum of the terms of row `y` over the columns `[x_start, x_end)`.
pub open spec fn segment_sum(
    samples: Seq<u8>,
    width: int,
    y: int,
    x_start: int,
    x_end: int,
    squared: bool,
) -> int
    decreases x_end - x_start,
{
    if x_end <= x_start {
        0
    } else {
        segment_sum(samples, width, y, x_start, x_end - 1, squared) + term(
            samples[y * width + x_end - 1],
            squared,
        )
    }
}

/// Sum of the terms of the window of columns `[x_start, x_end)` and rows
/// `[y_start, y_end)`.
pub open spec fn window_sum(
    samples: Seq<u8>,
    width: int,
    x_start: int,
    y_start: int,
    x_end: int,
    y_end: int,
    squared: bool,
) -> int
    decreases y_end - y_start,
{
    if y_end <= y_start {
        0
    } else {
        window_sum(samples, width, x_start, y_start, x_end, y_end - 1, squared) + segment_sum(
            samples,
            width,
            y_end - 1,
            x_start,
            x_end,
            squared,
        )
    }
}

/// The entry of the summed-area table for `(x_end, y_end)`: the sum over
/// all columns before `x_end` and all rows before `y_end`.
pub open spec fn area_sum(samples: Seq<u8>, width: int, x_end: int, y_end: int, squared: bool) -> int {
    window_sum(samples, width, 0, 0, x_end, y_end, squared)
}

/// A segment is the difference of two segments that start at column 0.
pub proof fn lemma_segment_split(
    samples: Seq<u8>,
    width: int,
    y: int,
    x_start: int,
    x_end: int,
    squared: bool,
)
    requires
        0 <= x_start <= x_end,
    ensures
        segment_sum(samples, width, y, x_start, x_end, squared) == segment_sum(
            samples,
            width,
            y,
            0,
            x_end,
            squared,
        ) - segment_sum(samples, width, y, 0, x_start, squared),
    decreases x_end - x_start,
{
    if x_end > x_start {
        lemma_segment_split(samples, width, y, x_start, x_end - 1, squared);
    }
}

/// A window's sum from four entries of the summed-area table.
pub proof fn lemma_window_from_areas(
    samples: Seq<u8>,
    width: int,
    x_start: int,
    y_start: int,
    x_end: int,
    y_end: int,
    squared: bool,
)
    requires
        0 <= x_start <= x_end,
        0 <= y_start <= y_end,
    ensures
        window_sum(samples, width, x_start, y_start, x_end, y_end, squared) == area_sum(
            samples,
            width,
            x_end,
            y_end,
            squared,
        ) - area_sum(samples, width, x_start, y_end, squared) - area_sum(
            samples,
            width,
            x_end,
            y_start,
            squared,
        ) + area_sum(samples, width, x_start, y_start, squared),
    decreases y_end,
{
    if y_end > y_start {
        lemma_window_from_areas(samples, width, x_start, y_start, x_end, y_end - 1, squared);
        lemma_segment_split(samples, width, y_end - 1, x_start, x_end, squared);
    } else {
        assert(y_end == y_start);
    }
}

/// A segment's sum lies between 0 and the largest term times its length.
pub proof fn lemma_segment_bound(
    samples: Seq<u8>,
    width: int,
    y: int,
    x_start: int,
    x_end: int,
    squared: bool,
)
    requires
        x_start <= x_end,
    ensures
        0 <= segment_sum(samples, width, y, x_start, x_end, squared) <= (if squared {
            65025int
        } else {
            255int
        }) * (x_end - x_start),
    decreases x_end - x_start,
{
    if x_end > x_start {
        lemma_segment_bound(samples, width, y, x_start, x_end - 1, squared);
        let v = samples[y * width + x_end - 1];
        assert(v * v <= 65025) by (nonlinear_arith)
            requires
                0 <= v <= 255,
        ;
        assert(0 <= v * v) by (nonlinear_arith)
            requires
                0 <= v,
        ;
    }
}

/// A window's sum lies between 0 and the largest term times its area.
pub proof fn lemma_window_bound(
    samples: Seq<u8>,
    width: int,
    x_start: int,
    y_start: int,
    x_end: int,
    y_end: int,
    squared: bool,
)
    requires
        x_start <= x_end,
        y_start <= y_end,
    ensures
        0 <= window_sum(samples, width, x_start, y_start, x_end, y_end, squared) <= (if squared {
            65025int
        } else {
            255int
        }) * ((x_end - x_start) * (y_end - y_start)),
    decreases y_end - y_start,
{
    let top = if squared {
        65025int
    } else {
        255int
    };
    let dx = x_end - x_start;
    if y_end > y_start {
        lemma_window_bound(samples, width, x_start, y_start, x_end, y_end - 1, squared);
        lemma_segment_bound(samples, width, y_end - 1, x_start, x_end, squared);
        let dy = y_end - y_start;
        assert(top * (dx * (dy - 1)) + top * dx == top * (dx * dy)) by (nonlinear_arith);
    } else {
        assert(top * (dx * 0) == 0) by (nonlinear_arith);
    }
}

/// Whether a sample is brighter than the Sauvola threshold of its window.
///
/// For a window of `count` samples with sum `sum` and sum of squares
/// `squares`, the threshold is `mean * (1 + k * (deviation / R - 1))` with
/// `k = 0.2` and `R = 128`, where `mean = sum / count` and `deviation` is
/// the square root of `squares / count - mean * mean`, taken as 0 where
/// that is negative. Multiplied out by `640 * count * count`, the test
/// `sample > threshold` reads `lead > sum * sqrt(spread)` with the two
/// integers below, which holds exactly when `lead` is positive and its
/// square exceeds `sum * sum * spread`.
pub open spec fn sauvola_white(sample: u8, count: int, sum: int, squares: int) -> bool {
    let lead = 640 * count * count * sample - 512 * count * sum;
    let spread = if count * squares - sum * sum > 0 {
        count * squares - sum * sum
    } else {
        0
    };
    lead > 0 && lead * lead > sum * sum * spread
}

/// First column or row of the window centred at `at`.
pub open spec fn window_start(at: int) -> int {
    if at >= HALF_WINDOW {
        at - HALF_WINDOW
    } else {
        0
    }
}

/// One past the last column or row of the window centred at `at`, in an
/// image of `limit` columns or rows.
pub open spec fn window_end(at: int, limit: int) -> int {
    if at + HALF_WINDOW + 1 <= limit {
        at + HALF_WINDOW + 1
    } else {
        limit
    }
}

/// The binarised sample at `(x, y)` of a grayscale raster: 255 where the
/// sample is brighter than the threshold of the window around it, clipped
/// at the borders, else 0.
pub open spec fn binarized_sample(image: Raster, x: int, y: int) -> u8 {
    let w = image.width as int;
    let h = image.height as int;
    let x_start = window_start(x);
    let y_start = window_start(y);
    let x_end = window_end(x, w);
    let y_end = window_end(y, h);
    if sauvola_white(
        image.samples[y * w + x],
        (x_end - x_start) * (y_end - y_start),
        window_sum(image.samples, w, x_start, y_start, x_end, y_end, false),
        window_sum(image.samples, w, x_start, y_start, x_end, y_end, true),
    ) {
        255
    } else {
        0
    }
}

/// The first `count` binarised samples of a grayscale raster, row by row.
pub open spec fn binarized_samples(gray: Raster, count: nat) -> Seq<u8> {
    Seq::new(
        count,
        |i: int| binarized_sample(gray, i % (gray.width as int), i / (gray.width as int)),
    )
}

/// The binarised version of a raster: its grayscale version with every
/// sample replaced by `binarized_sample`.
pub open spec fn binarized(image: Raster) -> Raster {
    let gray = grayscale_of(image);
    Raster { samples: binarized_samples(gray, gray.samples.len()), ..gray }
}

/// Every sample of a binarised raster is 0 or 255.
pub proof fn lemma_binarized_is_binary(image: Raster)
    ensures
        forall|i: int|
            0 <= i < binarized(image).samples.len() ==> {
                let v = #[trigger] binarized(image).samples[i];
                v == 0 || v == 255
            },
{
}

} // verus!

verus! {

/// The value that a table of 64-bit entries holds for a sum: the sum up
/// to a multiple of 2^64. The sum over a window of at most `MAX_WINDOW`
/// samples is below 2^64 and is had exactly from four such entries.
pub open spec fn wrapped(sum: int) -> int {
    sum % 0x1_0000_0000_0000_0000
}

/// Four wrapped entries give the sum over a window exactly, by wrapping
/// subtraction and addition, where that sum is below 2^64.
pub proof fn lemma_wrapped_window(whole: int, left: int, above: int, corner: int, a: u64, b: u64, c: u64, d: u64)
    requires
        a == wrapped(whole),
        b == wrapped(left),
        c == wrapped(above),
        d == wrapped(corner),
        0 <= whole - left - above + corner < 0x1_0000_0000_0000_0000,
    ensures
        vstd::wrapping::u64_specs::wrapping_add(
            vstd::wrapping::u64_specs::wrapping_sub(vstd::wrapping::u64_specs::wrapping_sub(a, b), c),
            d,
        ) == whole - left - above + corner,
{
    let m = 0x1_0000_0000_0000_0000int;
    let qa = whole / m;
    let qb = left / m;
    let qc = above / m;
    let qd = corner / m;
    assert(whole == m * qa + a && left == m * qb + b && above == m * qc + c && corner == m * qd + d);
    let first = vstd::wrapping::u64_specs::wrapping_sub(a, b);
    let k1: int = if a - b < 0 {
        1
    } else {
        0
    };
    assert(first == a - b + m * k1);
    let second = vstd::wrapping::u64_specs::wrapping_sub(first, c);
    let k2: int = if first - c < 0 {
        1
    } else {
        0
    };
    assert(second == first - c + m * k2);
    let third = vstd::wrapping::u64_specs::wrapping_add(second, d);
    let k3: int = if second + d > u64::MAX {
        1
    } else {
        0
    };
    assert(third == second + d - m * k3);
    let inside = whole - left - above + corner;
    let k = k1 + k2 - k3 - qa + qb + qc - qd;
    assert(third == inside + m * k);
    assert(k == 0) by (nonlinear_arith)
        requires
            third == inside + m * k,
            0 <= third < m,
            0 <= inside < m,
            m > 0,
    ;
}

/// Whether `table` is the summed-area table of a `width` by `height`
/// image: row `y`, column `x` holds, wrapped, the sum over the columns up
/// to `x` and the rows up to `y`, both included.
pub open spec fn is_table(
    table: Seq<Vec<u64>>,
    samples: Seq<u8>,
    width: int,
    height: int,
    squared: bool,
) -> bool {
    &&& table.len() == height
    &&& forall|y: int| 0 <= y < height ==> (#[trigger] table[y])@.len() == width
    &&& forall|y: int, x: int|
        0 <= y < height && 0 <= x < width ==> (#[trigger] table[y]@[x]) == wrapped(
            area_sum(samples, width, x + 1, y + 1, squared),
        )
}

/// The summed-area tables of a grayscale image: one of the samples, one of
/// their squares.
pub struct IntegralImages {
    width: usize,
    height: usize,
    sums: Vec<Vec<u64>>,
    squares: Vec<Vec<u64>>,
    source: Ghost<Seq<u8>>,
}

impl IntegralImages {
    /// The samples that the tables were computed from.
    pub closed spec fn source(&self) -> Seq<u8> {
        self.source@
    }

    /// Width of the image.
    pub closed spec fn width(&self) -> int {
        self.width as int
    }

    /// Height of the image.
    pub closed spec fn height(&self) -> int {
        self.height as int
    }

    /// Both tables hold the sums of the source image.
    pub closed spec fn wf(&self) -> bool {
        &&& is_table(self.sums@, self.source@, self.width as int, self.height as int, false)
        &&& is_table(self.squares@, self.source@, self.width as int, self.height as int, true)
    }

    /// The entry of one of the tables for `(x_end, y_end)`.
    fn area_at(&self, x_end: usize, y_end: usize, squared: bool) -> (r: u64)
        requires
            self.wf(),
            x_end <= self.width(),
            y_end <= self.height(),
        ensures
            r == wrapped(
                area_sum(self.source(), self.width(), x_end as int, y_end as int, squared),
            ),
    {
        if x_end == 0 || y_end == 0 {
            proof {
                lemma_window_bound(
                    self.source(),
                    self.width(),
                    0,
                    0,
                    x_end as int,
                    y_end as int,
                    squared,
                );
                assert((x_end - 0) * (y_end - 0) == 0) by (nonlinear_arith)
                    requires
                        x_end == 0 || y_end == 0,
                ;
            }
            0
        } else if squared {
            self.squares[y_end - 1][x_end - 1]
        } else {
            self.sums[y_end - 1][x_end - 1]
        }
    }

    /// One window sum from four entries of a table.
    fn window_total(&self, x1: usize, y1: usize, x2: usize, y2: usize, squared: bool) -> (r: u64)
        requires
            self.wf(),
            x1 <= x2 < self.width(),
            y1 <= y2 < self.height(),
            (x2 + 1 - x1) * (y2 + 1 - y1) <= MAX_WINDOW,
        ensures
            r == window_sum(
                self.source(),
                self.width(),
                x1 as int,
                y1 as int,
                x2 + 1,
                y2 + 1,
                squared,
            ),
    {
        let x_end = x2 + 1;
        let y_end = y2 + 1;
        let ghost whole = area_sum(self.source(), self.width(), x_end as int, y_end as int, squared);
        let ghost left = area_sum(self.source(), self.width(), x1 as int, y_end as int, squared);
        let ghost above = area_sum(self.source(), self.width(), x_end as int, y1 as int, squared);
        let ghost corner = area_sum(self.source(), self.width(), x1 as int, y1 as int, squared);
        let ghost inside = window_sum(
            self.source(),
            self.width(),
            x1 as int,
            y1 as int,
            x_end as int,
            y_end as int,
            squared,
        );
        proof {
            let w = self.width();
            lemma_window_from_areas(
                self.source(),
                w,
                x1 as int,
                y1 as int,
                x_end as int,
                y_end as int,
                squared,
            );
            lemma_window_bound(
                self.source(),
                w,
                x1 as int,
                y1 as int,
                x_end as int,
                y_end as int,
                squared,
            );
            let cells = (x_end - x1) * (y_end - y1);
            assert(65025 * cells <= 65025 * MAX_WINDOW) by (nonlinear_arith)
                requires
                    cells <= MAX_WINDOW,
            ;
            assert(255 * cells <= 65025 * cells) by (nonlinear_arith)
                requires
                    0 <= cells,
            ;
            assert(inside == whole - left - above + corner);
            assert(0 <= inside < 0x1_0000_0000_0000_0000);
        }
        let a = self.area_at(x_end, y_end, squared);
        let b = self.area_at(x1, y_end, squared);
        let c = self.area_at(x_end, y1, squared);
        let d = self.area_at(x1, y1, squared);
        proof {
            lemma_wrapped_window(whole, left, above, corner, a, b, c, d);
        }
        a.wrapping_sub(b).wrapping_sub(c).wrapping_add(d)
    }

    /// Sum and sum of squares of the samples in the window of columns
    /// `x1..=x2` and rows `y1..=y2`, a window of at most `MAX_WINDOW`
    /// samples.
    pub fn window_stats(&self, x1: usize, y1: usize, x2: usize, y2: usize) -> (r: (u64, u64))
        requires
            self.wf(),
            x1 <= x2 < self.width(),
            y1 <= y2 < self.height(),
            (x2 + 1 - x1) * (y2 + 1 - y1) <= MAX_WINDOW,
        ensures
            r.0 == window_sum(
                self.source(),
                self.width(),
                x1 as int,
                y1 as int,
                x2 + 1,
                y2 + 1,
                false,
            ),
            r.1 == window_sum(
                self.source(),
                self.width(),
                x1 as int,
                y1 as int,
                x2 + 1,
                y2 + 1,
                true,
            ),
    {
        (self.window_total(x1, y1, x2, y2, false), self.window_total(x1, y1, x2, y2, true))
    }
}

/// Computes the summed-area tables of the samples and of their squares.
pub fn compute_integral_images(samples: &Vec<u8>, width: usize, height: usize) -> (tables:
    IntegralImages)
    requires
        samples@.len() == width * height,
        width <= u32::MAX,
    ensures
        tables.wf(),
        tables.source() == samples@,
        tables.width() == width,
        tables.height() == height,
{
    let ghost w = width as int;
    let ghost h = height as int;
    let len = samples.len();
    let mut sums: Vec<Vec<u64>> = Vec::new();
    let mut squares: Vec<Vec<u64>> = Vec::new();
    let mut y: usize = 0;
    while y < height
        invariant
            y <= height,
            w == width,
            h == height,
            w <= u32::MAX,
            samples@.len() == w * h == len,
            is_table(sums@, samples@, w, y as int, false),
            is_table(squares@, samples@, w, y as int, true),
        decreases height - y,
    {
        let mut row: Vec<u64> = Vec::new();
        let mut row_squares: Vec<u64> = Vec::new();
        let mut run: u64 = 0;
        let mut run_squares: u64 = 0;
        let mut x: usize = 0;
        while x < width
            invariant
                x <= width,
                y < height,
                w == width,
                h == height,
                w <= u32::MAX,
                samples@.len() == w * h == len,
                is_table(sums@, samples@, w, y as int, false),
                is_table(squares@, samples@, w, y as int, true),
                row@.len() == x,
                row_squares@.len() == x,
                run == segment_sum(samples@, w, y as int, 0, x as int, false),
                run_squares == segment_sum(samples@, w, y as int, 0, x as int, true),
                forall|i: int|
                    0 <= i < x ==> #[trigger] row@[i] == wrapped(
                        area_sum(samples@, w, i + 1, y + 1, false),
                    ),
                forall|i: int|
                    0 <= i < x ==> #[trigger] row_squares@[i] == wrapped(
                        area_sum(samples@, w, i + 1, y + 1, true),
                    ),
            decreases width - x,
        {
            proof {
                lemma_index_bound(w, h, 1, x as int, y as int, 0);
                lemma_segment_bound(samples@, w, y as int, 0, x as int, false);
                lemma_segment_bound(samples@, w, y as int, 0, x as int, true);
                lemma_segment_bound(samples@, w, y as int, 0, x + 1, false);
                lemma_segment_bound(samples@, w, y as int, 0, x + 1, true);
                lemma_window_bound(samples@, w, 0, 0, x + 1, y as int, false);
                lemma_window_bound(samples@, w, 0, 0, x + 1, y as int, true);
            }
            let value: u64 = samples[y * width + x] as u64;
            assert(value * value <= 65025) by (nonlinear_arith)
                requires
                    value <= 255,
            ;
            run = run + value;
            run_squares = run_squares + value * value;
            let above: u64 = if y == 0 {
                0
            } else {
                sums[y - 1][x]
            };
            let above_squares: u64 = if y == 0 {
                0
            } else {
                squares[y - 1][x]
            };
            proof {
                assert(y == 0 ==> area_sum(samples@, w, x + 1, y as int, false) == 0);
                assert(y == 0 ==> area_sum(samples@, w, x + 1, y as int, true) == 0);
                assert(above == wrapped(area_sum(samples@, w, x + 1, y as int, false)));
                assert(above_squares == wrapped(area_sum(samples@, w, x + 1, y as int, true)));
                assert(area_sum(samples@, w, x + 1, y + 1, false) == area_sum(
                    samples@,
                    w,
                    x + 1,
                    y as int,
                    false,
                ) + run);
                assert(area_sum(samples@, w, x + 1, y + 1, true) == area_sum(
                    samples@,
                    w,
                    x + 1,
                    y as int,
                    true,
                ) + run_squares);
            }
            row.push(above.wrapping_add(run));
            row_squares.push(above_squares.wrapping_add(run_squares));
            x += 1;
        }
        sums.push(row);
        squares.push(row_squares);
        y += 1;
    }
    IntegralImages { width, height, sums, squares, source: Ghost(samples@) }
}

/// Computes `sauvola_white` for a window of at most `WINDOW_SIZE` squared
/// samples.
pub fn is_white(sample: u8, count: u64, sum: u64, squares: u64) -> (r: bool)
    requires
        1 <= count <= 225,
        sum <= 255 * count,
        squares <= 65025 * count,
    ensures
        r == sauvola_white(sample, count as int, sum as int, squares as int),
{
    let n = count as i128;
    let s = sum as i128;
    let q = squares as i128;
    let p = sample as i128;
    assert(0 <= 640 * n * n <= 640 * 225 * 225) by (nonlinear_arith)
        requires
            0 <= n <= 225,
    ;
    assert(0 <= 640 * n * n * p <= 640 * 225 * 225 * 255) by (nonlinear_arith)
        requires
            0 <= 640 * n * n <= 640 * 225 * 225,
            0 <= p <= 255,
    ;
    assert(0 <= 512 * n * s <= 512 * 225 * 57375) by (nonlinear_arith)
        requires
            0 <= n <= 225,
            0 <= s <= 57375,
    ;
    let lead: i128 = 640 * n * n * p - 512 * n * s;
    assert(0 <= n * q <= 225 * 14630625) by (nonlinear_arith)
        requires
            0 <= n <= 225,
            0 <= q <= 14630625,
    ;
    assert(0 <= s * s <= 57375 * 57375) by (nonlinear_arith)
        requires
            0 <= s <= 57375,
    ;
    let spread: i128 = if n * q - s * s > 0 {
        n * q - s * s
    } else {
        0
    };
    assert(lead * lead <= 8262000000 * 8262000000) by (nonlinear_arith)
        requires
            -8262000000 <= lead <= 8262000000,
    ;
    assert(0 <= s * s * spread <= 57375 * 57375 * (225 * 14630625)) by (nonlinear_arith)
        requires
            0 <= s * s <= 57375 * 57375,
            0 <= spread <= 225 * 14630625,
    ;
    lead > 0 && lead * lead > s * s * spread
}

} // verus!

verus! {

/// Binarises the samples of a grayscale image of `width` by `height`
/// pixels.
pub fn sauvola_threshold(samples: &Vec<u8>, width: usize, height: usize) -> (out: Vec<u8>)
    requires
        samples@.len() == width * height,
        width <= u32::MAX,
        height <= u32::MAX,
    ensures
        out@ == binarized_samples(
            Raster { width: width as nat, height: height as nat, channels: 1, samples: samples@ },
            samples@.len(),
        ),
{
    let ghost gray = Raster {
        width: width as nat,
        height: height as nat,
        channels: 1,
        samples: samples@,
    };
    let ghost w = width as int;
    let ghost h = height as int;
    let tables = compute_integral_images(samples, width, height);
    let len = samples.len();
    let mut out: Vec<u8> = Vec::new();
    let mut y: usize = 0;
    while y < height
        invariant
            y <= height,
            w == width,
            h == height,
            gray == (Raster {
                width: width as nat,
                height: height as nat,
                channels: 1,
                samples: samples@,
            }),
            samples@.len() == w * h == len,
            tables.wf(),
            tables.source() == samples@,
            tables.width() == w,
            tables.height() == h,
            out@.len() == y * w,
            out@ == binarized_samples(gray, (y * w) as nat),
        decreases height - y,
    {
        let y1: usize = if y >= 7 {
            y - 7
        } else {
            0
        };
        let y2: usize = if height - y > 7 {
            y + 7
        } else {
            height - 1
        };
        let mut x: usize = 0;
        while x < width
            invariant
                x <= width,
                y < height,
                w == width,
                h == height,
                gray == (Raster {
                    width: width as nat,
                    height: height as nat,
                    channels: 1,
                    samples: samples@,
                }),
                samples@.len() == w * h == len,
                    tables.wf(),
                tables.source() == samples@,
                tables.width() == w,
                tables.height() == h,
                y1 == window_start(y as int),
                y2 + 1 == window_end(y as int, h),
                y1 <= y2 < h,
                out@.len() == y * w + x,
                out@ == binarized_samples(gray, (y * w + x) as nat),
            decreases width - x,
        {
            let x1: usize = if x >= 7 {
                x - 7
            } else {
                0
            };
            let x2: usize = if width - x > 7 {
                x + 7
            } else {
                width - 1
            };
            proof {
                lemma_index_bound(w, h, 1, x as int, y as int, 0);
                lemma_window_bound(samples@, w, x1 as int, y1 as int, x2 + 1, y2 + 1, false);
                lemma_window_bound(samples@, w, x1 as int, y1 as int, x2 + 1, y2 + 1, true);
                lemma_mul_upper_bound(x2 + 1 - x1, 15, y2 + 1 - y1, 15);
                assert(1 <= (x2 + 1 - x1) * (y2 + 1 - y1)) by (nonlinear_arith)
                    requires
                        1 <= x2 + 1 - x1,
                        1 <= y2 + 1 - y1,
                ;
            }
            let (sum, squares) = tables.window_stats(x1, y1, x2, y2);
            let count: u64 = ((x2 - x1 + 1) * (y2 - y1 + 1)) as u64;
            let white = is_white(samples[y * width + x], count, sum, squares);
            out.push(
                if white {
                    255
                } else {
                    0
                },
            );
            proof {
                lemma_fundamental_div_mod_converse(y * w + x, w, y as int, x as int);
                assert(out@ =~= binarized_samples(gray, (y * w + x + 1) as nat));
            }
            x += 1;
        }
        proof {
            assert(y * w + w == (y + 1) * w) by (nonlinear_arith);
        }
        y += 1;
    }
    proof {
        assert(y * w == w * h) by (nonlinear_arith)
            requires
                y == h,
        ;
    }
    out
}

/// Binarises an image with a threshold that adapts to each pixel's
/// surroundings. Never fails.
///
/// The image is first converted to grayscale. Every sample of the result
/// is 0 or 255.
pub fn apply(image: PixelBuffer) -> (r: Result<PixelBuffer, OcrError>)
    ensures
        r is Ok,
        r->Ok_0@ == binarized(image@),
        r->Ok_0@.wf(),
        r->Ok_0@.channels == 1,
        r->Ok_0@.width == image@.width,
        r->Ok_0@.height == image@.height,
        forall|i: int|
            0 <= i < r->Ok_0@.samples.len() ==> {
                let v = #[trigger] r->Ok_0@.samples[i];
                v == 0 || v == 255
            },
{
    let gray = to_luma8(&image);
    let width = gray.width();
    let height = gray.height();
    let samples = gray.samples();
    let out = sauvola_threshold(samples, width as usize, height as usize);
    proof {
        lemma_binarized_is_binary(image@);
    }
    Ok(PixelBuffer::from_parts(width, height, 1, out))
}

} // verus!
