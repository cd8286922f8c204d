//! Skew detection by projection profiles, and correction by rotation.
//!
//! Angles are whole tenths of a degree. Coordinates are fixed-point
//! numbers in units of one part in `2 * SCALE` of a pixel, so that the
//! centre of an image is a whole number whatever its size.

use crate::buffer::{lemma_index_bound, PixelBuffer, Raster};
use crate::error::{ErrorModel, OcrError};
use crate::preprocessing::steps::grayscale::{grayscale_of, to_luma8};
use vstd::arithmetic::div_mod::lemma_fundamental_div_mod_converse;
use vstd::arithmetic::mul::lemma_mul_upper_bound;
use vstd::prelude::*;

verus! {

/// Sines and cosines are held in millionths.
pub const SCALE: i64 = 1_000_000;

/// The largest angle searched, in tenths of a degree.
pub const MAX_ANGLE: i32 = 55;

/// Samples below this value count as dark.
pub const DARK_BELOW: u8 = 128;

/// The largest number of pixels for which the profile's sums are sure to
/// fit.
pub const MAX_PIXELS: u64 = 0x8000_0000_0000;

/// An angle of `tenths` tenths of a degree in millionths of a radian,
/// rounded down.
pub open spec fn microradians(tenths: int) -> int
    recommends
        0 <= tenths,
{
    tenths * 1745329 / 1000
}

/// The sine of an angle in millionths, by the series `a - a^3 / 6` on the
/// angle in radians, which approximates the sine closely up to `MAX_ANGLE`.
pub open spec fn sine(tenths: int) -> int {
    if tenths < 0 {
        -sine_of_positive(-tenths)
    } else {
        sine_of_positive(tenths)
    }
}

/// `sine` of an angle that is not negative.
pub open spec fn sine_of_positive(tenths: int) -> int {
    let a = microradians(tenths);
    a - a * a * a / 6_000_000_000_000
}

/// The cosine of an angle in millionths, by the series
/// `1 - a^2 / 2 + a^4 / 24` on the angle in radians, which approximates the
/// cosine closely up to `MAX_ANGLE`.
pub open spec fn cosine(tenths: int) -> int {
    let a = microradians(if tenths < 0 {
        -tenths
    } else {
        tenths
    });
    SCALE - a * a / 2_000_000 + a * a * a * a / 24_000_000_000_000_000_000
}

/// Bounds of `sine` and `cosine` over the angles searched.
pub proof fn lemma_trig_bounds(tenths: int)
    requires
        -MAX_ANGLE <= tenths <= MAX_ANGLE,
    ensures
        -100_000 <= sine(tenths) <= 100_000,
        990_000 <= cosine(tenths) <= 1_000_004,
        sine(0) == 0,
        cosine(0) == SCALE,
{
    let t = if tenths < 0 {
        -tenths
    } else {
        tenths
    };
    let a = microradians(t);
    assert(0 <= a <= 95_994);
    assert(0 <= a * a <= 95_994 * 95_994) by (nonlinear_arith)
        requires
            0 <= a <= 95_994,
    ;
    assert(0 <= a * a * a <= 95_994 * 95_994 * 95_994) by (nonlinear_arith)
        requires
            0 <= a <= 95_994,
            0 <= a * a <= 95_994 * 95_994,
    ;
    assert(0 <= a * a * a * a <= 95_994 * 95_994 * 95_994 * 95_994) by (nonlinear_arith)
        requires
            0 <= a <= 95_994,
            0 <= a * a * a <= 95_994 * 95_994 * 95_994,
    ;
    assert(microradians(0) == 0);
}

/// Computes `sine` and `cosine`.
pub fn sine_cosine(tenths: i32) -> (r: (i64, i64))
    requires
        -MAX_ANGLE <= tenths <= MAX_ANGLE,
    ensures
        r.0 == sine(tenths as int),
        r.1 == cosine(tenths as int),
        -100_000 <= r.0 <= 100_000,
        990_000 <= r.1 <= 1_000_004,
{
    proof {
        lemma_trig_bounds(tenths as int);
    }
    let t: i128 = if tenths < 0 {
        -(tenths as i128)
    } else {
        tenths as i128
    };
    let a: i128 = t * 1745329 / 1000;
    assert(0 <= a <= 95_994);
    assert(0 <= a * a <= 95_994 * 95_994) by (nonlinear_arith)
        requires
            0 <= a <= 95_994,
    ;
    let a2: i128 = a * a;
    assert(0 <= a2 * a <= 95_994 * 95_994 * 95_994) by (nonlinear_arith)
        requires
            0 <= a <= 95_994,
            0 <= a2 <= 95_994 * 95_994,
    ;
    let a3: i128 = a2 * a;
    assert(0 <= a3 * a <= 95_994 * 95_994 * 95_994 * 95_994) by (nonlinear_arith)
        requires
            0 <= a <= 95_994,
            0 <= a3 <= 95_994 * 95_994 * 95_994,
    ;
    let a4: i128 = a3 * a;
    let s: i128 = a - a3 / 6_000_000_000_000;
    let c: i128 = 1_000_000 - a2 / 2_000_000 + a4 / 24_000_000_000_000_000_000;
    if tenths < 0 {
        ((-s) as i64, c as i64)
    } else {
        (s as i64, c as i64)
    }
}

/// The vertical position to which the pixel `(x, y)` of a `width` by
/// `height` image turns about the centre, by `angle` tenths of a degree:
/// `(y - cy) * cos - (x - cx) * sin + cy`, in fixed point.
pub open spec fn turned_y(x: int, y: int, width: int, height: int, angle: int) -> int {
    (2 * y - height) * cosine(angle) - (2 * x - width) * sine(angle) + height * SCALE
}

/// The horizontal position from which the pixel `(x, y)` of the rotated
/// image is taken: `(x - cx) * cos - (y - cy) * sin + cx`, in fixed point.
pub open spec fn source_x(x: int, y: int, width: int, height: int, angle: int) -> int {
    (2 * x - width) * cosine(angle) - (2 * y - height) * sine(angle) + width * SCALE
}

/// The vertical position from which the pixel `(x, y)` of the rotated
/// image is taken: `(x - cx) * sin + (y - cy) * cos + cy`, in fixed point.
/// This is the inverse of the turn that `turned_y` measures: a pixel of
/// the input lands in the rotated image where the profile counted it.
pub open spec fn source_y(x: int, y: int, width: int, height: int, angle: int) -> int {
    (2 * x - width) * sine(angle) + (2 * y - height) * cosine(angle) + height * SCALE
}

/// A fixed-point position as a whole row or column, rounded towards zero;
/// -1 stands for every position at or beyond -1.
pub open spec fn whole_towards_zero(position: int) -> int {
    if position <= -2 * SCALE {
        -1
    } else if position < 0 {
        0
    } else {
        position / (2 * SCALE)
    }
}

/// The row of the profile that the pixel `(x, y)` is counted in.
pub open spec fn profile_row(x: int, y: int, width: int, height: int, angle: int) -> int {
    whole_towards_zero(turned_y(x, y, width, height, angle))
}

/// Whether the pixel at position `at` of a grayscale raster is dark and
/// counted in row `row` of the profile.
pub open spec fn lands_in(gray: Raster, angle: int, at: int, row: int) -> bool {
    let w = gray.width as int;
    &&& gray.samples[at] < DARK_BELOW
    &&& profile_row(at % w, at / w, w, gray.height as int, angle) == row
}

/// How many of the first `upto` pixels are dark and counted in `row`.
pub open spec fn profile_count(gray: Raster, angle: int, row: int, upto: int) -> nat
    decreases upto,
{
    if upto <= 0 {
        0
    } else {
        profile_count(gray, angle, row, upto - 1) + if lands_in(gray, angle, upto - 1, row) {
            1nat
        } else {
            0nat
        }
    }
}

/// The horizontal projection profile of a grayscale raster turned by
/// `angle`: for each row, the number of dark pixels that land in it.
pub open spec fn profile(gray: Raster, angle: int) -> Seq<int> {
    Seq::new(
        gray.height,
        |row: int| profile_count(gray, angle, row, gray.samples.len() as int) as int,
    )
}

/// Sum of a sequence of counts.
pub open spec fn total(counts: Seq<int>) -> int
    decreases counts.len(),
{
    if counts.len() == 0 {
        0
    } else {
        total(counts.drop_last()) + counts.last()
    }
}

/// Sum of the squares of a sequence of counts.
pub open spec fn total_squares(counts: Seq<int>) -> int
    decreases counts.len(),
{
    if counts.len() == 0 {
        0
    } else {
        total_squares(counts.drop_last()) + counts.last() * counts.last()
    }
}

/// The variance of a sequence of counts, times the square of its length:
/// `n * sum(c^2) - sum(c)^2`. Profiles of one image have one length, so
/// their variances compare as their spreads do.
pub open spec fn spread(counts: Seq<int>) -> int {
    counts.len() * total_squares(counts) - total(counts) * total(counts)
}

/// The spread of the profile of a grayscale raster turned by `angle`.
pub open spec fn projection_spread(gray: Raster, angle: int) -> int {
    spread(profile(gray, angle))
}

/// The better of a candidate angle and the best so far, as a pair of angle
/// and spread: the candidate wins only with a strictly larger spread.
pub open spec fn better(gray: Raster, best: (int, int), angle: int) -> (int, int) {
    let candidate = projection_spread(gray, angle);
    if candidate > best.1 {
        (angle, candidate)
    } else {
        best
    }
}

/// The best of the first `tried` angles of the coarse search, which runs
/// from -5 degrees in steps of half a degree and starts from angle 0 with
/// spread 0.
pub open spec fn coarse_best(gray: Raster, tried: int) -> (int, int)
    decreases tried,
{
    if tried <= 0 {
        (0, 0)
    } else {
        better(gray, coarse_best(gray, tried - 1), -50 + 5 * (tried - 1))
    }
}

/// The best of the first `tried` angles of the fine search, which runs
/// from half a degree below `around` in steps of a tenth of a degree and
/// starts from `start`.
pub open spec fn fine_best(gray: Raster, start: (int, int), around: int, tried: int) -> (int, int)
    decreases tried,
{
    if tried <= 0 {
        start
    } else {
        better(gray, fine_best(gray, start, around, tried - 1), around - 5 + (tried - 1))
    }
}

/// Number of angles of the coarse search: -5 to 5 degrees in steps of half
/// a degree.
pub const COARSE_STEPS: u32 = 21;

/// Number of angles of the fine search: half a degree to either side in
/// steps of a tenth of a degree.
pub const FINE_STEPS: u32 = 11;

/// The skew angle of a grayscale raster in tenths of a degree: the best
/// angle of the fine search around the best angle of the coarse search.
pub open spec fn skew_angle(gray: Raster) -> int {
    let coarse = coarse_best(gray, COARSE_STEPS as int);
    fine_best(gray, coarse, coarse.0, FINE_STEPS as int).0
}

/// The coarse search stays within 5 degrees.
pub proof fn lemma_coarse_range(gray: Raster, tried: int)
    requires
        0 <= tried <= COARSE_STEPS,
    ensures
        -50 <= coarse_best(gray, tried).0 <= 50,
    decreases tried,
{
    if tried > 0 {
        lemma_coarse_range(gray, tried - 1);
    }
}

/// The fine search stays within half a degree of its centre.
pub proof fn lemma_fine_range(gray: Raster, start: (int, int), around: int, tried: int)
    requires
        0 <= tried <= FINE_STEPS,
        start.0 == around,
    ensures
        around - 5 <= fine_best(gray, start, around, tried).0 <= around + 5,
    decreases tried,
{
    if tried > 0 {
        lemma_fine_range(gray, start, around, tried - 1);
    }
}

/// The skew angle lies within `MAX_ANGLE`.
pub proof fn lemma_skew_angle_range(gray: Raster)
    ensures
        -MAX_ANGLE <= skew_angle(gray) <= MAX_ANGLE,
{
    let coarse = coarse_best(gray, COARSE_STEPS as int);
    lemma_coarse_range(gray, COARSE_STEPS as int);
    lemma_fine_range(gray, coarse, coarse.0, FINE_STEPS as int);
}

} // verus!

verus! {

/// Machine counts as mathematical integers.
pub open spec fn as_ints(counts: Seq<u64>) -> Seq<int> {
    Seq::new(counts.len(), |i: int| counts[i] as int)
}

/// Raising one count by one raises the total by one.
proof fn lemma_total_raise(before: Seq<int>, after: Seq<int>, at: int)
    requires
        0 <= at < before.len(),
        after.len() == before.len(),
        after[at] == before[at] + 1,
        forall|i: int| 0 <= i < before.len() && i != at ==> after[i] == before[i],
    ensures
        total(after) == total(before) + 1,
    decreases before.len(),
{
    let shorter_before = before.drop_last();
    let shorter_after = after.drop_last();
    if at == before.len() - 1 {
        assert(shorter_before =~= shorter_after);
    } else {
        lemma_total_raise(shorter_before, shorter_after, at);
    }
}

/// The total of counts that are all zero is zero.
proof fn lemma_total_zero(counts: Seq<int>)
    requires
        forall|i: int| 0 <= i < counts.len() ==> counts[i] == 0,
    ensures
        total(counts) == 0,
    decreases counts.len(),
{
    if counts.len() > 0 {
        lemma_total_zero(counts.drop_last());
    }
}

/// A prefix of counts that are not negative totals no more than the whole.
proof fn lemma_total_prefix(counts: Seq<int>, upto: int)
    requires
        0 <= upto <= counts.len(),
        forall|i: int| 0 <= i < counts.len() ==> counts[i] >= 0,
    ensures
        0 <= total(counts.take(upto)) <= total(counts),
    decreases counts.len(),
{
    if upto == counts.len() {
        assert(counts.take(upto) =~= counts);
        if counts.len() > 0 {
            lemma_total_prefix(counts.drop_last(), upto - 1);
            assert(counts.drop_last().take(upto - 1) =~= counts.drop_last());
        }
    } else {
        lemma_total_prefix(counts.drop_last(), upto);
        assert(counts.drop_last().take(upto) =~= counts.take(upto));
    }
}

/// The spread of the projection profile of a grayscale image of `width` by
/// `height` pixels turned by `angle` tenths of a degree. A higher spread
/// means better aligned lines of text.
pub fn compute_projection_variance(samples: &Vec<u8>, width: u32, height: u32, angle: i32) -> (r:
    i128)
    requires
        samples@.len() == width * height,
        width * height <= MAX_PIXELS,
        -MAX_ANGLE <= angle <= MAX_ANGLE,
    ensures
        r == projection_spread(
            Raster { width: width as nat, height: height as nat, channels: 1, samples: samples@ },
            angle as int,
        ),
{
    let ghost gray = Raster {
        width: width as nat,
        height: height as nat,
        channels: 1,
        samples: samples@,
    };
    let ghost w = width as int;
    let ghost h = height as int;
    let ghost a = angle as int;
    let (sin, cos) = sine_cosine(angle);
    let len = samples.len();
    let mut counts: Vec<u64> = Vec::new();
    let mut filled: u32 = 0;
    while filled < height
        invariant
            filled <= height,
            counts@.len() == filled,
            forall|i: int| 0 <= i < counts@.len() ==> counts@[i] == 0,
        decreases height - filled,
    {
        counts.push(0);
        filled += 1;
    }
    proof {
        lemma_total_zero(as_ints(counts@));
    }
    let mut y: u32 = 0;
    while y < height
        invariant
            y <= height,
            w == width,
            h == height,
            a == angle,
            gray == (Raster {
                width: width as nat,
                height: height as nat,
                channels: 1,
                samples: samples@,
            }),
            samples@.len() == w * h == len,
            w * h <= MAX_PIXELS,
            sin == sine(a),
            cos == cosine(a),
            -100_000 <= sin <= 100_000,
            990_000 <= cos <= 1_000_004,
            counts@.len() == h,
            0 <= y * w <= w * h,
            forall|row: int|
                0 <= row < h ==> #[trigger] counts@[row] == profile_count(gray, a, row, y * w),
            total(as_ints(counts@)) <= y * w,
        decreases height - y,
    {
        let mut x: u32 = 0;
        while x < width
            invariant
                x <= width,
                y < height,
                w == width,
                h == height,
                a == angle,
                gray == (Raster {
                    width: width as nat,
                    height: height as nat,
                    channels: 1,
                    samples: samples@,
                }),
                samples@.len() == w * h == len,
                w * h <= MAX_PIXELS,
                sin == sine(a),
                cos == cosine(a),
                -100_000 <= sin <= 100_000,
                990_000 <= cos <= 1_000_004,
                counts@.len() == h,
                0 <= y * w + x <= w * h,
                forall|row: int|
                    0 <= row < h ==> #[trigger] counts@[row] == profile_count(
                        gray,
                        a,
                        row,
                        y * w + x,
                    ),
                total(as_ints(counts@)) <= y * w + x,
            decreases width - x,
        {
            proof {
                lemma_index_bound(w, h, 1, x as int, y as int, 0);
                lemma_fundamental_div_mod_converse(y * w + x, w, y as int, x as int);
            }
            let at: usize = (y as usize) * (width as usize) + (x as usize);
            let up: i64 = 2 * (y as i64) - (height as i64);
            let across: i64 = 2 * (x as i64) - (width as i64);
            assert(-4_400_000_000_000_000 <= up * cos <= 4_400_000_000_000_000) by (nonlinear_arith)
                requires
                    -4_294_967_296 <= up <= 4_294_967_296,
                    0 <= cos <= 1_000_004,
            ;
            assert(-440_000_000_000_000 <= across * sin <= 440_000_000_000_000) by (nonlinear_arith)
                requires
                    -4_294_967_296 <= across <= 4_294_967_296,
                    -100_000 <= sin <= 100_000,
            ;
            let position: i64 = up * cos - across * sin + (height as i64) * SCALE;
            assert(position == turned_y(x as int, y as int, w, h, a));
            let ghost before = counts@;
            let ghost mut counted: bool = false;
            if samples[at] < DARK_BELOW && position > -2 * SCALE {
                let row: i64 = if position < 0 {
                    0
                } else {
                    position / (2 * SCALE)
                };
                assert(row == profile_row(x as int, y as int, w, h, a));
                if row < height as i64 {
                    let slot = row as usize;
                    proof {
                        lemma_total_prefix(as_ints(counts@), h);
                        assert(as_ints(counts@).take(h) =~= as_ints(counts@));
                        lemma_total_at_least(as_ints(counts@), slot as int);
                    }
                    let raised: u64 = counts[slot] + 1;
                    counts.set(slot, raised);
                    proof {
                        counted = true;
                        lemma_total_raise(as_ints(before), as_ints(counts@), slot as int);
                    }
                }
            }
            proof {
                let n = y * w + x;
                assert forall|row: int| 0 <= row < h implies #[trigger] counts@[row]
                    == profile_count(gray, a, row, n + 1) by {
                    assert(before[row] == profile_count(gray, a, row, n));
                }
                if !counted {
                    assert(counts@ =~= before);
                }
            }
            x += 1;
        }
        proof {
            assert(y * w + w == (y + 1) * w) by (nonlinear_arith);
        }
        y += 1;
    }
    proof {
        assert(y * w == w * h) by (nonlinear_arith)
            requires
                y == h,
        ;
        assert(as_ints(counts@) =~= profile(gray, a));
        lemma_total_prefix(as_ints(counts@), 0);
    }
    let ghost ints = as_ints(counts@);
    let mut sum: u128 = 0;
    let mut squares: u128 = 0;
    let mut k: usize = 0;
    while k < counts.len()
        invariant
            k <= counts@.len(),
            ints == as_ints(counts@),
            total(ints) <= MAX_PIXELS,
            sum == total(ints.take(k as int)),
            squares == total_squares(ints.take(k as int)),
            sum <= total(ints),
            squares <= sum * MAX_PIXELS,
        decreases counts@.len() - k,
    {
        let c: u128 = counts[k] as u128;
        proof {
            assert(ints.take(k + 1).drop_last() =~= ints.take(k as int));
            lemma_total_prefix(ints, k + 1);
            assert(c * c <= c * MAX_PIXELS) by (nonlinear_arith)
                requires
                    0 <= c <= MAX_PIXELS,
            ;
            assert(sum * MAX_PIXELS + c * MAX_PIXELS == (sum + c) * MAX_PIXELS) by (nonlinear_arith);
            assert((sum + c) * MAX_PIXELS <= MAX_PIXELS * MAX_PIXELS) by (nonlinear_arith)
                requires
                    sum + c <= MAX_PIXELS,
            ;
        }
        sum = sum + c;
        squares = squares + c * c;
        k += 1;
    }
    proof {
        assert(ints.take(k as int) =~= ints);
        assert(sum * MAX_PIXELS <= MAX_PIXELS * MAX_PIXELS) by (nonlinear_arith)
            requires
                sum <= MAX_PIXELS,
        ;
        assert(height * squares <= 0xffff_ffff * (MAX_PIXELS * MAX_PIXELS)) by (nonlinear_arith)
            requires
                0 <= height <= 0xffff_ffff,
                0 <= squares <= MAX_PIXELS * MAX_PIXELS,
        ;
        assert(sum * sum <= MAX_PIXELS * MAX_PIXELS) by (nonlinear_arith)
            requires
                0 <= sum <= MAX_PIXELS,
        ;
    }
    (height as i128) * (squares as i128) - (sum as i128) * (sum as i128)
}

/// No count exceeds the total of counts that are not negative.
proof fn lemma_total_at_least(counts: Seq<int>, at: int)
    requires
        0 <= at < counts.len(),
        forall|i: int| 0 <= i < counts.len() ==> counts[i] >= 0,
    ensures
        counts[at] <= total(counts),
    decreases counts.len(),
{
    lemma_total_prefix(counts.drop_last(), counts.len() - 1);
    assert(counts.drop_last().take(counts.len() - 1) =~= counts.drop_last());
    if at < counts.len() - 1 {
        lemma_total_at_least(counts.drop_last(), at);
    }
}

} // verus!

verus! {

/// Finds the skew angle of a grayscale image, in tenths of a degree.
///
/// A coarse search from -5 to 5 degrees in steps of half a degree is
/// followed by a fine search, half a degree to either side of the coarse
/// result in steps of a tenth of a degree. An angle replaces the best so
/// far only where its profile has a strictly larger spread; the search
/// starts from angle 0 with spread 0.
pub fn detect_skew_angle(samples: &Vec<u8>, width: u32, height: u32) -> (angle: i32)
    requires
        samples@.len() == width * height,
        width * height <= MAX_PIXELS,
    ensures
        angle == skew_angle(
            Raster { width: width as nat, height: height as nat, channels: 1, samples: samples@ },
        ),
        -MAX_ANGLE <= angle <= MAX_ANGLE,
{
    let ghost gray = Raster {
        width: width as nat,
        height: height as nat,
        channels: 1,
        samples: samples@,
    };
    let mut best_angle: i32 = 0;
    let mut best_spread: i128 = 0;
    let mut tried: i32 = 0;
    while tried < COARSE_STEPS as i32
        invariant
            0 <= tried <= COARSE_STEPS,
            samples@.len() == width * height,
            width * height <= MAX_PIXELS,
            gray == (Raster {
                width: width as nat,
                height: height as nat,
                channels: 1,
                samples: samples@,
            }),
            (best_angle as int, best_spread as int) == coarse_best(gray, tried as int),
            -50 <= best_angle <= 50,
        decreases COARSE_STEPS - tried,
    {
        let angle: i32 = -50 + 5 * tried;
        let found = compute_projection_variance(samples, width, height, angle);
        if found > best_spread {
            best_spread = found;
            best_angle = angle;
        }
        tried += 1;
    }
    let around: i32 = best_angle;
    let ghost start = (best_angle as int, best_spread as int);
    let mut tried: i32 = 0;
    while tried < FINE_STEPS as i32
        invariant
            0 <= tried <= FINE_STEPS,
            samples@.len() == width * height,
            width * height <= MAX_PIXELS,
            gray == (Raster {
                width: width as nat,
                height: height as nat,
                channels: 1,
                samples: samples@,
            }),
            -50 <= around <= 50,
            start == coarse_best(gray, COARSE_STEPS as int),
            around == start.0,
            (best_angle as int, best_spread as int) == fine_best(
                gray,
                start,
                around as int,
                tried as int,
            ),
            around - 5 <= best_angle <= around + 5,
        decreases FINE_STEPS - tried,
    {
        let angle: i32 = around - 5 + tried;
        let found = compute_projection_variance(samples, width, height, angle);
        if found > best_spread {
            best_spread = found;
            best_angle = angle;
        }
        tried += 1;
    }
    best_angle
}

/// A sample `weight` parts in `2 * SCALE` of the way from `near` to `far`,
/// rounded down.
pub open spec fn blend(near: u8, far: u8, weight: int) -> u8 {
    (((2 * SCALE - weight) * near + weight * far) / (2 * SCALE)) as u8
}

/// The sample at `(x, y)` of a grayscale raster rotated about its centre
/// by `angle` tenths of a degree: the bilinear interpolation of the four
/// samples around the position that the pixel is taken from, or white
/// where that position has no four samples around it.
pub open spec fn rotated_sample(gray: Raster, x: int, y: int, angle: int) -> u8 {
    let w = gray.width as int;
    let h = gray.height as int;
    let px = source_x(x, y, w, h, angle);
    let py = source_y(x, y, w, h, angle);
    let left = px / (2 * SCALE);
    let top = py / (2 * SCALE);
    if px >= 0 && py >= 0 && left + 1 < w && top + 1 < h {
        let across = px % (2 * SCALE);
        let down = py % (2 * SCALE);
        blend(
            blend(gray.samples[top * w + left], gray.samples[top * w + left + 1], across),
            blend(
                gray.samples[(top + 1) * w + left],
                gray.samples[(top + 1) * w + left + 1],
                across,
            ),
            down,
        )
    } else {
        255
    }
}

/// The first `count` samples of the rotated raster, row by row.
pub open spec fn rotated_samples(gray: Raster, angle: int, count: nat) -> Seq<u8> {
    Seq::new(
        count,
        |i: int| rotated_sample(gray, i % (gray.width as int), i / (gray.width as int), angle),
    )
}

/// A grayscale raster rotated about its centre; the size stays.
pub open spec fn rotated(gray: Raster, angle: int) -> Raster {
    Raster { samples: rotated_samples(gray, angle, gray.samples.len()), ..gray }
}

/// The deskewed version of a raster: its grayscale version, rotated by its
/// skew angle unless that angle is below a tenth of a degree.
pub open spec fn deskewed(image: Raster) -> Raster {
    let gray = grayscale_of(image);
    let angle = skew_angle(gray);
    if angle == 0 {
        gray
    } else {
        rotated(gray, angle)
    }
}

/// Computes `blend`.
pub fn blend_exec(near: u8, far: u8, weight: i64) -> (r: u8)
    requires
        0 <= weight < 2 * SCALE,
    ensures
        r == blend(near, far, weight as int),
{
    let rest: i64 = 2 * SCALE - weight;
    assert(0 <= rest * near <= 2_000_000 * 255) by (nonlinear_arith)
        requires
            0 <= rest <= 2_000_000,
            0 <= near <= 255,
    ;
    assert(0 <= weight * far <= 2_000_000 * 255) by (nonlinear_arith)
        requires
            0 <= weight <= 2_000_000,
            0 <= far <= 255,
    ;
    assert(rest * near + weight * far <= 2_000_000 * 255) by (nonlinear_arith)
        requires
            rest + weight == 2_000_000,
            0 <= rest,
            0 <= weight,
            0 <= near <= 255,
            0 <= far <= 255,
    ;
    let mixed: i64 = (rest * (near as i64) + weight * (far as i64)) / (2 * SCALE);
    mixed as u8
}

/// Rotates a grayscale image about its centre by `angle` tenths of a
/// degree, with bilinear interpolation and white where the image does not
/// reach.
pub fn rotate_about_center(samples: &Vec<u8>, width: u32, height: u32, angle: i32) -> (out: Vec<u8>)
    requires
        samples@.len() == width * height,
        -MAX_ANGLE <= angle <= MAX_ANGLE,
    ensures
        out@ == rotated_samples(
            Raster { width: width as nat, height: height as nat, channels: 1, samples: samples@ },
            angle as int,
            samples@.len(),
        ),
{
    let ghost gray = Raster {
        width: width as nat,
        height: height as nat,
        channels: 1,
        samples: samples@,
    };
    let ghost w = width as int;
    let ghost h = height as int;
    let ghost a = angle as int;
    let (sin, cos) = sine_cosine(angle);
    let len = samples.len();
    let mut out: Vec<u8> = Vec::new();
    let mut y: u32 = 0;
    while y < height
        invariant
            y <= height,
            w == width,
            h == height,
            a == angle,
            gray == (Raster {
                width: width as nat,
                height: height as nat,
                channels: 1,
                samples: samples@,
            }),
            samples@.len() == w * h == len,
            sin == sine(a),
            cos == cosine(a),
            -100_000 <= sin <= 100_000,
            990_000 <= cos <= 1_000_004,
            0 <= y * w <= w * h,
            out@ == rotated_samples(gray, a, (y * w) as nat),
        decreases height - y,
    {
        let mut x: u32 = 0;
        while x < width
            invariant
                x <= width,
                y < height,
                w == width,
                h == height,
                a == angle,
                gray == (Raster {
                    width: width as nat,
                    height: height as nat,
                    channels: 1,
                    samples: samples@,
                }),
                samples@.len() == w * h == len,
                sin == sine(a),
                cos == cosine(a),
                -100_000 <= sin <= 100_000,
                990_000 <= cos <= 1_000_004,
                0 <= y * w + x <= w * h,
                out@ == rotated_samples(gray, a, (y * w + x) as nat),
            decreases width - x,
        {
            proof {
                lemma_index_bound(w, h, 1, x as int, y as int, 0);
                lemma_fundamental_div_mod_converse(y * w + x, w, y as int, x as int);
            }
            let up: i64 = 2 * (y as i64) - (height as i64);
            let across: i64 = 2 * (x as i64) - (width as i64);
            assert(-4_400_000_000_000_000 <= up * cos <= 4_400_000_000_000_000) by (nonlinear_arith)
                requires
                    -4_294_967_296 <= up <= 4_294_967_296,
                    0 <= cos <= 1_000_004,
            ;
            assert(-4_400_000_000_000_000 <= across * cos <= 4_400_000_000_000_000)
                by (nonlinear_arith)
                requires
                    -4_294_967_296 <= across <= 4_294_967_296,
                    0 <= cos <= 1_000_004,
            ;
            assert(-440_000_000_000_000 <= across * sin <= 440_000_000_000_000) by (nonlinear_arith)
                requires
                    -4_294_967_296 <= across <= 4_294_967_296,
                    -100_000 <= sin <= 100_000,
            ;
            assert(-440_000_000_000_000 <= up * sin <= 440_000_000_000_000) by (nonlinear_arith)
                requires
                    -4_294_967_296 <= up <= 4_294_967_296,
                    -100_000 <= sin <= 100_000,
            ;
            let px: i64 = across * cos - up * sin + (width as i64) * SCALE;
            let py: i64 = across * sin + up * cos + (height as i64) * SCALE;
            assert(px == source_x(x as int, y as int, w, h, a));
            assert(py == source_y(x as int, y as int, w, h, a));
            let mut value: u8 = 255;
            if px >= 0 && py >= 0 {
                let left: i64 = px / (2 * SCALE);
                let top: i64 = py / (2 * SCALE);
                if left + 1 < width as i64 && top + 1 < height as i64 {
                    let fx: i64 = px % (2 * SCALE);
                    let fy: i64 = py % (2 * SCALE);
                    proof {
                        lemma_index_bound(w, h, 1, left as int, top as int, 0);
                        lemma_index_bound(w, h, 1, left + 1, top as int, 0);
                        lemma_index_bound(w, h, 1, left as int, top + 1, 0);
                        lemma_index_bound(w, h, 1, left + 1, top + 1, 0);
                    }
                    let upper: usize = (top as usize) * (width as usize) + (left as usize);
                    let lower: usize = ((top + 1) as usize) * (width as usize) + (left as usize);
                    let above = blend_exec(samples[upper], samples[upper + 1], fx);
                    let below = blend_exec(samples[lower], samples[lower + 1], fx);
                    value = blend_exec(above, below, fy);
                }
            }
            out.push(value);
            proof {
                assert(out@ =~= rotated_samples(gray, a, (y * w + x + 1) as nat));
            }
            x += 1;
        }
        proof {
            assert(y * w + w == (y + 1) * w) by (nonlinear_arith);
        }
        y += 1;
    }
    proof {
        assert(y * w == w * h) by (nonlinear_arith)
            requires
                y == h,
        ;
    }
    out
}

/// Straightens an image whose lines of text are tilted.
///
/// The image is first converted to grayscale. Where the skew angle found
/// is below a tenth of a degree the grayscale image is returned as it is;
/// otherwise it is rotated by that angle. Fails only on an image of more
/// than `MAX_PIXELS` pixels.
pub fn apply(image: PixelBuffer) -> (r: Result<PixelBuffer, OcrError>)
    ensures
        r is Err <==> image@.width * image@.height > MAX_PIXELS,
        r is Ok ==> r->Ok_0@ == deskewed(image@),
        r is Ok ==> r->Ok_0@.wf(),
        r is Err ==> r->Err_0@ == ErrorModel::PreprocessingError("deskew: image too large"@),
{
    let gray = to_luma8(&image);
    let width = gray.width();
    let height = gray.height();
    proof {
        lemma_mul_upper_bound(width as int, u32::MAX as int, height as int, u32::MAX as int);
    }
    if (width as u64) * (height as u64) > MAX_PIXELS {
        return Err(OcrError::preprocessing("deskew: image too large"));
    }
    let angle = detect_skew_angle(gray.samples(), width, height);
    if angle == 0 {
        return Ok(gray);
    }
    let out = rotate_about_center(gray.samples(), width, height, angle);
    Ok(PixelBuffer::from_parts(width, height, 1, out))
}

} // verus!

verus! {

/// Without dark pixels no row of the profile counts anything.
pub proof fn lemma_profile_of_bright(gray: Raster, angle: int, row: int, upto: int)
    requires
        0 <= upto <= gray.samples.len(),
        forall|i: int| 0 <= i < gray.samples.len() ==> gray.samples[i] >= DARK_BELOW,
    ensures
        profile_count(gray, angle, row, upto) == 0,
    decreases upto,
{
    if upto > 0 {
        lemma_profile_of_bright(gray, angle, row, upto - 1);
    }
}

/// Counts that are all zero have no squares to sum.
proof fn lemma_total_squares_zero(counts: Seq<int>)
    requires
        forall|i: int| 0 <= i < counts.len() ==> counts[i] == 0,
    ensures
        total_squares(counts) == 0,
    decreases counts.len(),
{
    if counts.len() > 0 {
        lemma_total_squares_zero(counts.drop_last());
    }
}

/// An image without dark pixels has the skew angle 0.
pub proof fn lemma_bright_image_is_straight(gray: Raster)
    requires
        forall|i: int| 0 <= i < gray.samples.len() ==> gray.samples[i] >= DARK_BELOW,
    ensures
        skew_angle(gray) == 0,
{
    assert forall|angle: int| projection_spread(gray, angle) == 0 by {
        let counts = profile(gray, angle);
        assert forall|row: int| 0 <= row < counts.len() implies counts[row] == 0 by {
            lemma_profile_of_bright(gray, angle, row, gray.samples.len() as int);
        }
        lemma_total_zero(counts);
        lemma_total_squares_zero(counts);
        assert(counts.len() * 0 == 0);
    }
    lemma_search_without_spread(gray, COARSE_STEPS as int, FINE_STEPS as int);
}

/// Where no angle has a spread above 0 the search stays at its start.
proof fn lemma_search_without_spread(gray: Raster, coarse: int, fine: int)
    requires
        forall|angle: int| projection_spread(gray, angle) == 0,
        0 <= coarse,
        0 <= fine,
    ensures
        coarse_best(gray, coarse) == (0int, 0int),
        fine_best(gray, (0int, 0int), 0, fine) == (0int, 0int),
    decreases coarse + fine,
{
    if coarse > 0 {
        lemma_search_without_spread(gray, coarse - 1, fine);
    } else if fine > 0 {
        lemma_search_without_spread(gray, coarse, fine - 1);
    }
    if fine > 0 && coarse > 0 {
        lemma_search_without_spread(gray, 0, fine);
    }
}

} // verus!
