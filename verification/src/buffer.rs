//! In-memory raster images.

use vstd::arithmetic::mul::lemma_mul_upper_bound;
use vstd::prelude::*;
use vstd::string::StringExecFns;

verus! {

/// Mathematical model of a raster image: its dimensions, the number of
/// channels per pixel and the row-major samples.
pub struct Raster {
    pub width: nat,
    pub height: nat,
    pub channels: nat,
    pub samples: Seq<u8>,
}

impl Raster {
    /// A raster is well formed when it is grayscale or RGB and holds exactly
    /// one sample per channel of every pixel.
    pub open spec fn wf(self) -> bool {
        &&& self.channels == 1 || self.channels == 3
        &&& self.width <= u32::MAX
        &&& self.height <= u32::MAX
        &&& self.samples.len() == self.width * self.height * self.channels
    }

    /// Position of channel `c` of pixel `(x, y)` in the sample array.
    pub open spec fn offset(self, x: int, y: int, c: int) -> int {
        (y * self.width + x) * self.channels + c
    }

    /// The sample of channel `c` at pixel `(x, y)`.
    pub open spec fn sample(self, x: int, y: int, c: int) -> u8
        recommends
            0 <= x < self.width,
            0 <= y < self.height,
            0 <= c < self.channels,
    {
        self.samples[self.offset(x, y, c)]
    }
}

/// A pixel's sample index lies inside an array of `w * h * k` samples.
pub proof fn lemma_index_bound(w: int, h: int, k: int, x: int, y: int, c: int)
    requires
        0 <= x < w,
        0 <= y < h,
        0 <= c < k,
    ensures
        0 <= y * w <= y * w + x < w * h,
        0 <= (y * w + x) * k <= (y * w + x) * k + c < w * h * k,
{
    assert(0 <= y * w) by (nonlinear_arith)
        requires 0 <= y, 0 <= w;
    assert(y * w + x < w * h) by (nonlinear_arith)
        requires 0 <= y <= h - 1, 0 <= x <= w - 1;
    assert(0 <= (y * w + x) * k) by (nonlinear_arith)
        requires 0 <= y * w + x, 0 <= k;
    assert((y * w + x) * k + c < w * h * k) by (nonlinear_arith)
        requires 0 <= y * w + x <= w * h - 1, 0 <= c < k;
}

/// `offset` stays inside the sample array of a well-formed raster.
pub proof fn lemma_offset_in_bounds(r: Raster, x: int, y: int, c: int)
    requires
        r.wf(),
        0 <= x < r.width,
        0 <= y < r.height,
        0 <= c < r.channels,
    ensures
        0 <= r.offset(x, y, c) < r.samples.len(),
{
    lemma_index_bound(r.width as int, r.height as int, r.channels as int, x, y, c);
}

/// Computes `offset` in machine integers.
pub(crate) fn index_of(width: u32, height: u32, channels: u8, x: u32, y: u32, c: u8) -> (at: usize)
    requires
        x < width,
        y < height,
        c < channels,
        width * height * channels <= usize::MAX,
    ensures
        at == (y * width + x) * channels + c,
        at < width * height * channels,
{
    proof {
        lemma_index_bound(width as int, height as int, channels as int, x as int, y as int, c as int);
        assert(y * width + x <= (y * width + x) * channels) by (nonlinear_arith)
            requires 0 <= y * width + x, 1 <= channels;
    }
    let row: usize = (y as usize) * (width as usize) + (x as usize);
    row * (channels as usize) + (c as usize)
}

/// An 8-bit raster image, grayscale (one channel) or RGB (three channels).
///
/// Every value of this type is well formed: the sample array holds exactly
/// `width * height * channels` bytes.
#[derive(Debug, PartialEq, Eq)]
pub struct PixelBuffer {
    pub(crate) width: u32,
    pub(crate) height: u32,
    pub(crate) channels: u8,
    pub(crate) samples: Vec<u8>,
}

impl View for PixelBuffer {
    type V = Raster;

    closed spec fn view(&self) -> Raster {
        Raster {
            width: self.width as nat,
            height: self.height as nat,
            channels: self.channels as nat,
            samples: self.samples@,
        }
    }
}

impl Clone for PixelBuffer {
    fn clone(&self) -> (r: Self)
        ensures
            r@ == self@,
    {
        proof {
            use_type_invariant(self);
        }
        let samples = self.samples.clone();
        assert(samples@ =~= self.samples@);
        PixelBuffer { width: self.width, height: self.height, channels: self.channels, samples }
    }
}

impl PixelBuffer {
    #[verifier::type_invariant]
    closed spec fn inv(&self) -> bool {
        self@.wf()
    }

    /// Builds a buffer from its parts, or `None` when the parts do not form
    /// a well-formed raster.
    pub fn new(width: u32, height: u32, channels: u8, samples: Vec<u8>) -> (r: Option<PixelBuffer>)
        ensures
            r is Some <==> (Raster {
                width: width as nat,
                height: height as nat,
                channels: channels as nat,
                samples: samples@,
            }).wf(),
            r is Some ==> r->0@ == (Raster {
                width: width as nat,
                height: height as nat,
                channels: channels as nat,
                samples: samples@,
            }),
    {
        if channels != 1 && channels != 3 {
            return None;
        }
        proof {
            lemma_mul_upper_bound(width as int, u32::MAX as int, height as int, u32::MAX as int);
        }
        let area: u64 = (width as u64) * (height as u64);
        proof {
            lemma_mul_upper_bound(area as int, u64::MAX as int, channels as int, u8::MAX as int);
        }
        let need: u128 = (area as u128) * (channels as u128);
        if samples.len() as u128 != need {
            return None;
        }
        Some(PixelBuffer { width, height, channels, samples })
    }

    /// Builds a buffer from parts already known to be well formed.
    pub(crate) fn from_parts(width: u32, height: u32, channels: u8, samples: Vec<u8>) -> (r:
        PixelBuffer)
        requires
            channels == 1 || channels == 3,
            samples@.len() == width * height * channels,
        ensures
            r@ == (Raster {
                width: width as nat,
                height: height as nat,
                channels: channels as nat,
                samples: samples@,
            }),
            r@.wf(),
    {
        PixelBuffer { width, height, channels, samples }
    }

    /// Does nothing but state that the buffer is well formed, as every
    /// buffer is.
    pub fn well_formed(&self)
        ensures
            self@.wf(),
    {
        proof {
            use_type_invariant(self);
        }
    }

    /// Width in pixels.
    pub fn width(&self) -> (w: u32)
        ensures
            w == self@.width,
            self@.wf(),
    {
        proof {
            use_type_invariant(self);
        }
        self.width
    }

    /// Height in pixels.
    pub fn height(&self) -> (h: u32)
        ensures
            h == self@.height,
            self@.wf(),
    {
        proof {
            use_type_invariant(self);
        }
        self.height
    }

    /// Samples per pixel: 1 for grayscale, 3 for RGB.
    pub fn channels(&self) -> (c: u8)
        ensures
            c == self@.channels,
            self@.wf(),
    {
        proof {
            use_type_invariant(self);
        }
        self.channels
    }

    /// The row-major sample array.
    pub fn samples(&self) -> (s: &Vec<u8>)
        ensures
            s@ == self@.samples,
            self@.wf(),
    {
        proof {
            use_type_invariant(self);
        }
        &self.samples
    }

    /// Takes the sample array out of the buffer.
    pub fn into_samples(self) -> (s: Vec<u8>)
        ensures
            s@ == self@.samples,
            self@.wf(),
    {
        proof {
            use_type_invariant(&self);
        }
        self.samples
    }

    /// The sample of channel `c` at pixel `(x, y)`, or `None` outside the image.
    pub fn get(&self, x: u32, y: u32, c: u8) -> (r: Option<u8>)
        ensures
            r is Some <==> (x < self@.width && y < self@.height && c < self@.channels),
            r is Some ==> r->0 == self@.sample(x as int, y as int, c as int),
    {
        proof {
            use_type_invariant(self);
        }
        if x < self.width && y < self.height && c < self.channels {
            proof {
                lemma_offset_in_bounds(self@, x as int, y as int, c as int);
            }
            let len = self.samples.len();
            assert(len == self.width * self.height * self.channels);
            let at: usize = index_of(self.width, self.height, self.channels, x, y, c);
            Some(self.samples[at])
        } else {
            None
        }
    }
}

} // verus!

verus! {

#[verifier::external_type_specification]
#[verifier::external_body]
pub struct ExImageError(image::ImageError);

#[verifier::external_type_specification]
#[verifier::external_body]
pub struct ExDynamicImage(image::DynamicImage);

/// Whether `image` is an image that the codec makes of the bytes.
pub uninterp spec fn is_decoding_of(image: image::DynamicImage, bytes: Seq<u8>) -> bool;

/// Width, height and container of an image as RGB with eight bits for
/// each sample.
pub uninterp spec fn rgb_of(image: image::DynamicImage) -> (nat, nat, Seq<u8>);

/// Whether the codec accepts the bytes as an image in one of the raster
/// formats that it knows.
pub open spec fn decodes_as_image(bytes: Seq<u8>) -> bool {
    exists|image: image::DynamicImage| is_decoding_of(image, bytes)
}

/// `image::load_from_memory`: decodes an image in one of the raster
/// formats that the codec knows. Whether it succeeds depends on the bytes
/// alone. The samples that a decoder gives may depend on the machine, so
/// the image is not named by the bytes: `is_decoding_of` says of an image
/// only that the codec made it of these bytes.
#[verifier::external_body]
fn load_image(bytes: &[u8]) -> (r: Result<image::DynamicImage, image::ImageError>)
    ensures
        r is Ok ==> is_decoding_of(r->Ok_0, bytes@),
        r is Err ==> !decodes_as_image(bytes@),
{
    image::load_from_memory(bytes)
}

/// `image::DynamicImage::into_rgb8`: the image as RGB with eight bits for
/// each sample, handed out as width, height and samples; `rgb_of` names
/// the three. There are at least three samples for each pixel; the
/// container of an image may hold more than its pixels need.
#[verifier::external_body]
fn into_rgb8(decoded: image::DynamicImage) -> (r: (u32, u32, Vec<u8>))
    ensures
        (r.0 as nat, r.1 as nat, r.2@) == rgb_of(decoded),
        r.2@.len() >= r.0 * r.1 * 3,
{
    let rgb = decoded.into_rgb8();
    (rgb.width(), rgb.height(), rgb.into_raw())
}

/// The raster of an image as RGB: its width and height, and of its
/// container the three samples for each pixel.
pub open spec fn rgb_raster(image: image::DynamicImage) -> Raster {
    let parts = rgb_of(image);
    Raster {
        width: parts.0,
        height: parts.1,
        channels: 3,
        samples: parts.2.take((parts.0 * parts.1 * 3) as int),
    }
}

/// Whether a raster is that of an image that the codec makes of the
/// bytes.
pub open spec fn decoded_from(bytes: Seq<u8>, raster: Raster) -> bool {
    exists|image: image::DynamicImage| is_decoding_of(image, bytes) && raster == #[trigger] rgb_raster(
        image,
    )
}

/// The `Display` text of an `image::ImageError`. Nothing is claimed of it.
#[verifier::external_body]
fn image_error_text(error: &image::ImageError) -> String {
    format!("{}", error)
}

/// The error for an image that the codec cannot decode, which gives
/// `detail` as its reason.
pub open spec fn load_failure(detail: Seq<char>) -> crate::error::ErrorModel {
    crate::error::ErrorModel::PreprocessingError("Failed to load image: "@ + detail)
}

impl PixelBuffer {
    /// Decodes an encoded raster image (PNG, JPEG, GIF, BMP, WebP or TIFF)
    /// to an RGB buffer. Fails with a preprocessing error where the codec
    /// cannot decode the bytes.
    pub fn decode(bytes: &[u8]) -> (r: Result<PixelBuffer, crate::error::OcrError>)
        ensures
            r is Ok <==> decodes_as_image(bytes@),
            r is Ok ==> decoded_from(bytes@, r->Ok_0@),
            r is Ok ==> r->Ok_0@.wf() && r->Ok_0@.channels == 3,
            r is Err ==> exists|detail: Seq<char>| #[trigger]
                load_failure(detail) == r->Err_0@,
    {
        match load_image(bytes) {
            Ok(decoded) => {
                let ghost image = decoded;
                let (width, height, samples) = into_rgb8(decoded);
                let ghost container = samples@;
                let mut samples = samples;
                proof {
                    lemma_mul_upper_bound(
                        width as int,
                        u32::MAX as int,
                        height as int,
                        u32::MAX as int,
                    );
                }
                let pixels: u64 = (width as u64) * (height as u64);
                let needed: u128 = (pixels as u128) * 3;
                if samples.len() as u128 > needed {
                    samples.truncate(needed as usize);
                }
                proof {
                    assert(samples@ =~= container.take(width * height * 3));
                    assert(is_decoding_of(image, bytes@));
                }
                let buffer = PixelBuffer::from_parts(width, height, 3, samples);
                proof {
                    assert(buffer@ == rgb_raster(image));
                }
                Ok(buffer)
            },
            Err(error) => {
                let detail = image_error_text(&error);
                let mut message = String::from_str("Failed to load image: ");
                message.append(detail.as_str());
                assert(load_failure(detail@) == crate::error::ErrorModel::PreprocessingError(
                    message@,
                ));
                Err(crate::error::OcrError::PreprocessingError(message))
            },
        }
    }
}

} // verus!

verus! {

/// The RGB samples of a raster: its own where it has three channels, else
/// each sample three times.
pub open spec fn rgb_samples(image: Raster) -> Seq<u8> {
    if image.channels == 3 {
        image.samples
    } else {
        Seq::new(3 * image.samples.len(), |i: int| image.samples[i / 3])
    }
}

impl PixelBuffer {
    /// The image as RGB samples, three for each pixel.
    pub fn to_rgb8(&self) -> (rgb: Vec<u8>)
        ensures
            rgb@ == rgb_samples(self@),
            rgb@.len() == self@.width * self@.height * 3,
    {
        proof {
            use_type_invariant(self);
        }
        if self.channels == 3 {
            return self.samples.clone();
        }
        let mut rgb: Vec<u8> = Vec::new();
        let mut i: usize = 0;
        while i < self.samples.len()
            invariant
                i <= self.samples@.len(),
                rgb@ == Seq::new(3 * i as nat, |j: int| self.samples@[j / 3]),
            decreases self.samples@.len() - i,
        {
            let value = self.samples[i];
            rgb.push(value);
            rgb.push(value);
            rgb.push(value);
            proof {
                assert(rgb@ =~= Seq::new(3 * (i + 1) as nat, |j: int| self.samples@[j / 3]));
            }
            i += 1;
        }
        rgb
    }
}

} // verus!
