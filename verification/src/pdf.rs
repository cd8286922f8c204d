//! Extraction of embedded raster images from PDF documents.

use crate::buffer::{PixelBuffer, Raster};
use crate::error::{ErrorModel, OcrError};
use crate::text::{decimal, decimal_digits, same_text, signed_decimal, signed_digits};
use vstd::arithmetic::mul::lemma_mul_upper_bound;
use vstd::prelude::*;
use vstd::string::StringExecFns;

verus! {

/// The colour encoding of an embedded image.
#[derive(Debug, Clone, PartialEq, Eq)]
pub enum PdfColorSpace {
    /// One byte per pixel.
    DeviceGray,
    /// Three bytes per pixel.
    DeviceRGB,
    /// Four bytes per pixel.
    DeviceCMYK,
    /// A colour profile with the given number of components.
    ICCBased(i64),
    /// Any other colour space, by name.
    Unknown(String),
}

/// Number of components that a profile-based colour space is taken to have
/// when its profile does not say.
pub const DEFAULT_ICC_COMPONENTS: i64 = 3;

/// Bits per component assumed for an image that does not state them.
pub const DEFAULT_BITS_PER_COMPONENT: i64 = 8;

/// The colour space that a name and an optional component count stand for.
pub open spec fn color_space_of(name: Seq<char>, components: Option<i64>) -> PdfColorSpaceModel {
    if name == "DeviceGray"@ {
        PdfColorSpaceModel::DeviceGray
    } else if name == "DeviceRGB"@ {
        PdfColorSpaceModel::DeviceRGB
    } else if name == "DeviceCMYK"@ {
        PdfColorSpaceModel::DeviceCMYK
    } else if name == "ICCBased"@ {
        PdfColorSpaceModel::ICCBased(
            match components {
                Some(n) => n,
                None => DEFAULT_ICC_COMPONENTS,
            },
        )
    } else {
        PdfColorSpaceModel::Unknown(name)
    }
}

/// Mathematical model of a `PdfColorSpace`.
pub enum PdfColorSpaceModel {
    DeviceGray,
    DeviceRGB,
    DeviceCMYK,
    ICCBased(i64),
    Unknown(Seq<char>),
}

impl View for PdfColorSpace {
    type V = PdfColorSpaceModel;

    open spec fn view(&self) -> PdfColorSpaceModel {
        match self {
            PdfColorSpace::DeviceGray => PdfColorSpaceModel::DeviceGray,
            PdfColorSpace::DeviceRGB => PdfColorSpaceModel::DeviceRGB,
            PdfColorSpace::DeviceCMYK => PdfColorSpaceModel::DeviceCMYK,
            PdfColorSpace::ICCBased(n) => PdfColorSpaceModel::ICCBased(*n),
            PdfColorSpace::Unknown(name) => PdfColorSpaceModel::Unknown(name@),
        }
    }
}

impl PdfColorSpaceModel {
    /// Bytes that one pixel occupies in the decompressed stream, for the
    /// colour spaces that can be decoded.
    pub open spec fn bytes_per_pixel(self) -> Option<nat> {
        match self {
            PdfColorSpaceModel::DeviceGray => Some(1),
            PdfColorSpaceModel::DeviceRGB => Some(3),
            PdfColorSpaceModel::DeviceCMYK => Some(4),
            PdfColorSpaceModel::ICCBased(n) => if n == 3 {
                Some(3)
            } else {
                None
            },
            PdfColorSpaceModel::Unknown(_) => None,
        }
    }
}

/// Interprets a colour space name, with the component count of its profile
/// where one was found.
pub fn classify_color_space(name: &str, components: Option<i64>) -> (r: PdfColorSpace)
    ensures
        r@ == color_space_of(name@, components),
{
    if same_text(name, "DeviceGray") {
        PdfColorSpace::DeviceGray
    } else if same_text(name, "DeviceRGB") {
        PdfColorSpace::DeviceRGB
    } else if same_text(name, "DeviceCMYK") {
        PdfColorSpace::DeviceCMYK
    } else if same_text(name, "ICCBased") {
        match components {
            Some(n) => PdfColorSpace::ICCBased(n),
            None => PdfColorSpace::ICCBased(DEFAULT_ICC_COMPONENTS),
        }
    } else {
        PdfColorSpace::Unknown(String::from_str(name))
    }
}

/// One colour component after removing ink `ink` and black `black`:
/// `(1 - ink/255) * (1 - black/255) * 255`, rounded down.
pub open spec fn remove_ink(ink: u8, black: u8) -> u8 {
    (((255 - ink) * (255 - black)) / 255) as u8
}

/// The RGB samples of `pixels` CMYK pixels.
pub open spec fn cmyk_to_rgb(data: Seq<u8>, pixels: nat) -> Seq<u8> {
    Seq::new(3 * pixels, |i: int| remove_ink(data[4 * (i / 3) + i % 3], data[4 * (i / 3) + 3]))
}

/// Computes `remove_ink`.
pub fn remove_ink_exec(ink: u8, black: u8) -> (r: u8)
    ensures
        r == remove_ink(ink, black),
{
    let a: u32 = 255 - ink as u32;
    let b: u32 = 255 - black as u32;
    assert(a * b <= 255 * 255) by (nonlinear_arith)
        requires
            a <= 255,
            b <= 255,
    ;
    let v: u32 = (a * b) / 255;
    v as u8
}

} // verus!

verus! {

/// The bits per component of an image: what its dictionary states, else eight.
pub open spec fn bits_or_default(bits: Option<i64>) -> i64 {
    match bits {
        Some(b) => b,
        None => DEFAULT_BITS_PER_COMPONENT,
    }
}

/// The bytes of a vector that may be absent.
pub open spec fn bytes_of(content: Option<Vec<u8>>) -> Option<Seq<u8>> {
    match content {
        Some(data) => Some(data@),
        None => None,
    }
}

/// Whether both dimensions are stated and fit an image.
pub open spec fn dimensions_usable(width: Option<i64>, height: Option<i64>) -> bool {
    &&& width is Some
    &&& height is Some
    &&& 0 <= width->0 <= u32::MAX
    &&& 0 <= height->0 <= u32::MAX
}

/// When an embedded image can be decoded: its dimensions are stated and
/// fit, its content could be decompressed, its colour space is one of the
/// handled ones, its components have eight bits and the content holds
/// enough bytes for every pixel.
pub open spec fn decodable(
    width: Option<i64>,
    height: Option<i64>,
    content: Option<Seq<u8>>,
    color_space: PdfColorSpaceModel,
    bits: Option<i64>,
) -> bool {
    &&& dimensions_usable(width, height)
    &&& content is Some
    &&& color_space.bytes_per_pixel() is Some
    &&& bits_or_default(bits) == 8
    &&& content->0.len() >= width->0 * height->0 * color_space.bytes_per_pixel()->0
}

/// The image that a decodable stream holds: grayscale for `DeviceGray`, RGB
/// otherwise, with CMYK converted pixel by pixel.
pub open spec fn decoded(
    width: i64,
    height: i64,
    content: Seq<u8>,
    color_space: PdfColorSpaceModel,
) -> Raster {
    let pixels = (width * height) as nat;
    match color_space {
        PdfColorSpaceModel::DeviceGray => Raster {
            width: width as nat,
            height: height as nat,
            channels: 1,
            samples: content.take(pixels as int),
        },
        PdfColorSpaceModel::DeviceCMYK => Raster {
            width: width as nat,
            height: height as nat,
            channels: 3,
            samples: cmyk_to_rgb(content, pixels),
        },
        _ => Raster {
            width: width as nat,
            height: height as nat,
            channels: 3,
            samples: content.take(3 * pixels as int),
        },
    }
}

/// The name under which a colour space that cannot be decoded is
/// reported.
pub open spec fn space_name(color_space: PdfColorSpaceModel) -> Seq<char> {
    match color_space {
        PdfColorSpaceModel::DeviceGray => "DeviceGray"@,
        PdfColorSpaceModel::DeviceRGB => "DeviceRGB"@,
        PdfColorSpaceModel::DeviceCMYK => "DeviceCMYK"@,
        PdfColorSpaceModel::ICCBased(_) => "ICCBased"@,
        PdfColorSpaceModel::Unknown(name) => name,
    }
}

/// The kind of format that a number of bytes for each pixel stands for.
pub open spec fn format_name(per_pixel: nat) -> Seq<char> {
    if per_pixel == 1 {
        "Unsupported grayscale format: "@
    } else if per_pixel == 3 {
        "Unsupported RGB format: "@
    } else {
        "Unsupported CMYK format: "@
    }
}

/// What is reported of an image whose format cannot be decoded: its bits
/// for each component, the length of its content, and its width and
/// height.
pub open spec fn format_details(width: i64, height: i64, length: nat, bits: i64) -> Seq<char> {
    signed_digits(bits as int) + " bits, data_len="@ + decimal_digits(length) + ", width="@
        + signed_digits(width as int) + ", height="@ + signed_digits(height as int)
}

/// The message of the error with which an undecodable image is skipped.
pub open spec fn decode_failure(
    width: Option<i64>,
    height: Option<i64>,
    content: Option<Seq<u8>>,
    color_space: PdfColorSpaceModel,
    bits: Option<i64>,
    cause: Seq<char>,
) -> Seq<char> {
    if width is None {
        "Missing image width"@
    } else if height is None {
        "Missing image height"@
    } else if content is None {
        "Failed to decompress image: "@ + cause
    } else {
        match color_space.bytes_per_pixel() {
            None => "Unsupported color space: "@ + space_name(color_space),
            Some(n) => format_name(n) + format_details(
                width->0,
                height->0,
                content->0.len(),
                bits_or_default(bits),
            ),
        }
    }
}

/// The error for a colour space that cannot be decoded.
fn unsupported_space(color_space: &PdfColorSpace) -> (e: OcrError)
    requires
        color_space@.bytes_per_pixel() is None,
    ensures
        e@ == ErrorModel::ProcessingError("Unsupported color space: "@ + space_name(color_space@)),
{
    let mut message = String::from_str("Unsupported color space: ");
    match color_space {
        PdfColorSpace::Unknown(name) => message.append(name.as_str()),
        _ => message.append("ICCBased"),
    }
    OcrError::ProcessingError(message)
}

/// The error for a format that cannot be decoded.
fn unsupported_format(per_pixel: u8, width: i64, height: i64, length: usize, bits: i64) -> (e:
    OcrError)
    ensures
        e@ == ErrorModel::ProcessingError(
            format_name(per_pixel as nat) + format_details(width, height, length as nat, bits),
        ),
{
    let mut message = String::from_str(
        if per_pixel == 1 {
            "Unsupported grayscale format: "
        } else if per_pixel == 3 {
            "Unsupported RGB format: "
        } else {
            "Unsupported CMYK format: "
        },
    );
    let ghost head = message@;
    message.append(signed_decimal(bits).as_str());
    message.append(" bits, data_len=");
    message.append(decimal(length).as_str());
    message.append(", width=");
    message.append(signed_decimal(width).as_str());
    message.append(", height=");
    message.append(signed_decimal(height).as_str());
    proof {
        assert(message@ =~= head + format_details(width, height, length as nat, bits));
    }
    OcrError::ProcessingError(message)
}

/// Converts `pixels` CMYK pixels to RGB samples.
fn convert_cmyk(data: &Vec<u8>, pixels: usize) -> (out: Vec<u8>)
    requires
        4 * pixels <= data@.len(),
    ensures
        out@ == cmyk_to_rgb(data@, pixels as nat),
{
    let mut out: Vec<u8> = Vec::new();
    let len = data.len();
    let mut i: usize = 0;
    while i < pixels
        invariant
            i <= pixels,
            4 * pixels <= data@.len() == len,
            out@ == cmyk_to_rgb(data@, i as nat),
        decreases pixels - i,
    {
        let black = data[4 * i + 3];
        out.push(remove_ink_exec(data[4 * i], black));
        out.push(remove_ink_exec(data[4 * i + 1], black));
        out.push(remove_ink_exec(data[4 * i + 2], black));
        proof {
            assert(out@ =~= cmyk_to_rgb(data@, (i + 1) as nat));
        }
        i += 1;
    }
    out
}

/// Decodes one embedded image from what its stream states.
///
/// Succeeds exactly on decodable streams, and then yields the decoded
/// raster; every other stream gives a processing error that says why the
/// image is skipped.
pub fn decode_image(
    width: Option<i64>,
    height: Option<i64>,
    content: Option<Vec<u8>>,
    color_space: &PdfColorSpace,
    bits_per_component: Option<i64>,
    cause: &str,
) -> (r: Result<PixelBuffer, OcrError>)
    ensures
        r is Ok <==> decodable(width, height, bytes_of(content), color_space@, bits_per_component),
        r is Ok ==> r->Ok_0@ == decoded(width->0, height->0, content->0@, color_space@),
        r is Err ==> r->Err_0@ == ErrorModel::ProcessingError(
            decode_failure(
                width,
                height,
                bytes_of(content),
                color_space@,
                bits_per_component,
                cause@,
            ),
        ),
{
    let w = match width {
        Some(w) => w,
        None => { return Err(OcrError::processing("Missing image width")); },
    };
    let h = match height {
        Some(h) => h,
        None => { return Err(OcrError::processing("Missing image height")); },
    };
    let mut data = match content {
        Some(data) => data,
        None => {
            let mut message = String::from_str("Failed to decompress image: ");
            message.append(cause);
            return Err(OcrError::ProcessingError(message));
        },
    };
    let per_pixel: u8 = match color_space {
        PdfColorSpace::DeviceGray => 1,
        PdfColorSpace::DeviceRGB => 3,
        PdfColorSpace::DeviceCMYK => 4,
        PdfColorSpace::ICCBased(n) => {
            if *n == 3 {
                3
            } else {
                return Err(unsupported_space(color_space));
            }
        },
        PdfColorSpace::Unknown(_) => {
            return Err(unsupported_space(color_space));
        },
    };
    let bits = match bits_per_component {
        Some(b) => b,
        None => DEFAULT_BITS_PER_COMPONENT,
    };
    let mut usable = bits == 8 && 0 <= w && w <= u32::MAX as i64 && 0 <= h && h <= u32::MAX as i64;
    let mut need: u128 = 0;
    if usable {
        proof {
            lemma_mul_upper_bound(w as int, u32::MAX as int, h as int, u32::MAX as int);
        }
        let pixels: u64 = (w as u64) * (h as u64);
        proof {
            lemma_mul_upper_bound(pixels as int, u64::MAX as int, per_pixel as int, 4);
        }
        need = (pixels as u128) * (per_pixel as u128);
        usable = data.len() as u128 >= need;
    }
    if !usable {
        return Err(unsupported_format(per_pixel, w, h, data.len(), bits));
    }
    let pixels: usize = ((w as u64) * (h as u64)) as usize;
    if per_pixel == 4 {
        let rgb = convert_cmyk(&data, pixels);
        Ok(PixelBuffer::from_parts(w as u32, h as u32, 3, rgb))
    } else {
        data.truncate(need as usize);
        Ok(PixelBuffer::from_parts(w as u32, h as u32, per_pixel, data))
    }
}

} // verus!

verus! {

#[verifier::external_type_specification]
#[verifier::external_body]
pub struct ExDocument(lopdf::Document);

#[verifier::external_type_specification]
#[verifier::external_body]
pub struct ExObject(lopdf::Object);

#[verifier::external_type_specification]
#[verifier::external_body]
pub struct ExStream(lopdf::Stream);

#[verifier::external_type_specification]
#[verifier::external_body]
pub struct ExPdfError(lopdf::Error);

/// Whether `document` is a document that `lopdf` makes of the bytes.
pub uninterp spec fn is_parse_of(document: lopdf::Document, bytes: Seq<u8>) -> bool;

/// The objects of a document, in the order of their ids.
pub uninterp spec fn objects_of(document: lopdf::Document) -> Seq<lopdf::Object>;

/// The stream that an object is, if it is one.
pub uninterp spec fn stream_of(object: lopdf::Object) -> Option<lopdf::Stream>;

/// What stands under a key in the dictionary of a stream.
pub uninterp spec fn entry_of(stream: lopdf::Stream, key: Seq<char>) -> Option<lopdf::Object>;

/// The bytes of the name that an object is, if it is one.
pub uninterp spec fn name_of(object: lopdf::Object) -> Option<Seq<u8>>;

/// The integer that an object is, if it is one.
pub uninterp spec fn integer_of(object: lopdf::Object) -> Option<i64>;

/// The number and the generation that an object refers to, if it is a
/// reference.
pub uninterp spec fn reference_of(object: lopdf::Object) -> Option<(u32, u16)>;

/// The elements of the array that an object is, if it is one.
pub uninterp spec fn array_of(object: lopdf::Object) -> Option<Seq<lopdf::Object>>;

/// The object of a document that a number and a generation lead to, with
/// references followed.
pub uninterp spec fn resolved(document: lopdf::Document, id: (u32, u16)) -> Option<lopdf::Object>;

/// The content of a stream with its filters undone, or the error of the
/// filter that fails.
pub uninterp spec fn content_of(stream: lopdf::Stream) -> Result<Seq<u8>, lopdf::Error>;

/// The text that an error shows.
pub uninterp spec fn error_text(error: lopdf::Error) -> Seq<char>;

/// The text that `String::from_utf8_lossy` makes of bytes.
pub uninterp spec fn lossy_text(bytes: Seq<u8>) -> Seq<char>;

/// Whether `lopdf` accepts the bytes as a PDF document.
pub open spec fn parses_as_pdf(bytes: Seq<u8>) -> bool {
    exists|document: lopdf::Document| is_parse_of(document, bytes)
}

/// Whether what was found is what is named: the same value, or nothing.
pub open spec fn found<T>(borrowed: Option<&T>, named: Option<T>) -> bool {
    match borrowed {
        Some(value) => named == Some(*value),
        None => named is None,
    }
}

/// `lopdf::Document::load_mem`: parses a document held in memory.
/// Whether the parser accepts depends on the bytes alone. The document
/// that it makes of an odd file may depend on the order in which threads
/// finish, so the document is not named by the bytes: `is_parse_of` says
/// of a document only that the parser made it of these bytes.
#[verifier::external_body]
fn load_document(bytes: &[u8]) -> (r: Result<lopdf::Document, lopdf::Error>)
    ensures
        r is Ok ==> is_parse_of(r->Ok_0, bytes@),
        r is Err ==> !parses_as_pdf(bytes@),
{
    lopdf::Document::load_mem(bytes)
}

/// The `Display` text of a `lopdf::Error`. `error_text` names it.
#[verifier::external_body]
fn pdf_error_text(error: &lopdf::Error) -> (text: String)
    ensures
        text@ == error_text(*error),
{
    format!("{}", error)
}

/// The objects of a document in the order of `lopdf::Document::objects`,
/// a map sorted by object id. `objects_of` names them.
#[verifier::external_body]
fn document_objects<'a>(document: &'a lopdf::Document) -> (objects: Vec<&'a lopdf::Object>)
    ensures
        objects@.len() == objects_of(*document).len(),
        forall|i: int|
            0 <= i < objects@.len() ==> *(#[trigger] objects@[i]) == objects_of(*document)[i],
{
    document.objects.values().collect()
}

/// `lopdf::Object::as_stream`: the stream that an object is, if it is one.
/// `stream_of` names it.
#[verifier::external_body]
fn object_stream<'a>(object: &'a lopdf::Object) -> (stream: Option<&'a lopdf::Stream>)
    ensures
        found(stream, stream_of(*object)),
{
    object.as_stream().ok()
}

/// `lopdf::Dictionary::get` on a stream's dictionary: the value under a
/// key. `entry_of` names it.
#[verifier::external_body]
fn stream_entry<'a>(stream: &'a lopdf::Stream, key: &str) -> (entry: Option<&'a lopdf::Object>)
    ensures
        found(entry, entry_of(*stream, key@)),
{
    stream.dict.get(key.as_bytes()).ok()
}

/// `lopdf::Object::as_name`: the bytes of a name object. `name_of` names
/// them.
#[verifier::external_body]
fn object_name(object: &lopdf::Object) -> (name: Option<Vec<u8>>)
    ensures
        bytes_of(name) == name_of(*object),
{
    object.as_name().ok().map(|name| name.to_vec())
}

/// `String::from_utf8_lossy`: the bytes as text, each run of bytes that is
/// not UTF-8 replaced by the replacement character. `lossy_text` names the
/// result, which depends on the bytes alone.
#[verifier::external_body]
fn utf8_lossy(bytes: &Vec<u8>) -> (text: String)
    ensures
        text@ == lossy_text(bytes@),
{
    String::from_utf8_lossy(bytes).into_owned()
}

/// `lopdf::Object::as_i64`: the value of an integer object. `integer_of`
/// names it.
#[verifier::external_body]
fn object_integer(object: &lopdf::Object) -> (value: Option<i64>)
    ensures
        value == integer_of(*object),
{
    object.as_i64().ok()
}

/// `lopdf::Object::as_reference`: the object id that a reference names.
/// `reference_of` names it.
#[verifier::external_body]
fn object_reference(object: &lopdf::Object) -> (id: Option<(u32, u16)>)
    ensures
        id == reference_of(*object),
{
    object.as_reference().ok()
}

/// `lopdf::Object::as_array`: the elements of an array object. `array_of`
/// names them.
#[verifier::external_body]
fn object_array<'a>(object: &'a lopdf::Object) -> (items: Option<&'a Vec<lopdf::Object>>)
    ensures
        items is Some <==> array_of(*object) is Some,
        items is Some ==> items->0@ == array_of(*object)->0,
{
    object.as_array().ok()
}

/// `lopdf::Document::get_object`: the object with the given id, with
/// references followed. `resolved` names it.
#[verifier::external_body]
fn resolve_object<'a>(document: &'a lopdf::Document, id: (u32, u16)) -> (target: Option<
    &'a lopdf::Object,
>)
    ensures
        found(target, resolved(*document, id)),
{
    document.get_object(id).ok()
}

/// `lopdf::Stream::decompressed_content`: the stream's bytes with its
/// filters undone, or the error of the filter that fails. `content_of`
/// names the outcome.
#[verifier::external_body]
fn stream_content(stream: &lopdf::Stream) -> (content: Result<Vec<u8>, lopdf::Error>)
    ensures
        match content {
            Ok(data) => content_of(*stream) == Ok::<Seq<u8>, lopdf::Error>(data@),
            Err(error) => content_of(*stream) == Err::<Seq<u8>, lopdf::Error>(error),
        },
{
    stream.decompressed_content()
}

/// What the library reads of a PDF object.
#[derive(Debug, Clone, PartialEq, Eq)]
pub enum PdfValue {
    /// A name, as text.
    Name(String),
    /// An integer.
    Integer(i64),
    /// A reference to the object with the given number and generation.
    Reference(u32, u16),
    /// An array: the name that its first element is, if it is one, and the
    /// component count that the profile named by its second element
    /// states, if it states one.
    Array { head: Option<String>, components: Option<i64> },
    /// Anything else.
    Other,
}

/// Mathematical model of a `PdfValue`.
pub enum PdfValueModel {
    Name(Seq<char>),
    Integer(i64),
    Reference(u32, u16),
    Array { head: Option<Seq<char>>, components: Option<i64> },
    Other,
}

/// The characters of a text that may be absent.
pub open spec fn text_of(text: Option<String>) -> Option<Seq<char>> {
    match text {
        Some(text) => Some(text@),
        None => None,
    }
}

impl View for PdfValue {
    type V = PdfValueModel;

    open spec fn view(&self) -> PdfValueModel {
        match self {
            PdfValue::Name(name) => PdfValueModel::Name(name@),
            PdfValue::Integer(value) => PdfValueModel::Integer(*value),
            PdfValue::Reference(number, generation) => PdfValueModel::Reference(
                *number,
                *generation,
            ),
            PdfValue::Array { head, components } => PdfValueModel::Array {
                head: text_of(*head),
                components: *components,
            },
            PdfValue::Other => PdfValueModel::Other,
        }
    }
}

/// The model of a value that may be absent.
pub open spec fn value_of_option(value: Option<PdfValue>) -> Option<PdfValueModel> {
    match value {
        Some(value) => Some(value@),
        None => None,
    }
}

/// What the library reads of a stream. Of a stream that is no image only
/// the subtype is read.
#[derive(Debug, Clone, PartialEq, Eq)]
pub struct ImageStream {
    /// What stands under `Subtype`.
    pub subtype: Option<PdfValue>,
    /// The integer under `Width`.
    pub width: Option<i64>,
    /// The integer under `Height`.
    pub height: Option<i64>,
    /// The content with its filters undone, where that succeeds.
    pub content: Option<Vec<u8>>,
    /// Why the filters could not be undone; empty where they could, and
    /// where the content was not read.
    pub cause: String,
    /// What stands under `ColorSpace`.
    pub color_space: Option<PdfValue>,
    /// Where `color_space` is a reference: the object that it leads to.
    pub color_space_target: Option<PdfValue>,
    /// The integer under `BitsPerComponent`.
    pub bits_per_component: Option<i64>,
}

/// Mathematical model of an `ImageStream`.
pub struct ImageStreamModel {
    pub subtype: Option<PdfValueModel>,
    pub width: Option<i64>,
    pub height: Option<i64>,
    pub content: Option<Seq<u8>>,
    pub cause: Seq<char>,
    pub color_space: Option<PdfValueModel>,
    pub color_space_target: Option<PdfValueModel>,
    pub bits_per_component: Option<i64>,
}

impl View for ImageStream {
    type V = ImageStreamModel;

    open spec fn view(&self) -> ImageStreamModel {
        ImageStreamModel {
            subtype: value_of_option(self.subtype),
            width: self.width,
            height: self.height,
            content: bytes_of(self.content),
            cause: self.cause@,
            color_space: value_of_option(self.color_space),
            color_space_target: value_of_option(self.color_space_target),
            bits_per_component: self.bits_per_component,
        }
    }
}

/// The models of a sequence of streams that were read.
pub open spec fn stream_models(entries: Seq<ImageStream>) -> Seq<ImageStreamModel> {
    Seq::new(entries.len(), |i: int| entries[i]@)
}

/// The colour space that a name or an array states, if the value is one
/// of the two and the array starts with a name.
pub open spec fn stated_color_space(value: Option<PdfValueModel>) -> Option<PdfColorSpaceModel> {
    match value {
        Some(PdfValueModel::Name(name)) => Some(color_space_of(name, None)),
        Some(PdfValueModel::Array { head: Some(name), components }) => Some(
            color_space_of(name, components),
        ),
        _ => None,
    }
}

/// Whether a value is a reference.
pub open spec fn is_reference(value: Option<PdfValueModel>) -> bool {
    value matches Some(PdfValueModel::Reference(_, _))
}

/// The colour space of an image.
///
/// The `ColorSpace` entry may be a name, a reference to a name or to an
/// array, or an array; an array stands for the space that its first
/// element names. An entry that is absent or of another form means
/// `DeviceRGB`.
pub open spec fn resolved_color_space(
    direct: Option<PdfValueModel>,
    target: Option<PdfValueModel>,
) -> PdfColorSpaceModel {
    let stated = if is_reference(direct) {
        stated_color_space(target)
    } else {
        stated_color_space(direct)
    };
    match stated {
        Some(space) => space,
        None => PdfColorSpaceModel::DeviceRGB,
    }
}

/// Computes `stated_color_space`.
fn stated_space(value: &Option<PdfValue>) -> (r: Option<PdfColorSpace>)
    ensures
        r is Some <==> stated_color_space(value_of_option(*value)) is Some,
        r is Some ==> r->0@ == stated_color_space(value_of_option(*value))->0,
{
    match value {
        Some(PdfValue::Name(name)) => Some(classify_color_space(name.as_str(), None)),
        Some(PdfValue::Array { head: Some(name), components }) => Some(
            classify_color_space(name.as_str(), *components),
        ),
        _ => None,
    }
}

/// Computes `resolved_color_space`.
pub fn resolve_color_space(direct: &Option<PdfValue>, target: &Option<PdfValue>) -> (r:
    PdfColorSpace)
    ensures
        r@ == resolved_color_space(value_of_option(*direct), value_of_option(*target)),
{
    let stated = match direct {
        Some(PdfValue::Reference(_, _)) => stated_space(target),
        _ => stated_space(direct),
    };
    match stated {
        Some(space) => space,
        None => PdfColorSpace::DeviceRGB,
    }
}

/// Whether a `Subtype` entry says that a stream is an image.
pub open spec fn is_image_subtype(subtype: Option<PdfValueModel>) -> bool {
    subtype matches Some(PdfValueModel::Name(name)) && name == "Image"@
}

/// Computes `is_image_subtype`.
pub fn names_image(subtype: &Option<PdfValue>) -> (r: bool)
    ensures
        r == is_image_subtype(value_of_option(*subtype)),
{
    match subtype {
        Some(PdfValue::Name(name)) => same_text(name.as_str(), "Image"),
        _ => false,
    }
}

/// Whether what was read of a stream can be decoded.
pub open spec fn stream_decodable(entry: ImageStreamModel) -> bool {
    decodable(
        entry.width,
        entry.height,
        entry.content,
        resolved_color_space(entry.color_space, entry.color_space_target),
        entry.bits_per_component,
    )
}

/// The image that a decodable stream holds.
pub open spec fn image_of(entry: ImageStreamModel) -> Raster {
    decoded(
        entry.width->0,
        entry.height->0,
        entry.content->0,
        resolved_color_space(entry.color_space, entry.color_space_target),
    )
}

/// The error that says why a stream is skipped.
pub open spec fn reason_of(entry: ImageStreamModel) -> ErrorModel {
    ErrorModel::ProcessingError(
        decode_failure(
            entry.width,
            entry.height,
            entry.content,
            resolved_color_space(entry.color_space, entry.color_space_target),
            entry.bits_per_component,
            entry.cause,
        ),
    )
}

/// Whether `outcome` is what decoding gives for a stream of which `entry`
/// was read: the decoded image where the stream is decodable, else the
/// error that says why it is skipped.
pub open spec fn decodes_to(entry: ImageStreamModel, outcome: Result<PixelBuffer, OcrError>) -> bool {
    if stream_decodable(entry) {
        outcome is Ok && outcome->Ok_0@ == image_of(entry)
    } else {
        outcome is Err && outcome->Err_0@ == reason_of(entry)
    }
}

/// Decodes the image of a stream from what was read of it.
pub fn decode_image_stream(entry: ImageStream) -> (r: Result<PixelBuffer, OcrError>)
    ensures
        decodes_to(entry@, r),
        r is Ok <==> stream_decodable(entry@),
        r is Ok ==> r->Ok_0@ == image_of(entry@) && r->Ok_0@.wf(),
        r is Err ==> r->Err_0@ == reason_of(entry@),
{
    let space = resolve_color_space(&entry.color_space, &entry.color_space_target);
    let ghost bytes = bytes_of(entry.content);
    let r = decode_image(
        entry.width,
        entry.height,
        entry.content,
        &space,
        entry.bits_per_component,
        entry.cause.as_str(),
    );
    proof {
        if r is Ok {
            lemma_decoded_wf(entry.width->0, entry.height->0, bytes->0, space@);
        }
    }
    r
}

/// What the library reads of an object, from what the accessors gave for
/// it: its name, its integer, its reference, or the head and the
/// component count of its array, in this order of precedence.
pub open spec fn value_from(
    name: Option<Seq<char>>,
    integer: Option<i64>,
    reference: Option<(u32, u16)>,
    array: Option<(Option<Seq<char>>, Option<i64>)>,
) -> PdfValueModel {
    match (name, integer, reference, array) {
        (Some(text), _, _, _) => PdfValueModel::Name(text),
        (None, Some(value), _, _) => PdfValueModel::Integer(value),
        (None, None, Some((number, generation)), _) => PdfValueModel::Reference(number, generation),
        (None, None, None, Some((head, components))) => PdfValueModel::Array { head, components },
        (None, None, None, None) => PdfValueModel::Other,
    }
}

/// The model of what was read of an array.
pub open spec fn array_read(array: Option<(Option<String>, Option<i64>)>) -> Option<
    (Option<Seq<char>>, Option<i64>),
> {
    match array {
        Some((head, components)) => Some((text_of(head), components)),
        None => None,
    }
}

/// Computes `value_from`.
pub fn value_of(
    name: Option<String>,
    integer: Option<i64>,
    reference: Option<(u32, u16)>,
    array: Option<(Option<String>, Option<i64>)>,
) -> (value: PdfValue)
    ensures
        value@ == value_from(text_of(name), integer, reference, array_read(array)),
{
    if let Some(name) = name {
        PdfValue::Name(name)
    } else if let Some(value) = integer {
        PdfValue::Integer(value)
    } else if let Some(id) = reference {
        PdfValue::Reference(id.0, id.1)
    } else if let Some(read) = array {
        PdfValue::Array { head: read.0, components: read.1 }
    } else {
        PdfValue::Other
    }
}

/// The text of a name that may be absent.
pub open spec fn lossy(name: Option<Seq<u8>>) -> Option<Seq<char>> {
    match name {
        Some(bytes) => Some(lossy_text(bytes)),
        None => None,
    }
}

/// The name that the first element of an array is, if it is one.
pub open spec fn head_read(items: Seq<lopdf::Object>) -> Option<Seq<char>> {
    if items.len() == 0 {
        None
    } else {
        lossy(name_of(items[0]))
    }
}

/// The integer under a key in the dictionary of a stream.
pub open spec fn integer_read(stream: lopdf::Stream, key: Seq<char>) -> Option<i64> {
    match entry_of(stream, key) {
        Some(value) => integer_of(value),
        None => None,
    }
}

/// The component count that the profile of an `ICCBased` array states:
/// the integer under `N` in the stream that the array's second element
/// refers to.
pub open spec fn components_read(document: lopdf::Document, items: Seq<lopdf::Object>) -> Option<
    i64,
> {
    if items.len() < 2 {
        None
    } else {
        match reference_of(items[1]) {
            None => None,
            Some(id) => match resolved(document, id) {
                None => None,
                Some(target) => match stream_of(target) {
                    None => None,
                    Some(profile) => integer_read(profile, "N"@),
                },
            },
        }
    }
}

/// What is read of the array that an object is, if it is one.
pub open spec fn array_parts(document: lopdf::Document, object: lopdf::Object) -> Option<
    (Option<Seq<char>>, Option<i64>),
> {
    match array_of(object) {
        Some(items) => Some((head_read(items), components_read(document, items))),
        None => None,
    }
}

/// What the library reads of an object.
pub open spec fn value_read(document: lopdf::Document, object: lopdf::Object) -> PdfValueModel {
    value_from(
        lossy(name_of(object)),
        integer_of(object),
        reference_of(object),
        array_parts(document, object),
    )
}

/// What the library reads under a key in the dictionary of a stream.
pub open spec fn entry_read(document: lopdf::Document, stream: lopdf::Stream, key: Seq<char>) -> Option<
    PdfValueModel,
> {
    match entry_of(stream, key) {
        Some(object) => Some(value_read(document, object)),
        None => None,
    }
}

/// What is read of a stream that is no image: its subtype alone.
pub open spec fn unread(subtype: Option<PdfValueModel>) -> ImageStreamModel {
    ImageStreamModel {
        subtype,
        width: None,
        height: None,
        content: None,
        cause: Seq::empty(),
        color_space: None,
        color_space_target: None,
        bits_per_component: None,
    }
}

/// The bytes that decompression gave, where it succeeded.
pub open spec fn content_read(stream: lopdf::Stream) -> Option<Seq<u8>> {
    match content_of(stream) {
        Ok(data) => Some(data),
        Err(_) => None,
    }
}

/// The text of the error with which decompression failed; empty where it
/// succeeded.
pub open spec fn cause_read(stream: lopdf::Stream) -> Seq<char> {
    match content_of(stream) {
        Ok(_) => Seq::empty(),
        Err(error) => error_text(error),
    }
}

/// What a reference in the place of a colour space leads to.
pub open spec fn target_read(document: lopdf::Document, color_space: Option<PdfValueModel>) -> Option<
    PdfValueModel,
> {
    match color_space {
        Some(PdfValueModel::Reference(number, generation)) => match resolved(
            document,
            (number, generation),
        ) {
            Some(target) => Some(value_read(document, target)),
            None => None,
        },
        _ => None,
    }
}

/// What the library reads of a stream of a document. The rest is read
/// only where the subtype says that the stream is an image, and the
/// target of the colour space only where the colour space is a reference.
pub open spec fn stream_read(document: lopdf::Document, stream: lopdf::Stream) -> ImageStreamModel {
    let subtype = entry_read(document, stream, "Subtype"@);
    if !is_image_subtype(subtype) {
        unread(subtype)
    } else {
        let color_space = entry_read(document, stream, "ColorSpace"@);
        ImageStreamModel {
            subtype,
            width: integer_read(stream, "Width"@),
            height: integer_read(stream, "Height"@),
            content: content_read(stream),
            cause: cause_read(stream),
            color_space,
            color_space_target: target_read(document, color_space),
            bits_per_component: integer_read(stream, "BitsPerComponent"@),
        }
    }
}

/// What the library reads of the streams among the first `upto` of the
/// objects, in order.
pub open spec fn streams_among(document: lopdf::Document, objects: Seq<lopdf::Object>, upto: int) -> Seq<
    ImageStreamModel,
>
    decreases upto,
{
    if upto <= 0 {
        Seq::empty()
    } else {
        match stream_of(objects[upto - 1]) {
            Some(stream) => streams_among(document, objects, upto - 1).push(
                stream_read(document, stream),
            ),
            None => streams_among(document, objects, upto - 1),
        }
    }
}

/// What the library reads of the streams of a document, in the order of
/// the document's objects.
pub open spec fn streams_read(document: lopdf::Document) -> Seq<ImageStreamModel> {
    streams_among(document, objects_of(document), objects_of(document).len() as int)
}

/// Reads the component count that the profile of an `ICCBased` array
/// states.
fn profile_components(document: &lopdf::Document, array: &Vec<lopdf::Object>) -> (r: Option<i64>)
    ensures
        r == components_read(*document, array@),
{
    if array.len() < 2 {
        return None;
    }
    let id = match object_reference(&array[1]) {
        Some(id) => id,
        None => { return None; },
    };
    let target = match resolve_object(document, id) {
        Some(target) => target,
        None => { return None; },
    };
    let profile = match object_stream(target) {
        Some(profile) => profile,
        None => { return None; },
    };
    integer_entry(profile, "N")
}

/// Reads the name that the first element of an array is, if it is one.
fn array_head(array: &Vec<lopdf::Object>) -> (head: Option<String>)
    ensures
        text_of(head) == head_read(array@),
{
    if array.len() == 0 {
        return None;
    }
    match object_name(&array[0]) {
        Some(name) => Some(utf8_lossy(&name)),
        None => None,
    }
}

/// Reads a PDF object: asks the object for its name, its integer, its
/// reference and its array, and lets `value_of` decide.
fn read_value(document: &lopdf::Document, object: &lopdf::Object) -> (value: PdfValue)
    ensures
        value@ == value_read(*document, *object),
{
    let name = match object_name(object) {
        Some(bytes) => Some(utf8_lossy(&bytes)),
        None => None,
    };
    let array = match object_array(object) {
        Some(items) => Some((array_head(items), profile_components(document, items))),
        None => None,
    };
    value_of(name, object_integer(object), object_reference(object), array)
}

/// Reads what stands under `key` in a stream's dictionary.
fn read_entry(document: &lopdf::Document, stream: &lopdf::Stream, key: &str) -> (value: Option<
    PdfValue,
>)
    ensures
        value_of_option(value) == entry_read(*document, *stream, key@),
{
    match stream_entry(stream, key) {
        Some(object) => Some(read_value(document, object)),
        None => None,
    }
}

/// Reads the integer under `key` in a stream's dictionary.
fn integer_entry(stream: &lopdf::Stream, key: &str) -> (value: Option<i64>)
    ensures
        value == integer_read(*stream, key@),
{
    match stream_entry(stream, key) {
        Some(value) => object_integer(value),
        None => None,
    }
}

/// Reads a stream.
fn read_image_stream(document: &lopdf::Document, stream: &lopdf::Stream) -> (entry: ImageStream)
    ensures
        entry@ == stream_read(*document, *stream),
{
    let subtype = read_entry(document, stream, "Subtype");
    if !names_image(&subtype) {
        return ImageStream {
            subtype,
            width: None,
            height: None,
            content: None,
            cause: String::new(),
            color_space: None,
            color_space_target: None,
            bits_per_component: None,
        };
    }
    let color_space = read_entry(document, stream, "ColorSpace");
    let color_space_target = match &color_space {
        Some(PdfValue::Reference(number, generation)) => {
            match resolve_object(document, (*number, *generation)) {
                Some(target) => Some(read_value(document, target)),
                None => None,
            }
        },
        _ => None,
    };
    let (content, cause) = match stream_content(stream) {
        Ok(data) => (Some(data), String::new()),
        Err(error) => (None, pdf_error_text(&error)),
    };
    ImageStream {
        subtype,
        width: integer_entry(stream, "Width"),
        height: integer_entry(stream, "Height"),
        content,
        cause,
        color_space,
        color_space_target,
        bits_per_component: integer_entry(stream, "BitsPerComponent"),
    }
}

/// A decodable stream decodes to a well-formed raster.
pub proof fn lemma_decoded_wf(
    width: i64,
    height: i64,
    content: Seq<u8>,
    color_space: PdfColorSpaceModel,
)
    requires
        decodable(Some(width), Some(height), Some(content), color_space, Some(8)),
    ensures
        decoded(width, height, content, color_space).wf(),
{
    let pixels = width * height;
    assert(0 <= pixels) by (nonlinear_arith)
        requires
            0 <= width,
            0 <= height,
            pixels == width * height,
    ;
    let per_pixel = color_space.bytes_per_pixel()->0 as int;
    assert(pixels <= pixels * per_pixel) by (nonlinear_arith)
        requires
            0 <= pixels,
            1 <= per_pixel,
    ;
    let out = decoded(width, height, content, color_space);
    assert(out.width == width && out.height == height);
    assert(content.len() >= pixels * per_pixel);
    assert(per_pixel == 3 ==> pixels * per_pixel == 3 * pixels) by (nonlinear_arith);
    assert(per_pixel == 1 ==> pixels * per_pixel == pixels) by (nonlinear_arith);
    assert(out.samples.len() == pixels * out.channels) by {
        match color_space {
            PdfColorSpaceModel::DeviceGray => {
                assert(content.take(pixels).len() == pixels);
            },
            PdfColorSpaceModel::DeviceCMYK => {
                assert(cmyk_to_rgb(content, pixels as nat).len() == 3 * pixels);
            },
            _ => {
                assert(per_pixel == 3);
                assert(content.take(3 * pixels).len() == 3 * pixels);
            },
        }
    }
    assert(width * height * out.channels == pixels * out.channels);
}

/// Whether a stream that was read gives an image: it is an image stream
/// and decodable.
pub open spec fn gives_image(entry: ImageStreamModel) -> bool {
    is_image_subtype(entry.subtype) && stream_decodable(entry)
}

/// Whether a stream that was read is skipped: it is an image stream and
/// not decodable.
pub open spec fn is_skipped(entry: ImageStreamModel) -> bool {
    is_image_subtype(entry.subtype) && !stream_decodable(entry)
}

/// The images of the streams that were read: of each image stream that is
/// decodable its decoded image, in the order of the streams, and nothing
/// else.
pub open spec fn decoded_images(entries: Seq<ImageStreamModel>) -> Seq<Raster>
    decreases entries.len(),
{
    if entries.len() == 0 {
        Seq::empty()
    } else if gives_image(entries.last()) {
        decoded_images(entries.drop_last()).push(image_of(entries.last()))
    } else {
        decoded_images(entries.drop_last())
    }
}

/// The reasons for which streams that were read are skipped: of each
/// image stream that is not decodable its error, in the order of the
/// streams.
pub open spec fn skip_reasons(entries: Seq<ImageStreamModel>) -> Seq<ErrorModel>
    decreases entries.len(),
{
    if entries.len() == 0 {
        Seq::empty()
    } else if is_skipped(entries.last()) {
        skip_reasons(entries.drop_last()).push(reason_of(entries.last()))
    } else {
        skip_reasons(entries.drop_last())
    }
}

/// The rasters of a sequence of buffers.
pub open spec fn rasters(images: Seq<PixelBuffer>) -> Seq<Raster> {
    Seq::new(images.len(), |i: int| images[i]@)
}

/// The models of a sequence of errors.
pub open spec fn reasons(errors: Seq<OcrError>) -> Seq<ErrorModel> {
    Seq::new(errors.len(), |i: int| errors[i]@)
}

/// What a scan of a document found: the images that could be decoded, in
/// the order of the document's objects, and the reason for each image that
/// was skipped.
pub struct PdfScan {
    pub images: Vec<PixelBuffer>,
    pub skipped: Vec<OcrError>,
}

impl PdfScan {
    /// Whether the scan is what decoding makes of the streams that were
    /// read.
    pub open spec fn is_scan_of(self, entries: Seq<ImageStreamModel>) -> bool {
        &&& rasters(self.images@) == decoded_images(entries)
        &&& reasons(self.skipped@) == skip_reasons(entries)
    }
}

/// Every image of the streams that were read is well formed, and there
/// are no more images and skipped streams together than streams.
pub proof fn lemma_decoded_images(entries: Seq<ImageStreamModel>)
    ensures
        forall|i: int|
            0 <= i < decoded_images(entries).len() ==> (#[trigger] decoded_images(entries)[i]).wf(),
        decoded_images(entries).len() + skip_reasons(entries).len() <= entries.len(),
    decreases entries.len(),
{
    if entries.len() > 0 {
        lemma_decoded_images(entries.drop_last());
        let last = entries.last();
        if gives_image(last) {
            lemma_decoded_wf(
                last.width->0,
                last.height->0,
                last.content->0,
                resolved_color_space(last.color_space, last.color_space_target),
            );
        }
    }
}

/// Streams of which none is an image give no image and no reason.
pub proof fn lemma_no_image_streams(entries: Seq<ImageStreamModel>)
    requires
        forall|i: int| 0 <= i < entries.len() ==> !is_image_subtype(#[trigger] entries[i].subtype),
    ensures
        decoded_images(entries) == Seq::<Raster>::empty(),
        skip_reasons(entries) == Seq::<ErrorModel>::empty(),
    decreases entries.len(),
{
    if entries.len() > 0 {
        lemma_no_image_streams(entries.drop_last());
    }
}

/// A single image stream in `DeviceGray` with eight bits for each
/// component and one byte of content for each pixel gives exactly one
/// image: single-channel, of the stream's width and height, with the
/// content as its samples.
pub proof fn lemma_one_gray_image(entry: ImageStreamModel, width: i64, height: i64)
    requires
        is_image_subtype(entry.subtype),
        entry.color_space == Some(PdfValueModel::Name("DeviceGray"@)),
        bits_or_default(entry.bits_per_component) == 8,
        entry.width == Some(width),
        entry.height == Some(height),
        0 <= width <= u32::MAX,
        0 <= height <= u32::MAX,
        entry.content is Some,
        entry.content->0.len() == width * height,
    ensures
        decoded_images(seq![entry]) == seq![
            (Raster {
                width: width as nat,
                height: height as nat,
                channels: 1,
                samples: entry.content->0,
            }),
        ],
        skip_reasons(seq![entry]) == Seq::<ErrorModel>::empty(),
{
    reveal_with_fuel(decoded_images, 2);
    reveal_with_fuel(skip_reasons, 2);
    let entries = seq![entry];
    assert(entries.drop_last() =~= Seq::<ImageStreamModel>::empty());
    assert(entries.last() == entry);
    let space = resolved_color_space(entry.color_space, entry.color_space_target);
    assert(space == PdfColorSpaceModel::DeviceGray);
    assert(stream_decodable(entry));
    let content = entry.content->0;
    assert(content.take(width * height) =~= content);
    assert(decoded_images(entries) =~= seq![image_of(entry)]);
    assert(skip_reasons(entries) =~= Seq::<ErrorModel>::empty());
}

/// A stream that is skipped beside an image stream that is decodable
/// gives exactly the one image, and the one reason.
pub proof fn lemma_malformed_beside_valid(malformed: ImageStreamModel, valid: ImageStreamModel)
    requires
        is_skipped(malformed),
        gives_image(valid),
    ensures
        decoded_images(seq![malformed, valid]) == seq![image_of(valid)],
        decoded_images(seq![valid, malformed]) == seq![image_of(valid)],
        skip_reasons(seq![malformed, valid]) == seq![reason_of(malformed)],
        skip_reasons(seq![valid, malformed]) == seq![reason_of(malformed)],
{
    reveal_with_fuel(decoded_images, 3);
    reveal_with_fuel(skip_reasons, 3);
    let first = seq![malformed, valid];
    assert(first.last() == valid);
    assert(seq![malformed].last() == malformed);
    assert(seq![valid].last() == valid);
    assert(first.drop_last() =~= seq![malformed]);
    assert(seq![malformed].drop_last() =~= Seq::<ImageStreamModel>::empty());
    assert(decoded_images(first) =~= seq![image_of(valid)]);
    assert(skip_reasons(first) =~= seq![reason_of(malformed)]);
    let second = seq![valid, malformed];
    assert(second.last() == malformed);
    assert(second.drop_last() =~= seq![valid]);
    assert(seq![valid].drop_last() =~= Seq::<ImageStreamModel>::empty());
    assert(decoded_images(second) =~= seq![image_of(valid)]);
    assert(skip_reasons(second) =~= seq![reason_of(malformed)]);
}

/// Decodes the streams that were read, in order. A stream that is no
/// image adds nothing. An image stream adds its image, or where it cannot
/// be decoded the reason for which it is skipped.
pub fn decode_streams(entries: Vec<ImageStream>) -> (scan: PdfScan)
    ensures
        scan.is_scan_of(stream_models(entries@)),
{
    let ghost all = stream_models(entries@);
    let mut entries = entries;
    let mut rest: Vec<ImageStream> = Vec::new();
    while entries.len() > 0
        invariant
            entries@.len() + rest@.len() == all.len(),
            forall|i: int| 0 <= i < entries@.len() ==> (#[trigger] entries@[i])@ == all[i],
            forall|i: int|
                0 <= i < rest@.len() ==> (#[trigger] rest@[i])@ == all[all.len() - 1 - i],
        decreases entries@.len(),
    {
        let last = entries.pop().unwrap();
        rest.push(last);
    }
    let mut images: Vec<PixelBuffer> = Vec::new();
    let mut skipped: Vec<OcrError> = Vec::new();
    let ghost mut done: int = 0;
    proof {
        assert(all.take(0) =~= Seq::<ImageStreamModel>::empty());
        assert(rasters(images@) =~= decoded_images(all.take(0)));
        assert(reasons(skipped@) =~= skip_reasons(all.take(0)));
    }
    while rest.len() > 0
        invariant
            0 <= done <= all.len(),
            done + rest@.len() == all.len(),
            forall|i: int|
                0 <= i < rest@.len() ==> (#[trigger] rest@[i])@ == all[all.len() - 1 - i],
            rasters(images@) == decoded_images(all.take(done)),
            reasons(skipped@) == skip_reasons(all.take(done)),
        decreases rest@.len(),
    {
        let entry = rest.pop().unwrap();
        let ghost read = entry@;
        let ghost images_before = rasters(images@);
        let ghost skipped_before = reasons(skipped@);
        proof {
            assert(read == all[done]);
            assert(all.take(done + 1).drop_last() =~= all.take(done));
            assert(all.take(done + 1).last() == read);
        }
        if names_image(&entry.subtype) {
            match decode_image_stream(entry) {
                Ok(image) => {
                    images.push(image);
                    proof {
                        assert(rasters(images@) =~= images_before.push(image_of(read)));
                    }
                },
                Err(reason) => {
                    skipped.push(reason);
                    proof {
                        assert(reasons(skipped@) =~= skipped_before.push(reason_of(read)));
                    }
                },
            }
        }
        proof {
            assert(rasters(images@) =~= decoded_images(all.take(done + 1)));
            assert(reasons(skipped@) =~= skip_reasons(all.take(done + 1)));
            done = done + 1;
        }
    }
    proof {
        assert(all.take(done) =~= all);
    }
    PdfScan { images, skipped }
}

/// Scans a parsed document: reads each of its streams, in the order of
/// the document's objects, and decodes what was read.
pub fn scan_document(document: &lopdf::Document) -> (scan: PdfScan)
    ensures
        scan.is_scan_of(streams_read(*document)),
{
    let objects = document_objects(document);
    let ghost named = objects_of(*document);
    let mut entries: Vec<ImageStream> = Vec::new();
    let mut i: usize = 0;
    while i < objects.len()
        invariant
            i <= objects@.len(),
            objects@.len() == named.len(),
            named == objects_of(*document),
            forall|j: int| 0 <= j < objects@.len() ==> *(#[trigger] objects@[j]) == named[j],
            stream_models(entries@) == streams_among(*document, named, i as int),
        decreases objects@.len() - i,
    {
        let ghost before = stream_models(entries@);
        let object = objects[i];
        proof {
            assert(*object == named[i as int]);
        }
        if let Some(stream) = object_stream(object) {
            let entry = read_image_stream(document, stream);
            entries.push(entry);
            proof {
                assert(stream_models(entries@) =~= before.push(stream_read(*document, *stream)));
            }
        }
        i += 1;
    }
    decode_streams(entries)
}

/// Whether a scan is what decoding makes of the streams of a document
/// that `lopdf` makes of the bytes.
pub open spec fn scanned_from(bytes: Seq<u8>, scan: PdfScan) -> bool {
    exists|document: lopdf::Document|
        is_parse_of(document, bytes) && #[trigger] scan.is_scan_of(streams_read(document))
}

/// Whether buffers are the images of a document that `lopdf` makes of the
/// bytes: of each of its image streams that is decodable the decoded
/// image, in the order of the document's objects, and nothing else.
pub open spec fn extracted_from(bytes: Seq<u8>, images: Seq<PixelBuffer>) -> bool {
    exists|document: lopdf::Document|
        is_parse_of(document, bytes) && rasters(images) == decoded_images(
            #[trigger] streams_read(document),
        )
}

/// What is extracted from a document whose one stream is an image in
/// `DeviceGray`, with eight bits for each component and one byte of
/// content for each pixel, is exactly one buffer: single-channel, of the
/// stream's width and height.
pub proof fn lemma_extraction_of_one_gray_image(
    document: lopdf::Document,
    images: Seq<PixelBuffer>,
    width: i64,
    height: i64,
)
    requires
        rasters(images) == decoded_images(streams_read(document)),
        streams_read(document).len() == 1,
        is_image_subtype(streams_read(document)[0].subtype),
        streams_read(document)[0].color_space == Some(PdfValueModel::Name("DeviceGray"@)),
        bits_or_default(streams_read(document)[0].bits_per_component) == 8,
        streams_read(document)[0].width == Some(width),
        streams_read(document)[0].height == Some(height),
        0 <= width <= u32::MAX,
        0 <= height <= u32::MAX,
        streams_read(document)[0].content is Some,
        streams_read(document)[0].content->0.len() == width * height,
    ensures
        images.len() == 1,
        images[0]@.width == width,
        images[0]@.height == height,
        images[0]@.channels == 1,
        images[0]@.samples == streams_read(document)[0].content->0,
{
    let entries = streams_read(document);
    lemma_one_gray_image(entries[0], width, height);
    assert(entries =~= seq![entries[0]]);
    assert(rasters(images).len() == 1);
    assert(rasters(images)[0] == images[0]@);
}

/// What is extracted from a document with two streams, of which one is an
/// image that cannot be decoded and the other an image that can, is
/// exactly the one buffer of the image that can.
pub proof fn lemma_extraction_beside_malformed(document: lopdf::Document, images: Seq<PixelBuffer>)
    requires
        rasters(images) == decoded_images(streams_read(document)),
        streams_read(document).len() == 2,
        (is_skipped(streams_read(document)[0]) && gives_image(streams_read(document)[1])) || (
        gives_image(streams_read(document)[0]) && is_skipped(streams_read(document)[1])),
    ensures
        images.len() == 1,
        is_skipped(streams_read(document)[0]) ==> images[0]@ == image_of(streams_read(document)[1]),
        is_skipped(streams_read(document)[1]) ==> images[0]@ == image_of(streams_read(document)[0]),
{
    let entries = streams_read(document);
    assert(entries =~= seq![entries[0], entries[1]]);
    if is_skipped(entries[0]) {
        lemma_malformed_beside_valid(entries[0], entries[1]);
    } else {
        lemma_malformed_beside_valid(entries[1], entries[0]);
    }
    assert(rasters(images).len() == 1);
    assert(rasters(images)[0] == images[0]@);
}

/// The error for bytes that do not parse as a PDF document, of which the
/// parser says `detail`.
pub open spec fn parse_failure(detail: Seq<char>) -> ErrorModel {
    ErrorModel::ProcessingError("Failed to load PDF: "@ + detail)
}

/// Whether an error is that of bytes that do not parse.
pub open spec fn is_parse_failure(error: OcrError) -> bool {
    exists|detail: Seq<char>| #[trigger] parse_failure(detail) == error@
}

/// Scans a PDF document for embedded images.
///
/// Fails only when the bytes do not parse as a PDF document. The scan is
/// what `decode_streams` makes of the document's streams: the images that
/// could be decoded, in the order of the document's objects, and for each
/// image that could not the reason why it was skipped.
pub fn scan_pdf(bytes: &[u8]) -> (r: Result<PdfScan, OcrError>)
    ensures
        r is Ok <==> parses_as_pdf(bytes@),
        r is Ok ==> scanned_from(bytes@, r->Ok_0),
        r is Err ==> is_parse_failure(r->Err_0),
{
    match load_document(bytes) {
        Ok(document) => {
            let scan = scan_document(&document);
            proof {
                assert(is_parse_of(document, bytes@));
                assert(scan.is_scan_of(streams_read(document)));
            }
            Ok(scan)
        },
        Err(error) => {
            let detail = pdf_error_text(&error);
            let mut message = String::from_str("Failed to load PDF: ");
            message.append(detail.as_str());
            let failure = OcrError::ProcessingError(message);
            assert(parse_failure(detail@) == failure@);
            Err(failure)
        },
    }
}

/// Extracts the embedded images of a PDF document.
///
/// Fails only when the bytes do not parse as a PDF document. The result
/// holds the decoded image of each image stream of the document that is
/// decodable, in the order of the document's objects; images that cannot be
/// decoded are left out.
pub fn extract_images_from_pdf(bytes: &[u8]) -> (r: Result<Vec<PixelBuffer>, OcrError>)
    ensures
        r is Ok <==> parses_as_pdf(bytes@),
        r is Ok ==> extracted_from(bytes@, r->Ok_0@),
        r is Ok ==> forall|i: int| 0 <= i < r->Ok_0@.len() ==> (#[trigger] r->Ok_0@[i])@.wf(),
        r is Err ==> is_parse_failure(r->Err_0),
{
    match scan_pdf(bytes) {
        Ok(scan) => {
            proof {
                let document = choose|document: lopdf::Document|
                    is_parse_of(document, bytes@) && #[trigger] scan.is_scan_of(
                        streams_read(document),
                    );
                assert(rasters(scan.images@) == decoded_images(streams_read(document)));
                lemma_decoded_images(streams_read(document));
                assert forall|i: int| 0 <= i < scan.images@.len() implies (
                #[trigger] scan.images@[i])@.wf() by {
                    assert(rasters(scan.images@)[i] == scan.images@[i]@);
                }
            }
            Ok(scan.images)
        },
        Err(error) => Err(error),
    }
}

} // verus!
