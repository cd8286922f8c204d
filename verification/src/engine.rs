//! The recognition capability and what the library does around it.

use crate::buffer::PixelBuffer;
use crate::confidence::{byte_len, calculate_confidence, confidence, tally};
use crate::error::{ErrorModel, OcrError};
use crate::pdf::{extract_images_from_pdf, extracted_from, is_parse_failure, parses_as_pdf};
use crate::text::{
    chars_of, decimal, decimal_digits, join, joined, lowercase_of, same_text, to_lowercase, trim,
    trimmed, views,
};
use vstd::prelude::*;
use vstd::string::StringExecFns;

verus! {

/// What recognition returns: the text, the confidence in it in millionths,
/// and advisory messages.
#[derive(Debug, Clone, PartialEq, Eq)]
pub struct OcrResult {
    pub text: String,
    pub confidence: u32,
    pub warnings: Vec<String>,
}

/// A recognition backend.
pub trait OcrEngine {
    /// The identifier of the engine.
    fn name(&self) -> &'static str;

    /// A description of the engine for people.
    fn description(&self) -> &'static str;

    /// Recognises the text of one image.
    fn process_image(&self, image: &PixelBuffer) -> Result<OcrResult, OcrError>;

    /// The MIME types that the engine takes.
    fn supported_formats(&self) -> Vec<String>;

    /// The languages that the engine reads.
    fn supported_languages(&self) -> Vec<String>;
}

/// What is known of an available engine.
#[derive(Debug, Clone, PartialEq, Eq)]
pub struct EngineInfo {
    pub name: &'static str,
    pub description: &'static str,
    pub supported_formats: Vec<String>,
    pub supported_languages: Vec<String>,
}

/// Whether `info` holds what the engine's own methods give for it: its
/// name, its description, its formats and its languages.
pub open spec fn describes<E: OcrEngine>(engine: &E, info: EngineInfo) -> bool {
    &&& call_ensures(E::name, (engine,), info.name)
    &&& call_ensures(E::description, (engine,), info.description)
    &&& call_ensures(E::supported_formats, (engine,), info.supported_formats)
    &&& call_ensures(E::supported_languages, (engine,), info.supported_languages)
}

/// Collects what an engine says of itself.
pub fn engine_info<E: OcrEngine>(engine: &E) -> (info: EngineInfo)
    ensures
        describes(engine, info),
{
    EngineInfo {
        name: engine.name(),
        description: engine.description(),
        supported_formats: engine.supported_formats(),
        supported_languages: engine.supported_languages(),
    }
}

/// How the confidence in the text of several images is formed.
#[derive(Debug, Clone, Copy, PartialEq, Eq, Structural)]
pub enum ConfidenceSource {
    /// By the heuristics, on the joined text.
    Heuristic,
    /// By the mean of what the engine reported for each image.
    Native,
}

/// The confidence in text that was read from a document directly.
pub const DIRECT_TEXT_CONFIDENCE: u32 = 950_000;

/// Direct text of no more bytes than this is not taken for the document's
/// text.
pub const MAX_NEGLIGIBLE_BYTES: u128 = 10;

/// The first bytes of every PDF document.
pub open spec fn pdf_magic() -> Seq<u8> {
    seq![0x25u8, 0x50u8, 0x44u8, 0x46u8, 0x2du8]
}

/// Whether data starts as a PDF document does.
pub open spec fn starts_as_pdf(data: Seq<u8>) -> bool {
    data.len() >= 5 && data.take(5) == pdf_magic()
}

/// Whether data starts with the five bytes `%PDF-`.
pub fn has_pdf_magic(data: &[u8]) -> (r: bool)
    ensures
        r == starts_as_pdf(data@),
{
    if data.len() < 5 {
        return false;
    }
    let r = data[0] == 0x25 && data[1] == 0x50 && data[2] == 0x44 && data[3] == 0x46 && data[4]
        == 0x2d;
    proof {
        if r {
            assert(data@.take(5) =~= pdf_magic());
        } else {
            assert(data@.take(5)[0] == data@[0]);
            assert(data@.take(5)[1] == data@[1]);
            assert(data@.take(5)[2] == data@[2]);
            assert(data@.take(5)[3] == data@[3]);
            assert(data@.take(5)[4] == data@[4]);
        }
    }
    r
}

/// Whether a file is a PDF document: its extension is `pdf` in any case,
/// or its data starts as a PDF document does.
pub fn is_pdf(extension: Option<&str>, data: &[u8]) -> (r: bool)
    ensures
        r == ((extension is Some && lowercase_of(extension->0@) == "pdf"@) || starts_as_pdf(data@)),
{
    if let Some(extension) = extension {
        let lower = to_lowercase(extension);
        if same_text(lower.as_str(), "pdf") {
            return true;
        }
    }
    has_pdf_magic(data)
}

/// Whether the text read directly from a document is taken for the
/// document's text: trimmed, it has more than ten bytes.
pub open spec fn direct_text_suffices(text: Seq<char>) -> bool {
    byte_len(trimmed(text), trimmed(text).len() as int) > MAX_NEGLIGIBLE_BYTES
}

/// The trimmed text read directly from a document, if it suffices.
pub fn direct_text(text: &str) -> (r: Option<String>)
    ensures
        r is Some <==> direct_text_suffices(text@),
        r is Some ==> r->0@ == trimmed(text@),
{
    let inner = trim(text);
    let chars = chars_of(inner);
    let counted = tally(&chars);
    if counted.bytes > MAX_NEGLIGIBLE_BYTES {
        Some(String::from_str(inner))
    } else {
        None
    }
}

/// Mathematical model of what recognition gave for one image: the text
/// and the confidence, or the error.
pub type PageModel = Result<(Seq<char>, u32), ErrorModel>;

/// The models of the outcomes for a sequence of images.
pub open spec fn page_models(pages: Seq<Result<OcrResult, OcrError>>) -> Seq<PageModel> {
    Seq::new(
        pages.len(),
        |i: int|
            match pages[i] {
                Ok(result) => Ok((result.text@, result.confidence)),
                Err(error) => Err(error@),
            },
    )
}

/// Whether an image gave text.
pub open spec fn gave_text(page: PageModel) -> bool {
    page is Ok && page->Ok_0.0.len() > 0
}

/// The texts of the first `upto` images, in order, leaving out images
/// that failed or gave no text.
pub open spec fn page_texts(pages: Seq<PageModel>, upto: int) -> Seq<Seq<char>>
    decreases upto,
{
    if upto <= 0 {
        Seq::empty()
    } else if gave_text(pages[upto - 1]) {
        page_texts(pages, upto - 1).push(pages[upto - 1]->Ok_0.0)
    } else {
        page_texts(pages, upto - 1)
    }
}

/// The warning for the image at position `at`, counted from 1, that
/// failed with `error`.
pub open spec fn page_warning(at: int, error: ErrorModel) -> Seq<char> {
    "Failed to OCR image "@ + decimal_digits((at + 1) as nat) + ": "@ + error.message()
}

/// The warnings for the first `upto` images: one for each that failed.
pub open spec fn page_warnings(pages: Seq<PageModel>, upto: int) -> Seq<Seq<char>>
    decreases upto,
{
    if upto <= 0 {
        Seq::empty()
    } else if pages[upto - 1] is Err {
        page_warnings(pages, upto - 1).push(page_warning(upto - 1, pages[upto - 1]->Err_0))
    } else {
        page_warnings(pages, upto - 1)
    }
}

/// Sum of the confidences of the first `upto` images that gave text.
pub open spec fn confidence_sum(pages: Seq<PageModel>, upto: int) -> nat
    decreases upto,
{
    if upto <= 0 {
        0
    } else if gave_text(pages[upto - 1]) {
        confidence_sum(pages, upto - 1) + pages[upto - 1]->Ok_0.1 as nat
    } else {
        confidence_sum(pages, upto - 1)
    }
}

/// How many of the first `upto` images gave text.
pub open spec fn text_count(pages: Seq<PageModel>, upto: int) -> nat
    decreases upto,
{
    if upto <= 0 {
        0
    } else if gave_text(pages[upto - 1]) {
        text_count(pages, upto - 1) + 1
    } else {
        text_count(pages, upto - 1)
    }
}

/// The text of a document whose images gave `pages`: the texts joined by
/// a blank line.
pub open spec fn document_text(pages: Seq<PageModel>) -> Seq<char> {
    joined(page_texts(pages, pages.len() as int), "\n\n"@)
}

/// The confidence in a document whose images gave `pages`: by the
/// heuristics on the joined text, or the mean of the confidences of the
/// images that gave text, rounded down, and 0 where none did.
pub open spec fn document_confidence(pages: Seq<PageModel>, source: ConfidenceSource) -> int {
    let n = pages.len() as int;
    match source {
        ConfidenceSource::Heuristic => confidence(document_text(pages)),
        ConfidenceSource::Native => if text_count(pages, n) == 0 {
            0
        } else {
            (confidence_sum(pages, n) / text_count(pages, n)) as int
        },
    }
}

/// The confidence sum is bounded by the count.
pub proof fn lemma_confidence_sum_bounded(pages: Seq<PageModel>, upto: int)
    requires
        0 <= upto,
    ensures
        text_count(pages, upto) <= upto,
        confidence_sum(pages, upto) <= text_count(pages, upto) * u32::MAX,
    decreases upto,
{
    if upto > 0 {
        lemma_confidence_sum_bounded(pages, upto - 1);
        assert((text_count(pages, upto - 1) + 1) * u32::MAX == text_count(pages, upto - 1)
            * u32::MAX + u32::MAX) by (nonlinear_arith);
    }
}

/// Puts together what recognition gave for the images of a document.
///
/// The texts are joined by a blank line, in order, leaving out the images
/// that gave none. Each image that failed adds a warning after those in
/// `warnings`.
pub fn combine_pages(
    pages: &Vec<Result<OcrResult, OcrError>>,
    source: ConfidenceSource,
    warnings: Vec<String>,
) -> (r: OcrResult)
    ensures
        r.text@ == document_text(page_models(pages@)),
        r.confidence == document_confidence(page_models(pages@), source),
        views(r.warnings@) == views(warnings@) + page_warnings(
            page_models(pages@),
            pages@.len() as int,
        ),
{
    let ghost models = page_models(pages@);
    let mut warnings = warnings;
    let ghost initial = views(warnings@);
    let mut texts: Vec<String> = Vec::new();
    let mut sum: u128 = 0;
    let mut count: u128 = 0;
    let mut i: usize = 0;
    while i < pages.len()
        invariant
            i <= pages@.len(),
            models == page_models(pages@),
            views(texts@) == page_texts(models, i as int),
            views(warnings@) == initial + page_warnings(models, i as int),
            sum == confidence_sum(models, i as int),
            count == text_count(models, i as int),
        decreases pages@.len() - i,
    {
        proof {
            lemma_confidence_sum_bounded(models, i as int);
            assert(count * u32::MAX <= i * u32::MAX) by (nonlinear_arith)
                requires
                    count <= i,
            ;
            assert(i * u32::MAX <= usize::MAX * u32::MAX) by (nonlinear_arith)
                requires
                    i <= usize::MAX,
            ;
        }
        let ghost texts_before = views(texts@);
        let ghost warnings_before = views(warnings@);
        match &pages[i] {
            Ok(result) => {
                let chars = result.text.as_str().unicode_len();
                if chars > 0 {
                    texts.push(result.text.clone());
                    sum = sum + result.confidence as u128;
                    count = count + 1;
                    proof {
                        assert(views(texts@) =~= texts_before.push(result.text@));
                    }
                }
            },
            Err(error) => {
                let mut warning = String::from_str("Failed to OCR image ");
                warning.append(decimal(i + 1).as_str());
                warning.append(": ");
                warning.append(error.message().as_str());
                warnings.push(warning);
                proof {
                    assert(views(warnings@) =~= warnings_before.push(
                        page_warning(i as int, error@),
                    ));
                    assert(views(warnings@) =~= initial + page_warnings(models, i + 1));
                }
            },
        }
        i += 1;
    }
    let text = join(&texts, "\n\n");
    let confidence = match source {
        ConfidenceSource::Heuristic => calculate_confidence(text.as_str()),
        ConfidenceSource::Native => {
            if count == 0 {
                0
            } else {
                proof {
                    lemma_confidence_sum_bounded(models, pages@.len() as int);
                    assert(sum / count <= u32::MAX) by (nonlinear_arith)
                        requires
                            sum <= count * u32::MAX,
                            count > 0,
                    ;
                }
                (sum / count) as u32
            }
        },
    };
    OcrResult { text, confidence, warnings }
}

/// The warning of a document in which neither text nor images were found.
pub open spec fn nothing_found() -> Seq<char> {
    "No text or images found in PDF"@
}

/// The warning of a document whose text is read from its images.
pub open spec fn scanned_notice() -> Seq<char> {
    "PDF appears to be scanned/image-based, extracting images for OCR"@
}

/// Whether `result` is what a document without a sufficient text layer
/// gives, once recognition gave `pages` for its images. Without images the
/// text is empty, the confidence 0 and the one warning `nothing_found`.
/// Otherwise text and confidence are those of the pages, and the warnings
/// are `scanned_notice` followed by one for each image that failed.
pub open spec fn is_fallback(pages: Seq<PageModel>, source: ConfidenceSource, result: OcrResult) -> bool {
    if pages.len() == 0 {
        &&& result.text@ == Seq::<char>::empty()
        &&& result.confidence == 0
        &&& views(result.warnings@) == seq![nothing_found()]
    } else {
        &&& result.text@ == document_text(pages)
        &&& result.confidence == document_confidence(pages, source)
        &&& views(result.warnings@) == seq![scanned_notice()] + page_warnings(
            pages,
            pages.len() as int,
        )
    }
}

/// The result for a document without a sufficient text layer, from what
/// recognition gave for each of its images.
pub fn fallback_result(pages: &Vec<Result<OcrResult, OcrError>>, source: ConfidenceSource) -> (r:
    OcrResult)
    ensures
        is_fallback(page_models(pages@), source, r),
{
    let mut warnings: Vec<String> = Vec::new();
    if pages.len() == 0 {
        warnings.push(String::from_str("No text or images found in PDF"));
        proof {
            assert(views(warnings@) =~= seq![nothing_found()]);
        }
        return OcrResult { text: String::new(), confidence: 0, warnings };
    }
    warnings.push(
        String::from_str("PDF appears to be scanned/image-based, extracting images for OCR"),
    );
    proof {
        assert(views(warnings@) =~= seq![scanned_notice()]);
    }
    combine_pages(pages, source, warnings)
}

/// Whether `pages` holds, for each of the images in order, what the
/// engine gives for it.
pub open spec fn engine_gave<E: OcrEngine>(
    engine: &E,
    images: Seq<PixelBuffer>,
    pages: Seq<Result<OcrResult, OcrError>>,
) -> bool {
    &&& pages.len() == images.len()
    &&& forall|i: int|
        0 <= i < images.len() ==> call_ensures(
            E::process_image,
            (engine, &images[i]),
            #[trigger] pages[i],
        )
}

/// Whether `answer` is what recognition returns for a document. A text
/// layer that suffices is the result, trimmed, with the confidence
/// `DIRECT_TEXT_CONFIDENCE` and no warning. Otherwise bytes that do not
/// parse as a PDF document give a processing error, and a document that
/// parses gives the fallback result of what the engine gave for each of
/// its extracted images.
pub open spec fn recognized_pdf<E: OcrEngine>(
    engine: &E,
    direct: Seq<char>,
    document: Seq<u8>,
    source: ConfidenceSource,
    answer: Result<OcrResult, OcrError>,
) -> bool {
    if direct_text_suffices(direct) {
        &&& answer is Ok
        &&& answer->Ok_0.text@ == trimmed(direct)
        &&& answer->Ok_0.confidence == DIRECT_TEXT_CONFIDENCE
        &&& answer->Ok_0.warnings@.len() == 0
    } else if !parses_as_pdf(document) {
        answer is Err && is_parse_failure(answer->Err_0)
    } else {
        answer is Ok && exists|images: Seq<PixelBuffer>, pages: Seq<Result<OcrResult, OcrError>>|
            extracted_from(document, images) && #[trigger] engine_gave(engine, images, pages)
                && is_fallback(
                page_models(pages),
                source,
                answer->Ok_0,
            )
    }
}

/// Recognises the text of a PDF document.
///
/// `direct` is the text that was read from the document's text layer.
/// Where it suffices it is the result, trimmed, with the confidence
/// `DIRECT_TEXT_CONFIDENCE`. Otherwise the embedded images are extracted
/// and recognised one by one, and `fallback_result` forms the result.
/// Fails only where the text layer does not suffice and the bytes do not
/// parse as a PDF document.
pub fn process_pdf<E: OcrEngine>(
    engine: &E,
    direct: &str,
    document: &[u8],
    source: ConfidenceSource,
) -> (r: Result<OcrResult, OcrError>)
    ensures
        recognized_pdf(engine, direct@, document@, source, r),
        r is Err <==> !direct_text_suffices(direct@) && !parses_as_pdf(document@),
{
    if let Some(text) = direct_text(direct) {
        return Ok(OcrResult { text, confidence: DIRECT_TEXT_CONFIDENCE, warnings: Vec::new() });
    }
    let images = match extract_images_from_pdf(document) {
        Ok(images) => images,
        Err(error) => { return Err(error); },
    };
    let mut pages: Vec<Result<OcrResult, OcrError>> = Vec::new();
    let mut i: usize = 0;
    while i < images.len()
        invariant
            i <= images@.len(),
            pages@.len() == i,
            forall|j: int|
                0 <= j < i ==> call_ensures(
                    E::process_image,
                    (engine, &images@[j]),
                    #[trigger] pages@[j],
                ),
        decreases images@.len() - i,
    {
        let page = engine.process_image(&images[i]);
        pages.push(page);
        i += 1;
    }
    let result = fallback_result(&pages, source);
    proof {
        assert(engine_gave(engine, images@, pages@));
    }
    Ok(result)
}

/// The MIME types that both engines take: six image formats and PDF.
pub fn standard_formats() -> (formats: Vec<String>)
    ensures
        views(formats@) == seq![
            "image/png"@,
            "image/jpeg"@,
            "image/gif"@,
            "image/bmp"@,
            "image/webp"@,
            "image/tiff"@,
            "application/pdf"@,
        ],
{
    let mut formats: Vec<String> = Vec::new();
    formats.push(String::from_str("image/png"));
    formats.push(String::from_str("image/jpeg"));
    formats.push(String::from_str("image/gif"));
    formats.push(String::from_str("image/bmp"));
    formats.push(String::from_str("image/webp"));
    formats.push(String::from_str("image/tiff"));
    formats.push(String::from_str("application/pdf"));
    assert(views(formats@) =~= seq![
        "image/png"@,
        "image/jpeg"@,
        "image/gif"@,
        "image/bmp"@,
        "image/webp"@,
        "image/tiff"@,
        "application/pdf"@,
    ]);
    formats
}

} // verus!

verus! {

/// The texts of the lines whose words are known, each line's words joined
/// by a space.
pub open spec fn line_texts(lines: Seq<Option<Vec<String>>>, upto: int) -> Seq<Seq<char>>
    decreases upto,
{
    if upto <= 0 {
        Seq::empty()
    } else {
        match lines[upto - 1] {
            Some(words) => line_texts(lines, upto - 1).push(joined(views(words@), " "@)),
            None => line_texts(lines, upto - 1),
        }
    }
}

/// Puts the recognised lines of an image together: the words of a line
/// joined by a space, the lines by a line break. Lines that were not
/// recognised are left out.
pub fn assemble_lines(lines: &Vec<Option<Vec<String>>>) -> (text: String)
    ensures
        text@ == joined(line_texts(lines@, lines@.len() as int), "\n"@),
{
    let mut texts: Vec<String> = Vec::new();
    let mut i: usize = 0;
    while i < lines.len()
        invariant
            i <= lines@.len(),
            views(texts@) == line_texts(lines@, i as int),
        decreases lines@.len() - i,
    {
        let ghost before = views(texts@);
        match &lines[i] {
            Some(words) => {
                texts.push(join(words, " "));
                proof {
                    assert(views(texts@) =~= before.push(joined(views(words@), " "@)));
                }
            },
            None => {},
        }
        i += 1;
    }
    join(&texts, "\n")
}

/// The result for a text whose engine reports no confidence: the
/// confidence is the heuristic one.
pub fn heuristic_result(text: String) -> (r: OcrResult)
    ensures
        r.text == text,
        r.confidence == confidence(text@),
        r.warnings@.len() == 0,
{
    let confidence = calculate_confidence(text.as_str());
    OcrResult { text, confidence, warnings: Vec::new() }
}

/// A confidence in percent as millionths; percentages outside 0 to 100
/// count as the nearest of the two.
pub open spec fn percent_to_millionths(percent: i32) -> int {
    if percent < 0 {
        0
    } else if percent > 100 {
        1_000_000
    } else {
        percent * 10_000
    }
}

/// The result for a text whose engine reports its confidence in percent:
/// the text is trimmed.
pub fn native_result(text: &str, percent: i32) -> (r: OcrResult)
    ensures
        r.text@ == trimmed(text@),
        r.confidence == percent_to_millionths(percent),
        r.warnings@.len() == 0,
{
    let confidence: u32 = if percent < 0 {
        0
    } else if percent > 100 {
        1_000_000
    } else {
        (percent as u32) * 10_000
    };
    OcrResult { text: String::from_str(trim(text)), confidence, warnings: Vec::new() }
}

/// Where the training data of a language is downloaded from.
pub fn tessdata_url(language: &str) -> (url: String)
    ensures
        url@ == "https://github.com/tesseract-ocr/tessdata_fast/raw/main/"@ + language@
            + ".traineddata"@,
{
    crate::text::concat3(
        "https://github.com/tesseract-ocr/tessdata_fast/raw/main/",
        language,
        ".traineddata",
    )
}

/// The name of the file that holds the training data of a language.
pub fn traineddata_file(language: &str) -> (name: String)
    ensures
        name@ == language@ + ".traineddata"@,
{
    let mut name = String::from_str(language);
    name.append(".traineddata");
    name
}

/// The languages that the Tesseract engine is offered with.
pub fn tesseract_languages() -> (languages: Vec<String>)
    ensures
        views(languages@) == seq![
            "eng"@,
            "deu"@,
            "fra"@,
            "spa"@,
            "ita"@,
            "por"@,
            "nld"@,
            "jpn"@,
            "chi_sim"@,
            "chi_tra"@,
            "kor"@,
            "ara"@,
            "rus"@,
        ],
{
    let mut languages: Vec<String> = Vec::new();
    languages.push(String::from_str("eng"));
    languages.push(String::from_str("deu"));
    languages.push(String::from_str("fra"));
    languages.push(String::from_str("spa"));
    languages.push(String::from_str("ita"));
    languages.push(String::from_str("por"));
    languages.push(String::from_str("nld"));
    languages.push(String::from_str("jpn"));
    languages.push(String::from_str("chi_sim"));
    languages.push(String::from_str("chi_tra"));
    languages.push(String::from_str("kor"));
    languages.push(String::from_str("ara"));
    languages.push(String::from_str("rus"));
    assert(views(languages@) =~= seq![
        "eng"@,
        "deu"@,
        "fra"@,
        "spa"@,
        "ita"@,
        "por"@,
        "nld"@,
        "jpn"@,
        "chi_sim"@,
        "chi_tra"@,
        "kor"@,
        "ara"@,
        "rus"@,
    ]);
    languages
}

} // verus!

verus! {

/// Whether an engine, asked for its name, gives `name`.
pub open spec fn answers_to<E: OcrEngine>(engine: E, name: Seq<char>) -> bool {
    exists|given: &'static str| #[trigger] call_ensures(E::name, (&engine,), given) && given@ == name
}

/// Whether an engine, asked for its name, gives another name than `name`.
pub open spec fn answers_otherwise<E: OcrEngine>(engine: E, name: Seq<char>) -> bool {
    exists|given: &'static str| #[trigger] call_ensures(E::name, (&engine,), given) && given@ != name
}

/// Whether `found` is the outcome of asking the engines in order for their
/// names and taking the first that gives `name`: every engine before the
/// one found gave another name, and where none is found all of them did.
pub open spec fn first_answering<E: OcrEngine>(
    engines: Seq<E>,
    name: Seq<char>,
    found: Option<&E>,
) -> bool {
    match found {
        Some(engine) => exists|at: int|
            0 <= at < engines.len() && *engine == #[trigger] engines[at] && answers_to(
                engines[at],
                name,
            ) && forall|before: int|
                0 <= before < at ==> answers_otherwise(#[trigger] engines[before], name),
        None => forall|at: int|
            0 <= at < engines.len() ==> answers_otherwise(#[trigger] engines[at], name),
    }
}

/// The engines that a server offers, and which of them is the default.
pub struct EngineRegistry<E: OcrEngine> {
    engines: Vec<E>,
    default_engine: String,
}

impl<E: OcrEngine> EngineRegistry<E> {
    /// The engines of the registry, in the order in which they were given.
    pub closed spec fn engines(&self) -> Seq<E> {
        self.engines@
    }

    /// The name under which the default engine is looked up.
    pub closed spec fn default_engine(&self) -> Seq<char> {
        self.default_engine@
    }

    /// A registry of the given engines. The default is looked up under the
    /// name that the first engine gives. Fails where no engine is given.
    pub fn new(engines: Vec<E>) -> (r: Result<Self, OcrError>)
        ensures
            r is Err <==> engines@.len() == 0,
            r is Err ==> r->Err_0@ == ErrorModel::InitializationError(
                "No OCR engines available"@,
            ),
            r is Ok ==> r->Ok_0.engines() == engines@,
            r is Ok ==> answers_to(engines@[0], r->Ok_0.default_engine()),
    {
        if engines.len() == 0 {
            return Err(
                OcrError::InitializationError(String::from_str("No OCR engines available")),
            );
        }
        let given = engines[0].name();
        let default_engine = String::from_str(given);
        proof {
            assert(call_ensures(E::name, (&engines@[0],), given));
        }
        Ok(EngineRegistry { engines, default_engine })
    }

    /// The first engine that goes by the given name.
    pub fn get(&self, name: &str) -> (r: Option<&E>)
        ensures
            first_answering(self.engines(), name@, r),
    {
        let mut i: usize = 0;
        while i < self.engines.len()
            invariant
                i <= self.engines@.len(),
                forall|before: int|
                    0 <= before < i ==> answers_otherwise(#[trigger] self.engines@[before], name@),
            decreases self.engines@.len() - i,
        {
            let given = self.engines[i].name();
            proof {
                assert(call_ensures(E::name, (&self.engines@[i as int],), given));
            }
            if same_text(given, name) {
                proof {
                    assert(answers_to(self.engines@[i as int], name@));
                }
                return Some(&self.engines[i]);
            }
            proof {
                assert(answers_otherwise(self.engines@[i as int], name@));
            }
            i += 1;
        }
        None
    }

    /// The default engine: the first engine that goes by the name of the
    /// default.
    pub fn default(&self) -> (r: Option<&E>)
        ensures
            first_answering(self.engines(), self.default_engine(), r),
    {
        self.get(self.default_engine.as_str())
    }

    /// The name of the default engine.
    pub fn default_name(&self) -> (name: &str)
        ensures
            name@ == self.default_engine(),
    {
        self.default_engine.as_str()
    }

    /// The names that the engines give, in order.
    pub fn list(&self) -> (names: Vec<&'static str>)
        ensures
            names@.len() == self.engines().len(),
            forall|i: int|
                0 <= i < names@.len() ==> call_ensures(
                    E::name,
                    (&self.engines()[i],),
                    #[trigger] names@[i],
                ),
    {
        let mut names: Vec<&'static str> = Vec::new();
        let mut i: usize = 0;
        while i < self.engines.len()
            invariant
                i <= self.engines@.len(),
                names@.len() == i,
                forall|j: int|
                    0 <= j < i ==> call_ensures(E::name, (&self.engines@[j],), #[trigger] names@[j]),
            decreases self.engines@.len() - i,
        {
            names.push(self.engines[i].name());
            i += 1;
        }
        names
    }

    /// What each engine says of itself, in order.
    pub fn info(&self) -> (infos: Vec<EngineInfo>)
        ensures
            infos@.len() == self.engines().len(),
            forall|i: int|
                0 <= i < infos@.len() ==> describes(&self.engines()[i], #[trigger] infos@[i]),
    {
        let mut infos: Vec<EngineInfo> = Vec::new();
        let mut i: usize = 0;
        while i < self.engines.len()
            invariant
                i <= self.engines@.len(),
                infos@.len() == i,
                forall|j: int|
                    0 <= j < i ==> describes(&self.engines@[j], #[trigger] infos@[j]),
            decreases self.engines@.len() - i,
        {
            infos.push(engine_info(&self.engines[i]));
            i += 1;
        }
        infos
    }
}

} // verus!
