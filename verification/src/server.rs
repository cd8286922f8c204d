//! The decisions of the HTTP interface: what a request asks for, and what
//! is answered.

use crate::buffer::{decoded_from, decodes_as_image, load_failure, PixelBuffer, Raster};
use crate::config::Config;
use crate::engine::{has_pdf_magic, starts_as_pdf, EngineInfo, OcrEngine, OcrResult};
use crate::error::{ErrorModel, OcrError};
use crate::preprocessing::pipeline::{
    chain, preset_named, resizes, steps_of, timings_name, total_step_time, Pipeline, Preset, Step,
    StepTiming,
};
use crate::text::{chars_of, concat3, lowercase_of, same_text, views};
use vstd::prelude::*;
use vstd::string::StringExecFns;

verus! {

/// The query parameters of a recognition request.
#[derive(Debug, Clone, PartialEq, Eq)]
pub struct OcrQueryParams {
    /// Name of the preprocessing preset: none, minimal, default or
    /// aggressive.
    pub preprocess: Option<String>,
}

impl Default for OcrQueryParams {
    fn default() -> (params: OcrQueryParams)
        ensures
            params.preprocess is None,
    {
        OcrQueryParams { preprocess: None }
    }
}

/// What preprocessing did, for the response.
#[derive(Debug, Clone, PartialEq, Eq)]
pub struct PreprocessingStats {
    pub preset: String,
    pub total_time_ms: u64,
    pub steps: Vec<StepTiming>,
}

/// The answer to a recognition request. The confidence is in millionths.
#[derive(Debug, Clone, PartialEq, Eq)]
pub struct OcrResponse {
    pub text: String,
    pub confidence: u32,
    pub processing_time_ms: u64,
    pub warnings: Vec<String>,
    pub engine: String,
    /// Absent where no preprocessing ran.
    pub preprocessing: Option<PreprocessingStats>,
}

/// An engine, as the info endpoint shows it.
#[derive(Debug, Clone, PartialEq, Eq)]
pub struct EngineInfoResponse {
    pub name: String,
    pub description: String,
    pub supported_formats: Vec<String>,
    pub supported_languages: Vec<String>,
}

/// The answer of the health endpoint.
#[derive(Debug, Clone, PartialEq, Eq)]
pub struct HealthResponse {
    pub status: String,
    pub version: String,
}

/// The answer of the info endpoint.
#[derive(Debug, Clone, PartialEq, Eq)]
pub struct InfoResponse {
    pub version: String,
    pub available_engines: Vec<EngineInfoResponse>,
    pub default_engine: String,
    pub max_file_size_bytes: usize,
    pub default_language: String,
}

/// The content type assumed for an upload that states none.
pub open spec fn fallback_content_type() -> Seq<char> {
    "application/octet-stream"@
}

/// The content type of an upload: the stated one, else the fallback.
pub fn content_type_of(stated: Option<String>) -> (mime: String)
    ensures
        mime@ == (match stated {
            Some(m) => m@,
            None => fallback_content_type(),
        }),
{
    match stated {
        Some(m) => m,
        None => String::from_str("application/octet-stream"),
    }
}

/// Checks that a file was uploaded and that it is not too large.
///
/// `size` is the size of the upload in bytes, if there was one.
pub fn check_upload(size: Option<usize>, max_file_size: usize) -> (r: Result<usize, OcrError>)
    ensures
        size is None ==> r is Err && r->Err_0@ == ErrorModel::MissingFile,
        size is Some && size->0 > max_file_size ==> r is Err && r->Err_0@
            == (ErrorModel::ImageTooLarge { size: size->0, max: max_file_size }),
        size is Some && size->0 <= max_file_size ==> r == Ok::<usize, OcrError>(size->0),
{
    match size {
        None => Err(OcrError::MissingFile),
        Some(size) => {
            if size > max_file_size {
                Err(OcrError::ImageTooLarge { size, max: max_file_size })
            } else {
                Ok(size)
            }
        },
    }
}

/// The message for a preset name that is not known.
pub open spec fn unknown_preset(name: Seq<char>) -> Seq<char> {
    "Unknown preprocessing preset '"@ + name
        + "'. Valid: none, minimal, default, aggressive"@
}

/// The preset that a request asks for: the named one, or `Default` where
/// it names none. A name that is not known is an invalid request.
pub fn select_preset(params: &OcrQueryParams) -> (r: Result<Preset, OcrError>)
    ensures
        params.preprocess is None ==> r == Ok::<Preset, OcrError>(Preset::Default),
        params.preprocess is Some ==> (match preset_named(lowercase_of(params.preprocess->0@)) {
            Some(preset) => r == Ok::<Preset, OcrError>(preset),
            None => r is Err && r->Err_0@ == ErrorModel::InvalidRequest(
                unknown_preset(params.preprocess->0@),
            ),
        }),
{
    match &params.preprocess {
        None => Ok(Preset::Default),
        Some(name) => match Preset::from_str(name.as_str()) {
            Some(preset) => Ok(preset),
            None => Err(
                OcrError::InvalidRequest(
                    concat3(
                        "Unknown preprocessing preset '",
                        name.as_str(),
                        "'. Valid: none, minimal, default, aggressive",
                    ),
                ),
            ),
        },
    }
}

/// Whether an upload is handled as a PDF document: its content type says
/// so, or its data starts as a PDF document does.
pub fn is_pdf_upload(mime: &str, data: &[u8]) -> (r: bool)
    ensures
        r == (mime@ == "application/pdf"@ || starts_as_pdf(data@)),
{
    same_text(mime, "application/pdf") || has_pdf_magic(data)
}

/// Whether `prefix` starts `text`.
pub open spec fn starts_with(text: Seq<char>, prefix: Seq<char>) -> bool {
    prefix.len() <= text.len() && text.take(prefix.len() as int) == prefix
}

/// Whether a content type is one that an engine expects: it is among the
/// engine's formats, or it is some image type.
pub open spec fn is_expected(mime: Seq<char>, formats: Seq<Seq<char>>) -> bool {
    formats.contains(mime) || starts_with(mime, "image/"@)
}

/// Computes `is_expected`.
pub fn is_expected_content_type(mime: &str, formats: &Vec<String>) -> (r: bool)
    ensures
        r == is_expected(mime@, views(formats@)),
{
    let mut i: usize = 0;
    while i < formats.len()
        invariant
            i <= formats@.len(),
            forall|j: int| 0 <= j < i ==> views(formats@)[j] != mime@,
        decreases formats@.len() - i,
    {
        if same_text(formats[i].as_str(), mime) {
            assert(views(formats@)[i as int] == mime@);
            return true;
        }
        i += 1;
    }
    let chars = chars_of(mime);
    proof {
        reveal_strlit("image/");
    }
    let ghost prefix = "image/"@;
    let r = chars.len() >= 6 && chars[0] == 'i' && chars[1] == 'm' && chars[2] == 'a' && chars[3]
        == 'g' && chars[4] == 'e' && chars[5] == '/';
    proof {
        if r {
            assert(mime@.take(6) =~= prefix);
        } else if chars@.len() >= 6 {
            assert(mime@.take(6)[0] == mime@[0]);
            assert(mime@.take(6)[1] == mime@[1]);
            assert(mime@.take(6)[2] == mime@[2]);
            assert(mime@.take(6)[3] == mime@[3]);
            assert(mime@.take(6)[4] == mime@[4]);
            assert(mime@.take(6)[5] == mime@[5]);
        }
    }
    r
}

/// The preprocessing part of a response: what the pipeline recorded,
/// unless the preset was `Off`.
pub fn preprocessing_stats(preset: Preset, preset_name: String, total_time_ms: u64, steps: Vec<
    StepTiming,
>) -> (r: Option<PreprocessingStats>)
    ensures
        r is Some <==> preset != Preset::Off,
        r is Some ==> r->0.preset == preset_name && r->0.total_time_ms == total_time_ms && r->0.steps
            == steps,
{
    if preset == Preset::Off {
        None
    } else {
        Some(PreprocessingStats { preset: preset_name, total_time_ms, steps })
    }
}

/// Puts a response together.
pub fn build_response(
    result: OcrResult,
    processing_time_ms: u64,
    engine: &str,
    preprocessing: Option<PreprocessingStats>,
) -> (response: OcrResponse)
    ensures
        response.text == result.text,
        response.confidence == result.confidence,
        response.processing_time_ms == processing_time_ms,
        response.warnings == result.warnings,
        response.engine@ == engine@,
        response.preprocessing == preprocessing,
{
    OcrResponse {
        text: result.text,
        confidence: result.confidence,
        processing_time_ms,
        warnings: result.warnings,
        engine: String::from_str(engine),
        preprocessing,
    }
}

/// The error with which recognition answers an image that preprocessing
/// rejects: the pipeline's error, wrapped once more.
pub open spec fn preprocessing_failure() -> ErrorModel {
    ErrorModel::PreprocessingError(
        "Preprocessing failed: "@ + ErrorModel::PreprocessingError(Step::Resize.failure()).message(),
    )
}

/// Whether `answer` is what recognition returns once the engine gave
/// `outcome` for the image prepared under `preset`: the engine's error as
/// it is, or the engine's result together with what preprocessing
/// recorded, which is absent under the preset `Off` and else names the
/// preset and its steps in order, with a total time that the times of the
/// steps do not exceed.
pub open spec fn answered(
    outcome: Result<OcrResult, OcrError>,
    preset: Preset,
    answer: Result<(OcrResult, Option<PreprocessingStats>), OcrError>,
) -> bool {
    match outcome {
        Err(error) => answer is Err && answer->Err_0 == error,
        Ok(result) => answer is Ok && answer->Ok_0.0 == result && (match answer->Ok_0.1 {
            None => preset == Preset::Off,
            Some(stats) => preset != Preset::Off && stats.preset@ == preset.name() && timings_name(
                stats.steps@,
                steps_of(preset),
            ) && total_step_time(stats.steps@) <= stats.total_time_ms,
        }),
    }
}

/// Whether `answer` is what recognition returns for an image under a
/// preset. An image that the pipeline rejects gives `preprocessing_failure`.
/// Any other image is prepared by the steps of the preset and handed to
/// the engine, and the answer is formed from what the engine gives for it.
pub open spec fn recognized<E: OcrEngine>(
    engine: &E,
    image: Raster,
    preset: Preset,
    answer: Result<(OcrResult, Option<PreprocessingStats>), OcrError>,
) -> bool {
    if resizes(preset) && (image.width == 0 || image.height == 0) {
        answer is Err && answer->Err_0@ == preprocessing_failure()
    } else {
        exists|prepared: PixelBuffer, outcome: Result<OcrResult, OcrError>|
            chain(steps_of(preset), image, prepared@) && #[trigger] call_ensures(
                E::process_image,
                (engine, &prepared),
                outcome,
            ) && answered(outcome, preset, answer)
    }
}

/// Preprocesses an image as the preset says and recognises its text.
///
/// Fails where preprocessing fails, with an error that says so, or where
/// the engine fails, with the engine's error.
pub fn recognize_image<E: OcrEngine>(engine: &E, image: PixelBuffer, preset: Preset) -> (r: Result<
    (OcrResult, Option<PreprocessingStats>),
    OcrError,
>)
    ensures
        recognized(engine, image@, preset, r),
{
    let pipeline = Pipeline::new(preset);
    let prepared = match pipeline.process(image) {
        Ok(prepared) => prepared,
        Err(error) => {
            let mut message = String::from_str("Preprocessing failed: ");
            message.append(error.message().as_str());
            return Err(OcrError::PreprocessingError(message));
        },
    };
    let outcome = engine.process_image(&prepared.image);
    let ghost given = outcome;
    let ghost handed = prepared.image;
    let result = match outcome {
        Ok(result) => result,
        Err(error) => {
            proof {
                assert(call_ensures(E::process_image, (engine, &handed), given));
                assert(answered(given, preset, Err(error)));
            }
            return Err(error);
        },
    };
    let stats = preprocessing_stats(
        preset,
        prepared.preset,
        prepared.total_time_ms,
        prepared.steps,
    );
    let answer = Ok((result, stats));
    proof {
        assert(call_ensures(E::process_image, (engine, &handed), given));
        assert(answered(given, preset, answer));
    }
    answer
}

/// The answer of the health endpoint.
pub fn handle_health(version: &str) -> (response: HealthResponse)
    ensures
        response.status@ == "ok"@,
        response.version@ == version@,
{
    HealthResponse { status: String::from_str("ok"), version: String::from_str(version) }
}

/// An engine's information as the info endpoint shows it.
pub fn engine_response(info: EngineInfo) -> (response: EngineInfoResponse)
    ensures
        response.name@ == info.name@,
        response.description@ == info.description@,
        response.supported_formats == info.supported_formats,
        response.supported_languages == info.supported_languages,
{
    EngineInfoResponse {
        name: String::from_str(info.name),
        description: String::from_str(info.description),
        supported_formats: info.supported_formats,
        supported_languages: info.supported_languages,
    }
}

/// The answer of the info endpoint.
pub fn handle_info(version: &str, engines: Vec<EngineInfo>, default_engine: &str, config: &Config) -> (response:
    InfoResponse)
    ensures
        response.version@ == version@,
        response.default_engine@ == default_engine@,
        response.max_file_size_bytes == config.max_file_size,
        response.default_language@ == config.default_language@,
        response.available_engines@.len() == engines@.len(),
        forall|i: int|
            0 <= i < engines@.len() ==> {
                let shown = #[trigger] response.available_engines@[i];
                &&& shown.name@ == engines@[i].name@
                &&& shown.description@ == engines@[i].description@
                &&& shown.supported_formats == engines@[i].supported_formats
                &&& shown.supported_languages == engines@[i].supported_languages
            },
{
    let mut engines = engines;
    let ghost all = engines@;
    let mut shown: Vec<EngineInfoResponse> = Vec::new();
    let mut rest: Vec<EngineInfo> = Vec::new();
    while engines.len() > 0
        invariant
            engines@.len() + rest@.len() == all.len(),
            forall|i: int| 0 <= i < engines@.len() ==> engines@[i] == all[i],
            forall|i: int|
                0 <= i < rest@.len() ==> #[trigger] rest@[i] == all[all.len() - 1 - i],
        decreases engines@.len(),
    {
        let last = engines.pop().unwrap();
        rest.push(last);
    }
    while rest.len() > 0
        invariant
            shown@.len() + rest@.len() == all.len(),
            forall|i: int|
                0 <= i < rest@.len() ==> #[trigger] rest@[i] == all[all.len() - 1 - i],
            forall|i: int|
                0 <= i < shown@.len() ==> {
                    let one = #[trigger] shown@[i];
                    &&& one.name@ == all[i].name@
                    &&& one.description@ == all[i].description@
                    &&& one.supported_formats == all[i].supported_formats
                    &&& one.supported_languages == all[i].supported_languages
                },
        decreases rest@.len(),
    {
        let next = rest.pop().unwrap();
        shown.push(engine_response(next));
    }
    InfoResponse {
        version: String::from_str(version),
        available_engines: shown,
        default_engine: String::from_str(default_engine),
        max_file_size_bytes: config.max_file_size,
        default_language: config.default_language.clone(),
    }
}

} // verus!

verus! {

/// Whether `answer` is what recognition returns for an upload. Bytes that
/// the codec does not accept give the error that says so. Otherwise the
/// answer is what recognition returns for an image that the codec makes of
/// the bytes, as RGB.
pub open spec fn recognized_upload<E: OcrEngine>(
    engine: &E,
    data: Seq<u8>,
    preset: Preset,
    answer: Result<(OcrResult, Option<PreprocessingStats>), OcrError>,
) -> bool {
    if decodes_as_image(data) {
        exists|image: Raster|
            decoded_from(data, image) && #[trigger] recognized(engine, image, preset, answer)
    } else {
        answer is Err && exists|detail: Seq<char>| #[trigger]
            load_failure(detail) == answer->Err_0@
    }
}

/// Decodes an uploaded image, preprocesses it as the preset says and
/// recognises its text.
///
/// Where decoding fails its error is the answer. Else the answer is what
/// `recognize_image` gives for the decoded image.
pub fn recognize_upload<E: OcrEngine>(engine: &E, data: &[u8], preset: Preset) -> (r: Result<
    (OcrResult, Option<PreprocessingStats>),
    OcrError,
>)
    ensures
        recognized_upload(engine, data@, preset, r),
{
    match PixelBuffer::decode(data) {
        Ok(image) => {
            let ghost decoded = image;
            let r = recognize_image(engine, image, preset);
            proof {
                assert(recognized(engine, decoded@, preset, r));
            }
            r
        },
        Err(error) => Err(error),
    }
}

} // verus!
