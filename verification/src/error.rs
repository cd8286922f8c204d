//! The error type shared by every component.

use crate::text::{decimal, decimal_digits};
use vstd::prelude::*;
use vstd::string::StringExecFns;

verus! {

/// What can go wrong while preparing or recognising a document.
#[derive(Debug, Clone, PartialEq, Eq)]
pub enum OcrError {
    /// A recognition backend could not be set up.
    InitializationError(String),
    /// A document or image could not be processed.
    ProcessingError(String),
    /// A preprocessing step failed; the payload names the step and the cause.
    PreprocessingError(String),
    /// The input format is not handled.
    UnsupportedFormat(String),
    /// The upload exceeds the configured limit.
    ImageTooLarge { size: usize, max: usize },
    /// The request carried no file.
    MissingFile,
    /// The request is malformed.
    InvalidRequest(String),
    /// Anything else.
    Internal(String),
}

/// Mathematical model of an `OcrError`: the same variants over sequences of
/// characters.
pub enum ErrorModel {
    InitializationError(Seq<char>),
    ProcessingError(Seq<char>),
    PreprocessingError(Seq<char>),
    UnsupportedFormat(Seq<char>),
    ImageTooLarge { size: usize, max: usize },
    MissingFile,
    InvalidRequest(Seq<char>),
    Internal(Seq<char>),
}

impl View for OcrError {
    type V = ErrorModel;

    open spec fn view(&self) -> ErrorModel {
        match self {
            OcrError::InitializationError(m) => ErrorModel::InitializationError(m@),
            OcrError::ProcessingError(m) => ErrorModel::ProcessingError(m@),
            OcrError::PreprocessingError(m) => ErrorModel::PreprocessingError(m@),
            OcrError::UnsupportedFormat(m) => ErrorModel::UnsupportedFormat(m@),
            OcrError::ImageTooLarge { size, max } => ErrorModel::ImageTooLarge {
                size: *size,
                max: *max,
            },
            OcrError::MissingFile => ErrorModel::MissingFile,
            OcrError::InvalidRequest(m) => ErrorModel::InvalidRequest(m@),
            OcrError::Internal(m) => ErrorModel::Internal(m@),
        }
    }
}

impl OcrError {
    /// A processing error with the given message.
    pub fn processing(message: &str) -> (e: OcrError)
        ensures
            e@ == ErrorModel::ProcessingError(message@),
    {
        OcrError::ProcessingError(String::from_str(message))
    }

    /// A preprocessing error with the given message.
    pub fn preprocessing(message: &str) -> (e: OcrError)
        ensures
            e@ == ErrorModel::PreprocessingError(message@),
    {
        OcrError::PreprocessingError(String::from_str(message))
    }
}

} // verus!

verus! {

/// What a client is told of an error.
#[derive(Debug, Clone, PartialEq, Eq)]
pub struct ErrorResponse {
    /// The error in words.
    pub error: String,
    /// A stable code for the kind of error.
    pub code: String,
}

impl ErrorModel {
    /// The error in words.
    pub open spec fn message(self) -> Seq<char> {
        match self {
            ErrorModel::InitializationError(m) => "Failed to initialize OCR engine: "@ + m,
            ErrorModel::ProcessingError(m) => "Failed to process image: "@ + m,
            ErrorModel::PreprocessingError(m) => "Preprocessing failed: "@ + m,
            ErrorModel::UnsupportedFormat(m) => "Unsupported image format: "@ + m,
            ErrorModel::ImageTooLarge { size, max } => "Image too large: "@ + decimal_digits(
                size as nat,
            ) + " bytes (max: "@ + decimal_digits(max as nat) + " bytes)"@,
            ErrorModel::MissingFile => "Missing file in request"@,
            ErrorModel::InvalidRequest(m) => "Invalid request: "@ + m,
            ErrorModel::Internal(m) => "Internal error: "@ + m,
        }
    }

    /// The HTTP status that the error is answered with: 413 for an upload
    /// that is too large, 400 for a fault of the request, 500 otherwise.
    pub open spec fn status(self) -> u16 {
        match self {
            ErrorModel::UnsupportedFormat(_) => 400,
            ErrorModel::ImageTooLarge { .. } => 413,
            ErrorModel::MissingFile => 400,
            ErrorModel::InvalidRequest(_) => 400,
            _ => 500,
        }
    }

    /// The stable code of the kind of error.
    pub open spec fn code(self) -> Seq<char> {
        match self {
            ErrorModel::InitializationError(_) => "INIT_ERROR"@,
            ErrorModel::ProcessingError(_) => "PROCESSING_ERROR"@,
            ErrorModel::PreprocessingError(_) => "PREPROCESSING_ERROR"@,
            ErrorModel::UnsupportedFormat(_) => "UNSUPPORTED_FORMAT"@,
            ErrorModel::ImageTooLarge { .. } => "IMAGE_TOO_LARGE"@,
            ErrorModel::MissingFile => "MISSING_FILE"@,
            ErrorModel::InvalidRequest(_) => "INVALID_REQUEST"@,
            ErrorModel::Internal(_) => "INTERNAL_ERROR"@,
        }
    }
}

/// A prefix followed by a detail.
fn prefixed(prefix: &str, detail: &String) -> (text: String)
    ensures
        text@ == prefix@ + detail@,
{
    let mut text = String::from_str(prefix);
    text.append(detail.as_str());
    text
}

impl OcrError {
    /// The error in words.
    pub fn message(&self) -> (text: String)
        ensures
            text@ == self@.message(),
    {
        match self {
            OcrError::InitializationError(m) => prefixed("Failed to initialize OCR engine: ", m),
            OcrError::ProcessingError(m) => prefixed("Failed to process image: ", m),
            OcrError::PreprocessingError(m) => prefixed("Preprocessing failed: ", m),
            OcrError::UnsupportedFormat(m) => prefixed("Unsupported image format: ", m),
            OcrError::ImageTooLarge { size, max } => {
                let mut text = String::from_str("Image too large: ");
                text.append(decimal(*size).as_str());
                text.append(" bytes (max: ");
                text.append(decimal(*max).as_str());
                text.append(" bytes)");
                text
            },
            OcrError::MissingFile => String::from_str("Missing file in request"),
            OcrError::InvalidRequest(m) => prefixed("Invalid request: ", m),
            OcrError::Internal(m) => prefixed("Internal error: ", m),
        }
    }

    /// The HTTP status that the error is answered with.
    pub fn status_code(&self) -> (status: u16)
        ensures
            status == self@.status(),
    {
        match self {
            OcrError::UnsupportedFormat(_) => 400,
            OcrError::ImageTooLarge { .. } => 413,
            OcrError::MissingFile => 400,
            OcrError::InvalidRequest(_) => 400,
            _ => 500,
        }
    }

    /// The stable code of the kind of error.
    pub fn code(&self) -> (code: &'static str)
        ensures
            code@ == self@.code(),
    {
        match self {
            OcrError::InitializationError(_) => "INIT_ERROR",
            OcrError::ProcessingError(_) => "PROCESSING_ERROR",
            OcrError::PreprocessingError(_) => "PREPROCESSING_ERROR",
            OcrError::UnsupportedFormat(_) => "UNSUPPORTED_FORMAT",
            OcrError::ImageTooLarge { .. } => "IMAGE_TOO_LARGE",
            OcrError::MissingFile => "MISSING_FILE",
            OcrError::InvalidRequest(_) => "INVALID_REQUEST",
            OcrError::Internal(_) => "INTERNAL_ERROR",
        }
    }

    /// The status and the body with which the error is answered.
    pub fn into_response(self) -> (r: (u16, ErrorResponse))
        ensures
            r.0 == self@.status(),
            r.1.error@ == self@.message(),
            r.1.code@ == self@.code(),
    {
        let status = self.status_code();
        let body = ErrorResponse { error: self.message(), code: String::from_str(self.code()) };
        (status, body)
    }
}

} // verus!
