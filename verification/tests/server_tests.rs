use activestorage_ocr::buffer::PixelBuffer;
use activestorage_ocr::config::{Args, Config};
use activestorage_ocr::engine::{
    assemble_lines, combine_pages, direct_text, engine_info, fallback_result, has_pdf_magic,
    heuristic_result,
    is_pdf, native_result, process_pdf, standard_formats, tessdata_url, tesseract_languages,
    traineddata_file, ConfidenceSource, EngineInfo, EngineRegistry, OcrEngine, OcrResult,
};
use activestorage_ocr::error::OcrError;
use activestorage_ocr::preprocessing::pipeline::Preset;
use activestorage_ocr::server::{
    build_response, check_upload, content_type_of, handle_health, handle_info,
    is_expected_content_type, is_pdf_upload, preprocessing_stats, recognize_image,
    recognize_upload, select_preset, OcrQueryParams,
};
use activestorage_ocr::text::{decimal, decimal_wide, join, signed_decimal};

struct Fixed;

impl OcrEngine for Fixed {
    fn name(&self) -> &'static str {
        "fixed"
    }

    fn description(&self) -> &'static str {
        "Reports the size of the image"
    }

    fn process_image(&self, image: &PixelBuffer) -> Result<OcrResult, OcrError> {
        if image.width() == 13 {
            return Err(OcrError::ProcessingError("unlucky".to_string()));
        }
        let text = if image.width() == 1 {
            String::new()
        } else {
            format!("{} by {} in {}", image.width(), image.height(), image.channels())
        };
        Ok(OcrResult { text, confidence: 100_000 * image.width(), warnings: vec![] })
    }

    fn supported_formats(&self) -> Vec<String> {
        standard_formats()
    }

    fn supported_languages(&self) -> Vec<String> {
        vec!["eng".to_string()]
    }
}

fn page(text: &str, confidence: u32) -> Result<OcrResult, OcrError> {
    Ok(OcrResult { text: text.to_string(), confidence, warnings: vec![] })
}

fn png_of(width: u32, height: u32) -> Vec<u8> {
    let image = image::RgbImage::from_pixel(width, height, image::Rgb([200, 100, 50]));
    let mut bytes = std::io::Cursor::new(Vec::new());
    image.write_to(&mut bytes, image::ImageFormat::Png).unwrap();
    bytes.into_inner()
}

fn pdf_with_gray_images(widths: &[u32]) -> Vec<u8> {
    let mut doc = lopdf::Document::with_version("1.5");
    for width in widths {
        let mut dict = lopdf::Dictionary::new();
        dict.set("Subtype", lopdf::Object::Name(b"Image".to_vec()));
        dict.set("Width", lopdf::Object::Integer(*width as i64));
        dict.set("Height", lopdf::Object::Integer(2));
        dict.set("ColorSpace", lopdf::Object::Name(b"DeviceGray".to_vec()));
        doc.add_object(lopdf::Stream::new(dict, vec![0; 2 * *width as usize]));
    }
    let mut catalog = lopdf::Dictionary::new();
    catalog.set("Type", lopdf::Object::Name(b"Catalog".to_vec()));
    let catalog_id = doc.add_object(lopdf::Object::Dictionary(catalog));
    doc.trailer.set("Root", lopdf::Object::Reference(catalog_id));
    let mut bytes = Vec::new();
    doc.save_to(&mut bytes).unwrap();
    bytes
}

#[test]
fn error_messages_codes_and_statuses() {
    let cases = vec![
        (
            OcrError::InitializationError("x".to_string()),
            "Failed to initialize OCR engine: x",
            "INIT_ERROR",
            500,
        ),
        (OcrError::ProcessingError("x".to_string()), "Failed to process image: x", "PROCESSING_ERROR", 500),
        (
            OcrError::PreprocessingError("x".to_string()),
            "Preprocessing failed: x",
            "PREPROCESSING_ERROR",
            500,
        ),
        (
            OcrError::UnsupportedFormat("x".to_string()),
            "Unsupported image format: x",
            "UNSUPPORTED_FORMAT",
            400,
        ),
        (
            OcrError::ImageTooLarge { size: 52428801, max: 52428800 },
            "Image too large: 52428801 bytes (max: 52428800 bytes)",
            "IMAGE_TOO_LARGE",
            413,
        ),
        (OcrError::MissingFile, "Missing file in request", "MISSING_FILE", 400),
        (OcrError::InvalidRequest("x".to_string()), "Invalid request: x", "INVALID_REQUEST", 400),
        (OcrError::Internal("x".to_string()), "Internal error: x", "INTERNAL_ERROR", 500),
    ];
    for (error, message, code, status) in cases {
        assert_eq!(error.message(), message);
        assert_eq!(error.code(), code);
        assert_eq!(error.status_code(), status);
        let (answered, body) = error.into_response();
        assert_eq!(answered, status);
        assert_eq!(body.error, message);
        assert_eq!(body.code, code);
    }
}

#[test]
fn decimal_and_join() {
    assert_eq!(decimal(0), "0");
    assert_eq!(decimal(7), "7");
    assert_eq!(decimal(10), "10");
    assert_eq!(decimal(9292), "9292");
    assert_eq!(decimal(usize::MAX), usize::MAX.to_string());
    assert_eq!(decimal_wide(u128::MAX), u128::MAX.to_string());
    assert_eq!(signed_decimal(0), "0");
    assert_eq!(signed_decimal(-7), "-7");
    assert_eq!(signed_decimal(i64::MIN), i64::MIN.to_string());
    assert_eq!(signed_decimal(i64::MAX), i64::MAX.to_string());
    assert_eq!(join(&vec![], ", "), "");
    assert_eq!(join(&vec!["a".to_string()], ", "), "a");
    assert_eq!(join(&vec!["a".to_string(), "".to_string(), "c".to_string()], ", "), "a, , c");
}

#[test]
fn config_from_args() {
    let args = Args {
        host: "127.0.0.1".to_string(),
        port: 9292,
        default_language: "eng".to_string(),
        max_file_size: 52428800,
        tessdata_path: Some("/data".to_string()),
        log_level: "info".to_string(),
    };
    let config = Config::from(args);
    assert_eq!(config.host, "127.0.0.1");
    assert_eq!(config.port, 9292);
    assert_eq!(config.default_language, "eng");
    assert_eq!(config.max_file_size, 52428800);
    assert_eq!(config.tessdata_path, Some("/data".to_string()));
    assert_eq!(config.address(), "127.0.0.1:9292");
}

#[test]
fn upload_checks() {
    assert_eq!(check_upload(None, 10), Err(OcrError::MissingFile));
    assert_eq!(check_upload(Some(11), 10), Err(OcrError::ImageTooLarge { size: 11, max: 10 }));
    assert_eq!(check_upload(Some(10), 10), Ok(10));
    assert_eq!(check_upload(Some(0), 0), Ok(0));
    assert_eq!(content_type_of(None), "application/octet-stream");
    assert_eq!(content_type_of(Some("image/png".to_string())), "image/png");
}

#[test]
fn preset_selection() {
    assert_eq!(select_preset(&OcrQueryParams::default()), Ok(Preset::Default));
    let named = |name: &str| select_preset(&OcrQueryParams { preprocess: Some(name.to_string()) });
    assert_eq!(named("none"), Ok(Preset::Off));
    assert_eq!(named("Aggressive"), Ok(Preset::Aggressive));
    assert_eq!(
        named("turbo"),
        Err(OcrError::InvalidRequest(
            "Unknown preprocessing preset 'turbo'. Valid: none, minimal, default, aggressive"
                .to_string()
        ))
    );
}

#[test]
fn pdf_detection() {
    assert!(has_pdf_magic(b"%PDF-1.7"));
    assert!(has_pdf_magic(b"%PDF-"));
    assert!(!has_pdf_magic(b"%PDF"));
    assert!(!has_pdf_magic(b"%PDf-1.7"));
    assert!(!has_pdf_magic(b""));
    assert!(is_pdf(Some("PDF"), b""));
    assert!(is_pdf(Some("pdf"), b"junk"));
    assert!(is_pdf(Some("bin"), b"%PDF-1.4"));
    assert!(is_pdf(None, b"%PDF-1.4"));
    assert!(!is_pdf(Some("png"), b"\x89PNG"));
    assert!(!is_pdf(None, b""));
    assert!(is_pdf_upload("application/pdf", b""));
    assert!(is_pdf_upload("image/png", b"%PDF-1.4"));
    assert!(!is_pdf_upload("image/png", b"\x89PNG"));
}

#[test]
fn expected_content_types() {
    let formats = standard_formats();
    assert_eq!(formats.len(), 7);
    assert!(is_expected_content_type("application/pdf", &formats));
    assert!(is_expected_content_type("image/png", &formats));
    assert!(is_expected_content_type("image/x-unknown", &formats));
    assert!(is_expected_content_type("image/", &formats));
    assert!(!is_expected_content_type("image", &formats));
    assert!(!is_expected_content_type("text/plain", &formats));
    assert!(!is_expected_content_type("", &formats));
    assert!(is_expected_content_type("text/plain", &vec!["text/plain".to_string()]));
}

#[test]
fn direct_text_needs_more_than_ten_bytes() {
    assert_eq!(direct_text("  hello world  \n"), Some("hello world".to_string()));
    assert_eq!(direct_text("\t0123456789 "), None);
    assert_eq!(direct_text(""), None);
    assert_eq!(direct_text("           "), None);
    // Four characters of three bytes each: twelve bytes.
    assert_eq!(direct_text(" €€€€ "), Some("€€€€".to_string()));
    // Whitespace inside stays, and so does what is no whitespace at the ends.
    assert_eq!(
        direct_text("\u{3000}\u{a0} a  b\tc d e f g\u{2028}\n"),
        Some("a  b\tc d e f g".to_string())
    );
    assert_eq!(direct_text("\u{200b} 0123456789"), Some("\u{200b} 0123456789".to_string()));
}

#[test]
fn pages_are_joined_by_a_blank_line() {
    let pages = vec![
        page("first", 900_000),
        page("", 100_000),
        Err(OcrError::ProcessingError("no luck".to_string())),
        page("second", 600_000),
    ];
    let result = combine_pages(&pages, ConfidenceSource::Native, vec!["before".to_string()]);
    assert_eq!(result.text, "first\n\nsecond");
    assert_eq!(result.confidence, 750_000);
    assert_eq!(
        result.warnings,
        vec!["before", "Failed to OCR image 3: Failed to process image: no luck"]
    );
    let heuristic = combine_pages(&pages, ConfidenceSource::Heuristic, vec![]);
    assert_eq!(heuristic.text, "first\n\nsecond");
    assert_eq!(
        heuristic.confidence,
        activestorage_ocr::confidence::calculate_confidence("first\n\nsecond")
    );
}

#[test]
fn pages_without_text_give_no_confidence() {
    let pages = vec![page("", 900_000), Err(OcrError::MissingFile)];
    let result = combine_pages(&pages, ConfidenceSource::Native, vec![]);
    assert_eq!(result.text, "");
    assert_eq!(result.confidence, 0);
    assert_eq!(result.warnings, vec!["Failed to OCR image 2: Missing file in request"]);
    assert_eq!(combine_pages(&vec![], ConfidenceSource::Heuristic, vec![]).confidence, 0);
}

#[test]
fn pdf_with_a_text_layer_is_not_scanned() {
    let result =
        process_pdf(&Fixed, "  A document with text.  ", b"not even a pdf", ConfidenceSource::Heuristic)
            .unwrap();
    assert_eq!(result.text, "A document with text.");
    assert_eq!(result.confidence, 950_000);
    assert!(result.warnings.is_empty());
}

#[test]
fn pdf_without_a_text_layer_is_scanned() {
    let bytes = pdf_with_gray_images(&[4, 1, 13, 6]);
    let result = process_pdf(&Fixed, "  short ", &bytes, ConfidenceSource::Native).unwrap();
    assert_eq!(result.text, "4 by 2 in 1\n\n6 by 2 in 1");
    assert_eq!(result.confidence, 500_000);
    assert_eq!(
        result.warnings,
        vec![
            "PDF appears to be scanned/image-based, extracting images for OCR",
            "Failed to OCR image 3: Failed to process image: unlucky",
        ]
    );
}

#[test]
fn pdf_without_text_or_images() {
    let bytes = pdf_with_gray_images(&[]);
    let result = process_pdf(&Fixed, "", &bytes, ConfidenceSource::Heuristic).unwrap();
    assert_eq!(result.text, "");
    assert_eq!(result.confidence, 0);
    assert_eq!(result.warnings, vec!["No text or images found in PDF"]);
    assert!(process_pdf(&Fixed, "", b"junk", ConfidenceSource::Heuristic).is_err());
}

#[test]
fn images_are_preprocessed_before_recognition() {
    let image = PixelBuffer::new(4, 2, 3, vec![50; 24]).unwrap();
    let (result, stats) = recognize_image(&Fixed, image.clone(), Preset::Off).unwrap();
    assert_eq!(result.text, "4 by 2 in 3");
    assert!(stats.is_none());
    let (result, stats) = recognize_image(&Fixed, image.clone(), Preset::Minimal).unwrap();
    assert_eq!(result.text, "4 by 2 in 1");
    let stats = stats.unwrap();
    assert_eq!(stats.preset, "minimal");
    assert_eq!(stats.steps.len(), 1);
    let (result, _) = recognize_image(&Fixed, image, Preset::Default).unwrap();
    assert_eq!(result.text, "600 by 300 in 1");
    let empty = PixelBuffer::new(0, 0, 1, vec![]).unwrap();
    assert_eq!(
        recognize_image(&Fixed, empty, Preset::Default).unwrap_err().message(),
        "Preprocessing failed: Preprocessing failed: Preprocessing failed: resize: empty image"
    );
}

#[test]
fn uploads_are_decoded() {
    let decoded = PixelBuffer::decode(&png_of(5, 3)).unwrap();
    assert_eq!((decoded.width(), decoded.height(), decoded.channels()), (5, 3, 3));
    assert!(decoded.samples().chunks(3).all(|p| p == [200, 100, 50]));
    let (result, stats) = recognize_upload(&Fixed, &png_of(5, 3), Preset::Off).unwrap();
    assert_eq!(result.text, "5 by 3 in 3");
    assert!(stats.is_none());
    let error = recognize_upload(&Fixed, b"no image", Preset::Off).unwrap_err();
    assert_eq!(error.code(), "PREPROCESSING_ERROR");
    assert!(error.message().starts_with("Preprocessing failed: Failed to load image: "));
}

#[test]
fn responses() {
    let stats = preprocessing_stats(Preset::Minimal, "minimal".to_string(), 3, vec![]);
    assert_eq!(stats.as_ref().unwrap().total_time_ms, 3);
    assert!(preprocessing_stats(Preset::Off, "none".to_string(), 0, vec![]).is_none());
    let result =
        OcrResult { text: "text".to_string(), confidence: 5, warnings: vec!["w".to_string()] };
    let response = build_response(result, 17, "fixed", stats.clone());
    assert_eq!(response.text, "text");
    assert_eq!(response.confidence, 5);
    assert_eq!(response.processing_time_ms, 17);
    assert_eq!(response.warnings, vec!["w"]);
    assert_eq!(response.engine, "fixed");
    assert_eq!(response.preprocessing, stats);
    let health = handle_health("1.2.3");
    assert_eq!((health.status.as_str(), health.version.as_str()), ("ok", "1.2.3"));
}

#[test]
fn info_lists_the_engines_in_order() {
    let config = Config {
        host: "h".to_string(),
        port: 1,
        default_language: "deu".to_string(),
        max_file_size: 99,
        tessdata_path: None,
    };
    let first = engine_info(&Fixed);
    assert_eq!(first.name, "fixed");
    assert_eq!(first.supported_languages, vec!["eng"]);
    let second = EngineInfo {
        name: "other",
        description: "Another",
        supported_formats: vec![],
        supported_languages: vec![],
    };
    let info = handle_info("0.1.0", vec![first, second], "fixed", &config);
    assert_eq!(info.version, "0.1.0");
    assert_eq!(info.default_engine, "fixed");
    assert_eq!(info.max_file_size_bytes, 99);
    assert_eq!(info.default_language, "deu");
    let names: Vec<&str> = info.available_engines.iter().map(|e| e.name.as_str()).collect();
    assert_eq!(names, vec!["fixed", "other"]);
    assert_eq!(info.available_engines[0].supported_formats.len(), 7);
}

struct Named(&'static str);

impl OcrEngine for Named {
    fn name(&self) -> &'static str {
        self.0
    }

    fn description(&self) -> &'static str {
        "An engine with a name"
    }

    fn process_image(&self, _image: &PixelBuffer) -> Result<OcrResult, OcrError> {
        Ok(OcrResult { text: self.0.to_string(), confidence: 0, warnings: vec![] })
    }

    fn supported_formats(&self) -> Vec<String> {
        vec![]
    }

    fn supported_languages(&self) -> Vec<String> {
        vec![self.0.to_string()]
    }
}

#[test]
fn registry_finds_engines_by_name() {
    let registry =
        EngineRegistry::new(vec![Named("first"), Named("second"), Named("first")]).unwrap();
    assert_eq!(registry.default_name(), "first");
    assert_eq!(registry.default().unwrap().name(), "first");
    assert_eq!(registry.get("second").unwrap().supported_languages(), vec!["second"]);
    assert!(registry.get("third").is_none());
    assert!(registry.get("").is_none());
    assert_eq!(registry.list(), vec!["first", "second", "first"]);
    let infos = registry.info();
    assert_eq!(infos.len(), 3);
    assert_eq!(infos[1].name, "second");
    assert_eq!(infos[1].description, "An engine with a name");
}

#[test]
fn registry_needs_an_engine() {
    let error = EngineRegistry::<Named>::new(vec![]).err().unwrap();
    assert_eq!(error.message(), "Failed to initialize OCR engine: No OCR engines available");
    assert_eq!(error.status_code(), 500);
}

#[test]
fn recognised_lines_are_assembled() {
    let words = |list: &[&str]| Some(list.iter().map(|w| w.to_string()).collect::<Vec<_>>());
    let lines = vec![words(&["Hello", "World"]), None, words(&[]), words(&["OCR"])];
    assert_eq!(assemble_lines(&lines), "Hello World\n\nOCR");
    assert_eq!(assemble_lines(&vec![]), "");
    let result = heuristic_result("Hello World OCR Test 12345".to_string());
    assert_eq!(result.confidence, 996_922);
    assert!(result.warnings.is_empty());
    let native = native_result("  some text \n", 87);
    assert_eq!(native.text, "some text");
    assert_eq!(native.confidence, 870_000);
    assert_eq!(native_result("", -1).confidence, 0);
    assert_eq!(native_result("", 101).confidence, 1_000_000);
}

#[test]
fn training_data_locations() {
    assert_eq!(
        tessdata_url("deu"),
        "https://github.com/tesseract-ocr/tessdata_fast/raw/main/deu.traineddata"
    );
    assert_eq!(traineddata_file("eng"), "eng.traineddata");
    let languages = tesseract_languages();
    assert_eq!(languages.len(), 13);
    assert_eq!(languages[0], "eng");
    assert_eq!(languages[8], "chi_sim");
    assert_eq!(languages[12], "rus");
}

#[test]
fn buffers_convert_to_rgb() {
    let gray = PixelBuffer::new(2, 1, 1, vec![7, 9]).unwrap();
    assert_eq!(gray.to_rgb8(), vec![7, 7, 7, 9, 9, 9]);
    let rgb = PixelBuffer::new(1, 1, 3, vec![1, 2, 3]).unwrap();
    assert_eq!(rgb.to_rgb8(), vec![1, 2, 3]);
}

#[test]
fn fallback_without_pages_finds_nothing() {
    for source in [ConfidenceSource::Heuristic, ConfidenceSource::Native] {
        let result = fallback_result(&vec![], source);
        assert_eq!(result.text, "");
        assert_eq!(result.confidence, 0);
        assert_eq!(result.warnings, vec!["No text or images found in PDF"]);
    }
}

#[test]
fn fallback_with_pages_combines_them() {
    let pages = vec![
        page("one", 400_000),
        Err(OcrError::ProcessingError("bad".to_string())),
        page("two", 800_000),
    ];
    let result = fallback_result(&pages, ConfidenceSource::Native);
    assert_eq!(result.text, "one\n\ntwo");
    assert_eq!(result.confidence, 600_000);
    assert_eq!(
        result.warnings,
        vec![
            "PDF appears to be scanned/image-based, extracting images for OCR",
            "Failed to OCR image 2: Failed to process image: bad",
        ]
    );
    let silent = fallback_result(&vec![page("", 900_000)], ConfidenceSource::Native);
    assert_eq!(silent.text, "");
    assert_eq!(silent.confidence, 0);
    assert_eq!(
        silent.warnings,
        vec!["PDF appears to be scanned/image-based, extracting images for OCR"]
    );
}
