use activestorage_ocr::pdf::{
    classify_color_space, decode_image, decode_image_stream, decode_streams,
    extract_images_from_pdf, names_image, remove_ink_exec, resolve_color_space, scan_pdf, value_of,
    ImageStream, PdfColorSpace, PdfValue,
};
use lopdf::{Dictionary, Document, Object, Stream};

fn name(text: &str) -> Object {
    Object::Name(text.as_bytes().to_vec())
}

fn image_dict(width: i64, height: i64, color_space: Object) -> Dictionary {
    let mut dict = Dictionary::new();
    dict.set("Type", name("XObject"));
    dict.set("Subtype", name("Image"));
    dict.set("Width", Object::Integer(width));
    dict.set("Height", Object::Integer(height));
    dict.set("ColorSpace", color_space);
    dict.set("BitsPerComponent", Object::Integer(8));
    dict
}

fn document_with(build: impl FnOnce(&mut Document)) -> Document {
    let mut doc = Document::with_version("1.5");
    let pages_id = doc.new_object_id();
    let mut page = Dictionary::new();
    page.set("Type", name("Page"));
    page.set("Parent", Object::Reference(pages_id));
    let page_id = doc.add_object(Object::Dictionary(page));
    let mut pages = Dictionary::new();
    pages.set("Type", name("Pages"));
    pages.set("Kids", Object::Array(vec![Object::Reference(page_id)]));
    pages.set("Count", Object::Integer(1));
    doc.objects.insert(pages_id, Object::Dictionary(pages));
    let mut catalog = Dictionary::new();
    catalog.set("Type", name("Catalog"));
    catalog.set("Pages", Object::Reference(pages_id));
    let catalog_id = doc.add_object(Object::Dictionary(catalog));
    doc.trailer.set("Root", Object::Reference(catalog_id));
    build(&mut doc);
    doc
}

fn bytes_of(mut doc: Document) -> Vec<u8> {
    let mut bytes = Vec::new();
    doc.save_to(&mut bytes).unwrap();
    bytes
}

#[test]
fn extract_one_gray_image() {
    let data: Vec<u8> = (0..12u8).collect();
    let doc = document_with(|doc| {
        doc.add_object(Stream::new(image_dict(4, 3, name("DeviceGray")), data.clone()));
    });
    let images = extract_images_from_pdf(&bytes_of(doc)).unwrap();
    assert_eq!(images.len(), 1);
    assert_eq!(images[0].width(), 4);
    assert_eq!(images[0].height(), 3);
    assert_eq!(images[0].channels(), 1);
    assert_eq!(images[0].samples(), &data);
}

#[test]
fn extract_skips_a_malformed_image() {
    let doc = document_with(|doc| {
        // Too few bytes for 5 x 5 pixels.
        doc.add_object(Stream::new(image_dict(5, 5, name("DeviceGray")), vec![1, 2, 3]));
        doc.add_object(Stream::new(image_dict(2, 2, name("DeviceRGB")), vec![9; 12]));
    });
    let images = extract_images_from_pdf(&bytes_of(doc)).unwrap();
    assert_eq!(images.len(), 1);
    assert_eq!((images[0].width(), images[0].height(), images[0].channels()), (2, 2, 3));
    assert_eq!(images[0].samples(), &vec![9; 12]);
}

#[test]
fn extract_records_why_an_image_was_skipped() {
    let doc = document_with(|doc| {
        doc.add_object(Stream::new(image_dict(5, 5, name("DeviceGray")), vec![1, 2, 3]));
        doc.add_object(Stream::new(image_dict(1, 1, name("Lab")), vec![1, 2, 3]));
        doc.add_object(Stream::new(image_dict(1, 1, name("DeviceGray")), vec![7]));
    });
    let scan = scan_pdf(&bytes_of(doc)).unwrap();
    assert_eq!(scan.images.len(), 1);
    let reasons: Vec<String> = scan.skipped.iter().map(|e| e.message()).collect();
    assert_eq!(
        reasons,
        vec![
            "Failed to process image: Unsupported grayscale format: 8 bits, data_len=3, width=5, height=5",
            "Failed to process image: Unsupported color space: Lab",
        ]
    );
}

#[test]
fn extract_returns_images_in_object_order() {
    let doc = document_with(|doc| {
        doc.add_object(Stream::new(image_dict(1, 1, name("DeviceGray")), vec![10]));
        doc.add_object(Stream::new(image_dict(1, 2, name("DeviceGray")), vec![20, 21]));
        doc.add_object(Stream::new(image_dict(1, 3, name("DeviceGray")), vec![30, 31, 32]));
    });
    let images = extract_images_from_pdf(&bytes_of(doc)).unwrap();
    let heights: Vec<u32> = images.iter().map(|image| image.height()).collect();
    assert_eq!(heights, vec![1, 2, 3]);
}

#[test]
fn extract_without_images_is_empty() {
    let doc = document_with(|doc| {
        let mut dict = Dictionary::new();
        dict.set("Subtype", name("Form"));
        doc.add_object(Stream::new(dict, vec![1, 2, 3]));
    });
    assert!(extract_images_from_pdf(&bytes_of(doc)).unwrap().is_empty());
}

#[test]
fn extract_rejects_what_is_no_pdf() {
    let error = extract_images_from_pdf(b"this is no document").unwrap_err();
    assert!(error.message().starts_with("Failed to process image: Failed to load PDF: "));
    assert_eq!(error.code(), "PROCESSING_ERROR");
    assert!(extract_images_from_pdf(&[]).is_err());
}

#[test]
fn extract_reads_compressed_streams() {
    let data: Vec<u8> = (0..200u8).map(|i| i % 4).collect();
    let doc = document_with(|doc| {
        let mut stream = Stream::new(image_dict(20, 10, name("DeviceGray")), data.clone());
        stream.compress().unwrap();
        assert!(stream.dict.get(b"Filter").is_ok());
        doc.add_object(stream);
    });
    let images = extract_images_from_pdf(&bytes_of(doc)).unwrap();
    assert_eq!(images.len(), 1);
    assert_eq!(images[0].samples(), &data);
}

#[test]
fn extract_resolves_the_colour_space() {
    let doc = document_with(|doc| {
        // A reference to a name.
        let gray = doc.add_object(name("DeviceGray"));
        doc.add_object(Stream::new(image_dict(1, 1, Object::Reference(gray)), vec![5, 6, 7]));
        // A reference to an array whose first element names the space.
        let mut profile = Dictionary::new();
        profile.set("N", Object::Integer(3));
        let profile_id = doc.add_object(Stream::new(profile, vec![0; 4]));
        let array =
            doc.add_object(Object::Array(vec![name("ICCBased"), Object::Reference(profile_id)]));
        doc.add_object(Stream::new(image_dict(1, 1, Object::Reference(array)), vec![5, 6, 7]));
        // An array given directly.
        doc.add_object(Stream::new(
            image_dict(1, 1, Object::Array(vec![name("DeviceCMYK")])),
            vec![0, 0, 0, 0],
        ));
        // No colour space at all: RGB.
        let mut bare = image_dict(1, 1, Object::Null);
        bare.remove(b"ColorSpace");
        bare.remove(b"BitsPerComponent");
        doc.add_object(Stream::new(bare, vec![1, 2, 3]));
        // Something else than a name, a reference or an array: RGB.
        doc.add_object(Stream::new(image_dict(1, 1, Object::Integer(4)), vec![4, 5, 6]));
        // A profile of one component is not handled.
        let mut narrow = Dictionary::new();
        narrow.set("N", Object::Integer(1));
        let narrow_id = doc.add_object(Stream::new(narrow, vec![0; 4]));
        doc.add_object(Stream::new(
            image_dict(1, 1, Object::Array(vec![name("ICCBased"), Object::Reference(narrow_id)])),
            vec![1, 2, 3],
        ));
    });
    let images = extract_images_from_pdf(&bytes_of(doc)).unwrap();
    let found: Vec<(u8, Vec<u8>)> =
        images.iter().map(|image| (image.channels(), image.samples().clone())).collect();
    assert_eq!(
        found,
        vec![
            (1, vec![5]),
            (3, vec![5, 6, 7]),
            (3, vec![255, 255, 255]),
            (3, vec![1, 2, 3]),
            (3, vec![4, 5, 6]),
        ]
    );
}

#[test]
fn classify_names() {
    assert_eq!(classify_color_space("DeviceGray", None), PdfColorSpace::DeviceGray);
    assert_eq!(classify_color_space("DeviceRGB", Some(1)), PdfColorSpace::DeviceRGB);
    assert_eq!(classify_color_space("DeviceCMYK", None), PdfColorSpace::DeviceCMYK);
    assert_eq!(classify_color_space("ICCBased", None), PdfColorSpace::ICCBased(3));
    assert_eq!(classify_color_space("ICCBased", Some(4)), PdfColorSpace::ICCBased(4));
    assert_eq!(
        classify_color_space("Indexed", None),
        PdfColorSpace::Unknown("Indexed".to_string())
    );
    assert_eq!(
        classify_color_space("devicegray", None),
        PdfColorSpace::Unknown("devicegray".to_string())
    );
}

#[test]
fn decode_gray_and_rgb() {
    let gray =
        decode_image(Some(2), Some(2), Some(vec![1, 2, 3, 4, 5]), &PdfColorSpace::DeviceGray, None, "")
            .unwrap();
    assert_eq!((gray.width(), gray.height(), gray.channels()), (2, 2, 1));
    assert_eq!(gray.samples(), &vec![1, 2, 3, 4]);
    let rgb = decode_image(
        Some(1),
        Some(2),
        Some(vec![1, 2, 3, 4, 5, 6]),
        &PdfColorSpace::ICCBased(3),
        Some(8),
        "",
    )
    .unwrap();
    assert_eq!((rgb.width(), rgb.height(), rgb.channels()), (1, 2, 3));
    assert_eq!(rgb.samples(), &vec![1, 2, 3, 4, 5, 6]);
    let empty = decode_image(Some(0), Some(9), Some(vec![]), &PdfColorSpace::DeviceRGB, None, "");
    assert_eq!(empty.unwrap().samples().len(), 0);
}

#[test]
fn decode_cmyk_converts_each_pixel() {
    let data = vec![0, 0, 0, 0, 255, 0, 0, 0, 0, 0, 0, 255, 51, 102, 153, 51, 1, 2];
    let image =
        decode_image(Some(2), Some(2), Some(data), &PdfColorSpace::DeviceCMYK, None, "").unwrap();
    assert_eq!(image.channels(), 3);
    // (255 - c) * (255 - k) / 255, rounded down.
    assert_eq!(image.samples(), &vec![255, 255, 255, 0, 255, 255, 0, 0, 0, 163, 122, 81]);
    assert_eq!(remove_ink_exec(51, 51), 163);
    assert_eq!(remove_ink_exec(0, 0), 255);
    assert_eq!(remove_ink_exec(255, 0), 0);
    assert_eq!(remove_ink_exec(1, 1), 253);
}

#[test]
fn decode_says_why_it_fails() {
    let gray = PdfColorSpace::DeviceGray;
    let cases: Vec<(Option<i64>, Option<i64>, Option<Vec<u8>>, PdfColorSpace, Option<i64>, &str)> = vec![
        (None, Some(1), Some(vec![0]), gray.clone(), None, "Missing image width"),
        (Some(1), None, Some(vec![0]), gray.clone(), None, "Missing image height"),
        (Some(1), Some(1), None, gray.clone(), None, "Failed to decompress image: bad filter"),
        (Some(1), Some(1), Some(vec![0]), gray.clone(), Some(1), "Unsupported grayscale format: 1 bits, data_len=1, width=1, height=1"),
        (Some(2), Some(1), Some(vec![0]), gray.clone(), Some(8), "Unsupported grayscale format: 8 bits, data_len=1, width=2, height=1"),
        (Some(-1), Some(1), Some(vec![0]), gray.clone(), None, "Unsupported grayscale format: 8 bits, data_len=1, width=-1, height=1"),
        (Some(1), Some(1 << 32), Some(vec![0]), gray.clone(), None, "Unsupported grayscale format: 8 bits, data_len=1, width=1, height=4294967296"),
        (Some(1), Some(1), Some(vec![0, 0]), PdfColorSpace::DeviceRGB, None, "Unsupported RGB format: 8 bits, data_len=2, width=1, height=1"),
        (Some(1), Some(1), Some(vec![0; 3]), PdfColorSpace::DeviceCMYK, None, "Unsupported CMYK format: 8 bits, data_len=3, width=1, height=1"),
        (Some(1), Some(1), Some(vec![0; 3]), PdfColorSpace::DeviceRGB, Some(16), "Unsupported RGB format: 16 bits, data_len=3, width=1, height=1"),
        (Some(1), Some(1), Some(vec![0; 9]), PdfColorSpace::ICCBased(4), None, "Unsupported color space: ICCBased"),
        (
            Some(1),
            Some(1),
            Some(vec![0; 9]),
            PdfColorSpace::Unknown("Lab".to_string()),
            None,
            "Unsupported color space: Lab",
        ),
    ];
    for (width, height, content, space, bits, reason) in cases {
        let error = decode_image(width, height, content, &space, bits, "bad filter").unwrap_err();
        assert_eq!(error.message(), format!("Failed to process image: {}", reason));
    }
}

#[test]
fn colour_space_resolution_order() {
    let named = |text: &str| Some(PdfValue::Name(text.to_string()));
    let array = |head: Option<&str>, components: Option<i64>| {
        Some(PdfValue::Array { head: head.map(|h| h.to_string()), components })
    };
    let reference = Some(PdfValue::Reference(7, 0));
    // Absent: RGB.
    assert_eq!(resolve_color_space(&None, &None), PdfColorSpace::DeviceRGB);
    // A name stands for itself; a target is not looked at.
    assert_eq!(resolve_color_space(&named("DeviceGray"), &named("DeviceCMYK")), PdfColorSpace::DeviceGray);
    assert_eq!(
        resolve_color_space(&named("Separation"), &None),
        PdfColorSpace::Unknown("Separation".to_string())
    );
    // A reference stands for what it leads to.
    assert_eq!(resolve_color_space(&reference, &named("DeviceCMYK")), PdfColorSpace::DeviceCMYK);
    assert_eq!(
        resolve_color_space(&reference, &array(Some("ICCBased"), Some(3))),
        PdfColorSpace::ICCBased(3)
    );
    assert_eq!(
        resolve_color_space(&reference, &array(Some("ICCBased"), None)),
        PdfColorSpace::ICCBased(3)
    );
    assert_eq!(resolve_color_space(&reference, &None), PdfColorSpace::DeviceRGB);
    assert_eq!(resolve_color_space(&reference, &Some(PdfValue::Integer(1))), PdfColorSpace::DeviceRGB);
    assert_eq!(resolve_color_space(&reference, &array(None, Some(1))), PdfColorSpace::DeviceRGB);
    // An array stands for what its first element names.
    assert_eq!(resolve_color_space(&array(Some("DeviceGray"), None), &None), PdfColorSpace::DeviceGray);
    assert_eq!(
        resolve_color_space(&array(Some("ICCBased"), Some(4)), &None),
        PdfColorSpace::ICCBased(4)
    );
    assert_eq!(resolve_color_space(&array(None, None), &None), PdfColorSpace::DeviceRGB);
    // Anything else: RGB.
    assert_eq!(resolve_color_space(&Some(PdfValue::Other), &None), PdfColorSpace::DeviceRGB);
    assert_eq!(resolve_color_space(&Some(PdfValue::Integer(3)), &None), PdfColorSpace::DeviceRGB);
}

#[test]
fn image_streams_decode_from_what_was_read() {
    let entry = ImageStream {
        subtype: Some(PdfValue::Name("Image".to_string())),
        width: Some(2),
        height: Some(1),
        content: Some(vec![1, 2, 3, 4, 5, 6, 7]),
        cause: String::new(),
        color_space: None,
        color_space_target: None,
        bits_per_component: None,
    };
    let image = decode_image_stream(entry.clone()).unwrap();
    assert_eq!((image.width(), image.height(), image.channels()), (2, 1, 3));
    assert_eq!(image.samples(), &vec![1, 2, 3, 4, 5, 6]);
    let gray = ImageStream { color_space: Some(PdfValue::Name("DeviceGray".to_string())), ..entry.clone() };
    assert_eq!(decode_image_stream(gray).unwrap().samples(), &vec![1, 2]);
    let cmyk = ImageStream { color_space: Some(PdfValue::Name("DeviceCMYK".to_string())), ..entry };
    assert_eq!(
        decode_image_stream(cmyk).unwrap_err().message(),
        "Failed to process image: Unsupported CMYK format: 8 bits, data_len=7, width=2, height=1"
    );
    assert!(names_image(&Some(PdfValue::Name("Image".to_string()))));
    assert!(!names_image(&Some(PdfValue::Name("Form".to_string()))));
    assert!(!names_image(&Some(PdfValue::Integer(1))));
    assert!(!names_image(&None));
}

fn stream(subtype: &str, width: i64, height: i64, space: &str, content: Vec<u8>) -> ImageStream {
    ImageStream {
        subtype: Some(PdfValue::Name(subtype.to_string())),
        width: Some(width),
        height: Some(height),
        content: Some(content),
        cause: String::new(),
        color_space: Some(PdfValue::Name(space.to_string())),
        color_space_target: None,
        bits_per_component: Some(8),
    }
}

#[test]
fn streams_decode_in_order() {
    let entries = vec![
        stream("Image", 1, 1, "DeviceGray", vec![10]),
        stream("Form", 1, 1, "DeviceGray", vec![20]),
        stream("Image", 5, 5, "DeviceGray", vec![1, 2, 3]),
        stream("Image", 1, 2, "DeviceRGB", vec![1, 2, 3, 4, 5, 6]),
        ImageStream { subtype: None, ..stream("Image", 1, 1, "DeviceGray", vec![30]) },
        stream("Image", 1, 1, "Lab", vec![1, 2, 3]),
        stream("Image", 2, 1, "DeviceGray", vec![40, 41, 42]),
    ];
    let scan = decode_streams(entries);
    let found: Vec<(u32, u32, u8, Vec<u8>)> = scan
        .images
        .iter()
        .map(|i| (i.width(), i.height(), i.channels(), i.samples().clone()))
        .collect();
    assert_eq!(
        found,
        vec![
            (1, 1, 1, vec![10]),
            (1, 2, 3, vec![1, 2, 3, 4, 5, 6]),
            (2, 1, 1, vec![40, 41]),
        ]
    );
    let reasons: Vec<String> = scan.skipped.iter().map(|e| e.message()).collect();
    assert_eq!(reasons.len(), 2);
    assert!(reasons[0].starts_with("Failed to process image: Unsupported grayscale format"));
    assert!(reasons[1].starts_with("Failed to process image: Unsupported color space"));
}

#[test]
fn streams_without_images_give_nothing() {
    let none = decode_streams(vec![]);
    assert!(none.images.is_empty() && none.skipped.is_empty());
    let forms = decode_streams(vec![
        stream("Form", 1, 1, "DeviceGray", vec![1]),
        ImageStream { subtype: Some(PdfValue::Integer(1)), ..stream("Image", 1, 1, "DeviceGray", vec![1]) },
    ]);
    assert!(forms.images.is_empty() && forms.skipped.is_empty());
}

#[test]
fn one_gray_stream_gives_one_image() {
    let scan = decode_streams(vec![stream("Image", 3, 2, "DeviceGray", vec![1, 2, 3, 4, 5, 6])]);
    assert_eq!(scan.images.len(), 1);
    assert_eq!((scan.images[0].width(), scan.images[0].height()), (3, 2));
    assert_eq!(scan.images[0].channels(), 1);
    assert!(scan.skipped.is_empty());
}

#[test]
fn a_malformed_stream_beside_a_valid_one_is_skipped() {
    let malformed = ImageStream { width: None, ..stream("Image", 0, 2, "DeviceRGB", vec![0; 12]) };
    let valid = stream("Image", 2, 2, "DeviceRGB", vec![7; 12]);
    for entries in [vec![malformed.clone(), valid.clone()], vec![valid, malformed]] {
        let scan = decode_streams(entries);
        assert_eq!(scan.images.len(), 1);
        assert_eq!(scan.images[0].samples(), &vec![7; 12]);
        assert_eq!(scan.images[0].channels(), 3);
        assert_eq!(scan.skipped.len(), 1);
        assert_eq!(scan.skipped[0].message(), "Failed to process image: Missing image width");
    }
}

#[test]
fn values_are_read_in_order_of_precedence() {
    let name = Some("N".to_string());
    let array = Some((Some("Head".to_string()), Some(4)));
    assert_eq!(
        value_of(name.clone(), Some(1), Some((2, 3)), array.clone()),
        PdfValue::Name("N".to_string())
    );
    assert_eq!(value_of(None, Some(1), Some((2, 3)), array.clone()), PdfValue::Integer(1));
    assert_eq!(value_of(None, None, Some((2, 3)), array.clone()), PdfValue::Reference(2, 3));
    assert_eq!(
        value_of(None, None, None, array),
        PdfValue::Array { head: Some("Head".to_string()), components: Some(4) }
    );
    assert_eq!(value_of(None, None, None, None), PdfValue::Other);
}

#[test]
fn extract_reports_why_decompression_failed() {
    let doc = document_with(|doc| {
        let mut dict = image_dict(1, 1, name("DeviceGray"));
        dict.set("Filter", name("ASCII85Decode"));
        // A `z` in the middle of a group is no ASCII85.
        doc.add_object(Stream::new(dict, b"abz~>".to_vec()));
        doc.add_object(Stream::new(image_dict(1, 1, name("DeviceGray")), vec![9]));
    });
    let scan = scan_pdf(&bytes_of(doc)).unwrap();
    assert_eq!(scan.images.len(), 1);
    assert_eq!(scan.images[0].samples(), &vec![9]);
    assert_eq!(scan.skipped.len(), 1);
    let reason = scan.skipped[0].message();
    let prefix = "Failed to process image: Failed to decompress image: ";
    assert!(reason.starts_with(prefix), "{}", reason);
    assert!(reason.len() > prefix.len(), "{}", reason);
}
