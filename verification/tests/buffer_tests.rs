use activestorage_ocr::buffer::PixelBuffer;

#[test]
fn new_accepts_matching_sample_count() {
    let buffer = PixelBuffer::new(2, 3, 1, vec![0, 1, 2, 3, 4, 5]).unwrap();
    assert_eq!(buffer.width(), 2);
    assert_eq!(buffer.height(), 3);
    assert_eq!(buffer.channels(), 1);
    assert_eq!(buffer.get(1, 2, 0), Some(5));
    assert_eq!(buffer.get(2, 0, 0), None);
    assert_eq!(buffer.get(0, 3, 0), None);
    assert_eq!(buffer.get(0, 0, 1), None);
    assert_eq!(buffer.clone().into_samples(), vec![0, 1, 2, 3, 4, 5]);
}

#[test]
fn new_rejects_wrong_sample_count_or_channels() {
    assert!(PixelBuffer::new(2, 3, 1, vec![0; 5]).is_none());
    assert!(PixelBuffer::new(2, 3, 1, vec![0; 7]).is_none());
    assert!(PixelBuffer::new(2, 3, 2, vec![0; 12]).is_none());
    assert!(PixelBuffer::new(2, 3, 0, vec![]).is_none());
    assert!(PixelBuffer::new(2, 3, 3, vec![0; 18]).is_some());
    assert!(PixelBuffer::new(0, 0, 1, vec![]).is_some());
    assert!(PixelBuffer::new(u32::MAX, u32::MAX, 3, vec![]).is_none());
}

#[test]
fn samples_are_row_major_with_interleaved_channels() {
    let buffer = PixelBuffer::new(2, 2, 3, (0..12).collect()).unwrap();
    assert_eq!(buffer.get(0, 0, 0), Some(0));
    assert_eq!(buffer.get(0, 0, 2), Some(2));
    assert_eq!(buffer.get(1, 0, 0), Some(3));
    assert_eq!(buffer.get(0, 1, 1), Some(7));
    assert_eq!(buffer.get(1, 1, 2), Some(11));
}
