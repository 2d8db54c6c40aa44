use imv_tui::raw::{
    exif_oriented_dimensions, extract_jpeg_preview, extract_jpeg_thumbnail, fuji_meta_range,
    get_exif_orientation, get_fuji_raf_dimensions, is_tiff, orientation_from_code, oriented_dims,
    raw_preview_range, segment_length_error, swaps_axes, Orientation,
};

fn entry(out: &mut Vec<u8>, tag: u16, typ: u16, value: u32) {
    out.extend_from_slice(&tag.to_le_bytes());
    out.extend_from_slice(&typ.to_le_bytes());
    out.extend_from_slice(&1u32.to_le_bytes());
    if typ == 3 {
        out.extend_from_slice(&(value as u16).to_le_bytes());
        out.extend_from_slice(&[0, 0]);
    } else {
        out.extend_from_slice(&value.to_le_bytes());
    }
}

/// A little-endian TIFF block with one IFD: width 4000, height 3000,
/// orientation 6 and an embedded 4-byte "JPEG" right after the IFD.
fn tiff_with_preview() -> Vec<u8> {
    let mut b = vec![0x49, 0x49, 0x2A, 0x00, 8, 0, 0, 0];
    b.extend_from_slice(&5u16.to_le_bytes());
    entry(&mut b, 0x0100, 3, 4000);
    entry(&mut b, 0x0101, 3, 3000);
    entry(&mut b, 0x0112, 3, 6);
    entry(&mut b, 0x0201, 4, 74);
    entry(&mut b, 0x0202, 4, 4);
    b.extend_from_slice(&0u32.to_le_bytes());
    assert_eq!(b.len(), 74);
    b.extend_from_slice(b"JPEG");
    b
}

#[test]
fn test_fuji_raf_dimensions_parser() {
    let mut mock_data = [0u8; 200];
    mock_data[0..8].copy_from_slice(b"FUJIFILM");
    // Meta container offset = 100, length = 100
    mock_data[92..96].copy_from_slice(&100u32.to_be_bytes());
    mock_data[96..100].copy_from_slice(&100u32.to_be_bytes());

    // Inside Meta Container: offset 100
    // num_records = 1
    mock_data[100..104].copy_from_slice(&1u32.to_be_bytes());
    // Record 0: tag_id = 0x0111, tag_len = 4
    mock_data[104..106].copy_from_slice(&0x0111u16.to_be_bytes());
    mock_data[106..108].copy_from_slice(&4u16.to_be_bytes());
    // Data: height = 6192, width = 8256
    mock_data[108..110].copy_from_slice(&6192u16.to_be_bytes());
    mock_data[110..112].copy_from_slice(&8256u16.to_be_bytes());

    let res = get_fuji_raf_dimensions(&mock_data[100..]);
    assert_eq!(res, Some((8256, 6192)));

    assert_eq!(fuji_meta_range(&mock_data), Some((100, 100)));
}

#[test]
fn fuji_dimensions_prefer_cropped_then_image_then_full() {
    let mut c = Vec::new();
    c.extend_from_slice(&2u32.to_be_bytes());
    // full size 0x0100: 4000 x 6000 (height, width)
    c.extend_from_slice(&0x0100u16.to_be_bytes());
    c.extend_from_slice(&4u16.to_be_bytes());
    c.extend_from_slice(&4000u16.to_be_bytes());
    c.extend_from_slice(&6000u16.to_be_bytes());
    // image size 0x0121: 3000 x 5000
    c.extend_from_slice(&0x0121u16.to_be_bytes());
    c.extend_from_slice(&4u16.to_be_bytes());
    c.extend_from_slice(&3000u16.to_be_bytes());
    c.extend_from_slice(&5000u16.to_be_bytes());
    assert_eq!(get_fuji_raf_dimensions(&c), Some((5000, 3000)));

    // only the first record is counted
    c[3] = 1;
    assert_eq!(get_fuji_raf_dimensions(&c), Some((6000, 4000)));

    assert_eq!(get_fuji_raf_dimensions(&[0, 0, 0]), None);
    assert_eq!(get_fuji_raf_dimensions(&[0, 0, 0, 0]), None);
}

#[test]
fn test_raf_preview_extraction() {
    let mut raf_bytes = vec![0u8; 100];
    // Write Fuji magic signature
    raf_bytes[0..8].copy_from_slice(b"FUJIFILM");

    // Write JPEG offset = 92
    let offset = 92u32.to_be_bytes();
    raf_bytes[84..88].copy_from_slice(&offset);

    // Write JPEG length = 4
    let length = 4u32.to_be_bytes();
    raf_bytes[88..92].copy_from_slice(&length);

    // Write mock JPEG bytes
    raf_bytes[92..96].copy_from_slice(b"JPEG");

    let extracted = extract_jpeg_thumbnail(&raf_bytes).unwrap();
    assert_eq!(extracted, b"JPEG");

    assert_eq!(extract_jpeg_preview(&raf_bytes).unwrap(), b"JPEG");
    assert_eq!(raw_preview_range(&raf_bytes), Some((92, 4)));
}

#[test]
fn raf_preview_out_of_bounds_is_none() {
    let mut raf_bytes = vec![0u8; 100];
    raf_bytes[0..8].copy_from_slice(b"FUJIFILM");
    raf_bytes[84..88].copy_from_slice(&98u32.to_be_bytes());
    raf_bytes[88..92].copy_from_slice(&4u32.to_be_bytes());
    assert!(extract_jpeg_thumbnail(&raf_bytes).is_none());
    assert_eq!(raw_preview_range(&raf_bytes), Some((98, 4)));
}

#[test]
fn test_empty_or_corrupt_exif() {
    let empty_bytes: &[u8] = &[];
    assert_eq!(get_exif_orientation(empty_bytes), Orientation::NoTransforms);
    assert!(extract_jpeg_thumbnail(empty_bytes).is_none());

    let corrupt_bytes: &[u8] = &[0x01, 0x02, 0x03, 0x04];
    assert_eq!(get_exif_orientation(corrupt_bytes), Orientation::NoTransforms);
    assert!(extract_jpeg_thumbnail(corrupt_bytes).is_none());
}

#[test]
fn tiff_exif_fields_are_read() {
    let t = tiff_with_preview();
    assert!(is_tiff(&t));
    assert_eq!(get_exif_orientation(&t), Orientation::Rotate90);
    assert_eq!(exif_oriented_dimensions(&t), Some((3000, 4000)));
    assert_eq!(extract_jpeg_thumbnail(&t).unwrap(), b"JPEG");
    assert_eq!(extract_jpeg_preview(&t).unwrap(), b"JPEG");
    assert_eq!(raw_preview_range(&t), Some((74, 4)));
}

#[test]
fn exif_after_marker_counts_from_tiff_block() {
    let t = tiff_with_preview();
    let seg_len = (2 + 6 + t.len()) as u16;
    let mut b = vec![0xFF, 0xD8, 0xFF, 0xE1];
    b.extend_from_slice(&seg_len.to_be_bytes());
    b.extend_from_slice(b"Exif\0\0");
    b.extend_from_slice(&t);
    // the TIFF block starts at 12, so the embedded JPEG at 12 + 74
    assert_eq!(raw_preview_range(&b), Some((86, 4)));
    assert_eq!(get_exif_orientation(&b), Orientation::Rotate90);
}

#[test]
fn orientation_codes_and_axes() {
    assert_eq!(orientation_from_code(1), Orientation::NoTransforms);
    assert_eq!(orientation_from_code(3), Orientation::Rotate180);
    assert_eq!(orientation_from_code(6), Orientation::Rotate90);
    assert_eq!(orientation_from_code(8), Orientation::Rotate270);
    assert_eq!(orientation_from_code(9), Orientation::NoTransforms);
    assert!(swaps_axes(Orientation::Rotate270FlipH));
    assert!(!swaps_axes(Orientation::FlipVertical));
    assert_eq!(oriented_dims(10, 20, Orientation::Rotate90), (20, 10));
    assert_eq!(oriented_dims(10, 20, Orientation::Rotate180), (10, 20));
}

#[test]
fn segment_length_limit() {
    assert_eq!(segment_length_error(64 * 1024 * 1024), None);
    assert_eq!(
        segment_length_error(65 * 1024 * 1024),
        Some("Requested read segment length 68157440 is too large (max 64MB)".to_string())
    );
}

#[test]
fn test_read_source_range_limits() {
    // a ranged read of more than 64 MiB is refused before anything is read
    let e = segment_length_error(65 * 1024 * 1024).unwrap();
    assert!(e.contains("too large"));
}
