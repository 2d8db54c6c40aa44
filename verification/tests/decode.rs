use imv_tui::decode::{decode_image_bytes, decode_pixels, orient, thumbnail_and_dimensions, Rgba};
use imv_tui::raw::Orientation;

/// A 2 x 3 image whose pixel (x, y) has red x and green y.
fn sample() -> Rgba {
    let mut pixels = Vec::new();
    for y in 0..3u8 {
        for x in 0..2u8 {
            pixels.extend_from_slice(&[x, y, 7, 255]);
        }
    }
    Rgba { width: 2, height: 3, pixels }
}

fn at(p: &Rgba, x: u32, y: u32) -> (u8, u8) {
    let i = ((y * p.width + x) * 4) as usize;
    (p.pixels[i], p.pixels[i + 1])
}

fn png_of(p: &Rgba) -> Vec<u8> {
    let img = image::RgbaImage::from_raw(p.width, p.height, p.pixels.clone()).unwrap();
    let mut out = std::io::Cursor::new(Vec::new());
    img.write_to(&mut out, image::ImageFormat::Png).unwrap();
    out.into_inner()
}

#[test]
fn orientations_move_pixels() {
    let r = orient(sample(), Orientation::Rotate90);
    assert_eq!((r.width, r.height), (3, 2));
    // the bottom-left source pixel lands top-left after a clockwise turn
    assert_eq!(at(&r, 0, 0), (0, 2));
    assert_eq!(at(&r, 2, 1), (1, 0));

    let r = orient(sample(), Orientation::Rotate270);
    assert_eq!((r.width, r.height), (3, 2));
    assert_eq!(at(&r, 0, 0), (1, 0));

    let r = orient(sample(), Orientation::Rotate180);
    assert_eq!(at(&r, 0, 0), (1, 2));

    let r = orient(sample(), Orientation::FlipHorizontal);
    assert_eq!(at(&r, 0, 1), (1, 1));

    let r = orient(sample(), Orientation::FlipVertical);
    assert_eq!(at(&r, 1, 0), (1, 2));

    let r = orient(sample(), Orientation::Rotate90FlipH);
    assert_eq!((r.width, r.height), (3, 2));
    assert_eq!(at(&r, 2, 1), (1, 2));

    let r = orient(sample(), Orientation::Rotate270FlipH);
    assert_eq!(at(&r, 0, 0), (1, 2));

    let r = orient(sample(), Orientation::NoTransforms);
    assert_eq!(r.pixels, sample().pixels);
}

#[test]
fn png_decodes_to_its_pixels() {
    let bytes = png_of(&sample());
    let p = decode_pixels(&bytes, false, &[], "a.png").unwrap();
    assert_eq!((p.width, p.height), (2, 3));
    assert_eq!(p.pixels, sample().pixels);

    let d = decode_image_bytes(&bytes, false, &[], "a.png", None).unwrap();
    assert!(!d.from_preview);
    assert_eq!(d.raw_size, (2, 3));
    let d = decode_image_bytes(&bytes, false, &[], "a.png", Some((40, 60))).unwrap();
    assert_eq!(d.raw_size, (40, 60));
}

#[test]
fn unreadable_bytes_name_the_file() {
    let e = decode_image_bytes(b"not an image", false, &[], "x.png", None).err().unwrap();
    assert!(e.starts_with("Failed to read metadata:\nx.png\n\nError: "), "{}", e);
}

#[test]
fn no_thumbnail_without_exif() {
    assert!(thumbnail_and_dimensions(&png_of(&sample())).is_none());
    assert!(thumbnail_and_dimensions(b"II*\0junk").is_none());
}

#[test]
fn orientations_agree_with_image_crate() {
    let pairs = [
        (Orientation::NoTransforms, image::metadata::Orientation::NoTransforms),
        (Orientation::Rotate90, image::metadata::Orientation::Rotate90),
        (Orientation::Rotate180, image::metadata::Orientation::Rotate180),
        (Orientation::Rotate270, image::metadata::Orientation::Rotate270),
        (Orientation::FlipHorizontal, image::metadata::Orientation::FlipHorizontal),
        (Orientation::FlipVertical, image::metadata::Orientation::FlipVertical),
        (Orientation::Rotate90FlipH, image::metadata::Orientation::Rotate90FlipH),
        (Orientation::Rotate270FlipH, image::metadata::Orientation::Rotate270FlipH),
    ];
    for (ours, theirs) in pairs {
        let s = sample();
        let mut img = image::DynamicImage::ImageRgba8(image::RgbaImage::from_raw(s.width, s.height, s.pixels.clone()).unwrap());
        img.apply_orientation(theirs);
        let r = orient(s, ours);
        assert_eq!((r.width, r.height), (img.width(), img.height()));
        assert_eq!(r.pixels, img.into_rgba8().into_raw());
    }
}
