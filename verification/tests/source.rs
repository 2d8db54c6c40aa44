use imv_tui::source::{
    collect_sources, guess_header_type, has_archive_extension, has_image_extension, has_page_extension,
    has_raw_extension, is_cbz_or_zip, is_image_file, piped_paths, select_cbz_pages, sort_by_file_name,
    wants_embedded_preview, GuessType, ImageSource, PathProbe,
};

const JPG: [u8; 8] = [0xFF, 0xD8, 0xFF, 0xE0, 0x00, 0x10, 0x4A, 0x46];
const PNG: [u8; 8] = [0x89, 0x50, 0x4E, 0x47, 0x0D, 0x0A, 0x1A, 0x0A];
const ZIP: [u8; 8] = [0x50, 0x4B, 0x03, 0x04, 0x0A, 0x00, 0x00, 0x00];
const TXT: &[u8] = b"hello world this is a text file";

#[test]
fn test_is_image_file_logic() {
    let header: &[u8] = b"not an image";
    // Without check_magic, it matches by extension .png
    assert!(is_image_file("target/tmp/fake_image.png", true, Some(header), false));
    // With check_magic, it validates bytes and rejects it
    assert!(!is_image_file("target/tmp/fake_image.png", true, Some(header), true));
}

#[test]
fn test_magic_bytes_guessing() {
    assert_eq!(guess_header_type(&JPG), Some(GuessType::Image));
    assert_eq!(guess_header_type(&PNG), Some(GuessType::Image));
    assert_eq!(guess_header_type(&ZIP), Some(GuessType::Zip));
    assert_eq!(guess_header_type(TXT), None);

    // is_image_file with check_magic = true
    assert!(is_image_file("test.jpg", true, Some(&JPG), true));
    assert!(is_image_file("test.png", true, Some(&PNG), true));
    assert!(!is_image_file("test.zip", true, Some(&ZIP), true));
    assert!(!is_image_file("test.txt", true, Some(TXT), true));

    // is_cbz_or_zip with check_magic = true
    assert!(is_cbz_or_zip("test.zip", true, Some(&ZIP), true));
    assert!(!is_cbz_or_zip("test.jpg", true, Some(&JPG), true));
    assert!(!is_cbz_or_zip("test.txt", true, Some(TXT), true));

    // check_magic = false (extension-only)
    assert!(is_image_file("test.jpg", true, Some(&JPG), false));
    assert!(is_cbz_or_zip("test.zip", true, Some(&ZIP), false));
}

#[test]
fn test_raw_image_file_recognition() {
    assert!(is_image_file("target/tmp/raw_test/test.dng", true, None, false));
    assert!(is_image_file("target/tmp/raw_test/test.nef", true, None, false));
    assert!(is_image_file("target/tmp/raw_test/test.cr2", true, None, false));
    assert!(is_image_file("target/tmp/raw_test/test.arw", true, None, false));

    assert!(!is_cbz_or_zip("target/tmp/raw_test/test.dng", true, None, false));
}

#[test]
fn test_cbz_page_decoding() {
    let entries = vec![
        ("cover.png".to_string(), true),
        ("page1.jpg".to_string(), true),
        ("README.txt".to_string(), true),
        ("subfolder/".to_string(), false),
        ("subfolder/page2.webp".to_string(), true),
    ];
    let pages = select_cbz_pages(&entries);
    assert_eq!(pages.len(), 3);
    assert_eq!(pages[0], "cover.png");
    assert_eq!(pages[1], "page1.jpg");
    assert_eq!(pages[2], "subfolder/page2.webp");

    let probes = vec![PathProbe {
        path: "target/tmp/test_cbz.cbz".to_string(),
        is_file: true,
        header: Some(ZIP.to_vec()),
        pages: Some(pages),
    }];
    let sources = collect_sources(&probes, true);
    assert_eq!(sources.len(), 3);
    match &sources[0] {
        ImageSource::Cbz { file_in_zip, .. } => assert_eq!(file_in_zip, "cover.png"),
        _ => panic!("Expected Cbz source"),
    }
}

#[test]
fn cbz_pages_sort_case_insensitively_and_stably() {
    let entries = vec![
        ("b.PNG".to_string(), true),
        ("A.jpg".to_string(), true),
        ("a.JPG".to_string(), true),
        ("dir.png".to_string(), false),
    ];
    assert_eq!(select_cbz_pages(&entries), vec!["A.jpg".to_string(), "a.JPG".to_string(), "b.PNG".to_string()]);
}

#[test]
fn collect_sources_keeps_order_and_skips_others() {
    let probes = vec![
        PathProbe { path: "/p/one.png".to_string(), is_file: true, header: None, pages: None },
        PathProbe { path: "/p/notes.txt".to_string(), is_file: true, header: None, pages: None },
        PathProbe { path: "/p/dir.png".to_string(), is_file: false, header: None, pages: None },
        PathProbe {
            path: "/p/book.cbz".to_string(),
            is_file: true,
            header: None,
            pages: Some(vec!["x.png".to_string()]),
        },
        PathProbe { path: "/p/broken.zip".to_string(), is_file: true, header: None, pages: None },
    ];
    let s = collect_sources(&probes, false);
    assert_eq!(s.len(), 2);
    assert_eq!(s[0].display_name(), "one.png");
    assert_eq!(s[1].display_name(), "book.cbz: x.png");
}

#[test]
fn extensions_ignore_ascii_case() {
    assert!(has_image_extension("a/B.JpEg"));
    assert!(has_raw_extension("x.RAF"));
    assert!(!has_raw_extension("x.png"));
    assert!(has_archive_extension("book.CBZ"));
    assert!(has_page_extension("p.webp"));
    assert!(!has_page_extension("p.dng"));
    assert!(!has_image_extension("noext"));
}

#[test]
fn source_names_and_identifiers() {
    let l = ImageSource::Local("pics/cat.png".to_string());
    assert_eq!(l.display_name(), "cat.png");
    assert!(!l.is_raw());
    assert_eq!(l.identifier_with_cwd(Some("/home/u")), "/home/u/pics/cat.png");
    assert_eq!(l.identifier_with_cwd(None), "pics/cat.png");
    let a = ImageSource::Local("/abs/x.nef".to_string());
    assert!(a.is_raw());
    assert_eq!(a.identifier_with_cwd(Some("/home/u")), "/abs/x.nef");
    let c = ImageSource::Cbz { zip_path: "b.cbz".to_string(), file_in_zip: "p.png".to_string() };
    assert_eq!(c.identifier_with_cwd(Some("/w/")), "/w/b.cbz::p.png");
    assert_eq!(c.display_name(), "b.cbz: p.png");
}

#[test]
fn embedded_preview_wanted_for_raw_and_tiff() {
    assert!(!wants_embedded_preview(&JPG, true));
    assert!(wants_embedded_preview(&[0x49, 0x49, 0x2A, 0x00, 8, 0, 0, 0], false));
    assert!(wants_embedded_preview(TXT, true));
    assert!(!wants_embedded_preview(&PNG, false));
}

#[test]
fn sort_paths_by_file_name() {
    let v = vec!["/z/b.png".to_string(), "/a/c.png".to_string(), "/y/a.png".to_string()];
    assert_eq!(
        sort_by_file_name(v),
        vec!["/y/a.png".to_string(), "/z/b.png".to_string(), "/a/c.png".to_string()]
    );
}

#[test]
fn piped_input_lines() {
    let input = b"/a/one.png\r\n\n  \n/b/two.jpg\r\r\n\r\n/c/three";
    let lines = piped_paths(input);
    assert_eq!(
        lines,
        vec![b"/a/one.png".to_vec(), b"  ".to_vec(), b"/b/two.jpg".to_vec(), b"/c/three".to_vec()]
    );
    assert!(piped_paths(b"").is_empty());
    assert!(piped_paths(b"\n\r\n").is_empty());
    // bytes that are not UTF-8 pass through unchanged
    assert_eq!(piped_paths(&[0xFF, 0x2F, 0x0A]), vec![vec![0xFF, 0x2F]]);
}
