use imv_tui::display::shorten_path;

#[test]
fn test_shorten_path() {
    // Fits under max_len as-is
    assert_eq!(shorten_path("a/b/c/d/e.png", 20), "a/b/c/d/e.png");

    // Exceeds max_len, collapses intermediate directories
    assert_eq!(shorten_path("a/b/c/d/e.png", 12), "a/.../e.png");

    // Collapsed path still exceeds max_len, returns filename
    assert_eq!(shorten_path("verylongname/nested/lake.png", 20), "lake.png");

    // Collapsed path fits max_len
    assert_eq!(shorten_path("verylongname/nested/lake.png", 26), "verylongname/.../lake.png");

    // Fits under max_len as-is
    assert_eq!(shorten_path("short/lake.png", 20), "short/lake.png");

    // Filename itself exceeds max_len, truncates filename with leading ...
    assert_eq!(
        shorten_path("a/very_long_nested_filename_that_exceeds_max.png", 20),
        "...t_exceeds_max.png"
    );
}

#[test]
fn shortened_paths_fit_their_width() {
    for max in 3..40 {
        let s = shorten_path("root/some/deeper/directory/picture_name.jpeg", max);
        assert!(s.chars().count() <= max, "{} does not fit {}", s, max);
    }
}

#[test]
fn shorten_path_without_directory() {
    assert_eq!(shorten_path("abcdefghij.png", 8), "...j.png");
    assert_eq!(shorten_path("abc.png", 8), "abc.png");
}
