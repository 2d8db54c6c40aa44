use imv_tui::classifications::{
    classification_from_flag, format_text_export, is_image_visible, manifest_key, parse_manifest_line,
    parse_text_manifest, Classification, ViewMode,
};

#[test]
fn visibility_by_view_mode() {
    let c = [Classification::Unflagged, Classification::Pick, Classification::Reject];
    assert!(is_image_visible(0, &c, ViewMode::Default));
    assert!(is_image_visible(1, &c, ViewMode::Default));
    assert!(!is_image_visible(2, &c, ViewMode::Default));
    assert!(is_image_visible(0, &c, ViewMode::Unflagged));
    assert!(!is_image_visible(1, &c, ViewMode::Unflagged));
    assert!(is_image_visible(1, &c, ViewMode::Picks));
    assert!(is_image_visible(2, &c, ViewMode::Rejects));
    assert!(is_image_visible(2, &c, ViewMode::All));
    // an index without a recorded flag counts as unflagged
    assert!(is_image_visible(7, &c, ViewMode::Unflagged));
    assert!(!is_image_visible(7, &c, ViewMode::Rejects));
}

#[test]
fn view_mode_cycle_and_names() {
    let mut m = ViewMode::Default;
    for _ in 0..5 {
        m = m.next();
    }
    assert_eq!(m, ViewMode::Default);
    assert_eq!(ViewMode::Default.next(), ViewMode::Unflagged);
}

#[test]
fn text_manifest_export_and_import() {
    // Flags written as text and read back.
    let entries = vec![
        ("/pics/img1.png".to_string(), Classification::Pick),
        ("/pics/skip.png".to_string(), Classification::Unflagged),
        ("/pics/img2.png".to_string(), Classification::Reject),
        ("/books/archive.cbz::page1.png".to_string(), Classification::Pick),
    ];
    let text = format_text_export(&entries);
    assert_eq!(text, "PICK\t/pics/img1.png\nREJECT\t/pics/img2.png\nPICK\t/books/archive.cbz::page1.png");
    let back = parse_text_manifest(&text);
    assert_eq!(
        back,
        vec![
            ("/pics/img1.png".to_string(), Classification::Pick),
            ("/pics/img2.png".to_string(), Classification::Reject),
            ("/books/archive.cbz::page1.png".to_string(), Classification::Pick),
        ]
    );
}

#[test]
fn text_manifest_lines() {
    let content = "# comment\n\n  picked : a.png \nREJECTED\tb c.png\nbogus\tx\nno separator\nunflagged:z.png";
    assert_eq!(
        parse_text_manifest(content),
        vec![
            ("a.png".to_string(), Classification::Pick),
            ("b c.png".to_string(), Classification::Reject),
            ("z.png".to_string(), Classification::Unflagged),
        ]
    );
    let line: Vec<char> = "PICK\tC:/x.png".chars().collect();
    assert_eq!(parse_manifest_line(&line), Some(("C:/x.png".to_string(), Classification::Pick)));
    let none: Vec<char> = "#PICK\tx".chars().collect();
    assert_eq!(parse_manifest_line(&none), None);
    assert_eq!(format_text_export(&[]), "");
}

#[test]
fn json_flags() {
    assert_eq!(classification_from_flag("picked"), Classification::Pick);
    assert_eq!(classification_from_flag("PICK"), Classification::Pick);
    assert_eq!(classification_from_flag("Rejected"), Classification::Reject);
    assert_eq!(classification_from_flag("maybe"), Classification::Unflagged);
    for c in [Classification::Unflagged, Classification::Pick, Classification::Reject] {
        assert_eq!(classification_from_flag(c.json_flag()), c);
    }
    assert_eq!(Classification::Reject.state_word(), "REJECT");
    assert_eq!(Classification::Pick.icon(), "⭐");
    assert_eq!(Classification::Unflagged.search_prefix(), "   ");
}

#[test]
fn manifest_keys() {
    assert_eq!(manifest_key(Some("/b/archive.cbz"), "page1.png"), "/b/archive.cbz::page1.png");
    assert_eq!(manifest_key(None, "img1.png"), "img1.png");
}
