use imv_tui::classifications::{format_text_export, manifest_key, parse_text_manifest, Classification};
use imv_tui::manifest::export_records;
use imv_tui::remap::{collect_pairs, import_states, remap_states, ImageState};
use imv_tui::source::ImageSource;
use imv_tui::types::{Brightness, Rotation};

const CWD: &str = "/work";

fn blank() -> ImageState<f32> {
    ImageState {
        class: Classification::Unflagged,
        brightness: Brightness::zero(),
        rotation: Rotation::D0,
        extra: 0.0,
        extra_is_default: true,
    }
}

fn with_contrast(class: Classification, contrast: f32) -> ImageState<f32> {
    ImageState { class, extra: contrast, extra_is_default: contrast == 0.0, ..blank() }
}

fn with_brightness(class: Classification, brightness: i32) -> ImageState<f32> {
    ImageState { class, brightness: Brightness::new(brightness), ..blank() }
}

fn local(p: &str) -> ImageSource {
    ImageSource::Local(p.to_string())
}

fn idents(images: &[ImageSource]) -> Vec<String> {
    images.iter().map(|s| s.identifier_with_cwd(Some(CWD))).collect()
}

#[test]
fn test_refresh_files_preservation() {
    let img1 = "target/tmp/refresh_test/img1.png";
    let img2 = "target/tmp/refresh_test/img2.png";
    let before = vec![local(img1)];
    let states = vec![with_brightness(Classification::Pick, 15)];

    // a second image appears in the directory
    let after = vec![local(img1), local(img2)];
    let (new_states, _) = remap_states(&idents(&before), &states, &idents(&after), Vec::new(), blank());
    assert_eq!(new_states.len(), 2);

    let img1_abs = format!("{}/{}", CWD, img1);
    let img2_abs = format!("{}/{}", CWD, img2);
    let ids = idents(&after);
    let img1_idx = ids.iter().position(|i| *i == img1_abs).unwrap();
    assert_eq!(new_states[img1_idx].class, Classification::Pick);
    assert_eq!(new_states[img1_idx].brightness, Brightness::new(15));
    let img2_idx = ids.iter().position(|i| *i == img2_abs).unwrap();
    assert_eq!(new_states[img2_idx].class, Classification::Unflagged);
}

#[test]
fn test_refresh_files_unmapped_migration() {
    let img1 = "target/tmp/refresh_unmapped_test/img1.png";
    let img2 = "target/tmp/refresh_unmapped_test/img2.png";
    let before = vec![local(img1), local(img2)];
    let states = vec![blank(), with_contrast(Classification::Reject, 3.0)];
    let img2_abs = format!("{}/{}", CWD, img2);

    // img2 is gone from the directory
    let after = vec![local(img1)];
    let (new_states, unmapped) = remap_states(&idents(&before), &states, &idents(&after), Vec::new(), blank());
    assert_eq!(new_states.len(), 1);

    let entry = &unmapped.iter().find(|p| p.0 == img2_abs).unwrap().1;
    assert_eq!(entry.class, Classification::Reject);
    assert_eq!(entry.extra, 3.0);
}

#[test]
fn test_unmapped_classifications_preservation() {
    let active_abs = format!("{}/active.png", CWD);
    let missing_abs = format!("{}/missing.png", CWD);
    let images = vec![local("active.png")];

    // nothing is unmapped before the import
    let unmapped: Vec<(String, ImageState<f32>)> = Vec::new();
    assert!(unmapped.is_empty());

    let imported = collect_pairs(vec![
        (active_abs.clone(), with_brightness(Classification::Pick, 10)),
        (missing_abs.clone(), with_contrast(Classification::Reject, 2.5)),
    ]);
    let (states, unmapped) = import_states(&idents(&images), vec![blank()], imported, unmapped);

    assert_eq!(states[0].class, Classification::Pick);
    assert_eq!(states[0].brightness, Brightness::new(10));

    assert_eq!(unmapped.len(), 1);
    assert!(unmapped.iter().find(|p| p.0 == active_abs).is_none());
    let missing = &unmapped.iter().find(|p| p.0 == missing_abs).unwrap().1;
    assert_eq!(missing.class, Classification::Reject);
    assert_eq!(missing.extra, 2.5);

    // the export holds both images
    let records = export_records(&images, &states, &unmapped, Some(CWD));
    assert_eq!(records.len(), 2);
    let active = records.iter().find(|r| r.filename == active_abs).unwrap();
    assert_eq!(active.state.class.json_flag(), "picked");
    assert_eq!(active.state.brightness, Brightness::new(10));
    let missing = records.iter().find(|r| r.filename == missing_abs).unwrap();
    assert_eq!(missing.state.class.json_flag(), "rejected");
    assert_eq!(missing.state.extra, 2.5);
}

#[test]
fn test_import_export_text_and_json() {
    let images = vec![
        local("img1.png"),
        local("img2.png"),
        ImageSource::Cbz { zip_path: "archive.cbz".to_string(), file_in_zip: "page1.png".to_string() },
    ];
    let ids = idents(&images);
    let states = vec![
        ImageState { brightness: Brightness::new(20), rotation: Rotation::D90, ..with_contrast(Classification::Pick, 15.0) },
        with_brightness(Classification::Reject, 0),
        ImageState { rotation: Rotation::D180, ..with_brightness(Classification::Pick, -30) },
    ];

    // JSON records
    let records = export_records(&images, &states, &Vec::new(), Some(CWD));
    assert_eq!(records.len(), 3);
    assert_eq!(records[0].state.class.json_flag(), "picked");
    assert_eq!(records[0].archive, None);
    assert_eq!(records[0].state.brightness, Brightness::new(20));
    assert_eq!(records[0].state.extra, 15.0);
    assert_eq!(records[0].state.rotation, Rotation::D90);
    assert_eq!(records[1].state.class.json_flag(), "rejected");
    assert_eq!(records[1].archive, None);
    assert_eq!(records[1].state.brightness, Brightness::zero());
    assert_eq!(records[1].state.extra, 0.0);
    assert_eq!(records[1].state.rotation, Rotation::D0);
    assert_eq!(records[2].state.class.json_flag(), "picked");
    assert!(records[2].archive.is_some());
    assert_eq!(records[2].filename, "page1.png");
    assert_eq!(records[2].state.brightness, Brightness::new(-30));
    assert_eq!(records[2].state.extra, 0.0);
    assert_eq!(records[2].state.rotation, Rotation::D180);

    // text export: state words and identifiers only
    let entries: Vec<(String, Classification)> = records
        .iter()
        .map(|r| (manifest_key(r.archive.as_deref(), &r.filename), r.state.class))
        .collect();
    let text = format_text_export(&entries);
    assert!(text.contains("PICK\t"));
    assert!(text.contains("REJECT\t"));
    assert!(!text.contains("20"));
    assert!(!text.contains("15"));

    // import from the records
    let imported = collect_pairs(
        records.iter().map(|r| (manifest_key(r.archive.as_deref(), &r.filename), r.state)).collect(),
    );
    let (back, _) = import_states(&ids, vec![blank(); 3], imported, Vec::new());
    assert_eq!(back[0].class, Classification::Pick);
    assert_eq!(back[1].class, Classification::Reject);
    assert_eq!(back[2].class, Classification::Pick);
    assert_eq!(back[0].brightness, Brightness::new(20));
    assert_eq!(back[0].extra, 15.0);
    assert_eq!(back[0].rotation, Rotation::D90);
    assert_eq!(back[2].brightness, Brightness::new(-30));
    assert_eq!(back[2].extra, 0.0);
    assert_eq!(back[2].rotation, Rotation::D180);

    // import from the text
    let imported = collect_pairs(
        parse_text_manifest(&text).into_iter().map(|(id, class)| (id, ImageState { class, ..blank() })).collect(),
    );
    let (back, _) = import_states(&ids, vec![blank(); 3], imported, Vec::new());
    assert_eq!(back[0].class, Classification::Pick);
    assert_eq!(back[1].class, Classification::Reject);
    assert_eq!(back[2].class, Classification::Pick);
    assert_eq!(back[0].brightness, Brightness::zero());
    assert_eq!(back[0].rotation, Rotation::D0);
    assert_eq!(back[0].extra, 0.0);
}
