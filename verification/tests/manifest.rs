use imv_tui::classifications::{manifest_key, Classification};
use imv_tui::manifest::export_records;
use imv_tui::remap::ImageState;
use imv_tui::source::ImageSource;
use imv_tui::types::{Brightness, Rotation};

fn st(class: Classification, brightness: i32) -> ImageState<u32> {
    ImageState { class, brightness: Brightness::new(brightness), rotation: Rotation::D0, extra: 0, extra_is_default: true }
}

#[test]
fn export_writes_non_blank_states_under_their_identifiers() {
    let images = vec![
        ImageSource::Local("/p/a.png".to_string()),
        ImageSource::Local("rel/b.png".to_string()),
        ImageSource::Cbz { zip_path: "books/c.cbz".to_string(), file_in_zip: "p1.png".to_string() },
        ImageSource::Local("rel/d.png".to_string()),
    ];
    let mut rotated = st(Classification::Unflagged, 0);
    rotated.rotation = Rotation::D90;
    let states = vec![
        st(Classification::Pick, 0),
        st(Classification::Unflagged, 0),
        st(Classification::Reject, 20),
        rotated,
    ];
    let kept = vec![
        ("/old/x.png".to_string(), st(Classification::Pick, 0)),
        ("/z.cbz::q.png".to_string(), st(Classification::Reject, 0)),
        ("/blank.png".to_string(), st(Classification::Unflagged, 0)),
    ];
    let r = export_records(&images, &states, &kept, Some("/home/u"));
    assert_eq!(r.len(), 5);
    assert_eq!((r[0].archive.clone(), r[0].filename.as_str()), (None, "/p/a.png"));
    assert_eq!(r[0].state.class, Classification::Pick);
    assert_eq!((r[1].archive.clone(), r[1].filename.as_str()), (Some("/home/u/books/c.cbz".to_string()), "p1.png"));
    assert_eq!(r[1].state.brightness.value(), 20);
    assert_eq!((r[2].archive.clone(), r[2].filename.as_str()), (None, "/home/u/rel/d.png"));
    assert_eq!(r[2].state.rotation, Rotation::D90);
    assert_eq!((r[3].archive.clone(), r[3].filename.as_str()), (None, "/old/x.png"));
    assert_eq!((r[4].archive.clone(), r[4].filename.as_str()), (Some("/z.cbz".to_string()), "q.png"));

    // an import rebuilds the identifiers the records were written for
    let keys: Vec<String> = r.iter().map(|x| manifest_key(x.archive.as_deref(), &x.filename)).collect();
    assert_eq!(
        keys,
        vec![
            images[0].identifier_with_cwd(Some("/home/u")),
            images[2].identifier_with_cwd(Some("/home/u")),
            images[3].identifier_with_cwd(Some("/home/u")),
            "/old/x.png".to_string(),
            "/z.cbz::q.png".to_string(),
        ]
    );
}

#[test]
fn export_of_nothing_is_empty() {
    let r = export_records::<u32>(&Vec::new(), &Vec::new(), &Vec::new(), None);
    assert!(r.is_empty());
    let images = vec![ImageSource::Local("a.png".to_string())];
    let r2 = export_records(&images, &vec![st(Classification::Unflagged, 0)], &Vec::new(), None);
    assert!(r2.is_empty());
}
