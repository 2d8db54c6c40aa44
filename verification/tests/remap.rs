use imv_tui::classifications::Classification;
use imv_tui::remap::{collect_pairs, import_states, remap_states, reselect, ImageState};
use imv_tui::types::{Brightness, Rotation};

fn st(class: Classification, contrast: u32) -> ImageState<u32> {
    ImageState {
        class,
        brightness: Brightness::zero(),
        rotation: Rotation::D0,
        extra: contrast,
        extra_is_default: contrast == 100,
    }
}

fn blank() -> ImageState<u32> {
    st(Classification::Unflagged, 100)
}

fn ids(v: &[&str]) -> Vec<String> {
    v.iter().map(|s| s.to_string()).collect()
}

#[test]
fn refresh_keeps_states_of_listed_images() {
    let old_ids = ids(&["/p/a.png", "/p/b.png", "/p/gone.png"]);
    let old_states = vec![st(Classification::Pick, 100), st(Classification::Reject, 120), blank()];
    let new_ids = ids(&["/p/b.png", "/p/c.png", "/p/a.png"]);
    let unmapped = vec![("/p/c.png".to_string(), st(Classification::Pick, 150))];
    let (states, left) = remap_states(&old_ids, &old_states, &new_ids, unmapped, blank());
    assert_eq!(states.len(), 3);
    assert_eq!(states[0].class, Classification::Reject);
    assert_eq!(states[0].extra, 120);
    // an unmapped state is migrated back when its image reappears
    assert_eq!(states[1].class, Classification::Pick);
    assert_eq!(states[1].extra, 150);
    assert_eq!(states[2].class, Classification::Pick);
    // the blank state of a vanished image is not kept
    assert!(left.is_empty());
}

#[test]
fn refresh_keeps_flagged_vanished_images_aside() {
    let old_ids = ids(&["/p/a.png", "/p/b.png"]);
    let old_states = vec![st(Classification::Pick, 100), blank()];
    let new_ids = ids(&["/p/b.png"]);
    let (states, left) = remap_states(&old_ids, &old_states, &new_ids, Vec::new(), blank());
    assert_eq!(states.len(), 1);
    assert_eq!(states[0].class, Classification::Unflagged);
    assert_eq!(left.len(), 1);
    assert_eq!(left[0].0, "/p/a.png");
    assert_eq!(left[0].1.class, Classification::Pick);

    // and it comes back on the next refresh
    let (states2, left2) = remap_states(&new_ids, &states, &old_ids, left, blank());
    assert_eq!(states2[0].class, Classification::Pick);
    assert_eq!(states2[1].class, Classification::Unflagged);
    assert!(left2.is_empty());
}

#[test]
fn test_unmapped_import_preservation() {
    // Entries of an import that match no image are kept for a later export.
    let image_ids = ids(&["active.png"]);
    let imported = collect_pairs(vec![
        ("active.png".to_string(), st(Classification::Pick, 100)),
        ("missing.png".to_string(), st(Classification::Reject, 100)),
    ]);
    let unmapped = vec![("active.png".to_string(), st(Classification::Reject, 100))];
    let (states, left) = import_states(&image_ids, vec![blank()], imported, unmapped);
    assert_eq!(states[0].class, Classification::Pick);
    assert_eq!(left.len(), 1);
    assert_eq!(left[0].0, "missing.png");
    assert_eq!(left[0].1.class, Classification::Reject);
}

#[test]
fn collect_pairs_keeps_last_state_per_id() {
    let r = collect_pairs(vec![
        ("a".to_string(), st(Classification::Pick, 100)),
        ("b".to_string(), st(Classification::Reject, 100)),
        ("a".to_string(), st(Classification::Reject, 100)),
    ]);
    assert_eq!(r.len(), 2);
    let a = r.iter().find(|p| p.0 == "a").unwrap();
    assert_eq!(a.1.class, Classification::Reject);
}

#[test]
fn reselect_after_refresh() {
    let new_ids = ids(&["a", "b", "c", "b"]);
    assert_eq!(reselect(&new_ids, &"b".to_string(), 0), 1);
    assert_eq!(reselect(&new_ids, &"q".to_string(), 9), 3);
    assert_eq!(reselect(&new_ids, &"q".to_string(), 2), 2);
}
