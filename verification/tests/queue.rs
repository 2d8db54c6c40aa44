use imv_tui::queue::ImageQueue;
use imv_tui::source::ImageSource;

fn local(p: &str) -> ImageSource {
    ImageSource::Local(p.to_string())
}

#[test]
fn test_common_prefix_stripping() {
    let images = vec![
        local("/home/user/Pictures/2026/vacation/lake.png"),
        local("/home/user/Pictures/2026/vacation/mountains.png"),
        local("/home/user/Pictures/2026/work/office.png"),
    ];
    let queue = ImageQueue::new(images, 0).unwrap();

    assert_eq!(queue.relative_paths[0], "vacation/lake.png");
    assert_eq!(queue.relative_paths[1], "vacation/mountains.png");
    assert_eq!(queue.relative_paths[2], "work/office.png");
}

#[test]
fn queue_of_nothing_is_refused() {
    let r = ImageQueue::new(Vec::new(), 0);
    assert_eq!(r.err(), Some("No supported images found".to_string()));
}

#[test]
fn queue_single_image_shows_file_name() {
    let q = ImageQueue::new(vec![local("/a/b/Photo.JPG")], 5).unwrap();
    assert_eq!(q.current_index, 0);
    assert_eq!(q.relative_paths[0], "Photo.JPG");
    assert_eq!(q.relative_paths_lowercase[0], "photo.jpg");
    assert_eq!(q.get_current_filename(), "Photo.JPG");
    assert!(!q.is_empty());
}

#[test]
fn queue_archive_pages_show_archive_and_page() {
    let images = vec![
        ImageSource::Cbz { zip_path: "/books/comic.cbz".to_string(), file_in_zip: "p1.png".to_string() },
        ImageSource::Cbz { zip_path: "/books/comic.cbz".to_string(), file_in_zip: "p2.png".to_string() },
    ];
    let q = ImageQueue::new(images, 1).unwrap();
    assert_eq!(q.relative_paths[0], "comic.cbz: p1.png");
    assert_eq!(q.relative_paths[1], "comic.cbz: p2.png");
    assert_eq!(q.get_current_filename(), "comic.cbz: p2.png");
}

#[test]
fn queue_next_and_prev_wrap() {
    let mut q = ImageQueue::new(vec![local("/x/a.png"), local("/x/b.png"), local("/x/c.png")], 2).unwrap();
    assert!(q.next());
    assert_eq!(q.current_index, 0);
    assert!(q.prev());
    assert_eq!(q.current_index, 2);
    assert!(q.prev());
    assert_eq!(q.current_index, 1);

    let mut single = ImageQueue::new(vec![local("/x/a.png")], 0).unwrap();
    assert!(!single.next());
    assert!(!single.prev());
    assert_eq!(single.current_index, 0);
}

#[test]
fn stepping_an_empty_queue_changes_nothing() {
    let mut q = ImageQueue {
        images: Vec::new(),
        relative_paths: Vec::new(),
        relative_paths_lowercase: Vec::new(),
        current_index: usize::MAX,
    };
    assert!(!q.next());
    assert_eq!(q.current_index, usize::MAX);
    assert!(!q.prev());
}
