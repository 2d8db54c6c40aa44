use imv_tui::config::{InfoBarPosition, SlideshowState};
use imv_tui::config::slideshow_tick;
use imv_tui::viewer::{info_toggle_ready, PanDirection};
use imv_tui::types::{Brightness, CropBox, FilterType, ImageIntersection, PanOffset, Rotation, ScaleMode};

#[test]
fn brightness_is_clamped() {
    assert_eq!(Brightness::new(300).value(), 255);
    assert_eq!(Brightness::new(-300).value(), -255);
    assert_eq!(Brightness::new(12).value(), 12);
    let mut b = Brightness::new(250);
    b.adjust(10);
    assert_eq!(b.value(), 255);
    b.adjust(i32::MIN);
    assert_eq!(b.value(), -255);
    b.adjust(5);
    b.adjust(-5);
    assert_eq!(b.value(), -255);
    assert!(Brightness::zero().is_zero());
    let mut c = Brightness::new(20);
    c.adjust(30);
    c.adjust(-30);
    assert_eq!(c.value(), 20);
}

#[test]
fn rotation_steps() {
    assert_eq!(Rotation::D270.rotate_clockwise(), Rotation::D0);
    assert_eq!(Rotation::D0.rotate_counter_clockwise(), Rotation::D270);
    assert_eq!(Rotation::from_degrees(450), Rotation::D90);
    assert_eq!(Rotation::from_degrees(44), Rotation::D0);
    assert_eq!(Rotation::from_degrees(45), Rotation::D90);
    assert_eq!(Rotation::from_degrees(100), Rotation::D90);
    assert_eq!(Rotation::from_degrees(314), Rotation::D270);
    assert_eq!(Rotation::from_degrees(315), Rotation::D0);
    assert_eq!(Rotation::from_degrees(u32::MAX), Rotation::from_degrees(u32::MAX % 360));
    assert_eq!(Rotation::D180.to_degrees(), 180);
    assert!(Rotation::D0.is_zero());
    for r in [Rotation::D0, Rotation::D90, Rotation::D180, Rotation::D270] {
        assert_eq!(Rotation::from_degrees(r.to_degrees()), r);
        assert_eq!(r.rotate_clockwise().rotate_counter_clockwise(), r);
    }
}

#[test]
fn pan_offset_saturating_bounds() {
    // pan offsets are kept within half the image on each axis
    let mut p = PanOffset::new(i64::MAX - 5, i64::MIN + 5);
    p.x = p.x.saturating_add(40);
    p.y = p.y.saturating_sub(30);
    p.clamp(800, 600);
    assert_eq!(p.x, 400);
    assert_eq!(p.y, -300);
    let mut q = PanOffset::zero();
    q.clamp(801, 3);
    assert_eq!(q, PanOffset::new(0, 0));
    let mut r = PanOffset::new(-17, 2);
    r.clamp(10, 10);
    assert_eq!(r, PanOffset::new(-5, 2));
}

#[test]
fn boxes_are_normalized() {
    let b = CropBox::new(10, -5, -20, 7);
    assert_eq!(b, CropBox { x1: -20, y1: -5, x2: 10, y2: 7 });
    assert_eq!(b.width(), 30);
    assert_eq!(b.height(), 12);
    let i = ImageIntersection::new(5, 9, 1, 9);
    assert_eq!(i.width(), 4);
    assert_eq!(i.height(), 0);
    assert!(i.is_empty());
    assert!(!ImageIntersection::new(0, 0, 1, 1).is_empty());
}

#[test]
fn cycles_and_names() {
    assert_eq!(FilterType::Nearest.next(), FilterType::Hamming);
    assert_eq!(FilterType::Lanczos.next(), FilterType::Nearest);
    assert_eq!(FilterType::Gaussian.name(), "Gaussian");
    assert_eq!(ScaleMode::Crop.next(), ScaleMode::Actual);
    assert_eq!(ScaleMode::Actual.name(), "None");
    let mut f = FilterType::Cubic;
    for _ in 0..7 {
        f = f.next();
    }
    assert_eq!(f, FilterType::Cubic);
    assert_eq!(InfoBarPosition::Bottom.next(), InfoBarPosition::Top);
    assert_eq!(InfoBarPosition::Hidden.height(), 0);
    assert_eq!(InfoBarPosition::Top.height(), 3);
}

#[test]
fn slideshow_states() {
    assert_eq!(SlideshowState::new(0), SlideshowState::Stopped);
    let s = SlideshowState::new(4);
    assert!(s.is_playing() && s.is_active() && !s.is_paused());
    assert_eq!(s.delay(), Some(4));
    let p = s.toggle_pause();
    assert!(p.is_paused());
    assert_eq!(p.toggle_pause(), s);
    assert_eq!(p.increase(), SlideshowState::Paused { delay_secs: 5 });
    assert_eq!(s.decrease(), SlideshowState::Playing { delay_secs: 3 });
    assert_eq!(SlideshowState::new(1).decrease(), SlideshowState::Stopped);
    assert_eq!(SlideshowState::Stopped.increase(), SlideshowState::Playing { delay_secs: 1 });
    assert_eq!(SlideshowState::new(u32::MAX).increase(), SlideshowState::Playing { delay_secs: u32::MAX });
    assert_eq!(SlideshowState::Stopped.seconds(), 0);
    assert_eq!(SlideshowState::Stopped.toggle_pause(), SlideshowState::Stopped);
}

#[test]
fn test_panning_safety_and_bounds() {
    let mut p = PanOffset::zero();
    assert_eq!(p.x, 0);
    assert_eq!(p.y, 0);

    // a step past the largest offset saturates, then is clamped to half the image
    p.x = i64::MAX - 5;
    p.pan(PanDirection::Right, 40, 800, 600);
    assert_eq!(p.x, 400);

    p.x = i64::MIN + 5;
    p.pan(PanDirection::Left, 40, 800, 600);
    assert_eq!(p.x, -400);
}

#[test]
fn pan_steps_each_axis() {
    let mut p = PanOffset::new(10, -10);
    p.pan(PanDirection::Up, 30, 800, 600);
    assert_eq!(p, PanOffset::new(10, -40));
    p.pan(PanDirection::Down, 500, 800, 600);
    assert_eq!(p, PanOffset::new(10, 300));
    p.pan(PanDirection::Left, i64::MAX, 801, 1);
    assert_eq!(p, PanOffset::new(-400, 0));
}

#[test]
fn slideshow_clock() {
    let playing = SlideshowState::new(2);
    // counts while playing, and a slide is due once the delay is reached
    assert_eq!(slideshow_tick(playing, false, false, 1_000_000, 500_000), (false, 1_500_000));
    assert_eq!(slideshow_tick(playing, false, false, 1_900_000, 100_000), (true, 0));
    // a load under way holds the slide back but the clock runs on
    assert_eq!(slideshow_tick(playing, false, true, 1_900_000, 200_000), (false, 2_100_000));
    // an open overlay freezes the clock
    assert_eq!(slideshow_tick(playing, true, false, 1_900_000, 900_000), (false, 1_900_000));
    // so does a pause
    let paused = playing.toggle_pause();
    assert_eq!(slideshow_tick(paused, false, false, 5_000_000, 900_000), (false, 5_000_000));
    // the counted time saturates
    assert_eq!(slideshow_tick(SlideshowState::new(0), false, false, u64::MAX - 1, 10), (false, u64::MAX));
}

#[test]
fn info_dialog_waits_before_closing() {
    assert!(info_toggle_ready(None));
    assert!(!info_toggle_ready(Some(200_000)));
    assert!(info_toggle_ready(Some(200_001)));
}
