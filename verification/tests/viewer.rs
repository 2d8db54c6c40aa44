use imv_tui::classifications::{Classification, ViewMode};
use imv_tui::commands::Command;
use imv_tui::config::{AppConfig, InfoBarPosition, SlideshowState};
use imv_tui::keys::{InputEvent, KeyCode, KeyInput, KeyModifiers};
use imv_tui::queue::ImageQueue;
use imv_tui::source::ImageSource;
use imv_tui::types::{Brightness, FilterType, Rotation, ScaleMode};
use imv_tui::viewer::{
    batch_order, response_current, ContrastChange, Effect, LoadDecision, LoadPlan, LoadShow, LoaderRequest,
    PaletteMode, PanDirection, PromptType, Viewer, ZoomAction,
};

fn config() -> AppConfig {
    AppConfig {
        filter_type: FilterType::Nearest,
        scale_mode: ScaleMode::Shrink,
        disable_thumbnail: false,
        infobar: InfoBarPosition::Bottom,
    }
}

fn viewer(n: usize) -> Viewer {
    let images: Vec<ImageSource> =
        (0..n).map(|i| ImageSource::Local(format!("/pics/img{}.png", i))).collect();
    let queue = ImageQueue::new(images, 0).unwrap();
    let mut v = Viewer::new(queue, config());
    v.has_image = true;
    v
}

fn press(code: KeyCode) -> InputEvent {
    InputEvent::Key(KeyInput {
        code,
        modifiers: KeyModifiers { control: false, shift: false, alt: false },
        is_press: true,
    })
}

fn ctrl(c: char) -> InputEvent {
    InputEvent::Key(KeyInput {
        code: KeyCode::Char(c),
        modifiers: KeyModifiers { control: true, shift: false, alt: false },
        is_press: true,
    })
}

fn type_text(v: &mut Viewer, s: &str) {
    for c in s.chars() {
        v.handle_event(press(KeyCode::Char(c)), 40, false);
    }
}

#[test]
fn test_sequence_number_protection() {
    // A response from an older request than the current one is dropped.
    assert!(!response_current(9, 10));
    assert!(response_current(10, 10));
    assert!(response_current(11, 10));
}

#[test]
fn new_viewer_state() {
    let v = viewer(3);
    assert_eq!(v.classifications, vec![Classification::Unflagged; 3]);
    assert_eq!(v.brightness, vec![Brightness::zero(); 3]);
    assert_eq!(v.rotation, vec![Rotation::D0; 3]);
    assert_eq!(v.view_mode, ViewMode::Default);
    assert_eq!(v.palette_mode, PaletteMode::Closed);
    assert_eq!(v.slideshow, SlideshowState::Stopped);
    assert!(v.running);
    assert_eq!(v.get_visible_count(), 3);
    assert_eq!(v.current_relative_path(), "img0.png");
}

#[test]
fn next_and_prev_wrap_over_visible_images() {
    let mut v = viewer(3);
    assert_eq!(v.next_image(), Effect::LoadCurrent);
    assert_eq!(v.queue.current_index, 1);
    assert_eq!(v.prev_image(), Effect::LoadCurrent);
    assert_eq!(v.prev_image(), Effect::LoadCurrent);
    assert_eq!(v.queue.current_index, 2);
    assert_eq!(v.execute_command(Command::NextImage, false), Effect::LoadCurrent);
    assert_eq!(v.queue.current_index, 0);

    let mut single = viewer(1);
    assert_eq!(single.next_image(), Effect::Nothing);
    assert_eq!(single.queue.current_index, 0);
}

#[test]
fn rejecting_moves_to_next_visible_image() {
    let mut v = viewer(3);
    assert_eq!(v.mark_reject(), Effect::LoadCurrent);
    assert_eq!(v.classifications[0], Classification::Reject);
    assert_eq!(v.queue.current_index, 1);
    assert!(!v.is_visible(0));
    assert_eq!(v.get_visible_count(), 2);
    assert_eq!(v.visible_indices(), vec![1, 2]);
    assert_eq!(v.get_visible_position(), Some(0));
    // navigation skips the rejected image
    assert_eq!(v.next_image(), Effect::LoadCurrent);
    assert_eq!(v.next_image(), Effect::LoadCurrent);
    assert_eq!(v.queue.current_index, 1);
    // picking keeps the image in view
    assert_eq!(v.mark_pick(), Effect::Prefetch);
    assert_eq!(v.current_classification(), Classification::Pick);
}

#[test]
fn rejecting_everything_clears_the_image() {
    let mut v = viewer(2);
    v.mark_reject();
    assert_eq!(v.mark_reject(), Effect::ClearImage);
    assert_eq!(v.error_message, Some("No images match the current view filter".to_string()));
    assert!(!v.has_image);
    assert_eq!(v.current_relative_path(), "No file loaded");
    // showing rejects brings them back
    assert_eq!(v.set_view_mode(ViewMode::Rejects), Effect::LoadCurrent);
    assert_eq!(v.error_message, None);
    // unflagging hides the current image among rejects: the other reject is shown
    assert_eq!(v.unflag_image(), Effect::LoadCurrent);
    assert_eq!(v.queue.current_index, 0);
}

#[test]
fn view_modes_cycle() {
    let mut v = viewer(2);
    v.mark_pick();
    assert_eq!(v.cycle_view_mode(), Effect::LoadCurrent);
    assert_eq!(v.view_mode, ViewMode::Unflagged);
    assert_eq!(v.queue.current_index, 1);
    assert_eq!(v.find_closest_visible_index(0), Some(1));
}

#[test]
fn rotation_and_brightness_commands() {
    let mut v = viewer(2);
    assert_eq!(v.execute_command(Command::RotateClockwise, false), Effect::Rotate(true));
    assert_eq!(v.rotation[0], Rotation::D90);
    assert_eq!(v.execute_command(Command::RotateCounterClockwise, false), Effect::Rotate(false));
    assert_eq!(v.rotation[0], Rotation::D0);
    assert_eq!(v.execute_command(Command::RotateCounterClockwise, false), Effect::Rotate(false));
    assert_eq!(v.rotation[0], Rotation::D270);

    assert_eq!(v.execute_command(Command::IncreaseBrightness, false), Effect::Nothing);
    assert_eq!(v.current_brightness().value(), 10);
    v.execute_command(Command::DecreaseBrightness, false);
    v.execute_command(Command::DecreaseBrightness, false);
    assert_eq!(v.current_brightness().value(), -10);

    assert_eq!(v.execute_command(Command::ResetImage, false), Effect::ResetImage);
    assert_eq!(v.rotation[0], Rotation::D0);
    assert_eq!(v.current_brightness().value(), 0);

    v.is_loading = true;
    assert_eq!(v.execute_command(Command::RotateClockwise, false), Effect::Nothing);
    assert_eq!(v.rotation[0], Rotation::D0);
}

#[test]
fn commands_handed_to_the_caller() {
    let mut v = viewer(2);
    assert_eq!(v.execute_command(Command::ZoomIn, false), Effect::Zoom(ZoomAction::ZoomIn));
    assert_eq!(v.execute_command(Command::PanLeft, false), Effect::Pan(PanDirection::Left));
    assert_eq!(v.execute_command(Command::IncreaseContrast, false), Effect::Contrast(ContrastChange::Increase));
    assert_eq!(v.execute_command(Command::SetScaleCrop, false), Effect::Zoom(ZoomAction::ApplyScaleMode));
    assert_eq!(v.scale_mode, ScaleMode::Crop);
    assert_eq!(v.execute_command(Command::RefreshFiles, false), Effect::Refresh);
    assert_eq!(v.execute_command(Command::SetFilterLanczos, false), Effect::Nothing);
    assert_eq!(v.filter_type, FilterType::Lanczos);
    assert_eq!(v.execute_command(Command::SetInfoBarNone, false), Effect::Nothing);
    assert_eq!(v.infobar, InfoBarPosition::Hidden);
    assert_eq!(v.get_viewport_size(80, 24), (80, 24));
    v.execute_command(Command::CycleInfoBar, false);
    assert_eq!(v.infobar, InfoBarPosition::Bottom);
    assert_eq!(v.get_viewport_size(80, 24), (80, 21));
    v.has_image = false;
    assert_eq!(v.execute_command(Command::ZoomIn, false), Effect::Nothing);
    assert_eq!(v.execute_command(Command::Quit, false), Effect::Nothing);
    assert!(!v.running);
}

#[test]
fn slideshow_commands() {
    let mut v = viewer(2);
    assert_eq!(v.execute_command(Command::SlideshowIncrease, false), Effect::RestartSlideshowTimer);
    assert_eq!(v.slideshow, SlideshowState::Playing { delay_secs: 1 });
    v.execute_command(Command::ToggleSlideshowPause, false);
    assert_eq!(v.slideshow, SlideshowState::Paused { delay_secs: 1 });
    v.execute_command(Command::SlideshowDecrease, false);
    assert_eq!(v.slideshow, SlideshowState::Stopped);
}

#[test]
fn go_to_image_prompt() {
    let mut v = viewer(5);
    v.execute_command(Command::GoToImage, false);
    assert_eq!(v.palette_mode, PaletteMode::Prompt);
    assert_eq!(v.prompt_type, Some(PromptType::GoToImage));
    type_text(&mut v, "4");
    assert_eq!(v.handle_event(press(KeyCode::Enter), 40, false), Effect::LoadCurrent);
    assert_eq!(v.queue.current_index, 3);
    assert_eq!(v.palette_mode, PaletteMode::Closed);

    v.open_prompt(PromptType::GoToImage);
    type_text(&mut v, "+10");
    assert_eq!(v.handle_event(press(KeyCode::Enter), 40, false), Effect::LoadCurrent);
    assert_eq!(v.queue.current_index, 4);

    v.open_prompt(PromptType::GoToImage);
    type_text(&mut v, "-2");
    v.handle_event(press(KeyCode::Enter), 40, false);
    assert_eq!(v.queue.current_index, 2);

    v.open_prompt(PromptType::GoToImage);
    type_text(&mut v, "nope");
    assert_eq!(v.handle_event(press(KeyCode::Enter), 40, false), Effect::Nothing);
    assert_eq!(v.queue.current_index, 2);
    assert_eq!(v.palette_mode, PaletteMode::Closed);
}

#[test]
fn brightness_and_slideshow_prompts() {
    let mut v = viewer(2);
    v.open_prompt(PromptType::SetBrightness);
    type_text(&mut v, "=-300");
    v.handle_event(press(KeyCode::Enter), 40, false);
    assert_eq!(v.current_brightness().value(), -255);
    v.open_prompt(PromptType::SetBrightness);
    type_text(&mut v, "+55");
    v.handle_event(press(KeyCode::Enter), 40, false);
    assert_eq!(v.current_brightness().value(), -200);

    v.open_prompt(PromptType::SetSlideshow);
    type_text(&mut v, "5");
    assert_eq!(v.handle_event(press(KeyCode::Enter), 40, false), Effect::RestartSlideshowTimer);
    assert_eq!(v.slideshow, SlideshowState::Playing { delay_secs: 5 });

    v.open_prompt(PromptType::SetContrast);
    type_text(&mut v, "120");
    assert_eq!(
        v.handle_event(press(KeyCode::Enter), 40, false),
        Effect::Contrast(ContrastChange::FromPrompt)
    );
}

#[test]
fn info_dialog_waits_to_close() {
    let mut v = viewer(1);
    assert_eq!(v.execute_command(Command::ShowInfo, false), Effect::InfoToggled);
    assert_eq!(v.palette_mode, PaletteMode::Info);
    assert_eq!(v.handle_event(press(KeyCode::Char('d')), 40, false), Effect::Nothing);
    assert_eq!(v.palette_mode, PaletteMode::Info);
    assert_eq!(v.handle_event(press(KeyCode::Char('d')), 40, true), Effect::InfoToggled);
    assert_eq!(v.palette_mode, PaletteMode::Closed);
    v.execute_command(Command::ShowInfo, false);
    assert_eq!(v.handle_event(press(KeyCode::Esc), 40, false), Effect::Nothing);
    assert_eq!(v.palette_mode, PaletteMode::Closed);
}

#[test]
fn file_search_palette() {
    let images = vec![
        ImageSource::Local("/home/u/vacation/lake.png".to_string()),
        ImageSource::Local("/home/u/vacation/mountains.png".to_string()),
        ImageSource::Local("/home/u/work/office.png".to_string()),
    ];
    let queue = ImageQueue::new(images, 0).unwrap();
    let mut v = Viewer::new(queue, config());
    v.execute_command(Command::FileSearch, false);
    assert_eq!(v.palette_mode, PaletteMode::File);
    assert_eq!(v.filtered_files.len(), 3);
    assert_eq!(v.palette_width, 22 + 5);
    v.update_palette_height(40);
    assert_eq!(v.palette_height, 12);
    type_text(&mut v, "office");
    assert_eq!(v.filtered_files.len(), 1);
    assert_eq!(v.filtered_files[0], (2, "work/office.png".to_string()));
    assert_eq!(v.handle_event(press(KeyCode::Enter), 40, false), Effect::LoadCurrent);
    assert_eq!(v.queue.current_index, 2);
    assert_eq!(v.palette_mode, PaletteMode::Closed);
}

#[test]
fn command_palette_selection_and_cancel() {
    let mut v = viewer(2);
    v.execute_command(Command::CommandPalette, false);
    assert_eq!(v.palette_mode, PaletteMode::Command);
    assert_eq!(v.filtered_commands.len(), 58);
    v.handle_event(press(KeyCode::Down), 40, false);
    v.handle_event(ctrl('n'), 40, false);
    assert_eq!(v.palette_selected_index, 2);
    v.handle_event(ctrl('p'), 40, false);
    assert_eq!(v.palette_selected_index, 1);
    v.handle_event(InputEvent::ScrollUp, 40, false);
    assert_eq!(v.palette_selected_index, 0);
    v.handle_event(press(KeyCode::Up), 40, false);
    assert_eq!(v.palette_selected_index, 0);
    assert_eq!(v.handle_event(ctrl('g'), 40, false), Effect::Nothing);
    assert_eq!(v.palette_mode, PaletteMode::Closed);

    v.execute_command(Command::CommandPalette, false);
    type_text(&mut v, "quit");
    assert_eq!(v.filtered_commands[0].cmd, Command::Quit);
    v.handle_event(press(KeyCode::Enter), 40, false);
    assert!(!v.running);
}

#[test]
fn key_events_run_bound_commands() {
    let mut v = viewer(3);
    assert_eq!(v.handle_event(press(KeyCode::Char('n')), 40, false), Effect::LoadCurrent);
    assert_eq!(v.queue.current_index, 1);
    assert_eq!(v.handle_event(press(KeyCode::Char('x')), 40, false), Effect::LoadCurrent);
    assert_eq!(v.classifications[1], Classification::Reject);
    assert_eq!(v.handle_event(InputEvent::ScrollDown, 40, false), Effect::Zoom(ZoomAction::ZoomOut));
    assert_eq!(v.handle_event(press(KeyCode::Char('y')), 40, false), Effect::Nothing);
    assert_eq!(v.handle_event(press(KeyCode::Esc), 40, false), Effect::Nothing);
    assert!(!v.running);
}

#[test]
fn loader_batches_newest_first() {
    // the newest sequence's direct requests first, then its prefetches
    let seqs = [3u64, 5, 5, 4, 5];
    let prefetch = [false, true, false, false, false];
    let requests: Vec<LoaderRequest> = (0..5)
        .map(|i| LoaderRequest {
            idx: i,
            source: ImageSource::Local(format!("/p/{}.png", i)),
            is_prefetch: prefetch[i],
            sequence: seqs[i],
        })
        .collect();
    assert_eq!(batch_order(&requests), vec![2, 4, 1]);
    assert_eq!(batch_order(&Vec::new()), Vec::<usize>::new());
}

#[test]
fn prefetch_targets_skip_current_and_cached() {
    let v = viewer(6);
    let window = v.sliding_window();
    assert_eq!(window, vec![0, 1, 2, 4, 5]);
    assert_eq!(v.prefetch_targets(&window, &vec![1, 5]), vec![2, 4]);
    let single = viewer(1);
    assert_eq!(single.prefetch_targets(&vec![0], &Vec::new()), Vec::<usize>::new());
}

#[test]
fn installing_states_keeps_visible_selection() {
    let mut v = viewer(3);
    v.queue.current_index = 1;
    let e = v.install_states(
        vec![Classification::Pick, Classification::Reject, Classification::Unflagged],
        vec![Brightness::new(5); 3],
        vec![Rotation::D180; 3],
    );
    assert_eq!(e, Effect::LoadCurrent);
    assert_eq!(v.queue.current_index, 2);
    assert_eq!(v.rotation[2], Rotation::D180);
    assert_eq!(v.current_brightness().value(), 5);

    let q = ImageQueue::new(vec![ImageSource::Local("/n/a.png".to_string())], 0).unwrap();
    let e2 = v.install_queue(q, vec![Classification::Unflagged], vec![Brightness::zero()], vec![Rotation::D0]);
    assert_eq!(e2, Effect::LoadCurrent);
    assert_eq!(v.queue.images.len(), 1);
    assert_eq!(v.filtered_files, vec![(0, "a.png".to_string())]);
}

#[test]
fn load_plans_follow_the_cache() {
    let mut v = viewer(3);
    v.error_message = Some("old".to_string());
    assert_eq!(v.begin_load(true, false), LoadPlan::ShowCached);
    assert!(v.has_image && !v.is_loading && v.error_message.is_none());
    assert_eq!(v.begin_load(false, true), LoadPlan::ShowThumbnailAndLoad);
    assert!(v.has_image && v.show_thumbnail_only && v.is_loading);
    assert_eq!(v.begin_load(false, false), LoadPlan::Load);
    assert!(!v.has_image && !v.has_thumbnail && v.is_loading);
}

#[test]
fn finished_loads_are_cached_shown_or_dropped() {
    let mut v = viewer(6);
    v.begin_load(false, false);
    // a stale load is dropped
    assert_eq!(
        v.receive_load(0, false, false, Ok(()), 4, 5),
        LoadDecision { cache: false, show: LoadShow::Nothing }
    );
    assert!(v.is_loading);
    // a thumbnail of the current image is shown as a placeholder
    assert_eq!(
        v.receive_load(0, false, true, Ok(()), 5, 5),
        LoadDecision { cache: true, show: LoadShow::Thumbnail }
    );
    assert!(v.has_thumbnail && v.is_loading);
    // a prefetch inside the window is cached, one outside is not
    assert_eq!(v.receive_load(1, true, false, Ok(()), 5, 5), LoadDecision { cache: true, show: LoadShow::Nothing });
    assert_eq!(v.receive_load(3, true, false, Ok(()), 5, 5), LoadDecision { cache: false, show: LoadShow::Nothing });
    // the current image is shown
    assert_eq!(v.receive_load(0, false, false, Ok(()), 5, 5), LoadDecision { cache: true, show: LoadShow::Image });
    assert!(!v.is_loading && v.has_image);
    // a failure of the current image is reported
    v.begin_load(false, false);
    assert_eq!(
        v.receive_load(0, false, false, Err("Corrupt image file".to_string()), 6, 6),
        LoadDecision { cache: false, show: LoadShow::Error }
    );
    assert_eq!(v.error_message, Some("Corrupt image file".to_string()));
    assert!(!v.is_loading && !v.has_image);
    // a failed prefetch changes nothing
    assert_eq!(
        v.receive_load(1, true, false, Err("Failed to load prefetch".to_string()), 6, 6),
        LoadDecision { cache: false, show: LoadShow::Nothing }
    );
    assert_eq!(v.error_message, Some("Corrupt image file".to_string()));
}

#[test]
fn test_error_propagation_boundary() {
    let mut v = viewer(2);
    v.begin_load(false, false);
    // 1. Prefetch error at index 1 (should not update current image error state)
    v.receive_load(1, true, false, Err("Failed to load prefetch".to_string()), 1, 1);
    assert!(v.error_message.is_none());

    // 2. Active load error at index 0 (current index)
    let d = v.receive_load(0, false, false, Err("Corrupt image file".to_string()), 1, 1);
    assert_eq!(v.error_message.as_deref(), Some("Corrupt image file"));
    assert_eq!(d.show, LoadShow::Error);
    assert!(!v.has_image);
}

#[test]
fn test_prefetch_cache_retention_and_hits() {
    let mut v = viewer(2);
    // image 1 is held by the prefetch cache: navigating to it shows it from there
    assert_eq!(v.execute_command(Command::NextImage, false), Effect::LoadCurrent);
    assert_eq!(v.begin_load(true, false), LoadPlan::ShowCached);
    assert!(!v.is_loading);
    // and it stays in the window the cache keeps
    assert!(v.sliding_window().contains(&1));
}
