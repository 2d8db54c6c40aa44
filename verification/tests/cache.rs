use imv_tui::cache::get_sliding_window_indices;

#[test]
fn test_sliding_window_wrapping_and_filtering() {
    // total 5, current 0, all visible
    let win = get_sliding_window_indices(0, 5, &[true; 5]);
    // Expect: current (0) + prev (4, 3) + next (1, 2) => [0, 1, 2, 3, 4]
    assert_eq!(win, vec![0, 1, 2, 3, 4]);

    // total 5, current 2, index 1 & 3 hidden
    let is_visible = [true, false, true, false, true]; // visible: [0, 2, 4]
    let win_filtered = get_sliding_window_indices(2, 5, &is_visible);
    // Expect: [0, 2, 4]
    assert_eq!(win_filtered, vec![0, 2, 4]);

    // total 1, current 0, visible
    let win_single = get_sliding_window_indices(0, 1, &[true]);
    assert_eq!(win_single, vec![0]);
}

#[test]
fn sliding_window_is_bounded_by_radius() {
    let vis = [true; 10];
    // current 5: 3, 4, 5, 6, 7
    assert_eq!(get_sliding_window_indices(5, 10, &vis), vec![3, 4, 5, 6, 7]);
    // current 0 wraps to the end: 8, 9, 0, 1, 2
    assert_eq!(get_sliding_window_indices(0, 10, &vis), vec![0, 1, 2, 8, 9]);
}

#[test]
fn sliding_window_of_hidden_current_is_empty() {
    let vis = [true, false, true];
    assert_eq!(get_sliding_window_indices(1, 3, &vis), Vec::<usize>::new());
    assert_eq!(get_sliding_window_indices(0, 0, &[]), Vec::<usize>::new());
}

#[test]
fn sliding_window_holds_current_and_only_visible() {
    let vis = [false, true, true, false, true, true, false, true];
    let win = get_sliding_window_indices(4, 8, &vis);
    assert!(win.contains(&4));
    for i in &win {
        assert!(vis[*i]);
    }
    assert_eq!(win, vec![1, 2, 4, 5, 7]);
}
