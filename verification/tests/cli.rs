use imv_tui::cli::{get_arg, parse_cli_args_from, parse_slideshow, ProtocolChoice};
use imv_tui::config::{InfoBarPosition, SlideshowState};
use imv_tui::types::{FilterType, ScaleMode};

fn args(v: &[&str]) -> Vec<String> {
    v.iter().map(|s| s.to_string()).collect()
}

#[test]
fn test_sync_exclusion() {
    // sync and import together should fail
    let args1 = args(&["imv-tui", "-r", "sync.json", "-i", "import.json"]);
    assert!(parse_cli_args_from(&args1).is_err());

    // sync and export together should fail
    let args2 = args(&["imv-tui", "--sync", "sync.json", "-o", "export.json"]);
    assert!(parse_cli_args_from(&args2).is_err());

    // sync alone should succeed
    let args3 = args(&["imv-tui", "-r", "sync.json"]);
    let opts = parse_cli_args_from(&args3).unwrap();
    assert_eq!(opts.import_path, Some("sync.json".to_string()));
    assert_eq!(opts.export_path, Some("sync.json".to_string()));
}

#[test]
fn cli_defaults() {
    let o = parse_cli_args_from(&args(&["imv-tui"])).unwrap();
    assert_eq!(o.initial_path, None);
    assert_eq!(o.filter, FilterType::Nearest);
    assert_eq!(o.scale, ScaleMode::Shrink);
    assert_eq!(o.infobar, InfoBarPosition::Bottom);
    assert_eq!(o.protocol, None);
    assert_eq!(o.slideshow, None);
    assert!(!o.check_magic && !o.no_thumbnail && !o.recursive && !o.show_help);
}

#[test]
fn cli_all_options() {
    let o = parse_cli_args_from(&args(&[
        "imv-tui", "-f", "LANCZOS", "-p", "kitty", "-s", "fit", "-t", " 5 ", "-m", "--no-thumbnail", "-R",
        "--infobar", "top", "-i", "in.json", "-o", "out.json", "pics",
    ]))
    .unwrap();
    assert_eq!(o.filter, FilterType::Lanczos);
    assert_eq!(o.protocol, Some(ProtocolChoice::Kitty));
    assert_eq!(o.scale, ScaleMode::Full);
    assert_eq!(o.slideshow, Some(SlideshowState::Playing { delay_secs: 5 }));
    assert!(o.check_magic && o.no_thumbnail && o.recursive);
    assert_eq!(o.infobar, InfoBarPosition::Top);
    assert_eq!(o.import_path, Some("in.json".to_string()));
    assert_eq!(o.export_path, Some("out.json".to_string()));
    assert_eq!(o.initial_path, Some("pics".to_string()));
}

#[test]
fn cli_errors() {
    assert_eq!(
        parse_cli_args_from(&args(&["imv-tui", "-r", "a", "-i", "b"])).err(),
        Some("Error: Option --sync (-r) cannot be used together with --import (-i) or --export (-o)".to_string())
    );
    assert_eq!(
        parse_cli_args_from(&args(&["imv-tui", "--bogus"])).err(),
        Some("Error: Unknown option '--bogus'".to_string())
    );
    assert_eq!(
        parse_cli_args_from(&args(&["imv-tui", "-f"])).err(),
        Some("Error: Option -f requires an argument".to_string())
    );
    assert_eq!(
        parse_cli_args_from(&args(&["imv-tui", "-f", "-m"])).err(),
        Some("Error: Argument for -f cannot be another option (-m)".to_string())
    );
    assert_eq!(
        parse_cli_args_from(&args(&["imv-tui", "-f", "Blurry"])).err(),
        Some("Error: Unknown filter 'blurry'. Choose from: nearest, linear, cubic, mitchell, gaussian, lanczos, hamming".to_string())
    );
    assert_eq!(
        parse_cli_args_from(&args(&["imv-tui", "-s", "zoom"])).err(),
        Some("Error: Unknown scale mode 'zoom'. Choose from: none, actual, shrink, full, crop".to_string())
    );
    assert_eq!(
        parse_cli_args_from(&args(&["imv-tui", "-p", "vt"])).err(),
        Some("Error: Unknown protocol 'vt'. Choose from: kitty, sixel, halfblocks, iterm2".to_string())
    );
    assert_eq!(
        parse_cli_args_from(&args(&["imv-tui", "--infobar", "left"])).err(),
        Some("Error: Unknown infobar position 'left'. Choose from: top, bottom, none".to_string())
    );
    assert_eq!(
        parse_cli_args_from(&args(&["imv-tui", "-t", "x"])).err(),
        Some("Error: -t / --slideshow requires a positive integer argument".to_string())
    );
    assert_eq!(
        parse_cli_args_from(&args(&["imv-tui", "a", "b"])).err(),
        Some("Error: Only a single path argument is supported, but multiple paths were provided: 'a' and 'b'".to_string())
    );
}

#[test]
fn cli_help_stops_reading() {
    let o = parse_cli_args_from(&args(&["imv-tui", "-h", "--bogus"])).unwrap();
    assert!(o.show_help);
}

#[test]
fn get_arg_moves_past_value() {
    let a = args(&["imv-tui", "-f", "cubic"]);
    let mut i = 1usize;
    assert_eq!(get_arg(&a, &mut i, "-f").unwrap(), "cubic");
    assert_eq!(i, 3);
    let mut j = 2usize;
    assert!(get_arg(&a, &mut j, "cubic").is_err());
    assert_eq!(j, 2);
}

#[test]
fn slideshow_values() {
    assert_eq!(parse_slideshow("0"), Some(SlideshowState::Stopped));
    assert_eq!(parse_slideshow(" 3"), Some(SlideshowState::Playing { delay_secs: 3 }));
    assert_eq!(parse_slideshow("-3"), None);
    assert_eq!(parse_slideshow("abc"), None);
}
