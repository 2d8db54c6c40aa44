use imv_tui::commands::{all_commands, get_commands, palette_command, Command, COMMAND_COUNT};
use imv_tui::keys::{InputEvent, KeyCode, KeyDef, KeyInput, KeyModifiers};

fn press(code: KeyCode, control: bool, shift: bool) -> InputEvent {
    InputEvent::Key(KeyInput { code, modifiers: KeyModifiers { control, shift, alt: false }, is_press: true })
}

#[test]
fn test_no_shortcut_conflicts() {
    let mut shortcut_to_cmd: Vec<(KeyDef, Command)> = Vec::new();
    for cmd in all_commands() {
        let metadata = cmd.get_metadata();
        for shortcut in metadata.shortcuts {
            if let Some((_, existing_cmd)) = shortcut_to_cmd.iter().find(|(k, _)| *k == shortcut) {
                panic!(
                    "Shortcut {:?} is duplicated! Registered for both {:?} and {:?}",
                    shortcut, existing_cmd, cmd
                );
            }
            shortcut_to_cmd.push((shortcut, cmd));
        }
    }
}

#[test]
fn test_commands_registry_count() {
    let commands = get_commands();
    let expected_count = all_commands().len();
    assert_eq!(
        commands.len(),
        expected_count,
        "Registry count must match the total number of Command variants"
    );
    assert_eq!(expected_count, COMMAND_COUNT);
}

#[test]
fn test_commands_registry_formatting_and_metadata() {
    for pal_cmd in get_commands() {
        // Verify lowercase search text mapping
        let expected_search_text =
            format!("{} {}", pal_cmd.item.name, pal_cmd.item.description).to_lowercase();
        assert_eq!(
            pal_cmd.search_text, expected_search_text,
            "Search text mismatch for cmd {:?}",
            pal_cmd.cmd
        );

        // Verify shortcut formatting representation
        let expected_shortcut_str = pal_cmd
            .item
            .shortcuts
            .iter()
            .map(|bind| bind.label())
            .collect::<Vec<_>>()
            .join(", ");
        assert_eq!(
            pal_cmd.shortcut_str, expected_shortcut_str,
            "Shortcut formatting mismatch for cmd {:?}",
            pal_cmd.cmd
        );

        // Verify non-empty metadata strings
        assert!(!pal_cmd.item.name.is_empty(), "Command name cannot be empty");
        assert!(!pal_cmd.item.description.is_empty(), "Command description cannot be empty");
    }
}

#[test]
fn test_commands_palette_name_uniqueness() {
    let mut showable_names = std::collections::HashSet::new();
    for pal_cmd in get_commands() {
        if pal_cmd.item.show_in_palette {
            assert!(
                showable_names.insert(pal_cmd.item.name),
                "Duplicate name '{}' detected for command palette entry. All palette command names must be unique.",
                pal_cmd.item.name
            );
        }
    }
}

#[test]
fn commands_are_listed_in_declaration_order() {
    let all = all_commands();
    assert_eq!(all[0], Command::Quit);
    assert_eq!(all[1], Command::NextImage);
    assert_eq!(all[all.len() - 1], Command::ToggleSlideshowPause);
}

#[test]
fn refresh_palette_entry_texts() {
    let p = palette_command(Command::RefreshFiles);
    assert_eq!(p.item.name, "Refresh Files");
    assert_eq!(p.shortcut_str, "F5, Ctrl+r");
    assert_eq!(p.search_text, "refresh files re-scan the directory or archive for added or removed files");
    let q = palette_command(Command::ToggleSlideshowPause);
    assert_eq!(q.shortcut_str, "Space");
}

#[test]
fn events_map_to_commands() {
    assert_eq!(Command::from_event(&press(KeyCode::Char('n'), false, false)), Some(Command::NextImage));
    assert_eq!(Command::from_event(&press(KeyCode::Char(']'), false, false)), Some(Command::NextImage));
    assert_eq!(Command::from_event(&press(KeyCode::Backspace, false, false)), Some(Command::PreviousImage));
    assert_eq!(Command::from_event(&press(KeyCode::Char('R'), false, true)), Some(Command::ResetImage));
    assert_eq!(Command::from_event(&press(KeyCode::Char('r'), false, true)), Some(Command::ResetImage));
    assert_eq!(Command::from_event(&press(KeyCode::Char('r'), false, false)), Some(Command::ResetView));
    assert_eq!(Command::from_event(&press(KeyCode::Char('r'), true, false)), Some(Command::RefreshFiles));
    assert_eq!(Command::from_event(&press(KeyCode::F(5), false, false)), Some(Command::RefreshFiles));
    assert_eq!(Command::from_event(&press(KeyCode::Char(' '), false, false)), Some(Command::ToggleSlideshowPause));
    assert_eq!(Command::from_event(&InputEvent::ScrollUp), Some(Command::ZoomIn));
    assert_eq!(Command::from_event(&press(KeyCode::Char('y'), false, false)), None);
    let release = InputEvent::Key(KeyInput {
        code: KeyCode::Char('n'),
        modifiers: KeyModifiers { control: false, shift: false, alt: false },
        is_press: false,
    });
    assert_eq!(Command::from_event(&release), None);
}

#[test]
fn key_labels() {
    assert_eq!(KeyDef::Char('x').label(), "x");
    assert_eq!(KeyDef::Char(' ').label(), "Space");
    assert_eq!(KeyDef::Ctrl('r').label(), "Ctrl+r");
    assert_eq!(KeyDef::Code(KeyCode::F(12)).label(), "F12");
    assert_eq!(KeyDef::Shift(KeyCode::Left).label(), "Shift+Left");
    assert_eq!(KeyDef::ScrollDown.label(), "Scroll Down");
    assert!(KeyDef::Char('R').matches(&press(KeyCode::Char('r'), false, true)));
    assert!(!KeyDef::Char('r').matches(&press(KeyCode::Char('r'), false, true)));
}
