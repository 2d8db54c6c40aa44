use imv_tui::keys::{KeyCode, KeyInput, KeyModifiers};
use imv_tui::line_editor::{EditorResult, LineEditor};

fn key(code: KeyCode, control: bool, alt: bool) -> KeyInput {
    KeyInput { code, modifiers: KeyModifiers { control, shift: false, alt }, is_press: true }
}

#[test]
fn test_line_editor_basic() {
    let mut le = LineEditor::new();
    assert_eq!(le.value(), "");
    assert_eq!(le.cursor_char_idx(), 0);

    le.insert_char('a');
    le.insert_char('b');
    assert_eq!(le.value(), "ab");
    assert_eq!(le.cursor_char_idx(), 2);

    le.move_left();
    assert_eq!(le.cursor_char_idx(), 1);

    le.insert_char('c');
    assert_eq!(le.value(), "acb");
    assert_eq!(le.cursor_char_idx(), 2);

    assert!(le.backspace());
    assert_eq!(le.value(), "ab");
    assert_eq!(le.cursor_char_idx(), 1);

    assert!(le.delete());
    assert_eq!(le.value(), "a");
    assert_eq!(le.cursor_char_idx(), 1);
}

#[test]
fn test_line_editor_movements() {
    let mut le = LineEditor::new();
    le.insert_char('x');
    le.insert_char('y');
    le.insert_char('z');

    le.move_to_start();
    assert_eq!(le.cursor_char_idx(), 0);

    le.move_right();
    assert_eq!(le.cursor_char_idx(), 1);

    le.move_to_end();
    assert_eq!(le.cursor_char_idx(), 3);
}

#[test]
fn test_line_editor_readline_deletions() {
    let mut le = LineEditor::new();
    le.insert_char('a');
    le.insert_char('b');
    le.insert_char('c');
    le.insert_char('d');

    le.move_left(); // cursor at 3 (before 'd')
    assert!(le.delete_to_end());
    assert_eq!(le.value(), "abc");
    assert_eq!(le.cursor_char_idx(), 3);

    le.move_left(); // cursor at 2 (before 'c')
    assert!(le.delete_to_start());
    assert_eq!(le.value(), "c");
    assert_eq!(le.cursor_char_idx(), 0);
}

#[test]
fn test_line_editor_delete_word() {
    let mut le = LineEditor::new();
    for c in "hello world".chars() {
        le.insert_char(c);
    }

    assert!(le.delete_word_before());
    assert_eq!(le.value(), "hello ");

    assert!(le.delete_word_before());
    assert_eq!(le.value(), "");
    assert_eq!(le.cursor_char_idx(), 0);
}

#[test]
fn line_editor_edges_report_no_change() {
    let mut le = LineEditor::new();
    assert!(!le.backspace());
    assert!(!le.delete());
    assert!(!le.delete_to_end());
    assert!(!le.delete_to_start());
    assert!(!le.delete_word_before());
    le.move_left();
    assert_eq!(le.cursor_char_idx(), 0);
    le.insert_char('q');
    le.move_right();
    assert_eq!(le.cursor_char_idx(), 1);
    le.clear();
    assert_eq!(le.value(), "");
    assert_eq!(le.cursor_char_idx(), 0);
}

#[test]
fn line_editor_multibyte_offsets() {
    let mut le = LineEditor::new();
    le.insert_char('é');
    le.insert_char('x');
    assert_eq!(le.value(), "éx");
    assert_eq!(le.cursor_byte_offset(), 3);
    assert_eq!(le.byte_offset_for_char_idx(1), Some(2));
    assert_eq!(le.byte_offset_for_char_idx(2), None);
}

#[test]
fn line_editor_key_events() {
    let mut le = LineEditor::new();
    assert_eq!(le.handle_key_event(&key(KeyCode::Char('a'), false, false)), EditorResult::ConsumedChanged);
    assert_eq!(le.handle_key_event(&key(KeyCode::Char('b'), false, false)), EditorResult::ConsumedChanged);
    assert_eq!(le.handle_key_event(&key(KeyCode::Char('a'), true, false)), EditorResult::ConsumedNoChange);
    assert_eq!(le.cursor_char_idx(), 0);
    assert_eq!(le.handle_key_event(&key(KeyCode::Char('k'), true, false)), EditorResult::ConsumedChanged);
    assert_eq!(le.value(), "");
    assert_eq!(le.handle_key_event(&key(KeyCode::Enter, false, false)), EditorResult::NotConsumed);
    assert_eq!(le.handle_key_event(&key(KeyCode::Char('x'), false, true)), EditorResult::NotConsumed);
    for c in "ab cd".chars() {
        le.handle_key_event(&key(KeyCode::Char(c), false, false));
    }
    assert_eq!(le.handle_key_event(&key(KeyCode::Backspace, false, true)), EditorResult::ConsumedChanged);
    assert_eq!(le.value(), "ab ");
    assert_eq!(le.handle_key_event(&key(KeyCode::Char('h'), true, false)), EditorResult::ConsumedChanged);
    assert_eq!(le.value(), "ab");
    assert_eq!(le.handle_key_event(&key(KeyCode::Home, false, false)), EditorResult::ConsumedNoChange);
    assert_eq!(le.handle_key_event(&key(KeyCode::Delete, false, false)), EditorResult::ConsumedChanged);
    assert_eq!(le.value(), "b");
}
