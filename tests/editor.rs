use kernel::line_editor::{EditAction, Key, LineEditor, INPUT_BUFFER_SIZE};
use pc_keyboard::KeyCode;

fn type_str(editor: &mut LineEditor, s: &str) {
    for c in s.chars() {
        editor.handle_char(c);
    }
}

fn submit(editor: &mut LineEditor) -> Vec<u8> {
    match editor.handle_char('\n') {
        EditAction::Submit(line) => line,
        other => panic!("expected a submitted line, got {:?}", other),
    }
}

#[test]
fn newline_hands_over_the_line_and_resets() {
    let mut editor = LineEditor::new();
    type_str(&mut editor, "echo hi");
    assert_eq!(editor.current_line(), b"echo hi".to_vec());
    assert_eq!(submit(&mut editor), b"echo hi".to_vec());
    assert_eq!(editor.current_line(), Vec::<u8>::new());
    assert_eq!(submit(&mut editor), Vec::<u8>::new());
}

#[test]
fn typing_echoes_the_character() {
    let mut editor = LineEditor::new();
    assert!(matches!(editor.handle_char('a'), EditAction::Echo('a')));
}

#[test]
fn backspace_at_start_changes_nothing() {
    let mut editor = LineEditor::new();
    assert!(matches!(editor.handle_char('\x08'), EditAction::Ignore));
    assert!(matches!(editor.handle_char('\x08'), EditAction::Ignore));
    assert_eq!(editor.current_line(), Vec::<u8>::new());
    type_str(&mut editor, "ab");
    assert_eq!(editor.current_line(), b"ab".to_vec());
}

#[test]
fn backspace_erases_the_last_character() {
    let mut editor = LineEditor::new();
    type_str(&mut editor, "lsx");
    assert!(matches!(editor.handle_char('\x08'), EditAction::Erase));
    assert_eq!(editor.current_line(), b"ls".to_vec());
    assert_eq!(submit(&mut editor), b"ls".to_vec());
}

#[test]
fn type_erase_retype_restores_the_line() {
    let mut editor = LineEditor::new();
    type_str(&mut editor, "tes");
    editor.handle_char('t');
    let after_first = editor.current_line();
    editor.handle_char('\x08');
    editor.handle_char('t');
    assert_eq!(editor.current_line(), after_first);
    assert_eq!(submit(&mut editor), b"test".to_vec());
}

#[test]
fn full_buffer_drops_further_characters() {
    let mut editor = LineEditor::new();
    for _ in 0..INPUT_BUFFER_SIZE {
        assert!(matches!(editor.handle_char('x'), EditAction::Echo('x')));
    }
    assert!(matches!(editor.handle_char('y'), EditAction::Ignore));
    let line = submit(&mut editor);
    assert_eq!(line.len(), INPUT_BUFFER_SIZE);
    assert!(line.iter().all(|&b| b == b'x'));
}

#[test]
fn raw_keys_are_shown_and_leave_the_line() {
    let mut editor = LineEditor::new();
    type_str(&mut editor, "a");
    assert!(matches!(editor.handle_key(Key::Raw(KeyCode::F1)), EditAction::ShowRaw(KeyCode::F1)));
    assert!(matches!(editor.handle_key(Key::Char('b')), EditAction::Echo('b')));
    assert_eq!(editor.current_line(), b"ab".to_vec());
}

#[test]
fn characters_are_stored_as_their_low_byte() {
    let mut editor = LineEditor::new();
    editor.handle_char('\u{e9}');
    assert_eq!(editor.current_line(), vec![0xE9u8]);
}
