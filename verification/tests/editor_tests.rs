use village_tui::editor::{decide_key, Editor, EditorKey, EditorStep};
use village_tui::keys::KeyCode;
use village_tui::text_buffer::{CellCmd, Direction, Paint};

fn editor() -> Editor {
    Editor::new(1, 2, 20, 6)
}

fn typed(e: &mut Editor, s: &str) {
    for c in s.chars() {
        e.insert(c);
    }
}

#[test]
fn new_editor_is_empty_and_editable() {
    let e = editor();
    assert_eq!(e.buffer.cursor_position, (2, 1));
    assert_eq!(e.buffer.max_position, (18, 4));
    assert_eq!(e.buffer.lines.len(), 6);
    assert!(e.allow_newlines && !e.read_only && e.can_edit);
}

#[test]
fn typing_fills_the_line_and_moves_the_cursor() {
    let mut e = editor();
    let cmds = e.insert('h');
    assert_eq!(cmds[0], CellCmd { x: 2, y: 1, paint: Paint::Char('h') });
    assert_eq!(cmds[1], CellCmd { x: 3, y: 1, paint: Paint::CursorOn });
    typed(&mut e, "i");
    assert_eq!(e.buffer.lines[1], vec!['h', 'i']);
    assert_eq!(e.buffer.cursor_position, (4, 1));
}

#[test]
fn byte_limit_blocks_typing() {
    let mut e = editor();
    e.set_limit(Some(2));
    typed(&mut e, "abc");
    assert_eq!(e.buffer.lines[1], vec!['a', 'b']);
}

#[test]
fn backspace_and_delete_remove_characters() {
    let mut e = editor();
    typed(&mut e, "abc");
    e.backspace();
    assert_eq!(e.buffer.lines[1], vec!['a', 'b']);
    e.move_to_line_start();
    e.delete();
    assert_eq!(e.buffer.lines[1], vec!['b']);
    assert_eq!(e.buffer.cursor_position, (2, 1));
}

#[test]
fn cut_returns_the_rest_with_a_line_feed() {
    let mut e = editor();
    typed(&mut e, "abcd");
    e.move_to_line_start();
    e.move_cursor(Direction::Right);
    let (cut, _cmds) = e.remove_chars_from_cursor_to_end();
    assert_eq!(cut, "bcd\n");
    assert_eq!(e.buffer.lines[1], vec!['a']);
    e.allow_newlines(false);
    e.move_to_line_start();
    let (cut, _) = e.remove_chars_from_cursor_to_end();
    assert_eq!(cut, "a");
}

#[test]
fn take_text_collects_rows_and_empties_them() {
    let mut e = editor();
    typed(&mut e, "ab\ncd");
    let (text, _cmds) = e.take_text();
    assert_eq!(text, "ab\ncd\n");
    assert!(e.buffer.lines[1].is_empty());
    assert_eq!(e.buffer.cursor_position, (2, 1));
}

#[test]
fn take_text_is_cut_to_the_byte_limit() {
    let mut e = editor();
    e.allow_newlines(false);
    typed(&mut e, "abc");
    e.set_limit(Some(2));
    let (text, _cmds) = e.take_text();
    assert_eq!(text, "ab");
}

#[test]
fn set_text_stores_short_lines() {
    let mut e = editor();
    e.set_text("one\ntwo");
    assert_eq!(e.buffer.lines[1], vec!['o', 'n', 'e']);
    assert_eq!(e.buffer.lines[2], vec!['t', 'w', 'o']);
}

#[test]
fn title_fills_the_top_row() {
    let e = editor();
    let cmds = e.set_title("T");
    assert_eq!(cmds.len(), 17);
    assert_eq!(cmds[0], CellCmd { x: 1, y: 0, paint: Paint::Char('T') });
    assert_eq!(cmds[1], CellCmd { x: 2, y: 0, paint: Paint::Char('─') });
}

#[test]
fn keys_are_decided_by_mode() {
    assert_eq!(decide_key('\t', None, true, false, true), EditorKey::Finish);
    assert_eq!(decide_key('x', None, true, true, true), EditorKey::Ignore);
    assert_eq!(decide_key('x', None, true, false, true), EditorKey::Insert('x'));
    assert_eq!(decide_key('\n', None, false, false, true), EditorKey::Ignore);
    assert_eq!(decide_key('\u{7f}', None, true, false, true), EditorKey::Backspace);
    assert_eq!(decide_key(' ', Some(KeyCode::F8), true, true, true), EditorKey::EnableEditing);
    assert_eq!(decide_key(' ', Some(KeyCode::F8), true, false, true), EditorKey::Ignore);
    assert_eq!(decide_key(' ', Some(KeyCode::AltF), true, false, true), EditorKey::Jump(Direction::Right));
    assert_eq!(decide_key(' ', Some(KeyCode::Up), false, false, true), EditorKey::Ignore);
}

#[test]
fn private_use_characters_are_keys() {
    let e = editor();
    assert_eq!(e.decide('\u{e085}'), EditorKey::Move(Direction::Left));
    assert_eq!(e.decide('\u{e087}'), EditorKey::LineStart);
    assert_eq!(e.decide('q'), EditorKey::Insert('q'));
}

#[test]
fn handle_char_runs_a_session() {
    let mut e = editor();
    assert!(e.fits());
    for c in "hi".chars() {
        let (step, _) = e.handle_char(c);
        assert!(matches!(step, EditorStep::Continue));
    }
    let (step, _) = e.handle_char('\u{e086}');
    assert!(matches!(step, EditorStep::Continue));
    assert_eq!(e.buffer.cursor_position, (5, 1));
    let (step, _) = e.handle_char('\t');
    match step {
        EditorStep::Finish(Some(t)) => assert_eq!(t, "hi\n"),
        _ => panic!("editing should finish with the text"),
    }
}

#[test]
fn read_only_editor_finishes_without_text() {
    let mut e = editor();
    e.set_mode((true, true));
    let (step, _) = e.handle_char('a');
    assert!(matches!(step, EditorStep::Continue));
    assert!(e.buffer.lines[1].is_empty());
    let (step, _) = e.handle_char('\t');
    assert!(matches!(step, EditorStep::Finish(None)));
}

#[test]
fn alt_f_jumps_four_cells() {
    let mut e = editor();
    let (_, cmds) = e.apply(EditorKey::Jump(Direction::Right));
    assert_eq!(e.buffer.cursor_position, (6, 1));
    assert_eq!(cmds.len(), 8);
}

#[test]
fn backspace_takes_back_a_typed_character() {
    let mut e = editor();
    typed(&mut e, "abc");
    e.apply(EditorKey::Move(Direction::Left));
    let before = (e.buffer.lines.clone(), e.buffer.cursor_position);
    e.insert('x');
    assert_eq!(e.buffer.lines[1], vec!['a', 'b', 'x', 'c']);
    e.backspace();
    assert_eq!((e.buffer.lines.clone(), e.buffer.cursor_position), before);
}

#[test]
fn keys_beyond_the_machine_limit_are_let_go() {
    let mut e = editor();
    e.buffer.cursor_position = (usize::MAX / 4, 1);
    assert!(!e.fits());
    let (step, cmds) = e.handle_char('a');
    assert!(matches!(step, EditorStep::Continue));
    assert!(cmds.is_empty());
    assert!(e.buffer.lines[1].is_empty());
}
