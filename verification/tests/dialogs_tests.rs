use village_tui::dialogs::{AnswerKey, Question, Viewer};
use village_tui::input::Input;
use village_tui::text_buffer::{CellCmd, Direction, Paint};

#[test]
fn question_text_is_laid_out_row_by_row() {
    let q = Question::new(0, 4, 5);
    let cells = q.question_cells("abcdefg");
    assert_eq!(cells.len(), 7);
    assert_eq!(cells[0], CellCmd { x: 1, y: 1, paint: Paint::Char('a') });
    assert_eq!(cells[3], CellCmd { x: 1, y: 2, paint: Paint::Char('d') });
    let full = q.question_cells("abcdefghijklmnop");
    assert_eq!(full.len(), 12);
    let clear = q.clear_cells("żź");
    assert_eq!(clear.len(), 4);
    assert!(clear.iter().all(|c| c.paint == Paint::Char(' ')));
}

#[test]
fn answers() {
    assert_eq!(Question::answer(AnswerKey::Yes), Some(true));
    assert_eq!(Question::answer(AnswerKey::No), Some(false));
    assert_eq!(Question::answer(AnswerKey::Other), None);
}

#[test]
fn viewer_is_centered() {
    assert_eq!(Viewer::placement(100, 40), ((60, 8), (20, 16)));
    assert_eq!(Viewer::placement(30, 5), ((30, 5), (0, 0)));
    let v = Viewer::new(3, 100, 40);
    let cells = v.show_cells(false);
    assert_eq!(cells.len(), 3 * 58);
    assert_eq!(cells[0], CellCmd { x: 2, y: 1, paint: Paint::Char('E') });
    assert_eq!(cells[2 * 58].y, 6);
}

#[test]
fn input_edits_text() {
    let mut i = Input::new(3, 20, 6);
    assert!(i.fits());
    i.insert('a');
    i.insert('b');
    i.move_cursor(Direction::Left);
    i.insert('c');
    assert_eq!(i.buffer.lines[1], vec!['a', 'c', 'b']);
    i.move_to_line_end();
    i.backspace();
    assert_eq!(i.buffer.lines[1], vec!['a', 'c']);
    i.move_to_line_start();
    i.remove_chars_from_cursor_to_end();
    assert!(i.buffer.lines[1].is_empty());
}
