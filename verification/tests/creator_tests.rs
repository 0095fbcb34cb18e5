use village_tui::button::Button;
use village_tui::creator::{Creator, CreatorKey, CreatorResult, CreatorStep};
use village_tui::text_buffer::Paint;

fn creator(width: usize) -> Creator {
    let b = Button::new(1, (8, 3));
    Creator {
        g_id: 0,
        display_id: 0,
        button_dtypes: b,
        button_tags: b,
        button_descr: b,
        button_apply: b,
        button_cancel: b,
        width,
        height: 30,
    }
}

#[test]
fn next_then_prev_returns_in_both_modes() {
    let c = creator(40);
    for b in 0..5 {
        assert_eq!(c.prev_button(false, c.next_button(false, b)), b);
    }
    for b in [0usize, 2, 3] {
        assert_eq!(c.prev_button(true, c.next_button(true, b)), b);
        assert_eq!(c.next_button(true, c.prev_button(true, b)), b);
    }
}

#[test]
fn read_only_skips_type_and_apply() {
    let c = creator(40);
    assert_eq!(c.next_button(true, 0), 2);
    assert_eq!(c.next_button(true, 3), 0);
    assert_eq!(c.prev_button(true, 0), 3);
    assert_eq!(c.next_button(false, 4), 0);
    assert_eq!(c.prev_button(false, 0), 4);
}

#[test]
fn keys_move_and_close() {
    let c = creator(40);
    assert_eq!(c.step(CreatorKey::Escape, false, 3), CreatorStep::Close(CreatorResult::Cancel));
    assert_eq!(c.step(CreatorKey::Down, false, 1), CreatorStep::Focus(2));
    assert_eq!(c.step(CreatorKey::Enter, false, 4), CreatorStep::Close(CreatorResult::Create));
    assert_eq!(c.step(CreatorKey::Enter, false, 1), CreatorStep::Close(CreatorResult::SelectDType));
    assert_eq!(c.step(CreatorKey::Other, false, 1), CreatorStep::Stay);
}

#[test]
fn description_row_flattens_line_feeds() {
    let c = creator(20);
    let cells = c.update_description("a\nb");
    // columns 12..19 on row 6
    assert_eq!(cells.len(), 7);
    assert_eq!(cells[0].x, 12);
    assert_eq!(cells[0].y, 6);
    let text: String = cells
        .iter()
        .map(|c| match c.paint {
            Paint::Char(ch) => ch,
            _ => '?',
        })
        .collect();
    assert_eq!(text, "Descrip");
    let tags = c.update_tags("x");
    assert_eq!(tags[0].y, 10);
    let narrow = creator(13);
    assert!(narrow.update_d_type("any").is_empty());
}

#[test]
fn creator_run_starts_on_the_first_button() {
    let c = creator(40);
    assert_eq!(c.run_keys(false, &vec![CreatorKey::Enter]), Some((CreatorResult::Cancel, 1)));
    assert_eq!(
        c.run_keys(false, &vec![CreatorKey::Down, CreatorKey::Other, CreatorKey::Enter, CreatorKey::Enter]),
        Some((CreatorResult::SelectDType, 3))
    );
    assert_eq!(c.run_keys(false, &vec![CreatorKey::Up, CreatorKey::Enter]), Some((CreatorResult::Create, 2)));
    assert_eq!(c.run_keys(false, &vec![CreatorKey::Down, CreatorKey::Escape]), Some((CreatorResult::Cancel, 2)));
    assert_eq!(c.run_keys(false, &vec![CreatorKey::Down]), None);
}
