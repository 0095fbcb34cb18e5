use village_tui::keys::KeyCode;
use village_tui::selector::{action_for, make_pages, split_words, SelAction, Selection, Selector};

fn options(n: usize) -> Vec<String> {
    (0..n).map(|i| format!("option {i}")).collect()
}

#[test]
fn characters_become_actions() {
    assert_eq!(action_for('a', None), SelAction::AddToFilter('a'));
    assert_eq!(action_for('\n', None), SelAction::Select);
    assert_eq!(action_for('\u{1b}', None), SelAction::Finish);
    assert_eq!(action_for('\u{7f}', None), SelAction::DelFromFilter);
    assert_eq!(action_for('\u{3}', None), SelAction::Nothing);
    assert_eq!(action_for('x', Some(KeyCode::PgDn)), SelAction::NextPage);
    assert_eq!(action_for('x', Some(KeyCode::Home)), SelAction::Nothing);
}

#[test]
fn words_and_pages() {
    let w = split_words(&"  ab c\td ".chars().collect());
    assert_eq!(w, vec![vec!['a', 'b'], vec!['c'], vec!['d']]);
    assert_eq!(make_pages(&vec![1, 2, 3], 2), vec![vec![1, 2], vec![3]]);
    assert_eq!(make_pages(&vec![], 2), vec![Vec::<usize>::new()]);
}

#[test]
fn selector_lays_out_buttons() {
    let s = Selector::new(0, 1, 70, 7);
    // two buttons in a row, on rows 2, 4 and 6
    assert_eq!(s.buttons, vec![(0, 2), (33, 2), (0, 4), (33, 4), (0, 6), (33, 6)]);
}

#[test]
fn moving_over_a_page() {
    let mut s = Selection::new(&options(5), vec![], false, 2, 4, 4);
    assert_eq!(s.pages, vec![vec![0, 1, 2, 3], vec![4]]);
    assert_eq!(s.shown[0], 0);
    s.step(SelAction::MoveRight);
    assert_eq!(s.cursor, 1);
    s.step(SelAction::MoveDown);
    assert_eq!(s.cursor, 3);
    s.step(SelAction::MoveDown);
    assert_eq!(s.cursor, 1);
    s.step(SelAction::MoveLeft);
    s.step(SelAction::MoveLeft);
    assert_eq!(s.cursor, 3);
    s.step(SelAction::MoveUp);
    assert_eq!(s.cursor, 1);
    s.step(SelAction::NextPage);
    assert_eq!(s.page, 1);
    assert_eq!(s.cursor, 0);
    assert_eq!(s.shown[0], 4);
    s.step(SelAction::NextPage);
    assert_eq!(s.page, 0);
}

#[test]
fn choosing_toggles_and_finishing_returns_the_choice() {
    let mut s = Selection::new(&options(3), vec![2], false, 2, 4, 4);
    assert_eq!(s.step(SelAction::Select), None);
    assert_eq!(s.chosen, vec![2, 0]);
    assert_eq!(s.step(SelAction::Select), None);
    assert_eq!(s.chosen, vec![2]);
    assert_eq!(s.step(SelAction::Finish), Some(vec![2]));
}

#[test]
fn quitting_on_the_first_choice() {
    let mut s = Selection::new(&options(3), vec![], true, 2, 4, 4);
    // bring the second button up to date, then choose it
    s.step(SelAction::Nothing);
    s.step(SelAction::MoveRight);
    assert_eq!(s.step(SelAction::Select), Some(vec![1]));
}

#[test]
fn the_filter_keeps_matching_options() {
    let opts = vec!["apple pie".to_string(), "banana".to_string(), "cherry pie".to_string()];
    let mut s = Selection::new(&opts, vec![], false, 2, 4, 4);
    for c in "pie".chars() {
        s.step(SelAction::AddToFilter(c));
    }
    assert_eq!(s.pages, vec![vec![0, 2]]);
    s.step(SelAction::AddToFilter(' '));
    s.step(SelAction::AddToFilter('b'));
    assert_eq!(s.pages, vec![vec![0, 1, 2]]);
    s.step(SelAction::ClearFilter);
    assert!(s.filter.is_empty());
    assert_eq!(s.pages, vec![vec![0, 1, 2]]);
    s.step(SelAction::AddToFilter('z'));
    assert_eq!(s.pages, vec![Vec::<usize>::new()]);
    assert_eq!(s.step(SelAction::MoveDown), None);
    s.step(SelAction::DelFromFilter);
    assert_eq!(s.pages, vec![vec![0, 1, 2]]);
}

#[test]
fn closing_hides_every_option_button() {
    let mut s = Selector::new(0, 1, 70, 7);
    s.selected_option = 2;
    let hidden = s.close();
    assert_eq!(hidden, (0..s.buttons.len()).collect::<Vec<usize>>());
    assert!(!hidden.is_empty());
    assert_eq!(s.selected_option, 0);
}

#[test]
fn chosen_options_never_repeat() {
    let s = Selector::new(0, 1, 70, 7);
    let options: Vec<String> = vec!["a".to_string(), "b".to_string(), "c".to_string()];
    let mut sel = s.start(&options, vec![], false);
    assert!(sel.step(SelAction::Select).is_none());
    assert!(sel.step(SelAction::Select).is_none());
    assert!(sel.chosen.is_empty());
    assert!(sel.step(SelAction::Select).is_none());
    sel.step(SelAction::MoveRight);
    sel.step(SelAction::Select);
    let done = sel.step(SelAction::Finish);
    assert_eq!(done, Some(vec![0, 1]));
}

#[test]
fn buttons_show_lazily_and_hide_on_close() {
    let s = Selector::new(0, 1, 70, 7);
    let options: Vec<String> = vec!["a".to_string(), "b".to_string(), "c".to_string()];
    let mut sel = s.start(&options, vec![], true);
    assert!(sel.visible[0]);
    assert!(sel.visible[1..].iter().all(|v| !v));
    sel.step(SelAction::MoveRight);
    assert!(sel.visible[1]);
    let done = sel.step(SelAction::Select);
    assert_eq!(done, Some(vec![1]));
    assert!(sel.visible.iter().all(|v| !v));
    assert_eq!(sel.cursor, 0);
}
