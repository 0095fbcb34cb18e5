use village_tui::button::Button;
use village_tui::menu::{
    default_configs, entries_for_rows, entry_button_place, menu_index_of, ButtonsLogic, ButtonState, EntriesState, EntryAction, MenuAction,
    MenuConfig, MenuType,
};

fn logic(entries: usize) -> ButtonsLogic {
    let menu: Vec<Button> = (0..7).map(|i| Button::new(i, (10, 3))).collect();
    let entry: Vec<Button> = (0..entries).map(|i| Button::new(100 + i, (40, 3))).collect();
    ButtonsLogic::new(menu, entry)
}

#[test]
fn new_logic_shows_main_menu() {
    let bl = logic(4);
    assert!(bl.is_current_config_equal(MenuType::Main));
    assert!(!bl.is_current_config_equal(MenuType::Topic));
    assert!(bl.is_menu_active);
    assert_eq!(bl.selected_menu_button, 0);
    assert_eq!(bl.entry_buttons.len(), 4);
    assert!(bl.entry_buttons.iter().all(|e| e.1 && e.2 == 255));
}

/// The logic of a forum screen of `cols` x `rows` cells, its entry
/// buttons laid out as the screen holds them.
fn logic_for_screen(cols: usize, rows: usize) -> ButtonsLogic {
    let menu: Vec<Button> = (0..7).map(|i| Button::new(i, (10, 3))).collect();
    let ids: Vec<usize> = (0..rows).map(|i| 100 + i).collect();
    ButtonsLogic::for_screen(menu, &ids, cols, rows)
}

#[test]
fn entries_fill_the_screen_below_the_menu() {
    assert_eq!(entries_for_rows(4), 0);
    assert_eq!(entries_for_rows(5), 0);
    assert_eq!(entries_for_rows(24), 10);
    assert_eq!(entries_for_rows(25), 10);
    assert_eq!(entry_button_place(80, 0), ((78, 1), (1, 4)));
    assert_eq!(entry_button_place(80, 3), ((78, 1), (1, 10)));
    let bl = logic_for_screen(80, 24);
    assert_eq!(bl.entry_buttons.len(), 10);
    assert!(bl.entry_buttons.iter().all(|e| e.0.size == (78, 1) && e.1 && e.2 == 255));
    assert!(bl.is_current_config_equal(MenuType::Main));
}

#[test]
fn menu_index_numbers_every_menu() {
    assert_eq!(menu_index_of(MenuType::Main), 0);
    assert_eq!(menu_index_of(MenuType::Capability), 10);
    assert_eq!(default_configs().len(), 11);
}

#[test]
fn main_menu_settings_button_switches_menu() {
    let mut bl = logic(3);
    let cmds = bl.activate_menu(MenuType::Main);
    assert!(!cmds.is_empty());
    bl.selected_menu_button = 3;
    let (action, _cmds) = bl.activate();
    assert!(matches!(action, Some(MenuAction::Settings)));
    assert!(bl.is_current_config_equal(MenuType::Settings));
}

#[test]
fn main_menu_add_new_keeps_menu() {
    let mut bl = logic(3);
    bl.activate_menu(MenuType::Main);
    bl.selected_menu_button = 2;
    let (action, cmds) = bl.activate();
    assert!(matches!(action, Some(MenuAction::AddNew(false))));
    assert!(cmds.is_empty());
    assert!(bl.is_current_config_equal(MenuType::Main));
}

#[test]
fn next_then_previous_menu_button_returns() {
    let mut bl = logic(3);
    bl.activate_menu(MenuType::Main);
    let start = bl.selected_menu_button;
    bl.select_next_menu();
    assert_ne!(bl.selected_menu_button, start);
    bl.select_prev_menu();
    assert_eq!(bl.selected_menu_button, start);
}

#[test]
fn entries_wrap_around() {
    let mut bl = logic(2);
    bl.is_menu_active = false;
    bl.selected_entry_button = 0;
    let wrapped = bl.select_next_entry();
    assert!(!wrapped);
    assert_eq!(bl.selected_entry_button, 1);
    let wrapped = bl.select_next_entry();
    assert!(wrapped);
    assert_eq!(bl.selected_entry_button, 0);
    let wrapped = bl.select_prev_entry();
    assert!(wrapped);
    assert_eq!(bl.selected_entry_button, 1);
}

#[test]
fn last_visible_entry_is_found() {
    let mut bl = logic(4);
    bl.entry_buttons[3].1 = false;
    assert_eq!(bl.last_visible_button_idx(), 2);
}

#[test]
fn update_entries_hides_the_rest() {
    let mut bl = logic(3);
    let cmds = bl.update_entries(vec![(7, "seven".to_string())]);
    assert!(!cmds.is_empty());
    assert_eq!(bl.entry_buttons[0].2, 7);
    assert!(bl.entry_buttons[0].1);
    assert!(!bl.entry_buttons[1].1);
    assert!(!bl.entry_buttons[2].1);
}

#[test]
fn fixed_entries_give_their_actions() {
    let cfg = MenuConfig::new(
        [
            ButtonState::Hide,
            ButtonState::Show("a".to_string()),
            ButtonState::Hide,
            ButtonState::Hide,
            ButtonState::Hide,
            ButtonState::Hide,
            ButtonState::Hide,
        ],
        EntriesState::Fixed(vec![
            (ButtonState::Show("x".to_string()), EntryAction::RunningPolicies),
            (ButtonState::Show("y".to_string()), EntryAction::Query),
        ]),
    );
    assert_eq!(cfg.entry_action(0), EntryAction::RunningPolicies);
    assert_eq!(cfg.entry_action(1), EntryAction::Query);
    assert_eq!(cfg.entry_action(5), EntryAction::NoAction);
}

#[test]
fn a_low_screen_has_no_entries() {
    let mut bl = logic_for_screen(80, 5);
    assert!(bl.entry_buttons.is_empty());
    assert_eq!(bl.selected_entry_button, 0);
    assert!(bl.select_next_entry());
    assert!(bl.select_prev_entry());
    assert_eq!(bl.last_visible_button_idx(), 0);
    bl.right();
    assert_eq!(bl.selected_menu_button, 1);
    assert!(bl.is_menu_active);
}
