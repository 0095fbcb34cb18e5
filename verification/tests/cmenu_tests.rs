use village_tui::cmenu::{CMenu, FrameSet, MenuKey};

#[test]
fn cmenu_sets_and_fallback() {
    let mut m = CMenu::new(4);
    assert_eq!(m.choose_set(5), 0);
    assert_eq!(m.register_set(1, 4), 1);
    assert_eq!(m.choose_set(1), 1);
    assert_eq!(m.choose_set(2), 0);
}

#[test]
fn cmenu_selection_cycles() {
    let mut m = CMenu::new(4);
    m.register_set(1, 4);
    m.choose_set(1);
    assert_eq!(m.menu_key(1, MenuKey::Down), (2, None));
    assert_eq!(m.menu_key(4, MenuKey::Down), (2, None));
    assert_eq!(m.menu_key(2, MenuKey::Up), (4, None));
    assert_eq!(m.menu_key(3, MenuKey::Up), (2, None));
    assert_eq!(m.menu_key(3, MenuKey::Choose), (0, Some(2)));
    assert_eq!(m.menu_key(3, MenuKey::Escape), (0, Some(0)));
    assert_eq!(m.menu_key(3, MenuKey::Other), (3, None));
}

#[test]
fn cmenu_frame_steps_undo() {
    let s = FrameSet { starting_frame: 10, last_frame: 13 };
    for c in 11..=13 {
        assert_eq!(s.prev_frame(s.next_frame(c)), c);
        assert_eq!(s.next_frame(s.prev_frame(c)), c);
    }
    let e = FrameSet { starting_frame: 5, last_frame: 5 };
    assert_eq!(e.next_frame(5), 5);
    assert_eq!(e.prev_frame(5), 5);
}

#[test]
fn cmenu_options_and_rows() {
    let m = CMenu::new(0);
    assert!(!m.takes_options(0));
    assert!(m.takes_options(8));
    assert!(!m.takes_options(9));
    let r = m.row_glyphs(&vec!['a', 'b']);
    assert_eq!(r.len(), 15);
    assert_eq!(r[0], Some('a'));
    assert_eq!(r[2], None);
}
