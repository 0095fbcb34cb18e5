use village_tui::button::{Button, ButtonCmd, ButtonOp};
use village_tui::indexer::{Indexer, IndexerKey};

fn buttons(n: usize) -> Vec<Button> {
    (0..n).map(|i| Button::new(i, (10, 3))).collect()
}

fn ops(cmds: &[ButtonCmd]) -> Vec<String> {
    cmds.iter()
        .map(|c| match &c.op {
            ButtonOp::Hide => format!("{}:hide", c.button.g_id),
            ButtonOp::Show => format!("{}:show", c.button.g_id),
            ButtonOp::Rename(t) => format!("{}:name {}", c.button.g_id, t),
            ButtonOp::Select(_) => format!("{}:select", c.button.g_id),
            ButtonOp::Deselect(_) => format!("{}:deselect", c.button.g_id),
        })
        .collect()
}

fn headers(v: &[&str]) -> Vec<String> {
    v.iter().map(|s| s.to_string()).collect()
}

#[test]
fn indexer_load_shows_first_screen() {
    let mut x = Indexer::new(buttons(3));
    let cmds = x.load(headers(&["a", "b", "c", "d"]));
    assert_eq!(ops(&cmds), vec!["0:name a", "0:show", "1:name b", "1:show", "2:name c", "2:show"]);
    assert_eq!(x.visible_buttons, 3);
    assert_eq!(x.key(IndexerKey::Choose).1, Some(Some(0)));
}

#[test]
fn indexer_pages_through_screens() {
    let mut x = Indexer::new(buttons(3));
    x.load(headers(&["a", "b", "c", "d"]));
    let (cmds, done) = x.key(IndexerKey::Down);
    assert_eq!(done, None);
    assert_eq!(ops(&cmds), vec!["0:deselect", "1:select"]);
    x.key(IndexerKey::Down);
    let (cmds, _) = x.key(IndexerKey::Down);
    assert_eq!(ops(&cmds), vec!["2:deselect", "0:name d", "0:show", "1:hide", "2:hide", "0:select"]);
    assert_eq!(x.chunk_idx, 1);
    assert_eq!(x.key(IndexerKey::Choose).1, Some(Some(3)));
    x.key(IndexerKey::Down);
    assert_eq!((x.chunk_idx, x.cursor_position), (0, 0));
    x.key(IndexerKey::Up);
    assert_eq!((x.chunk_idx, x.cursor_position, x.visible_buttons), (1, 0, 1));
}

#[test]
fn indexer_wraps_within_one_screen() {
    let mut x = Indexer::new(buttons(3));
    x.load(headers(&["x", "y"]));
    x.key(IndexerKey::Up);
    assert_eq!(x.cursor_position, 1);
    x.key(IndexerKey::Down);
    assert_eq!(x.cursor_position, 0);
    x.key(IndexerKey::Down);
    x.key(IndexerKey::Up);
    assert_eq!(x.cursor_position, 0);
}

#[test]
fn indexer_first_last_finish() {
    let mut x = Indexer::new(buttons(4));
    x.load(headers(&["a", "b", "c"]));
    let (cmds, _) = x.key(IndexerKey::Last);
    assert_eq!(ops(&cmds), vec!["0:deselect", "2:select"]);
    assert_eq!(x.key(IndexerKey::Choose).1, Some(Some(2)));
    let (cmds, _) = x.key(IndexerKey::First);
    assert_eq!(ops(&cmds), vec!["2:deselect", "0:select"]);
    assert_eq!(x.key(IndexerKey::Finish).1, Some(None));
    let (cmds, done) = x.key(IndexerKey::Other);
    assert!(cmds.is_empty() && done.is_none());
}
