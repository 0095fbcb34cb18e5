use village_tui::catalog::{tag_ring, turn_ring_down, turn_ring_up, Listed, SwarmShell};

fn names(v: &[&str]) -> Vec<String> {
    v.iter().map(|s| s.to_string()).collect()
}

fn sorted(mut v: Vec<Listed>) -> Vec<Listed> {
    v.sort();
    v
}

#[test]
fn catalog_new_tags_are_fresh() {
    let mut shell = SwarmShell::new();
    let (fresh, lost) = shell.update_tag_to_cid(7, 1, names(&["market", "well"]), "Bread".to_string());
    assert_eq!(fresh, names(&["market", "well"]));
    assert!(lost.is_empty());
    assert_eq!(shell.get_cids_for_tag(&"market".to_string()), vec![(1, 7, "Bread".to_string())]);
    assert_eq!(shell.get_cids_for_tag(&"well".to_string()), vec![(1, 7, "Bread".to_string())]);
    assert!(shell.get_cids_for_tag(&"church".to_string()).is_empty());
}

#[test]
fn catalog_retagging_moves_content() {
    let mut shell = SwarmShell::new();
    shell.update_tag_to_cid(7, 1, names(&["market", "well"]), "Bread".to_string());
    let (fresh, lost) = shell.update_tag_to_cid(7, 1, names(&["well", "church"]), "Bread".to_string());
    assert_eq!(fresh, names(&["church"]));
    assert_eq!(lost, names(&["market"]));
    assert!(shell.get_cids_for_tag(&"market".to_string()).is_empty());
    assert_eq!(shell.get_cids_for_tag(&"church".to_string()), vec![(1, 7, "Bread".to_string())]);
}

#[test]
fn catalog_repeated_tag_counts_once() {
    let mut shell = SwarmShell::new();
    let (fresh, _) = shell.update_tag_to_cid(3, 0, names(&["a", "a", "b"]), "h".to_string());
    assert_eq!(fresh, names(&["a", "b"]));
    assert_eq!(shell.get_cids_for_tag(&"a".to_string()).len(), 1);
}

#[test]
fn catalog_untagged_content_joins_empty_tag() {
    let mut shell = SwarmShell::new();
    let (fresh, lost) = shell.update_tag_to_cid(4, 2, vec![], "x".to_string());
    assert_eq!(fresh, names(&[""]));
    assert!(lost.is_empty());
    let (fresh, _) = shell.update_tag_to_cid(4, 2, vec![], "x".to_string());
    assert!(fresh.is_empty());
    assert_eq!(shell.get_cids_for_tag(&String::new()), vec![(2, 4, "x".to_string())]);
}

#[test]
fn catalog_content_losing_all_tags_leaves_them() {
    let mut shell = SwarmShell::new();
    shell.update_tag_to_cid(4, 2, names(&["a", "b"]), "x".to_string());
    let (fresh, lost) = shell.update_tag_to_cid(4, 2, vec![], "x".to_string());
    assert_eq!(fresh, names(&[""]));
    assert_eq!(lost, names(&["a", "b"]));
    assert!(shell.get_cids_for_tag(&"a".to_string()).is_empty());
    assert!(shell.get_cids_for_tag(&"b".to_string()).is_empty());
    assert_eq!(shell.get_cids_for_tag(&String::new()), vec![(2, 4, "x".to_string())]);
}

#[test]
fn catalog_several_contents_under_one_tag() {
    let mut shell = SwarmShell::new();
    shell.update_tag_to_cid(1, 0, names(&["t"]), "one".to_string());
    shell.update_tag_to_cid(2, 0, names(&["t"]), "two".to_string());
    assert_eq!(
        sorted(shell.get_cids_for_tag(&"t".to_string())),
        vec![(0, 1, "one".to_string()), (0, 2, "two".to_string())]
    );
}

#[test]
fn catalog_clear_empties_every_tag() {
    let mut shell = SwarmShell::new();
    shell.update_tag_to_cid(1, 0, names(&["t", "u"]), "one".to_string());
    shell.clear_tag_to_cid();
    assert!(shell.get_cids_for_tag(&"t".to_string()).is_empty());
    assert!(shell.get_cids_for_tag(&"u".to_string()).is_empty());
    let (fresh, _) = shell.update_tag_to_cid(1, 0, names(&["t"]), "one".to_string());
    assert_eq!(fresh, names(&["t"]));
}

#[test]
fn catalog_streets_with_contents_in_order() {
    let mut shell = SwarmShell::new();
    shell.update_tag_to_cid(9, 0, names(&["b"]), "h".to_string());
    let r = shell.streets_with_contents(&names(&["a", "b"]));
    assert_eq!(r.len(), 2);
    assert_eq!(r[0], ("a".to_string(), vec![]));
    assert_eq!(r[1], ("b".to_string(), vec![(0, 9, "h".to_string())]));
}

#[test]
fn catalog_tag_ring_splits_after_visible() {
    let r = tag_ring(&names(&["a", "b", "c", "d"]), 2);
    assert_eq!(r, vec![names(&["a", "b"]), names(&["c"]), names(&["d"]), names(&[""])]);
}

#[test]
fn catalog_tag_ring_short_list_takes_empty_tag() {
    let r = tag_ring(&names(&["a", "b"]), 3);
    assert_eq!(r, vec![names(&["a", "b", ""])]);
}

#[test]
fn catalog_tag_ring_exact_fit() {
    let r = tag_ring(&names(&["a", "b"]), 2);
    assert_eq!(r, vec![names(&["a", "b"]), names(&[""])]);
}

#[test]
fn catalog_tag_ring_no_visible_streets() {
    let r = tag_ring(&vec![], 0);
    assert_eq!(r, vec![vec![], names(&[""])]);
}

#[test]
fn catalog_ring_turns_undo_each_other() {
    let original = vec![names(&["a", "b"]), names(&["c"]), names(&[""])];
    let mut ring = original.clone();
    let shown = turn_ring_up(&mut ring);
    assert_eq!(shown, Some(names(&["c"])));
    assert_eq!(ring, vec![names(&["c"]), names(&[""]), names(&["a", "b"])]);
    let shown = turn_ring_down(&mut ring);
    assert_eq!(shown, Some(names(&["a", "b"])));
    assert_eq!(ring, original);
}

#[test]
fn catalog_single_ring_does_not_turn() {
    let mut ring = vec![names(&["a", ""])];
    assert_eq!(turn_ring_up(&mut ring), None);
    assert_eq!(turn_ring_down(&mut ring), None);
    assert_eq!(ring, vec![names(&["a", ""])]);
}
