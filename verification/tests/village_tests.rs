use village_tui::text_buffer::Direction;
use village_tui::village::{hex_of, neighbor_label, update_tile_text, TileType, VillageLayout};

fn village() -> VillageLayout {
    // 5 columns, 3 rows of tiles
    let mut v = VillageLayout::new((60, 16));
    let ids: Vec<(usize, usize)> = (0..15).map(|i| (i, 100 + i)).collect();
    v.initialize(7, ids);
    v
}

#[test]
fn the_grid_follows_the_screen() {
    let v = VillageLayout::new((60, 16));
    assert_eq!(v.tiles_in_row, 5);
    assert_eq!(v.visible_rows, 3);
    let offs = v.tile_offsets();
    assert_eq!(offs.len(), 15);
    assert_eq!(offs[0], (0, 0));
    assert_eq!(offs[5 + 2], (28, 8));
    assert_eq!(offs[2 * 5 + 1], (12, 14));
}

#[test]
fn the_home_tile_shows_its_owner() {
    let v = village();
    assert_eq!(v.get_owner(), Some(7));
    assert_eq!(v.get_selection(), TileType::Home(7));
    assert_eq!(v.tiles[2 * 5 + 1].select_frame, 9);
}

#[test]
fn the_selection_wraps_around() {
    let mut v = village();
    assert!(v.select_next(Direction::Down));
    assert_eq!(v.selected_tile, (0, 1));
    let mut w = village();
    w.selected_tile = (0, 0);
    assert!(w.select_next(Direction::Left));
    assert_eq!(w.selected_tile, (0, 4));
    assert!(w.select_next(Direction::Up));
    assert_eq!(w.selected_tile, (2, 4));
    assert!(!w.select_next(Direction::Left));
    assert_eq!(w.selected_tile, (2, 3));
    assert_eq!(w.cm_position(), (48, 8));
}

#[test]
fn neighbors_get_tiles_once() {
    let mut v = village();
    let a = v.add_new_neighbor(11);
    assert_eq!(a, (0, 0));
    assert_eq!(v.add_new_neighbor(11), a);
    let b = v.add_new_neighbor(12);
    assert_eq!(b, (1, 0));
    assert_eq!(v.remove_neighbor(11), a);
    assert_eq!(v.tiles[0].tile_type, TileType::Field);
    assert_eq!(v.remove_neighbor(99), (255, 255));
}

#[test]
fn contents_go_on_their_streets() {
    let mut v = village();
    v.set_street_names(vec![
        ("news".to_string(), vec![(0, 1), (0, 2)]),
        ("fun".to_string(), vec![]),
    ]);
    assert_eq!(v.street_to_rows[0].1, vec![0, 1]);
    assert_eq!(v.street_to_rows[1].1, vec![2]);
    assert_eq!(v.tiles[2].tile_type, TileType::Content(0, 1));
    assert_eq!(v.tiles[5 + 2].tile_type, TileType::Content(0, 2));
    v.add_new_content(1, 3, &vec!["fun".to_string(), "none".to_string()]);
    assert_eq!(v.tiles[2 * 5 + 2].tile_type, TileType::Content(1, 3));
    v.hide_content(1, &vec!["news".to_string()]);
    assert_eq!(v.tiles[2].tile_type, TileType::Field);
    assert_eq!(v.next_field_tile(&vec![0, 1]), (0, 2));
    assert_eq!(v.filter_visible_tags(&vec!["fun".to_string(), "x".to_string()]), vec!["fun".to_string()]);
}

#[test]
fn swapping_villages_saves_and_restores_tiles() {
    let mut v = village();
    v.add_new_neighbor(11);
    let mut saved = Vec::new();
    v.swap_tiles(20, false, &mut saved);
    assert_eq!(v.get_owner(), Some(20));
    assert_eq!(saved.len(), 1);
    assert_eq!(saved[0].0, 7);
    assert!(v.neighbors.is_empty());
    assert_eq!(v.tiles[0].tile_type, TileType::Field);
    v.swap_tiles(7, false, &mut saved);
    assert_eq!(v.get_owner(), Some(7));
    assert_eq!(v.tiles[0].tile_type, TileType::Neighbor(11));
    assert_eq!(saved.len(), 1);
    assert_eq!(saved[0].0, 20);
    v.swap_tiles(0, true, &mut saved);
    assert_eq!(v.tiles[0].tile_type, TileType::Field);
    assert_eq!(v.get_owner(), Some(7));
}

#[test]
fn tile_texts() {
    let cells = update_tile_text(&"hello wonderful world".chars().collect());
    assert_eq!(cells[0], (13, 'h'));
    assert_eq!(cells[5], (25, 'w'));
    assert_eq!(cells.len(), 5 + 9 + 5);
    assert_eq!(hex_of(255), vec!['f', 'f']);
    let label: String = neighbor_label(0xab).into_iter().collect();
    assert_eq!(label, "Nejbor ab");
}

#[test]
fn new_content_skips_streets_already_showing_contents() {
    let mut v = village();
    v.set_street_names(vec![
        ("news".to_string(), vec![(0, 1)]),
        ("fun".to_string(), vec![]),
    ]);
    assert!(v.row_shows_content(0));
    assert!(!v.row_shows_content(2));
    assert!(v.street_shows_content(&"news".to_string()));
    assert!(!v.street_shows_content(&"fun".to_string()));
    let tags = vec!["news".to_string(), "fun".to_string(), "x".to_string()];
    assert_eq!(v.new_content_streets(&tags), vec!["fun".to_string()]);
}
