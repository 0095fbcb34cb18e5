use village_tui::config::{dir_gnome_id, parse_config, storage_neighbors};

fn lines(v: &[&str]) -> Vec<String> {
    v.iter().map(|s| s.to_string()).collect()
}

#[test]
fn config_defaults_without_lines() {
    assert_eq!(parse_config(&vec![]), "/home/dxtr/projects/village-tui/assets/");
}

#[test]
fn config_reads_asset_dir() {
    let l = lines(&["# comment", "", "ASSET_DIR /srv/assets  extra", "OTHER x"]);
    assert_eq!(parse_config(&l), "/srv/assets");
}

#[test]
fn config_last_asset_dir_wins() {
    let l = lines(&["ASSET_DIR /a", "ASSET_DIR", "ASSET_DIR\t/b"]);
    assert_eq!(parse_config(&l), "/b");
}

#[test]
fn config_asset_dir_needs_its_own_word() {
    let l = lines(&["ASSET_DIRX /a", "#ASSET_DIR /c"]);
    assert_eq!(parse_config(&l), "/home/dxtr/projects/village-tui/assets/");
}

#[test]
fn gnome_id_after_last_dash() {
    assert_eq!(dir_gnome_id("/x/storage/swarm-name-00ff"), Some(255));
    assert_eq!(dir_gnome_id("a-DEADbeef"), Some(0xdeadbeef));
    assert_eq!(dir_gnome_id("a-+10"), Some(16));
    assert_eq!(dir_gnome_id("a-ffffffffffffffff"), Some(u64::MAX));
}

#[test]
fn gnome_id_absent_without_dash() {
    assert_eq!(dir_gnome_id("/x/storage/plain"), None);
    assert_eq!(dir_gnome_id(""), None);
}

#[test]
fn neighbors_alternate_v4_and_v6() {
    let swarms = vec![
        (1u64, vec![(true, 10u16), (false, 11)]),
        (2u64, vec![(false, 20u16)]),
        (3u64, vec![(true, 30u16)]),
    ];
    // swarm 1: v4 taken (next is v6), its v6 address is the same gnome;
    // swarm 2: v6 taken (next is v4 again); swarm 3: v4 taken.
    assert_eq!(storage_neighbors(&swarms), vec![(1, 0, 0), (2, 1, 0), (3, 2, 0)]);
}

#[test]
fn neighbors_skip_private_ports() {
    let swarms = vec![
        (7u64, vec![(true, 0u16), (true, 5)]),
        (8u64, vec![(true, 6u16), (true, 7)]),
        (9u64, vec![]),
    ];
    // swarm 7: the port-less address is skipped and the v4 one taken;
    // swarm 8 has two addresses and the next slot is v6, so neither is taken.
    assert_eq!(storage_neighbors(&swarms), vec![(7, 0, 1)]);
}

#[test]
fn neighbors_single_v4_after_v4() {
    let swarms = vec![(1u64, vec![(true, 1u16)]), (2u64, vec![(true, 2u16)])];
    assert_eq!(storage_neighbors(&swarms), vec![(1, 0, 0), (2, 1, 0)]);
}

#[test]
fn neighbors_v6_when_v4_expected_and_single() {
    let swarms = vec![(4u64, vec![(false, 9u16)]), (5u64, vec![(false, 3u16), (true, 4)])];
    // swarm 4: single v6 while v4 is next: taken, next stays v4;
    // swarm 5: two addresses, v6 while v4 is next: taken and next is v4.
    assert_eq!(storage_neighbors(&swarms), vec![(4, 0, 0), (5, 1, 0)]);
}
