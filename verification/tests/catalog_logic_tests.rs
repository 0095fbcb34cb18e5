use village_tui::catalog_logic::{
    cids_for_tags, code_from_kind, first_page, kind_from_code, CatalogEffect, CatalogKey, CatalogLogic, CatalogState, CreatorContext, KeyRequest,
    PageChange, ScreenEvent, SwarmEvent, SwarmRef, village_step, VillageStep,
};
use village_tui::creator::CreatorResult;
use village_tui::forum::DataKind;
use village_tui::text_buffer::Direction;
use village_tui::village::TileType;

fn swarm(founder: u64, name: &str) -> SwarmRef {
    SwarmRef { founder, name: name.to_string() }
}

fn home_logic() -> CatalogLogic {
    let mut logic = CatalogLogic::new(swarm(7, "/"), 0);
    logic.active_swarm(swarm(7, "/"), 3, "home".to_string());
    logic
}

fn strings(v: &[&str]) -> Vec<String> {
    v.iter().map(|s| s.to_string()).collect()
}

#[test]
fn catalog_logic_home_tile_opens_creator() {
    let mut logic = CatalogLogic::new(swarm(7, "/"), 0);
    let e = logic.tile_selected(TileType::Home(7));
    assert_eq!(e.len(), 1);
    assert!(matches!(&e[0], CatalogEffect::DisplayCreator(false, DataKind::Data(0), d, t) if d.is_empty() && t.is_empty()));
    assert!(matches!(logic.state, CatalogState::Creator(CreatorContext::Data { c_id: None, .. })));
    let e = logic.tile_selected(TileType::Home(8));
    assert!(e.is_empty());
}

#[test]
fn catalog_logic_neighbor_tile_switches_swarm() {
    let mut logic = CatalogLogic::new(swarm(7, "/"), 0);
    let e = logic.tile_selected(TileType::Neighbor(9));
    assert_eq!(e.len(), 2);
    assert!(matches!(&e[0], CatalogEffect::SetActiveApp(s) if s.founder == 9 && s.name == "/"));
    assert!(matches!(e[1], CatalogEffect::SwapTiles(9)));
}

#[test]
fn catalog_logic_content_tile_reads_pages_or_follows_link() {
    let mut logic = home_logic();
    let e = logic.tile_selected(TileType::Content(0, 12));
    assert!(matches!(e[0], CatalogEffect::ReadAllPages(3, 12)));
    assert!(matches!(logic.state, CatalogState::ReadRequestForIndexer(12)));
    let e = logic.tile_selected(TileType::Content(0, 13));
    assert!(e.is_empty());
    let e = logic.tile_selected(TileType::Content(255, 14));
    assert!(matches!(e[0], CatalogEffect::ReadAllPages(3, 14)));
    assert!(matches!(logic.state, CatalogState::ReadLinkToFollow(14, None)));
}

#[test]
fn catalog_logic_creator_flow_builds_first_page() {
    let mut logic = CatalogLogic::new(swarm(7, "/"), 0);
    logic.run_creator();
    let e = logic.creator_result(CreatorResult::SelectTags);
    assert!(matches!(&e[0], CatalogEffect::SelectTags(false, title, None, pre)
        if title == "Catalog Application's Tags" && pre.is_empty()));
    let e = logic.selected_indices(vec![1, 3]);
    assert!(matches!(&e[0], CatalogEffect::DisplayCreator(false, DataKind::Data(0), _, t) if *t == vec![1u8, 3]));
    let e = logic.creator_result(CreatorResult::SelectDescription);
    assert!(matches!(&e[0], CatalogEffect::DisplayEditor(false, _, _, Some(t), true, Some(764)) if t.is_empty()));
    let e = logic.edit_result(Some("Hello".to_string()));
    assert!(matches!(&e[0], CatalogEffect::DisplayCreator(false, DataKind::Data(0), d, t) if d == "Hello" && *t == vec![1u8, 3]));
    let e = logic.creator_result(CreatorResult::Create);
    assert!(e.is_empty());
    assert!(matches!(logic.postponed[..], [ScreenEvent::CreatorCreate]));
    let e = logic.active_swarm(swarm(7, "/"), 3, "home".to_string());
    assert!(matches!(&e[3], CatalogEffect::ReplayPostponed(v) if matches!(v[..], [ScreenEvent::CreatorCreate])));
    logic.run_creator();
    logic.creator_result(CreatorResult::SelectTags);
    logic.selected_indices(vec![1, 3]);
    logic.creator_result(CreatorResult::SelectDescription);
    logic.edit_result(Some("Hello".to_string()));
    let e = logic.creator_result(CreatorResult::Create);
    assert!(matches!(&e[0], CatalogEffect::AppendNewContent(3, DataKind::Data(0), b)
        if *b == vec![2u8, 1, 3, b'H', b'e', b'l', b'l', b'o']));
    assert!(matches!(logic.state, CatalogState::Village));
}

#[test]
fn catalog_logic_data_type_selection() {
    let mut logic = home_logic();
    logic.run_creator();
    let e = logic.creator_result(CreatorResult::SelectDType);
    assert!(matches!(&e[0], CatalogEffect::SelectDataTypes(true, _, pre) if *pre == vec![0usize]));
    let e = logic.selected_indices(vec![1, 2]);
    assert!(e.is_empty());
    assert!(matches!(logic.state, CatalogState::CreatorSelectDtype(_)));
    let e = logic.selected_indices(vec![2]);
    assert!(matches!(&e[0], CatalogEffect::DisplayCreator(false, DataKind::Data(2), _, _)));
    assert!(matches!(logic.state, CatalogState::Creator(CreatorContext::Data { d_type: DataKind::Data(2), .. })));
}

#[test]
fn catalog_logic_cancel_returns_to_village() {
    let mut logic = home_logic();
    logic.run_creator();
    let e = logic.creator_result(CreatorResult::Cancel);
    assert!(e.is_empty());
    assert!(matches!(logic.state, CatalogState::Village));
}

#[test]
fn catalog_logic_copy_and_link() {
    let mut logic = home_logic();
    let e = logic.show_context_menu(TileType::Content(0, 5));
    assert!(matches!(e[0], CatalogEffect::DisplayCMenu(2)));
    let e = logic.cmenu_action(3);
    assert!(matches!(&e[0], CatalogEffect::Notify(t) if t == "Zawartość 5 skopiowana"));
    logic.show_context_menu(TileType::Field);
    let e = logic.cmenu_action(1);
    assert_eq!(e.len(), 2);
    assert!(matches!(&e[0], CatalogEffect::Notify(t) if t == "O właśnie :D"));
    assert!(matches!(&e[1], CatalogEffect::DisplayLinkCreator(t) if t == "Link to home-5"));
    assert!(logic.clipboard.is_none());
    let e = logic.creator_result(CreatorResult::Create);
    assert!(matches!(&e[0], CatalogEffect::StoreLink(3, None, s, 5, d, b)
        if s.founder == 7 && d == "Link to home-5" && *b == vec![0u8]));
}

#[test]
fn catalog_logic_link_without_copy() {
    let mut logic = home_logic();
    logic.show_context_menu(TileType::Field);
    let e = logic.cmenu_action(1);
    assert!(matches!(&e[0], CatalogEffect::Notify(t) if t == "Najpierw skopiuj Zawartość"));
    assert!(matches!(logic.state, CatalogState::Village));
}

#[test]
fn catalog_logic_home_menu_actions() {
    let mut logic = home_logic();
    logic.show_context_menu(TileType::Home(7));
    let e = logic.cmenu_action(3);
    assert!(matches!(&e[0], CatalogEffect::DisplayEditor(false, true, t, None, false, Some(32))
        if t == " Max size: 32  Oneline  Define new Tag name    (TAB to finish)"));
    assert!(matches!(logic.state, CatalogState::AddTag));
    let e = logic.edit_result(Some("Market".to_string()));
    assert!(matches!(&e[0], CatalogEffect::AddTags(v) if *v == strings(&["Market"])));
    logic.show_context_menu(TileType::Home(7));
    let e = logic.cmenu_action(7);
    assert!(matches!(e[0], CatalogEffect::ProvideGnomeToSwarmMapping));
    assert!(matches!(&logic.state, CatalogState::ShowActiveSwarms(v) if v.is_empty()));
    let e = logic.cmenu_action(1);
    assert!(e.is_empty());
}

#[test]
fn catalog_logic_neighbors_shown() {
    let mut logic = CatalogLogic::new(swarm(7, "/"), 0);
    let e = logic.neighbors(0, vec![1, 2]);
    assert!(e.is_empty());
    assert!(matches!(&logic.pending[..], [(0, SwarmEvent::Neighbors(n))] if *n == vec![1u64, 2]));
    let mut logic = home_logic();
    let e = logic.neighbors(3, vec![1, 2]);
    assert!(matches!(&e[0], CatalogEffect::Neighbors(n) if *n == vec![1u64, 2]));
    assert!(logic.neighbors(3, vec![]).is_empty());
    let mut away = home_logic();
    away.active_swarm(swarm(9, "/"), 4, "other".to_string());
    let e = away.neighbors(4, vec![1, 9, 2]);
    assert!(matches!(&e[0], CatalogEffect::Neighbors(n) if *n == vec![7u64, 1, 2]));
    let e = away.neighbors(3, vec![1]);
    assert!(e.is_empty());
    assert!(matches!(&away.pending[..], [(3, SwarmEvent::Neighbors(n))] if *n == vec![1u64]));
}

#[test]
fn catalog_logic_manifest_and_content_tags() {
    let mut logic = home_logic();
    logic.visible_streets_count(2);
    let e = logic.manifest_read(vec![(1, "b".to_string()), (0, "a".to_string())]);
    assert!(matches!(&e[0], CatalogEffect::StreetNames(v) if v.len() == 2 && v[0].0 == "a" && v[1].0 == "b"));
    assert!(matches!(&e[1], CatalogEffect::ReplayPending(v) if v.is_empty()));
    assert_eq!(e.len(), 2);
    assert_eq!(logic.tag_ring, vec![strings(&["a", "b"]), strings(&[""])]);
    let e = logic.update_active_content_tags(5, DataKind::Data(0), vec![0, 1], "Head".to_string());
    assert!(matches!(&e[0], CatalogEffect::AppendContent(5, DataKind::Data(0), t, h) if *t == strings(&["a", "b"]) && h == "Head"));
    let e = logic.update_active_content_tags(5, DataKind::Data(0), vec![1], "Head".to_string());
    assert_eq!(e.len(), 1);
    assert!(matches!(&e[0], CatalogEffect::HideContent(5, t) if *t == strings(&["a"])));
    let e = logic.update_active_content_tags(6, DataKind::Data(0), vec![9], "X".to_string());
    assert!(e.is_empty());
    assert!(matches!(&logic.pending[..], [(3, SwarmEvent::NewContent(6, DataKind::Data(0), t, h))] if *t == vec![9u8] && h == "X"));
    let e = logic.cursor_out_of_screen(Direction::Up);
    assert!(matches!(&e[0], CatalogEffect::StreetNames(v) if v.len() == 1 && v[0].0.is_empty()));
    let e = logic.cursor_out_of_screen(Direction::Down);
    assert!(matches!(&e[0], CatalogEffect::StreetNames(v) if v.len() == 2 && v[1].1.len() == 1));
    assert_eq!(logic.tag_ring, vec![strings(&["a", "b"]), strings(&[""])]);
    assert!(logic.cursor_out_of_screen(Direction::Left).is_empty());
}

#[test]
fn catalog_logic_new_and_changed_content() {
    let mut logic = CatalogLogic::new(swarm(7, "/"), 0);
    let e = logic.new_content(0, 4, DataKind::Data(0), vec![], "h".to_string());
    assert!(e.is_empty());
    assert!(matches!(&logic.pending[..], [(0, SwarmEvent::NewContent(4, DataKind::Data(0), _, h))] if h == "h"));
    let mut logic = home_logic();
    assert!(logic.new_content(3, 0, DataKind::Data(0), vec![], "h".to_string()).is_empty());
    let e = logic.new_content(3, 4, DataKind::Data(1), vec![], "h".to_string());
    assert!(matches!(&e[0], CatalogEffect::AppendContent(4, DataKind::Data(1), t, _) if *t == strings(&[""])));
    let e = logic.content_changed(3, 0, DataKind::Data(0), None);
    assert!(matches!(e[0], CatalogEffect::ReadAllPages(3, 0)));
    let e = logic.content_changed(3, 4, DataKind::Data(1), Some(PageChange::Stale));
    assert!(matches!(e[0], CatalogEffect::ReadAllPages(3, 4)));
    let e = logic.content_changed(3, 4, DataKind::Data(1), Some(PageChange::Read(vec![], "h".to_string())));
    assert!(e.is_empty());
}

#[test]
fn catalog_logic_content_listed_and_opened() {
    let mut logic = home_logic();
    logic.tile_selected(TileType::Content(0, 5));
    let e = logic.content_read(
        5,
        DataKind::Data(0),
        vec![0],
        "Desc line\r\nmore".to_string(),
        vec![b"note one\nx".to_vec(), vec![]],
    );
    assert!(matches!(&e[0], CatalogEffect::DisplayIndexer(h) if *h == strings(&["Desc line", "note one", "Nothing to show"])));
    assert!(matches!(&logic.state, CatalogState::Indexing(5, None, _, _, _, _, n) if *n == strings(&["", "note one\nx", ""])));
    let e = logic.index_result(Some(1));
    assert!(matches!(&e[0], CatalogEffect::DisplayEditor(true, true, t, Some(x), true, Some(1024))
        if t == "Page #1" && x == "note one\nx"));
    let e = logic.edit_result(Some("new text".to_string()));
    assert!(matches!(&e[0], CatalogEffect::UpdateData(3, 5, 1, b) if *b == b"new text".to_vec()));
    logic.tile_selected(TileType::Content(0, 5));
    logic.content_read(5, DataKind::Data(0), vec![0], String::new(), vec![]);
    let e = logic.index_result(Some(0));
    assert!(matches!(&e[0], CatalogEffect::DisplayCreator(false, DataKind::Data(0), _, t) if *t == vec![0u8]));
    assert!(matches!(logic.state, CatalogState::Creator(CreatorContext::Data { c_id: Some(5), .. })));
}

#[test]
fn catalog_logic_indexer_headers_defaults() {
    let mut logic = home_logic();
    logic.tile_selected(TileType::Content(0, 5));
    let e = logic.content_read(5, DataKind::Data(0), vec![], "\nsecond".to_string(), vec![]);
    assert!(matches!(&e[0], CatalogEffect::DisplayIndexer(h) if *h == strings(&["No description"])));
    let e = logic.content_read(6, DataKind::Data(0), vec![], String::new(), vec![]);
    assert!(e.is_empty());
}

#[test]
fn catalog_logic_remove_page() {
    let mut logic = home_logic();
    logic.show_context_menu(TileType::Content(0, 5));
    let e = logic.cmenu_action(2);
    assert!(matches!(e[0], CatalogEffect::ReadAllPages(3, 5)));
    assert!(matches!(logic.state, CatalogState::RemovePage(5)));
    let e = logic.content_read(5, DataKind::Data(0), vec![], String::new(), vec![b"p".to_vec()]);
    assert!(matches!(&e[0], CatalogEffect::DisplayIndexer(h) if h.len() == 2));
    assert!(matches!(logic.state, CatalogState::RemovePage(5)));
    let e = logic.index_result(Some(0));
    assert!(e.is_empty());
    assert!(matches!(logic.state, CatalogState::Village));
    logic.state = CatalogState::RemovePage(5);
    let e = logic.index_result(Some(1));
    assert!(matches!(e[0], CatalogEffect::RemoveData(3, 5, 1)));
}

#[test]
fn catalog_logic_tag_options() {
    let mut logic = home_logic();
    logic.manifest_read(vec![(4, "Main".to_string())]);
    logic.show_context_menu(TileType::Home(7));
    let e = logic.cmenu_action(1);
    assert!(matches!(&e[0], CatalogEffect::SelectTags(true, _, None, _)));
    let e = logic.selected_indices(vec![4]);
    assert!(matches!(&e[0], CatalogEffect::PresentOptionsForTag(4, t) if t == "Main"));
    let e = logic.present_options_for_tag(4, "Main".to_string());
    assert!(matches!(&e[0], CatalogEffect::DisplaySelector(true, t, o, _)
        if t == "What to do with Main" && *o == strings(&["Go to street", "Change name", "Add new street", "Cancel"])));
    let e = logic.selected_indices(vec![1]);
    assert!(matches!(&e[0], CatalogEffect::DisplayEditor(false, true, _, Some(t), true, Some(32)) if t == "Main"));
    let e = logic.edit_result(Some(String::new()));
    assert!(e.is_empty());
    logic.present_options_for_tag(4, "Main".to_string());
    logic.selected_indices(vec![1]);
    let e = logic.edit_result(Some("High".to_string()));
    assert!(matches!(&e[0], CatalogEffect::ChangeTag(4, t) if t == "High"));
}

#[test]
fn catalog_logic_searches_and_swarms() {
    let mut logic = home_logic();
    assert!(logic.search_queries(vec![]).is_empty());
    let e = logic.search_queries(vec![("cats".to_string(), 3)]);
    assert!(matches!(&e[0], CatalogEffect::DisplayIndexer(h) if *h == strings(&["cats: 3"])));
    let e = logic.index_result(Some(0));
    assert!(matches!(&e[0], CatalogEffect::GetSearchResults(t) if t == "cats"));
    let e = logic.search_results(vec![(swarm(9, "/"), 2)], strings(&["hit"]));
    assert!(matches!(&e[0], CatalogEffect::DisplayIndexer(h) if *h == strings(&["hit"])));
    let e = logic.index_result(Some(0));
    assert!(matches!(&e[0], CatalogEffect::SetActiveApp(s) if s.founder == 9));
    assert!(matches!(logic.state, CatalogState::ReadLinkToFollow(0, Some((_, 2)))));
    let e = logic.active_swarm(swarm(9, "/"), 4, "nine".to_string());
    assert!(matches!(e[2], CatalogEffect::ReadAllPages(4, 2)));
    assert!(matches!(e[3], CatalogEffect::SwapTiles(9)));
    assert!(matches!(logic.state, CatalogState::ReadRequestForIndexer(2)));
    let e = logic.name_to_id_mapping(vec![(swarm(9, "/"), 2)], strings(&["nine"]));
    assert!(matches!(&e[0], CatalogEffect::DisplayIndexer(h) if *h == strings(&["Swarm ID 2: nine"])));
    let e = logic.index_result(Some(0));
    assert!(matches!(&e[1], CatalogEffect::SwapTiles(9)));
}

#[test]
fn catalog_logic_first_activation_replays() {
    let mut logic = CatalogLogic::new(swarm(7, "/"), 0);
    let e = logic.active_swarm(swarm(7, "/"), 3, "home".to_string());
    assert_eq!(e.len(), 6);
    assert!(matches!(e[2], CatalogEffect::ProvidePublicIps));
    assert!(matches!(&e[3], CatalogEffect::ReplayPostponed(v) if v.is_empty()));
    assert!(matches!(&e[4], CatalogEffect::ReplayPending(v) if v.is_empty()));
    assert!(matches!(e[5], CatalogEffect::ListNeighbors));
    let e = logic.active_swarm(swarm(7, "/"), 3, "home".to_string());
    assert_eq!(e.len(), 4);
}

#[test]
fn catalog_logic_disconnect_of_active_swarm() {
    let mut logic = home_logic();
    let e = logic.swarm_disconnected(3, "home".to_string());
    assert!(matches!(&e[0], CatalogEffect::Notify(t) if t == "home disconnected"));
    assert!(matches!(e[1], CatalogEffect::SwapTiles(0)));
    assert!(matches!(e[2], CatalogEffect::ProvideGnomeToSwarmMapping));
    assert!(logic.swarm_disconnected(4, "x".to_string()).is_empty());
}

#[test]
fn catalog_logic_read_error_and_screen_requests() {
    let mut logic = CatalogLogic::new(swarm(7, "/"), 0);
    assert!(matches!(logic.read_error(2, 0, true)[0], CatalogEffect::ReadAllPages(2, 0)));
    assert!(logic.read_error(2, 1, true).is_empty());
    assert!(logic.content_inquiry(3).is_empty());
    assert!(matches!(logic.postponed[..], [ScreenEvent::ContentInquiry(3)]));
    let mut logic = home_logic();
    assert!(matches!(logic.content_inquiry(3)[0], CatalogEffect::ReadAllPages(3, 3)));
    assert!(matches!(&logic.create_content(DataKind::Data(1), vec![1])[0], CatalogEffect::AppendNewContent(3, DataKind::Data(1), b) if *b == vec![1u8]));
}

#[test]
fn catalog_logic_cids_for_tags() {
    let pages = vec![(1u16, vec![2u8, 9, 4]), (2, vec![0]), (3, vec![2, 3, 4]), (4, vec![1, 8])];
    let r = cids_for_tags(&vec![3, 4], pages);
    assert_eq!(r, vec![(4, 1, vec![2, 9, 4]), (3, 3, vec![2, 3, 4])]);
}

#[test]
fn catalog_logic_first_page_bytes() {
    assert_eq!(first_page(&vec![1, 2], &"Hé".to_string()), vec![2, 1, 2, b'H', 0xC3, 0xA9]);
}

#[test]
fn catalog_logic_context_type_change() {
    let mut c = CreatorContext::Link {
        c_id: Some(3),
        read_only: false,
        s_name: swarm(9, "/"),
        target_id: 4,
        description: "d".to_string(),
        tags: vec![5],
    };
    let t = c.link_target().unwrap();
    assert_eq!((t.0.founder, t.1, t.2), (9, 4, vec![1, 5]));
    c.set_data_type(DataKind::Link);
    assert!(matches!(c, CreatorContext::Link { .. }));
    c.set_data_type(DataKind::Data(1));
    assert!(matches!(&c, CreatorContext::Data { c_id: Some(3), d_type: DataKind::Data(1), tags, .. } if *tags == vec![5u8]));
    assert!(c.link_target().is_none());
    assert_eq!(c.get_tags(), vec![5]);
    assert_eq!(c.description(), "d");
}

#[test]
fn catalog_logic_keys() {
    let logic = home_logic();
    assert!(matches!(logic.handle_key(CatalogKey::ShiftQ), (true, None)));
    assert!(matches!(logic.handle_key(CatalogKey::J), (false, None)));
    assert!(matches!(logic.handle_key(CatalogKey::ShiftD), (false, Some(KeyRequest::ChangeDiameter(3, 10)))));
    assert!(matches!(logic.handle_key(CatalogKey::N), (false, Some(KeyRequest::MulticastSend(0, v))) if v == vec![5u8; 6]));
    assert!(matches!(logic.handle_key(CatalogKey::CtrlU), (false, Some(KeyRequest::TransformLinkRequest(v))) if v.len() == 1024 && v[1023] == 27));
    match logic.handle_key(CatalogKey::C) {
        (false, Some(KeyRequest::ChangeContent(3, 1, DataKind::Data(0), pages))) => {
            assert_eq!(pages.len(), 129);
            assert_eq!(pages[0], vec![0, 70, 91]);
            assert_eq!(pages[128], vec![70, 91]);
        }
        other => panic!("unexpected {:?}", other),
    }
}

#[test]
fn catalog_logic_type_codes() {
    for b in [0u8, 1, 2, 254, 255] {
        assert_eq!(code_from_kind(kind_from_code(b)), b);
    }
    assert_eq!(kind_from_code(255), DataKind::Link);
    assert_eq!(kind_from_code(3), DataKind::Data(3));
}

#[test]
fn catalog_logic_postponed_requests_come_back_in_order() {
    let mut logic = CatalogLogic::new(swarm(7, "/"), 0);
    assert!(logic.create_content(DataKind::Data(1), vec![5]).is_empty());
    assert!(logic.update_content(2, DataKind::Data(0), vec![vec![1], vec![2]]).is_empty());
    assert!(logic.content_inquiry(4).is_empty());
    let e = logic.active_swarm(swarm(7, "/"), 3, "home".to_string());
    assert!(matches!(&e[3], CatalogEffect::ReplayPostponed(v) if matches!(&v[..], [
        ScreenEvent::CreateContent(DataKind::Data(1), d),
        ScreenEvent::UpdateContent(2, DataKind::Data(0), p),
        ScreenEvent::ContentInquiry(4),
    ] if *d == vec![5u8] && *p == vec![vec![1u8], vec![2]])));
    assert!(logic.home_swarm_enforced);
    assert!(matches!(logic.content_inquiry(4)[0], CatalogEffect::ReadAllPages(3, 4)));
}

#[test]
fn catalog_logic_pending_messages_come_back_for_their_swarm() {
    let mut logic = CatalogLogic::new(swarm(7, "/"), 0);
    assert!(logic.neighbors(3, vec![1]).is_empty());
    assert!(logic.neighbor_left(5, 2).is_empty());
    assert!(logic.new_content(3, 8, DataKind::Data(0), vec![1], "h".to_string()).is_empty());
    let e = logic.active_swarm(swarm(7, "/"), 3, "home".to_string());
    assert!(matches!(&e[4], CatalogEffect::ReplayPending(v) if matches!(&v[..], [
        SwarmEvent::Neighbors(n),
        SwarmEvent::NewContent(8, DataKind::Data(0), t, h),
    ] if *n == vec![1u64] && *t == vec![1u8] && h == "h")));
    assert!(matches!(&logic.pending[..], [(5, SwarmEvent::NeighborLeft(2))]));
    let e = logic.manifest_read(vec![(0, "a".to_string())]);
    assert!(e.iter().any(|x| matches!(x, CatalogEffect::ReplayPending(v) if v.is_empty())));
    assert_eq!(logic.pending.len(), 1);
}

#[test]
fn catalog_logic_public_addresses_gathered_once() {
    let mut logic = home_logic();
    let a = (0xffff_0a00_0001u128, 1026u16, 1u8, 0u8, 0i8);
    let b = (0xffff_0a00_0002u128, 1027u16, 2u8, 1u8, -1i8);
    logic.public_ips(vec![a, b, a]);
    logic.public_ips(vec![b]);
    assert_eq!(logic.pub_ips, vec![a, b]);
    let e = logic.manifest_read(vec![(0, "a".to_string())]);
    assert!(matches!(e.last(), Some(CatalogEffect::SyncPublicIps(v)) if *v == vec![a, b]));
    assert!(logic.pub_ips.is_empty());
    let e = logic.manifest_read(vec![(0, "a".to_string())]);
    assert!(!e.iter().any(|x| matches!(x, CatalogEffect::SyncPublicIps(_))));
}

#[test]
fn village_keys_follow_the_table() {
    assert_eq!(village_step(CatalogKey::Space), VillageStep::ContextMenu);
    assert_eq!(village_step(CatalogKey::AltEnter), VillageStep::ContextMenu);
    assert_eq!(village_step(CatalogKey::H), VillageStep::Move(Direction::Left));
    assert_eq!(village_step(CatalogKey::CtrlF), VillageStep::Move(Direction::Right));
    assert_eq!(village_step(CatalogKey::K), VillageStep::Move(Direction::Up));
    assert_eq!(village_step(CatalogKey::J), VillageStep::Move(Direction::Down));
    assert_eq!(village_step(CatalogKey::Home), VillageStep::HomeTile);
    assert_eq!(village_step(CatalogKey::End), VillageStep::RowEnd);
    assert_eq!(village_step(CatalogKey::Enter), VillageStep::SelectTile);
    assert_eq!(village_step(CatalogKey::AltCtrlH), VillageStep::HomeSwarm);
    assert_eq!(village_step(CatalogKey::F), VillageStep::SwitchToForum);
    assert_eq!(village_step(CatalogKey::Q), VillageStep::Pass(CatalogKey::Q, true));
    assert_eq!(village_step(CatalogKey::ShiftQ), VillageStep::Pass(CatalogKey::ShiftQ, true));
    assert_eq!(village_step(CatalogKey::U), VillageStep::Pass(CatalogKey::U, false));
}
