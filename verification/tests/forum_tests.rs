use village_tui::creator::CreatorResult;
use village_tui::entry::Entry;
use village_tui::forum::{
    AppKind, ViewMsg,
    byteset_members, gid_string, labelled_range, numbered, retry_rejected, AppMsg, ByteSet,
    DataKind, EditorResult, ForumEffect, ForumLogic, ForumState, ForumSyncMessage, ListKind,
    QueryContext, Rejected, TopicContext,
};
use village_tui::poledit::{decompose, PolAction, Requirement};

fn ctx() -> QueryContext {
    QueryContext {
        description: "About the forum".to_string(),
        tags: vec![(0, "news".to_string()), (3, "misc".to_string())],
        all_tag_names: vec!["news".to_string(), "misc".to_string()],
        first_post_tag_names: vec!["misc".to_string()],
        stored_requirement: None,
        capability_members: None,
    }
}

fn logic() -> ForumLogic<u8> {
    ForumLogic::new(77, (80, 24), 0)
}

#[test]
fn gid_is_sixteen_hex_digits() {
    assert_eq!(gid_string(0x1234), "GID-0000000000001234");
    assert_eq!(gid_string(u64::MAX), "GID-ffffffffffffffff");
}

#[test]
fn numbered_labels() {
    assert_eq!(numbered("Pair ", 12), "Pair 12");
    assert_eq!(numbered("B", 0), "B0");
    assert_eq!(labelled_range("B", 3), vec!["B0", "B1", "B2"]);
}

#[test]
fn byteset_members_in_order() {
    assert_eq!(byteset_members(&ByteSet::Bytes(vec![3, 1]), 5), vec![1, 3]);
    assert_eq!(byteset_members(&ByteSet::Pairs(vec![300]), 256), Vec::<usize>::new());
    assert_eq!(byteset_members(&ByteSet::Empty, 10), Vec::<usize>::new());
}

#[test]
fn message_written_and_read_back() {
    let m = ForumSyncMessage::AddTopic(0, Entry::new(7, vec![1, 2], "hello".to_string(), 0));
    let (t, c, d, data) = m.into_app_msg();
    assert_eq!((t, c, d), (1, 0, 0));
    let back = ForumSyncMessage::parse_app_msg(AppMsg { m_type: t, c_id: c, d_id: d, data, hash: 9 });
    match back {
        Some(ForumSyncMessage::AddTopic(0, e)) => {
            assert_eq!(e.author, 7);
            assert_eq!(e.tags, vec![1, 2]);
            assert_eq!(e.text, "hello");
            assert_eq!(e.hash, 9);
        }
        other => panic!("unexpected {:?}", other),
    }
}

#[test]
fn edited_post_message_is_plain() {
    let m = ForumSyncMessage::EditPost(4, 2, Entry::new(1, vec![], "x".to_string(), 0));
    let (t, c, d, data) = m.into_app_msg();
    assert_eq!((t, c, d), (0, 4, 2));
    assert_eq!(data, vec![0, 0, 0, 0, 0, 0, 0, 1, b'x']);
}

#[test]
fn unknown_message_type_is_not_read() {
    let m = AppMsg { m_type: 3, c_id: 0, d_id: 0, data: vec![0; 9], hash: 0 };
    assert!(ForumSyncMessage::parse_app_msg(m).is_none());
}

#[test]
fn lobby_query_reads_topic() {
    let mut f = logic();
    f.main_menu();
    assert!(matches!(f.state, ForumState::MainLobby(Some(0))));
    let e = f.serve_query(5, ctx());
    assert!(matches!(f.state, ForumState::Topic(5, None)));
    assert_eq!(e.len(), 1);
    assert!(matches!(e[0], ForumEffect::ReadPagesRange(5, 0, 9)));
}

#[test]
fn lobby_query_zero_opens_description() {
    let mut f = logic();
    f.main_menu();
    let e = f.serve_query(0, ctx());
    match &e[0] {
        ForumEffect::OpenCreator(c) => {
            assert_eq!(c.t_id, Some(0));
            assert_eq!(c.description, "About the forum");
            assert_eq!(c.tags, vec![0, 3]);
            assert_eq!(c.tag_names, vec!["news", "misc"]);
        }
        other => panic!("unexpected {:?}", other),
    }
    assert!(matches!(f.state, ForumState::TopicEditing(_)));
}

#[test]
fn query_in_unknown_page_is_ignored() {
    let mut f = logic();
    let e = f.serve_query(3, ctx());
    assert!(e.is_empty());
    assert!(matches!(f.state, ForumState::MainLobby(None)));
}

#[test]
fn settings_query_edits_description() {
    let mut f = logic();
    f.show_settings();
    let e = f.serve_query(0, ctx());
    match &e[0] {
        ForumEffect::OpenEditor(p) => {
            assert_eq!(p.title, "Editing Forum's description");
            assert_eq!(p.initial_text.as_deref(), Some("About the forum"));
            assert_eq!(p.text_limit, Some(1000));
            assert!(p.allow_newlines && !p.read_only);
        }
        other => panic!("unexpected {:?}", other),
    }
    assert!(matches!(f.state, ForumState::Editing(None, _)));
}

#[test]
fn stored_capability_query_lists_members() {
    let mut f = logic();
    let codes = vec![4u8];
    let names = vec!["Admin".to_string()];
    let e = f.stored_capabilities(&codes, &names);
    match &e[0] {
        ForumEffect::ListPage(ListKind::StoredCapabilities, 0, l) => {
            assert_eq!(l, &vec![(4u16, "Admin".to_string())]);
        }
        other => panic!("unexpected {:?}", other),
    }
    let mut c = ctx();
    c.capability_members = Some(vec![1, 2]);
    let e = f.serve_query(4, c);
    match &e[0] {
        ForumEffect::ShowCapability(4, l) => {
            assert_eq!(l[0], (0, "GID-0000000000000001".to_string()));
            assert_eq!(l[1], (1, "GID-0000000000000002".to_string()));
        }
        other => panic!("unexpected {:?}", other),
    }
    assert!(matches!(&f.state, ForumState::Capability(4, v) if v == &vec![1, 2]));
}

#[test]
fn heap_request_shown_then_released() {
    let mut f = logic();
    let m = ForumSyncMessage::AddTopic(0, Entry::new(5, vec![], "Hi".to_string(), 0));
    let e = f.heap_data(m, 3, "GID-5");
    match &e[0] {
        ForumEffect::Request(l) => {
            assert_eq!(l.len(), 1);
            assert!(l[0].1.starts_with("Add Topic: Hi "));
            assert!(l[0].1.ends_with(" GID-5"));
        }
        other => panic!("unexpected {:?}", other),
    }
    assert!(matches!(f.state, ForumState::HeapSorting(Some((_, 3)), None)));
    let again = ForumSyncMessage::AddTopic(0, Entry::new(5, vec![], "Hi".to_string(), 0));
    let e = f.heap_data(again, 3, "GID-5");
    assert!(matches!(e[0], ForumEffect::PeekHeap));
    assert!(matches!(f.state, ForumState::HeapSorting(None, None)));
    assert!(f.last_heap_msg.is_none());
}

#[test]
fn heap_edit_request_reads_original() {
    let mut f = logic();
    let m = ForumSyncMessage::EditPost(2, 7, Entry::new(5, vec![], "New".to_string(), 0));
    let e = f.heap_data(m, 1, "me");
    assert_eq!(e.len(), 2);
    match &e[0] {
        ForumEffect::Request(l) => {
            assert_eq!(l[0], (0, "Orig: Pending (2-7)".to_string()));
            assert!(l[1].1.starts_with("Modif: New"));
        }
        other => panic!("unexpected {:?}", other),
    }
    assert!(matches!(e[1], ForumEffect::ReadPagesRange(2, 7, 7)));
}

#[test]
fn empty_heap_says_so() {
    let mut f = logic();
    let e = f.heap_empty();
    match &e[0] {
        ForumEffect::Request(l) => assert_eq!(l, &vec![(0u16, "No Requests pending".to_string())]),
        other => panic!("unexpected {:?}", other),
    }
}

#[test]
fn category_added_in_editor() {
    let mut f = logic();
    let e = f.add_category();
    match &e[0] {
        ForumEffect::OpenEditor(p) => {
            assert_eq!(p.title, "Add new Category (oneline, 32 bytes max)");
            assert_eq!(p.initial_text.as_deref(), Some("NewCategory"));
            assert_eq!(p.text_limit, Some(32));
        }
        other => panic!("unexpected {:?}", other),
    }
    assert!(matches!(&f.state, ForumState::Editing(Some(1), prev) if matches!(**prev, ForumState::Settings)));
}

#[test]
fn new_byteset_made_from_selection() {
    let mut f = logic();
    f.state = ForumState::ByteSets(false, None);
    let e = f.add_new_action(false, vec![], vec![], vec![], &vec![]);
    match &e[0] {
        ForumEffect::Select(false, s, pre) => {
            assert_eq!(s.len(), 256);
            assert_eq!(s[255], "B255");
            assert!(pre.is_empty());
        }
        other => panic!("unexpected {:?}", other),
    }
    let e = f.serve_selected(vec![1, 2], &vec![]);
    match &e[0] {
        ForumEffect::ListPage(ListKind::StoredByteSets, 0, l) => {
            assert_eq!(l, &vec![(0u16, "ByteSet(0)".to_string())]);
        }
        other => panic!("unexpected {:?}", other),
    }
    match &f.state {
        ForumState::ByteSets(false, Some((0, m))) => {
            assert_eq!(m.len(), 1);
            assert!(matches!(&m[0], (0, ByteSet::Bytes(v)) if v == &vec![1, 2]));
        }
        other => panic!("unexpected {:?}", other),
    }
}

#[test]
fn empty_selection_goes_to_lobby() {
    let mut f = logic();
    f.state = ForumState::SelectingOnePolicy(vec![1, 2], decompose(Requirement::Nil));
    let e = f.serve_selected(vec![], &vec![]);
    assert!(e.is_empty());
    assert!(matches!(f.state, ForumState::MainLobby(None)));
}

#[test]
fn capabilities_offered_without_stored_ones() {
    let mut f = logic();
    f.state = ForumState::StoredCapabilities(Some(0));
    let names = vec!["a".to_string(), "b".to_string(), "c".to_string()];
    let e = f.add_new_action(false, vec![], vec![1, 2, 3], names.clone(), &vec![2]);
    match &e[0] {
        ForumEffect::Select(true, s, _) => assert_eq!(s, &vec!["a".to_string(), "c".to_string()]),
        other => panic!("unexpected {:?}", other),
    }
    assert!(matches!(&f.state, ForumState::SelectingOneCapability(v, _) if v == &vec![1, 3]));
    let mut g = logic();
    g.state = ForumState::StoredCapabilities(Some(0));
    let e = g.add_new_action(false, vec![], vec![1, 2, 3], names, &vec![9, 1]);
    match &e[0] {
        ForumEffect::Select(true, s, _) => assert_eq!(s.len(), 3),
        other => panic!("unexpected {:?}", other),
    }
}

#[test]
fn stored_policy_sent_and_lobby_shown() {
    let mut f = logic();
    let e = f.serve_pol_action(PolAction::Store(9, decompose(Requirement::Has(3))), vec![], vec![], vec![]);
    assert_eq!(e.len(), 2);
    assert!(matches!(&e[0], ForumEffect::StorePolicy(9, Requirement::Has(3))));
    assert!(matches!(&e[1], ForumEffect::TopicsPage(0, l) if l.is_empty()));
    assert!(matches!(f.state, ForumState::MainLobby(Some(0))));
}

#[test]
fn post_pages_forward_and_back() {
    let mut f = logic();
    f.state = ForumState::ShowingPost(4, 2);
    let e = f.process_edit_result(EditorResult::NextPage, None);
    assert!(matches!(f.state, ForumState::ShowingPost(4, 3)));
    assert!(matches!(e[0], ForumEffect::ReadPagesRange(4, 3, 3)));
    let e = f.process_edit_result(EditorResult::PrevPage, None);
    assert!(matches!(f.state, ForumState::ShowingPost(4, 2)));
    assert!(matches!(e[0], ForumEffect::ReadPagesRange(4, 2, 2)));
    let e = f.process_edit_result(EditorResult::Close, None);
    assert!(e.is_empty());
    assert!(matches!(f.state, ForumState::Topic(4, None)));
}

#[test]
fn new_topic_created_from_creator() {
    let mut f = logic();
    f.state = ForumState::TopicEditing(TopicContext {
        t_id: None,
        description: "Hi".to_string(),
        tags: vec![2],
        tag_names: vec![],
    });
    let e = f.process_creator_result(CreatorResult::Create);
    match &e[0] {
        ForumEffect::AppendContent(b) => {
            assert_eq!(b, &vec![1, 2, 0, 0, 0, 0, 0, 0, 0, 77, b'H', b'i']);
        }
        other => panic!("unexpected {:?}", other),
    }
    assert!(matches!(f.state, ForumState::MainLobby(None)));
}

#[test]
fn rejected_post_retried_as_pending() {
    let bytes = vec![0, 0, 0, 0, 0, 0, 0, 9, b'o', b'k'];
    let r = retry_rejected(Rejected::AppendData(5), &bytes, 1);
    assert_eq!(r, Some((2, 5, 0, bytes.clone())));
    assert_eq!(retry_rejected(Rejected::Other, &bytes, 1), None);
}

#[test]
fn capability_member_deleted() {
    let mut f = logic();
    f.state = ForumState::Capability(2, vec![10, 20, 30]);
    let e = f.delete_action(1);
    assert!(matches!(&f.state, ForumState::Capability(2, v) if v == &vec![10, 30]));
    match &e[0] {
        ForumEffect::ShowGnomes(2, l) => assert_eq!(l, &vec![(0u16, 10u64), (1, 30)]),
        other => panic!("unexpected {:?}", other),
    }
}

#[test]
fn accepted_topic_request_appended_and_dropped() {
    let mut f = logic();
    let m = ForumSyncMessage::AddTopic(0, Entry::new(5, vec![1], "T".to_string(), 0));
    let _ = f.heap_data(m, 3, "x");
    let e = f.edit_action(0, "x");
    assert_eq!(e.len(), 2);
    assert!(matches!(&e[0], ForumEffect::AppendContent(b) if b == &vec![1, 1, 0, 0, 0, 0, 0, 0, 0, 5, b'T']));
    assert!(matches!(e[1], ForumEffect::PopHeap));
    assert!(matches!(f.state, ForumState::Settings));
}

#[test]
fn edit_in_topic_reads_the_post() {
    let mut f = logic();
    f.state = ForumState::Topic(3, Some(2));
    let e = f.edit_action(4, "");
    assert!(matches!(e[0], ForumEffect::ReadPagesRange(3, 24, 24)));
    assert!(matches!(&f.state, ForumState::Editing(None, prev) if matches!(**prev, ForumState::Topic(3, Some(2)))));
}

#[test]
fn topic_posts_taken_in() {
    let mut f = logic();
    f.main_menu();
    let _ = f.serve_query(1, ctx());
    let first = Entry::new(9, vec![4], "Head".to_string(), 0).into_data(false);
    let second = Entry::new(8, vec![], "Reply".to_string(), 0).into_data(true);
    let e = f.process_content(1, DataKind::Data(0), 0, vec![(first, 11), (second, 12)]);
    assert!(e.is_empty());
    assert_eq!(f.board.posts.len(), 2);
    assert_eq!(f.board.posts[0].text, "Head");
    assert_eq!(f.board.posts[1].text, "Reply");
    assert_eq!(f.board.posts[1].hash, 12);
    assert_eq!(f.board.all_topics.len(), 2);
    assert_eq!(f.board.all_topics[1].text, "Head");
    assert_eq!(f.board.all_topics[0].text, "Empty");
}

#[test]
fn link_content_ignored() {
    let mut f = logic();
    let e = f.process_content(1, DataKind::Link, 0, vec![(vec![0; 12], 0)]);
    assert!(e.is_empty());
    assert!(f.board.all_topics.is_empty());
}

#[test]
fn shown_post_opens_read_only() {
    let mut f = logic();
    f.state = ForumState::ShowingPost(2, 3);
    let page = Entry::new(9, vec![], "Body".to_string(), 0).into_data(true);
    let e = f.process_content(2, DataKind::Data(0), 3, vec![(page, 0)]);
    match &e[0] {
        ForumEffect::OpenEditor(p) => {
            assert_eq!(p.title, "Topic #2, Post #3");
            assert_eq!(p.initial_text.as_deref(), Some("Body"));
            assert!(p.read_only);
        }
        other => panic!("unexpected {:?}", other),
    }
    assert!(matches!(f.state, ForumState::ShowingPost(2, 3)));
}

#[test]
fn manifest_line_is_first_line_trimmed() {
    let mut f = logic();
    let changed = f.process_manifest("  Our forum \nmore".to_string(), 42);
    assert_eq!(f.board.posts[0].text, "Our forum");
    assert!(changed);
    assert_eq!(f.board.posts[0].author, 42);
    assert_eq!(f.board.all_topics[0].author, 42);
    let mut g = logic();
    let _ = g.process_manifest(String::new(), 1);
    assert_eq!(g.board.posts[0].text, "Manifest: no description");
}

#[test]
fn changed_manifest_and_topic_reread() {
    let mut f = logic();
    f.state = ForumState::Topic(0, Some(1));
    let e = f.content_changed(0);
    assert_eq!(e.len(), 2);
    assert!(matches!(e[0], ForumEffect::ReadAllPages(0)));
    assert!(matches!(e[1], ForumEffect::ReadPagesRange(0, 10, 19)));
    assert!(f.content_changed(5).is_empty());
}

#[test]
fn search_text_filters_and_shows_first_page() {
    let mut f = logic();
    let e = f.filter(false, vec![]);
    assert_eq!(e.len(), 1);
    assert!(matches!(f.state, ForumState::Filtering));
    let e = f.process_edit_result(EditorResult::Text("  cats  ".to_string()), None);
    assert_eq!(f.board.text_filter, Some("cats".to_string()));
    assert!(matches!(f.state, ForumState::MainLobby(Some(0))));
    assert_eq!(e.len(), 1);
    assert!(matches!(&e[0], ForumEffect::ShowTopics(0, ids) if ids.is_empty()));
}

#[test]
fn category_filter_shows_first_page() {
    let mut f = logic();
    f.filter(true, vec!["news".to_string(), "misc".to_string()]);
    let e = f.serve_selected(vec![1], &vec![]);
    assert_eq!(f.board.category_filter, Some(vec![1u8]));
    assert!(matches!(f.state, ForumState::MainLobby(Some(0))));
    assert!(matches!(&e[0], ForumEffect::ShowTopics(0, ids) if ids.is_empty()));
}

#[test]
fn cancelled_topic_edit_shows_first_page() {
    let mut f = logic();
    f.state = ForumState::TopicEditing(TopicContext {
        t_id: Some(5),
        description: "Hi".to_string(),
        tags: vec![],
        tag_names: vec![],
    });
    let e = f.process_creator_result(CreatorResult::Cancel);
    assert!(matches!(f.state, ForumState::Topic(5, Some(0))));
    assert!(matches!(&e[0], ForumEffect::ShowPosts(0, ids) if ids.is_empty()));
    f.state = ForumState::TopicEditing(TopicContext {
        t_id: None,
        description: "Hi".to_string(),
        tags: vec![],
        tag_names: vec![],
    });
    let e = f.process_creator_result(CreatorResult::Cancel);
    assert!(matches!(f.state, ForumState::MainLobby(Some(0))));
    assert_eq!(e.len(), 1);
    assert!(matches!(&e[0], ForumEffect::ShowTopics(0, ids) if ids.is_empty()));
}

#[test]
fn clipboard_takes_the_content_pointed_at() {
    let mut f = logic();
    f.state = ForumState::MainLobby(Some(2));
    let n = f.board.entries_count;
    assert_eq!(f.copy_to_clipboard(9, 3), 2 * n + 3);
    assert_eq!(f.clipboard_founder, Some(9));
    f.state = ForumState::Topic(7, None);
    assert_eq!(f.copy_to_clipboard(4, 3), 7);
    assert_eq!(f.clipboard_founder, Some(4));
    f.state = ForumState::Settings;
    assert_eq!(f.copy_to_clipboard(4, 5), 5);
}

#[test]
fn link_to_any_gnome_opens_own_swarm() {
    let f = logic();
    assert_eq!(f.link_swarm(0, "/".to_string()), (77, "/".to_string()));
    assert_eq!(f.link_swarm(12, "/x".to_string()), (12, "/x".to_string()));
}

#[test]
fn leaving_the_forum() {
    let mut f = logic();
    let (ends, to, e) = f.serve_view_msg(ViewMsg::Quit);
    assert!(ends && to.is_none() && e.is_empty());
    let (ends, to, e) = f.serve_view_msg(ViewMsg::SwitchTo(AppKind::Forum, 5, "/f".to_string()));
    assert!(ends && e.is_empty());
    assert_eq!(to, Some((AppKind::Forum, 5, "/f".to_string())));
    let (ends, to, e) = f.serve_view_msg(ViewMsg::FollowLink(0, "/".to_string(), 3, 0));
    assert!(ends);
    assert_eq!(to, Some((AppKind::Catalog, 77, "/".to_string())));
    assert!(matches!(e[..], [ForumEffect::Finish]));
    let (_, to, _) = f.serve_view_msg(ViewMsg::FollowLink(9, "/".to_string(), 3, 0));
    assert_eq!(to, Some((AppKind::Catalog, 9, "/".to_string())));
    f.state = ForumState::Topic(7, None);
    let (ends, to, e) = f.serve_view_msg(ViewMsg::CopyToClipboard(2, 4));
    assert!(!ends && to.is_none() && e.is_empty());
    assert_eq!(f.clipboard_founder, Some(4));
}

#[test]
fn links_and_short_pages_are_ignored() {
    let mut f = logic();
    let e = f.process_content(1, DataKind::Link, 0, vec![(vec![1, 2], 0)]);
    assert!(e.is_empty());
    assert!(f.board.all_topics.is_empty());
    let e = f.process_content(1, DataKind::Data(0), 0, vec![(vec![0, 0, 0], 0)]);
    assert!(e.is_empty());
    assert!(f.board.all_topics.is_empty());
    let e = f.process_content(1, DataKind::Data(3), 0, vec![]);
    assert!(e.is_empty());
}
