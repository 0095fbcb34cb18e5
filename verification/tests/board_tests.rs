use village_tui::board::{paginate, Board, Listing, PageRequest, PageView};
use village_tui::entry::Entry;

fn board(rows: usize) -> Board {
    Board::new((80, rows), 0)
}

fn topic(tags: Vec<u8>, text: &str) -> Entry {
    Entry::new(1, tags, text.to_string(), 0)
}

#[test]
fn page_size_follows_the_screen() {
    let b = board(13);
    assert_eq!(b.entries_count, 5);
    assert_eq!(b.entry_max_len, 76);
    assert_eq!(b.menu_pages, vec![Vec::<u16>::new()]);
    assert_eq!(Board::new((40, 3), 0).entry_max_len, 60);
}

#[test]
fn pages_list_every_id_in_order() {
    let ids: Vec<u16> = (0..7).collect();
    let pages = paginate(&ids, 3);
    assert_eq!(pages, vec![vec![0, 1, 2], vec![3, 4, 5], vec![6]]);
    assert_eq!(paginate(&vec![], 3), vec![Vec::<u16>::new()]);
    assert_eq!(paginate(&ids, 0), vec![ids.clone()]);
    assert_eq!(paginate(&vec![1, 2], 2), vec![vec![1, 2]]);
}

#[test]
fn topics_are_filtered_by_category_and_text() {
    let mut b = board(9);
    b.all_topics = vec![
        topic(vec![1], "rust news"),
        topic(vec![2], "cooking"),
        topic(vec![1, 3], "more rust"),
        topic(vec![], "rust without tags"),
    ];
    b.filter_topics();
    assert_eq!(b.menu_pages, vec![vec![0, 1, 2], vec![3]]);
    b.category_filter = Some(vec![1]);
    b.filter_topics();
    assert_eq!(b.menu_pages, vec![vec![0, 2]]);
    b.text_filter = Some("more".to_string());
    b.filter_topics();
    assert_eq!(b.menu_pages, vec![vec![2]]);
    b.category_filter = Some(vec![9]);
    b.filter_topics();
    assert_eq!(b.menu_pages, vec![Vec::<u16>::new()]);
}

#[test]
fn lobby_pages_extend_to_new_topics() {
    let mut b = board(9);
    b.extend_main_pages_until(4);
    assert_eq!(b.menu_pages, vec![vec![0, 1, 2], vec![3, 4]]);
    b.extend_main_pages_until(2);
    assert_eq!(b.menu_pages, vec![vec![0, 1, 2], vec![3, 4]]);
    b.extend_main_pages_until(6);
    assert_eq!(b.menu_pages, vec![vec![0, 1, 2], vec![3, 4, 5], vec![6]]);
}

#[test]
fn next_and_previous_pages() {
    let mut b = board(9);
    b.menu_pages = vec![vec![0, 1, 2], vec![3]];
    b.view = PageView::MainLobby(Some(0));
    assert_eq!(b.show_next_page(), None);
    assert_eq!(b.view, PageView::MainLobby(Some(1)));
    assert_eq!(b.show_next_page(), None);
    assert_eq!(b.view, PageView::MainLobby(Some(0)));
    b.view = PageView::MainLobby(Some(1));
    assert_eq!(b.show_previous_page(), Some(PageRequest::ReadFirstPages(0, 2)));
    assert_eq!(b.view, PageView::MainLobby(Some(0)));
    assert_eq!(b.show_previous_page(), None);
    b.view = PageView::Topic(4, Some(1));
    assert_eq!(b.show_next_page(), Some(PageRequest::ReadPagesRange(4, 6, 8)));
    assert_eq!(b.view, PageView::Topic(4, Some(2)));
    assert_eq!(b.show_first_page(), Some(PageRequest::ReadPagesRange(4, 0, 2)));
    assert_eq!(b.show_last_page(), Some(PageRequest::ReadPagesRange(4, 3, 0)));
    assert_eq!(b.view, PageView::Topic(4, Some(u16::MAX)));
    b.view = PageView::Elsewhere;
    assert_eq!(b.show_next_page(), None);
    assert_eq!(b.view, PageView::Elsewhere);
}

#[test]
fn clipboard_refers_to_the_listed_entry() {
    let mut b = board(9);
    b.view = PageView::MainLobby(Some(2));
    assert_eq!(b.set_clipboard(1), 7);
    b.view = PageView::Topic(5, None);
    assert_eq!(b.set_clipboard(1), 5);
    b.view = PageView::Elsewhere;
    assert_eq!(b.set_clipboard(1), 1);
}

#[test]
fn posts_of_a_page() {
    let mut b = board(9);
    b.posts = (0..7).map(|i| topic(vec![], &format!("p{i}"))).collect();
    assert_eq!(b.read_posts(1, 3), vec![3, 4, 5]);
    assert_eq!(b.read_posts(2, 3), vec![6]);
    assert_eq!(b.read_posts(5, 3), Vec::<u16>::new());
    assert_eq!(b.read_posts(u16::MAX, 3), vec![5]);
}

#[test]
fn presenting_picks_the_page() {
    let mut b = board(9);
    b.menu_pages = vec![vec![0, 1, 2], vec![3]];
    b.view = PageView::MainLobby(Some(u16::MAX));
    match b.present() {
        Some(Listing::Topics(pg, ids)) => {
            assert_eq!(pg, 1);
            assert_eq!(ids, vec![3]);
        }
        _ => panic!("the lobby lists topics"),
    }
    assert_eq!(b.view, PageView::MainLobby(Some(1)));
    b.posts = (0..4).map(|i| topic(vec![], &format!("p{i}"))).collect();
    b.view = PageView::Topic(2, Some(5));
    match b.present() {
        Some(Listing::Posts(pg, ids)) => {
            assert_eq!(pg, 0);
            assert_eq!(ids, vec![0, 1, 2]);
        }
        _ => panic!("a topic lists posts"),
    }
}

#[test]
fn updating_a_topic_pads_and_reports_changes() {
    let mut b = board(9);
    assert!(b.update_topic(2, topic(vec![], "hello")));
    assert_eq!(b.all_topics.len(), 3);
    assert_eq!(b.all_topics[0].text, "Empty");
    assert!(!b.update_topic(2, topic(vec![5], "hello")));
    assert!(b.update_topic(2, Entry::new(9, vec![], "hello".to_string(), 0)));
    b.update_post(1, topic(vec![], "post"));
    assert_eq!(b.posts.len(), 2);
    assert_eq!(b.posts[1].text, "post");
}
