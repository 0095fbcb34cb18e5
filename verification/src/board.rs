//! The forum's lists: topic headers and posts, filtering topics by category
//! and text, splitting them into pages of the screen's size, and moving
//! between pages.
use crate::chars::chars_of;
use crate::entry::{line_text, Entry};
use vstd::prelude::*;

verus! {

broadcast use Seq::lemma_flatten_push;

/// Some position of `s` starts a copy of `p`.
pub open spec fn contains_seq(s: Seq<char>, p: Seq<char>) -> bool {
    exists|i: int| 0 <= i && i + p.len() <= s.len() && #[trigger] s.subrange(i, i + p.len()) == p
}

/// Some tag of `tags` is one of `cats`.
pub open spec fn any_tag_in(tags: Seq<u8>, cats: Seq<u8>) -> bool {
    exists|j: int| 0 <= j < tags.len() && cats.contains(#[trigger] tags[j])
}

/// A topic passes the category filter (one of its tags is listed) and the
/// text filter (its text contains the filter text); a missing filter passes all.
pub open spec fn passes(e: Entry, cats: Option<Seq<u8>>, text: Option<Seq<char>>) -> bool {
    &&& (cats matches Some(c) ==> any_tag_in(e.tags@, c))
    &&& (text matches Some(t) ==> contains_seq(e.text@, t))
}

/// The ids below `i` of the topics that pass the filters, in order.
pub open spec fn matching(
    topics: Seq<Entry>,
    cats: Option<Seq<u8>>,
    text: Option<Seq<char>>,
    i: int,
) -> Seq<u16>
    decreases i,
{
    if i <= 0 {
        seq![]
    } else {
        let before = matching(topics, cats, text, i - 1);
        if passes(topics[i - 1], cats, text) {
            before.push((i - 1) as u16)
        } else {
            before
        }
    }
}

/// Pages of `n` entries: at least one page, every page but the last full,
/// the last one not longer than `n` and not empty unless it is the only
/// one; with `n == 0` a single page.
pub open spec fn well_paged(pages: Seq<Seq<u16>>, n: int) -> bool {
    &&& pages.len() >= 1
    &&& forall|k: int| 0 <= k < pages.len() - 1 ==> (#[trigger] pages[k]).len() == n
    &&& n > 0 ==> pages.last().len() <= n
    &&& pages.len() > 1 ==> pages.last().len() > 0
    &&& n == 0 ==> pages.len() == 1
}

/// `pages` lists `ids` in order, split into pages of `n`.
pub open spec fn paged(pages: Seq<Seq<u16>>, ids: Seq<u16>, n: int) -> bool {
    pages.flatten() == ids && well_paged(pages, n)
}

/// The ids `from..=to`.
pub open spec fn id_range(from: int, to: int) -> Seq<u16> {
    Seq::new((to + 1 - from) as nat, |i: int| (from + i) as u16)
}

/// Where the list screens are: the main lobby or a topic, each with the
/// page shown when one is; or anywhere else.
#[derive(Clone, Copy, Debug, PartialEq, Eq, Structural)]
pub enum PageView {
    MainLobby(Option<u16>),
    Topic(u16, Option<u16>),
    Elsewhere,
}

/// A request for pages of data: of a topic (`topic`, from, to), or of the
/// topics' first pages (from, to).
#[derive(Clone, Copy, Debug, PartialEq, Eq, Structural)]
pub enum PageRequest {
    ReadPagesRange(u16, u16, u16),
    ReadFirstPages(u16, u16),
}

/// The view after asking for the first page, and what is asked of the store.
pub open spec fn first_page(view: PageView, n: u16) -> (PageView, Option<PageRequest>) {
    match view {
        PageView::MainLobby(_) => (PageView::MainLobby(Some(0)), None),
        PageView::Topic(t, _) => (
            PageView::Topic(t, Some(0)),
            Some(PageRequest::ReadPagesRange(t, 0, (n - 1) as u16)),
        ),
        PageView::Elsewhere => (view, None),
    }
}

/// The view after asking for the last page (`u16::MAX` stands for it).
pub open spec fn last_page(view: PageView, n: u16) -> (PageView, Option<PageRequest>) {
    match view {
        PageView::MainLobby(_) => (PageView::MainLobby(Some(u16::MAX)), None),
        PageView::Topic(t, _) => (
            PageView::Topic(t, Some(u16::MAX)),
            Some(PageRequest::ReadPagesRange(t, n, 0)),
        ),
        PageView::Elsewhere => (view, None),
    }
}

/// One past `pg`, stopping at `u16::MAX`.
pub open spec fn sat_inc(pg: u16, k: u16) -> u16 {
    if pg + k > u16::MAX {
        u16::MAX
    } else {
        (pg + k) as u16
    }
}

/// The view after asking for the next page: the lobby wraps around to its
/// first page after the last one.
pub open spec fn next_page(view: PageView, n: u16, pages: nat) -> (PageView, Option<PageRequest>) {
    match view {
        PageView::MainLobby(Some(pg)) => {
            let next = sat_inc(pg, 1);
            (PageView::MainLobby(Some(if pages <= next { 0 } else { next })), None)
        },
        PageView::MainLobby(None) => (PageView::MainLobby(Some(0)), None),
        PageView::Topic(t, Some(pg)) => {
            let next = sat_inc(pg, 1);
            (
                PageView::Topic(t, Some(next)),
                Some(
                    PageRequest::ReadPagesRange(
                        t,
                        (next * n) as u16,
                        (sat_inc(pg, 2) * n - 1) as u16,
                    ),
                ),
            )
        },
        _ => (view, None),
    }
}

/// The next page's request stays within `u16`.
pub open spec fn next_page_fits(view: PageView, n: u16) -> bool {
    view matches PageView::Topic(_, Some(pg)) ==> sat_inc(pg, 2) * n <= u16::MAX && sat_inc(pg, 2)
        * n >= 1
}

/// The view after asking for the previous page; nothing changes on the first page.
pub open spec fn previous_page(view: PageView, n: u16) -> (PageView, Option<PageRequest>) {
    match view {
        PageView::MainLobby(Some(pg)) => if pg == 0 {
            (view, None)
        } else {
            (
                PageView::MainLobby(Some((pg - 1) as u16)),
                Some(PageRequest::ReadFirstPages(((pg - 1) * n) as u16, (pg * n - 1) as u16)),
            )
        },
        PageView::Topic(t, Some(pg)) => if pg == 0 {
            (view, None)
        } else {
            (
                PageView::Topic(t, Some((pg - 1) as u16)),
                Some(PageRequest::ReadPagesRange(t, ((pg - 1) * n) as u16, (pg * n - 1) as u16)),
            )
        },
        _ => (view, None),
    }
}

/// The previous page's request stays within `u16`.
pub open spec fn previous_page_fits(view: PageView, n: u16) -> bool {
    match view {
        PageView::MainLobby(Some(pg)) => pg > 0 ==> pg * n <= u16::MAX && pg * n >= 1,
        PageView::Topic(_, Some(pg)) => pg > 0 ==> pg * n <= u16::MAX && pg * n >= 1,
        _ => true,
    }
}

/// The content id that a copy of entry `which` refers to.
pub open spec fn clipboard_id(view: PageView, n: u16, which: u16) -> u16 {
    match view {
        PageView::MainLobby(Some(pg)) => (pg * n + which) as u16,
        PageView::Topic(t, _) => t,
        _ => which,
    }
}

/// Going back a page in a topic moves to the page before and asks for
/// exactly the posts that page lists (see `post_window`, the window that
/// `read_posts` reads): from the new page's first post up to the one just
/// before the page after it.
pub proof fn lemma_previous_page_asks_for_its_posts(t: u16, pg: u16, n: u16, posts: nat)
    requires
        pg >= 1,
        previous_page_fits(PageView::Topic(t, Some(pg)), n),
    ensures
        ({
            let (v, r) = previous_page(PageView::Topic(t, Some(pg)), n);
            let p = (pg - 1) as u16;
            let w = post_window(posts, n, p, n);
            &&& v == PageView::Topic(t, Some(p))
            &&& r == Some(PageRequest::ReadPagesRange(t, w.0 as u16, (w.1 - 1) as u16))
        }),
{
}

/// Going forward a page in a topic moves to the page after and asks for
/// exactly the posts that page lists (see `post_window`).
pub proof fn lemma_next_page_asks_for_its_posts(t: u16, pg: u16, n: u16, pages: nat, posts: nat)
    requires
        pg + 2 <= u16::MAX,
        next_page_fits(PageView::Topic(t, Some(pg)), n),
    ensures
        ({
            let (v, r) = next_page(PageView::Topic(t, Some(pg)), n, pages);
            let p = (pg + 1) as u16;
            let w = post_window(posts, n, p, n);
            &&& v == PageView::Topic(t, Some(p))
            &&& r == Some(PageRequest::ReadPagesRange(t, w.0 as u16, (w.1 - 1) as u16))
        }),
{
}

/// Going back a page in the lobby moves to the page before and asks for
/// the first pages of exactly the topics that page lists: `n` of them from
/// the new page's first topic.
pub proof fn lemma_previous_lobby_page_asks_for_its_topics(pg: u16, n: u16)
    requires
        pg >= 1,
        previous_page_fits(PageView::MainLobby(Some(pg)), n),
    ensures
        ({
            let (v, r) = previous_page(PageView::MainLobby(Some(pg)), n);
            let p = (pg - 1) as u16;
            &&& v == PageView::MainLobby(Some(p))
            &&& r matches Some(PageRequest::ReadFirstPages(from, to)) && from == p * n && to + 1 == from + n
        }),
{
    assert((pg - 1) * n + n == pg * n) by (nonlinear_arith);
    assert((pg - 1) * n <= pg * n) by (nonlinear_arith)
        requires
            pg >= 1,
    ;
}

/// Going to the next page and back returns to the same page, in the
/// lobby unless the next page wraps around, below the largest page number.
pub proof fn lemma_next_then_previous(view: PageView, n: u16, pages: nat)
    requires
        match view {
            PageView::MainLobby(Some(pg)) => pg + 1 < pages && pg < u16::MAX,
            PageView::Topic(_, Some(pg)) => pg < u16::MAX,
            _ => false,
        },
    ensures
        previous_page(next_page(view, n, pages).0, n).0 == view,
{
    match view {
        PageView::MainLobby(Some(pg)) => {
            assert(sat_inc(pg, 1) == pg + 1);
            assert(next_page(view, n, pages).0 == PageView::MainLobby(Some((pg + 1) as u16)));
        },
        PageView::Topic(t, Some(pg)) => {
            assert(sat_inc(pg, 1) == pg + 1);
            assert(next_page(view, n, pages).0 == PageView::Topic(t, Some((pg + 1) as u16)));
        },
        _ => {},
    }
}

/// The lobby's next page is always one of its pages.
pub proof fn lemma_lobby_next_in_range(pg_opt: Option<u16>, n: u16, pages: nat)
    requires
        pages >= 1,
    ensures
        next_page(PageView::MainLobby(pg_opt), n, pages).0 matches PageView::MainLobby(Some(q))
            && q < pages,
{
}

/// The first page's request asks for exactly one page of posts.
pub proof fn lemma_first_page_request(t: u16, pg_opt: Option<u16>, n: u16)
    requires
        n > 0,
    ensures
        first_page(PageView::Topic(t, pg_opt), n) == (
            PageView::Topic(t, Some(0)),
            Some(PageRequest::ReadPagesRange(t, 0, (n - 1) as u16)),
        ),
{
}

/// Whether a topic has any of `cats` among its tags.
fn has_any_tag(tags: &Vec<u8>, cats: &Vec<u8>) -> (b: bool)
    ensures
        b == any_tag_in(tags@, cats@),
{
    let mut j: usize = 0;
    while j < tags.len()
        invariant
            j <= tags.len(),
            forall|k: int| 0 <= k < j ==> !cats@.contains(#[trigger] tags@[k]),
        decreases tags.len() - j,
    {
        let t = tags[j];
        let mut c: usize = 0;
        while c < cats.len()
            invariant
                c <= cats.len(),
                j < tags.len(),
                t == tags@[j as int],
                forall|k: int| 0 <= k < c ==> cats@[k] != t,
            decreases cats.len() - c,
        {
            if cats[c] == t {
                proof {
                    assert(cats@[c as int] == tags@[j as int]);
                    assert(cats@.contains(tags@[j as int]));
                }
                return true;
            }
            c = c + 1;
        }
        proof {
            assert(!cats@.contains(tags@[j as int]));
        }
        j = j + 1;
    }
    false
}

/// Whether `s` contains a copy of `p`.
pub fn contains_chars(s: &Vec<char>, p: &Vec<char>) -> (b: bool)
    ensures
        b == contains_seq(s@, p@),
{
    if p.len() > s.len() {
        proof {
            assert forall|i: int| 0 <= i && i + p@.len() <= s@.len() implies #[trigger] s@.subrange(
                i,
                i + p@.len(),
            ) != p@ by {}
        }
        return false;
    }
    let last = s.len() - p.len();
    let mut i: usize = 0;
    while i <= last
        invariant
            last == s.len() - p.len(),
            i <= last + 1,
            forall|k: int| 0 <= k < i ==> #[trigger] s@.subrange(k, k + p@.len()) != p@,
        decreases last + 1 - i,
    {
        let mut j: usize = 0;
        while j < p.len()
            invariant
                i <= last,
                last == s.len() - p.len(),
                j <= p.len(),
                forall|k: int| 0 <= k < j ==> s@[i + k] == p@[k],
            ensures
                j <= p.len(),
                forall|k: int| 0 <= k < j ==> s@[i + k] == p@[k],
                j == p.len() || s@[i + j] != p@[j as int],
            decreases p.len() - j,
        {
            if s[i + j] != p[j] {
                break;
            }
            j = j + 1;
        }
        if j == p.len() {
            proof {
                assert(s@.subrange(i as int, i + p@.len()) =~= p@);
            }
            return true;
        }
        proof {
            assert(s@.subrange(i as int, i + p@.len())[j as int] != p@[j as int]);
        }
        i = i + 1;
    }
    proof {
        assert forall|k: int| 0 <= k && k + p@.len() <= s@.len() implies #[trigger] s@.subrange(
            k,
            k + p@.len(),
        ) != p@ by {
            assert(k < i);
        }
    }
    false
}

/// Splits `ids` into pages of `n`.
pub fn paginate(ids: &Vec<u16>, n: u16) -> (pages: Vec<Vec<u16>>)
    ensures
        paged(pages@.map_values(|p: Vec<u16>| p@), ids@, n as int),
{
    let mut pages: Vec<Vec<u16>> = Vec::new();
    let mut curr: Vec<u16> = Vec::new();
    let mut i: usize = 0;
    while i < ids.len()
        invariant
            i <= ids.len(),
            pages@.map_values(|p: Vec<u16>| p@).flatten() + curr@ == ids@.subrange(0, i as int),
            forall|k: int| 0 <= k < pages.len() ==> (#[trigger] pages@[k])@.len() == n,
            n > 0 ==> curr.len() < n,
            n == 0 ==> pages.len() == 0,
        decreases ids.len() - i,
    {
        let ghost pv = pages@.map_values(|p: Vec<u16>| p@);
        let ghost c0 = curr@;
        let x = ids[i];
        curr.push(x);
        i = i + 1;
        proof {
            assert(ids@.subrange(0, i as int) =~= ids@.subrange(0, i - 1).push(x));
            assert(pv.flatten() + curr@ =~= (pv.flatten() + c0).push(x));
        }
        if curr.len() == n as usize {
            let full = curr;
            curr = Vec::new();
            pages.push(full);
            proof {
                assert(pages@.map_values(|p: Vec<u16>| p@) =~= pv.push(full@));
                assert(pages@.map_values(|p: Vec<u16>| p@).flatten() + curr@ =~= ids@.subrange(
                    0,
                    i as int,
                ));
            }
        }
    }
    let ghost pv = pages@.map_values(|p: Vec<u16>| p@);
    proof {
        assert(ids@.subrange(0, ids.len() as int) =~= ids@);
    }
    if curr.len() > 0 || pages.len() == 0 {
        let c = curr;
        pages.push(c);
        proof {
            assert(pages@.map_values(|p: Vec<u16>| p@) =~= pv.push(c@));
        }
    } else {
        proof {
            assert(pv.flatten() + curr@ =~= pv.flatten());
            assert(pv.last() == pages@[pages.len() - 1]@);
        }
    }
    proof {
        let pw = pages@.map_values(|p: Vec<u16>| p@);
        assert forall|k: int| 0 <= k < pw.len() - 1 implies (#[trigger] pw[k]).len() == n by {
            assert(pw[k] == pages@[k]@);
        }
    }
    pages
}

/// The forum's lists and where the list screens are.
pub struct Board {
    pub all_topics: Vec<Entry>,
    pub posts: Vec<Entry>,
    pub menu_pages: Vec<Vec<u16>>,
    pub entries_count: u16,
    pub entry_max_len: usize,
    pub category_filter: Option<Vec<u8>>,
    pub text_filter: Option<String>,
    pub view: PageView,
    /// The author of placeholder entries.
    pub any_author: u64,
}

/// The entries listed on the shown page: the lobby's topic ids, or a
/// topic's post ids, with the page number.
#[derive(Debug)]
pub enum Listing {
    Topics(u16, Vec<u16>),
    Posts(u16, Vec<u16>),
}

/// The posts' index window of `page`: `u16::MAX` stands for the last page.
pub open spec fn post_window(e_len: nat, n: u16, page: u16, page_size: u16) -> (int, int) {
    if page == u16::MAX {
        (e_len - (e_len as int) % (n as int) - 1, e_len - 1)
    } else {
        (page * page_size, (page + 1) * page_size)
    }
}

/// Reading the page neither divides by zero nor leaves the number ranges.
pub open spec fn read_posts_fits(e_len: nat, n: u16, page: u16, page_size: u16) -> bool {
    if page == u16::MAX {
        n > 0 && e_len - (e_len as int) % (n as int) >= 1
    } else {
        (page + 1) * page_size <= u16::MAX
    }
}

/// The post ids listed on `page`: the window cut at the number of posts.
pub open spec fn post_ids(e_len: nat, n: u16, page: u16, page_size: u16) -> Seq<u16> {
    let w = post_window(e_len, n, page, page_size);
    let end = if w.1 < e_len { w.1 } else { e_len as int };
    Seq::new((if end > w.0 { end - w.0 } else { 0 }) as nat, |k: int| (w.0 + k) as u16)
}

/// The lobby page shown for `pg_opt`: the first when none is set, the last for `u16::MAX`.
pub open spec fn lobby_page(pg_opt: Option<u16>, pages: nat) -> u16 {
    let pg = match pg_opt {
        Some(p) => p,
        None => 0u16,
    };
    if pg == u16::MAX {
        (pages - 1) as u16
    } else {
        pg
    }
}

/// The topic page asked for by `pg_opt`: the first when none is set, the
/// one after the full pages for `u16::MAX`.
pub open spec fn topic_page(pg_opt: Option<u16>, posts: nat, n: u16) -> u16 {
    let pg = match pg_opt {
        Some(p) => p,
        None => 0u16,
    };
    if pg == u16::MAX {
        (posts / (n as nat)) as u16
    } else {
        pg
    }
}

/// Presenting the shown page stays within the lists and the number ranges.
pub open spec fn present_fits(b: Board) -> bool {
    match b.view {
        PageView::MainLobby(pg_opt) => lobby_page(pg_opt, b.menu_pages@.len()) < b.menu_pages@.len(),
        PageView::Topic(_, pg_opt) => {
            &&& (pg_opt == Some(u16::MAX) ==> b.entries_count > 0)
            &&& read_posts_fits(
                b.posts@.len(),
                b.entries_count,
                topic_page(pg_opt, b.posts@.len(), b.entries_count),
                b.entries_count,
            )
            &&& read_posts_fits(b.posts@.len(), b.entries_count, 0, b.entries_count)
        },
        PageView::Elsewhere => true,
    }
}

/// A listing as plain values: whether it lists topics, the page, the ids.
pub open spec fn listing_view(r: Option<Listing>) -> Option<(bool, u16, Seq<u16>)> {
    match r {
        Some(Listing::Topics(pg, ids)) => Some((true, pg, ids@)),
        Some(Listing::Posts(pg, ids)) => Some((false, pg, ids@)),
        None => None,
    }
}

/// The view and the listing after presenting.
pub open spec fn presented(b: Board) -> (PageView, Option<(bool, u16, Seq<u16>)>) {
    match b.view {
        PageView::MainLobby(pg_opt) => {
            let pg = lobby_page(pg_opt, b.menu_pages@.len());
            (PageView::MainLobby(Some(pg)), Some((true, pg, b.pages()[pg as int])))
        },
        PageView::Topic(t, pg_opt) => {
            let pg = topic_page(pg_opt, b.posts@.len(), b.entries_count);
            let ids = post_ids(b.posts@.len(), b.entries_count, pg, b.entries_count);
            if ids.len() == 0 {
                (
                    PageView::Topic(t, Some(0)),
                    Some((false, 0, post_ids(b.posts@.len(), b.entries_count, 0, b.entries_count))),
                )
            } else {
                (PageView::Topic(t, Some(pg)), Some((false, pg, ids)))
            }
        },
        PageView::Elsewhere => (b.view, None),
    }
}

/// A placeholder entry by `any`.
pub open spec fn is_placeholder(e: Entry, any: u64) -> bool {
    &&& e.author == any
    &&& e.tags@.len() == 0
    &&& e.text@ == "Empty"@
    &&& e.hash == 0
}

/// `new` is `old` grown with placeholders to hold index `id`; all but `id` is kept.
pub open spec fn padded_with(old: Seq<Entry>, new: Seq<Entry>, id: int, any: u64) -> bool {
    &&& new.len() == if id < old.len() { old.len() as int } else { id + 1 }
    &&& forall|i: int|
        0 <= i < new.len() && i != id ==> (i < old.len() ==> #[trigger] new[i] == old[i]) && (i
            >= old.len() ==> is_placeholder(new[i], any))
}

/// The text and the author that entry `id` showed before an update.
pub open spec fn shown_before(old: Seq<Entry>, id: int, any: u64) -> (Seq<char>, u64) {
    if id < old.len() {
        (old[id].text@, old[id].author)
    } else {
        ("Empty"@, any)
    }
}

/// Everything but the topics is the same in `a` and `b`.
pub open spec fn lists_kept_but_topics(a: Board, b: Board) -> bool {
    &&& b.posts@ == a.posts@
    &&& b.pages() == a.pages()
    &&& b.entries_count == a.entries_count
    &&& b.entry_max_len == a.entry_max_len
    &&& b.cats() == a.cats()
    &&& b.text() == a.text()
    &&& b.any_author == a.any_author
    &&& b.view == a.view
}

/// A copy of the ids.
pub(crate) fn copy_ids(v: &Vec<u16>) -> (r: Vec<u16>)
    ensures
        r@ == v@,
{
    let mut r: Vec<u16> = Vec::new();
    let mut i: usize = 0;
    while i < v.len()
        invariant
            i <= v.len(),
            r@ == v@.subrange(0, i as int),
        decreases v.len() - i,
    {
        r.push(v[i]);
        i = i + 1;
        proof {
            assert(r@ =~= v@.subrange(0, i as int));
        }
    }
    proof {
        assert(r@ =~= v@);
    }
    r
}

/// Grows `v` with placeholder entries by `any` until it holds index `id`.
fn pad_entries(v: &mut Vec<Entry>, id: usize, any: u64)
    requires
        id < usize::MAX,
    ensures
        padded_with(old(v)@, final(v)@, id as int, any),
        id < old(v)@.len() ==> final(v)@[id as int] == old(v)@[id as int],
        id >= old(v)@.len() ==> is_placeholder(final(v)@[id as int], any),
{
    let ghost o = v@;
    while v.len() <= id
        invariant
            o.len() <= v@.len(),
            v@.len() <= if id < o.len() { o.len() as int } else { id + 1 },
            forall|i: int|
                0 <= i < v@.len() ==> (i < o.len() ==> #[trigger] v@[i] == o[i]) && (i >= o.len()
                    ==> is_placeholder(v@[i], any)),
        decreases id + 1 - v.len(),
    {
        let e = Entry::empty(any);
        v.push(e);
    }
}

/// The lists, the page size and the filters are the same in `a` and `b`.
pub open spec fn lists_kept(a: Board, b: Board) -> bool {
    &&& b.all_topics@ == a.all_topics@
    &&& b.posts@ == a.posts@
    &&& b.pages() == a.pages()
    &&& b.entries_count == a.entries_count
    &&& b.entry_max_len == a.entry_max_len
    &&& b.cats() == a.cats()
    &&& b.text() == a.text()
    &&& b.any_author == a.any_author
}

impl Board {
    pub open spec fn pages(&self) -> Seq<Seq<u16>> {
        self.menu_pages@.map_values(|p: Vec<u16>| p@)
    }

    pub open spec fn cats(&self) -> Option<Seq<u8>> {
        match self.category_filter {
            Some(c) => Some(c@),
            None => None,
        }
    }

    pub open spec fn text(&self) -> Option<Seq<char>> {
        match self.text_filter {
            Some(t) => Some(t@),
            None => None,
        }
    }

    /// A board for a screen of `cols` by `rows` cells: a page holds
    /// `(rows - 3) / 2` entries, a line is at least 60 characters wide.
    pub fn new(screen_size: (usize, usize), any_author: u64) -> (b: Board)
        requires
            screen_size.0 >= 4,
            screen_size.1 >= 3,
        ensures
            b.all_topics@.len() == 0,
            b.posts@.len() == 0,
            b.pages() == seq![Seq::<u16>::empty()],
            b.entries_count == ((screen_size.1 - 3) / 2) % 0x10000,
            b.entry_max_len == if screen_size.0 - 4 > 60 { screen_size.0 - 4 } else { 60 },
            b.category_filter is None,
            b.text_filter is None,
            b.view == PageView::MainLobby(None),
            b.any_author == any_author,
    {
        let rows = (screen_size.1 - 3) / 2;
        let cols = screen_size.0 - 4;
        let mut pages: Vec<Vec<u16>> = Vec::new();
        pages.push(Vec::new());
        let b = Board {
            all_topics: Vec::new(),
            posts: Vec::new(),
            menu_pages: pages,
            entries_count: (rows % 0x10000) as u16,
            entry_max_len: if cols > 60 {
                cols
            } else {
                60
            },
            category_filter: None,
            text_filter: None,
            view: PageView::MainLobby(None),
            any_author,
        };
        proof {
            assert(b.pages() =~= seq![Seq::<u16>::empty()]);
        }
        b
    }

    /// The ids of the topics that pass the filters.
    fn matching_ids(&self) -> (ids: Vec<u16>)
        ensures
            ids@ == matching(
                self.all_topics@,
                self.cats(),
                self.text(),
                (self.all_topics@.len() % 0x10000) as int,
            ),
    {
        let count = self.all_topics.len() % 0x10000;
        let text: Option<Vec<char>> = match &self.text_filter {
            Some(t) => Some(chars_of(t.as_str())),
            None => None,
        };
        let mut ids: Vec<u16> = Vec::new();
        let mut i: usize = 0;
        while i < count
            invariant
                count == self.all_topics@.len() % 0x10000,
                i <= count,
                match text {
                    Some(t) => self.text() == Some(t@),
                    None => self.text() is None,
                },
                ids@ == matching(self.all_topics@, self.cats(), self.text(), i as int),
            decreases count - i,
        {
            let e = &self.all_topics[i];
            let by_cat = match &self.category_filter {
                Some(c) => has_any_tag(&e.tags, c),
                None => true,
            };
            let keep = by_cat && match &text {
                Some(t) => contains_chars(&chars_of(e.text.as_str()), t),
                None => true,
            };
            if keep {
                ids.push(i as u16);
            }
            i = i + 1;
        }
        ids
    }

    /// Rebuilds the lobby's pages from the topics that pass the filters.
    pub fn filter_topics(&mut self)
        ensures
            paged(
                final(self).pages(),
                matching(
                    old(self).all_topics@,
                    old(self).cats(),
                    old(self).text(),
                    (old(self).all_topics@.len() % 0x10000) as int,
                ),
                old(self).entries_count as int,
            ),
            final(self).all_topics == old(self).all_topics,
            final(self).posts == old(self).posts,
            final(self).entries_count == old(self).entries_count,
            final(self).category_filter == old(self).category_filter,
            final(self).text_filter == old(self).text_filter,
            final(self).view == old(self).view,
            final(self).entry_max_len == old(self).entry_max_len,
            final(self).any_author == old(self).any_author,
    {
        let ids = self.matching_ids();
        self.menu_pages = paginate(&ids, self.entries_count);
    }

    /// Shows the first page: of the lobby, or of the topic, whose posts are
    /// then asked for.
    pub fn show_first_page(&mut self) -> (req: Option<PageRequest>)
        requires
            old(self).view is Topic ==> old(self).entries_count > 0,
        ensures
            (final(self).view, req) == first_page(old(self).view, old(self).entries_count),
            lists_kept(*old(self), *final(self)),
    {
        match self.view {
            PageView::MainLobby(_) => {
                self.view = PageView::MainLobby(Some(0));
                None
            },
            PageView::Topic(t, _) => {
                self.view = PageView::Topic(t, Some(0));
                Some(PageRequest::ReadPagesRange(t, 0, self.entries_count - 1))
            },
            PageView::Elsewhere => None,
        }
    }

    /// Shows the last page (`u16::MAX` stands for it until it is known).
    pub fn show_last_page(&mut self) -> (req: Option<PageRequest>)
        ensures
            (final(self).view, req) == last_page(old(self).view, old(self).entries_count),
            lists_kept(*old(self), *final(self)),
    {
        match self.view {
            PageView::MainLobby(_) => {
                self.view = PageView::MainLobby(Some(u16::MAX));
                None
            },
            PageView::Topic(t, _) => {
                self.view = PageView::Topic(t, Some(u16::MAX));
                Some(PageRequest::ReadPagesRange(t, self.entries_count, 0))
            },
            PageView::Elsewhere => None,
        }
    }

    /// Shows the next page; the lobby wraps around after its last page.
    pub fn show_next_page(&mut self) -> (req: Option<PageRequest>)
        requires
            next_page_fits(old(self).view, old(self).entries_count),
        ensures
            (final(self).view, req) == next_page(
                old(self).view,
                old(self).entries_count,
                old(self).menu_pages@.len(),
            ),
            lists_kept(*old(self), *final(self)),
    {
        let n = self.entries_count;
        match self.view {
            PageView::MainLobby(Some(pg)) => {
                let next = pg.saturating_add(1);
                let next_pg = if self.menu_pages.len() <= next as usize {
                    0
                } else {
                    next
                };
                self.view = PageView::MainLobby(Some(next_pg));
                None
            },
            PageView::MainLobby(None) => {
                self.view = PageView::MainLobby(Some(0));
                None
            },
            PageView::Topic(t, Some(pg)) => {
                let next = pg.saturating_add(1);
                self.view = PageView::Topic(t, Some(next));
                let after = pg.saturating_add(2);
                proof {
                    assert(next * n <= after * n) by (nonlinear_arith)
                        requires
                            next <= after,
                    ;
                }
                Some(PageRequest::ReadPagesRange(t, next * n, after * n - 1))
            },
            _ => None,
        }
    }

    /// Shows the previous page; nothing happens on the first one.
    pub fn show_previous_page(&mut self) -> (req: Option<PageRequest>)
        requires
            previous_page_fits(old(self).view, old(self).entries_count),
        ensures
            (final(self).view, req) == previous_page(old(self).view, old(self).entries_count),
            lists_kept(*old(self), *final(self)),
    {
        let n = self.entries_count;
        match self.view {
            PageView::MainLobby(Some(pg)) => {
                if pg == 0 {
                    return None;
                }
                let prev = pg - 1;
                self.view = PageView::MainLobby(Some(prev));
                proof {
                    assert(prev * n <= pg * n) by (nonlinear_arith)
                        requires
                            prev <= pg,
                    ;
                }
                Some(PageRequest::ReadFirstPages(prev * n, pg * n - 1))
            },
            PageView::Topic(t, Some(pg)) => {
                if pg == 0 {
                    return None;
                }
                let prev = pg - 1;
                self.view = PageView::Topic(t, Some(prev));
                proof {
                    assert(prev * n <= pg * n) by (nonlinear_arith)
                        requires
                            prev <= pg,
                    ;
                }
                Some(PageRequest::ReadPagesRange(t, prev * n, pg * n - 1))
            },
            _ => None,
        }
    }

    /// The content id that copying entry `which` of the shown page refers to.
    pub fn set_clipboard(&self, which: u16) -> (id: u16)
        requires
            self.view matches PageView::MainLobby(Some(pg)) ==> pg * self.entries_count
                + which <= u16::MAX,
        ensures
            id == clipboard_id(self.view, self.entries_count, which),
    {
        match self.view {
            PageView::MainLobby(Some(pg)) => pg * self.entries_count + which,
            PageView::Topic(t, _) => t,
            _ => which,
        }
    }

    /// How many topic ids the lobby's pages account for: full pages before
    /// the last one, and the last one.
    pub open spec fn included(&self) -> int {
        self.pages().last().len() + (self.menu_pages@.len() - 1) * self.entries_count
    }

    /// Makes the lobby's pages list topic ids up to `t_id`, appending the
    /// missing ones after the last page, `entries_count` to a page.
    pub fn extend_main_pages_until(&mut self, t_id: u16)
        requires
            1 <= old(self).menu_pages@.len() <= u16::MAX,
            old(self).included() <= u16::MAX,
        ensures
            final(self).view == old(self).view,
            final(self).all_topics == old(self).all_topics,
            final(self).posts == old(self).posts,
            final(self).entries_count == old(self).entries_count,
            final(self).entry_max_len == old(self).entry_max_len,
            final(self).any_author == old(self).any_author,
            final(self).category_filter == old(self).category_filter,
            final(self).text_filter == old(self).text_filter,
            t_id < old(self).included() ==> final(self).pages() == old(self).pages(),
            t_id >= old(self).included() ==> final(self).pages().flatten() == old(self).pages().flatten()
                + id_range(old(self).included(), t_id as int),
            final(self).pages().len() >= old(self).pages().len(),
            forall|k: int|
                0 <= k < old(self).pages().len() - 1 ==> #[trigger] final(self).pages()[k] == old(
                    self,
                ).pages()[k],
            well_paged(old(self).pages(), old(self).entries_count as int) && old(self).entries_count
                > 0 ==> well_paged(final(self).pages(), old(self).entries_count as int),
    {
        let ghost old_pages = self.pages();
        let ghost wp = well_paged(old_pages, self.entries_count as int) && self.entries_count > 0;
        let n = self.entries_count;
        let mpl = self.menu_pages.len() as u16;
        let mut last = self.menu_pages.pop().unwrap();
        proof {
            assert(self.pages() =~= old_pages.drop_last());
            assert(last@ == old_pages.last());
            assert(old_pages.drop_last().push(old_pages.last()) =~= old_pages);
            assert((mpl - 1) * n >= 0) by (nonlinear_arith)
                requires
                    mpl >= 1,
            ;
        }
        let lpl = last.len() as u16;
        let included = lpl + (mpl - 1) * n;
        if t_id < included {
            self.menu_pages.push(last);
            proof {
                assert(self.pages() =~= old_pages);
            }
            return;
        }
        let mut nt: u32 = included as u32;
        while nt <= t_id as u32
            invariant
                included as int == old(self).included(),
                included <= nt <= t_id as u32 + 1,
                n == self.entries_count,
                n == old(self).entries_count,
                self.view == old(self).view,
                self.all_topics == old(self).all_topics,
                self.posts == old(self).posts,
                self.entry_max_len == old(self).entry_max_len,
                self.any_author == old(self).any_author,
                self.category_filter == old(self).category_filter,
                self.text_filter == old(self).text_filter,
                old_pages == old(self).pages(),
                old_pages.len() >= 1,
                self.pages().len() >= old_pages.len() - 1,
                forall|k: int|
                    0 <= k < old_pages.len() - 1 ==> #[trigger] self.pages()[k] == old_pages[k],
                self.pages().flatten() + last@ == old_pages.flatten() + id_range(
                    included as int,
                    nt - 1,
                ),
                wp ==> well_paged(old_pages, n as int) && n > 0 && last.len() <= n,
                nt > included ==> last.len() > 0,
                wp ==> forall|k: int| 0 <= k < self.pages().len() ==> (#[trigger] self.pages()[k]).len()
                    == n,
            decreases t_id as u32 + 1 - nt,
        {
            let ghost pv = self.pages();
            let ghost l0 = last@;
            if last.len() as u16 == n {
                let full = last;
                last = Vec::new();
                self.menu_pages.push(full);
                proof {
                    assert(self.pages() =~= pv.push(full@));
                    assert(self.pages().flatten() + last@ =~= pv.flatten() + l0);
                }
            }
            let ghost pv2 = self.pages();
            let ghost l1 = last@;
            last.push(nt as u16);
            proof {
                assert(id_range(included as int, nt as int) =~= id_range(included as int, nt - 1).push(
                    nt as u16,
                ));
                assert(pv2.flatten() + last@ =~= (pv2.flatten() + l1).push(nt as u16));
                if wp {
                    assert(l1.len() < n);
                }
            }
            nt = nt + 1;
        }
        let ghost pv = self.pages();
        if last.len() > 0 || self.menu_pages.len() == 0 {
            let l = last;
            self.menu_pages.push(l);
            proof {
                assert(self.pages() =~= pv.push(l@));
            }
        } else {
            proof {
                assert(pv.flatten() + last@ =~= pv.flatten());
            }
        }
        proof {
            assert(id_range(included as int, nt - 1) =~= id_range(included as int, t_id as int));
            let fp = self.pages();
            if wp {
                assert forall|k: int| 0 <= k < fp.len() - 1 implies (#[trigger] fp[k]).len()
                    == n as int by {
                    assert(fp[k] == pv[k] || fp[k] == last@);
                }
            }
        }
    }

    /// The ids of the posts listed on `page` (of `page_size`); `u16::MAX`
    /// stands for the last page.
    pub fn read_posts(&self, page: u16, page_size: u16) -> (ids: Vec<u16>)
        requires
            read_posts_fits(self.posts@.len(), self.entries_count, page, page_size),
        ensures
            ids@ == post_ids(self.posts@.len(), self.entries_count, page, page_size),
    {
        let first: usize;
        let last: usize;
        if page == u16::MAX {
            let e_len = self.posts.len();
            let remainder = e_len % (self.entries_count as usize);
            first = e_len - remainder - 1;
            last = e_len - 1;
        } else {
            proof {
                assert(page * page_size <= (page + 1) * page_size) by (nonlinear_arith);
            }
            first = (page * page_size) as usize;
            last = ((page + 1) * page_size) as usize;
        }
        let p_len = self.posts.len();
        let ghost w = post_window(self.posts@.len(), self.entries_count, page, page_size);
        let ghost end = if w.1 < p_len { w.1 } else { p_len as int };
        let mut res: Vec<u16> = Vec::new();
        let mut i: usize = first;
        proof {
            assert(res@ =~= Seq::new(0, |k: int| (first + k) as u16));
        }
        while i < last
            invariant_except_break
                i <= end || i == first,
            invariant
                first == w.0,
                last == w.1,
                end == (if last < p_len { last as int } else { p_len as int }),
                p_len == self.posts@.len(),
                first <= i,
                res@ == Seq::new((i - first) as nat, |k: int| (first + k) as u16),
            ensures
                res@ == Seq::new(
                    (if end > first { end - first } else { 0 }) as nat,
                    |k: int| (first + k) as u16,
                ),
            decreases last - i,
        {
            if i < p_len {
                res.push(i as u16);
                i = i + 1;
                proof {
                    assert(res@ =~= Seq::new((i - first) as nat, |k: int| (first + k) as u16));
                }
            } else {
                proof {
                    assert(res@ =~= Seq::new(
                        (if end > first { end - first } else { 0 }) as nat,
                        |k: int| (first + k) as u16,
                    ));
                }
                break;
            }
        }
        res
    }

    /// Picks the page to show and lists its entries: the lobby's page (its
    /// last one for `u16::MAX`), or the topic's page of posts (the first one
    /// when the asked page is empty).
    pub fn present(&mut self) -> (r: Option<Listing>)
        requires
            present_fits(*old(self)),
        ensures
            lists_kept(*old(self), *final(self)),
            (final(self).view, listing_view(r)) == presented(*old(self)),
            final(self).all_topics == old(self).all_topics,
            final(self).posts == old(self).posts,
            final(self).menu_pages == old(self).menu_pages,
            final(self).category_filter == old(self).category_filter,
            final(self).text_filter == old(self).text_filter,
    {
        match self.view {
            PageView::MainLobby(pg_opt) => {
                let mut pg = match pg_opt {
                    Some(p) => p,
                    None => 0,
                };
                if pg == u16::MAX {
                    pg = (self.menu_pages.len() - 1) as u16;
                }
                let ids = copy_ids(&self.menu_pages[pg as usize]);
                self.view = PageView::MainLobby(Some(pg));
                Some(Listing::Topics(pg, ids))
            },
            PageView::Topic(t, pg_opt) => {
                let mut pg = match pg_opt {
                    Some(p) => p,
                    None => 0,
                };
                if pg == u16::MAX {
                    pg = (self.posts.len() / (self.entries_count as usize)) as u16;
                }
                let mut ids = self.read_posts(pg, self.entries_count);
                if ids.len() == 0 {
                    pg = 0;
                    ids = self.read_posts(pg, self.entries_count);
                }
                self.view = PageView::Topic(t, Some(pg));
                Some(Listing::Posts(pg, ids))
            },
            PageView::Elsewhere => None,
        }
    }

    /// Stores the header of topic `c_id`, adding placeholder topics up to
    /// it, and tells whether the topic's listed line changes: its text part
    /// or its author.
    pub fn update_topic(&mut self, c_id: usize, header: Entry) -> (changed: bool)
        requires
            old(self).entry_max_len >= 21,
            c_id < usize::MAX,
        ensures
            lists_kept_but_topics(*old(self), *final(self)),
            final(self).posts == old(self).posts,
            final(self).menu_pages == old(self).menu_pages,
            final(self).category_filter == old(self).category_filter,
            final(self).text_filter == old(self).text_filter,
            padded_with(old(self).all_topics@, final(self).all_topics@, c_id as int, old(self).any_author),
            final(self).all_topics@[c_id as int] == header,
            changed == (line_text(header.text@, old(self).entry_max_len - 21) != line_text(
                shown_before(old(self).all_topics@, c_id as int, old(self).any_author).0,
                old(self).entry_max_len - 21,
            ) || header.author != shown_before(
                old(self).all_topics@,
                c_id as int,
                old(self).any_author,
            ).1),
    {
        let ghost old_topics = self.all_topics@;
        let any = self.any_author;
        let size = self.entry_max_len;
        pad_entries(&mut self.all_topics, c_id, any);
        proof {
            reveal_strlit("Empty");
            assert(self.all_topics@[c_id as int].text@ == shown_before(old_topics, c_id as int, any).0);
        }
        let new_line = header.entry_line(size, "");
        let old_line = self.all_topics[c_id].entry_line(size, "");
        let same_author = header.author == self.all_topics[c_id].author;
        self.all_topics.set(c_id, header);
        proof {
            reveal_strlit("");
            let a = line_text(header.text@, size - 21);
            let b = line_text(shown_before(old_topics, c_id as int, any).0, size - 21);
            assert((a + seq![' '] + ""@).drop_last() =~= a);
            assert((b + seq![' '] + ""@).drop_last() =~= b);
        }
        !(new_line == old_line) || !same_author
    }

    /// Stores post `e_id`, adding placeholder posts up to it.
    pub fn update_post(&mut self, e_id: usize, header: Entry)
        requires
            e_id < usize::MAX,
        ensures
            final(self).all_topics == old(self).all_topics,
            final(self).menu_pages == old(self).menu_pages,
            final(self).pages() == old(self).pages(),
            final(self).view == old(self).view,
            final(self).entries_count == old(self).entries_count,
            final(self).entry_max_len == old(self).entry_max_len,
            final(self).category_filter == old(self).category_filter,
            final(self).text_filter == old(self).text_filter,
            final(self).any_author == old(self).any_author,
            padded_with(old(self).posts@, final(self).posts@, e_id as int, old(self).any_author),
            final(self).posts@[e_id as int] == header,
    {
        let any = self.any_author;
        pad_entries(&mut self.posts, e_id, any);
        self.posts.set(e_id, header);
    }
}

} // verus!
