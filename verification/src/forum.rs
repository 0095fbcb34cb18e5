//! The forum's presentation logic: the view that is shown, what a query on
//! one of its entries opens, what adding something starts, and the pending
//! requests that members send to the swarm.
use crate::board::{listing_view, padded_with, present_fits, presented, Listing, shown_before, first_page, last_page, lists_kept, next_page, next_page_fits, previous_page, previous_page_fits, Board, PageRequest, PageView};
use crate::chars::chars_of;
use crate::chars::string_of;
use crate::creator::CreatorResult;
use crate::editor::EditorParams;
use crate::entry::{decodable, line_text, spec_decode, spec_encode, trim_chars, trimmed, Entry};
use crate::poledit::{decimal, decompose, digit, digit_char, spec_decompose, spec_mark_location, spec_replace_mark, spec_requirement, PolAction, ReqTree, Requirement};
use vstd::prelude::*;
use vstd::string::*;

verus! {

/// The hexadecimal digit of `d`, in lower case.
pub open spec fn hex_digit(d: nat) -> char {
    if d < 10 {
        digit(d)
    } else if d == 10 {
        'a'
    } else if d == 11 {
        'b'
    } else if d == 12 {
        'c'
    } else if d == 13 {
        'd'
    } else if d == 14 {
        'e'
    } else {
        'f'
    }
}

/// The last `k` hexadecimal digits of `x`, leading zeros included.
pub open spec fn hex_digits(x: nat, k: nat) -> Seq<char>
    decreases k,
{
    if k == 0 {
        seq![]
    } else {
        hex_digits(x / 16, (k - 1) as nat).push(hex_digit(x % 16))
    }
}

/// A gnome id as the forum writes it: `GID-` and sixteen hexadecimal digits.
pub open spec fn gid_text(g: u64) -> Seq<char> {
    "GID-"@ + hex_digits(g as nat, 16)
}

fn hex_char(d: u64) -> (c: char)
    requires
        d < 16,
    ensures
        c == hex_digit(d as nat),
{
    if d < 10 {
        digit_char(d as u8)
    } else if d == 10 {
        'a'
    } else if d == 11 {
        'b'
    } else if d == 12 {
        'c'
    } else if d == 13 {
        'd'
    } else if d == 14 {
        'e'
    } else {
        'f'
    }
}

fn push_hex(v: &mut Vec<char>, x: u64, k: u8)
    requires
        k <= 16,
    ensures
        final(v)@ == old(v)@ + hex_digits(x as nat, k as nat),
    decreases k,
{
    if k > 0 {
        let ghost before = v@;
        push_hex(v, x / 16, k - 1);
        v.push(hex_char(x % 16));
        proof {
            assert(v@ =~= before + hex_digits(x as nat, k as nat));
        }
    } else {
        proof {
            assert(v@ =~= old(v)@ + hex_digits(x as nat, k as nat));
        }
    }
}

pub(crate) fn push_decimal(v: &mut Vec<char>, n: u64)
    ensures
        final(v)@ == old(v)@ + decimal(n as nat),
    decreases n,
{
    let ghost before = v@;
    if n >= 10 {
        push_decimal(v, n / 10);
    }
    v.push(digit_char((n % 10) as u8));
    proof {
        assert(v@ =~= before + decimal(n as nat));
    }
}

pub(crate) fn push_str(v: &mut Vec<char>, s: &str)
    ensures
        final(v)@ == old(v)@ + s@,
{
    let t = chars_of(s);
    let ghost before = v@;
    let mut i: usize = 0;
    while i < t.len()
        invariant
            i <= t@.len(),
            t@ == s@,
            v@ == before + t@.subrange(0, i as int),
        decreases t@.len() - i,
    {
        v.push(t[i]);
        i = i + 1;
        proof {
            assert(v@ =~= before + t@.subrange(0, i as int));
        }
    }
    proof {
        assert(t@.subrange(0, t@.len() as int) =~= t@);
    }
}

/// A gnome id written as `GID-` and sixteen hexadecimal digits.
pub fn gid_string(g: u64) -> (s: String)
    ensures
        s@ == gid_text(g),
{
    let mut v: Vec<char> = Vec::new();
    push_str(&mut v, "GID-");
    push_hex(&mut v, g, 16);
    proof {
        assert(v@ =~= gid_text(g));
    }
    string_of(&v)
}

/// A label followed by a number in decimal.
pub fn numbered(label: &str, n: u64) -> (s: String)
    ensures
        s@ == label@ + decimal(n as nat),
{
    let mut v: Vec<char> = Vec::new();
    push_str(&mut v, label);
    push_decimal(&mut v, n);
    proof {
        assert(v@ =~= label@ + decimal(n as nat));
    }
    string_of(&v)
}

/// A message that the forum exchanges through the swarm's heap of pending
/// requests: a post edited (topic, post, new entry), a topic added, or a
/// post added to a topic.
#[derive(Debug)]
pub enum ForumSyncMessage {
    EditPost(u16, u16, Entry),
    AddTopic(u16, Entry),
    AddPost(u16, Entry),
}

/// An application message as the swarm carries it: its type, content and
/// data ids, and its data with the data's hash.
#[derive(Debug)]
pub struct AppMsg {
    pub m_type: u8,
    pub c_id: u16,
    pub d_id: u16,
    pub data: Vec<u8>,
    pub hash: u64,
}

/// Whether the entry's bytes are written without tags: those of a post
/// other than a topic's first one.
pub open spec fn edit_is_plain(d_id: u16) -> bool {
    d_id > 0
}

/// The type of a forum message and whether its entry is written plain.
pub open spec fn msg_kind(m_type: u8, d_id: u16) -> Option<bool> {
    if m_type == 0 {
        Some(edit_is_plain(d_id))
    } else if m_type == 1 {
        Some(false)
    } else if m_type == 2 {
        Some(true)
    } else {
        None
    }
}

/// Reading a message of type `m_type` about data `d_id` panics when its
/// entry cannot be read from `data`.
pub open spec fn parts_readable(m_type: u8, d_id: u16, data: Seq<u8>) -> bool {
    msg_kind(m_type, d_id) matches Some(plain) ==> decodable(data, plain) && spec_decode(data, plain)
        is Some
}

/// Reading a message panics when its entry cannot be read.
pub open spec fn msg_readable(m: AppMsg) -> bool {
    parts_readable(m.m_type, m.d_id, m.data@)
}

/// Whether an entry holds what the decoding of some bytes gives.
pub open spec fn entry_is(e: Entry, d: Option<(Seq<u8>, u64, Seq<char>)>, hash: u64) -> bool {
    d matches Some(t) && e.tags@ == t.0 && e.author == t.1 && e.text@ == t.2 && e.hash == hash
}

/// Two entries with the same author, tags, text and hash.
pub open spec fn same_entry(a: Entry, b: Entry) -> bool {
    a.author == b.author && a.tags@ == b.tags@ && a.text@ == b.text@ && a.hash == b.hash
}

/// Two messages of the same kind with the same ids and entries.
pub open spec fn same_msg(a: ForumSyncMessage, b: ForumSyncMessage) -> bool {
    match (a, b) {
        (ForumSyncMessage::EditPost(t1, p1, e1), ForumSyncMessage::EditPost(t2, p2, e2)) => t1
            == t2 && p1 == p2 && same_entry(e1, e2),
        (ForumSyncMessage::AddTopic(t1, e1), ForumSyncMessage::AddTopic(t2, e2)) => t1 == t2
            && same_entry(e1, e2),
        (ForumSyncMessage::AddPost(t1, e1), ForumSyncMessage::AddPost(t2, e2)) => t1 == t2
            && same_entry(e1, e2),
        _ => false,
    }
}

fn same_bytes(a: &Vec<u8>, b: &Vec<u8>) -> (r: bool)
    ensures
        r == (a@ == b@),
{
    if a.len() != b.len() {
        return false;
    }
    let mut i: usize = 0;
    while i < a.len()
        invariant
            a.len() == b.len(),
            i <= a.len(),
            forall|k: int| 0 <= k < i ==> a@[k] == b@[k],
        decreases a.len() - i,
    {
        if a[i] != b[i] {
            return false;
        }
        i = i + 1;
    }
    proof {
        assert(a@ =~= b@);
    }
    true
}

pub(crate) fn same_text(a: &String, b: &String) -> (r: bool)
    ensures
        r == (a@ == b@),
{
    let x = chars_of(a.as_str());
    let y = chars_of(b.as_str());
    if x.len() != y.len() {
        return false;
    }
    let mut i: usize = 0;
    while i < x.len()
        invariant
            x.len() == y.len(),
            x@ == a@,
            y@ == b@,
            i <= x.len(),
            forall|k: int| 0 <= k < i ==> x@[k] == y@[k],
        decreases x.len() - i,
    {
        if x[i] != y[i] {
            return false;
        }
        i = i + 1;
    }
    proof {
        assert(x@ =~= y@);
    }
    true
}

fn entries_equal(a: &Entry, b: &Entry) -> (r: bool)
    ensures
        r == same_entry(*a, *b),
{
    a.author == b.author && a.hash == b.hash && same_bytes(&a.tags, &b.tags) && same_text(
        &a.text,
        &b.text,
    )
}

impl ForumSyncMessage {
    /// Reads a forum message: type 0 edits a post, 1 adds a topic, 2 adds a
    /// post; other types are not forum messages.
    pub fn parse_app_msg(app_msg: AppMsg) -> (r: Option<ForumSyncMessage>)
        requires
            msg_readable(app_msg),
        ensures
            app_msg.m_type <= 2 ==> (r matches Some(x) && parsed_as(
                app_msg.m_type,
                app_msg.c_id,
                app_msg.d_id,
                app_msg.data@,
                app_msg.hash,
                x,
            )),
            app_msg.m_type > 2 ==> r is None,
    {
        if app_msg.m_type == 0 {
            let d_id = app_msg.d_id;
            match Entry::from_data(&app_msg.data, app_msg.hash, d_id > 0) {
                Ok(e) => Some(ForumSyncMessage::EditPost(app_msg.c_id, d_id, e)),
                Err(_) => None,
            }
        } else if app_msg.m_type == 1 {
            match Entry::from_data(&app_msg.data, app_msg.hash, false) {
                Ok(e) => Some(ForumSyncMessage::AddTopic(app_msg.c_id, e)),
                Err(_) => None,
            }
        } else if app_msg.m_type == 2 {
            match Entry::from_data(&app_msg.data, app_msg.hash, true) {
                Ok(e) => Some(ForumSyncMessage::AddPost(app_msg.c_id, e)),
                Err(_) => None,
            }
        } else {
            None
        }
    }

    /// The parts of the application message that carries this one: type,
    /// content id, data id and the entry's bytes (written plain for a post
    /// and for an edited post other than a topic's first).
    pub fn into_app_msg(&self) -> (r: (u8, u16, u16, Vec<u8>))
        ensures
            match *self {
                ForumSyncMessage::EditPost(c, d, e) => r.0 == 0 && r.1 == c && r.2 == d && r.3@
                    == spec_encode(e.author, e.tags@, e.text@, d > 0),
                ForumSyncMessage::AddTopic(c, e) => r.0 == 1 && r.1 == c && r.2 == 0 && r.3@
                    == spec_encode(e.author, e.tags@, e.text@, false),
                ForumSyncMessage::AddPost(c, e) => r.0 == 2 && r.1 == c && r.2 == 0 && r.3@
                    == spec_encode(e.author, e.tags@, e.text@, true),
            },
    {
        match self {
            ForumSyncMessage::EditPost(c, d, e) => (0, *c, *d, e.into_data(*d > 0)),
            ForumSyncMessage::AddTopic(c, e) => (1, *c, 0, e.into_data(false)),
            ForumSyncMessage::AddPost(c, e) => (2, *c, 0, e.into_data(true)),
        }
    }

    /// Whether two messages are of one kind with the same ids and entries.
    pub fn same_as(&self, other: &ForumSyncMessage) -> (r: bool)
        ensures
            r == same_msg(*self, *other),
    {
        match (self, other) {
            (ForumSyncMessage::EditPost(t1, p1, e1), ForumSyncMessage::EditPost(t2, p2, e2)) => *t1
                == *t2 && *p1 == *p2 && entries_equal(e1, e2),
            (ForumSyncMessage::AddTopic(t1, e1), ForumSyncMessage::AddTopic(t2, e2)) => *t1 == *t2
                && entries_equal(e1, e2),
            (ForumSyncMessage::AddPost(t1, e1), ForumSyncMessage::AddPost(t2, e2)) => *t1 == *t2
                && entries_equal(e1, e2),
            _ => false,
        }
    }
}


/// A set of bytes or of byte pairs as the swarm keeps it.
#[derive(Debug)]
pub enum ByteSet {
    Empty,
    Bytes(Vec<u8>),
    Pairs(Vec<u16>),
}

/// Whether `p` belongs to the set (a byte, or a pair for a set of pairs).
pub open spec fn byteset_has(b: ByteSet, p: int) -> bool {
    match b {
        ByteSet::Empty => false,
        ByteSet::Bytes(v) => 0 <= p < 256 && v@.contains(p as u8),
        ByteSet::Pairs(v) => 0 <= p < 65536 && v@.contains(p as u16),
    }
}

/// The members of the set below `n`, in increasing order.
pub open spec fn members_below(b: ByteSet, n: int) -> Seq<usize>
    decreases n,
{
    if n <= 0 {
        seq![]
    } else if byteset_has(b, n - 1) {
        members_below(b, n - 1).push((n - 1) as usize)
    } else {
        members_below(b, n - 1)
    }
}

/// The labels `label0`, `label1`, ... of the first `n` numbers.
pub open spec fn labels(label: Seq<char>, n: nat) -> Seq<Seq<char>> {
    Seq::new(n, |p: int| label + decimal(p as nat))
}

/// A topic as the creator edits it: its id (none for a new one), its
/// description, the ids of its tags, and the names of all tags offered.
#[derive(Debug)]
pub struct TopicContext {
    pub t_id: Option<u16>,
    pub description: String,
    pub tags: Vec<usize>,
    pub tag_names: Vec<String>,
}

/// The texts of a vector of strings.
pub open spec fn texts(v: Seq<String>) -> Seq<Seq<char>> {
    v.map_values(|s: String| s@)
}

/// Whether a topic context holds the given values.
pub open spec fn topic_is(
    c: TopicContext,
    t_id: Option<u16>,
    description: Seq<char>,
    tags: Seq<usize>,
    names: Seq<Seq<char>>,
) -> bool {
    c.t_id == t_id && c.description@ == description && c.tags@ == tags && texts(c.tag_names@)
        == names
}

/// What the view in the forum's window is; maps hold the entry listed
/// under each id (policies and capabilities under their position).
#[derive(Debug)]
pub enum ForumState<P> {
    MainLobby(Option<u16>),
    Topic(u16, Option<u16>),
    ShowingPost(u16, u16),
    Settings,
    RunningPolicies(Option<(u16, Vec<(P, Requirement)>)>),
    RunningCapabilities(Option<(u16, Vec<(u8, Vec<u64>)>)>),
    ByteSets(bool, Option<(u8, Vec<(u8, ByteSet)>)>),
    StoredPolicies(Option<u16>, Vec<(u8, P)>),
    StoredCapabilities(Option<u16>),
    SelectingOnePolicy(Vec<P>, ReqTree),
    SelectingOneRequirement(Vec<Requirement>, P, ReqTree),
    Pyramid(P, ReqTree),
    Capability(u8, Vec<u64>),
    SelectingOneCapability(Vec<u8>, Box<ForumState<P>>),
    Editing(Option<u16>, Box<ForumState<P>>),
    TopicEditing(TopicContext),
    HeapSorting(Option<(ForumSyncMessage, u64)>, Option<Entry>),
    CreatingByteSet(Vec<u16>, bool, Option<(u8, Vec<(u8, ByteSet)>)>),
    Filtering,
}

/// The paging view of a state: the lobby, a topic, or something else.
pub open spec fn page_view<P>(s: ForumState<P>) -> PageView {
    match s {
        ForumState::MainLobby(p) => PageView::MainLobby(p),
        ForumState::Topic(t, p) => PageView::Topic(t, p),
        _ => PageView::Elsewhere,
    }
}

/// The position of the last entry under key `k`, or -1.
pub open spec fn last_key<V>(m: Seq<(u8, V)>, k: u8) -> int
    decreases m.len(),
{
    if m.len() == 0 {
        -1
    } else if m.last().0 == k {
        m.len() - 1
    } else {
        last_key(m.drop_last(), k)
    }
}

/// What the forum's window asks of the rest of the client.
#[derive(Debug)]
pub enum ForumEffect<P> {
    /// Read pages `from..=to` of a content.
    ReadPagesRange(u16, u16, u16),
    /// Look at the first pending request.
    PeekHeap,
    /// Drop the first pending request.
    PopHeap,
    OpenCreator(TopicContext),
    OpenEditor(EditorParams),
    /// Open the editor with a gnome id's own text as its initial text.
    OpenEditorOnGnome(EditorParams, u64),
    ShowPolicy(P, ReqTree),
    ShowCapability(u8, Vec<(u16, String)>),
    /// Show a capability's members, each by its gnome id's own text.
    ShowGnomes(u8, Vec<(u16, u64)>),
    Select(bool, Vec<String>, Vec<usize>),
    Request(Vec<(u16, String)>),
    /// Make a capability with these members run in the swarm.
    SetRunningCapability(u8, Vec<u64>),
    /// Make a byte set run in the swarm under an id.
    SetRunningByteSet(u8, ByteSet),
    /// Store a capability with these members in the manifest.
    StoreCapability(u8, Vec<u64>),
    /// Store a byte set in the manifest under an id.
    StoreByteSet(u8, ByteSet),
    /// Ask the swarm for its running policies.
    ReadRunningPolicies,
    /// Ask the swarm for its running capabilities.
    ReadRunningCapabilities,
    /// Ask the swarm for its running byte sets.
    ReadRunningByteSets,
    /// Show a page of a list: which list, the page, and its numbered lines.
    ListPage(ListKind, u16, Vec<(u16, String)>),
    /// Show a page of capabilities: which list, the page, and numbered
    /// capability codes, each shown by its name.
    CapabilityPage(ListKind, u16, Vec<(u16, u8)>),
    /// Store a policy with its requirement in the manifest.
    StorePolicy(P, Requirement),
    /// Make a policy with its requirement run in the swarm.
    RunPolicy(P, Requirement),
    /// Show a page of topics.
    TopicsPage(u16, Vec<(u16, String)>),
    /// Show a page of topics given by their ids, each listed by its entry
    /// line.
    ShowTopics(u16, Vec<u16>),
    /// Show a page of the topic's posts given by their ids, each listed by
    /// its entry line.
    ShowPosts(u16, Vec<u16>),
    /// Change the forum's manifest: its description and tag names.
    EditManifest(String, Vec<String>),
    /// Replace data `d` of content `c` with these bytes.
    UpdateData(u16, u16, Vec<u8>),
    /// Add a content (a topic) with these bytes.
    AppendContent(Vec<u8>),
    /// Add data (a post) with these bytes to a content.
    AppendData(u16, Vec<u8>),
    /// Change the forum's description.
    EditDescription(String),
    /// Add a tag of this name to the manifest.
    AddTag(String),
    /// Present the page shown anew.
    Present,
    /// Close the forum's screen.
    Finish,
    /// Read all pages of a content.
    ReadAllPages(u16),
    /// List these entries, each by its line of the window's width.
    RequestEntries(Vec<(u16, Entry)>),
}

/// What the editor hands back: a request to close or to page through a
/// post, or the text typed.
#[derive(Debug)]
pub enum EditorResult {
    Close,
    FirstPage,
    PrevPage,
    NextPage,
    LastPage,
    Text(String),
}

/// The lists that the forum's window pages through.
#[derive(Clone, Copy, Debug, PartialEq, Eq, Structural)]
pub enum ListKind {
    RunningPolicies,
    RunningCapabilities,
    RunningByteSets,
    StoredPolicies,
    StoredCapabilities,
    StoredByteSets,
}

/// What a query reads from the swarm's manifest and registries.
#[derive(Debug)]
pub struct QueryContext {
    /// The forum's description.
    pub description: String,
    /// The manifest's tags by increasing id.
    pub tags: Vec<(u8, String)>,
    /// The names of all tags.
    pub all_tag_names: Vec<String>,
    /// The names of the tags of the shown topic's first post.
    pub first_post_tag_names: Vec<String>,
    /// The registry's requirement of the stored policy under the query's id.
    pub stored_requirement: Option<Requirement>,
    /// The registry's members of the capability with the query's id.
    pub capability_members: Option<Vec<u64>>,
}

/// The optional text of an optional string.
pub open spec fn opt_text(o: Option<String>) -> Option<Seq<char>> {
    match o {
        Some(s) => Some(s@),
        None => None,
    }
}

/// The optional characters of an optional character vector.
pub open spec fn opt_chars(o: Option<Vec<char>>) -> Option<Seq<char>> {
    match o {
        Some(v) => Some(v@),
        None => None,
    }
}

/// Whether editor parameters hold the given values.
pub open spec fn params_are(
    p: EditorParams,
    title: Seq<char>,
    text: Option<Seq<char>>,
    newlines: bool,
    chars: Option<Seq<char>>,
    limit: Option<u16>,
    read_only: bool,
) -> bool {
    p.title@ == title && opt_text(p.initial_text) == text && p.allow_newlines == newlines
        && opt_chars(p.chars_limit) == chars && p.text_limit == limit && p.read_only == read_only
}

/// The forum's presentation: the paging board, the view shown, the
/// founder of the swarm on the clipboard, and the last pending request.
pub struct ForumLogic<P> {
    pub my_id: u64,
    pub board: Board,
    pub state: ForumState<P>,
    pub clipboard_founder: Option<u64>,
    pub last_heap_msg: Option<(ForumSyncMessage, u64)>,
}

impl<P> ForumLogic<P> {
    /// The board pages the view that the state shows.
    pub open spec fn wf(&self) -> bool {
        &&& self.board.view == page_view(self.state)
        &&& self.board.entry_max_len >= 60
    }
}

/// Two boards that differ at most in the view and the posts.
pub open spec fn board_kept(a: Board, b: Board) -> bool {
    &&& b.all_topics == a.all_topics
    &&& b.menu_pages == a.menu_pages
    &&& b.entries_count == a.entries_count
    &&& b.entry_max_len == a.entry_max_len
    &&& b.category_filter == a.category_filter
    &&& b.text_filter == a.text_filter
    &&& b.any_author == a.any_author
}

fn copy_texts(v: &Vec<String>) -> (r: Vec<String>)
    ensures
        texts(r@) == texts(v@),
{
    let mut r: Vec<String> = Vec::new();
    let mut i: usize = 0;
    while i < v.len()
        invariant
            i <= v@.len(),
            r@.len() == i,
            forall|k: int| 0 <= k < i ==> #[trigger] r@[k]@ == v@[k]@,
        decreases v@.len() - i,
    {
        r.push(v[i].clone());
        i = i + 1;
    }
    proof {
        assert(texts(r@) =~= texts(v@));
    }
    r
}

fn copy_ids(v: &Vec<u64>) -> (r: Vec<u64>)
    ensures
        r@ == v@,
{
    let mut r: Vec<u64> = Vec::new();
    let mut i: usize = 0;
    while i < v.len()
        invariant
            i <= v@.len(),
            r@ == v@.subrange(0, i as int),
        decreases v@.len() - i,
    {
        r.push(v[i]);
        i = i + 1;
        proof {
            assert(r@ =~= v@.subrange(0, i as int));
        }
    }
    proof {
        assert(v@.subrange(0, i as int) =~= v@);
    }
    r
}


/// The strings `label0`, `label1`, ... for the first `n` numbers.
pub fn labelled_range(label: &str, n: u32) -> (r: Vec<String>)
    ensures
        texts(r@) == labels(label@, n as nat),
{
    let mut r: Vec<String> = Vec::new();
    let mut p: u32 = 0;
    while p < n
        invariant
            p <= n,
            r@.len() == p,
            forall|k: int| 0 <= k < p ==> #[trigger] r@[k]@ == label@ + decimal(k as nat),
        decreases n - p,
    {
        r.push(numbered(label, p as u64));
        p = p + 1;
    }
    proof {
        assert(texts(r@) =~= labels(label@, n as nat));
    }
    r
}

fn has_byte(v: &Vec<u8>, b: u8) -> (r: bool)
    ensures
        r == v@.contains(b),
{
    let mut i: usize = 0;
    while i < v.len()
        invariant
            i <= v@.len(),
            forall|k: int| 0 <= k < i ==> v@[k] != b,
        decreases v@.len() - i,
    {
        if v[i] == b {
            proof {
                assert(v@[i as int] == b);
            }
            return true;
        }
        i = i + 1;
    }
    false
}

fn has_pair(v: &Vec<u16>, b: u16) -> (r: bool)
    ensures
        r == v@.contains(b),
{
    let mut i: usize = 0;
    while i < v.len()
        invariant
            i <= v@.len(),
            forall|k: int| 0 <= k < i ==> v@[k] != b,
        decreases v@.len() - i,
    {
        if v[i] == b {
            proof {
                assert(v@[i as int] == b);
            }
            return true;
        }
        i = i + 1;
    }
    false
}

fn byteset_contains(b: &ByteSet, p: u32) -> (r: bool)
    ensures
        r == byteset_has(*b, p as int),
{
    match b {
        ByteSet::Empty => false,
        ByteSet::Bytes(v) => p < 256 && has_byte(v, p as u8),
        ByteSet::Pairs(v) => p < 65536 && has_pair(v, p as u16),
    }
}

/// The members of the set below `n`, in increasing order.
pub fn byteset_members(b: &ByteSet, n: u32) -> (r: Vec<usize>)
    ensures
        r@ == members_below(*b, n as int),
{
    let mut r: Vec<usize> = Vec::new();
    let mut p: u32 = 0;
    while p < n
        invariant
            p <= n,
            r@ == members_below(*b, p as int),
        decreases n - p,
    {
        if byteset_contains(b, p) {
            r.push(p as usize);
        }
        p = p + 1;
    }
    r
}

/// The position of the last entry under key `k`.
fn find_last_key<V>(m: &Vec<(u8, V)>, k: u8) -> (r: Option<usize>)
    ensures
        match r {
            Some(i) => i == last_key(m@, k) && i < m@.len(),
            None => last_key(m@, k) == -1,
        },
{
    let mut i: usize = m.len();
    proof {
        assert(m@.subrange(0, m@.len() as int) =~= m@);
    }
    while i > 0
        invariant
            i <= m@.len(),
            last_key(m@, k) == last_key(m@.subrange(0, i as int), k),
        decreases i,
    {
        let ghost pre = m@.subrange(0, i as int);
        proof {
            assert(pre.drop_last() =~= m@.subrange(0, i - 1));
        }
        if m[i - 1].0 == k {
            return Some(i - 1);
        }
        i = i - 1;
    }
    None
}


/// The ids of tags listed with their names.
pub open spec fn tag_ids(t: Seq<(u8, String)>) -> Seq<usize> {
    t.map_values(|x: (u8, String)| x.0 as usize)
}

/// The names of tags listed with their ids.
pub open spec fn tag_texts(t: Seq<(u8, String)>) -> Seq<Seq<char>> {
    t.map_values(|x: (u8, String)| x.1@)
}

/// Tag bytes as the creator's tag ids.
pub open spec fn widened(t: Seq<u8>) -> Seq<usize> {
    t.map_values(|b: u8| b as usize)
}

/// The members of a capability shown on page `pg` of `n` entries, each
/// under its position on the page.
pub open spec fn member_page(v: Seq<u64>, n: u16, pg: u16) -> Seq<(u16, u64)> {
    let start = n * pg;
    let len = if v.len() <= start { 0 } else if v.len() - start < n { v.len() - start } else {
        n as int
    };
    Seq::new(len as nat, |i: int| (i as u16, v[start + i]))
}

/// The members of a capability written as gnome ids, each under its
/// position.
pub open spec fn member_lines(v: Seq<u64>) -> Seq<(u16, Seq<char>)> {
    Seq::new(v.len(), |i: int| (i as u16, gid_text(v[i])))
}

/// The texts of numbered lines.
pub open spec fn line_texts(l: Seq<(u16, String)>) -> Seq<(u16, Seq<char>)> {
    l.map_values(|x: (u16, String)| (x.0, x.1@))
}

/// A query on an entry panics when the state it needs is missing: the
/// lobby needs a page size to read a topic, a topic's header needs the
/// topic's first post, and a capability needs the member under the id.
pub open spec fn query_allowed<P>(s: ForumState<P>, id: u16, n: u16, posts: nat) -> bool {
    &&& (s matches ForumState::MainLobby(Some(_)) && id != 0 ==> n > 0)
    &&& (s matches ForumState::Topic(_, Some(_)) && id == 0 ==> posts > 0)
    &&& (s matches ForumState::Capability(_, v) ==> id < v@.len())
}

/// The title and settings of the editor that shows a pending request's
/// entry.
pub open spec fn shows_entry<P>(e: Seq<ForumEffect<P>>, title: Seq<char>, text: Seq<char>) -> bool {
    e.len() == 1 && (e[0] matches ForumEffect::OpenEditor(p) && params_are(
        p,
        title,
        Some(text),
        false,
        None,
        None,
        true,
    ))
}

/// A query on the lobby's entry `id` (pages of `n` entries): entry 0 opens
/// the creator on the forum's description and tags, another reads the
/// first page of that topic.
pub open spec fn lobby_served<P>(
    id: u16,
    n: u16,
    ctx: QueryContext,
    s: ForumState<P>,
    e: Seq<ForumEffect<P>>,
) -> bool {
    if id == 0 {
        &&& e.len() == 1
        &&& e[0] matches ForumEffect::OpenCreator(c) && topic_is(
            c,
            Some(0u16),
            ctx.description@,
            tag_ids(ctx.tags@),
            tag_texts(ctx.tags@),
        )
        &&& s matches ForumState::TopicEditing(c) && topic_is(
            c,
            Some(0u16),
            ctx.description@,
            tag_ids(ctx.tags@),
            tag_texts(ctx.tags@),
        )
    } else {
        &&& e == seq![ForumEffect::<P>::ReadPagesRange(id, 0, (n - 1) as u16)]
        &&& s == ForumState::<P>::Topic(id, None)
    }
}

/// A query on entry `id` of topic `c`: entry 0 opens the creator on the
/// topic's first post (the creator offers the post's tag names, the state
/// keeps all names), another reads that post.
pub open spec fn topic_served<P>(
    c: u16,
    id: u16,
    first: Entry,
    ctx: QueryContext,
    s: ForumState<P>,
    e: Seq<ForumEffect<P>>,
) -> bool {
    if id == 0 {
        &&& e.len() == 1
        &&& e[0] matches ForumEffect::OpenCreator(x) && topic_is(
            x,
            Some(c),
            first.text@,
            widened(first.tags@),
            texts(ctx.first_post_tag_names@),
        )
        &&& s matches ForumState::TopicEditing(y) && topic_is(
            y,
            Some(c),
            first.text@,
            widened(first.tags@),
            texts(ctx.all_tag_names@),
        )
    } else {
        &&& e == seq![ForumEffect::<P>::ReadPagesRange(c, id, id)]
        &&& s == ForumState::<P>::ShowingPost(c, id)
    }
}

/// A query in the settings edits the forum's description.
pub open spec fn settings_served<P>(ctx: QueryContext, s: ForumState<P>, e: Seq<ForumEffect<P>>) -> bool {
    &&& e.len() == 1
    &&& e[0] matches ForumEffect::OpenEditor(p) && params_are(
        p,
        "Editing Forum's description"@,
        Some(ctx.description@),
        true,
        None,
        Some(1000u16),
        false,
    )
    &&& s == ForumState::<P>::Editing(None, Box::new(ForumState::<P>::Settings))
}

/// A query on a byte set under key `id`: a set of pairs offers all pairs,
/// another set all bytes, its members selected.
pub open spec fn byteset_served<P>(
    r: bool,
    i: u8,
    hm: Vec<(u8, ByteSet)>,
    id: u16,
    s: ForumState<P>,
    e: Seq<ForumEffect<P>>,
) -> bool {
    let k = last_key(hm@, id as u8);
    if k >= 0 {
        let b = hm@[k].1;
        let (label, size) = if b is Pairs {
            ("Pair "@, 65536nat)
        } else {
            ("Byte "@, 256nat)
        };
        &&& e.len() == 1
        &&& e[0] matches ForumEffect::Select(multi, strs, pre) && !multi && texts(strs@) == labels(
            label,
            size,
        ) && pre@ == members_below(b, size as int)
        &&& s == ForumState::<P>::ByteSets(r, Some((id as u8, hm)))
    } else {
        &&& e.len() == 0
        &&& s == ForumState::<P>::ByteSets(r, Some((i, hm)))
    }
}

/// A query on member `id` of capability `c`: the editor opens on the
/// clipboard's founder, or on the member itself.
pub open spec fn capability_served<P>(
    c: u8,
    v: Vec<u64>,
    id: u16,
    clip: Option<u64>,
    s: ForumState<P>,
    e: Seq<ForumEffect<P>>,
) -> bool {
    let title = "Adding new Capability"@;
    let digits = "0123456789abcdef"@;
    &&& e.len() == 1
    &&& match clip {
        Some(fd) => e[0] matches ForumEffect::OpenEditor(p) && params_are(
            p,
            title,
            Some(gid_text(fd)),
            false,
            Some(digits),
            Some(20u16),
            false,
        ),
        None => e[0] matches ForumEffect::OpenEditorOnGnome(p, g) && g == v@[id as int]
            && params_are(p, title, None, false, Some(digits), Some(20u16), false),
    }
    &&& s == ForumState::<P>::Editing(Some(id), Box::new(ForumState::<P>::Capability(c, v)))
}

/// A query on entry `id` of a pending request: an edit shows the new
/// entry (1) or the original one when it is known (0); an added topic or
/// post shows its entry (0).
pub open spec fn heap_served<P>(
    msg: ForumSyncMessage,
    eo: Option<Entry>,
    id: u16,
    e: Seq<ForumEffect<P>>,
) -> bool {
    match msg {
        ForumSyncMessage::EditPost(_, _, en) => if id == 1 {
            shows_entry(e, "Reviewing modified Post"@, en.text@)
        } else if id == 0 && eo is Some {
            shows_entry(e, "Viewing original Post"@, eo->0.text@)
        } else {
            e.len() == 0
        },
        ForumSyncMessage::AddTopic(_, en) => if id == 0 {
            shows_entry(e, "Reviewing new Topic"@, en.text@)
        } else {
            e.len() == 0
        },
        ForumSyncMessage::AddPost(_, en) => if id == 0 {
            shows_entry(e, "Reviewing new Post"@, en.text@)
        } else {
            e.len() == 0
        },
    }
}

/// What a query on entry `id` does in each view: the lobby and a topic
/// open or read the entry, the settings edit the description, running
/// policies and capabilities, byte sets, stored policies and capabilities
/// show the entry under the id, a capability edits a member, and a pending
/// request shows its entries, or is read when none is held. Other views
/// ignore queries.
pub open spec fn query_served<P>(
    o: ForumLogic<P>,
    f: ForumLogic<P>,
    id: u16,
    ctx: QueryContext,
    e: Seq<ForumEffect<P>>,
) -> bool {
    let n = o.board.entries_count;
    let kept = f.state == o.state && e.len() == 0;
    &&& (o.state matches ForumState::MainLobby(Some(_)) && id != 0 ==> f.board.posts@.len() == 0)
    &&& (!(o.state matches ForumState::MainLobby(Some(_)) && id != 0) ==> f.board.posts
        == o.board.posts)
    &&& match o.state {
        ForumState::MainLobby(Some(_)) => lobby_served(id, n, ctx, f.state, e),
        ForumState::Topic(c, Some(_)) => topic_served(c, id, o.board.posts@[0], ctx, f.state, e),
        ForumState::Settings => settings_served(ctx, f.state, e),
        ForumState::RunningPolicies(Some((_, m))) => if id < m@.len() {
            let t = spec_decompose(m@[id as int].1);
            &&& e == seq![ForumEffect::ShowPolicy(m@[id as int].0, t)]
            &&& f.state == ForumState::Pyramid(m@[id as int].0, t)
        } else {
            kept
        },
        ForumState::RunningCapabilities(Some((pg, m))) => if id < m@.len() {
            let (c, v) = m@[id as int];
            &&& e.len() == 1
            &&& e[0] matches ForumEffect::ShowGnomes(c2, l) && c2 == c && l@ == member_page(
                v@,
                n,
                pg,
            )
            &&& f.state matches ForumState::Capability(c3, v3) && c3 == c && v3@ == v@
        } else {
            kept
        },
        ForumState::ByteSets(r, Some((i, hm))) => byteset_served(r, i, hm, id, f.state, e),
        ForumState::StoredPolicies(_, pm) => {
            let k = last_key(pm@, id as u8);
            &&& f.state == o.state
            &&& if k >= 0 && ctx.stored_requirement is Some {
                e == seq![
                    ForumEffect::ShowPolicy(
                        pm@[k].1,
                        spec_decompose(ctx.stored_requirement->0),
                    ),
                ]
            } else {
                e.len() == 0
            }
        },
        ForumState::StoredCapabilities(_) => {
            let v = match ctx.capability_members {
                Some(v) => v@,
                None => seq![],
            };
            &&& e.len() == 1
            &&& e[0] matches ForumEffect::ShowCapability(c, l) && c == id as u8 && line_texts(l@)
                == member_lines(v)
            &&& f.state matches ForumState::Capability(c, w) && c == id as u8 && w@ == v
        },
        ForumState::Capability(c, v) => capability_served(c, v, id, o.clipboard_founder, f.state, e),
        ForumState::HeapSorting(Some((msg, _)), eo) => f.state == o.state && heap_served(
            msg,
            eo,
            id,
            e,
        ),
        ForumState::HeapSorting(None, _) => f.state == o.state && e == seq![
            ForumEffect::<P>::PeekHeap,
        ],
        _ => kept,
    }
}

/// The paging view of a state.
pub fn view_of<P>(s: &ForumState<P>) -> (v: PageView)
    ensures
        v == page_view(*s),
{
    match s {
        ForumState::MainLobby(p) => PageView::MainLobby(*p),
        ForumState::Topic(t, p) => PageView::Topic(*t, *p),
        _ => PageView::Elsewhere,
    }
}


fn tag_lists(tags: &Vec<(u8, String)>) -> (r: (Vec<usize>, Vec<String>))
    ensures
        r.0@ == tag_ids(tags@),
        texts(r.1@) == tag_texts(tags@),
{
    let mut ids: Vec<usize> = Vec::new();
    let mut names: Vec<String> = Vec::new();
    let mut i: usize = 0;
    while i < tags.len()
        invariant
            i <= tags@.len(),
            ids@.len() == i,
            names@.len() == i,
            forall|k: int| 0 <= k < i ==> #[trigger] ids@[k] == tags@[k].0 as usize,
            forall|k: int| 0 <= k < i ==> #[trigger] names@[k]@ == tags@[k].1@,
        decreases tags@.len() - i,
    {
        ids.push(tags[i].0 as usize);
        names.push(tags[i].1.clone());
        i = i + 1;
    }
    proof {
        assert(ids@ =~= tag_ids(tags@));
        assert(texts(names@) =~= tag_texts(tags@));
    }
    (ids, names)
}

fn widen(t: &Vec<u8>) -> (r: Vec<usize>)
    ensures
        r@ == widened(t@),
{
    let mut r: Vec<usize> = Vec::new();
    let mut i: usize = 0;
    while i < t.len()
        invariant
            i <= t@.len(),
            r@.len() == i,
            forall|k: int| 0 <= k < i ==> #[trigger] r@[k] == t@[k] as usize,
        decreases t@.len() - i,
    {
        r.push(t[i] as usize);
        i = i + 1;
    }
    proof {
        assert(r@ =~= widened(t@));
    }
    r
}

fn copy_usizes(v: &Vec<usize>) -> (r: Vec<usize>)
    ensures
        r@ == v@,
{
    let mut r: Vec<usize> = Vec::new();
    let mut i: usize = 0;
    while i < v.len()
        invariant
            i <= v@.len(),
            r@ == v@.subrange(0, i as int),
        decreases v@.len() - i,
    {
        r.push(v[i]);
        i = i + 1;
        proof {
            assert(r@ =~= v@.subrange(0, i as int));
        }
    }
    proof {
        assert(v@.subrange(0, i as int) =~= v@);
    }
    r
}

fn member_page_of(v: &Vec<u64>, n: u16, pg: u16) -> (r: Vec<(u16, u64)>)
    ensures
        r@ == member_page(v@, n, pg),
{
    proof {
        assert((n as int) * (pg as int) <= 65535 * 65535) by (nonlinear_arith)
            requires
                n <= 65535,
                pg <= 65535,
        ;
    }
    let start: usize = (n as usize) * (pg as usize);
    let ghost len = member_page(v@, n, pg).len();
    let mut r: Vec<(u16, u64)> = Vec::new();
    let mut i: usize = 0;
    while i < n as usize && start + i < v.len()
        invariant
            start == n * pg,
            start <= 65535 * 65535,
            len == member_page(v@, n, pg).len(),
            i <= n,
            i <= len,
            r@.len() == i,
            forall|k: int| 0 <= k < i ==> #[trigger] r@[k] == (k as u16, v@[start + k]),
        decreases n - i,
    {
        r.push((i as u16, v[start + i]));
        i = i + 1;
    }
    proof {
        assert(i == len);
        assert(r@ =~= member_page(v@, n, pg));
    }
    r
}

fn member_lines_of(v: &Vec<u64>) -> (r: Vec<(u16, String)>)
    ensures
        line_texts(r@) == member_lines(v@),
{
    let mut r: Vec<(u16, String)> = Vec::new();
    let mut i: usize = 0;
    while i < v.len()
        invariant
            i <= v@.len(),
            r@.len() == i,
            forall|k: int| 0 <= k < i ==> #[trigger] r@[k].0 == k as u16 && r@[k].1@ == gid_text(
                v@[k],
            ),
        decreases v@.len() - i,
    {
        r.push((i as u16, gid_string(v[i])));
        i = i + 1;
    }
    proof {
        assert(line_texts(r@) =~= member_lines(v@));
    }
    r
}

fn editor_params(
    title: &str,
    text: Option<String>,
    newlines: bool,
    chars: Option<Vec<char>>,
    limit: Option<u16>,
    read_only: bool,
) -> (p: EditorParams)
    ensures
        params_are(p, title@, opt_text(text), newlines, opt_chars(chars), limit, read_only),
{
    EditorParams {
        title: String::from_str(title),
        initial_text: text,
        allow_newlines: newlines,
        chars_limit: chars,
        text_limit: limit,
        read_only,
    }
}

fn lobby_query<P>(id: u16, n: u16, ctx: QueryContext) -> (r: (ForumState<P>, Vec<ForumEffect<P>>))
    requires
        id != 0 ==> n > 0,
    ensures
        lobby_served(id, n, ctx, r.0, r.1@),
{
    let mut effects: Vec<ForumEffect<P>> = Vec::new();
    if id == 0 {
        let (ids, names) = tag_lists(&ctx.tags);
        let shown = TopicContext {
            t_id: Some(0),
            description: ctx.description.clone(),
            tags: copy_usizes(&ids),
            tag_names: copy_texts(&names),
        };
        effects.push(ForumEffect::OpenCreator(shown));
        let kept = TopicContext { t_id: Some(0), description: ctx.description, tags: ids, tag_names: names };
        (ForumState::TopicEditing(kept), effects)
    } else {
        effects.push(ForumEffect::ReadPagesRange(id, 0, n - 1));
        proof {
            assert(effects@ =~= seq![ForumEffect::<P>::ReadPagesRange(id, 0, (n - 1) as u16)]);
        }
        (ForumState::Topic(id, None), effects)
    }
}

fn topic_header_query<P>(c: u16, first: &Entry, ctx: QueryContext) -> (r: (ForumState<P>, Vec<ForumEffect<P>>))
    ensures
        topic_served(c, 0, *first, ctx, r.0, r.1@),
{
    let mut effects: Vec<ForumEffect<P>> = Vec::new();
    let tags = widen(&first.tags);
    let text = first.text.clone();
    let shown = TopicContext {
        t_id: Some(c),
        description: text.clone(),
        tags: copy_usizes(&tags),
        tag_names: ctx.first_post_tag_names,
    };
    effects.push(ForumEffect::OpenCreator(shown));
    let kept = TopicContext { t_id: Some(c), description: text, tags, tag_names: ctx.all_tag_names };
    (ForumState::TopicEditing(kept), effects)
}

fn settings_query<P>(ctx: QueryContext) -> (r: (ForumState<P>, Vec<ForumEffect<P>>))
    ensures
        settings_served(ctx, r.0, r.1@),
{
    let mut effects: Vec<ForumEffect<P>> = Vec::new();
    let p = editor_params("Editing Forum's description", Some(ctx.description), true, None, Some(1000), false);
    effects.push(ForumEffect::OpenEditor(p));
    (ForumState::Editing(None, Box::new(ForumState::Settings)), effects)
}

fn byteset_query<P>(r: bool, i: u8, hm: Vec<(u8, ByteSet)>, id: u16) -> (res: (ForumState<P>, Vec<ForumEffect<P>>))
    ensures
        byteset_served(r, i, hm, id, res.0, res.1@),
{
    let mut effects: Vec<ForumEffect<P>> = Vec::new();
    #[verifier::truncate]
    let key = id as u8;
    match find_last_key(&hm, key) {
        Some(k) => {
            let pairs = match &hm[k].1 {
                ByteSet::Pairs(_) => true,
                _ => false,
            };
            let (strs, pre) = if pairs {
                (labelled_range("Pair ", 65536), byteset_members(&hm[k].1, 65536))
            } else {
                (labelled_range("Byte ", 256), byteset_members(&hm[k].1, 256))
            };
            effects.push(ForumEffect::Select(false, strs, pre));
            (ForumState::ByteSets(r, Some((key, hm))), effects)
        },
        None => (ForumState::ByteSets(r, Some((i, hm))), effects),
    }
}

fn capability_query<P>(c: u8, v: Vec<u64>, id: u16, clip: Option<u64>) -> (r: (ForumState<P>, Vec<ForumEffect<P>>))
    requires
        id < v@.len(),
    ensures
        capability_served(c, v, id, clip, r.0, r.1@),
{
    let mut effects: Vec<ForumEffect<P>> = Vec::new();
    let digits = chars_of("0123456789abcdef");
    match clip {
        Some(fd) => {
            let p = editor_params("Adding new Capability", Some(gid_string(fd)), false, Some(digits), Some(20), false);
            effects.push(ForumEffect::OpenEditor(p));
        },
        None => {
            let g = v[id as usize];
            let p = editor_params("Adding new Capability", None, false, Some(digits), Some(20), false);
            effects.push(ForumEffect::OpenEditorOnGnome(p, g));
        },
    }
    (ForumState::Editing(Some(id), Box::new(ForumState::Capability(c, v))), effects)
}

fn show_entry<P>(title: &str, text: &String) -> (e: Vec<ForumEffect<P>>)
    ensures
        shows_entry(e@, title@, text@),
{
    let mut effects: Vec<ForumEffect<P>> = Vec::new();
    let p = editor_params(title, Some(text.clone()), false, None, None, true);
    effects.push(ForumEffect::OpenEditor(p));
    effects
}

fn heap_query<P>(msg: &ForumSyncMessage, eo: &Option<Entry>, id: u16) -> (e: Vec<ForumEffect<P>>)
    ensures
        heap_served(*msg, *eo, id, e@),
{
    match msg {
        ForumSyncMessage::EditPost(_, _, en) => {
            if id == 1 {
                show_entry("Reviewing modified Post", &en.text)
            } else if id == 0 {
                match eo {
                    Some(orig) => show_entry("Viewing original Post", &orig.text),
                    None => Vec::new(),
                }
            } else {
                Vec::new()
            }
        },
        ForumSyncMessage::AddTopic(_, en) => {
            if id == 0 {
                show_entry("Reviewing new Topic", &en.text)
            } else {
                Vec::new()
            }
        },
        ForumSyncMessage::AddPost(_, en) => {
            if id == 0 {
                show_entry("Reviewing new Post", &en.text)
            } else {
                Vec::new()
            }
        },
    }
}

impl<P: Copy> ForumLogic<P> {
    /// Serves a query on entry `id` of the view shown (see `query_served`).
    pub fn serve_query(&mut self, id: u16, ctx: QueryContext) -> (effects: Vec<ForumEffect<P>>)
        requires
            old(self).wf(),
            query_allowed(
                old(self).state,
                id,
                old(self).board.entries_count,
                old(self).board.posts@.len(),
            ),
        ensures
            final(self).wf(),
            board_kept(old(self).board, final(self).board),
            final(self).clipboard_founder == old(self).clipboard_founder,
            final(self).last_heap_msg == old(self).last_heap_msg,
            query_served(*old(self), *final(self), id, ctx, effects@),
    {
        let mut st = ForumState::Settings;
        std::mem::swap(&mut st, &mut self.state);
        let n = self.board.entries_count;
        let (new_state, effects) = match st {
            ForumState::MainLobby(Some(_)) => {
                if id != 0 {
                    self.board.posts = Vec::new();
                }
                lobby_query(id, n, ctx)
            },
            ForumState::Topic(c, Some(_)) => {
                if id == 0 {
                    topic_header_query(c, &self.board.posts[0], ctx)
                } else {
                    let mut effects: Vec<ForumEffect<P>> = Vec::new();
                    effects.push(ForumEffect::ReadPagesRange(c, id, id));
                    proof {
                        assert(effects@ =~= seq![ForumEffect::<P>::ReadPagesRange(c, id, id)]);
                    }
                    (ForumState::ShowingPost(c, id), effects)
                }
            },
            ForumState::Settings => settings_query(ctx),
            ForumState::RunningPolicies(Some((pg, m))) => {
                let mut effects: Vec<ForumEffect<P>> = Vec::new();
                if (id as usize) < m.len() {
                    let p = m[id as usize].0;
                    let t = decompose(copy_requirement_of(&m[id as usize].1));
                    let t2 = crate::poledit::copy_tree(&t);
                    effects.push(ForumEffect::ShowPolicy(p, t2));
                    proof {
                        assert(effects@ =~= seq![ForumEffect::ShowPolicy(p, t)]);
                    }
                    (ForumState::Pyramid(p, t), effects)
                } else {
                    (ForumState::RunningPolicies(Some((pg, m))), effects)
                }
            },
            ForumState::RunningCapabilities(Some((pg, m))) => {
                let mut effects: Vec<ForumEffect<P>> = Vec::new();
                if (id as usize) < m.len() {
                    let c = m[id as usize].0;
                    let page = member_page_of(&m[id as usize].1, n, pg);
                    let v = copy_ids(&m[id as usize].1);
                    effects.push(ForumEffect::ShowGnomes(c, page));
                    (ForumState::Capability(c, v), effects)
                } else {
                    (ForumState::RunningCapabilities(Some((pg, m))), effects)
                }
            },
            ForumState::ByteSets(r, Some((i, hm))) => byteset_query(r, i, hm, id),
            ForumState::StoredPolicies(pg, pm) => {
                let mut effects: Vec<ForumEffect<P>> = Vec::new();
                #[verifier::truncate]
                let key = id as u8;
                match find_last_key(&pm, key) {
                    Some(k) => {
                        match ctx.stored_requirement {
                            Some(req) => {
                                let t = decompose(req);
                                effects.push(ForumEffect::ShowPolicy(pm[k].1, t));
                                proof {
                                    assert(effects@ =~= seq![ForumEffect::ShowPolicy(pm@[k as int].1, t)]);
                                }
                            },
                            None => {},
                        }
                    },
                    None => {},
                }
                (ForumState::StoredPolicies(pg, pm), effects)
            },
            ForumState::StoredCapabilities(pg) => {
                let mut effects: Vec<ForumEffect<P>> = Vec::new();
                #[verifier::truncate]
                let cap = id as u8;
                match ctx.capability_members {
                    Some(all) => {
                        effects.push(ForumEffect::ShowCapability(cap, member_lines_of(&all)));
                        (ForumState::Capability(cap, all), effects)
                    },
                    None => {
                        let none: Vec<u64> = Vec::new();
                        effects.push(ForumEffect::ShowCapability(cap, member_lines_of(&none)));
                        (ForumState::Capability(cap, none), effects)
                    },
                }
            },
            ForumState::Capability(c, v) => capability_query(c, v, id, self.clipboard_founder),
            ForumState::HeapSorting(Some((msg, signer)), eo) => {
                let effects = heap_query(&msg, &eo, id);
                (ForumState::HeapSorting(Some((msg, signer)), eo), effects)
            },
            ForumState::HeapSorting(None, eo) => {
                let mut effects: Vec<ForumEffect<P>> = Vec::new();
                effects.push(ForumEffect::PeekHeap);
                proof {
                    assert(effects@ =~= seq![ForumEffect::<P>::PeekHeap]);
                }
                (ForumState::HeapSorting(None, eo), effects)
            },
            other => (other, Vec::new()),
        };
        self.board.view = view_of(&new_state);
        self.state = new_state;
        effects
    }
}

fn copy_requirement_of(r: &Requirement) -> (c: Requirement)
    ensures
        c == *r,
{
    crate::poledit::copy_requirement(r)
}


fn copy_bytes(v: &Vec<u8>) -> (r: Vec<u8>)
    ensures
        r@ == v@,
{
    let mut r: Vec<u8> = Vec::new();
    let mut i: usize = 0;
    while i < v.len()
        invariant
            i <= v@.len(),
            r@ == v@.subrange(0, i as int),
        decreases v@.len() - i,
    {
        r.push(v[i]);
        i = i + 1;
        proof {
            assert(r@ =~= v@.subrange(0, i as int));
        }
    }
    proof {
        assert(v@.subrange(0, i as int) =~= v@);
    }
    r
}

fn copy_pairs(v: &Vec<u16>) -> (r: Vec<u16>)
    ensures
        r@ == v@,
{
    let mut r: Vec<u16> = Vec::new();
    let mut i: usize = 0;
    while i < v.len()
        invariant
            i <= v@.len(),
            r@ == v@.subrange(0, i as int),
        decreases v@.len() - i,
    {
        r.push(v[i]);
        i = i + 1;
        proof {
            assert(r@ =~= v@.subrange(0, i as int));
        }
    }
    proof {
        assert(v@.subrange(0, i as int) =~= v@);
    }
    r
}

/// The same set: of the same kind with the same members listed.
pub open spec fn same_byteset(a: ByteSet, b: ByteSet) -> bool {
    match (a, b) {
        (ByteSet::Empty, ByteSet::Empty) => true,
        (ByteSet::Bytes(x), ByteSet::Bytes(y)) => x@ == y@,
        (ByteSet::Pairs(x), ByteSet::Pairs(y)) => x@ == y@,
        _ => false,
    }
}

fn copy_byteset(b: &ByteSet) -> (r: ByteSet)
    ensures
        same_byteset(*b, r),
{
    match b {
        ByteSet::Empty => ByteSet::Empty,
        ByteSet::Bytes(v) => ByteSet::Bytes(copy_bytes(v)),
        ByteSet::Pairs(v) => ByteSet::Pairs(copy_pairs(v)),
    }
}

fn copy_entry(e: &Entry) -> (r: Entry)
    ensures
        same_entry(*e, r),
{
    Entry { author: e.author, tags: copy_bytes(&e.tags), text: e.text.clone(), hash: e.hash }
}

fn copy_msg(m: &ForumSyncMessage) -> (r: ForumSyncMessage)
    ensures
        same_msg(*m, r),
{
    match m {
        ForumSyncMessage::EditPost(t, p, e) => ForumSyncMessage::EditPost(*t, *p, copy_entry(e)),
        ForumSyncMessage::AddTopic(t, e) => ForumSyncMessage::AddTopic(*t, copy_entry(e)),
        ForumSyncMessage::AddPost(t, e) => ForumSyncMessage::AddPost(*t, copy_entry(e)),
    }
}

/// An entry's line as a pending request lists it: the entry's line of
/// `size` characters and the author's name.
pub open spec fn entry_text(e: Entry, size: int, author: Seq<char>) -> Seq<char> {
    line_text(e.text@, size - 21) + seq![' '] + author
}

/// The lines that describe a pending request, for lines of `max`
/// characters; `author` is the name of the request's entry's author.
pub open spec fn heap_lines(msg: ForumSyncMessage, max: int, author: Seq<char>) -> Seq<(u16, Seq<char>)> {
    match msg {
        ForumSyncMessage::AddTopic(_, e) => seq![
            (0u16, "Add Topic: "@ + entry_text(e, max - 11, author)),
        ],
        ForumSyncMessage::AddPost(t, e) => seq![
            (0u16, decimal(t as nat) + " Add Post: "@ + entry_text(e, max - 15, author)),
        ],
        ForumSyncMessage::EditPost(t, p, e) => seq![
            (0u16, "Orig: Pending ("@ + decimal(t as nat) + "-"@ + decimal(p as nat) + ")"@),
            (1u16, "Modif: "@ + entry_text(e, max - 7, author)),
        ],
    }
}

/// What looking at the pending requests does: with none pending it says
/// so; with one held it shows it (and reads the original of an edited
/// post); otherwise it asks for the first one.
pub open spec fn heap_shown<P>(
    o: ForumLogic<P>,
    f: ForumLogic<P>,
    heap_empty: bool,
    author: Seq<char>,
    e: Seq<ForumEffect<P>>,
) -> bool {
    if heap_empty {
        &&& f.state == ForumState::<P>::HeapSorting(None, None)
        &&& e.len() == 1
        &&& e[0] matches ForumEffect::Request(l) && line_texts(l@) == seq![
            (0u16, "No Requests pending"@),
        ]
    } else {
        match o.last_heap_msg {
            Some((m, signer)) => {
                &&& f.state matches ForumState::HeapSorting(Some((m2, s2)), None) && same_msg(m, m2)
                    && s2 == signer
                &&& e.len() >= 1
                &&& e[0] matches ForumEffect::Request(l) && line_texts(l@) == heap_lines(
                    m,
                    o.board.entry_max_len as int,
                    author,
                )
                &&& match m {
                    ForumSyncMessage::EditPost(t, p, _) => e.len() == 2 && e[1]
                        == ForumEffect::<P>::ReadPagesRange(t, p, p),
                    _ => e.len() == 1,
                }
            },
            None => {
                &&& f.state == ForumState::<P>::HeapSorting(None, None)
                &&& e == seq![ForumEffect::<P>::PeekHeap]
            },
        }
    }
}

fn request_line(n: u16, text: Vec<char>) -> (r: (u16, String))
    ensures
        r.0 == n,
        r.1@ == text@,
{
    (n, string_of(&text))
}

/// The pending-request lines of a message.
fn heap_request(msg: &ForumSyncMessage, max: usize, author_name: &str) -> (r: Vec<(u16, String)>)
    requires
        max >= 60,
    ensures
        line_texts(r@) == heap_lines(*msg, max as int, author_name@),
{
    let mut r: Vec<(u16, String)> = Vec::new();
    match msg {
        ForumSyncMessage::AddTopic(_, e) => {
            let mut v: Vec<char> = Vec::new();
            push_str(&mut v, "Add Topic: ");
            push_str(&mut v, e.entry_line(max - 11, author_name).as_str());
            r.push(request_line(0, v));
        },
        ForumSyncMessage::AddPost(t, e) => {
            let mut v: Vec<char> = Vec::new();
            push_decimal(&mut v, *t as u64);
            push_str(&mut v, " Add Post: ");
            push_str(&mut v, e.entry_line(max - 15, author_name).as_str());
            r.push(request_line(0, v));
        },
        ForumSyncMessage::EditPost(t, p, e) => {
            let mut v: Vec<char> = Vec::new();
            push_str(&mut v, "Orig: Pending (");
            push_decimal(&mut v, *t as u64);
            push_str(&mut v, "-");
            push_decimal(&mut v, *p as u64);
            push_str(&mut v, ")");
            r.push(request_line(0, v));
            let mut w: Vec<char> = Vec::new();
            push_str(&mut w, "Modif: ");
            push_str(&mut w, e.entry_line(max - 7, author_name).as_str());
            r.push(request_line(1, w));
        },
    }
    proof {
        assert(line_texts(r@) =~= heap_lines(*msg, max as int, author_name@));
    }
    r
}

impl<P> ForumLogic<P> {
    /// The forum for a screen of `screen_size` (columns, rows): the lobby,
    /// its page not known yet, with nothing on the clipboard.
    pub fn new(my_id: u64, screen_size: (usize, usize), any_author: u64) -> (f: ForumLogic<P>)
        requires
            screen_size.0 >= 4,
            screen_size.1 >= 3,
        ensures
            f.wf(),
            f.my_id == my_id,
            f.state == ForumState::<P>::MainLobby(None),
            f.board.posts@.len() == 0,
            f.board.all_topics@.len() == 0,
            f.board.pages() == seq![Seq::<u16>::empty()],
            f.board.entries_count == ((screen_size.1 - 3) / 2) % 0x10000,
            f.board.any_author == any_author,
            f.clipboard_founder is None,
            f.last_heap_msg is None,
    {
        let board = Board::new(screen_size, any_author);
        ForumLogic {
            my_id,
            board,
            state: ForumState::MainLobby(None),
            clipboard_founder: None,
            last_heap_msg: None,
        }
    }

    fn set_state(&mut self, s: ForumState<P>)
        requires
            old(self).board.entry_max_len >= 60,
        ensures
            final(self).wf(),
            final(self).state == s,
            board_kept(old(self).board, final(self).board),
            final(self).board.posts == old(self).board.posts,
            final(self).clipboard_founder == old(self).clipboard_founder,
            final(self).last_heap_msg == old(self).last_heap_msg,
            final(self).my_id == old(self).my_id,
    {
        self.board.view = view_of(&s);
        self.state = s;
    }

    /// Looks at the pending requests (see `heap_shown`); `author_name` is
    /// how the held request's entry's author is written.
    pub fn heap_logic(&mut self, heap_empty: bool, author_name: &str) -> (e: Vec<ForumEffect<P>>)
        requires
            old(self).wf(),
        ensures
            final(self).wf(),
            board_kept(old(self).board, final(self).board),
            final(self).board.posts == old(self).board.posts,
            final(self).clipboard_founder == old(self).clipboard_founder,
            final(self).last_heap_msg == old(self).last_heap_msg,
            heap_shown(*old(self), *final(self), heap_empty, author_name@, e@),
    {
        let mut effects: Vec<ForumEffect<P>> = Vec::new();
        if heap_empty {
            let mut v: Vec<char> = Vec::new();
            push_str(&mut v, "No Requests pending");
            let mut lines: Vec<(u16, String)> = Vec::new();
            lines.push(request_line(0, v));
            proof {
                assert(line_texts(lines@) =~= seq![(0u16, "No Requests pending"@)]);
            }
            effects.push(ForumEffect::Request(lines));
            self.set_state(ForumState::HeapSorting(None, None));
            return effects;
        }
        let held = match &self.last_heap_msg {
            Some((m, signer)) => Some((copy_msg(m), *signer)),
            None => None,
        };
        match held {
            Some((m, signer)) => {
                let lines = heap_request(&m, self.board.entry_max_len, author_name);
                effects.push(ForumEffect::Request(lines));
                match &m {
                    ForumSyncMessage::EditPost(t, p, _) => {
                        effects.push(ForumEffect::ReadPagesRange(*t, *p, *p));
                    },
                    _ => {},
                }
                self.set_state(ForumState::HeapSorting(Some((m, signer)), None));
            },
            None => {
                effects.push(ForumEffect::PeekHeap);
                proof {
                    assert(effects@ =~= seq![ForumEffect::<P>::PeekHeap]);
                }
                self.set_state(ForumState::HeapSorting(None, None));
            },
        }
        effects
    }

    /// A pending request arrived (signed by `signer`): the first one is held
    /// and shown; the same one again, from the same signer, lets go of the
    /// held one and asks for the next; another one lets go of the held one.
    pub fn heap_data(&mut self, msg: ForumSyncMessage, signer: u64, author_name: &str) -> (e: Vec<
        ForumEffect<P>,
    >)
        requires
            old(self).wf(),
        ensures
            final(self).wf(),
            board_kept(old(self).board, final(self).board),
            final(self).board.posts == old(self).board.posts,
            final(self).clipboard_founder == old(self).clipboard_founder,
            match old(self).last_heap_msg {
                Some((prev, ps)) => {
                    &&& final(self).last_heap_msg is None
                    &&& if same_msg(prev, msg) && ps == signer {
                        final(self).state == ForumState::<P>::HeapSorting(None, None) && e@ == seq![
                            ForumEffect::<P>::PeekHeap,
                        ]
                    } else {
                        final(self).state == old(self).state && e@.len() == 0
                    }
                },
                None => {
                    &&& final(self).last_heap_msg matches Some((m, s)) && same_msg(m, msg) && s
                        == signer
                    &&& final(self).state matches ForumState::HeapSorting(Some((m2, s2)), None)
                        && same_msg(m2, msg) && s2 == signer
                    &&& e@.len() >= 1
                    &&& e@[0] matches ForumEffect::Request(l) && line_texts(l@) == heap_lines(
                        msg,
                        old(self).board.entry_max_len as int,
                        author_name@,
                    )
                },
            },
    {
        let mut prev = None;
        std::mem::swap(&mut prev, &mut self.last_heap_msg);
        match prev {
            Some((pm, ps)) => {
                if pm.same_as(&msg) && ps == signer {
                    self.heap_logic(false, author_name)
                } else {
                    Vec::new()
                }
            },
            None => {
                self.last_heap_msg = Some((msg, signer));
                self.heap_logic(false, author_name)
            },
        }
    }

    /// No request is pending: nothing is held and the view says so.
    pub fn heap_empty(&mut self) -> (e: Vec<ForumEffect<P>>)
        requires
            old(self).wf(),
        ensures
            final(self).wf(),
            board_kept(old(self).board, final(self).board),
            final(self).board.posts == old(self).board.posts,
            final(self).clipboard_founder == old(self).clipboard_founder,
            final(self).last_heap_msg is None,
            final(self).state == ForumState::<P>::HeapSorting(None, None),
            e@.len() == 1,
            e@[0] matches ForumEffect::Request(l) && line_texts(l@) == seq![
                (0u16, "No Requests pending"@),
            ],
    {
        self.last_heap_msg = None;
        self.heap_logic(true, "")
    }

    /// Starts adding a category: the editor opens on a one-line name of at
    /// most 32 bytes.
    pub fn add_category(&mut self) -> (e: Vec<ForumEffect<P>>)
        requires
            old(self).wf(),
        ensures
            final(self).wf(),
            board_kept(old(self).board, final(self).board),
            final(self).board.posts == old(self).board.posts,
            final(self).clipboard_founder == old(self).clipboard_founder,
            final(self).last_heap_msg == old(self).last_heap_msg,
            final(self).state == ForumState::<P>::Editing(
                Some(1u16),
                Box::new(ForumState::<P>::Settings),
            ),
            e@.len() == 1,
            e@[0] matches ForumEffect::OpenEditor(p) && params_are(
                p,
                "Add new Category (oneline, 32 bytes max)"@,
                Some("NewCategory"@),
                false,
                None,
                Some(32u16),
                false,
            ),
    {
        self.set_state(ForumState::Editing(Some(1), Box::new(ForumState::Settings)));
        let mut effects: Vec<ForumEffect<P>> = Vec::new();
        let p = editor_params(
            "Add new Category (oneline, 32 bytes max)",
            Some(String::from_str("NewCategory")),
            false,
            None,
            Some(32),
            false,
        );
        effects.push(ForumEffect::OpenEditor(p));
        effects
    }
}


/// The first position of `x` in `s`, or -1.
pub open spec fn first_at(s: Seq<u8>, x: u8) -> int
    decreases s.len(),
{
    if s.len() == 0 {
        -1
    } else if s[0] == x {
        0
    } else {
        let k = first_at(s.drop_first(), x);
        if k < 0 {
            -1
        } else {
            k + 1
        }
    }
}

/// The capabilities (codes and names) still offered once those in `gone`
/// are taken out in turn; the search stops at the first one not offered.
pub open spec fn caps_left(cl: Seq<u8>, sl: Seq<Seq<char>>, gone: Seq<u8>) -> (Seq<u8>, Seq<Seq<char>>)
    decreases gone.len(),
{
    if gone.len() == 0 {
        (cl, sl)
    } else {
        let j = first_at(cl, gone[0]);
        if j < 0 {
            (cl, sl)
        } else {
            caps_left(cl.remove(j), sl.remove(j), gone.drop_first())
        }
    }
}

proof fn lemma_first_at(s: Seq<u8>, x: u8)
    ensures
        first_at(s, x) < s.len(),
        first_at(s, x) >= 0 ==> s[first_at(s, x)] == x,
        first_at(s, x) >= 0 ==> forall|k: int| 0 <= k < first_at(s, x) ==> s[k] != x,
        first_at(s, x) < 0 ==> forall|k: int| 0 <= k < s.len() ==> s[k] != x,
    decreases s.len(),
{
    if s.len() > 0 {
        lemma_first_at(s.drop_first(), x);
        if s[0] != x {
            assert forall|k: int| 0 < k < s.len() implies s[k] == s.drop_first()[k - 1] by {}
        }
    }
}

fn find_first(v: &Vec<u8>, x: u8) -> (r: Option<usize>)
    ensures
        match r {
            Some(j) => j == first_at(v@, x) && j < v@.len(),
            None => first_at(v@, x) < 0,
        },
{
    proof {
        lemma_first_at(v@, x);
    }
    let mut i: usize = 0;
    while i < v.len()
        invariant
            i <= v@.len(),
            forall|k: int| 0 <= k < i ==> v@[k] != x,
        decreases v@.len() - i,
    {
        if v[i] == x {
            proof {
                lemma_first_at(v@, x);
                if first_at(v@, x) < 0 {
                    assert(v@[i as int] != x);
                }
                if first_at(v@, x) >= 0 && first_at(v@, x) != i {
                    assert(v@[first_at(v@, x)] == x);
                }
            }
            return Some(i);
        }
        i = i + 1;
    }
    proof {
        if first_at(v@, x) >= 0 {
            assert(v@[first_at(v@, x)] == x);
        }
    }
    None
}

/// Takes the capabilities in `gone` out of the offered ones (see
/// `caps_left`).
fn strip_caps(codes: Vec<u8>, names: Vec<String>, gone: &Vec<u8>) -> (r: (Vec<u8>, Vec<String>))
    requires
        codes@.len() == names@.len(),
    ensures
        (r.0@, texts(r.1@)) == caps_left(codes@, texts(names@), gone@),
{
    let mut c = codes;
    let mut s = names;
    let mut k: usize = 0;
    let mut stopped = false;
    proof {
        assert(gone@.subrange(0, gone@.len() as int) =~= gone@);
    }
    while k < gone.len() && !stopped
        invariant
            k <= gone@.len(),
            c@.len() == s@.len(),
            caps_left(c@, texts(s@), gone@.subrange(k as int, gone@.len() as int)) == caps_left(
                codes@,
                texts(names@),
                gone@,
            ),
            stopped ==> caps_left(c@, texts(s@), gone@.subrange(k as int, gone@.len() as int))
                == (c@, texts(s@)),
        decreases gone@.len() - k, if stopped { 0int } else { 1int },
    {
        let ghost rest = gone@.subrange(k as int, gone@.len() as int);
        proof {
            assert(rest[0] == gone@[k as int]);
            assert(rest.drop_first() =~= gone@.subrange(k + 1, gone@.len() as int));
        }
        match find_first(&c, gone[k]) {
            Some(j) => {
                let ghost before = texts(s@);
                c.remove(j);
                s.remove(j);
                proof {
                    assert(texts(s@) =~= before.remove(j as int));
                }
                k = k + 1;
            },
            None => {
                stopped = true;
            },
        }
    }
    proof {
        if !stopped {
            assert(gone@.subrange(k as int, gone@.len() as int) =~= Seq::<u8>::empty());
        }
    }
    (c, s)
}

/// The numbers `0..n` as pair ids.
fn pair_ids(n: u32) -> (r: Vec<u16>)
    requires
        n <= 65536,
    ensures
        r@ == Seq::new(n as nat, |i: int| i as u16),
{
    let mut r: Vec<u16> = Vec::new();
    let mut i: u32 = 0;
    while i < n
        invariant
            i <= n <= 65536,
            r@ == Seq::new(i as nat, |k: int| k as u16),
        decreases n - i,
    {
        r.push(i as u16);
        i = i + 1;
        proof {
            assert(r@ =~= Seq::new(i as nat, |k: int| k as u16));
        }
    }
    r
}

/// The capability codes of a running-capabilities map, in order.
pub open spec fn running_codes(m: Seq<(u8, Vec<u64>)>) -> Seq<u8> {
    m.map_values(|x: (u8, Vec<u64>)| x.0)
}

fn codes_of(m: &Vec<(u8, Vec<u64>)>) -> (r: Vec<u8>)
    ensures
        r@ == running_codes(m@),
{
    let mut r: Vec<u8> = Vec::new();
    let mut i: usize = 0;
    while i < m.len()
        invariant
            i <= m@.len(),
            r@.len() == i,
            forall|k: int| 0 <= k < i ==> #[trigger] r@[k] == m@[k].0,
        decreases m@.len() - i,
    {
        r.push(m[i].0);
        i = i + 1;
    }
    proof {
        assert(r@ =~= running_codes(m@));
    }
    r
}

/// What adding something in each view starts: a topic from the lobby, a
/// post in a topic, a member of a capability, a capability not yet
/// running or stored, a byte set (of pairs when `pairs`); other views add
/// nothing. `names` are all tag names; `codes` and `cnames` the
/// capabilities; `registered` those in the manifest.
pub open spec fn added_new<P>(
    o: ForumLogic<P>,
    f: ForumLogic<P>,
    pairs: bool,
    names: Seq<Seq<char>>,
    codes: Seq<u8>,
    cnames: Seq<Seq<char>>,
    registered: Seq<u8>,
    e: Seq<ForumEffect<P>>,
) -> bool {
    match o.state {
        ForumState::MainLobby(_) => {
            &&& e.len() == 1
            &&& e[0] matches ForumEffect::OpenCreator(c) && topic_is(
                c,
                None,
                "Topic description"@,
                seq![],
                names,
            )
            &&& f.state matches ForumState::TopicEditing(c) && topic_is(
                c,
                None,
                "Topic description"@,
                seq![],
                names,
            )
        },
        ForumState::Topic(_, _) => {
            &&& e.len() == 1
            &&& e[0] matches ForumEffect::OpenEditor(p) && params_are(
                p,
                "Adding new Post"@,
                Some("Adding new post…"@),
                true,
                None,
                Some(1016u16),
                false,
            )
            &&& f.state == ForumState::Editing(None, Box::new(o.state))
        },
        ForumState::Capability(_, _) => {
            let text = match o.clipboard_founder {
                Some(fd) => gid_text(fd),
                None => "GID-0123456789abcdef"@,
            };
            &&& e.len() == 1
            &&& e[0] matches ForumEffect::OpenEditor(p) && params_are(
                p,
                "Adding new Capability"@,
                Some(text),
                false,
                Some("0123456789abcdef"@),
                Some(20u16),
                false,
            )
            &&& f.state == ForumState::Editing(None, Box::new(o.state))
        },
        ForumState::RunningCapabilities(opt) => {
            let gone = match opt {
                Some((_, m)) => running_codes(m@),
                None => seq![],
            };
            let left = caps_left(codes, cnames, gone);
            &&& e.len() == 1
            &&& e[0] matches ForumEffect::Select(multi, strs, pre) && multi && texts(strs@)
                == left.1 && pre@.len() == 0
            &&& f.state matches ForumState::SelectingOneCapability(av, prev) && av@ == left.0
                && *prev == o.state
        },
        ForumState::StoredCapabilities(_) => {
            let left = caps_left(codes, cnames, registered);
            &&& e.len() == 1
            &&& e[0] matches ForumEffect::Select(multi, strs, pre) && multi && texts(strs@)
                == left.1 && pre@.len() == 0
            &&& f.state matches ForumState::SelectingOneCapability(av, prev) && av@ == left.0
                && *prev == o.state
        },
        ForumState::ByteSets(r, ex) => {
            let (n, label) = if pairs {
                (65536nat, "BB"@)
            } else {
                (256nat, "B"@)
            };
            &&& e.len() == 1
            &&& e[0] matches ForumEffect::Select(multi, strs, pre) && !multi && texts(strs@)
                == labels(label, n) && pre@.len() == 0
            &&& f.state matches ForumState::CreatingByteSet(opts, r2, ex2) && opts@ == Seq::new(
                n,
                |i: int| i as u16,
            ) && r2 == r && ex2 == ex
        },
        _ => f.state == o.state && e.len() == 0,
    }
}

impl<P> ForumLogic<P> {
    /// Starts adding something to the view shown (see `added_new`).
    pub fn add_new_action(
        &mut self,
        pairs: bool,
        tag_names: Vec<String>,
        cap_codes: Vec<u8>,
        cap_names: Vec<String>,
        registered: &Vec<u8>,
    ) -> (e: Vec<ForumEffect<P>>)
        requires
            old(self).wf(),
            cap_codes@.len() == cap_names@.len(),
        ensures
            final(self).wf(),
            board_kept(old(self).board, final(self).board),
            final(self).board.posts == old(self).board.posts,
            final(self).clipboard_founder == old(self).clipboard_founder,
            final(self).last_heap_msg == old(self).last_heap_msg,
            added_new(
                *old(self),
                *final(self),
                pairs,
                texts(tag_names@),
                cap_codes@,
                texts(cap_names@),
                registered@,
                e@,
            ),
    {
        let mut st = ForumState::Settings;
        std::mem::swap(&mut st, &mut self.state);
        let mut effects: Vec<ForumEffect<P>> = Vec::new();
        let new_state = match st {
            ForumState::MainLobby(_) => {
                let shown = TopicContext {
                    t_id: None,
                    description: String::from_str("Topic description"),
                    tags: Vec::new(),
                    tag_names: copy_texts(&tag_names),
                };
                effects.push(ForumEffect::OpenCreator(shown));
                ForumState::TopicEditing(
                    TopicContext {
                        t_id: None,
                        description: String::from_str("Topic description"),
                        tags: Vec::new(),
                        tag_names,
                    },
                )
            },
            ForumState::Topic(c, pg) => {
                let p = editor_params(
                    "Adding new Post",
                    Some(String::from_str("Adding new post…")),
                    true,
                    None,
                    Some(1016),
                    false,
                );
                effects.push(ForumEffect::OpenEditor(p));
                ForumState::Editing(None, Box::new(ForumState::Topic(c, pg)))
            },
            ForumState::Capability(c, v) => {
                let text = match self.clipboard_founder {
                    Some(fd) => gid_string(fd),
                    None => String::from_str("GID-0123456789abcdef"),
                };
                let p = editor_params(
                    "Adding new Capability",
                    Some(text),
                    false,
                    Some(chars_of("0123456789abcdef")),
                    Some(20),
                    false,
                );
                effects.push(ForumEffect::OpenEditor(p));
                ForumState::Editing(None, Box::new(ForumState::Capability(c, v)))
            },
            ForumState::RunningCapabilities(opt) => {
                let gone = match &opt {
                    Some((_, m)) => codes_of(m),
                    None => Vec::new(),
                };
                let (avail, strs) = strip_caps(cap_codes, cap_names, &gone);
                effects.push(ForumEffect::Select(true, strs, Vec::new()));
                ForumState::SelectingOneCapability(avail, Box::new(ForumState::RunningCapabilities(opt)))
            },
            ForumState::StoredCapabilities(pg) => {
                let (avail, strs) = strip_caps(cap_codes, cap_names, registered);
                effects.push(ForumEffect::Select(true, strs, Vec::new()));
                ForumState::SelectingOneCapability(avail, Box::new(ForumState::StoredCapabilities(pg)))
            },
            ForumState::ByteSets(r, ex) => {
                let (opts, strs) = if pairs {
                    (pair_ids(65536), labelled_range("BB", 65536))
                } else {
                    (pair_ids(256), labelled_range("B", 256))
                };
                effects.push(ForumEffect::Select(false, strs, Vec::new()));
                ForumState::CreatingByteSet(opts, r, ex)
            },
            other => other,
        };
        self.set_state(new_state);
        effects
    }
}


/// The state that shows a paging view, for a state that pages.
pub open spec fn paged_state<P>(s: ForumState<P>, v: PageView) -> ForumState<P> {
    match (s, v) {
        (ForumState::MainLobby(_), PageView::MainLobby(p)) => ForumState::MainLobby(p),
        (ForumState::Topic(_, _), PageView::Topic(t, p)) => ForumState::Topic(t, p),
        _ => s,
    }
}

impl<P> ForumLogic<P> {
    fn follow_board(&mut self)
        requires
            old(self).board.entry_max_len >= 60,
            old(self).state is MainLobby ==> old(self).board.view is MainLobby,
            old(self).state is Topic ==> old(self).board.view is Topic,
            !(old(self).state is MainLobby) && !(old(self).state is Topic) ==> old(self).board.view
                == PageView::Elsewhere,
        ensures
            final(self).wf(),
            final(self).board == old(self).board,
            final(self).state == paged_state(old(self).state, old(self).board.view),
            final(self).clipboard_founder == old(self).clipboard_founder,
            final(self).last_heap_msg == old(self).last_heap_msg,
            final(self).my_id == old(self).my_id,
    {
        let mut st = ForumState::Settings;
        std::mem::swap(&mut st, &mut self.state);
        let new_state = match (st, self.board.view) {
            (ForumState::MainLobby(_), PageView::MainLobby(p)) => ForumState::MainLobby(p),
            (ForumState::Topic(_, _), PageView::Topic(t, p)) => ForumState::Topic(t, p),
            (other, _) => other,
        };
        self.state = new_state;
    }

    /// Shows the first page of the lobby or of the topic shown.
    pub fn show_first_page(&mut self) -> (req: Option<PageRequest>)
        requires
            old(self).wf(),
            old(self).board.view is Topic ==> old(self).board.entries_count > 0,
        ensures
            final(self).wf(),
            (final(self).board.view, req) == first_page(old(self).board.view, old(self).board.entries_count),
            lists_kept(old(self).board, final(self).board),
            final(self).state == paged_state(old(self).state, final(self).board.view),
            final(self).clipboard_founder == old(self).clipboard_founder,
            final(self).last_heap_msg == old(self).last_heap_msg,
    {
        let r = self.board.show_first_page();
        self.follow_board();
        r
    }

    /// Shows the last page of the lobby or of the topic shown.
    pub fn show_last_page(&mut self) -> (req: Option<PageRequest>)
        requires
            old(self).wf(),
        ensures
            final(self).wf(),
            (final(self).board.view, req) == last_page(old(self).board.view, old(self).board.entries_count),
            lists_kept(old(self).board, final(self).board),
            final(self).state == paged_state(old(self).state, final(self).board.view),
            final(self).clipboard_founder == old(self).clipboard_founder,
            final(self).last_heap_msg == old(self).last_heap_msg,
    {
        let r = self.board.show_last_page();
        self.follow_board();
        r
    }

    /// Shows the next page of the lobby or of the topic shown.
    pub fn show_next_page(&mut self) -> (req: Option<PageRequest>)
        requires
            old(self).wf(),
            next_page_fits(old(self).board.view, old(self).board.entries_count),
        ensures
            final(self).wf(),
            (final(self).board.view, req) == next_page(
                old(self).board.view,
                old(self).board.entries_count,
                old(self).board.menu_pages@.len(),
            ),
            lists_kept(old(self).board, final(self).board),
            final(self).state == paged_state(old(self).state, final(self).board.view),
            final(self).clipboard_founder == old(self).clipboard_founder,
            final(self).last_heap_msg == old(self).last_heap_msg,
    {
        let r = self.board.show_next_page();
        self.follow_board();
        r
    }

    /// Shows the previous page of the lobby or of the topic shown.
    pub fn show_previous_page(&mut self) -> (req: Option<PageRequest>)
        requires
            old(self).wf(),
            previous_page_fits(old(self).board.view, old(self).board.entries_count),
        ensures
            final(self).wf(),
            (final(self).board.view, req) == previous_page(
                old(self).board.view,
                old(self).board.entries_count,
            ),
            lists_kept(old(self).board, final(self).board),
            final(self).state == paged_state(old(self).state, final(self).board.view),
            final(self).clipboard_founder == old(self).clipboard_founder,
            final(self).last_heap_msg == old(self).last_heap_msg,
    {
        let r = self.board.show_previous_page();
        self.follow_board();
        r
    }
}


/// What running the view's item asks: a capability is made to run with
/// its members; a byte set under the id is made to run under that id.
pub open spec fn run_asked<P>(s: ForumState<P>, id_opt: Option<usize>, e: Seq<ForumEffect<P>>) -> bool {
    match s {
        ForumState::Capability(c, v) => e.len() == 1 && (e[0] matches ForumEffect::SetRunningCapability(
            c2,
            v2,
        ) && c2 == c && v2@ == v@),
        ForumState::ByteSets(_, Some((_, m))) => match id_opt {
            Some(id) => {
                let k = last_key(m@, id as u8);
                if k >= 0 {
                    e.len() == 1 && (e[0] matches ForumEffect::SetRunningByteSet(i, b) && i == id as u8
                        && same_byteset(m@[k].1, b))
                } else {
                    e.len() == 0
                }
            },
            None => e.len() == 0,
        },
        _ => e.len() == 0,
    }
}

/// What storing the view's item asks: a capability is stored with its
/// members; a byte set under the id is stored under that id.
pub open spec fn store_asked<P>(s: ForumState<P>, id: usize, e: Seq<ForumEffect<P>>) -> bool {
    match s {
        ForumState::Capability(c, v) => e.len() == 1 && (e[0] matches ForumEffect::StoreCapability(
            c2,
            v2,
        ) && c2 == c && v2@ == v@),
        ForumState::ByteSets(_, Some((_, m))) => {
            let k = last_key(m@, id as u8);
            if k >= 0 {
                e.len() == 1 && (e[0] matches ForumEffect::StoreByteSet(i, b) && i == id as u8
                    && same_byteset(m@[k].1, b))
            } else {
                e.len() == 0
            }
        },
        _ => e.len() == 0,
    }
}

/// A capability's members without the one at `id` (when there is one).
pub open spec fn without_member(v: Seq<u64>, id: int) -> Seq<u64> {
    if 0 <= id < v.len() {
        v.remove(id)
    } else {
        v
    }
}

/// What deleting item `id` does: a capability loses that member and shows
/// the page of `n` members where the next one would be added; a pending
/// request is dropped; other views delete nothing.
pub open spec fn deleted<P>(
    o: ForumState<P>,
    f: ForumState<P>,
    id: u16,
    n: u16,
    e: Seq<ForumEffect<P>>,
) -> bool {
    match o {
        ForumState::Capability(c, v) => {
            let w = without_member(v@, id as int);
            &&& f matches ForumState::Capability(c2, w2) && c2 == c && w2@ == w
            &&& e.len() == 1
            &&& e[0] matches ForumEffect::ShowGnomes(c3, l) && c3 == c && l@ == member_page(
                w,
                n,
                ((w.len() as u16) / n) as u16,
            )
        },
        ForumState::HeapSorting(_, _) => f == o && e == seq![ForumEffect::<P>::PopHeap],
        _ => f == o && e.len() == 0,
    }
}

impl<P> ForumLogic<P> {
    /// Asks to run the view's item (see `run_asked`).
    pub fn run_action(&self, id_opt: Option<usize>) -> (e: Vec<ForumEffect<P>>)
        ensures
            run_asked(self.state, id_opt, e@),
    {
        let mut effects: Vec<ForumEffect<P>> = Vec::new();
        match &self.state {
            ForumState::Capability(c, v) => {
                effects.push(ForumEffect::SetRunningCapability(*c, copy_ids(v)));
            },
            ForumState::ByteSets(_, Some((_, m))) => {
                match id_opt {
                    Some(id) => {
                        #[verifier::truncate]
                        let key = id as u8;
                        match find_last_key(m, key) {
                            Some(k) => {
                                effects.push(ForumEffect::SetRunningByteSet(key, copy_byteset(&m[k].1)));
                            },
                            None => {},
                        }
                    },
                    None => {},
                }
            },
            _ => {},
        }
        effects
    }

    /// Asks to store the view's item (see `store_asked`).
    pub fn store_action(&self, id: usize) -> (e: Vec<ForumEffect<P>>)
        ensures
            store_asked(self.state, id, e@),
    {
        let mut effects: Vec<ForumEffect<P>> = Vec::new();
        match &self.state {
            ForumState::Capability(c, v) => {
                effects.push(ForumEffect::StoreCapability(*c, copy_ids(v)));
            },
            ForumState::ByteSets(_, Some((_, m))) => {
                #[verifier::truncate]
                let key = id as u8;
                match find_last_key(m, key) {
                    Some(k) => {
                        effects.push(ForumEffect::StoreByteSet(key, copy_byteset(&m[k].1)));
                    },
                    None => {},
                }
            },
            _ => {},
        }
        effects
    }

    /// Deletes item `id` of the view (see `deleted`).
    pub fn delete_action(&mut self, id: u16) -> (e: Vec<ForumEffect<P>>)
        requires
            old(self).wf(),
            old(self).state is Capability ==> old(self).board.entries_count > 0,
        ensures
            final(self).wf(),
            final(self).board == old(self).board,
            final(self).clipboard_founder == old(self).clipboard_founder,
            final(self).last_heap_msg == old(self).last_heap_msg,
            deleted(old(self).state, final(self).state, id, old(self).board.entries_count, e@),
    {
        let mut st = ForumState::Settings;
        std::mem::swap(&mut st, &mut self.state);
        let mut effects: Vec<ForumEffect<P>> = Vec::new();
        let n = self.board.entries_count;
        let new_state = match st {
            ForumState::Capability(c, v) => {
                let mut w = v;
                if (id as usize) < w.len() {
                    w.remove(id as usize);
                }
                #[verifier::truncate]
                let len = w.len() as u16;
                let page = member_page_of(&w, n, len / n);
                effects.push(ForumEffect::ShowGnomes(c, page));
                ForumState::Capability(c, w)
            },
            ForumState::HeapSorting(m, eo) => {
                effects.push(ForumEffect::PopHeap);
                proof {
                    assert(effects@ =~= seq![ForumEffect::<P>::PopHeap]);
                }
                ForumState::HeapSorting(m, eo)
            },
            other => other,
        };
        self.state = new_state;
        effects
    }

    /// Opens the settings.
    pub fn show_settings(&mut self)
        requires
            old(self).wf(),
        ensures
            final(self).wf(),
            final(self).state == ForumState::<P>::Settings,
            board_kept(old(self).board, final(self).board),
            final(self).board.posts == old(self).board.posts,
            final(self).clipboard_founder == old(self).clipboard_founder,
            final(self).last_heap_msg == old(self).last_heap_msg,
    {
        self.set_state(ForumState::Settings);
    }

    /// Opens the running policies, not listed yet, and asks for them.
    pub fn show_running_policies(&mut self) -> (e: Vec<ForumEffect<P>>)
        requires
            old(self).wf(),
        ensures
            final(self).wf(),
            final(self).state == ForumState::<P>::RunningPolicies(None),
            e@ == seq![ForumEffect::<P>::ReadRunningPolicies],
            board_kept(old(self).board, final(self).board),
            final(self).board.posts == old(self).board.posts,
            final(self).clipboard_founder == old(self).clipboard_founder,
            final(self).last_heap_msg == old(self).last_heap_msg,
    {
        self.set_state(ForumState::RunningPolicies(None));
        let mut effects: Vec<ForumEffect<P>> = Vec::new();
        effects.push(ForumEffect::ReadRunningPolicies);
        proof {
            assert(effects@ =~= seq![ForumEffect::<P>::ReadRunningPolicies]);
        }
        effects
    }

    /// Opens the running capabilities, not listed yet, and asks for them.
    pub fn show_running_capabilities(&mut self) -> (e: Vec<ForumEffect<P>>)
        requires
            old(self).wf(),
        ensures
            final(self).wf(),
            final(self).state == ForumState::<P>::RunningCapabilities(None),
            e@ == seq![ForumEffect::<P>::ReadRunningCapabilities],
            board_kept(old(self).board, final(self).board),
            final(self).board.posts == old(self).board.posts,
            final(self).clipboard_founder == old(self).clipboard_founder,
            final(self).last_heap_msg == old(self).last_heap_msg,
    {
        self.set_state(ForumState::RunningCapabilities(None));
        let mut effects: Vec<ForumEffect<P>> = Vec::new();
        effects.push(ForumEffect::ReadRunningCapabilities);
        proof {
            assert(effects@ =~= seq![ForumEffect::<P>::ReadRunningCapabilities]);
        }
        effects
    }

    /// Opens the running byte sets, not listed yet, and asks for them.
    pub fn show_running_bytesets(&mut self) -> (e: Vec<ForumEffect<P>>)
        requires
            old(self).wf(),
        ensures
            final(self).wf(),
            final(self).state == ForumState::<P>::ByteSets(true, None),
            e@ == seq![ForumEffect::<P>::ReadRunningByteSets],
            board_kept(old(self).board, final(self).board),
            final(self).board.posts == old(self).board.posts,
            final(self).clipboard_founder == old(self).clipboard_founder,
            final(self).last_heap_msg == old(self).last_heap_msg,
    {
        self.set_state(ForumState::ByteSets(true, None));
        let mut effects: Vec<ForumEffect<P>> = Vec::new();
        effects.push(ForumEffect::ReadRunningByteSets);
        proof {
            assert(effects@ =~= seq![ForumEffect::<P>::ReadRunningByteSets]);
        }
        effects
    }

    /// Starts defining a filter: by categories (all tag names offered) or
    /// by a search text typed in the editor.
    pub fn filter(&mut self, by_category: bool, tag_names: Vec<String>) -> (e: Vec<ForumEffect<P>>)
        requires
            old(self).wf(),
        ensures
            final(self).wf(),
            final(self).state == ForumState::<P>::Filtering,
            board_kept(old(self).board, final(self).board),
            final(self).board.posts == old(self).board.posts,
            final(self).clipboard_founder == old(self).clipboard_founder,
            final(self).last_heap_msg == old(self).last_heap_msg,
            e@.len() == 1,
            by_category ==> (e@[0] matches ForumEffect::Select(multi, strs, pre) && multi && texts(
                strs@,
            ) == texts(tag_names@) && pre@.len() == 0),
            !by_category ==> (e@[0] matches ForumEffect::OpenEditor(p) && params_are(
                p,
                "Define Search text"@,
                None,
                true,
                None,
                None,
                false,
            )),
    {
        self.set_state(ForumState::Filtering);
        let mut effects: Vec<ForumEffect<P>> = Vec::new();
        if by_category {
            effects.push(ForumEffect::Select(true, tag_names, Vec::new()));
        } else {
            let p = editor_params("Define Search text", None, true, None, None, false);
            effects.push(ForumEffect::OpenEditor(p));
        }
        effects
    }

    /// Goes back to the lobby's first page with the topics filtered anew.
    pub fn main_menu(&mut self)
        requires
            old(self).wf(),
        ensures
            final(self).wf(),
            final(self).state == ForumState::<P>::MainLobby(Some(0)),
            final(self).board.all_topics == old(self).board.all_topics,
            final(self).board.posts == old(self).board.posts,
            final(self).board.entries_count == old(self).board.entries_count,
            crate::board::paged(
                final(self).board.pages(),
                crate::board::matching(
                    old(self).board.all_topics@,
                    old(self).board.cats(),
                    old(self).board.text(),
                    (old(self).board.all_topics@.len() % 0x10000) as int,
                ),
                old(self).board.entries_count as int,
            ),
            final(self).clipboard_founder == old(self).clipboard_founder,
            final(self).last_heap_msg == old(self).last_heap_msg,
    {
        self.set_state(ForumState::MainLobby(Some(0)));
        self.board.filter_topics();
    }
}


/// The first `n` of a list's names, each under its position.
pub open spec fn named_lines(names: Seq<Seq<char>>, n: int) -> Seq<(u16, Seq<char>)> {
    let len = if names.len() < n { names.len() as int } else { n };
    Seq::new(len as nat, |i: int| (i as u16, names[i]))
}

/// A byte set's label: its kind and id.
pub open spec fn byteset_label(id: u8, b: ByteSet) -> Seq<char> {
    let kind = match b {
        ByteSet::Empty => "Empty("@,
        ByteSet::Pairs(_) => "Pairs("@,
        ByteSet::Bytes(_) => "Bytes("@,
    };
    kind + decimal(id as nat) + ")"@
}

/// The first `n` byte sets' lines: each under its id, with its label.
pub open spec fn byteset_lines(m: Seq<(u8, ByteSet)>, n: int) -> Seq<(u16, Seq<char>)> {
    let len = if m.len() < n { m.len() as int } else { n };
    Seq::new(len as nat, |i: int| (m[i].0 as u16, byteset_label(m[i].0, m[i].1)))
}

fn named_lines_of(names: &Vec<String>, n: u16) -> (r: Vec<(u16, String)>)
    ensures
        line_texts(r@) == named_lines(texts(names@), n as int),
{
    let mut r: Vec<(u16, String)> = Vec::new();
    let mut i: usize = 0;
    while i < names.len() && i < n as usize
        invariant
            i <= names@.len(),
            i <= n,
            r@.len() == i,
            forall|k: int| 0 <= k < i ==> #[trigger] r@[k].0 == k as u16 && r@[k].1@ == names@[k]@,
        decreases names@.len() - i,
    {
        r.push((i as u16, names[i].clone()));
        i = i + 1;
    }
    proof {
        assert(line_texts(r@) =~= named_lines(texts(names@), n as int));
    }
    r
}

fn all_named_lines(names: &Vec<String>) -> (r: Vec<(u16, String)>)
    ensures
        line_texts(r@) == named_lines(texts(names@), names@.len() as int),
{
    let mut r: Vec<(u16, String)> = Vec::new();
    let mut i: usize = 0;
    while i < names.len()
        invariant
            i <= names@.len(),
            r@.len() == i,
            forall|k: int| 0 <= k < i ==> #[trigger] r@[k].0 == k as u16 && r@[k].1@ == names@[k]@,
        decreases names@.len() - i,
    {
        #[verifier::truncate]
        let k = i as u16;
        r.push((k, names[i].clone()));
        i = i + 1;
    }
    proof {
        assert(line_texts(r@) =~= named_lines(texts(names@), names@.len() as int));
    }
    r
}

fn byteset_label_of(id: u8, b: &ByteSet) -> (s: String)
    ensures
        s@ == byteset_label(id, *b),
{
    let mut v: Vec<char> = Vec::new();
    match b {
        ByteSet::Empty => push_str(&mut v, "Empty("),
        ByteSet::Pairs(_) => push_str(&mut v, "Pairs("),
        ByteSet::Bytes(_) => push_str(&mut v, "Bytes("),
    }
    push_decimal(&mut v, id as u64);
    push_str(&mut v, ")");
    proof {
        assert(v@ =~= byteset_label(id, *b));
    }
    string_of(&v)
}

fn byteset_lines_of(m: &Vec<(u8, ByteSet)>, n: u16) -> (r: Vec<(u16, String)>)
    ensures
        line_texts(r@) == byteset_lines(m@, n as int),
{
    let mut r: Vec<(u16, String)> = Vec::new();
    let mut i: usize = 0;
    while i < m.len() && i < n as usize
        invariant
            i <= m@.len(),
            i <= n,
            r@.len() == i,
            forall|k: int| 0 <= k < i ==> #[trigger] r@[k].0 == m@[k].0 as u16 && r@[k].1@
                == byteset_label(m@[k].0, m@[k].1),
        decreases m@.len() - i,
    {
        r.push((m[i].0 as u16, byteset_label_of(m[i].0, &m[i].1)));
        i = i + 1;
    }
    proof {
        assert(line_texts(r@) =~= byteset_lines(m@, n as int));
    }
    r
}

fn first_texts(names: &Vec<String>, keep: usize) -> (r: Vec<String>)
    requires
        keep <= names@.len(),
    ensures
        texts(r@) == texts(names@).subrange(0, keep as int),
{
    let mut r: Vec<String> = Vec::new();
    let mut i: usize = 0;
    while i < keep
        invariant
            i <= keep <= names@.len(),
            r@.len() == i,
            forall|k: int| 0 <= k < i ==> #[trigger] r@[k]@ == names@[k]@,
        decreases keep - i,
    {
        r.push(names[i].clone());
        i = i + 1;
    }
    proof {
        assert(texts(r@) =~= texts(names@).subrange(0, keep as int));
    }
    r
}

/// The entries that a list of `len` keeps under 16-bit keys: the first
/// `len` modulo 2^16.
pub open spec fn kept_len(len: nat) -> int {
    (len % 0x10000) as int
}

/// The byte-set map of the stored sets, each under its position.
pub open spec fn stored_map(v: Seq<ByteSet>) -> Seq<(u8, ByteSet)> {
    Seq::new(v.len(), |i: int| (i as u8, v[i]))
}

/// The stored-policies map: each policy under its position as a byte.
pub open spec fn position_map<P>(v: Seq<P>) -> Seq<(u8, P)> {
    Seq::new(v.len(), |i: int| (i as u8, v[i]))
}

/// The stored capabilities' lines: each under its code, with its name.
pub open spec fn capability_lines(codes: Seq<u8>, names: Seq<Seq<char>>) -> Seq<(u16, Seq<char>)> {
    Seq::new(codes.len(), |i: int| (codes[i] as u16, names[i]))
}

impl<P> ForumLogic<P> {
    /// The swarm's running policies arrived (with their names): the first
    /// page lists them and the view keeps them under their positions.
    pub fn running_policies(&mut self, policies: Vec<(P, Requirement)>, names: &Vec<String>) -> (e: Vec<
        ForumEffect<P>,
    >)
        requires
            old(self).wf(),
            names@.len() == policies@.len(),
        ensures
            final(self).wf(),
            board_kept(old(self).board, final(self).board),
            final(self).board.posts == old(self).board.posts,
            final(self).clipboard_founder == old(self).clipboard_founder,
            final(self).last_heap_msg == old(self).last_heap_msg,
            final(self).state matches ForumState::RunningPolicies(Some((pg, m))) && pg == 0 && m@
                == policies@.subrange(0, kept_len(policies@.len())),
            e@.len() == 1,
            e@[0] matches ForumEffect::ListPage(k, pg, l) && k == ListKind::RunningPolicies && pg
                == 0 && line_texts(l@) == named_lines(
                texts(names@).subrange(0, kept_len(policies@.len())),
                old(self).board.entries_count as int,
            ),
    {
        let keep: usize = policies.len() % 0x10000;
        let mut m = policies;
        m.truncate(keep);
        let shown = first_texts(names, keep);
        let lines = named_lines_of(&shown, self.board.entries_count);
        self.set_state(ForumState::RunningPolicies(Some((0, m))));
        let mut effects: Vec<ForumEffect<P>> = Vec::new();
        effects.push(ForumEffect::ListPage(ListKind::RunningPolicies, 0, lines));
        effects
    }
}


impl<P> ForumLogic<P> {
    /// The swarm's running capabilities arrived (with their names): the
    /// first page lists them and the view keeps them under their positions.
    pub fn running_capabilities(&mut self, caps: Vec<(u8, Vec<u64>)>, names: &Vec<String>) -> (e: Vec<
        ForumEffect<P>,
    >)
        requires
            old(self).wf(),
            names@.len() == caps@.len(),
        ensures
            final(self).wf(),
            board_kept(old(self).board, final(self).board),
            final(self).board.posts == old(self).board.posts,
            final(self).clipboard_founder == old(self).clipboard_founder,
            final(self).last_heap_msg == old(self).last_heap_msg,
            final(self).state matches ForumState::RunningCapabilities(Some((pg, m))) && pg == 0
                && m@ == caps@.subrange(0, kept_len(caps@.len())),
            e@.len() == 1,
            e@[0] matches ForumEffect::ListPage(k, pg, l) && k == ListKind::RunningCapabilities
                && pg == 0 && line_texts(l@) == named_lines(
                texts(names@).subrange(0, kept_len(caps@.len())),
                old(self).board.entries_count as int,
            ),
    {
        let keep: usize = caps.len() % 0x10000;
        let mut m = caps;
        m.truncate(keep);
        let shown = first_texts(names, keep);
        let lines = named_lines_of(&shown, self.board.entries_count);
        self.set_state(ForumState::RunningCapabilities(Some((0, m))));
        let mut effects: Vec<ForumEffect<P>> = Vec::new();
        effects.push(ForumEffect::ListPage(ListKind::RunningCapabilities, 0, lines));
        effects
    }

    /// The swarm's running byte sets arrived: the first page lists them by
    /// kind and id, and the view keeps them under their ids.
    pub fn running_bytesets(&mut self, bsets: Vec<(u8, ByteSet)>) -> (e: Vec<ForumEffect<P>>)
        requires
            old(self).wf(),
        ensures
            final(self).wf(),
            board_kept(old(self).board, final(self).board),
            final(self).board.posts == old(self).board.posts,
            final(self).clipboard_founder == old(self).clipboard_founder,
            final(self).last_heap_msg == old(self).last_heap_msg,
            final(self).state == ForumState::<P>::ByteSets(true, Some((0u8, bsets))),
            e@.len() == 1,
            e@[0] matches ForumEffect::ListPage(k, pg, l) && k == ListKind::RunningByteSets && pg
                == 0 && line_texts(l@) == byteset_lines(bsets@, old(self).board.entries_count as int),
    {
        let lines = byteset_lines_of(&bsets, self.board.entries_count);
        self.set_state(ForumState::ByteSets(true, Some((0, bsets))));
        let mut effects: Vec<ForumEffect<P>> = Vec::new();
        effects.push(ForumEffect::ListPage(ListKind::RunningByteSets, 0, lines));
        effects
    }

    /// Lists the byte sets stored in the manifest, those under ids 0, 1,
    /// ... up to the first id without one; the view keeps them under their
    /// ids.
    pub fn stored_bytesets(&mut self, stored: Vec<ByteSet>) -> (e: Vec<ForumEffect<P>>)
        requires
            old(self).wf(),
            stored@.len() <= 256,
        ensures
            final(self).wf(),
            board_kept(old(self).board, final(self).board),
            final(self).board.posts == old(self).board.posts,
            final(self).clipboard_founder == old(self).clipboard_founder,
            final(self).last_heap_msg == old(self).last_heap_msg,
            final(self).state matches ForumState::ByteSets(run, Some((pg, m))) && !run && pg == 0
                && m@ == stored_map(stored@),
            e@.len() == 1,
            e@[0] matches ForumEffect::ListPage(k, pg, l) && k == ListKind::StoredByteSets && pg
                == 0 && line_texts(l@) == byteset_lines(stored_map(stored@), 0x10000),
    {
        let mut m: Vec<(u8, ByteSet)> = Vec::new();
        let mut rest = stored;
        let ghost all = rest@;
        let mut i: usize = 0;
        proof {
            assert(rest@ =~= all.subrange(0, all.len() as int));
        }
        while rest.len() > 0
            invariant
                i + rest@.len() == all.len() <= 256,
                m@ == stored_map(all.subrange(0, i as int)),
                rest@ == all.subrange(i as int, all.len() as int),
            decreases rest@.len(),
        {
            let b = rest.remove(0);
            proof {
                assert(b == all[i as int]);
            }
            m.push((i as u8, b));
            i = i + 1;
            proof {
                assert(m@ =~= stored_map(all.subrange(0, i as int)));
                assert(rest@ =~= all.subrange(i as int, all.len() as int));
            }
        }
        proof {
            assert(all.subrange(0, i as int) =~= all);
        }
        let lines = byteset_lines_of(&m, 0xffff);
        proof {
            assert(byteset_lines(m@, 0xffff) =~= byteset_lines(m@, 0x10000));
        }
        self.set_state(ForumState::ByteSets(false, Some((0, m))));
        let mut effects: Vec<ForumEffect<P>> = Vec::new();
        effects.push(ForumEffect::ListPage(ListKind::StoredByteSets, 0, lines));
        effects
    }

    /// Lists the policies stored in the manifest (with their names); the
    /// view keeps each under its position.
    pub fn stored_policies(&mut self, keys: Vec<P>, names: Vec<String>) -> (e: Vec<ForumEffect<P>>)
        requires
            old(self).wf(),
            names@.len() == keys@.len(),
        ensures
            final(self).wf(),
            board_kept(old(self).board, final(self).board),
            final(self).board.posts == old(self).board.posts,
            final(self).clipboard_founder == old(self).clipboard_founder,
            final(self).last_heap_msg == old(self).last_heap_msg,
            final(self).state matches ForumState::StoredPolicies(pg, m) && pg == Some(0u16) && m@
                == position_map(keys@),
            e@.len() == 1,
            e@[0] matches ForumEffect::ListPage(k, pg, l) && k == ListKind::StoredPolicies && pg
                == 0 && line_texts(l@) == named_lines(texts(names@), names@.len() as int),
    {
        let mut m: Vec<(u8, P)> = Vec::new();
        let total = keys.len();
        let mut rest = keys;
        let ghost all = rest@;
        let mut i: usize = 0;
        proof {
            assert(rest@ =~= all.subrange(0, all.len() as int));
        }
        while rest.len() > 0
            invariant
                i + rest@.len() == all.len() == total,
                m@ == position_map(all.subrange(0, i as int)),
                rest@ == all.subrange(i as int, all.len() as int),
            decreases rest@.len(),
        {
            let p = rest.remove(0);
            proof {
                assert(p == all[i as int]);
            }
            #[verifier::truncate]
            let key = i as u8;
            m.push((key, p));
            i = i + 1;
            proof {
                assert(m@ =~= position_map(all.subrange(0, i as int)));
                assert(rest@ =~= all.subrange(i as int, all.len() as int));
            }
        }
        proof {
            assert(all.subrange(0, i as int) =~= all);
        }
        let lines = all_named_lines(&names);
        self.set_state(ForumState::StoredPolicies(Some(0), m));
        let mut effects: Vec<ForumEffect<P>> = Vec::new();
        effects.push(ForumEffect::ListPage(ListKind::StoredPolicies, 0, lines));
        effects
    }

    /// Lists the capabilities stored in the manifest, each under its code
    /// with its name.
    pub fn stored_capabilities(&mut self, codes: &Vec<u8>, names: &Vec<String>) -> (e: Vec<
        ForumEffect<P>,
    >)
        requires
            old(self).wf(),
            names@.len() == codes@.len(),
        ensures
            final(self).wf(),
            board_kept(old(self).board, final(self).board),
            final(self).board.posts == old(self).board.posts,
            final(self).clipboard_founder == old(self).clipboard_founder,
            final(self).last_heap_msg == old(self).last_heap_msg,
            final(self).state == ForumState::<P>::StoredCapabilities(Some(0)),
            e@.len() == 1,
            e@[0] matches ForumEffect::ListPage(k, pg, l) && k == ListKind::StoredCapabilities && pg
                == 0 && line_texts(l@) == capability_lines(codes@, texts(names@)),
    {
        let mut lines: Vec<(u16, String)> = Vec::new();
        let mut i: usize = 0;
        while i < codes.len()
            invariant
                i <= codes@.len() == names@.len(),
                lines@.len() == i,
                forall|k: int| 0 <= k < i ==> #[trigger] lines@[k].0 == codes@[k] as u16
                    && lines@[k].1@ == names@[k]@,
            decreases codes@.len() - i,
        {
            lines.push((codes[i] as u16, names[i].clone()));
            i = i + 1;
        }
        proof {
            assert(line_texts(lines@) =~= capability_lines(codes@, texts(names@)));
        }
        self.set_state(ForumState::StoredCapabilities(Some(0)));
        let mut effects: Vec<ForumEffect<P>> = Vec::new();
        effects.push(ForumEffect::ListPage(ListKind::StoredCapabilities, 0, lines));
        effects
    }
}


/// A byte set built from selected ids: bytes or pairs, each id cut to its
/// width.
pub open spec fn built_from(b: ByteSet, ids: Seq<usize>, bytes: bool) -> bool {
    if bytes {
        b matches ByteSet::Bytes(v) && v@ == ids.map_values(|x: usize| x as u8)
    } else {
        b matches ByteSet::Pairs(v) && v@ == ids.map_values(|x: usize| x as u16)
    }
}

/// A byte-set map with `b` put under `k`: in place of the entry under `k`
/// when there is one, else added.
pub open spec fn map_with(m: Seq<(u8, ByteSet)>, k: u8, b: ByteSet) -> Seq<(u8, ByteSet)> {
    let j = last_key(m, k);
    if j >= 0 {
        m.update(j, (k, b))
    } else {
        m.push((k, b))
    }
}

/// The first id from `i` on that no entry of the map uses; 0 when all do.
pub open spec fn free_from(m: Seq<(u8, ByteSet)>, i: int) -> u8
    decreases 256 - i,
{
    if i >= 256 || i < 0 {
        0
    } else if last_key(m, i as u8) < 0 {
        i as u8
    } else {
        free_from(m, i + 1)
    }
}

/// The lines of the first `n` sets of a map being built: each under its
/// id, labelled by its kind and id.
pub open spec fn set_lines(m: Seq<(u8, ByteSet)>, n: int) -> Seq<(u16, Seq<char>)> {
    let len = if m.len() < n { m.len() as int } else { n };
    Seq::new(
        len as nat,
        |i: int|
            (
                m[i].0 as u16,
                (if m[i].1 is Pairs {
                    "PairSet("@
                } else {
                    "ByteSet("@
                }) + decimal(m[i].0 as nat) + ")"@,
            ),
    )
}

/// Selecting needs the first selected id to be a position of the list
/// offered.
pub open spec fn selection_allowed<P>(s: ForumState<P>, ids: Seq<usize>) -> bool {
    ids.len() > 0 ==> match s {
        ForumState::SelectingOneCapability(caps, _) => ids[0] < caps@.len(),
        ForumState::SelectingOnePolicy(pv, _) => ids[0] < pv@.len(),
        ForumState::SelectingOneRequirement(rv, _, _) => ids[0] < rv@.len(),
        _ => true,
    }
}

/// Views that a selection ends, and the lobby (page unknown) when nothing
/// was selected in one of them.
pub open spec fn selects<P>(s: ForumState<P>) -> bool {
    s is SelectingOneCapability || s is SelectingOnePolicy || s is SelectingOneRequirement
        || s is CreatingByteSet || s is ByteSets || s is TopicEditing
}

/// The first `n` codes of running capabilities with `new_cap` added last,
/// each under its position.
pub open spec fn codes_with(m: Seq<(u8, Vec<u64>)>, new_cap: u8, n: u16) -> Seq<(u16, u8)> {
    Seq::new(
        if m.len() + 1 < n {
            (m.len() + 1) as nat
        } else {
            n as nat
        },
        |i: int|
            (
                i as u16,
                if i < m.len() {
                    m[i].0
                } else {
                    new_cap
                },
            ),
    )
}

/// A capability selected from those offered: it joins the running ones
/// (listed by code on their page) or the stored ones (listed first,
/// before the manifest's).
pub open spec fn capability_selected<P>(
    new_cap: u8,
    prev: ForumState<P>,
    n: u16,
    registered: Seq<u8>,
    s: ForumState<P>,
    e: Seq<ForumEffect<P>>,
) -> bool {
    match prev {
        ForumState::RunningCapabilities(opt) => {
            let (pg, old_m) = match opt {
                Some((pg, m)) => (pg, m@),
                None => (0u16, seq![]),
            };
            &&& s matches ForumState::RunningCapabilities(Some((pg2, m2))) && pg2 == pg && m2@.len()
                == old_m.len() + 1 && m2@.subrange(0, old_m.len() as int) == old_m && m2@.last().0
                == new_cap && m2@.last().1@.len() == 0
            &&& e.len() == 1
            &&& e[0] matches ForumEffect::CapabilityPage(k, pg3, l) && k
                == ListKind::RunningCapabilities && pg3 == pg && l@ == codes_with(old_m, new_cap, n)
        },
        ForumState::StoredCapabilities(_) => {
            &&& s == ForumState::<P>::StoredCapabilities(Some(0))
            &&& e.len() == 1
            &&& e[0] matches ForumEffect::CapabilityPage(k, pg3, l) && k
                == ListKind::StoredCapabilities && pg3 == 0 && l@ == seq![(new_cap as u16, new_cap)]
                + registered.map_values(|c: u8| (c as u16, c))
        },
        other => s == other && e.len() == 0,
    }
}

/// A new byte set from the selected ids (bytes when 256 were offered),
/// put under the first free id of the map being built, whose first `n`
/// sets are listed.
pub open spec fn creating_selected<P>(
    bytes: bool,
    run: bool,
    ex: Option<(u8, Vec<(u8, ByteSet)>)>,
    ids: Seq<usize>,
    n: u16,
    s: ForumState<P>,
    e: Seq<ForumEffect<P>>,
) -> bool {
    let (hid, m) = match ex {
        Some((i, m)) => (i, m@),
        None => (0u8, seq![]),
    };
    let k = free_from(m, 0);
    &&& s matches ForumState::ByteSets(run2, Some((hid2, m2))) && run2 == run && hid2 == hid
        && exists|b: ByteSet| built_from(b, ids, bytes) && m2@ == map_with(m, k, b)
    &&& e.len() == 1
    &&& e[0] matches ForumEffect::ListPage(kind, pg, l) && kind == (if run {
        ListKind::RunningByteSets
    } else {
        ListKind::StoredByteSets
    }) && pg == hid as u16 && (s matches ForumState::ByteSets(_, Some((_, m3))) && line_texts(l@)
        == set_lines(m3@, n as int))
}

/// New members for the byte set under the map's id, of the set's kind;
/// the lobby when there is no set under it.
pub open spec fn members_selected<P>(
    run: bool,
    hid: u8,
    m: Seq<(u8, ByteSet)>,
    ids: Seq<usize>,
    s: ForumState<P>,
    e: Seq<ForumEffect<P>>,
) -> bool {
    let j = last_key(m, hid);
    &&& e.len() == 0
    &&& if j >= 0 {
        s matches ForumState::ByteSets(run2, Some((hid2, m2))) && run2 == run && hid2 == hid
            && exists|b: ByteSet| built_from(b, ids, !(m[j].1 is Pairs)) && m2@ == m.update(j, (hid, b))
    } else {
        s == ForumState::<P>::MainLobby(None)
    }
}

/// A selection while editing a topic: on the forum's description it edits
/// the tag selected (a new one past the last); otherwise the ids become
/// the topic's tags.
pub open spec fn topic_selected<P>(c: TopicContext, ids: Seq<usize>, s: ForumState<P>, e: Seq<ForumEffect<P>>) -> bool {
    let id = ids[0];
    if c.t_id == Some(0u16) {
        let text = if id < c.tag_names@.len() {
            c.tag_names@[id as int]@
        } else {
            "NewCategory"@
        };
        &&& s matches ForumState::Editing(i, prev) && i == Some(id as u16) && (
        *prev matches ForumState::TopicEditing(c2) && topic_is(
            c2,
            c.t_id,
            c.description@,
            c.tags@,
            texts(c.tag_names@),
        ))
        &&& e.len() == 1
        &&& e[0] matches ForumEffect::OpenEditor(p) && params_are(
            p,
            "Add new Category (oneline, 32 bytes max)"@,
            Some(text),
            false,
            None,
            Some(32u16),
            false,
        )
    } else {
        &&& s matches ForumState::TopicEditing(c2) && topic_is(
            c2,
            c.t_id,
            c.description@,
            ids,
            texts(c.tag_names@),
        )
        &&& e.len() == 1
        &&& e[0] matches ForumEffect::OpenCreator(c3) && topic_is(
            c3,
            c.t_id,
            c.description@,
            ids,
            texts(c.tag_names@),
        )
    }
}

/// What a selection of `ids` does in each view (`registered` are the
/// capabilities in the manifest): a capability joins the running or the
/// stored ones, a policy or a requirement goes into the pyramid, a new
/// byte set is made, a byte set gets new members, a topic gets its tags or
/// a tag is edited, and a filter leaves for the lobby's first page. An
/// empty selection
/// in a view that selects leaves for the lobby.
pub open spec fn selected<P>(
    o: ForumLogic<P>,
    f: ForumLogic<P>,
    ids: Seq<usize>,
    registered: Seq<u8>,
    e: Seq<ForumEffect<P>>,
) -> bool {
    let n = o.board.entries_count;
    if ids.len() == 0 && selects(o.state) {
        f.state == ForumState::<P>::MainLobby(None) && e.len() == 0
    } else {
        let id = ids[0];
        match o.state {
            ForumState::SelectingOneCapability(caps, prev) => capability_selected(
                caps@[id as int],
                *prev,
                n,
                registered,
                f.state,
                e,
            ),
            ForumState::SelectingOnePolicy(pv, t) => {
                &&& f.state == ForumState::Pyramid(pv@[id as int], t)
                &&& e == seq![ForumEffect::ShowPolicy(pv@[id as int], t)]
            },
            ForumState::SelectingOneRequirement(rv, pol, t) => {
                let (t2, found) = spec_replace_mark(t, rv@[id as int]);
                if found {
                    &&& f.state == ForumState::Pyramid(pol, t2)
                    &&& e == seq![ForumEffect::ShowPolicy(pol, t2)]
                } else {
                    f.state == ForumState::<P>::MainLobby(None) && e.len() == 0
                }
            },
            ForumState::CreatingByteSet(opts, run, ex) => creating_selected(
                opts@.len() == 256,
                run,
                ex,
                ids,
                n,
                f.state,
                e,
            ),
            ForumState::ByteSets(run, Some((hid, m))) => members_selected(run, hid, m@, ids, f.state, e),
            ForumState::ByteSets(_, None) => f.state == ForumState::<P>::MainLobby(None) && e.len()
                == 0,
            ForumState::TopicEditing(c) => topic_selected(c, ids, f.state, e),
            ForumState::Filtering => f.state == ForumState::<P>::MainLobby(Some(0)) && e.len() == 1 && e[0] is ShowTopics,
            _ => f.state == o.state && e.len() == 0,
        }
    }
}

fn ids_as_bytes(ids: &Vec<usize>) -> (r: Vec<u8>)
    ensures
        r@ == ids@.map_values(|x: usize| x as u8),
{
    let mut r: Vec<u8> = Vec::new();
    let mut i: usize = 0;
    while i < ids.len()
        invariant
            i <= ids@.len(),
            r@.len() == i,
            forall|k: int| 0 <= k < i ==> #[trigger] r@[k] == ids@[k] as u8,
        decreases ids@.len() - i,
    {
        #[verifier::truncate]
        let b = ids[i] as u8;
        r.push(b);
        i = i + 1;
    }
    proof {
        assert(r@ =~= ids@.map_values(|x: usize| x as u8));
    }
    r
}

fn ids_as_pairs(ids: &Vec<usize>) -> (r: Vec<u16>)
    ensures
        r@ == ids@.map_values(|x: usize| x as u16),
{
    let mut r: Vec<u16> = Vec::new();
    let mut i: usize = 0;
    while i < ids.len()
        invariant
            i <= ids@.len(),
            r@.len() == i,
            forall|k: int| 0 <= k < i ==> #[trigger] r@[k] == ids@[k] as u16,
        decreases ids@.len() - i,
    {
        #[verifier::truncate]
        let b = ids[i] as u16;
        r.push(b);
        i = i + 1;
    }
    proof {
        assert(r@ =~= ids@.map_values(|x: usize| x as u16));
    }
    r
}

fn build_set(ids: &Vec<usize>, bytes: bool) -> (b: ByteSet)
    ensures
        built_from(b, ids@, bytes),
{
    if bytes {
        ByteSet::Bytes(ids_as_bytes(ids))
    } else {
        ByteSet::Pairs(ids_as_pairs(ids))
    }
}

fn first_free(m: &Vec<(u8, ByteSet)>) -> (k: u8)
    ensures
        k == free_from(m@, 0),
{
    let mut i: u32 = 0;
    while i < 256
        invariant
            i <= 256,
            free_from(m@, i as int) == free_from(m@, 0),
        decreases 256 - i,
    {
        match find_last_key(m, i as u8) {
            None => {
                return i as u8;
            },
            Some(_) => {},
        }
        i = i + 1;
    }
    0
}

fn put_set(m: &mut Vec<(u8, ByteSet)>, k: u8, b: ByteSet)
    ensures
        final(m)@ == map_with(old(m)@, k, b),
{
    match find_last_key(m, k) {
        Some(j) => {
            m.set(j, (k, b));
        },
        None => {
            m.push((k, b));
        },
    }
}

fn set_lines_of(m: &Vec<(u8, ByteSet)>, n: u16) -> (r: Vec<(u16, String)>)
    ensures
        line_texts(r@) == set_lines(m@, n as int),
{
    let mut r: Vec<(u16, String)> = Vec::new();
    let mut i: usize = 0;
    while i < m.len() && i < n as usize
        invariant
            i <= m@.len(),
            i <= n,
            r@.len() == i,
            forall|k: int| 0 <= k < i ==> #[trigger] r@[k].0 == m@[k].0 as u16 && r@[k].1@ == (
            if m@[k].1 is Pairs {
                "PairSet("@
            } else {
                "ByteSet("@
            }) + decimal(m@[k].0 as nat) + ")"@,
        decreases m@.len() - i,
    {
        let mut v: Vec<char> = Vec::new();
        match &m[i].1 {
            ByteSet::Pairs(_) => push_str(&mut v, "PairSet("),
            _ => push_str(&mut v, "ByteSet("),
        }
        push_decimal(&mut v, m[i].0 as u64);
        push_str(&mut v, ")");
        r.push((m[i].0 as u16, string_of(&v)));
        i = i + 1;
    }
    proof {
        assert(line_texts(r@) =~= set_lines(m@, n as int));
    }
    r
}


fn capability_codes_page(m: &Vec<(u8, Vec<u64>)>, n: u16) -> (r: Vec<(u16, u8)>)
    ensures
        r@ == Seq::new(
            if m@.len() < n { m@.len() as nat } else { n as nat },
            |i: int| (i as u16, m@[i].0),
        ),
{
    let mut r: Vec<(u16, u8)> = Vec::new();
    let mut i: usize = 0;
    while i < m.len() && i < n as usize
        invariant
            i <= m@.len(),
            i <= n,
            r@.len() == i,
            forall|k: int| 0 <= k < i ==> #[trigger] r@[k] == (k as u16, m@[k].0),
        decreases m@.len() - i,
    {
        r.push((i as u16, m[i].0));
        i = i + 1;
    }
    proof {
        assert(r@ =~= Seq::new(
            if m@.len() < n { m@.len() as nat } else { n as nat },
            |i: int| (i as u16, m@[i].0),
        ));
    }
    r
}

fn stored_codes_page(new_cap: u8, registered: &Vec<u8>) -> (r: Vec<(u16, u8)>)
    ensures
        r@ == seq![(new_cap as u16, new_cap)] + registered@.map_values(|c: u8| (c as u16, c)),
{
    let mut r: Vec<(u16, u8)> = Vec::new();
    r.push((new_cap as u16, new_cap));
    let mut i: usize = 0;
    while i < registered.len()
        invariant
            i <= registered@.len(),
            r@.len() == i + 1,
            r@[0] == (new_cap as u16, new_cap),
            forall|j: int| 1 <= j <= i ==> #[trigger] r@[j] == (registered@[j - 1] as u16, registered@[j - 1]),
        decreases registered@.len() - i,
    {
        r.push((registered[i] as u16, registered[i]));
        i = i + 1;
    }
    proof {
        assert(r@ =~= seq![(new_cap as u16, new_cap)] + registered@.map_values(|c: u8| (c as u16, c)));
    }
    r
}

fn select_capability<P>(new_cap: u8, prev: ForumState<P>, n: u16, registered: &Vec<u8>) -> (r: (
    ForumState<P>,
    Vec<ForumEffect<P>>,
))
    ensures
        capability_selected(new_cap, prev, n, registered@, r.0, r.1@),
{
    let mut effects: Vec<ForumEffect<P>> = Vec::new();
    match prev {
        ForumState::RunningCapabilities(opt) => {
            let (pg, mut m) = match opt {
                Some((pg, m)) => (pg, m),
                None => (0, Vec::new()),
            };
            let ghost old_m = m@;
            m.push((new_cap, Vec::new()));
            proof {
                assert(m@.subrange(0, old_m.len() as int) =~= old_m);
            }
            let page = capability_codes_page(&m, n);
            proof {
                assert(page@ =~= codes_with(old_m, new_cap, n));
            }
            effects.push(ForumEffect::CapabilityPage(ListKind::RunningCapabilities, pg, page));
            (ForumState::RunningCapabilities(Some((pg, m))), effects)
        },
        ForumState::StoredCapabilities(_) => {
            let page = stored_codes_page(new_cap, registered);
            effects.push(ForumEffect::CapabilityPage(ListKind::StoredCapabilities, 0, page));
            (ForumState::StoredCapabilities(Some(0)), effects)
        },
        other => (other, effects),
    }
}

fn select_new_set<P>(
    bytes: bool,
    run: bool,
    ex: Option<(u8, Vec<(u8, ByteSet)>)>,
    ids: &Vec<usize>,
    n: u16,
) -> (r: (ForumState<P>, Vec<ForumEffect<P>>))
    ensures
        creating_selected(bytes, run, ex, ids@, n, r.0, r.1@),
{
    let mut effects: Vec<ForumEffect<P>> = Vec::new();
    let b = build_set(ids, bytes);
    let (hid, mut m) = match ex {
        Some((i, m)) => (i, m),
        None => (0, Vec::new()),
    };
    let k = first_free(&m);
    let ghost gb = b;
    let ghost before = m@;
    put_set(&mut m, k, b);
    proof {
        assert(built_from(gb, ids@, bytes) && m@ == map_with(before, k, gb));
    }
    let lines = set_lines_of(&m, n);
    if run {
        effects.push(ForumEffect::ListPage(ListKind::RunningByteSets, hid as u16, lines));
    } else {
        effects.push(ForumEffect::ListPage(ListKind::StoredByteSets, hid as u16, lines));
    }
    (ForumState::ByteSets(run, Some((hid, m))), effects)
}

fn select_members<P>(run: bool, hid: u8, m: Vec<(u8, ByteSet)>, ids: &Vec<usize>) -> (r: (
    ForumState<P>,
    Vec<ForumEffect<P>>,
))
    ensures
        members_selected(run, hid, m@, ids@, r.0, r.1@),
{
    match find_last_key(&m, hid) {
        Some(j) => {
            let bytes = match &m[j].1 {
                ByteSet::Pairs(_) => false,
                _ => true,
            };
            let b = build_set(ids, bytes);
            let ghost gb = b;
            let mut m = m;
            let ghost before = m@;
            m.set(j, (hid, b));
            proof {
                assert(built_from(gb, ids@, bytes) && m@ == before.update(j as int, (hid, gb)));
            }
            (ForumState::ByteSets(run, Some((hid, m))), Vec::new())
        },
        None => (ForumState::MainLobby(None), Vec::new()),
    }
}

fn select_in_topic<P>(c: TopicContext, ids: Vec<usize>) -> (r: (ForumState<P>, Vec<ForumEffect<P>>))
    requires
        ids@.len() > 0,
    ensures
        topic_selected(c, ids@, r.0, r.1@),
{
    let mut effects: Vec<ForumEffect<P>> = Vec::new();
    let id = ids[0];
    if c.t_id == Some(0u16) {
        let text = if id < c.tag_names.len() {
            c.tag_names[id].clone()
        } else {
            String::from_str("NewCategory")
        };
        let p = editor_params(
            "Add new Category (oneline, 32 bytes max)",
            Some(text),
            false,
            None,
            Some(32),
            false,
        );
        effects.push(ForumEffect::OpenEditor(p));
        #[verifier::truncate]
        let tag_id = id as u16;
        (ForumState::Editing(Some(tag_id), Box::new(ForumState::TopicEditing(c))), effects)
    } else {
        let shown = TopicContext {
            t_id: c.t_id,
            description: c.description.clone(),
            tags: copy_usizes(&ids),
            tag_names: copy_texts(&c.tag_names),
        };
        effects.push(ForumEffect::OpenCreator(shown));
        let kept = TopicContext { t_id: c.t_id, description: c.description, tags: ids, tag_names: c.tag_names };
        (ForumState::TopicEditing(kept), effects)
    }
}

impl<P: Copy> ForumLogic<P> {
    /// Serves a selection of `ids` (see `selected`); `registered` are the
    /// capabilities in the manifest. A selection of categories while
    /// filtering sets the category filter (none for an empty one),
    /// rebuilds the lobby's pages and shows the first of them.
    pub fn serve_selected(&mut self, ids: Vec<usize>, registered: &Vec<u8>) -> (e: Vec<ForumEffect<P>>)
        requires
            old(self).wf(),
            selection_allowed(old(self).state, ids@),
        ensures
            final(self).wf(),
            !(old(self).state is Filtering) ==> board_kept(old(self).board, final(self).board),
            final(self).board.posts == old(self).board.posts,
            final(self).clipboard_founder == old(self).clipboard_founder,
            final(self).last_heap_msg == old(self).last_heap_msg,
            selected(*old(self), *final(self), ids@, registered@, e@),
            old(self).state is Filtering ==> {
                let cats = ids@.map_values(|x: usize| x as u8);
                &&& final(self).board.cats() == (if cats.len() == 0 {
                    None::<Seq<u8>>
                } else {
                    Some(cats)
                })
                &&& final(self).board.text() == old(self).board.text()
                &&& final(self).board.all_topics == old(self).board.all_topics
                &&& final(self).board.entries_count == old(self).board.entries_count
                &&& e@.len() == 1
                &&& e@[0] matches ForumEffect::ShowTopics(pg, ids) && pg == 0 && ids@ == final(self).board.pages()[0]
                &&& crate::board::paged(
                    final(self).board.pages(),
                    crate::board::matching(
                        old(self).board.all_topics@,
                        final(self).board.cats(),
                        old(self).board.text(),
                        (old(self).board.all_topics@.len() % 0x10000) as int,
                    ),
                    old(self).board.entries_count as int,
                )
            },
    {
        let mut st = ForumState::MainLobby(None);
        std::mem::swap(&mut st, &mut self.state);
        let n = self.board.entries_count;
        if ids.len() == 0 {
            let ends = match &st {
                ForumState::SelectingOneCapability(_, _) => true,
                ForumState::SelectingOnePolicy(_, _) => true,
                ForumState::SelectingOneRequirement(_, _, _) => true,
                ForumState::CreatingByteSet(_, _, _) => true,
                ForumState::ByteSets(_, _) => true,
                ForumState::TopicEditing(_) => true,
                _ => false,
            };
            if ends {
                self.set_state(ForumState::MainLobby(None));
                return Vec::new();
            }
        }
        let (new_state, effects) = match st {
            ForumState::SelectingOneCapability(caps, prev) => select_capability(
                caps[ids[0]],
                *prev,
                n,
                registered,
            ),
            ForumState::SelectingOnePolicy(pv, t) => {
                let mut effects: Vec<ForumEffect<P>> = Vec::new();
                let p = pv[ids[0]];
                let t2 = crate::poledit::copy_tree(&t);
                effects.push(ForumEffect::ShowPolicy(p, t2));
                proof {
                    assert(effects@ =~= seq![ForumEffect::ShowPolicy(p, t)]);
                }
                (ForumState::Pyramid(p, t), effects)
            },
            ForumState::SelectingOneRequirement(rv, pol, t) => {
                let mut effects: Vec<ForumEffect<P>> = Vec::new();
                let r = copy_requirement_of(&rv[ids[0]]);
                let mut t = t;
                if t.replace_mark(r) {
                    let t2 = crate::poledit::copy_tree(&t);
                    effects.push(ForumEffect::ShowPolicy(pol, t2));
                    proof {
                        assert(effects@ =~= seq![ForumEffect::ShowPolicy(pol, t)]);
                    }
                    (ForumState::Pyramid(pol, t), effects)
                } else {
                    (ForumState::MainLobby(None), effects)
                }
            },
            ForumState::CreatingByteSet(opts, run, ex) => select_new_set(opts.len() == 256, run, ex, &ids, n),
            ForumState::ByteSets(run, Some((hid, m))) => select_members(run, hid, m, &ids),
            ForumState::ByteSets(_, None) => (ForumState::MainLobby(None), Vec::new()),
            ForumState::TopicEditing(c) => select_in_topic(c, ids),
            ForumState::Filtering => {
                let cats = ids_as_bytes(&ids);
                self.board.category_filter = if cats.len() == 0 {
                    None
                } else {
                    Some(cats)
                };
                self.board.filter_topics();
                let mut effects: Vec<ForumEffect<P>> = Vec::new();
                effects.push(ForumEffect::ShowTopics(0, crate::board::copy_ids(&self.board.menu_pages[0])));
                (ForumState::MainLobby(Some(0)), effects)
            },
            other => (other, Vec::new()),
        };
        self.set_state(new_state);
        effects
    }
}


/// Whether the requirements offered for the marked block include the
/// logical ones: all but for a block on the pyramid's lowest level.
pub open spec fn offers_logic(t: ReqTree) -> bool {
    spec_mark_location(t).0 != 4
}

/// Whether the requirements offered for the marked block include the
/// logical ones (see `offers_logic`).
pub fn requirements_include_logic(t: &ReqTree) -> (b: bool)
    ensures
        b == offers_logic(*t),
{
    t.mark_location().0 != 4
}

/// What a policy editor's action does: choosing a policy or a requirement
/// offers the choices (`names`, their values `options`) while the pyramid
/// is shown; storing or running a policy sends it when its requirement is
/// complete, and goes back to the lobby's first page.
pub open spec fn pol_served<P>(
    o: ForumState<P>,
    f: ForumState<P>,
    pa: PolAction<P>,
    policies: Seq<P>,
    reqs: Seq<Requirement>,
    names: Seq<Seq<char>>,
    e: Seq<ForumEffect<P>>,
) -> bool {
    let offered = e.len() == 1 && (e[0] matches ForumEffect::Select(multi, strs, pre) && multi
        && texts(strs@) == names && pre@.len() == 0);
    let lobby = f == ForumState::<P>::MainLobby(Some(0)) && e.len() >= 1 && (e.last() matches ForumEffect::TopicsPage(
        pg,
        l,
    ) && pg == 0 && l@.len() == 0);
    match pa {
        PolAction::SelectPolicy => match o {
            ForumState::Pyramid(_, t) => offered && (f matches ForumState::SelectingOnePolicy(pv, t2)
                && pv@ == policies && t2 == t),
            _ => f == o && e.len() == 0,
        },
        PolAction::SelectRequirement(t) => match o {
            ForumState::Pyramid(p, _) => offered && (f matches ForumState::SelectingOneRequirement(
                rv,
                p2,
                t2,
            ) && rv@ == reqs && p2 == p && t2 == t),
            _ => f == o && e.len() == 0,
        },
        PolAction::Store(p, t) => lobby && match spec_requirement(t) {
            Ok(r) => e.len() == 2 && e[0] == ForumEffect::StorePolicy(p, r),
            Err(_) => e.len() == 1,
        },
        PolAction::Run(p, t) => lobby && match spec_requirement(t) {
            Ok(r) => e.len() == 2 && e[0] == ForumEffect::RunPolicy(p, r),
            Err(_) => e.len() == 1,
        },
    }
}

impl<P> ForumLogic<P> {
    /// Serves a policy editor's action (see `pol_served`): `policies` and
    /// `reqs` are the choices offered, named by `names`.
    pub fn serve_pol_action(
        &mut self,
        pa: PolAction<P>,
        policies: Vec<P>,
        reqs: Vec<Requirement>,
        names: Vec<String>,
    ) -> (e: Vec<ForumEffect<P>>)
        requires
            old(self).wf(),
        ensures
            final(self).wf(),
            board_kept(old(self).board, final(self).board),
            final(self).board.posts == old(self).board.posts,
            final(self).clipboard_founder == old(self).clipboard_founder,
            final(self).last_heap_msg == old(self).last_heap_msg,
            pol_served(old(self).state, final(self).state, pa, policies@, reqs@, texts(names@), e@),
    {
        let mut st = ForumState::MainLobby(None);
        std::mem::swap(&mut st, &mut self.state);
        let mut effects: Vec<ForumEffect<P>> = Vec::new();
        let new_state = match pa {
            PolAction::SelectPolicy => match st {
                ForumState::Pyramid(_, t) => {
                    effects.push(ForumEffect::Select(true, names, Vec::new()));
                    ForumState::SelectingOnePolicy(policies, t)
                },
                other => other,
            },
            PolAction::SelectRequirement(t) => match st {
                ForumState::Pyramid(p, _) => {
                    effects.push(ForumEffect::Select(true, names, Vec::new()));
                    ForumState::SelectingOneRequirement(reqs, p, t)
                },
                other => other,
            },
            PolAction::Store(p, t) => {
                match t.requirement() {
                    Ok(r) => effects.push(ForumEffect::StorePolicy(p, r)),
                    Err(_) => {},
                }
                effects.push(ForumEffect::TopicsPage(0, Vec::new()));
                ForumState::MainLobby(Some(0))
            },
            PolAction::Run(p, t) => {
                match t.requirement() {
                    Ok(r) => effects.push(ForumEffect::RunPolicy(p, r)),
                    Err(_) => {},
                }
                effects.push(ForumEffect::TopicsPage(0, Vec::new()));
                ForumState::MainLobby(Some(0))
            },
        };
        self.set_state(new_state);
        effects
    }
}


/// The tag names that the creator offers: on the forum's description a
/// last entry adds a new tag, while there are fewer than 256.
pub open spec fn offered_tags(c: TopicContext) -> Seq<Seq<char>> {
    let names = texts(c.tag_names@);
    if c.t_id == Some(0u16) && names.len() < 256 {
        names.push("+ Add new…"@)
    } else {
        names
    }
}

/// The topic's tag ids cut to bytes.
pub open spec fn tag_bytes(tags: Seq<usize>) -> Seq<u8> {
    tags.map_values(|t: usize| t as u8)
}

/// What a creator's result does while a topic is edited: it reopens the
/// creator, offers the tags, edits the description (of a topic, read
/// first; of the forum; of a new topic), creates (the forum's manifest, a
/// topic's header, a new topic) or cancels, going back to the topic or
/// the lobby, whose first page is shown. Outside topic editing nothing
/// happens.
pub open spec fn creator_served<P>(
    o: ForumLogic<P>,
    f: ForumState<P>,
    res: CreatorResult,
    e: Seq<ForumEffect<P>>,
) -> bool {
    match o.state {
        ForumState::TopicEditing(c) => match res {
            CreatorResult::SelectDType => f == o.state && e.len() == 1 && (e[0] matches ForumEffect::OpenCreator(
                x,
            ) && topic_is(x, c.t_id, c.description@, c.tags@, texts(c.tag_names@))),
            CreatorResult::SelectTags => f == o.state && e.len() == 1 && (e[0] matches ForumEffect::Select(
                multi,
                strs,
                pre,
            ) && multi == (c.t_id == Some(0u16)) && texts(strs@) == offered_tags(c) && pre@ == (if c.t_id
                == Some(0u16) {
                seq![]
            } else {
                c.tags@
            })),
            CreatorResult::SelectDescription => f == o.state && e.len() == 1 && match c.t_id {
                Some(t) => if t > 0 {
                    e[0] == ForumEffect::<P>::ReadPagesRange(t, 0, 0)
                } else {
                    e[0] matches ForumEffect::OpenEditor(p) && params_are(
                        p,
                        "Edit Forum's description"@,
                        Some(c.description@),
                        true,
                        None,
                        Some(1000u16),
                        false,
                    )
                },
                None => e[0] matches ForumEffect::OpenEditor(p) && params_are(
                    p,
                    "Adding new Topic"@,
                    Some(c.description@),
                    true,
                    None,
                    Some(800u16),
                    false,
                ),
            },
            CreatorResult::Create => e.len() == 1 && match c.t_id {
                Some(t) => if t == 0 {
                    f == ForumState::<P>::MainLobby(None) && (e[0] matches ForumEffect::EditManifest(
                        d,
                        names,
                    ) && d@ == c.description@ && texts(names@) == texts(c.tag_names@))
                } else {
                    f == ForumState::<P>::Topic(t, None) && (e[0] matches ForumEffect::UpdateData(
                        c2,
                        d,
                        bytes,
                    ) && c2 == t && d == 0 && bytes@ == spec_encode(
                        o.my_id,
                        tag_bytes(c.tags@),
                        c.description@,
                        false,
                    ))
                },
                None => f == ForumState::<P>::MainLobby(None) && (e[0] matches ForumEffect::AppendContent(
                    bytes,
                ) && bytes@ == spec_encode(o.my_id, tag_bytes(c.tags@), c.description@, false)),
            },
            CreatorResult::Cancel => {
                let n = o.board.entries_count;
                let lobby = f == ForumState::<P>::MainLobby(Some(0)) && (e[0] matches ForumEffect::ShowTopics(
                    pg,
                    ids,
                ) && pg == 0 && ids@ == o.board.pages()[0]);
                &&& e.len() == 1
                &&& match c.t_id {
                    Some(t) => if t > 0 {
                        f == ForumState::<P>::Topic(t, Some(0)) && (e[0] matches ForumEffect::ShowPosts(pg, ids)
                            && pg == 0 && ids@ == crate::board::post_ids(o.board.posts@.len(), n, 0, n))
                    } else {
                        lobby
                    },
                    None => lobby,
                }
            },
        },
        _ => f == o.state && e.len() == 0,
    }
}

fn usizes_as_bytes(v: &Vec<usize>) -> (r: Vec<u8>)
    ensures
        r@ == tag_bytes(v@),
{
    let r = ids_as_bytes(v);
    proof {
        assert(r@ =~= tag_bytes(v@));
    }
    r
}

fn copy_topic(c: &TopicContext) -> (r: TopicContext)
    ensures
        topic_is(r, c.t_id, c.description@, c.tags@, texts(c.tag_names@)),
{
    TopicContext {
        t_id: c.t_id,
        description: c.description.clone(),
        tags: copy_usizes(&c.tags),
        tag_names: copy_texts(&c.tag_names),
    }
}

impl<P> ForumLogic<P> {
    /// Serves the creator's result (see `creator_served`).
    pub fn process_creator_result(&mut self, res: CreatorResult) -> (e: Vec<ForumEffect<P>>)
        requires
            old(self).wf(),
            old(self).board.menu_pages@.len() >= 1,
        ensures
            final(self).wf(),
            board_kept(old(self).board, final(self).board),
            final(self).board.posts == old(self).board.posts,
            final(self).clipboard_founder == old(self).clipboard_founder,
            final(self).last_heap_msg == old(self).last_heap_msg,
            final(self).my_id == old(self).my_id,
            creator_served(*old(self), final(self).state, res, e@),
    {
        let mut effects: Vec<ForumEffect<P>> = Vec::new();
        let mut cancelled = false;
        let next: Option<ForumState<P>> = match &self.state {
            ForumState::TopicEditing(c) => {
                match res {
                    CreatorResult::SelectDType => {
                        effects.push(ForumEffect::OpenCreator(copy_topic(c)));
                        None
                    },
                    CreatorResult::SelectTags => {
                        let mut names = copy_texts(&c.tag_names);
                        let first = c.t_id == Some(0u16);
                        if first && names.len() < 256 {
                            names.push(String::from_str("+ Add new…"));
                            proof {
                                assert(texts(names@) =~= offered_tags(*c));
                            }
                        }
                        let pre = if first {
                            Vec::new()
                        } else {
                            copy_usizes(&c.tags)
                        };
                        effects.push(ForumEffect::Select(first, names, pre));
                        None
                    },
                    CreatorResult::SelectDescription => {
                        match c.t_id {
                            Some(t) => {
                                if t > 0 {
                                    effects.push(ForumEffect::ReadPagesRange(t, 0, 0));
                                } else {
                                    let p = editor_params(
                                        "Edit Forum's description",
                                        Some(c.description.clone()),
                                        true,
                                        None,
                                        Some(1000),
                                        false,
                                    );
                                    effects.push(ForumEffect::OpenEditor(p));
                                }
                            },
                            None => {
                                let p = editor_params(
                                    "Adding new Topic",
                                    Some(c.description.clone()),
                                    true,
                                    None,
                                    Some(800),
                                    false,
                                );
                                effects.push(ForumEffect::OpenEditor(p));
                            },
                        }
                        None
                    },
                    CreatorResult::Create => {
                        match c.t_id {
                            Some(t) => {
                                if t == 0 {
                                    effects.push(
                                        ForumEffect::EditManifest(
                                            c.description.clone(),
                                            copy_texts(&c.tag_names),
                                        ),
                                    );
                                    Some(ForumState::MainLobby(None))
                                } else {
                                    let entry = Entry::new(
                                        self.my_id,
                                        usizes_as_bytes(&c.tags),
                                        c.description.clone(),
                                        0,
                                    );
                                    effects.push(ForumEffect::UpdateData(t, 0, entry.into_data(false)));
                                    Some(ForumState::Topic(t, None))
                                }
                            },
                            None => {
                                let entry = Entry::new(
                                    self.my_id,
                                    usizes_as_bytes(&c.tags),
                                    c.description.clone(),
                                    0,
                                );
                                effects.push(ForumEffect::AppendContent(entry.into_data(false)));
                                Some(ForumState::MainLobby(None))
                            },
                        }
                    },
                    CreatorResult::Cancel => {
                        cancelled = true;
                        match c.t_id {
                            Some(t) => {
                                if t > 0 {
                                    Some(ForumState::Topic(t, None))
                                } else {
                                    Some(ForumState::MainLobby(None))
                                }
                            },
                            None => Some(ForumState::MainLobby(None)),
                        }
                    },
                }
            },
            _ => None,
        };
        match next {
            Some(s) => self.set_state(s),
            None => {},
        }
        if cancelled {
            match self.present() {
                Some(Listing::Topics(pg, ids)) => effects.push(ForumEffect::ShowTopics(pg, ids)),
                Some(Listing::Posts(pg, ids)) => effects.push(ForumEffect::ShowPosts(pg, ids)),
                None => {},
            }
        }
        proof {
            if effects@.len() == 1 {
                assert(effects@[0] == effects@.last());
            }
        }
        effects
    }
}


/// A capability's members after the editor's result on member `id` (the
/// next one when none): a gnome id read from the text replaces that member
/// or is added.
pub open spec fn members_edited(v: Seq<u64>, id: Option<u16>, gid: Option<u64>) -> Seq<u64> {
    let i = match id {
        Some(i) => i as int,
        None => (v.len() as u16) as int,
    };
    match gid {
        Some(g) => if i >= v.len() {
            v.push(g)
        } else {
            v.update(i, g)
        },
        None => v,
    }
}

/// The page on which member `id` (the next one when none) stands.
pub open spec fn member_page_no(v: Seq<u64>, id: Option<u16>, n: u16) -> u16 {
    let i = match id {
        Some(i) => i,
        None => v.len() as u16,
    };
    (i / n) as u16
}

/// A tag list after the editor's result on tag `id`: the tag renamed, or a
/// tag added past the last.
pub open spec fn tags_edited(names: Seq<Seq<char>>, id: u16, text: Seq<char>) -> Seq<Seq<char>> {
    if (id as int) < names.len() {
        names.update(id as int, text)
    } else {
        names.push(text)
    }
}

/// What the editor's result does after editing from view `prev`.
pub open spec fn edit_in_served<P>(
    o: ForumLogic<P>,
    id: Option<u16>,
    prev: ForumState<P>,
    res: EditorResult,
    gid: Option<u64>,
    f: ForumState<P>,
    e: Seq<ForumEffect<P>>,
) -> bool {
    let n = o.board.entries_count;
    match prev {
        ForumState::Capability(cap, v) => {
            let g = match res {
                EditorResult::Text(_) => gid,
                _ => None,
            };
            let w = members_edited(v@, id, g);
            &&& f matches ForumState::Capability(c2, w2) && c2 == cap && w2@ == w
            &&& e.len() == 1
            &&& e[0] matches ForumEffect::ShowGnomes(c3, l) && c3 == cap && l@ == member_page(
                w,
                n,
                member_page_no(v@, id, n),
            )
        },
        ForumState::MainLobby(pg) => f == ForumState::<P>::MainLobby(pg) && match res {
            EditorResult::Text(t) => e.len() == 1 && (e[0] matches ForumEffect::AppendContent(b)
                && b@ == spec_encode(o.my_id, seq![], t@, false)),
            _ => e.len() == 0,
        },
        ForumState::Settings => match res {
            EditorResult::Text(t) => if id is None {
                f == ForumState::<P>::MainLobby(None) && e.len() == 1 && (e[0] matches ForumEffect::EditDescription(
                    d,
                ) && d@ == t@)
            } else if id == Some(1u16) {
                f == ForumState::<P>::MainLobby(None) && e.len() == 1 && (e[0] matches ForumEffect::AddTag(
                    d,
                ) && d@ == t@)
            } else {
                f == ForumState::<P>::Settings && e.len() == 0
            },
            _ => f == ForumState::<P>::Settings && e.len() == 0,
        },
        ForumState::Topic(c, pg) => f == ForumState::<P>::Topic(c, pg) && match res {
            EditorResult::Text(t) => e.len() == 1 && match id {
                Some(d) => e[0] matches ForumEffect::UpdateData(c2, d2, b) && c2 == c && d2 == d
                    && b@ == spec_encode(o.my_id, seq![], t@, d > 0),
                None => e[0] matches ForumEffect::AppendData(c2, b) && c2 == c && b@ == spec_encode(
                    o.my_id,
                    seq![],
                    t@,
                    true,
                ),
            },
            _ => e.len() == 0,
        },
        ForumState::TopicEditing(c) => {
            let names = match (id, res) {
                (Some(tid), EditorResult::Text(t)) => tags_edited(texts(c.tag_names@), tid, t@),
                _ => texts(c.tag_names@),
            };
            &&& f matches ForumState::TopicEditing(c2) && topic_is(
                c2,
                c.t_id,
                c.description@,
                c.tags@,
                names,
            )
            &&& e.len() == 1
            &&& e[0] matches ForumEffect::OpenCreator(c3) && topic_is(
                c3,
                c.t_id,
                c.description@,
                c.tags@,
                names,
            )
        },
        other => f == other && e.len() == 0,
    }
}

/// What the editor's result does: after an edit it goes back to the view
/// edited from (see `edit_in_served`); a shown post pages or closes back
/// to its topic; a new description goes to the topic being edited; a
/// search text goes to the lobby's first page. `gid` is the gnome id that the typed
/// text names, if any.
pub open spec fn edit_served<P>(
    o: ForumLogic<P>,
    f: ForumState<P>,
    res: EditorResult,
    gid: Option<u64>,
    e: Seq<ForumEffect<P>>,
) -> bool {
    match o.state {
        ForumState::Editing(id, prev) => edit_in_served(o, id, *prev, res, gid, f, e),
        ForumState::ShowingPost(c, p) => match res {
            EditorResult::Close => f == ForumState::<P>::Topic(c, None) && e.len() == 0,
            EditorResult::FirstPage => f == ForumState::<P>::ShowingPost(c, 0) && e == seq![
                ForumEffect::<P>::ReadPagesRange(c, 0, 0),
            ],
            EditorResult::PrevPage => if p == 0 {
                f == ForumState::<P>::Topic(c, None) && e.len() == 0
            } else {
                f == ForumState::<P>::ShowingPost(c, (p - 1) as u16) && e == seq![
                    ForumEffect::<P>::ReadPagesRange(c, (p - 1) as u16, (p - 1) as u16),
                ]
            },
            EditorResult::NextPage => if p == u16::MAX {
                f == ForumState::<P>::Topic(c, None) && e.len() == 0
            } else {
                f == ForumState::<P>::ShowingPost(c, (p + 1) as u16) && e == seq![
                    ForumEffect::<P>::ReadPagesRange(c, (p + 1) as u16, (p + 1) as u16),
                ]
            },
            EditorResult::LastPage => f == ForumState::<P>::ShowingPost(c, u16::MAX) && e == seq![
                ForumEffect::<P>::ReadPagesRange(c, 1, 0),
            ],
            EditorResult::Text(_) => f == ForumState::<P>::Settings && e.len() == 0,
        },
        ForumState::TopicEditing(c) => match res {
            EditorResult::Text(d) => {
                &&& f matches ForumState::TopicEditing(c2) && topic_is(
                    c2,
                    c.t_id,
                    d@,
                    c.tags@,
                    texts(c.tag_names@),
                )
                &&& e.len() == 1
                &&& e[0] matches ForumEffect::OpenCreator(c3) && topic_is(
                    c3,
                    c.t_id,
                    d@,
                    c.tags@,
                    texts(c.tag_names@),
                )
            },
            _ => f == ForumState::<P>::Settings && e.len() == 0,
        },
        ForumState::Filtering => f == ForumState::<P>::MainLobby(Some(0)) && e.len() == 1 && e[0] is ShowTopics,
        _ => f == o.state && e.len() == 0,
    }
}

/// An editor's result reaches the forum in any view but for a capability
/// edited with nothing on its page size.
pub open spec fn edit_allowed<P>(s: ForumState<P>, n: u16) -> bool {
    s matches ForumState::Editing(_, prev) && *prev is Capability ==> n > 0
}

fn edit_capability<P>(cap: u8, v: Vec<u64>, id: Option<u16>, gid: Option<u64>, n: u16) -> (r: (
    ForumState<P>,
    Vec<ForumEffect<P>>,
))
    requires
        n > 0,
    ensures
        r.0 matches ForumState::Capability(c2, w2) && c2 == cap && w2@ == members_edited(v@, id, gid),
        r.1@.len() == 1,
        r.1@[0] matches ForumEffect::ShowGnomes(c3, l) && c3 == cap && l@ == member_page(
            members_edited(v@, id, gid),
            n,
            member_page_no(v@, id, n),
        ),
{
    #[verifier::truncate]
    let next = v.len() as u16;
    let i = match id {
        Some(i) => i,
        None => next,
    };
    let mut w = v;
    match gid {
        Some(g) => {
            if (i as usize) >= w.len() {
                w.push(g);
            } else {
                w.set(i as usize, g);
            }
        },
        None => {},
    }
    let page = member_page_of(&w, n, i / n);
    let mut effects: Vec<ForumEffect<P>> = Vec::new();
    effects.push(ForumEffect::ShowGnomes(cap, page));
    (ForumState::Capability(cap, w), effects)
}

fn edit_topic_tags<P>(c: TopicContext, id: Option<u16>, text: Option<String>) -> (r: (
    ForumState<P>,
    Vec<ForumEffect<P>>,
))
    ensures
        ({
            let names = match (id, text) {
                (Some(tid), Some(t)) => tags_edited(texts(c.tag_names@), tid, t@),
                _ => texts(c.tag_names@),
            };
            &&& r.0 matches ForumState::TopicEditing(c2) && topic_is(
                c2,
                c.t_id,
                c.description@,
                c.tags@,
                names,
            )
            &&& r.1@.len() == 1
            &&& r.1@[0] matches ForumEffect::OpenCreator(c3) && topic_is(
                c3,
                c.t_id,
                c.description@,
                c.tags@,
                names,
            )
        }),
{
    let mut names = c.tag_names;
    match (id, text) {
        (Some(tid), Some(t)) => {
            let ghost before = texts(names@);
            if (tid as usize) < names.len() {
                names.set(tid as usize, t);
                proof {
                    assert(texts(names@) =~= before.update(tid as int, t@));
                }
            } else {
                names.push(t);
                proof {
                    assert(texts(names@) =~= before.push(t@));
                }
            }
        },
        _ => {},
    }
    let kept = TopicContext { t_id: c.t_id, description: c.description, tags: c.tags, tag_names: names };
    let mut effects: Vec<ForumEffect<P>> = Vec::new();
    effects.push(ForumEffect::OpenCreator(copy_topic(&kept)));
    (ForumState::TopicEditing(kept), effects)
}


/// The search text that an editor's result sets: the typed text trimmed,
/// none when that is empty or nothing was typed.
pub open spec fn search_text(res: EditorResult) -> Option<Seq<char>> {
    match res {
        EditorResult::Text(t) => if trimmed(t@).len() == 0 {
            None
        } else {
            Some(trimmed(t@))
        },
        _ => None,
    }
}

impl<P> ForumLogic<P> {
    /// Serves the editor's result (see `edit_served`); `gid` is the gnome
    /// id that the typed text names, if any. While filtering, the search
    /// text is set (see `search_text`), the lobby's pages rebuilt and the
    /// first of them shown.
    pub fn process_edit_result(&mut self, res: EditorResult, gid: Option<u64>) -> (e: Vec<ForumEffect<P>>)
        requires
            old(self).wf(),
            edit_allowed(old(self).state, old(self).board.entries_count),
        ensures
            final(self).wf(),
            !(old(self).state is Filtering) ==> board_kept(old(self).board, final(self).board),
            final(self).board.posts == old(self).board.posts,
            final(self).clipboard_founder == old(self).clipboard_founder,
            final(self).last_heap_msg == old(self).last_heap_msg,
            final(self).my_id == old(self).my_id,
            edit_served(*old(self), final(self).state, res, gid, e@),
            old(self).state is Filtering ==> {
                &&& final(self).board.text() == search_text(res)
                &&& final(self).board.cats() == old(self).board.cats()
                &&& final(self).board.all_topics == old(self).board.all_topics
                &&& final(self).board.entries_count == old(self).board.entries_count
                &&& e@.len() == 1
                &&& e@[0] matches ForumEffect::ShowTopics(pg, ids) && pg == 0 && ids@ == final(self).board.pages()[0]
                &&& crate::board::paged(
                    final(self).board.pages(),
                    crate::board::matching(
                        old(self).board.all_topics@,
                        old(self).board.cats(),
                        search_text(res),
                        (old(self).board.all_topics@.len() % 0x10000) as int,
                    ),
                    old(self).board.entries_count as int,
                )
            },
    {
        let mut st = ForumState::Settings;
        std::mem::swap(&mut st, &mut self.state);
        let n = self.board.entries_count;
        let my_id = self.my_id;
        let (new_state, effects): (ForumState<P>, Vec<ForumEffect<P>>) = match st {
            ForumState::Editing(id, prev) => {
                match *prev {
                    ForumState::Capability(cap, v) => {
                        let g = match res {
                            EditorResult::Text(_) => gid,
                            _ => None,
                        };
                        edit_capability(cap, v, id, g, n)
                    },
                    ForumState::MainLobby(pg) => {
                        let mut effects: Vec<ForumEffect<P>> = Vec::new();
                        match res {
                            EditorResult::Text(t) => {
                                let entry = Entry::new(my_id, Vec::new(), t, 0);
                                effects.push(ForumEffect::AppendContent(entry.into_data(false)));
                            },
                            _ => {},
                        }
                        (ForumState::MainLobby(pg), effects)
                    },
                    ForumState::Settings => {
                        let mut effects: Vec<ForumEffect<P>> = Vec::new();
                        match res {
                            EditorResult::Text(t) => {
                                match id {
                                    None => {
                                        effects.push(ForumEffect::EditDescription(t));
                                        (ForumState::MainLobby(None), effects)
                                    },
                                    Some(1) => {
                                        effects.push(ForumEffect::AddTag(t));
                                        (ForumState::MainLobby(None), effects)
                                    },
                                    Some(_) => (ForumState::Settings, effects),
                                }
                            },
                            _ => (ForumState::Settings, effects),
                        }
                    },
                    ForumState::Topic(c, pg) => {
                        let mut effects: Vec<ForumEffect<P>> = Vec::new();
                        match res {
                            EditorResult::Text(t) => {
                                let entry = Entry::new(my_id, Vec::new(), t, 0);
                                match id {
                                    Some(d) => {
                                        effects.push(ForumEffect::UpdateData(c, d, entry.into_data(d > 0)));
                                    },
                                    None => {
                                        effects.push(ForumEffect::AppendData(c, entry.into_data(true)));
                                    },
                                }
                            },
                            _ => {},
                        }
                        (ForumState::Topic(c, pg), effects)
                    },
                    ForumState::TopicEditing(c) => {
                        let text = match res {
                            EditorResult::Text(t) => Some(t),
                            _ => None,
                        };
                        edit_topic_tags(c, id, text)
                    },
                    other => (other, Vec::new()),
                }
            },
            ForumState::ShowingPost(c, p) => {
                let mut effects: Vec<ForumEffect<P>> = Vec::new();
                match res {
                    EditorResult::Close => (ForumState::Topic(c, None), effects),
                    EditorResult::FirstPage => {
                        effects.push(ForumEffect::ReadPagesRange(c, 0, 0));
                        proof {
                            assert(effects@ =~= seq![ForumEffect::<P>::ReadPagesRange(c, 0, 0)]);
                        }
                        (ForumState::ShowingPost(c, 0), effects)
                    },
                    EditorResult::PrevPage => {
                        if p == 0 {
                            (ForumState::Topic(c, None), effects)
                        } else {
                            effects.push(ForumEffect::ReadPagesRange(c, p - 1, p - 1));
                            proof {
                                assert(effects@ =~= seq![
                                    ForumEffect::<P>::ReadPagesRange(c, (p - 1) as u16, (p - 1) as u16),
                                ]);
                            }
                            (ForumState::ShowingPost(c, p - 1), effects)
                        }
                    },
                    EditorResult::NextPage => {
                        if p == u16::MAX {
                            (ForumState::Topic(c, None), effects)
                        } else {
                            effects.push(ForumEffect::ReadPagesRange(c, p + 1, p + 1));
                            proof {
                                assert(effects@ =~= seq![
                                    ForumEffect::<P>::ReadPagesRange(c, (p + 1) as u16, (p + 1) as u16),
                                ]);
                            }
                            (ForumState::ShowingPost(c, p + 1), effects)
                        }
                    },
                    EditorResult::LastPage => {
                        effects.push(ForumEffect::ReadPagesRange(c, 1, 0));
                        proof {
                            assert(effects@ =~= seq![ForumEffect::<P>::ReadPagesRange(c, 1, 0)]);
                        }
                        (ForumState::ShowingPost(c, u16::MAX), effects)
                    },
                    EditorResult::Text(_) => (ForumState::Settings, effects),
                }
            },
            ForumState::TopicEditing(c) => {
                let mut effects: Vec<ForumEffect<P>> = Vec::new();
                match res {
                    EditorResult::Text(d) => {
                        let kept = TopicContext {
                            t_id: c.t_id,
                            description: d,
                            tags: c.tags,
                            tag_names: c.tag_names,
                        };
                        effects.push(ForumEffect::OpenCreator(copy_topic(&kept)));
                        (ForumState::TopicEditing(kept), effects)
                    },
                    _ => (ForumState::Settings, effects),
                }
            },
            ForumState::Filtering => {
                let filter = match &res {
                    EditorResult::Text(t) => {
                        let tc = trim_chars(&chars_of(t.as_str()));
                        if tc.len() == 0 {
                            None
                        } else {
                            Some(string_of(&tc))
                        }
                    },
                    _ => None,
                };
                self.board.text_filter = filter;
                self.board.filter_topics();
                let mut effects: Vec<ForumEffect<P>> = Vec::new();
                effects.push(ForumEffect::ShowTopics(0, crate::board::copy_ids(&self.board.menu_pages[0])));
                (ForumState::MainLobby(Some(0)), effects)
            },
            other => (other, Vec::new()),
        };
        self.set_state(new_state);
        effects
    }
}


/// The kind of a request that the swarm rejected because a policy was not
/// met: a content appended (of a data type), data appended to a content,
/// data of a content updated, or another request.
#[derive(Debug)]
pub enum Rejected {
    AppendContent(u8),
    AppendData(u16),
    UpdateData(u16, u16),
    Other,
}

/// How a rejected request's bytes are read: the entry's plainness, for the
/// requests that are tried again as pending requests.
pub open spec fn retry_plain(kind: Rejected) -> Option<bool> {
    match kind {
        Rejected::AppendContent(t) => if t == 0 {
            Some(false)
        } else {
            None
        },
        Rejected::AppendData(_) => Some(true),
        Rejected::UpdateData(_, d) => Some(d > 0),
        Rejected::Other => None,
    }
}

/// Retrying a rejected request panics when its entry cannot be read.
pub open spec fn retry_readable(kind: Rejected, data: Seq<u8>) -> bool {
    retry_plain(kind) matches Some(plain) ==> decodable(data, plain) && spec_decode(data, plain) is Some
}

/// The pending request that replaces a rejected one, as the parts of its
/// application message: a topic, a post or an edit whose entry is the one
/// the rejected bytes hold, written again; none for other requests.
pub open spec fn retried(kind: Rejected, data: Seq<u8>) -> Option<(u8, u16, u16, Seq<u8>)> {
    match retry_plain(kind) {
        Some(plain) => {
            let d = spec_decode(data, plain)->0;
            let bytes = spec_encode(d.1, d.0, d.2, plain);
            match kind {
                Rejected::AppendContent(_) => Some((1u8, 0u16, 0u16, bytes)),
                Rejected::AppendData(c) => Some((2u8, c, 0u16, bytes)),
                Rejected::UpdateData(c, p) => Some((0u8, c, p, bytes)),
                Rejected::Other => None,
            }
        },
        None => None,
    }
}

/// The pending request that tries a rejected one again (see `retried`);
/// `hash` is the rejected data's hash.
pub fn retry_rejected(kind: Rejected, data: &Vec<u8>, hash: u64) -> (r: Option<(u8, u16, u16, Vec<u8>)>)
    requires
        retry_readable(kind, data@),
    ensures
        match (r, retried(kind, data@)) {
            (Some(x), Some(y)) => x.0 == y.0 && x.1 == y.1 && x.2 == y.2 && x.3@ == y.3,
            (None, None) => true,
            _ => false,
        },
{
    let msg = match kind {
        Rejected::AppendContent(t) => {
            if t == 0 {
                match Entry::from_data(data, hash, false) {
                    Ok(e) => Some(ForumSyncMessage::AddTopic(0, e)),
                    Err(_) => None,
                }
            } else {
                None
            }
        },
        Rejected::AppendData(c) => match Entry::from_data(data, hash, true) {
            Ok(e) => Some(ForumSyncMessage::AddPost(c, e)),
            Err(_) => None,
        },
        Rejected::UpdateData(c, p) => match Entry::from_data(data, hash, p > 0) {
            Ok(e) => Some(ForumSyncMessage::EditPost(c, p, e)),
            Err(_) => None,
        },
        Rejected::Other => None,
    };
    match msg {
        Some(m) => Some(m.into_app_msg()),
        None => None,
    }
}


/// The message that the parts of an application message are read as:
/// type 0 an edited post, 1 a topic, 2 a post, each with the entry that
/// the data holds and the data's hash.
pub open spec fn parsed_as(m_type: u8, c_id: u16, d_id: u16, data: Seq<u8>, hash: u64, r: ForumSyncMessage) -> bool {
    if m_type == 0 {
        r matches ForumSyncMessage::EditPost(c, d, e) && c == c_id && d == d_id && entry_is(
            e,
            spec_decode(data, d_id > 0),
            hash,
        )
    } else if m_type == 1 {
        r matches ForumSyncMessage::AddTopic(c, e) && c == c_id && entry_is(e, spec_decode(data, false), hash)
    } else if m_type == 2 {
        r matches ForumSyncMessage::AddPost(c, e) && c == c_id && entry_is(e, spec_decode(data, true), hash)
    } else {
        false
    }
}

/// The parts of the application message that carries a forum message (as
/// `into_app_msg` gives them).
pub open spec fn msg_parts(m: ForumSyncMessage) -> (u8, u16, u16, Seq<u8>) {
    match m {
        ForumSyncMessage::EditPost(c, d, e) => (0u8, c, d, spec_encode(e.author, e.tags@, e.text@, d > 0)),
        ForumSyncMessage::AddTopic(c, e) => (1u8, c, 0u16, spec_encode(e.author, e.tags@, e.text@, false)),
        ForumSyncMessage::AddPost(c, e) => (2u8, c, 0u16, spec_encode(e.author, e.tags@, e.text@, true)),
    }
}

/// Whether a message's entry is written without tags.
pub open spec fn msg_plain(m: ForumSyncMessage) -> bool {
    match m {
        ForumSyncMessage::EditPost(_, d, _) => d > 0,
        ForumSyncMessage::AddTopic(_, _) => false,
        ForumSyncMessage::AddPost(_, _) => true,
    }
}

/// A message's entry.
pub open spec fn msg_entry(m: ForumSyncMessage) -> Entry {
    match m {
        ForumSyncMessage::EditPost(_, _, e) => e,
        ForumSyncMessage::AddTopic(_, e) => e,
        ForumSyncMessage::AddPost(_, e) => e,
    }
}

/// Two messages that differ at most in their entries' hashes.
pub open spec fn same_but_hash(a: ForumSyncMessage, b: ForumSyncMessage) -> bool {
    let (ea, eb) = (msg_entry(a), msg_entry(b));
    &&& ea.author == eb.author && ea.tags@ == eb.tags@ && ea.text@ == eb.text@
    &&& match (a, b) {
        (ForumSyncMessage::EditPost(t1, p1, _), ForumSyncMessage::EditPost(t2, p2, _)) => t1 == t2 && p1 == p2,
        (ForumSyncMessage::AddTopic(t1, _), ForumSyncMessage::AddTopic(t2, _)) => t1 == t2,
        (ForumSyncMessage::AddPost(t1, _), ForumSyncMessage::AddPost(t2, _)) => t1 == t2,
        _ => false,
    }
}

/// A forum message written into an application message and read back is
/// the same message, but for its entry's hash, which is the carried
/// data's; this holds for entries of fewer than 256 tags, and for entries
/// written without tags when they have none and some text.
pub proof fn lemma_message_roundtrip(m: ForumSyncMessage, hash: u64, r: ForumSyncMessage)
    requires
        msg_entry(m).tags@.len() < 256,
        msg_plain(m) ==> msg_entry(m).tags@.len() == 0 && msg_entry(m).text@.len() > 0,
        parsed_as(msg_parts(m).0, msg_parts(m).1, msg_parts(m).2, msg_parts(m).3, hash, r),
    ensures
        parts_readable(msg_parts(m).0, msg_parts(m).2, msg_parts(m).3),
        same_but_hash(m, r),
{
    let e = msg_entry(m);
    crate::entry::lemma_entry_roundtrip(e.author, e.tags@, e.text@, msg_plain(m));
    if msg_plain(m) {
        assert(e.tags@ =~= Seq::<u8>::empty());
    }
}


/// Paging forward through a shown post and back again shows the same post
/// (unless the post is the last possible one, from which paging forward
/// closes it).
pub proof fn lemma_post_next_then_prev<P>(
    o1: ForumLogic<P>,
    s1: ForumState<P>,
    g1: Option<u64>,
    e1: Seq<ForumEffect<P>>,
    o2: ForumLogic<P>,
    s2: ForumState<P>,
    g2: Option<u64>,
    e2: Seq<ForumEffect<P>>,
)
    requires
        o1.state matches ForumState::ShowingPost(_, p) && p < u16::MAX,
        edit_served(o1, s1, EditorResult::NextPage, g1, e1),
        o2.state == s1,
        edit_served(o2, s2, EditorResult::PrevPage, g2, e2),
    ensures
        s2 == o1.state,
{
}

/// A post opened from a topic's page and closed again leaves the topic
/// shown, its page to be found anew.
pub proof fn lemma_open_post_then_close<P>(
    o1: ForumLogic<P>,
    s1: ForumLogic<P>,
    id: u16,
    ctx: QueryContext,
    e1: Seq<ForumEffect<P>>,
    s2: ForumState<P>,
    g: Option<u64>,
    e2: Seq<ForumEffect<P>>,
)
    requires
        o1.state matches ForumState::Topic(_, Some(_)),
        id != 0,
        query_served(o1, s1, id, ctx, e1),
        edit_served(s1, s2, EditorResult::Close, g, e2),
    ensures
        o1.state matches ForumState::Topic(c, _) && s2 == ForumState::<P>::Topic(c, None),
        e1.len() == 1 && (e1[0] matches ForumEffect::ReadPagesRange(c, a, b) && a == id && b == id),
{
}


/// Editing entry `id` of a topic's page reads that post: the page's
/// first post plus `id` must be a post number.
pub open spec fn edit_allowed_on<P>(s: ForumState<P>, id: u16, n: u16) -> bool {
    s matches ForumState::Topic(_, Some(pg)) ==> pg * n + id <= u16::MAX
}

/// What accepting the held pending request sends: an edit by the post's
/// author replaces the post, a topic or a post is added; then the request
/// is dropped.
pub open spec fn accepted<P>(msg: Option<(ForumSyncMessage, u64)>, orig: Option<Entry>, e: Seq<ForumEffect<P>>) -> bool {
    &&& e.len() >= 1
    &&& e.last() == ForumEffect::<P>::PopHeap
    &&& match msg {
        Some((ForumSyncMessage::EditPost(t, p, en), signer)) => if orig matches Some(o) && o.author
            == signer {
            e.len() == 2 && (e[0] matches ForumEffect::UpdateData(t2, p2, b) && t2 == t && p2 == p
                && b@ == spec_encode(en.author, en.tags@, en.text@, p > 0))
        } else {
            e.len() == 1
        },
        Some((ForumSyncMessage::AddTopic(_, en), _)) => e.len() == 2 && (e[0] matches ForumEffect::AppendContent(
            b,
        ) && b@ == spec_encode(en.author, en.tags@, en.text@, false)),
        Some((ForumSyncMessage::AddPost(t, en), _)) => e.len() == 2 && (e[0] matches ForumEffect::AppendData(
            t2,
            b,
        ) && t2 == t && b@ == spec_encode(en.author, en.tags@, en.text@, true)),
        None => e.len() == 1,
    }
}

impl<P> ForumLogic<P> {
    /// Serves an edit of entry `id`: a topic's post is read for editing; in
    /// the settings, entry 0 looks at the pending requests and entry 1 adds
    /// a category; a pending request is accepted (see `accepted`). Other
    /// views, and a request accepted, leave the settings shown.
    pub fn edit_action(&mut self, id: u16, author_name: &str) -> (e: Vec<ForumEffect<P>>)
        requires
            old(self).wf(),
            edit_allowed_on(old(self).state, id, old(self).board.entries_count),
        ensures
            final(self).wf(),
            board_kept(old(self).board, final(self).board),
            final(self).board.posts == old(self).board.posts,
            final(self).clipboard_founder == old(self).clipboard_founder,
            final(self).last_heap_msg == old(self).last_heap_msg,
            match old(self).state {
                ForumState::Topic(c, Some(pg)) => {
                    let post = (pg * old(self).board.entries_count + id) as u16;
                    &&& final(self).state == ForumState::Editing(None, Box::new(old(self).state))
                    &&& e@ == seq![ForumEffect::<P>::ReadPagesRange(c, post, post)]
                },
                ForumState::Topic(_, None) => final(self).state == old(self).state && e@.len() == 0,
                ForumState::Settings => if id == 0 {
                    heap_shown(*old(self), *final(self), false, author_name@, e@)
                } else if id == 1 {
                    final(self).state == ForumState::<P>::Editing(
                        Some(1u16),
                        Box::new(ForumState::<P>::Settings),
                    ) && e@.len() == 1
                } else {
                    final(self).state == ForumState::<P>::Settings && e@.len() == 0
                },
                ForumState::HeapSorting(msg, orig) => final(self).state == ForumState::<P>::Settings
                    && accepted(msg, orig, e@),
                _ => final(self).state == ForumState::<P>::Settings && e@.len() == 0,
            },
    {
        let n = self.board.entries_count;
        let mut st = ForumState::Settings;
        std::mem::swap(&mut st, &mut self.state);
        match st {
            ForumState::Topic(c, Some(pg)) => {
                let post = pg * n + id;
                let mut effects: Vec<ForumEffect<P>> = Vec::new();
                effects.push(ForumEffect::ReadPagesRange(c, post, post));
                proof {
                    assert(effects@ =~= seq![ForumEffect::<P>::ReadPagesRange(c, post, post)]);
                }
                self.set_state(ForumState::Editing(None, Box::new(ForumState::Topic(c, Some(pg)))));
                effects
            },
            ForumState::Topic(c, None) => {
                self.set_state(ForumState::Topic(c, None));
                Vec::new()
            },
            ForumState::Settings => {
                self.set_state(ForumState::Settings);
                if id == 0 {
                    self.heap_logic(false, author_name)
                } else if id == 1 {
                    self.add_category()
                } else {
                    Vec::new()
                }
            },
            ForumState::HeapSorting(msg, orig) => {
                let mut effects: Vec<ForumEffect<P>> = Vec::new();
                match &msg {
                    Some((ForumSyncMessage::EditPost(t, p, en), signer)) => {
                        let same_author = match &orig {
                            Some(o) => o.author == *signer,
                            None => false,
                        };
                        if same_author {
                            effects.push(ForumEffect::UpdateData(*t, *p, en.into_data(*p > 0)));
                        }
                    },
                    Some((ForumSyncMessage::AddTopic(_, en), _)) => {
                        effects.push(ForumEffect::AppendContent(en.into_data(false)));
                    },
                    Some((ForumSyncMessage::AddPost(t, en), _)) => {
                        effects.push(ForumEffect::AppendData(*t, en.into_data(true)));
                    },
                    None => {},
                }
                effects.push(ForumEffect::PopHeap);
                self.set_state(ForumState::Settings);
                effects
            },
            _ => {
                self.set_state(ForumState::Settings);
                Vec::new()
            },
        }
    }
}


impl<P> ForumLogic<P> {
    /// Presents the page shown (see `Board::present`); the view follows the
    /// page picked.
    pub fn present(&mut self) -> (r: Option<Listing>)
        requires
            old(self).wf(),
            present_fits(old(self).board),
        ensures
            final(self).wf(),
            lists_kept(old(self).board, final(self).board),
            board_kept(old(self).board, final(self).board),
            final(self).board.posts == old(self).board.posts,
            final(self).my_id == old(self).my_id,
            (final(self).board.view, listing_view(r)) == presented(old(self).board),
            final(self).state == paged_state(old(self).state, final(self).board.view),
            final(self).clipboard_founder == old(self).clipboard_founder,
            final(self).last_heap_msg == old(self).last_heap_msg,
    {
        let r = self.board.present();
        self.follow_board();
        r
    }
}

/// The content that position `which` names for the clipboard: in the
/// lobby on page `pg`, that page's entry counted from the first topic; in
/// a topic, the topic; elsewhere `which` itself.
pub open spec fn clipboard_content<P>(s: ForumState<P>, n: u16, which: u16) -> int {
    match s {
        ForumState::MainLobby(Some(pg)) => pg * n + which,
        ForumState::Topic(t, _) => t as int,
        _ => which as int,
    }
}

impl<P> ForumLogic<P> {
    /// Puts a content of the swarm founded by `swarm_founder` on the
    /// clipboard (see `clipboard_content`) and tells which.
    pub fn copy_to_clipboard(&mut self, swarm_founder: u64, which: u16) -> (c_id: u16)
        requires
            clipboard_content(old(self).state, old(self).board.entries_count, which) <= u16::MAX,
        ensures
            final(self).clipboard_founder == Some(swarm_founder),
            c_id == clipboard_content(old(self).state, old(self).board.entries_count, which),
            final(self).state == old(self).state,
            final(self).board == old(self).board,
            final(self).my_id == old(self).my_id,
            final(self).last_heap_msg == old(self).last_heap_msg,
    {
        self.clipboard_founder = Some(swarm_founder);
        match &self.state {
            ForumState::MainLobby(Some(pg)) => *pg * self.board.entries_count + which,
            ForumState::Topic(t, _) => *t,
            _ => which,
        }
    }

    /// The swarm whose catalog following a link to swarm (`founder`,
    /// `name`) opens: this gnome's own swarm of that name when the link
    /// names any gnome.
    pub fn link_swarm(&self, founder: u64, name: String) -> (r: (u64, String))
        ensures
            r.0 == if founder == self.board.any_author {
                self.my_id
            } else {
                founder
            },
            r.1@ == name@,
    {
        if founder == self.board.any_author {
            (self.my_id, name)
        } else {
            (founder, name)
        }
    }
}

/// The applications the client runs on a swarm.
#[derive(Clone, Copy, Debug, PartialEq, Eq, Structural)]
pub enum AppKind {
    Catalog,
    Forum,
}

/// A message of the forum's screen about leaving or the clipboard: quit,
/// switch to an application on a swarm (its founder and name), follow a
/// link to a swarm (its founder and name) and a content's page, or copy
/// position `which` of a swarm (its founder) to the clipboard.
#[derive(Debug)]
pub enum ViewMsg {
    Quit,
    SwitchTo(AppKind, u64, String),
    FollowLink(u64, String, u16, u16),
    CopyToClipboard(u16, u64),
}

/// A clipboard copy fits the content ids.
pub open spec fn view_msg_allowed<P>(f: ForumLogic<P>, m: ViewMsg) -> bool {
    m matches ViewMsg::CopyToClipboard(w, _) ==> clipboard_content(f.state, f.board.entries_count, w) <= u16::MAX
}

impl<P> ForumLogic<P> {
    /// Serves a message of the screen (see `ViewMsg`): whether the forum
    /// ends, where it goes then, and what the screen is told. Quit, switch
    /// and a link end it: nowhere on quit, the application and swarm asked
    /// for, or the catalog of the link's swarm (see `link_swarm`), the
    /// screen being told to finish; a copy puts the content on the
    /// clipboard (see `copy_to_clipboard`) and the forum goes on.
    pub fn serve_view_msg(&mut self, m: ViewMsg) -> (r: (bool, Option<(AppKind, u64, String)>, Vec<
        ForumEffect<P>,
    >))
        requires
            view_msg_allowed(*old(self), m),
        ensures
            r.0 == !(m is CopyToClipboard),
            final(self).state == old(self).state,
            final(self).board == old(self).board,
            final(self).my_id == old(self).my_id,
            final(self).last_heap_msg == old(self).last_heap_msg,
            match m {
                ViewMsg::Quit => r.1 is None && r.2@.len() == 0 && final(self).clipboard_founder
                    == old(self).clipboard_founder,
                ViewMsg::SwitchTo(a, f, n) => r.1 matches Some((a2, f2, n2)) && a2 == a && f2 == f && n2@ == n@
                    && r.2@.len() == 0 && final(self).clipboard_founder == old(self).clipboard_founder,
                ViewMsg::FollowLink(f, n, _, _) => r.1 matches Some((a2, f2, n2)) && a2 == AppKind::Catalog && f2
                    == (if f == old(self).board.any_author {
                    old(self).my_id
                } else {
                    f
                }) && n2@ == n@ && r.2@ == seq![ForumEffect::<P>::Finish] && final(self).clipboard_founder
                    == old(self).clipboard_founder,
                ViewMsg::CopyToClipboard(_, f) => r.1 is None && r.2@.len() == 0 && final(self).clipboard_founder
                    == Some(f),
            },
    {
        let mut e: Vec<ForumEffect<P>> = Vec::new();
        match m {
            ViewMsg::Quit => (true, None, e),
            ViewMsg::SwitchTo(a, f, n) => (true, Some((a, f, n)), e),
            ViewMsg::FollowLink(f, n, _, _) => {
                let (f2, n2) = self.link_swarm(f, n);
                e.push(ForumEffect::Finish);
                (true, Some((AppKind::Catalog, f2, n2)), e)
            },
            ViewMsg::CopyToClipboard(which, f) => {
                self.copy_to_clipboard(f, which);
                (false, None, e)
            },
        }
    }
}

/// The type of a content's data: forum data of some kind, or a link.
#[derive(Clone, Copy, Debug, PartialEq, Eq, Structural)]
pub enum DataKind {
    Data(u8),
    Link,
}

/// Whether the post at `i` of the pages read from `start` is written plain:
/// all but a topic's first post.
pub open spec fn page_plain(start: u16, i: int) -> bool {
    i + start > 0
}

/// The pages of a topic's posts read from `start` can be taken in: each
/// holds an entry, and each post number fits 16 bits.
pub open spec fn posts_readable(pages: Seq<(Vec<u8>, u64)>, start: u16) -> bool {
    &&& start + pages.len() <= u16::MAX + 1
    &&& forall|i: int|
        0 <= i < pages.len() ==> decodable(#[trigger] pages[i].0@, page_plain(start, i)) && spec_decode(
            pages[i].0@,
            page_plain(start, i),
        ) is Some
}

/// The posts after the pages read from `start` are taken in: each read
/// entry stands at its post number, the others are kept, and the gaps are
/// placeholders.
pub open spec fn posts_taken(old: Seq<Entry>, new: Seq<Entry>, pages: Seq<(Vec<u8>, u64)>, start: u16, any: u64) -> bool {
    let end = start + pages.len();
    &&& new.len() == if pages.len() == 0 || end <= old.len() { old.len() as int } else { end }
    &&& forall|i: int|
        0 <= i < new.len() ==> {
            if start <= i < end {
                entry_is(
                    #[trigger] new[i],
                    spec_decode(pages[i - start].0@, page_plain(start, i - start)),
                    pages[i - start].1,
                )
            } else if i < old.len() {
                new[i] == old[i]
            } else {
                is_placeholder_entry(new[i], any)
            }
        }
}

/// A placeholder entry by `any`.
pub open spec fn is_placeholder_entry(e: Entry, any: u64) -> bool {
    crate::board::is_placeholder(e, any)
}

/// The entry that page bytes hold, read plain or not.
fn read_entry(page: &(Vec<u8>, u64), plain: bool) -> (e: Entry)
    requires
        decodable(page.0@, plain),
        spec_decode(page.0@, plain) is Some,
    ensures
        entry_is(e, spec_decode(page.0@, plain), page.1),
{
    match Entry::from_data(&page.0, page.1, plain) {
        Ok(e) => e,
        Err(_) => Entry::empty(0),
    }
}

impl<P> ForumLogic<P> {
    /// Takes in a topic's posts read from `start` (see `posts_taken`).
    fn take_posts(&mut self, pages: &Vec<(Vec<u8>, u64)>, start: u16)
        requires
            old(self).wf(),
            posts_readable(pages@, start),
        ensures
            final(self).wf(),
            final(self).state == old(self).state,
            final(self).board.all_topics == old(self).board.all_topics,
            final(self).board.pages() == old(self).board.pages(),
            final(self).board.entries_count == old(self).board.entries_count,
            final(self).board.entry_max_len == old(self).board.entry_max_len,
            final(self).board.any_author == old(self).board.any_author,
            final(self).board.category_filter == old(self).board.category_filter,
            final(self).board.text_filter == old(self).board.text_filter,
            final(self).clipboard_founder == old(self).clipboard_founder,
            final(self).last_heap_msg == old(self).last_heap_msg,
            posts_taken(old(self).board.posts@, final(self).board.posts@, pages@, start, old(self).board.any_author),
    {
        let ghost old_posts = self.board.posts@;
        let any = self.board.any_author;
        let mut i: usize = 0;
        while i < pages.len()
            invariant
                i <= pages@.len(),
                self.wf(),
                self.state == old(self).state,
                self.board.all_topics == old(self).board.all_topics,
                self.board.pages() == old(self).board.pages(),
                self.board.entries_count == old(self).board.entries_count,
                self.board.entry_max_len == old(self).board.entry_max_len,
                self.board.any_author == any,
                any == old(self).board.any_author,
                self.board.category_filter == old(self).board.category_filter,
                self.board.text_filter == old(self).board.text_filter,
                self.clipboard_founder == old(self).clipboard_founder,
                self.last_heap_msg == old(self).last_heap_msg,
                posts_readable(pages@, start),
                old_posts == old(self).board.posts@,
                posts_taken(old_posts, self.board.posts@, pages@.subrange(0, i as int), start, any),
            decreases pages@.len() - i,
        {
            let e = read_entry(&pages[i], (i as u64) + (start as u64) > 0);
            let ghost before = self.board.posts@;
            self.board.update_post(start as usize + i, e);
            proof {
                let done = pages@.subrange(0, i + 1);
                assert forall|k: int| 0 <= k < done.len() implies done[k] == pages@[k] by {}
                assert(posts_taken(old_posts, self.board.posts@, done, start, any));
            }
            i = i + 1;
        }
        proof {
            assert(pages@.subrange(0, pages@.len() as int) =~= pages@);
        }
    }
}


/// The text of the entry that page bytes hold.
pub open spec fn page_text(page: (Vec<u8>, u64), plain: bool) -> Seq<char> {
    match spec_decode(page.0@, plain) {
        Some(d) => d.2,
        None => seq![],
    }
}

/// A page that holds an entry when read plain or not.
pub open spec fn page_readable(page: (Vec<u8>, u64), plain: bool) -> bool {
    decodable(page.0@, plain) && spec_decode(page.0@, plain) is Some
}

/// Taking in read pages panics when the view needs an entry that the
/// pages do not hold, or a page number that cannot be worked out.
pub open spec fn content_allowed<P>(o: ForumLogic<P>, c_id: u16, start: u16, pages: Seq<(Vec<u8>, u64)>) -> bool {
    pages.len() > 0 ==> match o.state {
        ForumState::MainLobby(Some(mp)) => mp < o.board.menu_pages@.len(),
        ForumState::Topic(t, pg) => c_id == t ==> posts_readable(pages, start) && (pg is None ==> o.board.entries_count > 0),
        ForumState::ShowingPost(t, p) => c_id == t && (start == p || p == u16::MAX) ==> page_readable(pages[0], p > 0),
        ForumState::Editing(None, _) => page_readable(pages[0], start > 0),
        ForumState::HeapSorting(Some(_), _) => page_readable(pages[0], start > 0),
        ForumState::TopicEditing(c) => match c.t_id {
            Some(t) => start == 0 ==> page_readable(pages[0], t == 0),
            None => true,
        },
        _ => true,
    }
}

/// What read pages of content `c_id` from `start` do in each view, once
/// the topic's header is taken in (`changed` says whether its line
/// changed): the lobby presents its page when the changed topic is on it;
/// the topic shown takes in its posts; a shown post opens in the editor;
/// a post to edit opens in the editor; the original of an edited post is
/// listed beside the edit; a topic's description opens in the editor.
pub open spec fn content_served<P>(
    o: ForumLogic<P>,
    f: ForumLogic<P>,
    c_id: u16,
    start: u16,
    pages: Seq<(Vec<u8>, u64)>,
    changed: bool,
    e: Seq<ForumEffect<P>>,
) -> bool {
    match o.state {
        ForumState::MainLobby(pg) => {
            let visible = match pg {
                Some(mp) => f.board.pages()[mp as int].contains(c_id),
                None => false,
            };
            &&& f.state == o.state
            &&& f.board.posts == o.board.posts
            &&& if changed && visible {
                e == seq![ForumEffect::<P>::Present]
            } else {
                e.len() == 0
            }
        },
        ForumState::Topic(t, _) => f.state == o.state && e.len() == 0 && if c_id == t {
            posts_taken(o.board.posts@, f.board.posts@, pages, start, o.board.any_author)
        } else {
            f.board.posts == o.board.posts
        },
        ForumState::ShowingPost(t, p) => f.board.posts == o.board.posts && if c_id == t && (start == p
            || p == u16::MAX) {
            &&& f.state == ForumState::<P>::ShowingPost(t, start)
            &&& e.len() == 1
            &&& e[0] matches ForumEffect::OpenEditor(x) && params_are(
                x,
                "Topic #"@ + decimal(t as nat) + ", Post #"@ + decimal(start as nat),
                Some(page_text(pages[0], p > 0)),
                true,
                None,
                None,
                true,
            )
        } else {
            f.state == ForumState::<P>::Settings && e.len() == 0
        },
        ForumState::Editing(what, prev) => f.board.posts == o.board.posts && if what is None {
            &&& f.state == ForumState::<P>::Editing(Some(start), prev)
            &&& e.len() == 1
            &&& e[0] matches ForumEffect::OpenEditor(x) && params_are(
                x,
                "Editing Post #"@ + decimal(start as nat),
                Some(page_text(pages[0], start > 0)),
                true,
                None,
                Some(1000u16),
                false,
            )
        } else {
            f.state == ForumState::<P>::Editing(None, prev) && e.len() == 0
        },
        ForumState::HeapSorting(Some((msg, sign)), _) => {
            let d = spec_decode(pages[0].0@, start > 0);
            &&& f.board.posts == o.board.posts
            &&& f.state matches ForumState::HeapSorting(Some((m2, s2)), Some(x)) && m2 == msg && s2
                == sign && entry_is(x, d, pages[0].1)
            &&& match msg {
                ForumSyncMessage::EditPost(t, p, new) => if t == c_id && p == start {
                    e.len() == 1 && (e[0] matches ForumEffect::RequestEntries(l) && l@.len() == 2 && l@[0].0
                        == 0 && entry_is(l@[0].1, d, pages[0].1) && l@[1].0 == 1 && same_entry(
                        l@[1].1,
                        new,
                    ))
                } else {
                    e.len() == 0
                },
                _ => e.len() == 0,
            }
        },
        ForumState::TopicEditing(c) => f.board.posts == o.board.posts && match c.t_id {
            Some(t) => if start == 0 {
                &&& f.state == o.state
                &&& e.len() == 1
                &&& e[0] matches ForumEffect::OpenEditor(x) && params_are(
                    x,
                    "Edit Description for CID"@ + decimal(t as nat),
                    Some(page_text(pages[0], t == 0)),
                    true,
                    None,
                    Some(if t == 0 {
                        1000u16
                    } else {
                        800u16
                    }),
                    false,
                )
            } else {
                f.state == ForumState::<P>::Settings && e.len() == 0
            },
            None => f.state == ForumState::<P>::Settings && e.len() == 0,
        },
        _ => f.state == o.state && f.board.posts == o.board.posts && e.len() == 0,
    }
}

fn contains_id(v: &Vec<u16>, x: u16) -> (r: bool)
    ensures
        r == v@.contains(x),
{
    let mut i: usize = 0;
    while i < v.len()
        invariant
            i <= v@.len(),
            forall|k: int| 0 <= k < i ==> v@[k] != x,
        decreases v@.len() - i,
    {
        if v[i] == x {
            proof {
                assert(v@[i as int] == x);
            }
            return true;
        }
        i = i + 1;
    }
    false
}

fn titled(label: &str, a: u64, more: &str, b: Option<u64>) -> (s: String)
    ensures
        s@ == match b {
            Some(x) => label@ + decimal(a as nat) + more@ + decimal(x as nat),
            None => label@ + decimal(a as nat),
        },
{
    let mut v: Vec<char> = Vec::new();
    push_str(&mut v, label);
    push_decimal(&mut v, a);
    match b {
        Some(x) => {
            push_str(&mut v, more);
            push_decimal(&mut v, x);
        },
        None => {},
    }
    proof {
        assert(v@ =~= match b {
            Some(x) => label@ + decimal(a as nat) + more@ + decimal(x as nat),
            None => label@ + decimal(a as nat),
        });
    }
    string_of(&v)
}

impl<P> ForumLogic<P> {
    /// Decides what read pages of content `c_id` from `start` do in the view
    /// shown (see `content_served`).
    fn content_step(&mut self, c_id: u16, start: u16, pages: &Vec<(Vec<u8>, u64)>, changed: bool) -> (e: Vec<
        ForumEffect<P>,
    >)
        requires
            old(self).wf(),
            pages@.len() > 0,
            content_allowed(*old(self), c_id, start, pages@),
        ensures
            final(self).wf(),
            final(self).board.all_topics == old(self).board.all_topics,
            final(self).board.pages() == old(self).board.pages(),
            final(self).board.entries_count == old(self).board.entries_count,
            final(self).board.entry_max_len == old(self).board.entry_max_len,
            final(self).board.any_author == old(self).board.any_author,
            final(self).board.category_filter == old(self).board.category_filter,
            final(self).board.text_filter == old(self).board.text_filter,
            final(self).clipboard_founder == old(self).clipboard_founder,
            final(self).last_heap_msg == old(self).last_heap_msg,
            content_served(*old(self), *final(self), c_id, start, pages@, changed, e@),
    {
        let mut effects: Vec<ForumEffect<P>> = Vec::new();
        let mut st = ForumState::Settings;
        std::mem::swap(&mut st, &mut self.state);
        let new_state = match st {
            ForumState::MainLobby(pg) => {
                if changed {
                    match pg {
                        Some(mp) => {
                            if contains_id(&self.board.menu_pages[mp as usize], c_id) {
                                effects.push(ForumEffect::Present);
                                proof {
                                    assert(effects@ =~= seq![ForumEffect::<P>::Present]);
                                }
                            }
                        },
                        None => {},
                    }
                }
                ForumState::MainLobby(pg)
            },
            ForumState::Topic(t, pg) => {
                if c_id == t {
                    self.set_state(ForumState::Topic(t, pg));
                    self.take_posts(pages, start);
                }
                ForumState::Topic(t, pg)
            },
            ForumState::ShowingPost(t, p) => {
                if c_id == t && (start == p || p == u16::MAX) {
                    let e = read_entry(&pages[0], p > 0);
                    let title = titled("Topic #", t as u64, ", Post #", Some(start as u64));
                    effects.push(ForumEffect::OpenEditor(EditorParams {
                        title,
                        initial_text: Some(e.text),
                        allow_newlines: true,
                        chars_limit: None,
                        text_limit: None,
                        read_only: true,
                    }));
                    ForumState::ShowingPost(t, start)
                } else {
                    ForumState::Settings
                }
            },
            ForumState::Editing(what, prev) => {
                match what {
                    None => {
                        let e = read_entry(&pages[0], start > 0);
                        let title = titled("Editing Post #", start as u64, "", None);
                        effects.push(ForumEffect::OpenEditor(EditorParams {
                            title,
                            initial_text: Some(e.text),
                            allow_newlines: true,
                            chars_limit: None,
                            text_limit: Some(1000),
                            read_only: false,
                        }));
                        ForumState::Editing(Some(start), prev)
                    },
                    Some(_) => ForumState::Editing(None, prev),
                }
            },
            ForumState::HeapSorting(Some((msg, sign)), eo) => {
                let orig = read_entry(&pages[0], start > 0);
                match &msg {
                    ForumSyncMessage::EditPost(t, p, new) => {
                        if *t == c_id && *p == start {
                            let mut l: Vec<(u16, Entry)> = Vec::new();
                            l.push((0, copy_entry(&orig)));
                            l.push((1, copy_entry(new)));
                            effects.push(ForumEffect::RequestEntries(l));
                        }
                    },
                    _ => {},
                }
                ForumState::HeapSorting(Some((msg, sign)), Some(orig))
            },
            ForumState::TopicEditing(c) => {
                match c.t_id {
                    Some(t) => {
                        if start == 0 {
                            let e = read_entry(&pages[0], t == 0);
                            let title = titled("Edit Description for CID", t as u64, "", None);
                            effects.push(ForumEffect::OpenEditor(EditorParams {
                                title,
                                initial_text: Some(e.text),
                                allow_newlines: true,
                                chars_limit: None,
                                text_limit: Some(if t == 0 { 1000 } else { 800 }),
                                read_only: false,
                            }));
                            ForumState::TopicEditing(c)
                        } else {
                            ForumState::Settings
                        }
                    },
                    None => ForumState::Settings,
                }
            },
            other => other,
        };
        self.set_state(new_state);
        effects
    }
}


/// Whether the header's line differs from the line that topic `c_id`
/// showed before: its text's line of `max` characters, or its author.
pub open spec fn header_changed(old: Seq<Entry>, c_id: int, text: Seq<char>, author: u64, max: int, any: u64) -> bool {
    line_text(text, max - 21) != line_text(shown_before(old, c_id, any).0, max - 21) || author
        != shown_before(old, c_id, any).1
}

/// The lobby's pages after they are made to list topic ids up to `t` (see
/// `Board::extend_main_pages_until`).
pub open spec fn lobby_extended(old: Seq<Seq<u16>>, new: Seq<Seq<u16>>, included: int, t: u16) -> bool {
    &&& t < included ==> new == old
    &&& t >= included ==> new.flatten() == old.flatten() + crate::board::id_range(included, t as int)
    &&& new.len() >= old.len()
    &&& forall|k: int| 0 <= k < old.len() - 1 ==> #[trigger] new[k] == old[k]
}

/// Taking in read pages panics when the topic's header is missing, or the
/// lobby's pages cannot be extended.
pub open spec fn header_allowed<P>(o: ForumLogic<P>, c_id: u16, start: u16, pages: Seq<(Vec<u8>, u64)>) -> bool {
    pages.len() > 0 && start == 0 ==> {
        &&& page_readable(pages[0], c_id == 0)
        &&& (o.board.category_filter is None && o.board.text_filter is None) ==> {
            &&& 1 <= o.board.menu_pages@.len() <= u16::MAX
            &&& o.board.included() <= u16::MAX
        }
    }
}

impl<P> ForumLogic<P> {
    /// Takes in a topic's header (see `header_changed` and
    /// `lobby_extended`).
    fn take_header(&mut self, c_id: u16, page: &(Vec<u8>, u64)) -> (changed: bool)
        requires
            old(self).wf(),
            page_readable(*page, c_id == 0),
            (old(self).board.category_filter is None && old(self).board.text_filter is None) ==> {
                &&& 1 <= old(self).board.menu_pages@.len() <= u16::MAX
                &&& old(self).board.included() <= u16::MAX
            },
        ensures
            final(self).wf(),
            final(self).state == old(self).state,
            final(self).board.posts == old(self).board.posts,
            final(self).board.entries_count == old(self).board.entries_count,
            final(self).board.entry_max_len == old(self).board.entry_max_len,
            final(self).board.any_author == old(self).board.any_author,
            final(self).board.category_filter == old(self).board.category_filter,
            final(self).board.text_filter == old(self).board.text_filter,
            final(self).clipboard_founder == old(self).clipboard_founder,
            final(self).last_heap_msg == old(self).last_heap_msg,
            padded_with(old(self).board.all_topics@, final(self).board.all_topics@, c_id as int, old(self).board.any_author),
            entry_is(final(self).board.all_topics@[c_id as int], spec_decode(page.0@, c_id == 0), page.1),
            ({
                let d = spec_decode(page.0@, c_id == 0)->0;
                changed == header_changed(
                    old(self).board.all_topics@,
                    c_id as int,
                    d.2,
                    d.1,
                    old(self).board.entry_max_len as int,
                    old(self).board.any_author,
                )
            }),
            if old(self).board.category_filter is None && old(self).board.text_filter is None {
                lobby_extended(old(self).board.pages(), final(self).board.pages(), old(self).board.included(), c_id)
            } else {
                final(self).board.pages() == old(self).board.pages()
            },
    {
        let header = read_entry(page, c_id == 0);
        let changed = self.board.update_topic(c_id as usize, header);
        let no_filter = match (&self.board.category_filter, &self.board.text_filter) {
            (None, None) => true,
            _ => false,
        };
        if no_filter {
            self.board.extend_main_pages_until(c_id);
        }
        changed
    }

    /// Takes in the pages of content `c_id` read from `start`: forum data
    /// of the topic kind with a first page of at least 9 bytes updates the
    /// topic's header (from the first page) and then acts in the view
    /// shown (see `content_served`); other data is ignored.
    pub fn process_content(&mut self, c_id: u16, kind: DataKind, start: u16, pages: Vec<(Vec<u8>, u64)>) -> (e: Vec<
        ForumEffect<P>,
    >)
        requires
            old(self).wf(),
            kind == DataKind::Data(0) && pages@.len() > 0 && pages@[0].0@.len() >= 9 ==> {
                &&& header_allowed(*old(self), c_id, start, pages@)
                &&& content_allowed(*old(self), c_id, start, pages@)
            },
        ensures
            final(self).wf(),
            final(self).board.entries_count == old(self).board.entries_count,
            final(self).board.entry_max_len == old(self).board.entry_max_len,
            final(self).board.any_author == old(self).board.any_author,
            final(self).board.category_filter == old(self).board.category_filter,
            final(self).board.text_filter == old(self).board.text_filter,
            final(self).clipboard_founder == old(self).clipboard_founder,
            final(self).last_heap_msg == old(self).last_heap_msg,
            if kind == DataKind::Data(0) && pages@.len() > 0 && pages@[0].0@.len() >= 9 {
                &&& start == 0 ==> padded_with(
                    old(self).board.all_topics@,
                    final(self).board.all_topics@,
                    c_id as int,
                    old(self).board.any_author,
                ) && entry_is(final(self).board.all_topics@[c_id as int], spec_decode(pages@[0].0@, c_id == 0), pages@[0].1)
                &&& start != 0 ==> final(self).board.all_topics == old(self).board.all_topics
                    && final(self).board.pages() == old(self).board.pages()
                &&& start == 0 && old(self).board.category_filter is None && old(self).board.text_filter
                    is None ==> lobby_extended(
                    old(self).board.pages(),
                    final(self).board.pages(),
                    old(self).board.included(),
                    c_id,
                )
                &&& start == 0 && !(old(self).board.category_filter is None && old(self).board.text_filter
                    is None) ==> final(self).board.pages() == old(self).board.pages()
                &&& content_served(
                    *old(self),
                    *final(self),
                    c_id,
                    start,
                    pages@,
                    start == 0 && {
                        let d = spec_decode(pages@[0].0@, c_id == 0)->0;
                        header_changed(
                            old(self).board.all_topics@,
                            c_id as int,
                            d.2,
                            d.1,
                            old(self).board.entry_max_len as int,
                            old(self).board.any_author,
                        )
                    },
                    e@,
                )
            } else {
                &&& final(self).state == old(self).state
                &&& final(self).board.all_topics == old(self).board.all_topics
                &&& final(self).board.posts == old(self).board.posts
                &&& final(self).board.pages() == old(self).board.pages()
                &&& e@.len() == 0
            },
    {
        let topic_data = match kind {
            DataKind::Data(t) => t == 0,
            DataKind::Link => false,
        };
        if !topic_data || pages.len() == 0 || pages[0].0.len() < 9 {
            return Vec::new();
        }
        let changed = if start == 0 {
            self.take_header(c_id, &pages[0])
        } else {
            false
        };
        self.content_step(c_id, start, &pages, changed)
    }
}


/// The line that lists the forum's description: its first line, cut to
/// 64 characters and trimmed; a note when there is no description.
pub open spec fn manifest_line(desc: Seq<char>) -> Seq<char> {
    if desc.len() == 0 {
        "Manifest: no description"@
    } else {
        let first = crate::chars::spec_lines(desc)[0];
        trimmed(if first.len() <= 64 {
            first
        } else {
            first.subrange(0, 64)
        })
    }
}

impl<P> ForumLogic<P> {
    /// Takes in the forum's manifest: the first post shows the line of its
    /// description (by the founder), and topic 0 holds the description.
    pub fn process_manifest(&mut self, description: String, founder: u64) -> (changed: bool)
        requires
            old(self).wf(),
        ensures
            final(self).wf(),
            final(self).state == old(self).state,
            final(self).board.entries_count == old(self).board.entries_count,
            final(self).board.entry_max_len == old(self).board.entry_max_len,
            final(self).board.any_author == old(self).board.any_author,
            final(self).board.pages() == old(self).board.pages(),
            final(self).clipboard_founder == old(self).clipboard_founder,
            final(self).last_heap_msg == old(self).last_heap_msg,
            final(self).board.posts@.len() == if old(self).board.posts@.len() == 0 {
                1
            } else {
                old(self).board.posts@.len()
            },
            forall|i: int| 1 <= i < final(self).board.posts@.len() ==> #[trigger] final(self).board.posts@[i] == old(self).board.posts@[i],
            final(self).board.posts@[0].author == founder,
            final(self).board.posts@[0].tags@.len() == 0,
            final(self).board.posts@[0].text@ == manifest_line(description@),
            final(self).board.posts@[0].hash == 0,
            padded_with(old(self).board.all_topics@, final(self).board.all_topics@, 0, old(self).board.any_author),
            final(self).board.all_topics@[0].author == founder,
            final(self).board.all_topics@[0].tags@.len() == 0,
            final(self).board.all_topics@[0].text@ == description@,
            changed == header_changed(
                old(self).board.all_topics@,
                0,
                description@,
                founder,
                old(self).board.entry_max_len as int,
                old(self).board.any_author,
            ),
    {
        let chars = chars_of(description.as_str());
        let line: Vec<char> = if chars.len() == 0 {
            chars_of("Manifest: no description")
        } else {
            let ls = crate::chars::split_lines(&chars);
            proof {
                assert(ls@.map_values(|l: Vec<char>| l@).len() == ls@.len());
                assert(crate::chars::spec_lines(chars@).len() > 0);
                assert(ls@.map_values(|l: Vec<char>| l@)[0] == ls@[0]@);
            }
            let first = &ls[0];
            let mut cut: Vec<char> = Vec::new();
            let mut i: usize = 0;
            while i < first.len() && i < 64
                invariant
                    i <= first@.len(),
                    i <= 64,
                    cut@ == first@.subrange(0, i as int),
                decreases first@.len() - i,
            {
                cut.push(first[i]);
                i = i + 1;
                proof {
                    assert(cut@ =~= first@.subrange(0, i as int));
                }
            }
            proof {
                if first@.len() <= 64 {
                    assert(cut@ =~= first@);
                }
            }
            trim_chars(&cut)
        };
        let desc = Entry::new(founder, Vec::new(), string_of(&line), 0);
        if self.board.posts.len() == 0 {
            self.board.posts.push(desc);
        } else {
            self.board.posts.set(0, desc);
        }
        let entry = Entry::new(founder, Vec::new(), description, 0);
        self.board.update_topic(0, entry)
    }
}


/// Re-reading the shown page of a changed topic needs its post numbers to
/// fit 16 bits.
pub open spec fn reread_allowed<P>(s: ForumState<P>, c_id: u16, n: u16) -> bool {
    match s {
        ForumState::Topic(t, Some(pg)) => t == c_id ==> pg * n + n <= u16::MAX && pg * n + n >= 1,
        _ => true,
    }
}

impl<P> ForumLogic<P> {
    /// A content changed and its first page did not come along: the
    /// manifest (content 0) is read again, and so is the page of posts
    /// shown when the changed content is the topic shown.
    pub fn content_changed(&self, c_id: u16) -> (e: Vec<ForumEffect<P>>)
        requires
            reread_allowed(self.state, c_id, self.board.entries_count),
        ensures
            ({
                let n = self.board.entries_count;
                let manifest = if c_id == 0 {
                    seq![ForumEffect::<P>::ReadAllPages(0)]
                } else {
                    seq![]
                };
                let page = match self.state {
                    ForumState::Topic(t, Some(pg)) => if t == c_id {
                        seq![ForumEffect::<P>::ReadPagesRange(c_id, (pg * n) as u16, (pg * n + n - 1) as u16)]
                    } else {
                        seq![]
                    },
                    _ => seq![],
                };
                e@ == manifest + page
            }),
    {
        let n = self.board.entries_count;
        let mut effects: Vec<ForumEffect<P>> = Vec::new();
        if c_id == 0 {
            effects.push(ForumEffect::ReadAllPages(0));
        }
        let ghost first = effects@;
        match &self.state {
            ForumState::Topic(t, Some(pg)) => {
                if *t == c_id {
                    let p = *pg;
                    proof {
                        assert(p * n + n <= u16::MAX && p * n + n >= 1);
                        assert(p * n >= 0) by (nonlinear_arith);
                        assert(n == 0 ==> p * n == 0) by (nonlinear_arith);
                    }
                    effects.push(ForumEffect::ReadPagesRange(c_id, p * n, p * n + n - 1));
                }
            },
            _ => {},
        }
        proof {
            let manifest = if c_id == 0 {
                seq![ForumEffect::<P>::ReadAllPages(0)]
            } else {
                seq![]
            };
            assert(first =~= manifest);
            let page = match self.state {
                ForumState::Topic(t, Some(pg)) => if t == c_id {
                    seq![ForumEffect::<P>::ReadPagesRange(c_id, (pg * n) as u16, (pg * n + n - 1) as u16)]
                } else {
                    seq![]
                },
                _ => seq![],
            };
            assert(effects@ =~= manifest + page);
        }
        effects
    }
}

} // verus!
