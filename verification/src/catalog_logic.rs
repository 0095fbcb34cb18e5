//! The catalog's decisions: the content creator's context, what a content's
//! first page holds when it is created or changed, and how the catalog's
//! window answers each event from the swarm and from the screen.
use crate::catalog::{
    contents_of, copy_names, fresh_tags, listed_tags, lost_tags, tag_ring, tag_rings, tagged, items_view, names, turn_ring_down, turn_ring_up, turned_down, turned_up, Listed,
    SwarmShell,
};
use crate::forum::push_decimal;
use crate::poledit::decimal;
use crate::text_buffer::Direction;
use crate::chars::{chars_of, spec_lines, split_lines, string_of};
use crate::entry::utf8_string;
use vstd::utf8::{decode_utf8, valid_utf8};
use crate::creator::CreatorResult;
use crate::forum::{last_key, widened, DataKind};
use crate::village::TileType;
use vstd::prelude::*;
use vstd::string::*;
use vstd::utf8::encode_utf8;

verus! {

broadcast use vstd::utf8::group_utf8_lib;

/// A swarm's name: the gnome id of its founder and the name it goes by.
#[derive(Debug)]
pub struct SwarmRef {
    pub founder: u64,
    pub name: String,
}

/// A swarm's name as plain values.
pub open spec fn swarm_view(s: SwarmRef) -> (u64, Seq<char>) {
    (s.founder, s.name@)
}

impl SwarmRef {
    /// A copy of this name.
    pub fn duplicate(&self) -> (r: SwarmRef)
        ensures
            r == *self,
    {
        SwarmRef { founder: self.founder, name: self.name.clone() }
    }

    /// Whether two names are the same: same founder, same text.
    pub fn same_as(&self, other: &SwarmRef) -> (b: bool)
        ensures
            b == (swarm_view(*self) == swarm_view(*other)),
    {
        self.founder == other.founder && crate::forum::same_text(&self.name, &other.name)
    }
}

/// A copy of a byte vector.
pub(crate) fn copy_bytes(v: &Vec<u8>) -> (r: Vec<u8>)
    ensures
        r@ == v@,
{
    let mut r: Vec<u8> = Vec::new();
    let mut i: usize = 0;
    while i < v.len()
        invariant
            i <= v@.len(),
            r@ == v@.subrange(0, i as int),
        decreases v@.len() - i,
    {
        r.push(v[i]);
        i = i + 1;
    }
    proof {
        assert(v@.subrange(0, v@.len() as int) =~= v@);
    }
    r
}

/// What the content creator works on: a content of some data type, or a
/// link to a content of another swarm; each with the content's id once it
/// exists, whether it is only shown, its description and its tag ids.
#[derive(Debug)]
pub enum CreatorContext {
    Data { c_id: Option<u16>, read_only: bool, d_type: DataKind, description: String, tags: Vec<u8> },
    Link {
        c_id: Option<u16>,
        read_only: bool,
        s_name: SwarmRef,
        target_id: u16,
        description: String,
        tags: Vec<u8>,
    },
}

/// A creator context as plain values.
pub enum ContextView {
    Data(Option<u16>, bool, DataKind, Seq<char>, Seq<u8>),
    Link(Option<u16>, bool, (u64, Seq<char>), u16, Seq<char>, Seq<u8>),
}

impl View for CreatorContext {
    type V = ContextView;

    open spec fn view(&self) -> ContextView {
        match self {
            CreatorContext::Data { c_id, read_only, d_type, description, tags } => ContextView::Data(
                *c_id,
                *read_only,
                *d_type,
                description@,
                tags@,
            ),
            CreatorContext::Link { c_id, read_only, s_name, target_id, description, tags } =>
                ContextView::Link(
                *c_id,
                *read_only,
                swarm_view(*s_name),
                *target_id,
                description@,
                tags@,
            ),
        }
    }
}

/// Whether a context is only shown.
pub open spec fn ctx_read_only(c: ContextView) -> bool {
    match c {
        ContextView::Data(_, r, _, _, _) => r,
        ContextView::Link(_, r, _, _, _, _) => r,
    }
}

/// A context's tag ids.
pub open spec fn ctx_tags(c: ContextView) -> Seq<u8> {
    match c {
        ContextView::Data(_, _, _, _, t) => t,
        ContextView::Link(_, _, _, _, _, t) => t,
    }
}

/// A context's description.
pub open spec fn ctx_description(c: ContextView) -> Seq<char> {
    match c {
        ContextView::Data(_, _, _, d, _) => d,
        ContextView::Link(_, _, _, _, d, _) => d,
    }
}

/// A context's content id.
pub open spec fn ctx_content_id(c: ContextView) -> Option<u16> {
    match c {
        ContextView::Data(i, _, _, _, _) => i,
        ContextView::Link(i, _, _, _, _, _) => i,
    }
}

/// A context's data type: a link for a link.
pub open spec fn ctx_data_type(c: ContextView) -> DataKind {
    match c {
        ContextView::Data(_, _, k, _, _) => k,
        ContextView::Link(..) => DataKind::Link,
    }
}

/// The context with other tag ids.
pub open spec fn with_tags(c: ContextView, t: Seq<u8>) -> ContextView {
    match c {
        ContextView::Data(i, r, k, d, _) => ContextView::Data(i, r, k, d, t),
        ContextView::Link(i, r, s, g, d, _) => ContextView::Link(i, r, s, g, d, t),
    }
}

/// The context with another description.
pub open spec fn with_description(c: ContextView, d: Seq<char>) -> ContextView {
    match c {
        ContextView::Data(i, r, k, _, t) => ContextView::Data(i, r, k, d, t),
        ContextView::Link(i, r, s, g, _, t) => ContextView::Link(i, r, s, g, d, t),
    }
}

/// The context with another data type: a link given a data type becomes
/// plain content with the same id, mode, description and tags; a link
/// given the link type stays as it is.
pub open spec fn with_data_type(c: ContextView, k: DataKind) -> ContextView {
    match c {
        ContextView::Data(i, r, _, d, t) => ContextView::Data(i, r, k, d, t),
        ContextView::Link(i, r, s, g, d, t) => if k == DataKind::Link {
            c
        } else {
            ContextView::Data(i, r, k, d, t)
        },
    }
}

/// The bytes that list tag ids: their count, then the ids.
pub open spec fn tag_list_bytes(tags: Seq<u8>) -> Seq<u8> {
    seq![(tags.len() % 256) as u8] + tags
}

/// The first page of a content that is not a link: its tag list, then its
/// description in UTF-8.
pub open spec fn page_bytes(tags: Seq<u8>, description: Seq<char>) -> Seq<u8> {
    tag_list_bytes(tags) + encode_utf8(description)
}

/// The bytes that list tag ids (see `tag_list_bytes`).
pub fn tag_list(tags: &Vec<u8>) -> (r: Vec<u8>)
    ensures
        r@ == tag_list_bytes(tags@),
{
    let mut r: Vec<u8> = Vec::new();
    r.push((tags.len() % 256) as u8);
    let mut i: usize = 0;
    while i < tags.len()
        invariant
            i <= tags@.len(),
            r@ == seq![(tags@.len() % 256) as u8] + tags@.subrange(0, i as int),
        decreases tags@.len() - i,
    {
        r.push(tags[i]);
        i = i + 1;
        proof {
            assert(r@ =~= seq![(tags@.len() % 256) as u8] + tags@.subrange(0, i as int));
        }
    }
    proof {
        assert(tags@.subrange(0, tags@.len() as int) =~= tags@);
    }
    r
}

/// The first page of a content (see `page_bytes`).
pub fn first_page(tags: &Vec<u8>, description: &String) -> (r: Vec<u8>)
    ensures
        r@ == page_bytes(tags@, description@),
{
    let mut r = tag_list(tags);
    let ghost head = r@;
    let t = description.as_str().as_bytes();
    let mut j: usize = 0;
    while j < t.len()
        invariant
            j <= t@.len(),
            t@ == encode_utf8(description@),
            r@ == head + t@.subrange(0, j as int),
        decreases t@.len() - j,
    {
        r.push(t[j]);
        j = j + 1;
        proof {
            assert(r@ =~= head + t@.subrange(0, j as int));
        }
    }
    proof {
        assert(t@.subrange(0, t@.len() as int) =~= t@);
    }
    r
}

impl CreatorContext {
    /// A copy of this context.
    pub fn duplicate(&self) -> (r: CreatorContext)
        ensures
            r@ == self@,
    {
        match self {
            CreatorContext::Data { c_id, read_only, d_type, description, tags } => CreatorContext::Data {
                c_id: *c_id,
                read_only: *read_only,
                d_type: *d_type,
                description: description.clone(),
                tags: copy_bytes(tags),
            },
            CreatorContext::Link { c_id, read_only, s_name, target_id, description, tags } =>
                CreatorContext::Link {
                c_id: *c_id,
                read_only: *read_only,
                s_name: s_name.duplicate(),
                target_id: *target_id,
                description: description.clone(),
                tags: copy_bytes(tags),
            },
        }
    }

    pub fn is_read_only(&self) -> (b: bool)
        ensures
            b == ctx_read_only(self@),
    {
        match self {
            CreatorContext::Data { read_only, .. } => *read_only,
            CreatorContext::Link { read_only, .. } => *read_only,
        }
    }

    pub fn set_tags(&mut self, new_tags: Vec<u8>)
        ensures
            final(self)@ == with_tags(old(self)@, new_tags@),
    {
        match self {
            CreatorContext::Data { tags, .. } => *tags = new_tags,
            CreatorContext::Link { tags, .. } => *tags = new_tags,
        }
    }

    pub fn set_description(&mut self, new_description: String)
        ensures
            final(self)@ == with_description(old(self)@, new_description@),
    {
        match self {
            CreatorContext::Data { description, .. } => *description = new_description,
            CreatorContext::Link { description, .. } => *description = new_description,
        }
    }

    pub fn set_data_type(&mut self, new_type: DataKind)
        ensures
            final(self)@ == with_data_type(old(self)@, new_type),
    {
        let replaced = match self {
            CreatorContext::Data { d_type, .. } => {
                *d_type = new_type;
                None
            },
            CreatorContext::Link { c_id, read_only, description, tags, .. } => {
                if new_type == DataKind::Link {
                    None
                } else {
                    Some(
                        CreatorContext::Data {
                            c_id: *c_id,
                            read_only: *read_only,
                            d_type: new_type,
                            description: description.clone(),
                            tags: copy_bytes(tags),
                        },
                    )
                }
            },
        };
        if let Some(c) = replaced {
            *self = c;
        }
    }

    pub fn get_tags(&self) -> (r: Vec<u8>)
        ensures
            r@ == ctx_tags(self@),
    {
        match self {
            CreatorContext::Data { tags, .. } => copy_bytes(tags),
            CreatorContext::Link { tags, .. } => copy_bytes(tags),
        }
    }

    pub fn data_type(&self) -> (k: DataKind)
        ensures
            k == ctx_data_type(self@),
    {
        match self {
            CreatorContext::Data { d_type, .. } => *d_type,
            CreatorContext::Link { .. } => DataKind::Link,
        }
    }

    pub fn description(&self) -> (d: String)
        ensures
            d@ == ctx_description(self@),
    {
        match self {
            CreatorContext::Data { description, .. } => description.clone(),
            CreatorContext::Link { description, .. } => description.clone(),
        }
    }

    pub fn content_id(&self) -> (i: Option<u16>)
        ensures
            i == ctx_content_id(self@),
    {
        match self {
            CreatorContext::Data { c_id, .. } => *c_id,
            CreatorContext::Link { c_id, .. } => *c_id,
        }
    }

    /// Where a link points: the swarm, the content, and the bytes that list
    /// the link's tags (see `tag_list_bytes`); nothing for plain content.
    pub fn link_target(&self) -> (r: Option<(SwarmRef, u16, Vec<u8>)>)
        ensures
            match self@ {
                ContextView::Data(..) => r is None,
                ContextView::Link(_, _, s, g, _, t) => r matches Some(x) && swarm_view(x.0) == s
                    && x.1 == g && x.2@ == tag_list_bytes(t),
            },
    {
        match self {
            CreatorContext::Data { .. } => None,
            CreatorContext::Link { s_name, target_id, tags, .. } => Some(
                (s_name.duplicate(), *target_id, tag_list(tags)),
            ),
        }
    }
}

/// The code under which the village's tiles and the data type selector
/// give a link; every other code is a data type of its own.
pub const LINK_CODE: u8 = 255;

/// The data type of a code.
pub open spec fn kind_of_code(b: u8) -> DataKind {
    if b == LINK_CODE {
        DataKind::Link
    } else {
        DataKind::Data(b)
    }
}

/// The code of a data type.
pub open spec fn code_of_kind(k: DataKind) -> u8 {
    match k {
        DataKind::Data(b) => b,
        DataKind::Link => LINK_CODE,
    }
}

/// The data type of a code (see `kind_of_code`).
pub fn kind_from_code(b: u8) -> (k: DataKind)
    ensures
        k == kind_of_code(b),
{
    if b == LINK_CODE {
        DataKind::Link
    } else {
        DataKind::Data(b)
    }
}

/// The code of a data type (see `code_of_kind`).
pub fn code_from_kind(k: DataKind) -> (b: u8)
    ensures
        b == code_of_kind(k),
{
    match k {
        DataKind::Data(b) => b,
        DataKind::Link => LINK_CODE,
    }
}

/// What the catalog's window is doing: the village, an editor or selector
/// opened for some purpose, the content creator, a read awaited, a
/// content's pages listed, or the list of active swarms.
#[derive(Debug)]
pub enum CatalogState {
    Village,
    AddTag,
    ChangeTag(u8),
    PresentTags,
    ChooseActionForTag(u8, String),
    AddSearch,
    ListSearches(Vec<(String, usize)>),
    SearchResults(Vec<(SwarmRef, u16)>),
    AddDType,
    RemovePage(u16),
    AppendData(u16),
    ContextMenuOn(TileType),
    Creator(CreatorContext),
    CreatorSelectTags(CreatorContext),
    CreatorDisplayDescription(CreatorContext),
    CreatorSelectDtype(CreatorContext),
    ReadRequestForIndexer(u16),
    ReadLinkToFollow(u16, Option<(SwarmRef, u16)>),
    /// A content's pages listed: its id, the page open in the editor, its
    /// data type, tags and description, the headers listed and the texts
    /// of its pages.
    Indexing(u16, Option<u16>, DataKind, Vec<u8>, String, Vec<String>, Vec<String>),
    ShowActiveSwarms(Vec<(SwarmRef, u8)>),
}

/// A state as plain values.
pub enum StateView {
    Village,
    AddTag,
    ChangeTag(u8),
    PresentTags,
    ChooseActionForTag(u8, Seq<char>),
    AddSearch,
    ListSearches(Seq<(Seq<char>, usize)>),
    SearchResults(Seq<((u64, Seq<char>), u16)>),
    AddDType,
    RemovePage(u16),
    AppendData(u16),
    ContextMenuOn(TileType),
    Creator(ContextView),
    CreatorSelectTags(ContextView),
    CreatorDisplayDescription(ContextView),
    CreatorSelectDtype(ContextView),
    ReadRequestForIndexer(u16),
    ReadLinkToFollow(u16, Option<((u64, Seq<char>), u16)>),
    Indexing(u16, Option<u16>, DataKind, Seq<u8>, Seq<char>, Seq<Seq<char>>, Seq<Seq<char>>),
    ShowActiveSwarms(Seq<((u64, Seq<char>), u8)>),
}

pub open spec fn link_view(o: Option<(SwarmRef, u16)>) -> Option<((u64, Seq<char>), u16)> {
    match o {
        Some(x) => Some((swarm_view(x.0), x.1)),
        None => None,
    }
}

impl View for CatalogState {
    type V = StateView;

    open spec fn view(&self) -> StateView {
        match self {
            CatalogState::Village => StateView::Village,
            CatalogState::AddTag => StateView::AddTag,
            CatalogState::ChangeTag(t) => StateView::ChangeTag(*t),
            CatalogState::PresentTags => StateView::PresentTags,
            CatalogState::ChooseActionForTag(t, x) => StateView::ChooseActionForTag(*t, x@),
            CatalogState::AddSearch => StateView::AddSearch,
            CatalogState::ListSearches(l) => StateView::ListSearches(
                l@.map_values(|e: (String, usize)| (e.0@, e.1)),
            ),
            CatalogState::SearchResults(l) => StateView::SearchResults(
                l@.map_values(|e: (SwarmRef, u16)| (swarm_view(e.0), e.1)),
            ),
            CatalogState::AddDType => StateView::AddDType,
            CatalogState::RemovePage(c) => StateView::RemovePage(*c),
            CatalogState::AppendData(c) => StateView::AppendData(*c),
            CatalogState::ContextMenuOn(t) => StateView::ContextMenuOn(*t),
            CatalogState::Creator(c) => StateView::Creator(c@),
            CatalogState::CreatorSelectTags(c) => StateView::CreatorSelectTags(c@),
            CatalogState::CreatorDisplayDescription(c) => StateView::CreatorDisplayDescription(c@),
            CatalogState::CreatorSelectDtype(c) => StateView::CreatorSelectDtype(c@),
            CatalogState::ReadRequestForIndexer(c) => StateView::ReadRequestForIndexer(*c),
            CatalogState::ReadLinkToFollow(c, l) => StateView::ReadLinkToFollow(*c, link_view(*l)),
            CatalogState::Indexing(c, p, k, t, d, h, n) => StateView::Indexing(
                *c,
                *p,
                *k,
                t@,
                d@,
                names(h@),
                names(n@),
            ),
            CatalogState::ShowActiveSwarms(m) => StateView::ShowActiveSwarms(
                m@.map_values(|e: (SwarmRef, u8)| (swarm_view(e.0), e.1)),
            ),
        }
    }
}

/// What the catalog's window asks of the screen, of the swarm, and of
/// itself.
#[derive(Debug)]
pub enum CatalogEffect {
    /// Show the creator: only shown or not, the data type, the description
    /// and the tag ids (the manifest names the type and the tags).
    DisplayCreator(bool, DataKind, String, Vec<u8>),
    /// Show the creator on a new link, editable, named Link, with this
    /// description and no tags.
    DisplayLinkCreator(String),
    /// Offer the manifest's tags (only those of the given ids, when given)
    /// under a title: close on the first selection or not, and the
    /// positions selected at first.
    SelectTags(bool, String, Option<Vec<u8>>, Vec<usize>),
    /// Offer the manifest's data types under a title: close on the first
    /// selection or not, and the positions selected at first.
    SelectDataTypes(bool, String, Vec<usize>),
    /// Offer options under a title, closing on the first selection or not.
    DisplaySelector(bool, String, Vec<String>, Vec<usize>),
    /// Open the editor: only shown, may be switched to editing, title,
    /// initial text, line feeds allowed, byte limit.
    DisplayEditor(bool, bool, String, Option<String>, bool, Option<u16>),
    /// List headers to choose from.
    DisplayIndexer(Vec<String>),
    /// Show a context menu.
    DisplayCMenu(u8),
    /// Show the village of a gnome.
    SwapTiles(u64),
    /// Show these neighbors.
    Neighbors(Vec<u64>),
    /// A neighbor left.
    NeighborLeft(u64),
    /// Show these streets with their contents.
    StreetNames(Vec<(String, Vec<Listed>)>),
    /// Place a content (id, data type, header) on these streets.
    AppendContent(u16, DataKind, Vec<String>, String),
    /// Take a content off these streets.
    HideContent(u16, Vec<String>),
    /// Post a notice.
    Notify(String),
    /// Show the public addresses that the manifest lists.
    ShowPublicIps,
    /// Put these public addresses, gathered so far, in the manifest.
    SyncPublicIps(Vec<PublicAddress>),
    /// Read all pages of a content of a swarm.
    ReadAllPages(u8, u16),
    /// Read the first pages of all contents of a swarm.
    ReadAllFirstPages(u8),
    /// Ask for this gnome's public addresses.
    ProvidePublicIps,
    /// Ask for the active swarm's neighbors.
    ListNeighbors,
    /// Make a swarm the active one.
    SetActiveApp(SwarmRef),
    /// Add a content of a data type with this first page to a swarm.
    AppendNewContent(u8, DataKind, Vec<u8>),
    /// Write a link (swarm, content, description, tag list bytes) as a new
    /// content of a swarm, or over the first page of a content.
    StoreLink(u8, Option<u16>, SwarmRef, u16, String, Vec<u8>),
    /// Replace the pages of a content of a swarm (the data type given).
    ChangeContent(u8, u16, DataKind, Vec<Vec<u8>>),
    /// Replace a page of a content of a swarm.
    UpdateData(u8, u16, u16, Vec<u8>),
    /// Add a page to a content of a swarm.
    AppendData(u8, u16, Vec<u8>),
    /// Remove a page of a content of a swarm.
    RemoveData(u8, u16, u16),
    /// Start a search.
    Search(String),
    /// Ask for the results of a search.
    GetSearchResults(String),
    /// Ask for the running searches.
    ListSearches,
    /// Ask which swarms are active.
    ProvideGnomeToSwarmMapping,
    /// Add a tag of this name to the manifest.
    AddTags(Vec<String>),
    /// Rename a tag.
    ChangeTag(u8, String),
    /// Add a data type of this name to the manifest.
    AddDataType(String),
    /// Offer what can be done with a tag.
    PresentOptionsForTag(u8, String),
    /// Serve again these messages kept for the active swarm, in the order
    /// they came.
    ReplayPending(Vec<SwarmEvent>),
    /// Serve again these requests of the screen kept until the home swarm
    /// was set, in the order they came.
    ReplayPostponed(Vec<ScreenEvent>),
}

/// A public address of this gnome as plain values: the address as a
/// 128-bit number (an IPv4 one mapped into IPv6), the port, and the codes
/// of its NAT type, port allocation rule and allocation step.
pub type PublicAddress = (u128, u16, u8, u8, i8);

/// `have` with each address of `new` added after it, in order, unless it
/// is there already.
pub open spec fn with_new_addresses(have: Seq<PublicAddress>, new: Seq<PublicAddress>) -> Seq<PublicAddress>
    decreases new.len(),
{
    if new.len() == 0 {
        have
    } else {
        let a = with_new_addresses(have, new.drop_last());
        if a.contains(new.last()) {
            a
        } else {
            a.push(new.last())
        }
    }
}

/// A request of the screen that waits until the home swarm is set: a new
/// content, a content's pages replaced, a content's pages asked for, or
/// the creator's content created.
#[derive(Debug)]
pub enum ScreenEvent {
    CreateContent(DataKind, Vec<u8>),
    UpdateContent(u16, DataKind, Vec<Vec<u8>>),
    ContentInquiry(u16),
    CreatorCreate,
}

/// A request of the screen as plain values.
pub enum ScreenEventView {
    CreateContent(DataKind, Seq<u8>),
    UpdateContent(u16, DataKind, Seq<Seq<u8>>),
    ContentInquiry(u16),
    CreatorCreate,
}

/// A message of a swarm that waits until it can be served: its
/// neighbors, a neighbor leaving, or a new content (id, data type, tag
/// ids, header).
#[derive(Debug)]
pub enum SwarmEvent {
    Neighbors(Vec<u64>),
    NeighborLeft(u64),
    NewContent(u16, DataKind, Vec<u8>, String),
}

/// A message of a swarm as plain values.
pub enum SwarmEventView {
    Neighbors(Seq<u64>),
    NeighborLeft(u64),
    NewContent(u16, DataKind, Seq<u8>, Seq<char>),
}

impl View for ScreenEvent {
    type V = ScreenEventView;

    open spec fn view(&self) -> ScreenEventView {
        match self {
            ScreenEvent::CreateContent(k, d) => ScreenEventView::CreateContent(*k, d@),
            ScreenEvent::UpdateContent(c, k, v) => ScreenEventView::UpdateContent(*c, *k, pages_view(v@)),
            ScreenEvent::ContentInquiry(c) => ScreenEventView::ContentInquiry(*c),
            ScreenEvent::CreatorCreate => ScreenEventView::CreatorCreate,
        }
    }
}

impl View for SwarmEvent {
    type V = SwarmEventView;

    open spec fn view(&self) -> SwarmEventView {
        match self {
            SwarmEvent::Neighbors(n) => SwarmEventView::Neighbors(n@),
            SwarmEvent::NeighborLeft(n) => SwarmEventView::NeighborLeft(*n),
            SwarmEvent::NewContent(c, k, t, h) => SwarmEventView::NewContent(*c, *k, t@, h@),
        }
    }
}

/// Requests of the screen as plain values.
pub open spec fn screen_events_view(v: Seq<ScreenEvent>) -> Seq<ScreenEventView> {
    v.map_values(|x: ScreenEvent| x@)
}

/// Messages of swarms, each with its swarm's id, as plain values.
pub open spec fn pending_view(v: Seq<(u8, SwarmEvent)>) -> Seq<(u8, SwarmEventView)> {
    v.map_values(|x: (u8, SwarmEvent)| (x.0, x.1@))
}

/// Messages as plain values.
pub open spec fn swarm_events_view(v: Seq<SwarmEvent>) -> Seq<SwarmEventView> {
    v.map_values(|x: SwarmEvent| x@)
}

/// The messages kept for swarm `s`, in the order they came.
pub open spec fn for_swarm(p: Seq<(u8, SwarmEventView)>, s: u8) -> Seq<SwarmEventView>
    decreases p.len(),
{
    if p.len() == 0 {
        seq![]
    } else if p.last().0 == s {
        for_swarm(p.drop_last(), s).push(p.last().1)
    } else {
        for_swarm(p.drop_last(), s)
    }
}

/// The messages kept for other swarms than `s`, in the order they came.
pub open spec fn other_swarms(p: Seq<(u8, SwarmEventView)>, s: u8) -> Seq<(u8, SwarmEventView)>
    decreases p.len(),
{
    if p.len() == 0 {
        seq![]
    } else if p.last().0 == s {
        other_swarms(p.drop_last(), s)
    } else {
        other_swarms(p.drop_last(), s).push(p.last())
    }
}

/// A copy of a list of pages.
fn copy_pages(v: &Vec<Vec<u8>>) -> (r: Vec<Vec<u8>>)
    ensures
        pages_view(r@) == pages_view(v@),
{
    let mut r: Vec<Vec<u8>> = Vec::new();
    let mut i: usize = 0;
    while i < v.len()
        invariant
            i <= v@.len(),
            pages_view(r@) == pages_view(v@.subrange(0, i as int)),
        decreases v@.len() - i,
    {
        let ghost r0 = r@;
        r.push(copy_bytes(&v[i]));
        proof {
            assert(v@.subrange(0, i + 1) =~= v@.subrange(0, i as int).push(v@[i as int]));
            assert(pages_view(r@) =~= pages_view(r0).push(v@[i as int]@));
            assert(pages_view(v@.subrange(0, i + 1)) =~= pages_view(v@.subrange(0, i as int)).push(v@[i as int]@));
        }
        i = i + 1;
    }
    proof {
        assert(v@.subrange(0, v@.len() as int) =~= v@);
    }
    r
}

impl ScreenEvent {
    /// A copy of this request.
    pub fn duplicate(&self) -> (r: ScreenEvent)
        ensures
            r@ == self@,
    {
        match self {
            ScreenEvent::CreateContent(k, d) => ScreenEvent::CreateContent(*k, copy_bytes(d)),
            ScreenEvent::UpdateContent(c, k, v) => ScreenEvent::UpdateContent(*c, *k, copy_pages(v)),
            ScreenEvent::ContentInquiry(c) => ScreenEvent::ContentInquiry(*c),
            ScreenEvent::CreatorCreate => ScreenEvent::CreatorCreate,
        }
    }
}

/// A copy of the requests kept.
fn copy_screen_events(v: &Vec<ScreenEvent>) -> (r: Vec<ScreenEvent>)
    ensures
        screen_events_view(r@) == screen_events_view(v@),
{
    let mut r: Vec<ScreenEvent> = Vec::new();
    let mut i: usize = 0;
    while i < v.len()
        invariant
            i <= v@.len(),
            screen_events_view(r@) == screen_events_view(v@.subrange(0, i as int)),
        decreases v@.len() - i,
    {
        let ghost r0 = r@;
        r.push(v[i].duplicate());
        proof {
            assert(v@.subrange(0, i + 1) =~= v@.subrange(0, i as int).push(v@[i as int]));
            assert(screen_events_view(r@) =~= screen_events_view(r0).push(v@[i as int]@));
            assert(screen_events_view(v@.subrange(0, i + 1)) =~= screen_events_view(v@.subrange(0, i as int)).push(
                v@[i as int]@,
            ));
        }
        i = i + 1;
    }
    proof {
        assert(v@.subrange(0, v@.len() as int) =~= v@);
    }
    r
}

/// Takes out of `v` the messages kept for swarm `s`, in the order they
/// came; those of other swarms stay, in their order.
fn take_pending(v: &mut Vec<(u8, SwarmEvent)>, s: u8) -> (r: Vec<SwarmEvent>)
    ensures
        swarm_events_view(r@) == for_swarm(pending_view(old(v)@), s),
        pending_view(final(v)@) == other_swarms(pending_view(old(v)@), s),
{
    let mut rest: Vec<(u8, SwarmEvent)> = Vec::new();
    std::mem::swap(&mut rest, v);
    let ghost orig = rest@;
    let mut r: Vec<SwarmEvent> = Vec::new();
    let ghost mut i: int = 0;
    proof {
        assert(pending_view(orig.subrange(0, 0)) =~= Seq::<(u8, SwarmEventView)>::empty());
        assert(swarm_events_view(r@) =~= Seq::<SwarmEventView>::empty());
        assert(pending_view(v@) =~= Seq::<(u8, SwarmEventView)>::empty());
        assert(orig.subrange(0, orig.len() as int) =~= orig);
    }
    while rest.len() > 0
        invariant
            0 <= i <= orig.len(),
            rest@ == orig.subrange(i, orig.len() as int),
            swarm_events_view(r@) == for_swarm(pending_view(orig.subrange(0, i)), s),
            pending_view(v@) == other_swarms(pending_view(orig.subrange(0, i)), s),
        decreases rest@.len(),
    {
        proof {
            assert(orig.subrange(i, orig.len() as int).remove(0) =~= orig.subrange(i + 1, orig.len() as int));
        }
        let (t, ev) = rest.remove(0);
        let ghost step = pending_view(orig.subrange(0, i + 1));
        proof {
            assert(step.drop_last() =~= pending_view(orig.subrange(0, i)));
            assert(step.last() == (t, ev@));
        }
        if t == s {
            let ghost r0 = r@;
            r.push(ev);
            proof {
                assert(swarm_events_view(r@) =~= swarm_events_view(r0).push(r@.last()@));
            }
        } else {
            let ghost v0 = v@;
            v.push((t, ev));
            proof {
                assert(pending_view(v@) =~= pending_view(v0).push((t, v@.last().1@)));
            }
        }
        proof {
            i = i + 1;
        }
    }
    r
}

/// An effect as plain values; a street's contents are a set.
pub enum EffectView {
    DisplayCreator(bool, DataKind, Seq<char>, Seq<u8>),
    DisplayLinkCreator(Seq<char>),
    SelectTags(bool, Seq<char>, Option<Seq<u8>>, Seq<usize>),
    SelectDataTypes(bool, Seq<char>, Seq<usize>),
    DisplaySelector(bool, Seq<char>, Seq<Seq<char>>, Seq<usize>),
    DisplayEditor(bool, bool, Seq<char>, Option<Seq<char>>, bool, Option<u16>),
    DisplayIndexer(Seq<Seq<char>>),
    DisplayCMenu(u8),
    SwapTiles(u64),
    Neighbors(Seq<u64>),
    NeighborLeft(u64),
    StreetNames(Seq<(Seq<char>, Set<(u8, u16, Seq<char>)>)>),
    AppendContent(u16, DataKind, Seq<Seq<char>>, Seq<char>),
    HideContent(u16, Seq<Seq<char>>),
    Notify(Seq<char>),
    ShowPublicIps,
    SyncPublicIps(Seq<PublicAddress>),
    ReadAllPages(u8, u16),
    ReadAllFirstPages(u8),
    ProvidePublicIps,
    ListNeighbors,
    SetActiveApp((u64, Seq<char>)),
    AppendNewContent(u8, DataKind, Seq<u8>),
    StoreLink(u8, Option<u16>, (u64, Seq<char>), u16, Seq<char>, Seq<u8>),
    ChangeContent(u8, u16, DataKind, Seq<Seq<u8>>),
    UpdateData(u8, u16, u16, Seq<u8>),
    AppendData(u8, u16, Seq<u8>),
    RemoveData(u8, u16, u16),
    Search(Seq<char>),
    GetSearchResults(Seq<char>),
    ListSearches,
    ProvideGnomeToSwarmMapping,
    AddTags(Seq<Seq<char>>),
    ChangeTag(u8, Seq<char>),
    AddDataType(Seq<char>),
    PresentOptionsForTag(u8, Seq<char>),
    ReplayPending(Seq<SwarmEventView>),
    ReplayPostponed(Seq<ScreenEventView>),
}

pub open spec fn opt_str(o: Option<String>) -> Option<Seq<char>> {
    match o {
        Some(s) => Some(s@),
        None => None,
    }
}

pub open spec fn opt_bytes(o: Option<Vec<u8>>) -> Option<Seq<u8>> {
    match o {
        Some(v) => Some(v@),
        None => None,
    }
}

/// Pages as plain values.
pub open spec fn pages_view(v: Seq<Vec<u8>>) -> Seq<Seq<u8>> {
    v.map_values(|p: Vec<u8>| p@)
}

/// Streets with their contents as plain values.
pub open spec fn streets_view(v: Seq<(String, Vec<Listed>)>) -> Seq<(Seq<char>, Set<(u8, u16, Seq<char>)>)> {
    v.map_values(|e: (String, Vec<Listed>)| (e.0@, items_view(e.1@).to_set()))
}

impl View for CatalogEffect {
    type V = EffectView;

    open spec fn view(&self) -> EffectView {
        match self {
            CatalogEffect::DisplayCreator(r, k, d, t) => EffectView::DisplayCreator(*r, *k, d@, t@),
            CatalogEffect::DisplayLinkCreator(d) => EffectView::DisplayLinkCreator(d@),
            CatalogEffect::SelectTags(q, title, f, p) => EffectView::SelectTags(*q, title@, opt_bytes(*f), p@),
            CatalogEffect::SelectDataTypes(q, title, p) => EffectView::SelectDataTypes(*q, title@, p@),
            CatalogEffect::DisplaySelector(q, title, o, p) => EffectView::DisplaySelector(*q, title@, names(o@), p@),
            CatalogEffect::DisplayEditor(r, c, title, t, n, l) => EffectView::DisplayEditor(
                *r,
                *c,
                title@,
                opt_str(*t),
                *n,
                *l,
            ),
            CatalogEffect::DisplayIndexer(h) => EffectView::DisplayIndexer(names(h@)),
            CatalogEffect::DisplayCMenu(m) => EffectView::DisplayCMenu(*m),
            CatalogEffect::SwapTiles(g) => EffectView::SwapTiles(*g),
            CatalogEffect::Neighbors(n) => EffectView::Neighbors(n@),
            CatalogEffect::NeighborLeft(g) => EffectView::NeighborLeft(*g),
            CatalogEffect::StreetNames(v) => EffectView::StreetNames(streets_view(v@)),
            CatalogEffect::AppendContent(c, k, t, h) => EffectView::AppendContent(*c, *k, names(t@), h@),
            CatalogEffect::HideContent(c, t) => EffectView::HideContent(*c, names(t@)),
            CatalogEffect::Notify(t) => EffectView::Notify(t@),
            CatalogEffect::ShowPublicIps => EffectView::ShowPublicIps,
            CatalogEffect::SyncPublicIps(v) => EffectView::SyncPublicIps(v@),
            CatalogEffect::ReadAllPages(s, c) => EffectView::ReadAllPages(*s, *c),
            CatalogEffect::ReadAllFirstPages(s) => EffectView::ReadAllFirstPages(*s),
            CatalogEffect::ProvidePublicIps => EffectView::ProvidePublicIps,
            CatalogEffect::ListNeighbors => EffectView::ListNeighbors,
            CatalogEffect::SetActiveApp(n) => EffectView::SetActiveApp(swarm_view(*n)),
            CatalogEffect::AppendNewContent(s, k, b) => EffectView::AppendNewContent(*s, *k, b@),
            CatalogEffect::StoreLink(s, c, n, t, d, b) => EffectView::StoreLink(
                *s,
                *c,
                swarm_view(*n),
                *t,
                d@,
                b@,
            ),
            CatalogEffect::ChangeContent(s, c, k, v) => EffectView::ChangeContent(*s, *c, *k, pages_view(v@)),
            CatalogEffect::UpdateData(s, c, d, b) => EffectView::UpdateData(*s, *c, *d, b@),
            CatalogEffect::AppendData(s, c, b) => EffectView::AppendData(*s, *c, b@),
            CatalogEffect::RemoveData(s, c, d) => EffectView::RemoveData(*s, *c, *d),
            CatalogEffect::Search(t) => EffectView::Search(t@),
            CatalogEffect::GetSearchResults(t) => EffectView::GetSearchResults(t@),
            CatalogEffect::ListSearches => EffectView::ListSearches,
            CatalogEffect::ProvideGnomeToSwarmMapping => EffectView::ProvideGnomeToSwarmMapping,
            CatalogEffect::AddTags(t) => EffectView::AddTags(names(t@)),
            CatalogEffect::ChangeTag(i, t) => EffectView::ChangeTag(*i, t@),
            CatalogEffect::AddDataType(t) => EffectView::AddDataType(t@),
            CatalogEffect::PresentOptionsForTag(i, t) => EffectView::PresentOptionsForTag(*i, t@),
            CatalogEffect::ReplayPending(v) => EffectView::ReplayPending(swarm_events_view(v@)),
            CatalogEffect::ReplayPostponed(v) => EffectView::ReplayPostponed(screen_events_view(v@)),
        }
    }
}

/// Effects as plain values.
pub open spec fn effects_view(e: Seq<CatalogEffect>) -> Seq<EffectView> {
    e.map_values(|x: CatalogEffect| x@)
}

/// The creator's context for a new content: no id yet, editable, the first
/// data type, no description, no tags.
pub open spec fn fresh_context() -> ContextView {
    ContextView::Data(None, false, DataKind::Data(0), seq![], seq![])
}

/// `v` without any `x`.
pub open spec fn drop_all(v: Seq<u64>, x: u64) -> Seq<u64>
    decreases v.len(),
{
    if v.len() == 0 {
        v
    } else if v.last() == x {
        drop_all(v.drop_last(), x)
    } else {
        drop_all(v.drop_last(), x).push(v.last())
    }
}

/// The catalog's window: who this gnome is (its swarm's name and the id
/// that stands for any gnome), what the window is doing, the active swarm
/// (id, name, and its name as shown), the index of its contents by tag,
/// the manifest's tags by id, the ring of street names, how many streets
/// show at once and which, whether the home swarm was set, and the content
/// on the clipboard (swarm, swarm as shown, content id); the screen's
/// requests kept until the home swarm is set, and the messages of swarms
/// kept until they can be served, each with its swarm's id, both in the
/// order they came; and this gnome's public addresses gathered for its
/// manifest.
pub struct CatalogLogic {
    pub my_name: SwarmRef,
    pub any_id: u64,
    pub state: CatalogState,
    pub swarm_id: u8,
    pub swarm_name: SwarmRef,
    pub swarm_label: String,
    pub shell: SwarmShell,
    pub manifest_tags: Vec<(u8, String)>,
    pub tag_ring: Vec<Vec<String>>,
    pub visible_count: usize,
    pub visible_streets: Vec<String>,
    pub home_swarm_enforced: bool,
    pub clipboard: Option<(SwarmRef, String, u16)>,
    pub postponed: Vec<ScreenEvent>,
    pub pending: Vec<(u8, SwarmEvent)>,
    pub pub_ips: Vec<PublicAddress>,
}

/// Everything but the state and the two queues stays.
pub open spec fn kept_but_queues(a: CatalogLogic, b: CatalogLogic) -> bool {
    &&& a.my_name == b.my_name
    &&& a.any_id == b.any_id
    &&& a.swarm_id == b.swarm_id
    &&& a.swarm_name == b.swarm_name
    &&& a.swarm_label == b.swarm_label
    &&& a.shell == b.shell
    &&& a.manifest_tags == b.manifest_tags
    &&& a.tag_ring == b.tag_ring
    &&& a.visible_count == b.visible_count
    &&& a.visible_streets == b.visible_streets
    &&& a.home_swarm_enforced == b.home_swarm_enforced
    &&& a.clipboard == b.clipboard
}

/// Everything but the state stays.
pub open spec fn catalog_kept(a: CatalogLogic, b: CatalogLogic) -> bool {
    &&& a.postponed == b.postponed
    &&& a.pending == b.pending
    &&& a.my_name == b.my_name
    &&& a.any_id == b.any_id
    &&& a.swarm_id == b.swarm_id
    &&& a.swarm_name == b.swarm_name
    &&& a.swarm_label == b.swarm_label
    &&& a.shell == b.shell
    &&& a.manifest_tags == b.manifest_tags
    &&& a.tag_ring == b.tag_ring
    &&& a.visible_count == b.visible_count
    &&& a.visible_streets == b.visible_streets
    &&& a.home_swarm_enforced == b.home_swarm_enforced
    &&& a.clipboard == b.clipboard
}

/// Whether this gnome founded the active swarm.
pub open spec fn at_home(c: CatalogLogic) -> bool {
    swarm_view(c.my_name) == swarm_view(c.swarm_name)
}

/// The answer to a tile being selected: the creator for this gnome's
/// home, another gnome's swarm for a neighbor, the link followed for a
/// link, and a content's pages read (from the village only) for any other
/// content.
pub open spec fn tile_served(o: CatalogLogic, f: CatalogLogic, tile: TileType, e: Seq<EffectView>) -> bool {
    match tile {
        TileType::Home(g) => if g == o.my_name.founder {
            f.state@ == StateView::Creator(fresh_context()) && e == seq![
                EffectView::DisplayCreator(false, DataKind::Data(0), seq![], seq![]),
            ]
        } else {
            f.state == o.state && e == Seq::<EffectView>::empty()
        },
        TileType::Neighbor(g) => f.state == o.state && e == seq![
            EffectView::SetActiveApp((g, "/"@)),
            EffectView::SwapTiles(g),
        ],
        TileType::Content(code, c) => if kind_of_code(code) == DataKind::Link {
            f.state@ == StateView::ReadLinkToFollow(c, None) && e == seq![EffectView::ReadAllPages(o.swarm_id, c)]
        } else if o.state@ is Village {
            f.state@ == StateView::ReadRequestForIndexer(c) && e == seq![EffectView::ReadAllPages(o.swarm_id, c)]
        } else {
            f.state == o.state && e == Seq::<EffectView>::empty()
        },
        _ => f.state == o.state && e == Seq::<EffectView>::empty(),
    }
}

/// The answer to a context menu asked on a tile: the home's, a
/// content's, or a field's menu; none for a neighbor or an application.
pub open spec fn menu_served(o: CatalogLogic, f: CatalogLogic, tile: TileType, e: Seq<EffectView>) -> bool {
    match tile {
        TileType::Home(_) => f.state@ == StateView::ContextMenuOn(tile) && e == seq![EffectView::DisplayCMenu(1)],
        TileType::Content(..) => f.state@ == StateView::ContextMenuOn(tile) && e == seq![EffectView::DisplayCMenu(2)],
        TileType::Field => f.state@ == StateView::ContextMenuOn(tile) && e == seq![EffectView::DisplayCMenu(3)],
        _ => f.state == o.state && e == Seq::<EffectView>::empty(),
    }
}

/// The answer to the neighbors of swarm `s` being reported: kept, with
/// `s`, until the home swarm is set or while another swarm is active;
/// shown as they are in this gnome's own swarm (when there are any), and
/// elsewhere with this gnome first and the swarm's founder left out.
pub open spec fn neighbors_served(o: CatalogLogic, f: CatalogLogic, s: u8, n: Seq<u64>, e: Seq<EffectView>) -> bool {
    if !o.home_swarm_enforced || s != o.swarm_id {
        &&& pending_view(f.pending@) == pending_view(o.pending@).push((s, SwarmEventView::Neighbors(n)))
        &&& e == Seq::<EffectView>::empty()
    } else {
        &&& f.pending == o.pending
        &&& if at_home(o) {
            e == if n.len() > 0 {
                seq![EffectView::Neighbors(n)]
            } else {
                Seq::<EffectView>::empty()
            }
        } else {
            e == seq![EffectView::Neighbors(seq![o.my_name.founder] + drop_all(n, o.swarm_name.founder))]
        }
    }
}

/// The answer to a request `ev` of the screen: once the home swarm is
/// set, the effects `now`; until then, nothing, and the request is kept,
/// after those that came before it.
pub open spec fn screen_served(
    o: CatalogLogic,
    f: CatalogLogic,
    ev: ScreenEventView,
    now: Seq<EffectView>,
    e: Seq<EffectView>,
) -> bool {
    if o.home_swarm_enforced {
        f.postponed == o.postponed && e == now
    } else {
        &&& screen_events_view(f.postponed@) == screen_events_view(o.postponed@).push(ev)
        &&& e == Seq::<EffectView>::empty()
    }
}

/// Only the messages kept for swarms may change.
pub open spec fn kept_but_pending(a: CatalogLogic, b: CatalogLogic) -> bool {
    &&& kept_but_queues(a, b)
    &&& a.state == b.state
    &&& a.postponed == b.postponed
}

/// Only the requests of the screen kept may change.
pub open spec fn kept_but_postponed(a: CatalogLogic, b: CatalogLogic) -> bool {
    &&& kept_but_queues(a, b)
    &&& a.state == b.state
    &&& a.pending == b.pending
}

impl CatalogLogic {
    pub open spec fn wf(&self) -> bool {
        self.shell.wf()
    }

    /// The window of gnome `my_name`'s catalog, showing the village, with
    /// no swarm active yet (`any_id` stands for any gnome).
    pub fn new(my_name: SwarmRef, any_id: u64) -> (c: CatalogLogic)
        ensures
            c.wf(),
            c.my_name == my_name,
            c.any_id == any_id,
            c.state@ is Village,
            c.swarm_id == 0,
            swarm_view(c.swarm_name) == (any_id, Seq::<char>::empty()),
            c.swarm_label@ == Seq::<char>::empty(),
            c.shell.index() == Map::<Seq<char>, Set<(u8, u16, Seq<char>)>>::empty(),
            c.manifest_tags@.len() == 0,
            c.tag_ring@.len() == 0,
            c.visible_count == 0,
            c.visible_streets@.len() == 0,
            !c.home_swarm_enforced,
            c.clipboard is None,
            c.postponed@.len() == 0,
            c.pending@.len() == 0,
            c.pub_ips@.len() == 0,
    {
        CatalogLogic {
            my_name,
            any_id,
            state: CatalogState::Village,
            swarm_id: 0,
            swarm_name: SwarmRef { founder: any_id, name: String::new() },
            swarm_label: String::new(),
            shell: SwarmShell::new(),
            manifest_tags: Vec::new(),
            tag_ring: Vec::new(),
            visible_count: 0,
            visible_streets: Vec::new(),
            home_swarm_enforced: false,
            clipboard: None,
            postponed: Vec::new(),
            pending: Vec::new(),
            pub_ips: Vec::new(),
        }
    }

    /// Opens the creator on a new content (see `fresh_context`).
    pub fn run_creator(&mut self) -> (e: Vec<CatalogEffect>)
        ensures
            catalog_kept(*old(self), *final(self)),
            final(self).state@ == StateView::Creator(fresh_context()),
            effects_view(e@) == seq![EffectView::DisplayCreator(false, DataKind::Data(0), seq![], seq![])],
    {
        self.state = CatalogState::Creator(
            CreatorContext::Data {
                c_id: None,
                read_only: false,
                d_type: DataKind::Data(0),
                description: String::new(),
                tags: Vec::new(),
            },
        );
        let mut e: Vec<CatalogEffect> = Vec::new();
        e.push(CatalogEffect::DisplayCreator(false, DataKind::Data(0), String::new(), Vec::new()));
        proof {
            assert(self.state@ == StateView::Creator(fresh_context()));
            assert(effects_view(e@) =~= seq![EffectView::DisplayCreator(false, DataKind::Data(0), seq![], seq![])]);
        }
        e
    }

    /// Asks for a content's pages to list them, when the village shows.
    fn query_content_for_indexer(&mut self, c_id: u16) -> (e: Vec<CatalogEffect>)
        ensures
            catalog_kept(*old(self), *final(self)),
            old(self).state@ is Village ==> final(self).state@ == StateView::ReadRequestForIndexer(c_id)
                && effects_view(e@) == seq![EffectView::ReadAllPages(old(self).swarm_id, c_id)],
            !(old(self).state@ is Village) ==> final(self).state == old(self).state && effects_view(e@)
                == Seq::<EffectView>::empty(),
    {
        let mut e: Vec<CatalogEffect> = Vec::new();
        proof {
            assert(effects_view(e@) =~= Seq::<EffectView>::empty());
        }
        if let CatalogState::Village = self.state {
            self.state = CatalogState::ReadRequestForIndexer(c_id);
            e.push(CatalogEffect::ReadAllPages(self.swarm_id, c_id));
            proof {
                assert(effects_view(e@) =~= seq![EffectView::ReadAllPages(self.swarm_id, c_id)]);
            }
        }
        e
    }

    /// Reads a link's content to follow it.
    fn follow_link(&mut self, c_id: u16) -> (e: Vec<CatalogEffect>)
        ensures
            catalog_kept(*old(self), *final(self)),
            final(self).state@ == StateView::ReadLinkToFollow(c_id, None),
            effects_view(e@) == seq![EffectView::ReadAllPages(old(self).swarm_id, c_id)],
    {
        self.state = CatalogState::ReadLinkToFollow(c_id, None);
        let mut e: Vec<CatalogEffect> = Vec::new();
        e.push(CatalogEffect::ReadAllPages(self.swarm_id, c_id));
        proof {
            assert(effects_view(e@) =~= seq![EffectView::ReadAllPages(self.swarm_id, c_id)]);
        }
        e
    }

    /// Answers a tile being selected (see `tile_served`).
    pub fn tile_selected(&mut self, tile: TileType) -> (e: Vec<CatalogEffect>)
        ensures
            catalog_kept(*old(self), *final(self)),
            tile_served(*old(self), *final(self), tile, effects_view(e@)),
    {
        match tile {
            TileType::Home(g) => {
                if g == self.my_name.founder {
                    self.run_creator()
                } else {
                    let e: Vec<CatalogEffect> = Vec::new();
                    proof {
                        assert(effects_view(e@) =~= Seq::<EffectView>::empty());
                    }
                    e
                }
            },
            TileType::Neighbor(g) => {
                let mut e: Vec<CatalogEffect> = Vec::new();
                e.push(CatalogEffect::SetActiveApp(SwarmRef { founder: g, name: String::from_str("/") }));
                e.push(CatalogEffect::SwapTiles(g));
                proof {
                    assert(effects_view(e@) =~= seq![
                        EffectView::SetActiveApp((g, "/"@)),
                        EffectView::SwapTiles(g),
                    ]);
                }
                e
            },
            TileType::Content(code, c) => {
                if kind_from_code(code) == DataKind::Link {
                    self.follow_link(c)
                } else {
                    self.query_content_for_indexer(c)
                }
            },
            _ => {
                let e: Vec<CatalogEffect> = Vec::new();
                proof {
                    assert(effects_view(e@) =~= Seq::<EffectView>::empty());
                }
                e
            },
        }
    }

    /// Answers a context menu asked on a tile (see `menu_served`).
    pub fn show_context_menu(&mut self, tile: TileType) -> (e: Vec<CatalogEffect>)
        ensures
            catalog_kept(*old(self), *final(self)),
            menu_served(*old(self), *final(self), tile, effects_view(e@)),
    {
        let mut e: Vec<CatalogEffect> = Vec::new();
        let menu: u8 = match tile {
            TileType::Home(_) => 1,
            TileType::Content(..) => 2,
            TileType::Field => 3,
            _ => 0,
        };
        if menu > 0 {
            self.state = CatalogState::ContextMenuOn(tile);
            e.push(CatalogEffect::DisplayCMenu(menu));
            proof {
                assert(effects_view(e@) =~= seq![EffectView::DisplayCMenu(menu)]);
            }
        } else {
            proof {
                assert(effects_view(e@) =~= Seq::<EffectView>::empty());
            }
        }
        e
    }

    /// Notes how many streets show at once.
    pub fn visible_streets_count(&mut self, n: u8)
        ensures
            final(self).visible_count == n,
            final(self).state == old(self).state,
            final(self).visible_streets == old(self).visible_streets,
            final(self).tag_ring == old(self).tag_ring,
            final(self).shell == old(self).shell,
    {
        self.visible_count = n as usize;
    }

    /// Answers another swarm being chosen: it is made active unless it is
    /// the active one.
    pub fn neighbor_selected(&self, s_name: SwarmRef) -> (e: Vec<CatalogEffect>)
        ensures
            effects_view(e@) == if swarm_view(s_name) == swarm_view(self.swarm_name) {
                Seq::<EffectView>::empty()
            } else {
                seq![EffectView::SetActiveApp(swarm_view(s_name))]
            },
    {
        let mut e: Vec<CatalogEffect> = Vec::new();
        if !self.swarm_name.same_as(&s_name) {
            e.push(CatalogEffect::SetActiveApp(s_name));
        }
        proof {
            assert(effects_view(e@) =~= if swarm_view(s_name) == swarm_view(self.swarm_name) {
                Seq::<EffectView>::empty()
            } else {
                seq![EffectView::SetActiveApp(swarm_view(s_name))]
            });
        }
        e
    }

    /// Answers the neighbors of swarm `s_id` being reported (see
    /// `neighbors_served`).
    pub fn neighbors(&mut self, s_id: u8, neighbors: Vec<u64>) -> (e: Vec<CatalogEffect>)
        ensures
            kept_but_pending(*old(self), *final(self)),
            neighbors_served(*old(self), *final(self), s_id, neighbors@, effects_view(e@)),
    {
        let mut e: Vec<CatalogEffect> = Vec::new();
        if !self.home_swarm_enforced || s_id != self.swarm_id {
            let ghost n = neighbors@;
            self.pending.push((s_id, SwarmEvent::Neighbors(neighbors)));
            proof {
                assert(pending_view(self.pending@) =~= pending_view(old(self).pending@).push(
                    (s_id, SwarmEventView::Neighbors(n)),
                ));
                assert(effects_view(e@) =~= Seq::<EffectView>::empty());
            }
            return e;
        } else if self.my_name.same_as(&self.swarm_name) {
            if neighbors.len() > 0 {
                e.push(CatalogEffect::Neighbors(neighbors));
            }
        } else {
            let founder = self.swarm_name.founder;
            let mut shown: Vec<u64> = Vec::new();
            shown.push(self.my_name.founder);
            let mut i: usize = 0;
            while i < neighbors.len()
                invariant
                    i <= neighbors@.len(),
                    shown@ == seq![self.my_name.founder] + drop_all(neighbors@.subrange(0, i as int), founder),
                decreases neighbors@.len() - i,
            {
                let n = neighbors[i];
                proof {
                    assert(neighbors@.subrange(0, i + 1).drop_last() =~= neighbors@.subrange(0, i as int));
                }
                if n != founder {
                    shown.push(n);
                }
                i = i + 1;
                proof {
                    assert(shown@ =~= seq![self.my_name.founder] + drop_all(neighbors@.subrange(0, i as int), founder));
                }
            }
            proof {
                assert(neighbors@.subrange(0, neighbors@.len() as int) =~= neighbors@);
            }
            e.push(CatalogEffect::Neighbors(shown));
        }
        proof {
            assert(effects_view(e@) =~= if at_home(*self) {
                if neighbors@.len() > 0 {
                    seq![EffectView::Neighbors(neighbors@)]
                } else {
                    Seq::<EffectView>::empty()
                }
            } else {
                seq![EffectView::Neighbors(seq![self.my_name.founder] + drop_all(neighbors@, self.swarm_name.founder))]
            });
        }
        e
    }

    /// Answers a neighbor leaving swarm `s_id`: kept, with `s_id`, until
    /// the home swarm is set, shown for the active swarm, and otherwise
    /// let go.
    pub fn neighbor_left(&mut self, s_id: u8, n_id: u64) -> (e: Vec<CatalogEffect>)
        ensures
            kept_but_pending(*old(self), *final(self)),
            !old(self).home_swarm_enforced ==> pending_view(final(self).pending@) == pending_view(
                old(self).pending@,
            ).push((s_id, SwarmEventView::NeighborLeft(n_id))),
            old(self).home_swarm_enforced ==> final(self).pending == old(self).pending,
            effects_view(e@) == if !old(self).home_swarm_enforced {
                Seq::<EffectView>::empty()
            } else if s_id == old(self).swarm_id {
                seq![EffectView::NeighborLeft(n_id)]
            } else {
                Seq::<EffectView>::empty()
            },
    {
        let mut e: Vec<CatalogEffect> = Vec::new();
        if !self.home_swarm_enforced {
            self.pending.push((s_id, SwarmEvent::NeighborLeft(n_id)));
            proof {
                assert(pending_view(self.pending@) =~= pending_view(old(self).pending@).push(
                    (s_id, SwarmEventView::NeighborLeft(n_id)),
                ));
            }
        } else if s_id == self.swarm_id {
            e.push(CatalogEffect::NeighborLeft(n_id));
        }
        proof {
            assert(effects_view(e@) =~= if !old(self).home_swarm_enforced {
                Seq::<EffectView>::empty()
            } else if s_id == old(self).swarm_id {
                seq![EffectView::NeighborLeft(n_id)]
            } else {
                Seq::<EffectView>::empty()
            });
        }
        e
    }
}

/// The bytes of a text in UTF-8.
pub fn utf8_bytes(s: &String) -> (r: Vec<u8>)
    ensures
        r@ == encode_utf8(s@),
{
    let t = s.as_str().as_bytes();
    let mut r: Vec<u8> = Vec::new();
    let mut j: usize = 0;
    while j < t.len()
        invariant
            j <= t@.len(),
            t@ == encode_utf8(s@),
            r@ == t@.subrange(0, j as int),
        decreases t@.len() - j,
    {
        r.push(t[j]);
        j = j + 1;
    }
    proof {
        assert(t@.subrange(0, t@.len() as int) =~= t@);
    }
    r
}

/// The name of tag `id` in the manifest's tags, if it has one.
pub open spec fn tag_name(m: Seq<(u8, String)>, id: u8) -> Option<Seq<char>> {
    let k = last_key(m, id);
    if k >= 0 {
        Some(m[k].1@)
    } else {
        None
    }
}

/// The name of tag `id` (see `tag_name`).
fn find_tag_name(m: &Vec<(u8, String)>, id: u8) -> (r: Option<String>)
    ensures
        opt_str(r) == tag_name(m@, id),
{
    let mut i: usize = m.len();
    proof {
        assert(m@.subrange(0, m@.len() as int) =~= m@);
    }
    while i > 0
        invariant
            i <= m@.len(),
            last_key(m@, id) == last_key(m@.subrange(0, i as int), id),
        decreases i,
    {
        proof {
            assert(m@.subrange(0, i as int).drop_last() =~= m@.subrange(0, i - 1));
        }
        if m[i - 1].0 == id {
            proof {
                assert(m@.subrange(0, i as int).last() == m@[i - 1]);
            }
            return Some(m[i - 1].1.clone());
        }
        i = i - 1;
    }
    proof {
        assert(m@.subrange(0, 0) =~= Seq::<(u8, String)>::empty());
    }
    None
}

/// The first selected position as a tag id.
pub open spec fn bytes_of(ids: Seq<usize>) -> Seq<u8> {
    ids.map_values(|i: usize| i as u8)
}

pub open spec fn t_dtypes() -> Seq<char> {
    "Catalog Application's Data Types"@
}

pub open spec fn t_tags() -> Seq<char> {
    "Catalog Application's Tags"@
}

pub open spec fn t_description() -> Seq<char> {
    " Max size: 764  Multiline  Content Description    (TAB to finish)"@
}

pub open spec fn t_rename() -> Seq<char> {
    " Max size: 32  Oneline  Change Street name    (TAB to finish)"@
}

pub open spec fn t_new_tag() -> Seq<char> {
    " Max size: 32  Oneline  Define new Tag name    (TAB to finish)"@
}

/// What creating the content of a context asks of swarm `s`: a link is
/// written as a link; other content gets its first page (see
/// `page_bytes`), over page 0 when the content exists and as a new content
/// otherwise.
pub open spec fn created(s: u8, c: ContextView) -> Seq<EffectView> {
    match c {
        ContextView::Link(i, _, n, g, d, t) => seq![EffectView::StoreLink(s, i, n, g, d, tag_list_bytes(t))],
        ContextView::Data(i, _, k, d, t) => match i {
            Some(ci) => seq![EffectView::UpdateData(s, ci, 0, page_bytes(t, d))],
            None => seq![EffectView::AppendNewContent(s, k, page_bytes(t, d))],
        },
    }
}

/// Creating content of the link type that is not a link stops with a
/// panic; nothing else that the creator hands back does.
pub open spec fn creator_result_allowed(o: CatalogLogic, r: CreatorResult) -> bool {
    r is Create && o.home_swarm_enforced ==> !(o.state@ matches StateView::Creator(ContextView::Data(
        _,
        _,
        DataKind::Link,
        _,
        _,
    )))
}

/// The answer to what the creator hands back: the data type selector,
/// the tag selector (only the context's tags, closing on the first
/// selection, when only shown), the description in the editor, the village
/// on cancel, and the content created (see `created`), kept until the home
/// swarm is set. Nothing happens outside the creator but that a cancel or
/// a create goes back to the village.
/// Whether creating the creator's content waits for the home swarm.
pub open spec fn creation_postponed(o: CatalogLogic, r: CreatorResult) -> bool {
    r is Create && o.state@ is Creator && !o.home_swarm_enforced
}

pub open spec fn creator_served(o: CatalogLogic, f: CatalogLogic, r: CreatorResult, e: Seq<EffectView>) -> bool {
    match r {
        CreatorResult::Cancel => f.state@ is Village && e == Seq::<EffectView>::empty(),
        CreatorResult::Create => match o.state@ {
            StateView::Creator(c) => if !o.home_swarm_enforced {
                f.state == o.state && e == Seq::<EffectView>::empty()
            } else {
                f.state@ is Village && e == created(o.swarm_id, c)
            },
            _ => f.state@ is Village && e == Seq::<EffectView>::empty(),
        },
        _ => match o.state@ {
            StateView::Creator(c) => match r {
                CreatorResult::SelectDType => f.state@ == StateView::CreatorSelectDtype(c) && e == seq![
                    EffectView::SelectDataTypes(true, t_dtypes(), seq![code_of_kind(ctx_data_type(c)) as usize]),
                ],
                CreatorResult::SelectTags => f.state@ == StateView::CreatorSelectTags(c) && e == seq![
                    if ctx_read_only(c) {
                        EffectView::SelectTags(true, t_tags(), Some(ctx_tags(c)), seq![])
                    } else {
                        EffectView::SelectTags(false, t_tags(), None, widened(ctx_tags(c)))
                    },
                ],
                _ => f.state@ == StateView::CreatorDisplayDescription(c) && e == seq![
                    EffectView::DisplayEditor(
                        ctx_read_only(c),
                        at_home(o),
                        t_description(),
                        Some(ctx_description(c)),
                        true,
                        Some(764u16),
                    ),
                ],
            },
            _ => f.state == o.state && e == Seq::<EffectView>::empty(),
        },
    }
}

/// A choice among the tag's options closes the list unless the first
/// selected position is read; nothing else needs a selection.
pub open spec fn selection_allowed(o: CatalogLogic, ids: Seq<usize>) -> bool {
    o.state@ is ChooseActionForTag ==> ids.len() > 0
}

/// The answer to positions selected in a list: the tags of the creator's
/// context (or, when only shown, the creator again as it was), its data
/// type (one position; kept for an existing content), the options of a
/// tag, or what to do with a tag: rename it or add a new one. Anything else
/// goes back to the village.
pub open spec fn selected_served(o: CatalogLogic, f: CatalogLogic, ids: Seq<usize>, e: Seq<EffectView>) -> bool {
    match o.state@ {
        StateView::CreatorSelectTags(c) => if !ctx_read_only(c) {
            f.state@ == StateView::Creator(with_tags(c, bytes_of(ids))) && e == seq![
                EffectView::DisplayCreator(false, ctx_data_type(c), ctx_description(c), bytes_of(ids)),
            ]
        } else {
            f.state@ == StateView::Creator(c) && e == seq![
                EffectView::DisplayCreator(true, ctx_data_type(c), ctx_description(c), ctx_tags(c)),
            ]
        },
        StateView::CreatorSelectDtype(c) => if ids.len() != 1 {
            f.state == o.state && e == Seq::<EffectView>::empty()
        } else if ctx_content_id(c) is Some {
            f.state@ == StateView::Creator(c) && e == seq![
                EffectView::DisplayCreator(ctx_read_only(c), ctx_data_type(c), ctx_description(c), ctx_tags(c)),
            ]
        } else {
            let k = kind_of_code(ids[0] as u8);
            f.state@ == StateView::Creator(with_data_type(c, k)) && e == seq![
                EffectView::DisplayCreator(false, k, ctx_description(c), ctx_tags(c)),
            ]
        },
        StateView::PresentTags => f.state@ is Village && e == if ids.len() > 0 && tag_name(
            o.manifest_tags@,
            ids[0] as u8,
        ) is Some {
            seq![EffectView::PresentOptionsForTag(ids[0] as u8, tag_name(o.manifest_tags@, ids[0] as u8)->0)]
        } else {
            Seq::<EffectView>::empty()
        },
        StateView::ChooseActionForTag(t, x) => if ids[0] == 1 {
            f.state@ == StateView::ChangeTag(t) && e == seq![
                EffectView::DisplayEditor(false, true, t_rename(), Some(x), true, Some(32u16)),
            ]
        } else if ids[0] == 2 {
            f.state@ == StateView::AddTag && e == seq![
                EffectView::DisplayEditor(false, true, t_new_tag(), None, false, Some(32u16)),
            ]
        } else {
            f.state@ is Village && e == Seq::<EffectView>::empty()
        },
        _ => f.state@ is Village && e == Seq::<EffectView>::empty(),
    }
}

/// The answer to the editor closing, with the text typed or without: a
/// new tag, a tag renamed (to a text that is not empty), a new data type,
/// a note added to a content, the creator's description (kept when only
/// shown), a page of a listed content rewritten (the list shown again when
/// nothing was typed), or a search started. Everything but the list goes
/// back to the village.
pub open spec fn edited(o: CatalogLogic, f: CatalogLogic, t: Option<Seq<char>>, e: Seq<EffectView>) -> bool {
    match o.state@ {
        StateView::Indexing(c, p, k, tg, d, h, n) => match t {
            Some(x) => f.state@ is Village && e == match p {
                Some(pid) => seq![EffectView::UpdateData(o.swarm_id, c, pid, encode_utf8(x))],
                None => Seq::<EffectView>::empty(),
            },
            None => f.state@ == o.state@ && e == seq![EffectView::DisplayIndexer(h)],
        },
        StateView::CreatorDisplayDescription(c) => match t {
            Some(x) => if !ctx_read_only(c) {
                f.state@ == StateView::Creator(with_description(c, x)) && e == seq![
                    EffectView::DisplayCreator(false, ctx_data_type(c), x, ctx_tags(c)),
                ]
            } else {
                f.state@ == StateView::Creator(c) && e == seq![
                    EffectView::DisplayCreator(true, ctx_data_type(c), ctx_description(c), ctx_tags(c)),
                ]
            },
            None => f.state@ is Village && e == Seq::<EffectView>::empty(),
        },
        _ => f.state@ is Village && e == match t {
            None => Seq::<EffectView>::empty(),
            Some(x) => match o.state@ {
                StateView::AddTag => seq![EffectView::AddTags(seq![x])],
                StateView::ChangeTag(id) => if x.len() > 0 {
                    seq![EffectView::ChangeTag(id, x)]
                } else {
                    Seq::<EffectView>::empty()
                },
                StateView::AddDType => seq![EffectView::AddDataType(x)],
                StateView::AppendData(c) => seq![EffectView::AppendData(o.swarm_id, c, encode_utf8(x))],
                StateView::AddSearch => seq![EffectView::Search(x)],
                _ => Seq::<EffectView>::empty(),
            },
        },
    }
}

impl CatalogLogic {
    /// Answers what the creator hands back (see `creator_served`).
    pub fn creator_result(&mut self, r: CreatorResult) -> (e: Vec<CatalogEffect>)
        requires
            creator_result_allowed(*old(self), r),
        ensures
            kept_but_queues(*old(self), *final(self)),
            final(self).pending == old(self).pending,
            if creation_postponed(*old(self), r) {
                screen_events_view(final(self).postponed@) == screen_events_view(old(self).postponed@).push(
                    ScreenEventView::CreatorCreate,
                )
            } else {
                final(self).postponed == old(self).postponed
            },
            creator_served(*old(self), *final(self), r, effects_view(e@)),
    {
        let mut e: Vec<CatalogEffect> = Vec::new();
        let ghost o = *self;
        match r {
            CreatorResult::Cancel => {
                self.state = CatalogState::Village;
                proof {
                    assert(effects_view(e@) =~= Seq::<EffectView>::empty());
                }
            },
            CreatorResult::Create => {
                let mut prev = CatalogState::Village;
                std::mem::swap(&mut prev, &mut self.state);
                match prev {
                    CatalogState::Creator(c) => {
                        if !self.home_swarm_enforced {
                            self.state = CatalogState::Creator(c);
                            self.postponed.push(ScreenEvent::CreatorCreate);
                            proof {
                                assert(screen_events_view(self.postponed@) =~= screen_events_view(
                                    old(self).postponed@,
                                ).push(ScreenEventView::CreatorCreate));
                                assert(effects_view(e@) =~= Seq::<EffectView>::empty());
                            }
                        } else {
                            match c {
                                CreatorContext::Link { c_id, s_name, target_id, description, tags, .. } => {
                                    let list = tag_list(&tags);
                                    e.push(CatalogEffect::StoreLink(self.swarm_id, c_id, s_name, target_id, description, list));
                                },
                                CreatorContext::Data { c_id, d_type, description, tags, .. } => {
                                    let bytes = first_page(&tags, &description);
                                    match c_id {
                                        Some(ci) => e.push(CatalogEffect::UpdateData(self.swarm_id, ci, 0, bytes)),
                                        None => e.push(CatalogEffect::AppendNewContent(self.swarm_id, d_type, bytes)),
                                    }
                                },
                            }
                            proof {
                                assert(effects_view(e@) =~= created(o.swarm_id, c@));
                            }
                        }
                    },
                    other => {
                        proof {
                            assert(effects_view(e@) =~= Seq::<EffectView>::empty());
                        }
                    },
                }
            },
            _ => {
                let mut prev = CatalogState::Village;
                std::mem::swap(&mut prev, &mut self.state);
                match prev {
                    CatalogState::Creator(c) => {
                        let ghost cv = c@;
                        match r {
                            CreatorResult::SelectDType => {
                                let code = code_from_kind(c.data_type());
                                let mut pre: Vec<usize> = Vec::new();
                                pre.push(code as usize);
                                e.push(CatalogEffect::SelectDataTypes(true, String::from_str("Catalog Application's Data Types"), pre));
                                self.state = CatalogState::CreatorSelectDtype(c);
                                proof {
                                    assert(pre@ =~= seq![code_of_kind(ctx_data_type(cv)) as usize]);
                                }
                            },
                            CreatorResult::SelectTags => {
                                let tags = c.get_tags();
                                let title = String::from_str("Catalog Application's Tags");
                                if c.is_read_only() {
                                    e.push(CatalogEffect::SelectTags(true, title, Some(tags), Vec::new()));
                                } else {
                                    let mut long_ids: Vec<usize> = Vec::new();
                                    let mut i: usize = 0;
                                    while i < tags.len()
                                        invariant
                                            i <= tags@.len(),
                                            long_ids@ == widened(tags@.subrange(0, i as int)),
                                        decreases tags@.len() - i,
                                    {
                                        long_ids.push(tags[i] as usize);
                                        i = i + 1;
                                        proof {
                                            assert(long_ids@ =~= widened(tags@.subrange(0, i as int)));
                                        }
                                    }
                                    proof {
                                        assert(tags@.subrange(0, tags@.len() as int) =~= tags@);
                                    }
                                    e.push(CatalogEffect::SelectTags(false, title, None, long_ids));
                                }
                                self.state = CatalogState::CreatorSelectTags(c);
                            },
                            _ => {
                                let ro = c.is_read_only();
                                let home = self.my_name.same_as(&self.swarm_name);
                                let d = c.description();
                                e.push(
                                    CatalogEffect::DisplayEditor(
                                        ro,
                                        home,
                                        String::from_str(" Max size: 764  Multiline  Content Description    (TAB to finish)"),
                                        Some(d),
                                        true,
                                        Some(764),
                                    ),
                                );
                                self.state = CatalogState::CreatorDisplayDescription(c);
                            },
                        }
                        proof {
                            assert(effects_view(e@) =~= match r {
                                CreatorResult::SelectDType => seq![
                                    EffectView::SelectDataTypes(true, t_dtypes(), seq![code_of_kind(ctx_data_type(cv)) as usize]),
                                ],
                                CreatorResult::SelectTags => seq![
                                    if ctx_read_only(cv) {
                                        EffectView::SelectTags(true, t_tags(), Some(ctx_tags(cv)), seq![])
                                    } else {
                                        EffectView::SelectTags(false, t_tags(), None, widened(ctx_tags(cv)))
                                    },
                                ],
                                _ => seq![
                                    EffectView::DisplayEditor(
                                        ctx_read_only(cv),
                                        at_home(o),
                                        t_description(),
                                        Some(ctx_description(cv)),
                                        true,
                                        Some(764u16),
                                    ),
                                ],
                            });
                        }
                    },
                    other => {
                        self.state = other;
                        proof {
                            assert(effects_view(e@) =~= Seq::<EffectView>::empty());
                        }
                    },
                }
            },
        }
        e
    }

    /// Offers what can be done with a tag: go to its street, rename it,
    /// add a new street, or cancel.
    pub fn present_options_for_tag(&mut self, tag_idx: u8, tag_text: String) -> (e: Vec<CatalogEffect>)
        ensures
            catalog_kept(*old(self), *final(self)),
            final(self).state@ == StateView::ChooseActionForTag(tag_idx, tag_text@),
            effects_view(e@) == seq![
                EffectView::DisplaySelector(
                    true,
                    "What to do with "@ + tag_text@,
                    seq!["Go to street"@, "Change name"@, "Add new street"@, "Cancel"@],
                    seq![],
                ),
            ],
    {
        let mut t: Vec<char> = Vec::new();
        crate::forum::push_str(&mut t, "What to do with ");
        crate::forum::push_str(&mut t, tag_text.as_str());
        let title = crate::chars::string_of(&t);
        let mut options: Vec<String> = Vec::new();
        options.push(String::from_str("Go to street"));
        options.push(String::from_str("Change name"));
        options.push(String::from_str("Add new street"));
        options.push(String::from_str("Cancel"));
        self.state = CatalogState::ChooseActionForTag(tag_idx, tag_text);
        let mut e: Vec<CatalogEffect> = Vec::new();
        e.push(CatalogEffect::DisplaySelector(true, title, options, Vec::new()));
        proof {
            assert(names(options@) =~= seq!["Go to street"@, "Change name"@, "Add new street"@, "Cancel"@]);
            assert(effects_view(e@) =~= seq![
                EffectView::DisplaySelector(
                    true,
                    "What to do with "@ + self.state->ChooseActionForTag_1@,
                    seq!["Go to street"@, "Change name"@, "Add new street"@, "Cancel"@],
                    seq![],
                ),
            ]);
        }
        e
    }
}

impl CatalogLogic {
    /// Answers positions selected in a list (see `selected_served`).
    pub fn selected_indices(&mut self, indices: Vec<usize>) -> (e: Vec<CatalogEffect>)
        requires
            selection_allowed(*old(self), indices@),
        ensures
            catalog_kept(*old(self), *final(self)),
            selected_served(*old(self), *final(self), indices@, effects_view(e@)),
    {
        let ghost o = *self;
        let mut e: Vec<CatalogEffect> = Vec::new();
        let mut prev = CatalogState::Village;
        std::mem::swap(&mut prev, &mut self.state);
        match prev {
            CatalogState::CreatorSelectTags(c) => {
                let ghost cv = c@;
                let kind = c.data_type();
                let d = c.description();
                if !c.is_read_only() {
                    let mut ids: Vec<u8> = Vec::new();
                    let mut i: usize = 0;
                    while i < indices.len()
                        invariant
                            i <= indices@.len(),
                            ids@ == bytes_of(indices@.subrange(0, i as int)),
                        decreases indices@.len() - i,
                    {
                        ids.push(indices[i] as u8);
                        i = i + 1;
                        proof {
                            assert(ids@ =~= bytes_of(indices@.subrange(0, i as int)));
                        }
                    }
                    proof {
                        assert(indices@.subrange(0, indices@.len() as int) =~= indices@);
                    }
                    let shown = copy_bytes(&ids);
                    let mut c2 = c;
                    c2.set_tags(ids);
                    self.state = CatalogState::Creator(c2);
                    e.push(CatalogEffect::DisplayCreator(false, kind, d, shown));
                } else {
                    let tags = c.get_tags();
                    self.state = CatalogState::Creator(c);
                    e.push(CatalogEffect::DisplayCreator(true, kind, d, tags));
                }
                proof {
                    assert(effects_view(e@) =~= if !ctx_read_only(cv) {
                        seq![EffectView::DisplayCreator(false, ctx_data_type(cv), ctx_description(cv), bytes_of(indices@))]
                    } else {
                        seq![EffectView::DisplayCreator(true, ctx_data_type(cv), ctx_description(cv), ctx_tags(cv))]
                    });
                }
            },
            CatalogState::CreatorSelectDtype(c) => {
                let ghost cv = c@;
                if indices.len() != 1 {
                    self.state = CatalogState::CreatorSelectDtype(c);
                    proof {
                        assert(effects_view(e@) =~= Seq::<EffectView>::empty());
                    }
                } else {
                    let d = c.description();
                    let tags = c.get_tags();
                    if c.content_id().is_some() {
                        let ro = c.is_read_only();
                        let kind = c.data_type();
                        self.state = CatalogState::Creator(c);
                        e.push(CatalogEffect::DisplayCreator(ro, kind, d, tags));
                        proof {
                            assert(effects_view(e@) =~= seq![
                                EffectView::DisplayCreator(ctx_read_only(cv), ctx_data_type(cv), ctx_description(cv), ctx_tags(cv)),
                            ]);
                        }
                    } else {
                        let k = kind_from_code(indices[0] as u8);
                        let mut c2 = c;
                        c2.set_data_type(k);
                        self.state = CatalogState::Creator(c2);
                        e.push(CatalogEffect::DisplayCreator(false, k, d, tags));
                        proof {
                            assert(effects_view(e@) =~= seq![
                                EffectView::DisplayCreator(false, k, ctx_description(cv), ctx_tags(cv)),
                            ]);
                        }
                    }
                }
            },
            CatalogState::PresentTags => {
                if indices.len() > 0 {
                    let idx = indices[0] as u8;
                    match find_tag_name(&self.manifest_tags, idx) {
                        Some(name) => e.push(CatalogEffect::PresentOptionsForTag(idx, name)),
                        None => {},
                    }
                }
                proof {
                    assert(effects_view(e@) =~= if indices@.len() > 0 && tag_name(o.manifest_tags@, indices@[0] as u8) is Some {
                        seq![EffectView::PresentOptionsForTag(indices@[0] as u8, tag_name(o.manifest_tags@, indices@[0] as u8)->0)]
                    } else {
                        Seq::<EffectView>::empty()
                    });
                }
            },
            CatalogState::ChooseActionForTag(t, x) => {
                if indices[0] == 1 {
                    e.push(
                        CatalogEffect::DisplayEditor(
                            false,
                            true,
                            String::from_str(" Max size: 32  Oneline  Change Street name    (TAB to finish)"),
                            Some(x),
                            true,
                            Some(32),
                        ),
                    );
                    self.state = CatalogState::ChangeTag(t);
                } else if indices[0] == 2 {
                    e.push(
                        CatalogEffect::DisplayEditor(
                            false,
                            true,
                            String::from_str(" Max size: 32  Oneline  Define new Tag name    (TAB to finish)"),
                            None,
                            false,
                            Some(32),
                        ),
                    );
                    self.state = CatalogState::AddTag;
                }
                proof {
                    assert(effects_view(e@) =~= if indices@[0] == 1 {
                        seq![EffectView::DisplayEditor(false, true, t_rename(), Some(x@), true, Some(32u16))]
                    } else if indices@[0] == 2 {
                        seq![EffectView::DisplayEditor(false, true, t_new_tag(), None, false, Some(32u16))]
                    } else {
                        Seq::<EffectView>::empty()
                    });
                }
            },
            _ => {
                proof {
                    assert(effects_view(e@) =~= Seq::<EffectView>::empty());
                }
            },
        }
        e
    }

    /// Answers the editor closing (see `edited`).
    pub fn edit_result(&mut self, text: Option<String>) -> (e: Vec<CatalogEffect>)
        ensures
            catalog_kept(*old(self), *final(self)),
            edited(*old(self), *final(self), opt_str(text), effects_view(e@)),
    {
        let ghost o = *self;
        let ghost t = opt_str(text);
        let mut e: Vec<CatalogEffect> = Vec::new();
        let mut prev = CatalogState::Village;
        std::mem::swap(&mut prev, &mut self.state);
        match prev {
            CatalogState::Indexing(c, p, k, tg, d, h, n) => {
                match text {
                    Some(x) => {
                        match p {
                            Some(pid) => e.push(CatalogEffect::UpdateData(self.swarm_id, c, pid, utf8_bytes(&x))),
                            None => {},
                        }
                        proof {
                            assert(effects_view(e@) =~= match p {
                                Some(pid) => seq![EffectView::UpdateData(o.swarm_id, c, pid, encode_utf8(x@))],
                                None => Seq::<EffectView>::empty(),
                            });
                        }
                    },
                    None => {
                        let shown = copy_names(&h);
                        self.state = CatalogState::Indexing(c, p, k, tg, d, h, n);
                        e.push(CatalogEffect::DisplayIndexer(shown));
                        proof {
                            assert(effects_view(e@) =~= seq![EffectView::DisplayIndexer(names(h@))]);
                        }
                    },
                }
            },
            CatalogState::CreatorDisplayDescription(c) => {
                let ghost cv = c@;
                match text {
                    Some(x) => {
                        let kind = c.data_type();
                        let tags = c.get_tags();
                        if !c.is_read_only() {
                            let shown = x.clone();
                            let mut c2 = c;
                            c2.set_description(x);
                            self.state = CatalogState::Creator(c2);
                            e.push(CatalogEffect::DisplayCreator(false, kind, shown, tags));
                        } else {
                            let d = c.description();
                            self.state = CatalogState::Creator(c);
                            e.push(CatalogEffect::DisplayCreator(true, kind, d, tags));
                        }
                        proof {
                            assert(effects_view(e@) =~= if !ctx_read_only(cv) {
                                seq![EffectView::DisplayCreator(false, ctx_data_type(cv), t->0, ctx_tags(cv))]
                            } else {
                                seq![EffectView::DisplayCreator(true, ctx_data_type(cv), ctx_description(cv), ctx_tags(cv))]
                            });
                        }
                    },
                    None => {
                        proof {
                            assert(effects_view(e@) =~= Seq::<EffectView>::empty());
                        }
                    },
                }
            },
            CatalogState::AddTag => {
                if let Some(x) = text {
                    let mut v: Vec<String> = Vec::new();
                    v.push(x);
                    e.push(CatalogEffect::AddTags(v));
                    proof {
                        assert(names(v@) =~= seq![t->0]);
                    }
                }
                proof {
                    assert(effects_view(e@) =~= match t {
                        Some(x) => seq![EffectView::AddTags(seq![x])],
                        None => Seq::<EffectView>::empty(),
                    });
                }
            },
            CatalogState::ChangeTag(id) => {
                if let Some(x) = text {
                    if x.as_str().unicode_len() > 0 {
                        e.push(CatalogEffect::ChangeTag(id, x));
                    }
                }
                proof {
                    assert(effects_view(e@) =~= match t {
                        Some(x) => if x.len() > 0 {
                            seq![EffectView::ChangeTag(id, x)]
                        } else {
                            Seq::<EffectView>::empty()
                        },
                        None => Seq::<EffectView>::empty(),
                    });
                }
            },
            CatalogState::AddDType => {
                if let Some(x) = text {
                    e.push(CatalogEffect::AddDataType(x));
                }
                proof {
                    assert(effects_view(e@) =~= match t {
                        Some(x) => seq![EffectView::AddDataType(x)],
                        None => Seq::<EffectView>::empty(),
                    });
                }
            },
            CatalogState::AppendData(c) => {
                if let Some(x) = text {
                    e.push(CatalogEffect::AppendData(self.swarm_id, c, utf8_bytes(&x)));
                }
                proof {
                    assert(effects_view(e@) =~= match t {
                        Some(x) => seq![EffectView::AppendData(o.swarm_id, c, encode_utf8(x))],
                        None => Seq::<EffectView>::empty(),
                    });
                }
            },
            CatalogState::AddSearch => {
                if let Some(x) = text {
                    e.push(CatalogEffect::Search(x));
                }
                proof {
                    assert(effects_view(e@) =~= match t {
                        Some(x) => seq![EffectView::Search(x)],
                        None => Seq::<EffectView>::empty(),
                    });
                }
            },
            _ => {
                proof {
                    assert(effects_view(e@) =~= Seq::<EffectView>::empty());
                }
            },
        }
        e
    }
}

pub open spec fn t_new_dtype() -> Seq<char> {
    " Max size: 32  Oneline  Define new Data Type    (TAB to finish)"@
}

pub open spec fn t_search() -> Seq<char> {
    " Max size: 1024 Multiline  Add a new Search   (TAB to finish)"@
}

/// The description of a new link to content `c` of the swarm shown as
/// `label`.
pub open spec fn link_text(label: Seq<char>, c: u16) -> Seq<char> {
    "Link to "@ + label + "-"@ + decimal(c as nat)
}

/// The notice that content `c` went on the clipboard.
pub open spec fn copied_text(c: u16) -> Seq<char> {
    "Zawartość "@ + decimal(c as nat) + " skopiowana"@
}

/// Everything but the state and the clipboard stays.
pub open spec fn kept_but_clipboard(a: CatalogLogic, b: CatalogLogic) -> bool {
    &&& a.postponed == b.postponed
    &&& a.pending == b.pending
    &&& a.my_name == b.my_name
    &&& a.any_id == b.any_id
    &&& a.swarm_id == b.swarm_id
    &&& a.swarm_name == b.swarm_name
    &&& a.swarm_label == b.swarm_label
    &&& a.shell == b.shell
    &&& a.manifest_tags == b.manifest_tags
    &&& a.tag_ring == b.tag_ring
    &&& a.visible_count == b.visible_count
    &&& a.visible_streets == b.visible_streets
    &&& a.home_swarm_enforced == b.home_swarm_enforced
}

/// The answer to a choice in the home's context menu: the tags, the
/// data types, a new tag, a new data type, the creator, the public
/// addresses, the active swarms, or a new search.
pub open spec fn home_action(o: CatalogLogic, f: CatalogLogic, a: usize, e: Seq<EffectView>) -> bool {
    if a == 1 {
        f.state@ is PresentTags && e == seq![EffectView::SelectTags(true, t_tags(), None, seq![])]
    } else if a == 2 {
        f.state@ is Village && e == seq![EffectView::SelectDataTypes(true, t_dtypes(), seq![])]
    } else if a == 3 {
        f.state@ is AddTag && e == seq![EffectView::DisplayEditor(false, true, t_new_tag(), None, false, Some(32u16))]
    } else if a == 4 {
        f.state@ is AddDType && e == seq![EffectView::DisplayEditor(false, true, t_new_dtype(), None, false, Some(32u16))]
    } else if a == 5 {
        f.state@ == StateView::Creator(fresh_context()) && e == seq![
            EffectView::DisplayCreator(false, DataKind::Data(0), seq![], seq![]),
        ]
    } else if a == 6 {
        f.state@ is Village && e == seq![EffectView::ShowPublicIps]
    } else if a == 7 {
        f.state@ == StateView::ShowActiveSwarms(seq![]) && e == seq![EffectView::ProvideGnomeToSwarmMapping]
    } else if a == 8 {
        f.state@ is AddSearch && e == seq![EffectView::DisplayEditor(false, true, t_search(), None, true, Some(1024u16))]
    } else {
        f.state@ is Village && e == Seq::<EffectView>::empty()
    }
}

/// The answer to a choice in a content's context menu: a note added, a
/// page removed (its pages read first), or the content copied.
pub open spec fn content_action(o: CatalogLogic, f: CatalogLogic, c: u16, a: usize, e: Seq<EffectView>) -> bool {
    if a == 1 {
        f.state@ == StateView::AppendData(c) && f.clipboard == o.clipboard && e == seq![
            EffectView::DisplayEditor(false, true, "Add Note"@, None, true, Some(1024u16)),
        ]
    } else if a == 2 {
        f.state@ == StateView::RemovePage(c) && f.clipboard == o.clipboard && e == seq![
            EffectView::ReadAllPages(o.swarm_id, c),
        ]
    } else if a == 3 {
        &&& f.state@ is Village
        &&& e == seq![EffectView::Notify(copied_text(c))]
        &&& f.clipboard matches Some(x) && x.0 == o.swarm_name && x.1 == o.swarm_label && x.2 == c
    } else {
        f.state@ is Village && f.clipboard == o.clipboard && e == Seq::<EffectView>::empty()
    }
}

/// The answer to a choice in a field's context menu: a link to the
/// copied content (the clipboard emptied), or the running searches.
pub open spec fn field_action(o: CatalogLogic, f: CatalogLogic, a: usize, e: Seq<EffectView>) -> bool {
    if a == 1 {
        f.clipboard is None && match o.clipboard {
            Some(x) => f.state@ == StateView::Creator(
                ContextView::Link(None, false, swarm_view(x.0), x.2, link_text(x.1@, x.2), seq![]),
            ) && e == seq![
                EffectView::Notify("O właśnie :D"@),
                EffectView::DisplayLinkCreator(link_text(x.1@, x.2)),
            ],
            None => f.state@ is Village && e == seq![EffectView::Notify("Najpierw skopiuj Zawartość"@)],
        }
    } else {
        f.state@ is Village && f.clipboard == o.clipboard && e == if a == 8 {
            seq![EffectView::ListSearches]
        } else {
            Seq::<EffectView>::empty()
        }
    }
}

/// The answer to a choice in the context menu shown: by the tile it was
/// shown on; nothing without a menu.
pub open spec fn cmenu_served(o: CatalogLogic, f: CatalogLogic, a: usize, e: Seq<EffectView>) -> bool {
    match o.state@ {
        StateView::ContextMenuOn(TileType::Home(_)) => f.clipboard == o.clipboard && home_action(o, f, a, e),
        StateView::ContextMenuOn(TileType::Content(_, c)) => content_action(o, f, c, a, e),
        StateView::ContextMenuOn(TileType::Field) => field_action(o, f, a, e),
        _ => f.state == o.state && f.clipboard == o.clipboard && e == Seq::<EffectView>::empty(),
    }
}

/// Streets with their contents in the index.
pub open spec fn streets_of(
    m: Map<Seq<char>, Set<(u8, u16, Seq<char>)>>,
    s: Seq<Seq<char>>,
) -> Seq<(Seq<char>, Set<(u8, u16, Seq<char>)>)> {
    s.map_values(|t: Seq<char>| (t, contents_of(m, t)))
}

/// The answer to a choice in the list of an index: a page removed (not
/// the first), the content's header in the creator or a page in the
/// editor, another swarm made active, a search's results asked for, or a
/// search hit followed.
pub open spec fn indexed(o: CatalogLogic, f: CatalogLogic, i: Option<usize>, e: Seq<EffectView>) -> bool {
    match o.state@ {
        StateView::RemovePage(c) => f.state@ is Village && e == match i {
            Some(x) => if x > 0 {
                seq![EffectView::RemoveData(o.swarm_id, c, x as u16)]
            } else {
                Seq::<EffectView>::empty()
            },
            None => Seq::<EffectView>::empty(),
        },
        StateView::Indexing(c, p, k, tg, d, h, n) => match i {
            Some(x) => if x == 0 {
                f.state@ == StateView::Creator(ContextView::Data(Some(c), !at_home(o), k, d, tg)) && e == seq![
                    EffectView::DisplayCreator(!at_home(o), k, d, tg),
                ]
            } else {
                f.state@ == StateView::Indexing(c, Some(x as u16), k, tg, d, h, n) && e == seq![
                    EffectView::DisplayEditor(
                        true,
                        at_home(o),
                        "Page #"@ + decimal(x as nat),
                        if x < n.len() {
                            Some(n[x as int])
                        } else {
                            None
                        },
                        true,
                        Some(1024u16),
                    ),
                ]
            },
            None => f.state@ is Village && e == Seq::<EffectView>::empty(),
        },
        StateView::ShowActiveSwarms(m) => match i {
            Some(x) => if x < m.len() {
                f.state@ is Village && e == seq![
                    EffectView::SetActiveApp(m[x as int].0),
                    EffectView::SwapTiles((m[x as int].0).0),
                ]
            } else {
                f.state == o.state && e == Seq::<EffectView>::empty()
            },
            None => f.state@ is Village && e == Seq::<EffectView>::empty(),
        },
        StateView::ListSearches(l) => f.state == o.state && e == match i {
            Some(x) => if x < l.len() {
                seq![EffectView::GetSearchResults(l[x as int].0)]
            } else {
                Seq::<EffectView>::empty()
            },
            None => Seq::<EffectView>::empty(),
        },
        StateView::SearchResults(l) => match i {
            Some(x) => if x < l.len() {
                f.state@ == StateView::ReadLinkToFollow(0, Some(l[x as int])) && e == seq![
                    EffectView::SetActiveApp(l[x as int].0),
                ]
            } else {
                f.state == o.state && e == Seq::<EffectView>::empty()
            },
            None => f.state == o.state && e == Seq::<EffectView>::empty(),
        },
        _ => f.state == o.state && e == Seq::<EffectView>::empty(),
    }
}

/// A text made of a label, a number and a suffix.
fn label_number(a: &str, n: u64, b: &str) -> (s: String)
    ensures
        s@ == a@ + decimal(n as nat) + b@,
{
    let mut v: Vec<char> = Vec::new();
    crate::forum::push_str(&mut v, a);
    push_decimal(&mut v, n);
    crate::forum::push_str(&mut v, b);
    crate::chars::string_of(&v)
}

/// The description of a new link (see `link_text`).
fn link_description(label: &String, c: u16) -> (s: String)
    ensures
        s@ == link_text(label@, c),
{
    let mut v: Vec<char> = Vec::new();
    crate::forum::push_str(&mut v, "Link to ");
    crate::forum::push_str(&mut v, label.as_str());
    crate::forum::push_str(&mut v, "-");
    push_decimal(&mut v, c as u64);
    crate::chars::string_of(&v)
}

impl CatalogLogic {
    /// Opens the creator on a new link to content `target_id` of swarm
    /// `s_name`.
    pub fn run_link_creator(&mut self, s_name: SwarmRef, target_id: u16, description: String, tags: Vec<u8>) -> (e:
        Vec<CatalogEffect>)
        ensures
            catalog_kept(*old(self), *final(self)),
            final(self).state@ == StateView::Creator(
                ContextView::Link(None, false, swarm_view(s_name), target_id, description@, tags@),
            ),
            effects_view(e@) == seq![EffectView::DisplayLinkCreator(description@)],
    {
        let shown = description.clone();
        self.state = CatalogState::Creator(
            CreatorContext::Link { c_id: None, read_only: false, s_name, target_id, description, tags },
        );
        let mut e: Vec<CatalogEffect> = Vec::new();
        e.push(CatalogEffect::DisplayLinkCreator(shown));
        proof {
            assert(effects_view(e@) =~= seq![EffectView::DisplayLinkCreator(description@)]);
        }
        e
    }

    /// Answers a choice in the context menu shown (see `cmenu_served`).
    pub fn cmenu_action(&mut self, action: usize) -> (e: Vec<CatalogEffect>)
        ensures
            kept_but_clipboard(*old(self), *final(self)),
            cmenu_served(*old(self), *final(self), action, effects_view(e@)),
    {
        let ghost o = *self;
        let mut e: Vec<CatalogEffect> = Vec::new();
        let mut prev = CatalogState::Village;
        std::mem::swap(&mut prev, &mut self.state);
        match prev {
            CatalogState::ContextMenuOn(TileType::Home(g)) => {
                if action == 1 {
                    self.state = CatalogState::PresentTags;
                    e.push(CatalogEffect::SelectTags(true, String::from_str("Catalog Application's Tags"), None, Vec::new()));
                } else if action == 2 {
                    e.push(CatalogEffect::SelectDataTypes(true, String::from_str("Catalog Application's Data Types"), Vec::new()));
                } else if action == 3 {
                    self.state = CatalogState::AddTag;
                    e.push(
                        CatalogEffect::DisplayEditor(
                            false,
                            true,
                            String::from_str(" Max size: 32  Oneline  Define new Tag name    (TAB to finish)"),
                            None,
                            false,
                            Some(32),
                        ),
                    );
                } else if action == 4 {
                    self.state = CatalogState::AddDType;
                    e.push(
                        CatalogEffect::DisplayEditor(
                            false,
                            true,
                            String::from_str(" Max size: 32  Oneline  Define new Data Type    (TAB to finish)"),
                            None,
                            false,
                            Some(32),
                        ),
                    );
                } else if action == 5 {
                    e = self.run_creator();
                } else if action == 6 {
                    e.push(CatalogEffect::ShowPublicIps);
                } else if action == 7 {
                    self.state = CatalogState::ShowActiveSwarms(Vec::new());
                    e.push(CatalogEffect::ProvideGnomeToSwarmMapping);
                } else if action == 8 {
                    self.state = CatalogState::AddSearch;
                    e.push(
                        CatalogEffect::DisplayEditor(
                            false,
                            true,
                            String::from_str(" Max size: 1024 Multiline  Add a new Search   (TAB to finish)"),
                            None,
                            true,
                            Some(1024),
                        ),
                    );
                }
                proof {
                    let sv: Seq<(SwarmRef, u8)> = seq![];
                    assert(sv.map_values(|x: (SwarmRef, u8)| (swarm_view(x.0), x.1)) =~= seq![]);
                    assert(home_action(o, *self, action, effects_view(e@))) by {
                        if action == 1 {
                            assert(effects_view(e@) =~= seq![EffectView::SelectTags(true, t_tags(), None, seq![])]);
                        } else if action == 2 {
                            assert(effects_view(e@) =~= seq![EffectView::SelectDataTypes(true, t_dtypes(), seq![])]);
                        } else if action == 3 {
                            assert(effects_view(e@) =~= seq![
                                EffectView::DisplayEditor(false, true, t_new_tag(), None, false, Some(32u16)),
                            ]);
                        } else if action == 4 {
                            assert(effects_view(e@) =~= seq![
                                EffectView::DisplayEditor(false, true, t_new_dtype(), None, false, Some(32u16)),
                            ]);
                        } else if action == 6 {
                            assert(effects_view(e@) =~= seq![EffectView::ShowPublicIps]);
                        } else if action == 7 {
                            assert(effects_view(e@) =~= seq![EffectView::ProvideGnomeToSwarmMapping]);
                        } else if action == 8 {
                            assert(effects_view(e@) =~= seq![
                                EffectView::DisplayEditor(false, true, t_search(), None, true, Some(1024u16)),
                            ]);
                        } else if action != 5 {
                            assert(effects_view(e@) =~= Seq::<EffectView>::empty());
                        }
                    }
                }
            },
            CatalogState::ContextMenuOn(TileType::Content(code, c)) => {
                if action == 1 {
                    self.state = CatalogState::AppendData(c);
                    e.push(
                        CatalogEffect::DisplayEditor(false, true, String::from_str("Add Note"), None, true, Some(1024)),
                    );
                    proof {
                        assert(effects_view(e@) =~= seq![
                            EffectView::DisplayEditor(false, true, "Add Note"@, None, true, Some(1024u16)),
                        ]);
                    }
                } else if action == 2 {
                    e = self.query_content_for_indexer(c);
                    self.state = CatalogState::RemovePage(c);
                } else if action == 3 {
                    self.clipboard = Some((self.swarm_name.duplicate(), self.swarm_label.clone(), c));
                    e.push(CatalogEffect::Notify(label_number("Zawartość ", c as u64, " skopiowana")));
                    proof {
                        assert(effects_view(e@) =~= seq![EffectView::Notify(copied_text(c))]);
                    }
                } else {
                    proof {
                        assert(effects_view(e@) =~= Seq::<EffectView>::empty());
                    }
                }
            },
            CatalogState::ContextMenuOn(TileType::Field) => {
                if action == 1 {
                    let clip = self.clipboard.take();
                    match clip {
                        Some((s_name, label, c)) => {
                            let d = link_description(&label, c);
                            e.push(CatalogEffect::Notify(String::from_str("O właśnie :D")));
                            let mut more = self.run_link_creator(s_name, c, d, Vec::new());
                            let ghost first = e@;
                            let ghost m = more@;
                            e.append(&mut more);
                            proof {
                                assert(e@ == first + m);
                                assert(effects_view(m) == seq![EffectView::DisplayLinkCreator(link_text(label@, c))]);
                                assert(effects_view(m).len() == m.len());
                                assert(m.len() == 1);
                                assert(m[0]@ == effects_view(m)[0]);
                                assert(e@[1] == m[0]);
                                assert(effects_view(e@) =~= seq![
                                    EffectView::Notify("O właśnie :D"@),
                                    EffectView::DisplayLinkCreator(link_text(label@, c)),
                                ]);
                            }
                        },
                        None => {
                            e.push(CatalogEffect::Notify(String::from_str("Najpierw skopiuj Zawartość")));
                            proof {
                                assert(effects_view(e@) =~= seq![EffectView::Notify("Najpierw skopiuj Zawartość"@)]);
                            }
                        },
                    }
                } else {
                    if action == 8 {
                        e.push(CatalogEffect::ListSearches);
                    }
                    proof {
                        assert(effects_view(e@) =~= if action == 8 {
                            seq![EffectView::ListSearches]
                        } else {
                            Seq::<EffectView>::empty()
                        });
                    }
                }
            },
            other => {
                self.state = other;
                proof {
                    assert(effects_view(e@) =~= Seq::<EffectView>::empty());
                }
            },
        }
        e
    }
}

impl CatalogLogic {
    /// Answers a choice in the list of an index (see `indexed`).
    pub fn index_result(&mut self, i_result: Option<usize>) -> (e: Vec<CatalogEffect>)
        ensures
            catalog_kept(*old(self), *final(self)),
            indexed(*old(self), *final(self), i_result, effects_view(e@)),
    {
        let ghost o = *self;
        let mut e: Vec<CatalogEffect> = Vec::new();
        let mut prev = CatalogState::Village;
        std::mem::swap(&mut prev, &mut self.state);
        match prev {
            CatalogState::RemovePage(c) => {
                if let Some(x) = i_result {
                    if x > 0 {
                        e.push(CatalogEffect::RemoveData(self.swarm_id, c, x as u16));
                    }
                }
                proof {
                    assert(effects_view(e@) =~= match i_result {
                        Some(x) => if x > 0 {
                            seq![EffectView::RemoveData(o.swarm_id, c, x as u16)]
                        } else {
                            Seq::<EffectView>::empty()
                        },
                        None => Seq::<EffectView>::empty(),
                    });
                }
            },
            CatalogState::Indexing(c, p, k, tg, d, h, n) => {
                match i_result {
                    Some(x) => {
                        let home = self.my_name.same_as(&self.swarm_name);
                        if x == 0 {
                            let shown_d = d.clone();
                            let shown_t = copy_bytes(&tg);
                            self.state = CatalogState::Creator(
                                CreatorContext::Data {
                                    c_id: Some(c),
                                    read_only: !home,
                                    d_type: k,
                                    description: d,
                                    tags: tg,
                                },
                            );
                            e.push(CatalogEffect::DisplayCreator(!home, k, shown_d, shown_t));
                            proof {
                                assert(effects_view(e@) =~= seq![
                                    EffectView::DisplayCreator(!at_home(o), k, shown_d@, shown_t@),
                                ]);
                            }
                        } else {
                            let title = crate::forum::numbered("Page #", x as u64);
                            let text = if x < n.len() {
                                Some(n[x].clone())
                            } else {
                                None
                            };
                            proof {
                                assert(title@ =~= "Page #"@ + decimal(x as nat));
                                assert(opt_str(text) == if x < names(n@).len() {
                                    Some(names(n@)[x as int])
                                } else {
                                    None
                                });
                            }
                            e.push(CatalogEffect::DisplayEditor(true, home, title, text, true, Some(1024)));
                            self.state = CatalogState::Indexing(c, Some(x as u16), k, tg, d, h, n);
                            proof {
                                assert(effects_view(e@) =~= seq![
                                    EffectView::DisplayEditor(
                                        true,
                                        at_home(o),
                                        "Page #"@ + decimal(x as nat),
                                        if x < names(n@).len() {
                                            Some(names(n@)[x as int])
                                        } else {
                                            None
                                        },
                                        true,
                                        Some(1024u16),
                                    ),
                                ]);
                            }
                        }
                    },
                    None => {
                        proof {
                            assert(effects_view(e@) =~= Seq::<EffectView>::empty());
                        }
                    },
                }
            },
            CatalogState::ShowActiveSwarms(m) => {
                match i_result {
                    Some(x) => {
                        if x < m.len() {
                            let s = m[x].0.duplicate();
                            let g = s.founder;
                            e.push(CatalogEffect::SetActiveApp(s));
                            e.push(CatalogEffect::SwapTiles(g));
                            proof {
                                assert(effects_view(e@) =~= seq![
                                    EffectView::SetActiveApp(swarm_view(m@[x as int].0)),
                                    EffectView::SwapTiles(m@[x as int].0.founder),
                                ]);
                            }
                        } else {
                            self.state = CatalogState::ShowActiveSwarms(m);
                            proof {
                                assert(effects_view(e@) =~= Seq::<EffectView>::empty());
                            }
                        }
                    },
                    None => {
                        proof {
                            assert(effects_view(e@) =~= Seq::<EffectView>::empty());
                        }
                    },
                }
            },
            CatalogState::ListSearches(l) => {
                if let Some(x) = i_result {
                    if x < l.len() {
                        e.push(CatalogEffect::GetSearchResults(l[x].0.clone()));
                    }
                }
                proof {
                    assert(effects_view(e@) =~= match i_result {
                        Some(x) => if x < l@.len() {
                            seq![EffectView::GetSearchResults(l@[x as int].0@)]
                        } else {
                            Seq::<EffectView>::empty()
                        },
                        None => Seq::<EffectView>::empty(),
                    });
                }
                self.state = CatalogState::ListSearches(l);
            },
            CatalogState::SearchResults(l) => {
                let mut chosen: Option<usize> = None;
                if let Some(x) = i_result {
                    if x < l.len() {
                        chosen = Some(x);
                    }
                }
                match chosen {
                    Some(x) => {
                        let s = l[x].0.duplicate();
                        let target = (l[x].0.duplicate(), l[x].1);
                        e.push(CatalogEffect::SetActiveApp(s));
                        self.state = CatalogState::ReadLinkToFollow(0, Some(target));
                        proof {
                            assert(effects_view(e@) =~= seq![EffectView::SetActiveApp(swarm_view(l@[x as int].0))]);
                        }
                    },
                    None => {
                        self.state = CatalogState::SearchResults(l);
                        proof {
                            assert(effects_view(e@) =~= Seq::<EffectView>::empty());
                        }
                    },
                }
            },
            other => {
                self.state = other;
                proof {
                    assert(effects_view(e@) =~= Seq::<EffectView>::empty());
                }
            },
        }
        e
    }

    /// Answers the cursor leaving the screen: up or down turns the ring of
    /// street names (see `turned_up`, `turned_down`) and shows the streets
    /// now in front with their contents; nothing happens with fewer than
    /// two rings, or to the left or right.
    pub fn cursor_out_of_screen(&mut self, direction: Direction) -> (e: Vec<CatalogEffect>)
        requires
            old(self).wf(),
        ensures
            final(self).wf(),
            final(self).state == old(self).state,
            final(self).shell == old(self).shell,
            final(self).tag_ring@ == match direction {
                Direction::Up => turned_up(old(self).tag_ring@),
                Direction::Down => turned_down(old(self).tag_ring@),
                _ => old(self).tag_ring@,
            },
            if old(self).tag_ring@.len() > 1 && (direction is Up || direction is Down) {
                &&& final(self).visible_streets@ == final(self).tag_ring@[0]@
                &&& effects_view(e@) == seq![
                    EffectView::StreetNames(streets_of(old(self).shell.index(), names(final(self).tag_ring@[0]@))),
                ]
            } else {
                &&& final(self).visible_streets == old(self).visible_streets
                &&& effects_view(e@) == Seq::<EffectView>::empty()
            },
    {
        let mut e: Vec<CatalogEffect> = Vec::new();
        let shown = match direction {
            Direction::Up => turn_ring_up(&mut self.tag_ring),
            Direction::Down => turn_ring_down(&mut self.tag_ring),
            _ => None,
        };
        match shown {
            Some(streets) => {
                let with = self.shell.streets_with_contents(&streets);
                e.push(CatalogEffect::StreetNames(with));
                self.visible_streets = streets;
                proof {
                    assert(streets_view(with@) =~= streets_of(self.shell.index(), names(streets@)));
                    assert(effects_view(e@) =~= seq![
                        EffectView::StreetNames(streets_of(self.shell.index(), names(self.tag_ring@[0]@))),
                    ]);
                }
            },
            None => {
                proof {
                    assert(effects_view(e@) =~= Seq::<EffectView>::empty());
                }
            },
        }
        e
    }

    /// Answers swarm `s_id` (shown as `s_label`) going away: when it is
    /// the active one, a notice, the village of no one, its index emptied
    /// (tags kept), and the active swarms asked for to choose from;
    /// nothing otherwise.
    pub fn swarm_disconnected(&mut self, s_id: u8, s_label: String) -> (e: Vec<CatalogEffect>)
        requires
            old(self).wf(),
        ensures
            final(self).wf(),
            if s_id == old(self).swarm_id {
                &&& final(self).state@ == StateView::ShowActiveSwarms(seq![])
                &&& final(self).shell.index().dom() == old(self).shell.index().dom()
                &&& forall|k: Seq<char>| #[trigger] final(self).shell.index().dom().contains(k)
                    ==> final(self).shell.index()[k].is_empty()
                &&& effects_view(e@) == seq![
                    EffectView::Notify(s_label@ + " disconnected"@),
                    EffectView::SwapTiles(old(self).any_id),
                    EffectView::ProvideGnomeToSwarmMapping,
                ]
            } else {
                &&& final(self).state == old(self).state
                &&& final(self).shell == old(self).shell
                &&& effects_view(e@) == Seq::<EffectView>::empty()
            },
            final(self).swarm_id == old(self).swarm_id,
            final(self).swarm_name == old(self).swarm_name,
            final(self).tag_ring == old(self).tag_ring,
            final(self).visible_streets == old(self).visible_streets,
            final(self).home_swarm_enforced == old(self).home_swarm_enforced,
    {
        let mut e: Vec<CatalogEffect> = Vec::new();
        if s_id == self.swarm_id {
            let mut v: Vec<char> = Vec::new();
            crate::forum::push_str(&mut v, s_label.as_str());
            crate::forum::push_str(&mut v, " disconnected");
            e.push(CatalogEffect::Notify(crate::chars::string_of(&v)));
            e.push(CatalogEffect::SwapTiles(self.any_id));
            self.shell.clear_tag_to_cid();
            self.state = CatalogState::ShowActiveSwarms(Vec::new());
            e.push(CatalogEffect::ProvideGnomeToSwarmMapping);
            proof {
                let sv: Seq<(SwarmRef, u8)> = seq![];
                assert(sv.map_values(|x: (SwarmRef, u8)| (swarm_view(x.0), x.1)) =~= seq![]);
                assert(effects_view(e@) =~= seq![
                    EffectView::Notify(s_label@ + " disconnected"@),
                    EffectView::SwapTiles(self.any_id),
                    EffectView::ProvideGnomeToSwarmMapping,
                ]);
            }
        } else {
            proof {
                assert(effects_view(e@) =~= Seq::<EffectView>::empty());
            }
        }
        e
    }

    /// Answers the running searches being reported: each listed as its
    /// phrase and number of hits; nothing when there are none.
    pub fn search_queries(&mut self, phrases: Vec<(String, usize)>) -> (e: Vec<CatalogEffect>)
        ensures
            catalog_kept(*old(self), *final(self)),
            phrases@.len() == 0 ==> final(self).state == old(self).state && effects_view(e@)
                == Seq::<EffectView>::empty(),
            phrases@.len() > 0 ==> final(self).state@ == StateView::ListSearches(
                phrases@.map_values(|x: (String, usize)| (x.0@, x.1)),
            ) && effects_view(e@) == seq![
                EffectView::DisplayIndexer(
                    Seq::new(
                        phrases@.len(),
                        |i: int| phrases@[i].0@ + ": "@ + decimal(phrases@[i].1 as nat),
                    ),
                ),
            ],
    {
        let mut e: Vec<CatalogEffect> = Vec::new();
        if phrases.len() == 0 {
            proof {
                assert(effects_view(e@) =~= Seq::<EffectView>::empty());
            }
            return e;
        }
        let mut texts: Vec<String> = Vec::new();
        let mut i: usize = 0;
        while i < phrases.len()
            invariant
                i <= phrases@.len(),
                texts@.len() == i,
                forall|j: int| 0 <= j < i ==> #[trigger] texts@[j]@ == phrases@[j].0@ + ": "@ + decimal(
                    phrases@[j].1 as nat,
                ),
            decreases phrases@.len() - i,
        {
            let mut v: Vec<char> = Vec::new();
            crate::forum::push_str(&mut v, phrases[i].0.as_str());
            crate::forum::push_str(&mut v, ": ");
            push_decimal(&mut v, phrases[i].1 as u64);
            texts.push(crate::chars::string_of(&v));
            i = i + 1;
        }
        proof {
            assert(names(texts@) =~= Seq::new(
                phrases@.len(),
                |i: int| phrases@[i].0@ + ": "@ + decimal(phrases@[i].1 as nat),
            ));
        }
        e.push(CatalogEffect::DisplayIndexer(texts));
        self.state = CatalogState::ListSearches(phrases);
        proof {
            assert(effects_view(e@) =~= seq![
                EffectView::DisplayIndexer(
                    Seq::new(
                        phrases@.len(),
                        |i: int| phrases@[i].0@ + ": "@ + decimal(phrases@[i].1 as nat),
                    ),
                ),
            ]);
        }
        e
    }

    /// Answers the hits of a search being reported, each with its line
    /// (swarm, content and score as shown): they are listed to follow one;
    /// nothing when there are none.
    pub fn search_results(&mut self, hits: Vec<(SwarmRef, u16)>, lines: Vec<String>) -> (e: Vec<CatalogEffect>)
        ensures
            catalog_kept(*old(self), *final(self)),
            hits@.len() == 0 ==> final(self).state == old(self).state && effects_view(e@)
                == Seq::<EffectView>::empty(),
            hits@.len() > 0 ==> final(self).state@ == StateView::SearchResults(
                hits@.map_values(|x: (SwarmRef, u16)| (swarm_view(x.0), x.1)),
            ) && effects_view(e@) == seq![EffectView::DisplayIndexer(names(lines@))],
    {
        let mut e: Vec<CatalogEffect> = Vec::new();
        if hits.len() > 0 {
            e.push(CatalogEffect::DisplayIndexer(lines));
            self.state = CatalogState::SearchResults(hits);
            proof {
                assert(effects_view(e@) =~= seq![EffectView::DisplayIndexer(names(lines@))]);
            }
        } else {
            proof {
                assert(effects_view(e@) =~= Seq::<EffectView>::empty());
            }
        }
        e
    }

    /// Answers the active swarms being reported, each with its name as
    /// shown: listed as `Swarm ID <id>: <name>` to choose from; the
    /// village when there are none.
    pub fn name_to_id_mapping(&mut self, mapping: Vec<(SwarmRef, u8)>, labels: Vec<String>) -> (e: Vec<
        CatalogEffect,
    >)
        requires
            labels@.len() == mapping@.len(),
        ensures
            catalog_kept(*old(self), *final(self)),
            mapping@.len() == 0 ==> final(self).state@ is Village && effects_view(e@)
                == Seq::<EffectView>::empty(),
            mapping@.len() > 0 ==> final(self).state@ == StateView::ShowActiveSwarms(
                mapping@.map_values(|x: (SwarmRef, u8)| (swarm_view(x.0), x.1)),
            ) && effects_view(e@) == seq![
                EffectView::DisplayIndexer(
                    Seq::new(
                        mapping@.len(),
                        |i: int| "Swarm ID "@ + decimal(mapping@[i].1 as nat) + ": "@ + labels@[i]@,
                    ),
                ),
            ],
    {
        let mut e: Vec<CatalogEffect> = Vec::new();
        if mapping.len() == 0 {
            self.state = CatalogState::Village;
            proof {
                assert(effects_view(e@) =~= Seq::<EffectView>::empty());
            }
            return e;
        }
        let mut texts: Vec<String> = Vec::new();
        let mut i: usize = 0;
        while i < mapping.len()
            invariant
                i <= mapping@.len(),
                labels@.len() == mapping@.len(),
                texts@.len() == i,
                forall|j: int| 0 <= j < i ==> #[trigger] texts@[j]@ == "Swarm ID "@ + decimal(
                    mapping@[j].1 as nat,
                ) + ": "@ + labels@[j]@,
            decreases mapping@.len() - i,
        {
            let mut v: Vec<char> = Vec::new();
            crate::forum::push_str(&mut v, "Swarm ID ");
            push_decimal(&mut v, mapping[i].1 as u64);
            crate::forum::push_str(&mut v, ": ");
            crate::forum::push_str(&mut v, labels[i].as_str());
            texts.push(crate::chars::string_of(&v));
            i = i + 1;
        }
        proof {
            assert(names(texts@) =~= Seq::new(
                mapping@.len(),
                |i: int| "Swarm ID "@ + decimal(mapping@[i].1 as nat) + ": "@ + labels@[i]@,
            ));
        }
        e.push(CatalogEffect::DisplayIndexer(texts));
        self.state = CatalogState::ShowActiveSwarms(mapping);
        proof {
            assert(effects_view(e@) =~= seq![
                EffectView::DisplayIndexer(
                    Seq::new(
                        mapping@.len(),
                        |i: int| "Swarm ID "@ + decimal(mapping@[i].1 as nat) + ": "@ + labels@[i]@,
                    ),
                ),
            ]);
        }
        e
    }

    /// Answers a read failing: the manifest is asked for again while the
    /// swarm's data is not synced yet.
    pub fn read_error(&self, s_id: u8, c_id: u16, not_synced: bool) -> (e: Vec<CatalogEffect>)
        ensures
            effects_view(e@) == if not_synced && c_id == 0 {
                seq![EffectView::ReadAllPages(s_id, 0)]
            } else {
                Seq::<EffectView>::empty()
            },
    {
        let mut e: Vec<CatalogEffect> = Vec::new();
        if not_synced && c_id == 0 {
            e.push(CatalogEffect::ReadAllPages(s_id, 0));
        }
        proof {
            assert(effects_view(e@) =~= if not_synced && c_id == 0 {
                seq![EffectView::ReadAllPages(s_id, 0)]
            } else {
                Seq::<EffectView>::empty()
            });
        }
        e
    }
}

/// The names of the tag ids that the manifest names, in order.
pub open spec fn named_tags(m: Seq<(u8, String)>, ids: Seq<u8>) -> Seq<Seq<char>>
    decreases ids.len(),
{
    if ids.len() == 0 {
        seq![]
    } else {
        let rest = named_tags(m, ids.drop_last());
        match tag_name(m, ids.last()) {
            Some(n) => rest.push(n),
            None => rest,
        }
    }
}

/// The tags that gained a content listed under `tags` (see
/// `update_tag_to_cid` and `listed_tags`).
pub open spec fn gained(
    m: Map<Seq<char>, Set<(u8, u16, Seq<char>)>>,
    item: (u8, u16, Seq<char>),
    tags: Seq<Seq<char>>,
) -> Seq<Seq<char>> {
    fresh_tags(m, item, listed_tags(tags))
}

/// The tags that lost a content listed under `tags` (see `listed_tags`).
pub open spec fn lost(
    s: Seq<(String, Vec<Listed>)>,
    item: (u8, u16, Seq<char>),
    tags: Seq<Seq<char>>,
) -> Seq<Seq<char>> {
    lost_tags(s, item, listed_tags(tags))
}

/// The streets of `v` that are among `r`, in the order of `v`.
pub open spec fn among(v: Seq<Seq<char>>, r: Seq<Seq<char>>) -> Seq<Seq<char>>
    decreases v.len(),
{
    if v.len() == 0 {
        seq![]
    } else if r.contains(v.last()) {
        among(v.drop_last(), r).push(v.last())
    } else {
        among(v.drop_last(), r)
    }
}

/// A content (`c_id`, its data type and header) with tag ids `ids` put
/// in the index: kept for later, with the active swarm's id, while the
/// manifest lacks a name for one of its tags; otherwise listed under the
/// named tags (see `tagged`), placed on the streets that gained it, and
/// taken off the visible streets that lost it.
pub open spec fn tags_updated(
    o: CatalogLogic,
    f: CatalogLogic,
    c_id: u16,
    k: DataKind,
    ids: Seq<u8>,
    header: Seq<char>,
    e: Seq<EffectView>,
) -> bool {
    let tags = named_tags(o.manifest_tags@, ids);
    let item = (code_of_kind(k), c_id, header);
    if tags.len() != ids.len() {
        &&& f.shell == o.shell
        &&& e == Seq::<EffectView>::empty()
        &&& pending_view(f.pending@) == pending_view(o.pending@).push(
            (o.swarm_id, SwarmEventView::NewContent(c_id, k, ids, header)),
        )
    } else {
        let g = gained(o.shell.index(), item, tags);
        let l = among(names(o.visible_streets@), lost(o.shell.tag_to_cid@, item, tags));
        &&& f.shell.index() == tagged(o.shell.index(), item, tags)
        &&& f.pending == o.pending
        &&& e == (if g.len() > 0 {
            seq![EffectView::AppendContent(c_id, k, g, header)]
        } else {
            Seq::<EffectView>::empty()
        }) + (if l.len() > 0 {
            seq![EffectView::HideContent(c_id, l)]
        } else {
            Seq::<EffectView>::empty()
        })
    }
}

/// Everything but the index stays.
pub open spec fn kept_but_index(a: CatalogLogic, b: CatalogLogic) -> bool {
    &&& a.postponed == b.postponed
    &&& a.my_name == b.my_name
    &&& a.any_id == b.any_id
    &&& a.state == b.state
    &&& a.swarm_id == b.swarm_id
    &&& a.swarm_name == b.swarm_name
    &&& a.swarm_label == b.swarm_label
    &&& a.manifest_tags == b.manifest_tags
    &&& a.tag_ring == b.tag_ring
    &&& a.visible_count == b.visible_count
    &&& a.visible_streets == b.visible_streets
    &&& a.home_swarm_enforced == b.home_swarm_enforced
    &&& a.clipboard == b.clipboard
}

/// The first page of a changed content: to be read again, or read, with
/// its tag ids and header.
#[derive(Debug)]
pub enum PageChange {
    Stale,
    Read(Vec<u8>, String),
}

impl CatalogLogic {
    /// Puts a content in the index by its tag ids (see `tags_updated`).
    pub fn update_active_content_tags(&mut self, c_id: u16, kind: DataKind, tag_ids: Vec<u8>, header: String) -> (e:
        Vec<CatalogEffect>)
        requires
            old(self).wf(),
        ensures
            final(self).wf(),
            kept_but_index(*old(self), *final(self)),
            tags_updated(*old(self), *final(self), c_id, kind, tag_ids@, header@, effects_view(e@)),
    {
        let ghost o = *self;
        let mut tags: Vec<String> = Vec::new();
        let mut i: usize = 0;
        while i < tag_ids.len()
            invariant
                i <= tag_ids@.len(),
                names(tags@) == named_tags(self.manifest_tags@, tag_ids@.subrange(0, i as int)),
            decreases tag_ids@.len() - i,
        {
            proof {
                assert(tag_ids@.subrange(0, i + 1).drop_last() =~= tag_ids@.subrange(0, i as int));
            }
            match find_tag_name(&self.manifest_tags, tag_ids[i]) {
                Some(n) => tags.push(n),
                None => {},
            }
            i = i + 1;
            proof {
                assert(names(tags@) =~= named_tags(self.manifest_tags@, tag_ids@.subrange(0, i as int)));
            }
        }
        proof {
            assert(tag_ids@.subrange(0, tag_ids@.len() as int) =~= tag_ids@);
        }
        let mut e: Vec<CatalogEffect> = Vec::new();
        if tags.len() != tag_ids.len() {
            let ghost t = tag_ids@;
            let s_id = self.swarm_id;
            self.pending.push((s_id, SwarmEvent::NewContent(c_id, kind, tag_ids, header)));
            proof {
                assert(pending_view(self.pending@) =~= pending_view(old(self).pending@).push(
                    (s_id, SwarmEventView::NewContent(c_id, kind, t, header@)),
                ));
                assert(effects_view(e@) =~= Seq::<EffectView>::empty());
            }
            return e;
        }
        let shown = header.clone();
        let (added, removed) = self.shell.update_tag_to_cid(c_id, code_from_kind(kind), tags, header);
        let ghost g = names(added@);
        if added.len() > 0 {
            e.push(CatalogEffect::AppendContent(c_id, kind, added, shown));
        }
        let ghost e1 = e@;
        let mut vr: Vec<String> = Vec::new();
        let mut j: usize = 0;
        while j < self.visible_streets.len()
            invariant
                j <= self.visible_streets@.len(),
                names(vr@) == among(names(self.visible_streets@).subrange(0, j as int), names(removed@)),
            decreases self.visible_streets@.len() - j,
        {
            let ghost v = names(self.visible_streets@);
            proof {
                assert(v.subrange(0, j + 1).drop_last() =~= v.subrange(0, j as int));
                assert(v.subrange(0, j + 1).last() == self.visible_streets@[j as int]@);
            }
            let mut found = false;
            let mut q: usize = 0;
            while q < removed.len()
                invariant
                    q <= removed@.len(),
                    found == names(removed@).subrange(0, q as int).contains(self.visible_streets@[j as int]@),
                    j < self.visible_streets@.len(),
                decreases removed@.len() - q,
            {
                proof {
                    let r = names(removed@);
                    assert(r.subrange(0, q + 1) =~= r.subrange(0, q as int).push(r[q as int]));
                    crate::catalog::lemma_push_contains(r.subrange(0, q as int), r[q as int], self.visible_streets@[j as int]@);
                }
                if crate::forum::same_text(&removed[q], &self.visible_streets[j]) {
                    found = true;
                }
                q = q + 1;
            }
            proof {
                assert(names(removed@).subrange(0, removed@.len() as int) =~= names(removed@));
            }
            if found {
                vr.push(self.visible_streets[j].clone());
            }
            j = j + 1;
            proof {
                assert(names(vr@) =~= among(v.subrange(0, j as int), names(removed@)));
            }
        }
        proof {
            assert(names(self.visible_streets@).subrange(0, self.visible_streets@.len() as int) =~= names(
                self.visible_streets@,
            ));
        }
        let ghost l = names(vr@);
        if vr.len() > 0 {
            e.push(CatalogEffect::HideContent(c_id, vr));
        }
        proof {
            assert(effects_view(e@) =~= (if g.len() > 0 {
                seq![EffectView::AppendContent(c_id, kind, g, header@)]
            } else {
                Seq::<EffectView>::empty()
            }) + (if l.len() > 0 {
                seq![EffectView::HideContent(c_id, l)]
            } else {
                Seq::<EffectView>::empty()
            }));
        }
        e
    }

    /// Answers a new content of swarm `s_id`: the manifest's content is
    /// left alone; a content of the active swarm goes in the index (see
    /// `tags_updated`) once the home swarm is set; any other is kept, with
    /// `s_id`, for later.
    pub fn new_content(&mut self, s_id: u8, c_id: u16, kind: DataKind, tag_ids: Vec<u8>, header: String) -> (e: Vec<
        CatalogEffect,
    >)
        requires
            old(self).wf(),
        ensures
            final(self).wf(),
            kept_but_index(*old(self), *final(self)),
            if c_id == 0 {
                &&& final(self).shell == old(self).shell
                &&& final(self).pending == old(self).pending
                &&& effects_view(e@) == Seq::<EffectView>::empty()
            } else if s_id == old(self).swarm_id && old(self).home_swarm_enforced {
                tags_updated(*old(self), *final(self), c_id, kind, tag_ids@, header@, effects_view(e@))
            } else {
                &&& final(self).shell == old(self).shell
                &&& pending_view(final(self).pending@) == pending_view(old(self).pending@).push(
                    (s_id, SwarmEventView::NewContent(c_id, kind, tag_ids@, header@)),
                )
                &&& effects_view(e@) == Seq::<EffectView>::empty()
            },
    {
        if c_id == 0 {
            let e: Vec<CatalogEffect> = Vec::new();
            proof {
                assert(effects_view(e@) =~= Seq::<EffectView>::empty());
            }
            e
        } else if s_id == self.swarm_id && self.home_swarm_enforced {
            self.update_active_content_tags(c_id, kind, tag_ids, header)
        } else {
            let e: Vec<CatalogEffect> = Vec::new();
            let ghost t = tag_ids@;
            let ghost h = header@;
            self.pending.push((s_id, SwarmEvent::NewContent(c_id, kind, tag_ids, header)));
            proof {
                assert(pending_view(self.pending@) =~= pending_view(old(self).pending@).push(
                    (s_id, SwarmEventView::NewContent(c_id, kind, t, h)),
                ));
                assert(effects_view(e@) =~= Seq::<EffectView>::empty());
            }
            e
        }
    }

    /// Answers a content of swarm `s_id` changing: the manifest is read
    /// again; for the active swarm (once the home swarm is set), a stale
    /// first page is read again and a read one puts the content in the
    /// index (see `tags_updated`).
    pub fn content_changed(&mut self, s_id: u8, c_id: u16, kind: DataKind, page: Option<PageChange>) -> (e: Vec<
        CatalogEffect,
    >)
        requires
            old(self).wf(),
        ensures
            final(self).wf(),
            kept_but_index(*old(self), *final(self)),
            ({
                let pre = if c_id == 0 {
                    seq![EffectView::ReadAllPages(s_id, 0)]
                } else {
                    Seq::<EffectView>::empty()
                };
                let active = s_id == old(self).swarm_id && old(self).home_swarm_enforced;
                match page {
                    Some(PageChange::Read(t, h)) => if active && c_id > 0 {
                        tags_updated(*old(self), *final(self), c_id, kind, t@, h@, effects_view(e@))
                    } else {
                        &&& final(self).shell == old(self).shell
                        &&& final(self).pending == old(self).pending
                        &&& effects_view(e@) == pre
                    },
                    Some(PageChange::Stale) => {
                        &&& final(self).shell == old(self).shell
                        &&& final(self).pending == old(self).pending
                        &&& effects_view(e@) == pre + if active && c_id != 0 {
                            seq![EffectView::ReadAllPages(s_id, c_id)]
                        } else {
                            Seq::<EffectView>::empty()
                        }
                    },
                    None => {
                        &&& final(self).shell == old(self).shell
                        &&& final(self).pending == old(self).pending
                        &&& effects_view(e@) == pre
                    },
                }
            }),
    {
        let mut e: Vec<CatalogEffect> = Vec::new();
        if c_id == 0 {
            e.push(CatalogEffect::ReadAllPages(s_id, 0));
        }
        let ghost pre = effects_view(e@);
        let ghost pg = page;
        if s_id == self.swarm_id && self.home_swarm_enforced {
            match page {
                Some(PageChange::Stale) => {
                    if c_id != 0 {
                        e.push(CatalogEffect::ReadAllPages(s_id, c_id));
                    }
                },
                Some(PageChange::Read(t, h)) => {
                    if c_id > 0 {
                        return self.update_active_content_tags(c_id, kind, t, h);
                    }
                },
                None => {},
            }
        }
        proof {
            assert(pre =~= if c_id == 0 {
                seq![EffectView::ReadAllPages(s_id, 0)]
            } else {
                Seq::<EffectView>::empty()
            });
            let active = s_id == self.swarm_id && self.home_swarm_enforced;
            match pg {
                Some(PageChange::Stale) => {
                    assert(effects_view(e@) =~= pre + if active && c_id != 0 {
                        seq![EffectView::ReadAllPages(s_id, c_id)]
                    } else {
                        Seq::<EffectView>::empty()
                    });
                },
                _ => {
                    assert(effects_view(e@) =~= pre);
                },
            }
        }
        e
    }
}

/// The names of the manifest's tags by increasing id, up to id `n`.
pub open spec fn named_upto(m: Seq<(u8, String)>, n: nat) -> Seq<Seq<char>>
    decreases n,
{
    if n == 0 {
        seq![]
    } else {
        let rest = named_upto(m, (n - 1) as nat);
        match tag_name(m, (n - 1) as u8) {
            Some(t) => rest.push(t),
            None => rest,
        }
    }
}

/// The names of all the manifest's tags by increasing id.
pub open spec fn ordered_tags(m: Seq<(u8, String)>) -> Seq<Seq<char>> {
    named_upto(m, 256)
}

/// The rings of a logic's street names as plain values.
pub open spec fn rings_view(r: Seq<Vec<String>>) -> Seq<Seq<Seq<char>>> {
    r.map_values(|g: Vec<String>| names(g@))
}

/// The first line of a text, or `dflt` when it has none that is not
/// empty.
pub open spec fn line_or(s: Seq<char>, dflt: Seq<char>) -> Seq<char> {
    if s.len() > 0 && spec_lines(s).len() > 0 && spec_lines(s)[0].len() > 0 {
        spec_lines(s)[0]
    } else {
        dflt
    }
}

/// The headers listed for a content: its description's first line, then
/// each page's.
pub open spec fn index_headers(description: Seq<char>, texts: Seq<Seq<char>>) -> Seq<Seq<char>> {
    seq![line_or(description, "No description"@)] + texts.map_values(|t: Seq<char>| line_or(t, "Nothing to show"@))
}

/// The texts of pages in UTF-8.
pub open spec fn page_texts(notes: Seq<Vec<u8>>) -> Seq<Seq<char>> {
    notes.map_values(|n: Vec<u8>| decode_utf8(n@))
}

/// Reading a listed content's pages stops with a panic when one is not
/// UTF-8.
pub open spec fn pages_readable(o: CatalogLogic, c_id: u16, notes: Seq<Vec<u8>>) -> bool {
    (o.state@ == StateView::ReadRequestForIndexer(c_id) || o.state@ == StateView::RemovePage(c_id)) ==> forall|
        i: int,
    | 0 <= i < notes.len() ==> valid_utf8(#[trigger] notes[i]@)
}

/// Whether reading the tag ids of a first page for one of `tags` stays
/// within its bytes from position `j` of its list on.
pub open spec fn scan_safe(b: Seq<u8>, tags: Seq<u8>, j: int) -> bool
    decreases b[0] - j,
{
    if j < 0 || j >= b[0] {
        true
    } else {
        1 + j < b.len() && (tags.contains(b[1 + j]) || scan_safe(b, tags, j + 1))
    }
}

/// The first of a first page's listed tag ids that is among `tags`, from
/// position `j` of its list on.
pub open spec fn scan_tags(b: Seq<u8>, tags: Seq<u8>, j: int) -> Option<u8>
    decreases b[0] - j,
{
    if j < 0 || j >= b[0] {
        None
    } else if tags.contains(b[1 + j]) {
        Some(b[1 + j])
    } else {
        scan_tags(b, tags, j + 1)
    }
}

/// Reading a first page's tag list stops with a panic on an empty page, or
/// on a list that promises more ids than the page holds before one of
/// `tags` comes.
pub open spec fn first_pages_readable(pages: Seq<(u16, Vec<u8>)>, tags: Seq<u8>) -> bool {
    forall|i: int| 0 <= i < pages.len() ==> #[trigger] pages[i].1@.len() >= 1 && scan_safe(pages[i].1@, tags, 0)
}

/// The contents whose first page lists one of `tags`, in order, each with
/// the first such tag and its first page.
pub open spec fn matched(pages: Seq<(u16, Vec<u8>)>, tags: Seq<u8>) -> Seq<(u8, u16, Seq<u8>)>
    decreases pages.len(),
{
    if pages.len() == 0 {
        seq![]
    } else {
        let rest = matched(pages.drop_last(), tags);
        let p = pages.last();
        match scan_tags(p.1@, tags, 0) {
            Some(t) => rest.push((t, p.0, p.1@)),
            None => rest,
        }
    }
}

/// Whether two lists of names hold the same texts.
fn same_names(a: &Vec<String>, b: &Vec<String>) -> (r: bool)
    ensures
        r == (names(a@) == names(b@)),
{
    if a.len() != b.len() {
        proof {
            assert(names(a@).len() != names(b@).len());
        }
        return false;
    }
    let mut i: usize = 0;
    while i < a.len()
        invariant
            i <= a@.len(),
            a@.len() == b@.len(),
            forall|j: int| 0 <= j < i ==> #[trigger] a@[j]@ == b@[j]@,
        decreases a@.len() - i,
    {
        if !crate::forum::same_text(&a[i], &b[i]) {
            proof {
                assert(names(a@)[i as int] != names(b@)[i as int]);
            }
            return false;
        }
        i = i + 1;
    }
    proof {
        assert(names(a@) =~= names(b@));
    }
    true
}

/// The first line of a text, or `dflt` (see `line_or`).
fn first_line_or(s: &String, dflt: &str) -> (r: String)
    ensures
        r@ == line_or(s@, dflt@),
{
    let v = chars_of(s.as_str());
    let lines = split_lines(&v);
    proof {
        assert(lines@.map_values(|l: Vec<char>| l@).len() == lines@.len());
    }
    if v.len() > 0 && lines.len() > 0 && lines[0].len() > 0 {
        proof {
            assert(lines@.map_values(|l: Vec<char>| l@)[0] == lines@[0]@);
        }
        string_of(&lines[0])
    } else {
        String::from_str(dflt)
    }
}

/// Swarm `s_name` (shown as `label`, id `s_id`) made the active one (see
/// `CatalogLogic::active_swarm`).
pub open spec fn swarm_activated(
    o: CatalogLogic,
    f: CatalogLogic,
    s_name: SwarmRef,
    s_id: u8,
    label: String,
    e: Seq<EffectView>,
) -> bool {
    &&& f.wf()
    &&& f.my_name == o.my_name
    &&& f.any_id == o.any_id
    &&& f.swarm_id == s_id
    &&& f.swarm_name == s_name
    &&& f.swarm_label == label
    &&& f.shell.index() == Map::<Seq<char>, Set<(u8, u16, Seq<char>)>>::empty()
    &&& f.manifest_tags@.len() == 0
    &&& f.tag_ring@.len() == 0
    &&& f.visible_count == o.visible_count
    &&& f.visible_streets == o.visible_streets
    &&& f.home_swarm_enforced
    &&& f.clipboard == o.clipboard
    &&& f.postponed == o.postponed
    &&& pending_view(f.pending@) == other_swarms(pending_view(o.pending@), s_id)
    &&& {
        let follow = match o.state@ {
            StateView::ReadLinkToFollow(_, Some(t)) => t.0 == swarm_view(s_name),
            _ => false,
        };
        let t = o.state@->ReadLinkToFollow_1->0;
        &&& follow ==> f.state@ == StateView::ReadRequestForIndexer(t.1)
        &&& !follow ==> f.state@ is Village
        &&& e == seq![EffectView::ReadAllPages(s_id, 0), EffectView::ReadAllFirstPages(s_id)]
            + (if follow {
            seq![EffectView::ReadAllPages(s_id, t.1), EffectView::SwapTiles((t.0).0)]
        } else {
            Seq::<EffectView>::empty()
        }) + (if !o.home_swarm_enforced {
            seq![
                EffectView::ProvidePublicIps,
                EffectView::ReplayPostponed(screen_events_view(o.postponed@)),
            ]
        } else {
            Seq::<EffectView>::empty()
        }) + seq![
            EffectView::ReplayPending(for_swarm(pending_view(o.pending@), s_id)),
            EffectView::ListNeighbors,
        ]
    }
}

impl CatalogLogic {
    /// Answers swarm `s_name` (shown as `label`, id `s_id`) becoming the
    /// active one: its manifest and first pages are read; a link waiting
    /// for this swarm is followed to its content; while the home swarm is
    /// not set, it is set, this gnome's public addresses asked for and the
    /// screen's kept requests served again in the order they came; the
    /// index, manifest and ring start empty; the messages kept for the
    /// swarm are taken out and served again in the order they came, and
    /// its neighbors asked for.
    pub fn active_swarm(&mut self, s_name: SwarmRef, s_id: u8, label: String) -> (e: Vec<CatalogEffect>)
        ensures
            swarm_activated(*old(self), *final(self), s_name, s_id, label, effects_view(e@)),
    {
        let ghost o = *self;
        let mut e: Vec<CatalogEffect> = Vec::new();
        e.push(CatalogEffect::ReadAllPages(s_id, 0));
        e.push(CatalogEffect::ReadAllFirstPages(s_id));
        let ghost e0 = effects_view(e@);
        let mut prev = CatalogState::Village;
        std::mem::swap(&mut prev, &mut self.state);
        match prev {
            CatalogState::ReadLinkToFollow(_c, Some((t, c))) => {
                if t.same_as(&s_name) {
                    self.state = CatalogState::ReadRequestForIndexer(c);
                    e.push(CatalogEffect::ReadAllPages(s_id, c));
                    e.push(CatalogEffect::SwapTiles(t.founder));
                }
            },
            _ => {},
        }
        let ghost e1 = effects_view(e@);
        if !self.home_swarm_enforced {
            e.push(CatalogEffect::ProvidePublicIps);
            self.home_swarm_enforced = true;
            e.push(CatalogEffect::ReplayPostponed(copy_screen_events(&self.postponed)));
        }
        let ghost e2 = effects_view(e@);
        self.swarm_id = s_id;
        self.swarm_name = s_name;
        self.swarm_label = label;
        self.shell = SwarmShell::new();
        self.manifest_tags = Vec::new();
        self.tag_ring = Vec::new();
        let replay = take_pending(&mut self.pending, s_id);
        e.push(CatalogEffect::ReplayPending(replay));
        e.push(CatalogEffect::ListNeighbors);
        proof {
            let follow = match o.state@ {
                StateView::ReadLinkToFollow(_, Some(t)) => t.0 == swarm_view(s_name),
                _ => false,
            };
            let t = o.state@->ReadLinkToFollow_1->0;
            assert(e0 =~= seq![EffectView::ReadAllPages(s_id, 0), EffectView::ReadAllFirstPages(s_id)]);
            assert(e1 =~= e0 + if follow {
                seq![EffectView::ReadAllPages(s_id, t.1), EffectView::SwapTiles((t.0).0)]
            } else {
                Seq::<EffectView>::empty()
            });
            assert(e2 =~= e1 + if !o.home_swarm_enforced {
                seq![
                    EffectView::ProvidePublicIps,
                    EffectView::ReplayPostponed(screen_events_view(o.postponed@)),
                ]
            } else {
                Seq::<EffectView>::empty()
            });
            assert(effects_view(e@) =~= e2 + seq![
                EffectView::ReplayPending(for_swarm(pending_view(o.pending@), s_id)),
                EffectView::ListNeighbors,
            ]);
        }
        e
    }

    /// Takes in this gnome's public addresses: each one not gathered yet is
    /// added, in order (see `with_new_addresses`).
    pub fn public_ips(&mut self, ips: Vec<PublicAddress>)
        ensures
            final(self).pub_ips@ == with_new_addresses(old(self).pub_ips@, ips@),
            kept_but_queues(*old(self), *final(self)),
            final(self).state == old(self).state,
            final(self).postponed == old(self).postponed,
            final(self).pending == old(self).pending,
    {
        let mut i: usize = 0;
        while i < ips.len()
            invariant
                i <= ips@.len(),
                self.pub_ips@ == with_new_addresses(old(self).pub_ips@, ips@.subrange(0, i as int)),
                kept_but_queues(*old(self), *self),
                self.state == old(self).state,
                self.postponed == old(self).postponed,
                self.pending == old(self).pending,
            decreases ips@.len() - i,
        {
            let a = ips[i];
            proof {
                assert(ips@.subrange(0, i + 1).drop_last() =~= ips@.subrange(0, i as int));
            }
            let mut found = false;
            let mut j: usize = 0;
            while j < self.pub_ips.len()
                invariant
                    j <= self.pub_ips@.len(),
                    found == self.pub_ips@.subrange(0, j as int).contains(a),
                decreases self.pub_ips@.len() - j,
            {
                proof {
                    assert(self.pub_ips@.subrange(0, j + 1) =~= self.pub_ips@.subrange(0, j as int).push(
                        self.pub_ips@[j as int],
                    ));
                }
                let b = self.pub_ips[j];
                if b.0 == a.0 && b.1 == a.1 && b.2 == a.2 && b.3 == a.3 && b.4 == a.4 {
                    found = true;
                    proof {
                        assert(self.pub_ips@.subrange(0, j + 1).contains(a)) by {
                            assert(self.pub_ips@.subrange(0, j + 1)[j as int] == a);
                        }
                    }
                } else {
                    proof {
                        crate::catalog::lemma_push_contains(
                            self.pub_ips@.subrange(0, j as int),
                            b,
                            a,
                        );
                    }
                }
                j = j + 1;
            }
            proof {
                assert(self.pub_ips@.subrange(0, self.pub_ips@.len() as int) =~= self.pub_ips@);
            }
            if !found {
                self.pub_ips.push(a);
            }
            i = i + 1;
        }
        proof {
            assert(ips@.subrange(0, ips@.len() as int) =~= ips@);
        }
    }

    /// Answers the home swarm's neighbors all leaving: the home swarm is to
    /// be set anew.
    pub fn all_neighbors_gone(&mut self)
        ensures
            !final(self).home_swarm_enforced,
            final(self).state == old(self).state,
            final(self).swarm_id == old(self).swarm_id,
            final(self).shell == old(self).shell,
            final(self).postponed == old(self).postponed,
            final(self).pending == old(self).pending,
    {
        self.home_swarm_enforced = false;
    }

    /// Answers the active swarm's manifest being read, with its tags: the
    /// ring of street names is made anew from the tags by increasing id
    /// (see `tag_rings`); when its first ring differs from the streets
    /// shown, those are shown with their contents; the messages kept for
    /// the active swarm are taken out and served again in the order they
    /// came; in this gnome's own swarm, the public addresses go in the
    /// manifest.
    pub fn manifest_read(&mut self, tags: Vec<(u8, String)>) -> (e: Vec<CatalogEffect>)
        requires
            old(self).wf(),
        ensures
            final(self).wf(),
            final(self).manifest_tags == tags,
            rings_view(final(self).tag_ring@) == tag_rings(ordered_tags(tags@), old(self).visible_count as int),
            final(self).state == old(self).state,
            final(self).shell == old(self).shell,
            final(self).swarm_id == old(self).swarm_id,
            final(self).swarm_name == old(self).swarm_name,
            final(self).home_swarm_enforced == old(self).home_swarm_enforced,
            final(self).postponed == old(self).postponed,
            pending_view(final(self).pending@) == other_swarms(pending_view(old(self).pending@), old(self).swarm_id),
            ({
                let first = tag_rings(ordered_tags(tags@), old(self).visible_count as int)[0];
                let changed = first != names(old(self).visible_streets@);
                &&& changed ==> names(final(self).visible_streets@) == first
                &&& !changed ==> final(self).visible_streets == old(self).visible_streets
                &&& effects_view(e@) == (if changed {
                    seq![EffectView::StreetNames(streets_of(old(self).shell.index(), first))]
                } else {
                    Seq::<EffectView>::empty()
                }) + seq![EffectView::ReplayPending(for_swarm(pending_view(old(self).pending@), old(self).swarm_id))]
                    + if at_home(*old(self)) && old(self).pub_ips@.len() > 0 {
                    seq![EffectView::SyncPublicIps(old(self).pub_ips@)]
                } else {
                    Seq::<EffectView>::empty()
                }
            }),
            if at_home(*old(self)) {
                final(self).pub_ips@.len() == 0
            } else {
                final(self).pub_ips == old(self).pub_ips
            },
    {
        let mut ordered: Vec<String> = Vec::new();
        let mut id: u16 = 0;
        while id < 256
            invariant
                id <= 256,
                names(ordered@) == named_upto(tags@, id as nat),
            decreases 256 - id,
        {
            match find_tag_name(&tags, id as u8) {
                Some(n) => ordered.push(n),
                None => {},
            }
            id = id + 1;
            proof {
                assert(names(ordered@) =~= named_upto(tags@, id as nat));
            }
        }
        let ring = tag_ring(&ordered, self.visible_count);
        let ghost rv = tag_rings(ordered_tags(tags@), self.visible_count as int);
        proof {
            assert(rings_view(ring@).len() == ring@.len());
            assert(rv.len() > 0);
            assert(rings_view(ring@)[0] == names(ring@[0]@));
        }
        let first = copy_names(&ring[0]);
        self.manifest_tags = tags;
        self.tag_ring = ring;
        let mut e: Vec<CatalogEffect> = Vec::new();
        if !same_names(&first, &self.visible_streets) {
            let with = self.shell.streets_with_contents(&first);
            e.push(CatalogEffect::StreetNames(with));
            self.visible_streets = first;
            proof {
                assert(streets_view(with@) =~= streets_of(self.shell.index(), rv[0]));
            }
        }
        let ghost e1 = effects_view(e@);
        let ghost p0 = pending_view(self.pending@);
        let s_id = self.swarm_id;
        let replay = take_pending(&mut self.pending, s_id);
        e.push(CatalogEffect::ReplayPending(replay));
        let ghost ips = self.pub_ips@;
        if self.my_name.same_as(&self.swarm_name) && self.pub_ips.len() > 0 {
            let mut gathered: Vec<PublicAddress> = Vec::new();
            std::mem::swap(&mut gathered, &mut self.pub_ips);
            e.push(CatalogEffect::SyncPublicIps(gathered));
        }
        proof {
            let changed = rv[0] != names(old(self).visible_streets@);
            assert(e1 =~= if changed {
                seq![EffectView::StreetNames(streets_of(old(self).shell.index(), rv[0]))]
            } else {
                Seq::<EffectView>::empty()
            });
            assert(effects_view(e@) =~= e1 + seq![EffectView::ReplayPending(for_swarm(p0, s_id))] + if at_home(
                *old(self),
            ) && ips.len() > 0 {
                seq![EffectView::SyncPublicIps(ips)]
            } else {
                Seq::<EffectView>::empty()
            });
        }
        e
    }

    /// Answers a content's pages being read, with the tag ids and the
    /// description of its first page and the other pages: when they were
    /// asked for to list them (or to remove one), their headers (see
    /// `index_headers`) are listed, and, unless a page is to be removed,
    /// the content is kept to be shown. Any other read is let go.
    pub fn content_read(
        &mut self,
        c_id: u16,
        kind: DataKind,
        tag_ids: Vec<u8>,
        description: String,
        notes: Vec<Vec<u8>>,
    ) -> (e: Vec<CatalogEffect>)
        requires
            pages_readable(*old(self), c_id, notes@),
        ensures
            catalog_kept(*old(self), *final(self)),
            ({
                let headers = index_headers(description@, page_texts(notes@));
                if old(self).state@ == StateView::ReadRequestForIndexer(c_id) {
                    &&& final(self).state@ == StateView::Indexing(
                        c_id,
                        None,
                        kind,
                        tag_ids@,
                        description@,
                        headers,
                        seq![Seq::<char>::empty()] + page_texts(notes@),
                    )
                    &&& effects_view(e@) == seq![EffectView::DisplayIndexer(headers)]
                } else if old(self).state@ == StateView::RemovePage(c_id) {
                    final(self).state == old(self).state && effects_view(e@) == seq![
                        EffectView::DisplayIndexer(headers),
                    ]
                } else {
                    final(self).state == old(self).state && effects_view(e@) == Seq::<EffectView>::empty()
                }
            }),
    {
        let mut e: Vec<CatalogEffect> = Vec::new();
        let asked = match self.state {
            CatalogState::ReadRequestForIndexer(rc) => rc == c_id,
            CatalogState::RemovePage(rc) => rc == c_id,
            _ => false,
        };
        if !asked {
            proof {
                assert(effects_view(e@) =~= Seq::<EffectView>::empty());
            }
            return e;
        }
        let mut headers: Vec<String> = Vec::new();
        let mut texts: Vec<String> = Vec::new();
        texts.push(String::new());
        headers.push(first_line_or(&description, "No description"));
        let mut i: usize = 0;
        while i < notes.len()
            invariant
                i <= notes@.len(),
                forall|j: int| 0 <= j < notes@.len() ==> valid_utf8(#[trigger] notes@[j]@),
                names(headers@) == index_headers(description@, page_texts(notes@.subrange(0, i as int))),
                names(texts@) == seq![Seq::<char>::empty()] + page_texts(notes@.subrange(0, i as int)),
            decreases notes@.len() - i,
        {
            let ghost old_pt = page_texts(notes@.subrange(0, i as int));
            let ghost old_h = names(headers@);
            let ghost old_t = names(texts@);
            let bytes = copy_bytes(&notes[i]);
            let decoded = utf8_string(bytes);
            proof {
                assert(valid_utf8(notes@[i as int]@));
            }
            let text = decoded.unwrap();
            let line = first_line_or(&text, "Nothing to show");
            let ghost x = decode_utf8(notes@[i as int]@);
            headers.push(line);
            texts.push(text);
            i = i + 1;
            proof {
                let pt = page_texts(notes@.subrange(0, i as int));
                assert(pt =~= old_pt.push(x));
                assert(names(headers@) =~= old_h.push(line_or(x, "Nothing to show"@)));
                assert(names(texts@) =~= old_t.push(x));
                assert(index_headers(description@, pt) =~= index_headers(description@, old_pt).push(
                    line_or(x, "Nothing to show"@),
                ));
                assert(names(headers@) =~= index_headers(description@, pt));
                assert(names(texts@) =~= seq![Seq::<char>::empty()] + pt);
            }
        }
        proof {
            assert(notes@.subrange(0, notes@.len() as int) =~= notes@);
        }
        let shown = copy_names(&headers);
        e.push(CatalogEffect::DisplayIndexer(shown));
        if let CatalogState::ReadRequestForIndexer(_rc) = self.state {
            self.state = CatalogState::Indexing(c_id, None, kind, tag_ids, description, headers, texts);
        }
        proof {
            assert(effects_view(e@) =~= seq![
                EffectView::DisplayIndexer(index_headers(description@, page_texts(notes@))),
            ]);
        }
        e
    }

    /// Answers a link's content being read, with where the link points
    /// when it could be read: when it was asked for to follow it, the
    /// target's swarm is made active and shown, and the link waits for it;
    /// anything else is let go.
    pub fn link_read(&mut self, c_id: u16, link: Option<(SwarmRef, u16)>) -> (e: Vec<CatalogEffect>)
        ensures
            catalog_kept(*old(self), *final(self)),
            match link {
                Some(x) => if (old(self).state@ matches StateView::ReadLinkToFollow(rc, _) && rc == c_id) {
                    &&& final(self).state@ == StateView::ReadLinkToFollow(c_id, link_view(link))
                    &&& effects_view(e@) == seq![
                        EffectView::SetActiveApp(swarm_view(x.0)),
                        EffectView::SwapTiles(x.0.founder),
                    ]
                } else {
                    final(self).state == old(self).state && effects_view(e@) == Seq::<EffectView>::empty()
                },
                None => final(self).state == old(self).state && effects_view(e@) == Seq::<EffectView>::empty(),
            },
    {
        let mut e: Vec<CatalogEffect> = Vec::new();
        let asked = match self.state {
            CatalogState::ReadLinkToFollow(rc, _) => rc == c_id,
            _ => false,
        };
        if asked {
            if let Some((s, t)) = link {
                e.push(CatalogEffect::SetActiveApp(s.duplicate()));
                e.push(CatalogEffect::SwapTiles(s.founder));
                self.state = CatalogState::ReadLinkToFollow(c_id, Some((s, t)));
                proof {
                    assert(effects_view(e@) =~= seq![
                        EffectView::SetActiveApp(swarm_view(s)),
                        EffectView::SwapTiles(s.founder),
                    ]);
                }
                return e;
            }
        }
        proof {
            assert(effects_view(e@) =~= Seq::<EffectView>::empty());
        }
        e
    }

    /// Answers the screen asking for a new content of a data type with
    /// this first page (see `screen_served`).
    pub fn create_content(&mut self, kind: DataKind, data: Vec<u8>) -> (e: Vec<CatalogEffect>)
        ensures
            kept_but_postponed(*old(self), *final(self)),
            screen_served(
                *old(self),
                *final(self),
                ScreenEventView::CreateContent(kind, data@),
                seq![EffectView::AppendNewContent(old(self).swarm_id, kind, data@)],
                effects_view(e@),
            ),
    {
        let mut e: Vec<CatalogEffect> = Vec::new();
        if self.home_swarm_enforced {
            e.push(CatalogEffect::AppendNewContent(self.swarm_id, kind, data));
            proof {
                assert(effects_view(e@) =~= seq![EffectView::AppendNewContent(self.swarm_id, kind, data@)]);
            }
        } else {
            let ghost d = data@;
            self.postponed.push(ScreenEvent::CreateContent(kind, data));
            proof {
                assert(screen_events_view(self.postponed@) =~= screen_events_view(old(self).postponed@).push(
                    ScreenEventView::CreateContent(kind, d),
                ));
                assert(effects_view(e@) =~= Seq::<EffectView>::empty());
            }
        }
        e
    }

    /// Answers the screen asking for a content's pages to be replaced
    /// (see `screen_served`).
    pub fn update_content(&mut self, c_id: u16, kind: DataKind, data: Vec<Vec<u8>>) -> (e: Vec<CatalogEffect>)
        ensures
            kept_but_postponed(*old(self), *final(self)),
            screen_served(
                *old(self),
                *final(self),
                ScreenEventView::UpdateContent(c_id, kind, pages_view(data@)),
                seq![EffectView::ChangeContent(old(self).swarm_id, c_id, kind, pages_view(data@))],
                effects_view(e@),
            ),
    {
        let mut e: Vec<CatalogEffect> = Vec::new();
        if self.home_swarm_enforced {
            e.push(CatalogEffect::ChangeContent(self.swarm_id, c_id, kind, data));
            proof {
                assert(effects_view(e@) =~= seq![
                    EffectView::ChangeContent(self.swarm_id, c_id, kind, pages_view(data@)),
                ]);
            }
        } else {
            let ghost d = pages_view(data@);
            self.postponed.push(ScreenEvent::UpdateContent(c_id, kind, data));
            proof {
                assert(screen_events_view(self.postponed@) =~= screen_events_view(old(self).postponed@).push(
                    ScreenEventView::UpdateContent(c_id, kind, d),
                ));
                assert(effects_view(e@) =~= Seq::<EffectView>::empty());
            }
        }
        e
    }

    /// Answers the screen asking for a content's pages (see
    /// `screen_served`).
    pub fn content_inquiry(&mut self, c_id: u16) -> (e: Vec<CatalogEffect>)
        ensures
            kept_but_postponed(*old(self), *final(self)),
            screen_served(
                *old(self),
                *final(self),
                ScreenEventView::ContentInquiry(c_id),
                seq![EffectView::ReadAllPages(old(self).swarm_id, c_id)],
                effects_view(e@),
            ),
    {
        let mut e: Vec<CatalogEffect> = Vec::new();
        if self.home_swarm_enforced {
            e.push(CatalogEffect::ReadAllPages(self.swarm_id, c_id));
            proof {
                assert(effects_view(e@) =~= seq![EffectView::ReadAllPages(self.swarm_id, c_id)]);
            }
        } else {
            self.postponed.push(ScreenEvent::ContentInquiry(c_id));
            proof {
                assert(screen_events_view(self.postponed@) =~= screen_events_view(old(self).postponed@).push(
                    ScreenEventView::ContentInquiry(c_id),
                ));
                assert(effects_view(e@) =~= Seq::<EffectView>::empty());
            }
        }
        e
    }
}

/// The first of a first page's listed tag ids among `tags` (see
/// `scan_tags`).
fn first_listed(b: &Vec<u8>, tags: &Vec<u8>) -> (r: Option<u8>)
    requires
        b@.len() >= 1,
        scan_safe(b@, tags@, 0),
    ensures
        r == scan_tags(b@, tags@, 0),
{
    let n = b[0];
    let mut j: u16 = 0;
    while j < n as u16
        invariant
            n == b@[0],
            j <= n,
            scan_safe(b@, tags@, j as int),
            scan_tags(b@, tags@, 0) == scan_tags(b@, tags@, j as int),
        decreases n - j,
    {
        let t = b[1 + j as usize];
        let mut k: usize = 0;
        let mut hit = false;
        while k < tags.len()
            invariant
                k <= tags@.len(),
                hit == (exists|w: int| 0 <= w < k && #[trigger] tags@[w] == t),
            decreases tags@.len() - k,
        {
            if tags[k] == t {
                hit = true;
            }
            k = k + 1;
        }
        proof {
            if hit {
                let w = choose|w: int| 0 <= w < k && #[trigger] tags@[w] == t;
                assert(tags@.contains(t));
            }
        }
        if hit {
            return Some(t);
        }
        j = j + 1;
    }
    None
}

/// The contents whose first page lists one of `tags` (see `matched`).
pub fn cids_for_tags(tags: &Vec<u8>, pages: Vec<(u16, Vec<u8>)>) -> (r: Vec<(u8, u16, Vec<u8>)>)
    requires
        first_pages_readable(pages@, tags@),
    ensures
        r@.map_values(|x: (u8, u16, Vec<u8>)| (x.0, x.1, x.2@)) == matched(pages@, tags@),
{
    let mut r: Vec<(u8, u16, Vec<u8>)> = Vec::new();
    let mut i: usize = 0;
    while i < pages.len()
        invariant
            i <= pages@.len(),
            first_pages_readable(pages@, tags@),
            r@.map_values(|x: (u8, u16, Vec<u8>)| (x.0, x.1, x.2@)) == matched(pages@.subrange(0, i as int), tags@),
        decreases pages@.len() - i,
    {
        proof {
            assert(pages@.subrange(0, i + 1).drop_last() =~= pages@.subrange(0, i as int));
            assert(pages@.subrange(0, i + 1).last() == pages@[i as int]);
        }
        let found = first_listed(&pages[i].1, tags);
        match found {
            Some(t) => {
                r.push((t, pages[i].0, copy_bytes(&pages[i].1)));
            },
            None => {},
        }
        i = i + 1;
        proof {
            assert(r@.map_values(|x: (u8, u16, Vec<u8>)| (x.0, x.1, x.2@)) =~= matched(
                pages@.subrange(0, i as int),
                tags@,
            ));
        }
    }
    proof {
        assert(pages@.subrange(0, pages@.len() as int) =~= pages@);
    }
    r
}

/// The code of a code's data type is the code itself.
pub proof fn lemma_code_roundtrip(b: u8)
    ensures
        code_of_kind(kind_of_code(b)) == b,
{
}

/// In the creator of an editable content, the tags chosen in the tag
/// selector become the content's tags, and the creator shows again.
pub proof fn lemma_tags_chosen(
    o: CatalogLogic,
    f1: CatalogLogic,
    e1: Seq<EffectView>,
    ids: Seq<usize>,
    f2: CatalogLogic,
    e2: Seq<EffectView>,
)
    requires
        o.state@ is Creator,
        !ctx_read_only(o.state@->Creator_0),
        creator_served(o, f1, CreatorResult::SelectTags, e1),
        selected_served(f1, f2, ids, e2),
    ensures
        f2.state@ == StateView::Creator(with_tags(o.state@->Creator_0, bytes_of(ids))),
{
}

/// In the creator of an editable content, the text typed for its
/// description becomes its description, and the creator shows again.
pub proof fn lemma_description_typed(
    o: CatalogLogic,
    f1: CatalogLogic,
    e1: Seq<EffectView>,
    text: Seq<char>,
    f2: CatalogLogic,
    e2: Seq<EffectView>,
)
    requires
        o.state@ is Creator,
        !ctx_read_only(o.state@->Creator_0),
        creator_served(o, f1, CreatorResult::SelectDescription, e1),
        edited(f1, f2, Some(text), e2),
    ensures
        f2.state@ == StateView::Creator(with_description(o.state@->Creator_0, text)),
{
}

/// In the creator of a content not yet made, the data type chosen (by its
/// code) becomes the content's data type, and the creator shows again.
pub proof fn lemma_data_type_chosen(
    o: CatalogLogic,
    f1: CatalogLogic,
    e1: Seq<EffectView>,
    code: usize,
    f2: CatalogLogic,
    e2: Seq<EffectView>,
)
    requires
        o.state@ is Creator,
        ctx_content_id(o.state@->Creator_0) is None,
        creator_served(o, f1, CreatorResult::SelectDType, e1),
        selected_served(f1, f2, seq![code], e2),
    ensures
        f2.state@ == StateView::Creator(with_data_type(o.state@->Creator_0, kind_of_code(code as u8))),
{
}

/// A request of the screen made before the home swarm is set gives no
/// effect then; when a swarm next becomes active, the requests kept are
/// handed back, this one after those that came before it.
pub proof fn lemma_postponed_replayed(
    o: CatalogLogic,
    ev: ScreenEventView,
    now: Seq<EffectView>,
    f1: CatalogLogic,
    e1: Seq<EffectView>,
    s_name: SwarmRef,
    s_id: u8,
    label: String,
    f2: CatalogLogic,
    e2: Seq<EffectView>,
)
    requires
        !o.home_swarm_enforced,
        kept_but_postponed(o, f1),
        screen_served(o, f1, ev, now, e1),
        swarm_activated(f1, f2, s_name, s_id, label, e2),
    ensures
        e1 == Seq::<EffectView>::empty(),
        f2.home_swarm_enforced,
        e2.contains(EffectView::ReplayPostponed(screen_events_view(o.postponed@).push(ev))),
{
    let follow = match f1.state@ {
        StateView::ReadLinkToFollow(_, Some(t)) => t.0 == swarm_view(s_name),
        _ => false,
    };
    let k: int = if follow { 4 } else { 2 };
    assert(e2[k + 1] == EffectView::ReplayPostponed(screen_events_view(f1.postponed@)));
}

/// The messages kept for a swarm come back in the order they came, and
/// none of another swarm's: `for_swarm` of messages with one more for
/// swarm `s` is the earlier ones followed by it.
pub proof fn lemma_for_swarm_push(p: Seq<(u8, SwarmEventView)>, s: u8, t: u8, x: SwarmEventView)
    ensures
        for_swarm(p.push((t, x)), s) == if t == s {
            for_swarm(p, s).push(x)
        } else {
            for_swarm(p, s)
        },
{
    assert(p.push((t, x)).drop_last() =~= p);
}

/// Neighbors of a swarm reported before the home swarm is set give no
/// effect then; when that swarm becomes active, the messages kept for it
/// are handed back, these neighbors after those that came before them.
pub proof fn lemma_neighbors_replayed(
    o: CatalogLogic,
    s: u8,
    n: Seq<u64>,
    f1: CatalogLogic,
    e1: Seq<EffectView>,
    s_name: SwarmRef,
    label: String,
    f2: CatalogLogic,
    e2: Seq<EffectView>,
)
    requires
        !o.home_swarm_enforced,
        kept_but_pending(o, f1),
        neighbors_served(o, f1, s, n, e1),
        swarm_activated(f1, f2, s_name, s, label, e2),
    ensures
        e1 == Seq::<EffectView>::empty(),
        e2.contains(
            EffectView::ReplayPending(for_swarm(pending_view(o.pending@), s).push(SwarmEventView::Neighbors(n))),
        ),
        pending_view(f2.pending@) == other_swarms(pending_view(o.pending@), s),
{
    lemma_for_swarm_push(pending_view(o.pending@), s, s, SwarmEventView::Neighbors(n));
    let p = pending_view(o.pending@);
    assert(p.push((s, SwarmEventView::Neighbors(n))).drop_last() =~= p);
    let follow = match f1.state@ {
        StateView::ReadLinkToFollow(_, Some(t)) => t.0 == swarm_view(s_name),
        _ => false,
    };
    let k: int = if follow { 4 } else { 2 };
    assert(e2[k + 2] == EffectView::ReplayPending(for_swarm(pending_view(f1.pending@), s)));
}

/// The public addresses gathered never hold one twice, and every address
/// taken in is among them.
pub proof fn lemma_addresses_distinct(have: Seq<PublicAddress>, new: Seq<PublicAddress>)
    requires
        have.no_duplicates(),
    ensures
        with_new_addresses(have, new).no_duplicates(),
        forall|i: int| 0 <= i < new.len() ==> with_new_addresses(have, new).contains(#[trigger] new[i]),
        forall|i: int| 0 <= i < have.len() ==> with_new_addresses(have, new).contains(#[trigger] have[i]),
    decreases new.len(),
{
    if new.len() > 0 {
        lemma_addresses_distinct(have, new.drop_last());
        let a = with_new_addresses(have, new.drop_last());
        let x = new.last();
        if !a.contains(x) {
            let r = a.push(x);
            assert forall|j: int, k: int| 0 <= j < r.len() && 0 <= k < r.len() && j != k implies r[j] != r[k] by {
                if j == a.len() as int {
                    assert(r[k] == a[k]);
                } else if k == a.len() as int {
                    assert(r[j] == a[j]);
                }
            }
            assert forall|i: int| 0 <= i < new.len() implies r.contains(#[trigger] new[i]) by {
                if i < new.len() - 1 {
                    assert(new.drop_last()[i] == new[i]);
                    assert(a.contains(new[i]));
                    let k = choose|k: int| 0 <= k < a.len() && a[k] == new[i];
                    assert(r[k] == new[i]);
                } else {
                    assert(r[a.len() as int] == x);
                }
            }
            assert forall|i: int| 0 <= i < have.len() implies r.contains(#[trigger] have[i]) by {
                assert(a.contains(have[i]));
                let k = choose|k: int| 0 <= k < a.len() && a[k] == have[i];
                assert(r[k] == have[i]);
            }
        } else {
            assert forall|i: int| 0 <= i < new.len() implies a.contains(#[trigger] new[i]) by {
                if i < new.len() - 1 {
                    assert(new.drop_last()[i] == new[i]);
                }
            }
        }
    }
}

/// The keys that the catalog answers on its own (the rest do nothing).
#[derive(Clone, Copy, Debug, PartialEq, Eq, Structural)]
pub enum CatalogKey {
    U,
    J,
    ShiftQ,
    ShiftD,
    B,
    ShiftB,
    CtrlB,
    M,
    N,
    ShiftM,
    O,
    ShiftO,
    ShiftN,
    ShiftS,
    CtrlU,
    C,
    S,
    ShiftA,
    ShiftU,
    Q,
    H,
    K,
    L,
    Left,
    Right,
    Up,
    Down,
    CtrlF,
    CtrlP,
    CtrlN,
    Home,
    End,
    Enter,
    Space,
    AltEnter,
    AltCtrlH,
    F,
    Other,
}

/// What a key does on the village's screen: opens the selected tile's
/// context menu, moves the selection, goes home among the neighbors,
/// selects the home tile or the row's last tile, selects the tile, leaves
/// for the forum, or is handed to the catalog (see `key_answer`), the
/// screen closing after it when it is a quit key.
#[derive(Clone, Copy, Debug, PartialEq, Eq, Structural)]
pub enum VillageStep {
    ContextMenu,
    Move(Direction),
    HomeSwarm,
    HomeTile,
    RowEnd,
    SelectTile,
    SwitchToForum,
    Pass(CatalogKey, bool),
}

/// The village screen's key table.
pub open spec fn village_step_of(k: CatalogKey) -> VillageStep {
    match k {
        CatalogKey::AltEnter | CatalogKey::Space => VillageStep::ContextMenu,
        CatalogKey::Left | CatalogKey::H | CatalogKey::CtrlB => VillageStep::Move(Direction::Left),
        CatalogKey::Right | CatalogKey::L | CatalogKey::CtrlF => VillageStep::Move(Direction::Right),
        CatalogKey::Up | CatalogKey::K | CatalogKey::CtrlP => VillageStep::Move(Direction::Up),
        CatalogKey::Down | CatalogKey::J | CatalogKey::CtrlN => VillageStep::Move(Direction::Down),
        CatalogKey::AltCtrlH => VillageStep::HomeSwarm,
        CatalogKey::Home => VillageStep::HomeTile,
        CatalogKey::End => VillageStep::RowEnd,
        CatalogKey::Enter => VillageStep::SelectTile,
        CatalogKey::F => VillageStep::SwitchToForum,
        _ => VillageStep::Pass(k, k == CatalogKey::Q || k == CatalogKey::ShiftQ),
    }
}

/// What key `k` does on the village's screen (see `village_step_of`).
pub fn village_step(k: CatalogKey) -> (s: VillageStep)
    ensures
        s == village_step_of(k),
{
    match k {
        CatalogKey::AltEnter | CatalogKey::Space => VillageStep::ContextMenu,
        CatalogKey::Left | CatalogKey::H | CatalogKey::CtrlB => VillageStep::Move(Direction::Left),
        CatalogKey::Right | CatalogKey::L | CatalogKey::CtrlF => VillageStep::Move(Direction::Right),
        CatalogKey::Up | CatalogKey::K | CatalogKey::CtrlP => VillageStep::Move(Direction::Up),
        CatalogKey::Down | CatalogKey::J | CatalogKey::CtrlN => VillageStep::Move(Direction::Down),
        CatalogKey::AltCtrlH => VillageStep::HomeSwarm,
        CatalogKey::Home => VillageStep::HomeTile,
        CatalogKey::End => VillageStep::RowEnd,
        CatalogKey::Enter => VillageStep::SelectTile,
        CatalogKey::F => VillageStep::SwitchToForum,
        _ => {
            let quits = match k {
                CatalogKey::Q | CatalogKey::ShiftQ => true,
                _ => false,
            };
            VillageStep::Pass(k, quits)
        },
    }
}

/// What a key asks of the swarm: casts started, sent, ended or left, the
/// swarm's diameter changed, a transform of a link asked for, or contents
/// changed or added (the data given as bytes).
#[derive(Debug)]
pub enum KeyRequest {
    BroadcastSend(u8, Vec<u8>),
    ChangeDiameter(u8, u8),
    StartBroadcast,
    EndBroadcast,
    UnsubscribeBroadcast,
    StartMulticast,
    MulticastSend(u8, Vec<u8>),
    EndMulticast,
    UnsubscribeMulticast,
    SubscribeMulticast,
    SendToMCastSource(u8, u8, Vec<u8>),
    SendToBCastSource(u8, u8, Vec<u8>),
    TransformLinkRequest(Vec<u8>),
    ChangeContent(u8, u16, DataKind, Vec<Vec<u8>>),
    AppendEmptyContent(u8, DataKind),
    StartUnicast,
}

/// A request as plain values.
pub enum KeyRequestView {
    BroadcastSend(u8, Seq<u8>),
    ChangeDiameter(u8, u8),
    StartBroadcast,
    EndBroadcast,
    UnsubscribeBroadcast,
    StartMulticast,
    MulticastSend(u8, Seq<u8>),
    EndMulticast,
    UnsubscribeMulticast,
    SubscribeMulticast,
    SendToMCastSource(u8, u8, Seq<u8>),
    SendToBCastSource(u8, u8, Seq<u8>),
    TransformLinkRequest(Seq<u8>),
    ChangeContent(u8, u16, DataKind, Seq<Seq<u8>>),
    AppendEmptyContent(u8, DataKind),
    StartUnicast,
}

impl View for KeyRequest {
    type V = KeyRequestView;

    open spec fn view(&self) -> KeyRequestView {
        match self {
            KeyRequest::BroadcastSend(c, d) => KeyRequestView::BroadcastSend(*c, d@),
            KeyRequest::ChangeDiameter(s, d) => KeyRequestView::ChangeDiameter(*s, *d),
            KeyRequest::StartBroadcast => KeyRequestView::StartBroadcast,
            KeyRequest::EndBroadcast => KeyRequestView::EndBroadcast,
            KeyRequest::UnsubscribeBroadcast => KeyRequestView::UnsubscribeBroadcast,
            KeyRequest::StartMulticast => KeyRequestView::StartMulticast,
            KeyRequest::MulticastSend(c, d) => KeyRequestView::MulticastSend(*c, d@),
            KeyRequest::EndMulticast => KeyRequestView::EndMulticast,
            KeyRequest::UnsubscribeMulticast => KeyRequestView::UnsubscribeMulticast,
            KeyRequest::SubscribeMulticast => KeyRequestView::SubscribeMulticast,
            KeyRequest::SendToMCastSource(s, c, d) => KeyRequestView::SendToMCastSource(*s, *c, d@),
            KeyRequest::SendToBCastSource(s, c, d) => KeyRequestView::SendToBCastSource(*s, *c, d@),
            KeyRequest::TransformLinkRequest(d) => KeyRequestView::TransformLinkRequest(d@),
            KeyRequest::ChangeContent(s, c, k, v) => KeyRequestView::ChangeContent(*s, *c, *k, pages_view(v@)),
            KeyRequest::AppendEmptyContent(s, k) => KeyRequestView::AppendEmptyContent(*s, *k),
            KeyRequest::StartUnicast => KeyRequestView::StartUnicast,
        }
    }
}

/// The answer to a key in swarm `s`: whether the client is to quit, and
/// what is asked of the swarm.
pub open spec fn key_answer(s: u8, k: CatalogKey) -> (bool, Option<KeyRequestView>) {
    match k {
        CatalogKey::ShiftQ => (true, None),
        CatalogKey::U => (false, Some(KeyRequestView::BroadcastSend(0, seq![0u8, 1, 0, 2, 0, 3]))),
        CatalogKey::ShiftD => (false, Some(KeyRequestView::ChangeDiameter(s, 10))),
        CatalogKey::B => (false, Some(KeyRequestView::StartBroadcast)),
        CatalogKey::ShiftB => (false, Some(KeyRequestView::EndBroadcast)),
        CatalogKey::CtrlB => (false, Some(KeyRequestView::UnsubscribeBroadcast)),
        CatalogKey::M => (false, Some(KeyRequestView::StartMulticast)),
        CatalogKey::N => (false, Some(KeyRequestView::MulticastSend(0, seq![5u8, 5, 5, 5, 5, 5]))),
        CatalogKey::ShiftM => (false, Some(KeyRequestView::EndMulticast)),
        CatalogKey::O => (false, Some(KeyRequestView::UnsubscribeMulticast)),
        CatalogKey::ShiftO => (false, Some(KeyRequestView::SubscribeMulticast)),
        CatalogKey::ShiftN => (false, Some(KeyRequestView::SendToMCastSource(s, 0, seq![1u8, 2, 3, 4, 5, 6]))),
        CatalogKey::ShiftS => (false, Some(KeyRequestView::SendToBCastSource(s, 0, seq![1u8, 2, 3, 4, 5, 6]))),
        CatalogKey::CtrlU => (false, Some(KeyRequestView::TransformLinkRequest(Seq::new(1024, |i: int| 27u8)))),
        CatalogKey::C => (
            false,
            Some(
                KeyRequestView::ChangeContent(
                    s,
                    1,
                    DataKind::Data(0),
                    Seq::new(129, |i: int| if i == 0 { seq![0u8, 70, 91] } else { seq![70u8, 91] }),
                ),
            ),
        ),
        CatalogKey::S => (false, Some(KeyRequestView::AppendEmptyContent(s, DataKind::Data(0)))),
        CatalogKey::ShiftA => (false, Some(KeyRequestView::AppendEmptyContent(s, DataKind::Data(0)))),
        CatalogKey::ShiftU => (false, Some(KeyRequestView::StartUnicast)),
        _ => (false, None),
    }
}

/// `n` copies of byte `b`.
fn bytes_of_len(n: usize, b: u8) -> (r: Vec<u8>)
    ensures
        r@ == Seq::new(n as nat, |i: int| b),
{
    let mut r: Vec<u8> = Vec::new();
    let mut i: usize = 0;
    while i < n
        invariant
            i <= n,
            r@ == Seq::new(i as nat, |k: int| b),
        decreases n - i,
    {
        r.push(b);
        i = i + 1;
        proof {
            assert(r@ =~= Seq::new(i as nat, |k: int| b));
        }
    }
    r
}

impl CatalogLogic {
    /// Answers a key (see `key_answer`).
    pub fn handle_key(&self, key: CatalogKey) -> (r: (bool, Option<KeyRequest>))
        ensures
            (r.0, match r.1 {
                Some(q) => Some(q@),
                None => None,
            }) == key_answer(self.swarm_id, key),
    {
        let s = self.swarm_id;
        match key {
            CatalogKey::ShiftQ => (true, None),
            CatalogKey::U => {
                let v: Vec<u8> = vec![0, 1, 0, 2, 0, 3];
                proof {
                    assert(v@ =~= seq![0u8, 1, 0, 2, 0, 3]);
                }
                (false, Some(KeyRequest::BroadcastSend(0, v)))
            },
            CatalogKey::ShiftD => (false, Some(KeyRequest::ChangeDiameter(s, 10))),
            CatalogKey::B => (false, Some(KeyRequest::StartBroadcast)),
            CatalogKey::ShiftB => (false, Some(KeyRequest::EndBroadcast)),
            CatalogKey::CtrlB => (false, Some(KeyRequest::UnsubscribeBroadcast)),
            CatalogKey::M => (false, Some(KeyRequest::StartMulticast)),
            CatalogKey::N => {
                let v = bytes_of_len(6, 5);
                proof {
                    assert(v@ =~= seq![5u8, 5, 5, 5, 5, 5]);
                }
                (false, Some(KeyRequest::MulticastSend(0, v)))
            },
            CatalogKey::ShiftM => (false, Some(KeyRequest::EndMulticast)),
            CatalogKey::O => (false, Some(KeyRequest::UnsubscribeMulticast)),
            CatalogKey::ShiftO => (false, Some(KeyRequest::SubscribeMulticast)),
            CatalogKey::ShiftN => {
                let v: Vec<u8> = vec![1, 2, 3, 4, 5, 6];
                proof {
                    assert(v@ =~= seq![1u8, 2, 3, 4, 5, 6]);
                }
                (false, Some(KeyRequest::SendToMCastSource(s, 0, v)))
            },
            CatalogKey::ShiftS => {
                let v: Vec<u8> = vec![1, 2, 3, 4, 5, 6];
                proof {
                    assert(v@ =~= seq![1u8, 2, 3, 4, 5, 6]);
                }
                (false, Some(KeyRequest::SendToBCastSource(s, 0, v)))
            },
            CatalogKey::CtrlU => (false, Some(KeyRequest::TransformLinkRequest(bytes_of_len(1024, 27)))),
            CatalogKey::C => {
                let mut pages: Vec<Vec<u8>> = Vec::new();
                let first: Vec<u8> = vec![0, 70, 91];
                pages.push(first);
                let mut i: usize = 1;
                while i < 129
                    invariant
                        1 <= i <= 129,
                        pages@.len() == i,
                        pages@[0]@ == seq![0u8, 70, 91],
                        forall|j: int| 1 <= j < i ==> #[trigger] pages@[j]@ == seq![70u8, 91],
                    decreases 129 - i,
                {
                    let page: Vec<u8> = vec![70, 91];
                    pages.push(page);
                    i = i + 1;
                }
                proof {
                    assert(pages_view(pages@) =~= Seq::new(
                        129,
                        |i: int| if i == 0 { seq![0u8, 70, 91] } else { seq![70u8, 91] },
                    ));
                }
                (false, Some(KeyRequest::ChangeContent(s, 1, DataKind::Data(0), pages)))
            },
            CatalogKey::S => (false, Some(KeyRequest::AppendEmptyContent(s, DataKind::Data(0)))),
            CatalogKey::ShiftA => (false, Some(KeyRequest::AppendEmptyContent(s, DataKind::Data(0)))),
            CatalogKey::ShiftU => (false, Some(KeyRequest::StartUnicast)),
            _ => (false, None),
        }
    }
}

} // verus!
