//! The catalog's index of contents by tag: which contents (data type,
//! content id, header) carry each tag, kept up to date as contents change,
//! and the rings of street names that the village shows in turn.
use crate::forum::same_text;
use vstd::prelude::*;
use vstd::string::*;

verus! {

/// A content as the tag index lists it: data type, content id, header.
pub type Listed = (u8, u16, String);

/// A listed content as plain values.
pub open spec fn listed_view(x: Listed) -> (u8, u16, Seq<char>) {
    (x.0, x.1, x.2@)
}

/// The contents of one tag, as plain values.
pub open spec fn items_view(v: Seq<Listed>) -> Seq<(u8, u16, Seq<char>)> {
    v.map_values(|x: Listed| listed_view(x))
}

/// The index as a map from tag names to the sets of contents.
pub open spec fn index_view(s: Seq<(String, Vec<Listed>)>) -> Map<Seq<char>, Set<(u8, u16, Seq<char>)>>
    decreases s.len(),
{
    if s.len() == 0 {
        Map::empty()
    } else {
        index_view(s.drop_last()).insert(s.last().0@, items_view(s.last().1@).to_set())
    }
}

/// The tag names in the index's order.
pub open spec fn index_keys(s: Seq<(String, Vec<Listed>)>) -> Seq<Seq<char>> {
    s.map_values(|e: (String, Vec<Listed>)| e.0@)
}

/// Each tag once, and each content once under a tag.
pub open spec fn index_wf(s: Seq<(String, Vec<Listed>)>) -> bool {
    &&& index_keys(s).no_duplicates()
    &&& forall|i: int| 0 <= i < s.len() ==> items_view(#[trigger] s[i].1@).no_duplicates()
}

/// The contents of tag `k` in the index: empty when it has none.
pub open spec fn contents_of(m: Map<Seq<char>, Set<(u8, u16, Seq<char>)>>, k: Seq<char>) -> Set<(u8, u16, Seq<char>)> {
    if m.dom().contains(k) {
        m[k]
    } else {
        Set::empty()
    }
}

/// The tags a content is listed under: its own, or the empty tag when it
/// has none.
pub open spec fn listed_tags(tags: Seq<Seq<char>>) -> Seq<Seq<char>> {
    if tags.len() == 0 {
        seq![seq![]]
    } else {
        tags
    }
}

/// The index after content `item` is listed with `tags`: it joins each of
/// the tags it is listed under (see `listed_tags`) and leaves every other
/// tag.
pub open spec fn tagged(
    m: Map<Seq<char>, Set<(u8, u16, Seq<char>)>>,
    item: (u8, u16, Seq<char>),
    tags: Seq<Seq<char>>,
) -> Map<Seq<char>, Set<(u8, u16, Seq<char>)>> {
    let lt = listed_tags(tags);
    Map::new(
        |k: Seq<char>| m.dom().contains(k) || lt.contains(k),
        |k: Seq<char>|
            if lt.contains(k) {
                contents_of(m, k).insert(item)
            } else {
                contents_of(m, k).remove(item)
            },
    )
}

/// The tags that gained the content: each of `tags` once, in order, that
/// did not list it yet.
pub open spec fn fresh_tags(
    m: Map<Seq<char>, Set<(u8, u16, Seq<char>)>>,
    item: (u8, u16, Seq<char>),
    tags: Seq<Seq<char>>,
) -> Seq<Seq<char>>
    decreases tags.len(),
{
    if tags.len() == 0 {
        seq![]
    } else {
        let rest = fresh_tags(m, item, tags.drop_last());
        let t = tags.last();
        if tags.drop_last().contains(t) || contents_of(m, t).contains(item) {
            rest
        } else {
            rest.push(t)
        }
    }
}

/// The tags that lost the content, in the index's order: those that listed
/// it and are not among `tags`.
pub open spec fn lost_tags(
    s: Seq<(String, Vec<Listed>)>,
    item: (u8, u16, Seq<char>),
    tags: Seq<Seq<char>>,
) -> Seq<Seq<char>>
    decreases s.len(),
{
    if s.len() == 0 {
        seq![]
    } else {
        let rest = lost_tags(s.drop_last(), item, tags);
        let e = s.last();
        if items_view(e.1@).contains(item) && !tags.contains(e.0@) {
            rest.push(e.0@)
        } else {
            rest
        }
    }
}


proof fn lemma_view_lookup(s: Seq<(String, Vec<Listed>)>, j: int)
    requires
        index_keys(s).no_duplicates(),
        0 <= j < s.len(),
    ensures
        index_view(s).dom().contains(s[j].0@),
        index_view(s)[s[j].0@] == items_view(s[j].1@).to_set(),
    decreases s.len(),
{
    if j < s.len() - 1 {
        let d = s.drop_last();
        assert(index_keys(d) =~= index_keys(s).drop_last());
        assert(index_keys(s)[j] == s[j].0@);
        assert(index_keys(s)[s.len() - 1] == s.last().0@);
        lemma_view_lookup(d, j);
        assert(d[j] == s[j]);
    }
}

proof fn lemma_view_dom(s: Seq<(String, Vec<Listed>)>, k: Seq<char>)
    ensures
        index_view(s).dom().contains(k) == index_keys(s).contains(k),
    decreases s.len(),
{
    if s.len() > 0 {
        let d = s.drop_last();
        assert(index_keys(d) =~= index_keys(s).drop_last());
        lemma_view_dom(d, k);
        if index_keys(s).contains(k) {
            let i = choose|i: int| 0 <= i < index_keys(s).len() && index_keys(s)[i] == k;
            if i < s.len() - 1 {
                assert(index_keys(d)[i] == k);
            }
        }
        if index_keys(d).contains(k) {
            let i = choose|i: int| 0 <= i < index_keys(d).len() && index_keys(d)[i] == k;
            assert(index_keys(s)[i] == k);
        }
        assert(index_keys(s)[s.len() - 1] == s.last().0@);
    }
}

proof fn lemma_view_update(s: Seq<(String, Vec<Listed>)>, j: int, v: Vec<Listed>)
    requires
        index_keys(s).no_duplicates(),
        0 <= j < s.len(),
    ensures
        index_view(s.update(j, (s[j].0, v))) == index_view(s).insert(s[j].0@, items_view(v@).to_set()),
    decreases s.len(),
{
    let t = s.update(j, (s[j].0, v));
    if j == s.len() - 1 {
        assert(t.drop_last() =~= s.drop_last());
        let d = s.drop_last();
        assert(index_keys(d) =~= index_keys(s).drop_last());
        if index_view(d).dom().contains(s[j].0@) {
            lemma_view_dom(d, s[j].0@);
            let i = choose|i: int| 0 <= i < index_keys(d).len() && index_keys(d)[i] == s[j].0@;
            assert(index_keys(s)[i] == index_keys(s)[j]);
        }
        assert(index_view(t) =~= index_view(s).insert(s[j].0@, items_view(v@).to_set()));
    } else {
        let d = s.drop_last();
        assert(index_keys(d) =~= index_keys(s).drop_last());
        assert(t.drop_last() =~= d.update(j, (s[j].0, v)));
        lemma_view_update(d, j, v);
        assert(index_keys(s)[j] != index_keys(s)[s.len() - 1]);
        assert(index_view(t) =~= index_view(s).insert(s[j].0@, items_view(v@).to_set()));
    }
}

pub(crate) proof fn lemma_push_contains<A>(s: Seq<A>, y: A, k: A)
    ensures
        s.push(y).contains(k) == (s.contains(k) || k == y),
{
    if s.contains(k) {
        let i = choose|i: int| 0 <= i < s.len() && s[i] == k;
        assert(s.push(y)[i] == k);
    }
    if k == y {
        assert(s.push(y)[s.len() as int] == k);
    }
    if s.push(y).contains(k) && k != y {
        let i = choose|i: int| 0 <= i < s.push(y).len() && s.push(y)[i] == k;
        assert(s[i] == k);
    }
}

proof fn lemma_push_no_dup(v: Seq<(u8, u16, Seq<char>)>, x: (u8, u16, Seq<char>))
    requires
        v.no_duplicates(),
        !v.contains(x),
    ensures
        v.push(x).no_duplicates(),
{
    let w = v.push(x);
    assert forall|a: int, b: int| 0 <= a < w.len() && 0 <= b < w.len() && a != b implies w[a] != w[b] by {
        if a == v.len() {
            assert(v[b] == w[b]);
        } else if b == v.len() {
            assert(v[a] == w[a]);
        }
    }
}

proof fn lemma_remove_to_set(v: Seq<(u8, u16, Seq<char>)>, i: int)
    requires
        v.no_duplicates(),
        0 <= i < v.len(),
    ensures
        v.remove(i).to_set() == v.to_set().remove(v[i]),
        v.remove(i).no_duplicates(),
{
    let r = v.remove(i);
    assert forall|x| r.to_set().contains(x) == v.to_set().remove(v[i]).contains(x) by {
        if r.contains(x) {
            let k = choose|k: int| 0 <= k < r.len() && r[k] == x;
            if k < i {
                assert(v[k] == x);
            } else {
                assert(v[k + 1] == x);
            }
        }
        if v.contains(x) && x != v[i] {
            let k = choose|k: int| 0 <= k < v.len() && v[k] == x;
            if k < i {
                assert(r[k] == x);
            } else {
                assert(r[k - 1] == x);
            }
        }
    }
    assert(r.to_set() =~= v.to_set().remove(v[i]));
}


/// The texts of a vector of strings.
pub open spec fn names(v: Seq<String>) -> Seq<Seq<char>> {
    v.map_values(|s: String| s@)
}

fn find_tag(s: &Vec<(String, Vec<Listed>)>, t: &String) -> (r: Option<usize>)
    ensures
        match r {
            Some(j) => j < s@.len() && s@[j as int].0@ == t@,
            None => !index_keys(s@).contains(t@),
        },
{
    let mut i: usize = 0;
    while i < s.len()
        invariant
            i <= s@.len(),
            forall|k: int| 0 <= k < i ==> s@[k].0@ != t@,
        decreases s@.len() - i,
    {
        if same_text(&s[i].0, t) {
            return Some(i);
        }
        i = i + 1;
    }
    proof {
        if index_keys(s@).contains(t@) {
            let k = choose|k: int| 0 <= k < index_keys(s@).len() && index_keys(s@)[k] == t@;
            assert(s@[k].0@ == t@);
        }
    }
    None
}

fn find_listed(v: &Vec<Listed>, item: &Listed) -> (r: Option<usize>)
    ensures
        match r {
            Some(j) => j < v@.len() && listed_view(v@[j as int]) == listed_view(*item),
            None => !items_view(v@).contains(listed_view(*item)),
        },
{
    let mut i: usize = 0;
    while i < v.len()
        invariant
            i <= v@.len(),
            forall|k: int| 0 <= k < i ==> listed_view(v@[k]) != listed_view(*item),
        decreases v@.len() - i,
    {
        if v[i].0 == item.0 && v[i].1 == item.1 && same_text(&v[i].2, &item.2) {
            return Some(i);
        }
        i = i + 1;
    }
    proof {
        if items_view(v@).contains(listed_view(*item)) {
            let k = choose|k: int| 0 <= k < items_view(v@).len() && items_view(v@)[k] == listed_view(*item);
            assert(listed_view(v@[k]) == listed_view(*item));
        }
    }
    None
}

fn copy_listed(x: &Listed) -> (r: Listed)
    ensures
        listed_view(r) == listed_view(*x),
{
    (x.0, x.1, x.2.clone())
}

/// The index of contents by tag of a swarm.
pub struct SwarmShell {
    pub tag_to_cid: Vec<(String, Vec<Listed>)>,
}

impl SwarmShell {
    /// The index as a map from tags to contents.
    pub open spec fn index(&self) -> Map<Seq<char>, Set<(u8, u16, Seq<char>)>> {
        index_view(self.tag_to_cid@)
    }

    pub open spec fn wf(&self) -> bool {
        index_wf(self.tag_to_cid@)
    }

    /// An empty index.
    pub fn new() -> (s: SwarmShell)
        ensures
            s.wf(),
            s.index() == Map::<Seq<char>, Set<(u8, u16, Seq<char>)>>::empty(),
    {
        let s = SwarmShell { tag_to_cid: Vec::new() };
        proof {
            assert(index_keys(s.tag_to_cid@) =~= Seq::<Seq<char>>::empty());
        }
        s
    }

    /// Puts content `item` under tag `t`, adding the tag when it is new;
    /// says whether the tag gained the content.
    fn list_under(&mut self, t: &String, item: &Listed) -> (gained: bool)
        requires
            old(self).wf(),
        ensures
            final(self).wf(),
            final(self).index() == old(self).index().insert(
                t@,
                contents_of(old(self).index(), t@).insert(listed_view(*item)),
            ),
            gained == !contents_of(old(self).index(), t@).contains(listed_view(*item)),
            final(self).tag_to_cid@.len() >= old(self).tag_to_cid@.len(),
            forall|k: int| 0 <= k < old(self).tag_to_cid@.len() ==> #[trigger] final(self).tag_to_cid@[k].0@
                == old(self).tag_to_cid@[k].0@,
            forall|k: int|
                0 <= k < old(self).tag_to_cid@.len() && old(self).tag_to_cid@[k].0@ != t@
                    ==> #[trigger] items_view(final(self).tag_to_cid@[k].1@) == items_view(
                    old(self).tag_to_cid@[k].1@,
                ),
            forall|k: int|
                old(self).tag_to_cid@.len() <= k < final(self).tag_to_cid@.len()
                    ==> #[trigger] final(self).tag_to_cid@[k].0@ == t@,
    {
        let ghost s0 = self.tag_to_cid@;
        let ghost x = listed_view(*item);
        match find_tag(&self.tag_to_cid, t) {
            Some(j) => {
                proof {
                    lemma_view_lookup(s0, j as int);
                }
                match find_listed(&self.tag_to_cid[j].1, item) {
                    Some(k) => {
                        proof {
                            assert(items_view(s0[j as int].1@)[k as int] == x);
                            assert(items_view(s0[j as int].1@).contains(x));
                            assert(items_view(s0[j as int].1@).to_set().contains(x));
                            assert(contents_of(index_view(s0), t@).insert(x) =~= contents_of(index_view(s0), t@));
                            assert(index_view(s0).insert(t@, contents_of(index_view(s0), t@)) =~= index_view(s0));
                        }
                        false
                    },
                    None => {
                        let mut entry = (String::new(), Vec::new());
                        std::mem::swap(&mut entry, &mut self.tag_to_cid[j]);
                        let (key, mut items) = entry;
                        let ghost before = items@;
                        items.push(copy_listed(item));
                        proof {
                            assert(items_view(items@) =~= items_view(before).push(x));
                            items_view(before).lemma_push_to_set_commute(x);
                            assert(items_view(items@).to_set() == items_view(before).to_set().insert(x));
                            assert(before == s0[j as int].1@);
                            assert(items_view(s0[j as int].1@).no_duplicates());
                            lemma_push_no_dup(items_view(before), x);
                            assert(items_view(items@).no_duplicates());
                        }
                        let ghost v2 = items;
                        self.tag_to_cid.set(j, (key, items));
                        proof {
                            assert(self.tag_to_cid@ =~= s0.update(j as int, (s0[j as int].0, v2)));
                            lemma_view_update(s0, j as int, v2);
                            assert(index_keys(self.tag_to_cid@) =~= index_keys(s0));
                            assert forall|i: int| 0 <= i < self.tag_to_cid@.len() implies items_view(
                                #[trigger] self.tag_to_cid@[i].1@,
                            ).no_duplicates() by {
                                if i != j {
                                    assert(self.tag_to_cid@[i] == s0[i]);
                                    assert(items_view(s0[i].1@).no_duplicates());
                                } else {
                                    assert(self.tag_to_cid@[i].1 == v2);
                                    assert(items_view(v2@).no_duplicates());
                                }
                            }
                        }
                        true
                    },
                }
            },
            None => {
                let mut items: Vec<Listed> = Vec::new();
                items.push(copy_listed(item));
                let ghost v2 = items;
                self.tag_to_cid.push((t.clone(), items));
                proof {
                    lemma_view_dom(s0, t@);
                    assert(self.tag_to_cid@.drop_last() =~= s0);
                    assert(items_view(v2@) =~= seq![x]);
                    assert forall|y| items_view(v2@).to_set().contains(y) == (y == x) by {
                        if y == x {
                            assert(items_view(v2@)[0] == x);
                        }
                    }
                    assert(items_view(v2@).to_set() =~= Set::<(u8, u16, Seq<char>)>::empty().insert(x));
                    assert(index_keys(self.tag_to_cid@) =~= index_keys(s0).push(t@));
                    assert forall|i: int| 0 <= i < self.tag_to_cid@.len() implies items_view(
                        #[trigger] self.tag_to_cid@[i].1@,
                    ).no_duplicates() by {
                        if i < s0.len() {
                            assert(self.tag_to_cid@[i] == s0[i]);
                        }
                    }
                }
                true
            },
        }
    }
}


/// The index once content `item` is put under each of `tags`.
pub open spec fn joined(
    m: Map<Seq<char>, Set<(u8, u16, Seq<char>)>>,
    item: (u8, u16, Seq<char>),
    tags: Seq<Seq<char>>,
) -> Map<Seq<char>, Set<(u8, u16, Seq<char>)>> {
    Map::new(
        |k: Seq<char>| m.dom().contains(k) || tags.contains(k),
        |k: Seq<char>|
            if tags.contains(k) {
                contents_of(m, k).insert(item)
            } else {
                m[k]
            },
    )
}

/// The index once content `item` is taken from the tags in `done` that
/// are not among `tags`.
pub open spec fn pruned(
    m: Map<Seq<char>, Set<(u8, u16, Seq<char>)>>,
    item: (u8, u16, Seq<char>),
    tags: Seq<Seq<char>>,
    done: Seq<Seq<char>>,
) -> Map<Seq<char>, Set<(u8, u16, Seq<char>)>> {
    Map::new(
        |k: Seq<char>| m.dom().contains(k),
        |k: Seq<char>|
            if done.contains(k) && !tags.contains(k) {
                m[k].remove(item)
            } else {
                m[k]
            },
    )
}

impl SwarmShell {
    /// Takes content `item` from every tag of the index not among `tags`;
    /// the tags that lost it, in the index's order.
    fn unlist_elsewhere(&mut self, item: &Listed, tags: &Vec<String>) -> (lost: Vec<String>)
        requires
            old(self).wf(),
        ensures
            final(self).wf(),
            final(self).index() == pruned(
                old(self).index(),
                listed_view(*item),
                names(tags@),
                index_keys(old(self).tag_to_cid@),
            ),
            names(lost@) == lost_tags(old(self).tag_to_cid@, listed_view(*item), names(tags@)),
            index_keys(final(self).tag_to_cid@) == index_keys(old(self).tag_to_cid@),
    {
        let ghost s0 = self.tag_to_cid@;
        let ghost m0 = index_view(s0);
        let ghost x = listed_view(*item);
        let ghost tv = names(tags@);
        let mut lost: Vec<String> = Vec::new();
        let mut j: usize = 0;
        proof {
            assert(pruned(m0, x, tv, index_keys(s0).subrange(0, 0)) =~= m0);
            assert(s0.subrange(0, 0) =~= Seq::<(String, Vec<Listed>)>::empty());
        }
        while j < self.tag_to_cid.len()
            invariant
                j <= self.tag_to_cid@.len() == s0.len(),
                index_wf(self.tag_to_cid@),
                index_keys(self.tag_to_cid@) == index_keys(s0),
                forall|k: int| j <= k < s0.len() ==> #[trigger] self.tag_to_cid@[k] == s0[k],
                m0 == index_view(s0),
                index_keys(s0).no_duplicates(),
                index_view(self.tag_to_cid@) == pruned(m0, x, tv, index_keys(s0).subrange(0, j as int)),
                names(lost@) == lost_tags(s0.subrange(0, j as int), x, tv),
                tv == names(tags@),
                x == listed_view(*item),
            decreases s0.len() - j,
        {
            let ghost cur = self.tag_to_cid@;
            let ghost key = s0[j as int].0@;
            proof {
                assert(s0.subrange(0, j + 1).drop_last() =~= s0.subrange(0, j as int));
                assert(s0.subrange(0, j + 1).last() == s0[j as int]);
                assert(index_keys(s0).subrange(0, j + 1) =~= index_keys(s0).subrange(0, j as int).push(key));
                assert(index_keys(s0)[j as int] == key);
                assert(!index_keys(s0).subrange(0, j as int).contains(key)) by {
                    if index_keys(s0).subrange(0, j as int).contains(key) {
                        let i = choose|i: int| 0 <= i < j && index_keys(s0).subrange(0, j as int)[i] == key;
                        assert(index_keys(s0)[i] == index_keys(s0)[j as int]);
                    }
                }
                lemma_view_lookup(s0, j as int);
                lemma_view_lookup(cur, j as int);
            }
            let mut in_tags = false;
            let mut t: usize = 0;
            while t < tags.len()
                invariant
                    t <= tags@.len(),
                    j < self.tag_to_cid@.len(),
                    self.tag_to_cid@[j as int].0@ == key,
                    in_tags == names(tags@).subrange(0, t as int).contains(key),
                decreases tags@.len() - t,
            {
                let ghost pre = names(tags@).subrange(0, t as int);
                let same = same_text(&tags[t], &self.tag_to_cid[j].0);
                proof {
                    let post = names(tags@).subrange(0, t + 1);
                    assert(post =~= pre.push(tags@[t as int]@));
                    if same {
                        assert(post[t as int] == key);
                    }
                    if pre.contains(key) {
                        let i = choose|i: int| 0 <= i < pre.len() && pre[i] == key;
                        assert(post[i] == key);
                    }
                    if post.contains(key) && !same {
                        let i = choose|i: int| 0 <= i < post.len() && post[i] == key;
                        assert(i < t);
                        assert(pre[i] == key);
                    }
                }
                if same {
                    in_tags = true;
                }
                t = t + 1;
            }
            proof {
                assert(names(tags@).subrange(0, tags@.len() as int) =~= names(tags@));
            }
            if !in_tags {
                match find_listed(&self.tag_to_cid[j].1, item) {
                    Some(p) => {
                        let mut entry = (String::new(), Vec::new());
                        std::mem::swap(&mut entry, &mut self.tag_to_cid[j]);
                        let (k, mut items) = entry;
                        let ghost before = items@;
                        items.remove(p);
                        proof {
                            assert(before == s0[j as int].1@);
                            assert(items_view(before).no_duplicates());
                            assert(items_view(items@) =~= items_view(before).remove(p as int));
                            lemma_remove_to_set(items_view(before), p as int);
                        }
                        let ghost v2 = items;
                        lost.push(k.clone());
                        self.tag_to_cid.set(j, (k, items));
                        proof {
                            assert(self.tag_to_cid@ =~= cur.update(j as int, (cur[j as int].0, v2)));
                            lemma_view_update(cur, j as int, v2);
                            assert(index_keys(self.tag_to_cid@) =~= index_keys(cur));
                            assert forall|i: int| 0 <= i < self.tag_to_cid@.len() implies items_view(
                                #[trigger] self.tag_to_cid@[i].1@,
                            ).no_duplicates() by {
                                if i != j {
                                    assert(self.tag_to_cid@[i] == cur[i]);
                                    assert(items_view(cur[i].1@).no_duplicates());
                                } else {
                                    assert(self.tag_to_cid@[i].1 == v2);
                                }
                            }
                            assert(items_view(before)[p as int] == x);
                            assert(items_view(v2@) == items_view(before).remove(p as int));
                            assert(items_view(v2@).to_set() == items_view(before).to_set().remove(x));
                            assert(m0[key] == items_view(before).to_set());
                            assert(!tv.contains(key));
                            assert(index_view(cur)[key] == m0[key]);
                            assert(cur[j as int].0@ == key);
                            let done0 = index_keys(s0).subrange(0, j as int);
                            assert forall|k: Seq<char>| #[trigger] index_keys(s0).subrange(0, j + 1).contains(k) == (done0.contains(k) || k == key) by {
                                lemma_push_contains(done0, key, k);
                            }
                            assert(index_view(self.tag_to_cid@) =~= pruned(m0, x, tv, index_keys(s0).subrange(0, j + 1)));
                            assert(names(lost@) =~= lost_tags(s0.subrange(0, j + 1), x, tv));
                        }
                    },
                    None => {
                        proof {
                            assert(cur[j as int] == s0[j as int]);
                            assert(!items_view(s0[j as int].1@).to_set().contains(x));
                            assert(m0[key].remove(x) =~= m0[key]);
                            let done0 = index_keys(s0).subrange(0, j as int);
                            assert forall|k: Seq<char>| #[trigger] index_keys(s0).subrange(0, j + 1).contains(k) == (done0.contains(k) || k == key) by {
                                lemma_push_contains(done0, key, k);
                            }
                            assert(index_view(self.tag_to_cid@) =~= pruned(m0, x, tv, index_keys(s0).subrange(0, j + 1)));
                            assert(lost_tags(s0.subrange(0, j + 1), x, tv) == lost_tags(s0.subrange(0, j as int), x, tv));
                        }
                    },
                }
            } else {
                proof {
                    assert(tv.contains(key));
                    let done0 = index_keys(s0).subrange(0, j as int);
                    assert forall|k: Seq<char>| #[trigger] index_keys(s0).subrange(0, j + 1).contains(k) == (done0.contains(k) || k == key) by {
                        lemma_push_contains(done0, key, k);
                    }
                    assert(index_view(self.tag_to_cid@) =~= pruned(m0, x, tv, index_keys(s0).subrange(0, j + 1)));
                    assert(lost_tags(s0.subrange(0, j + 1), x, tv) == lost_tags(s0.subrange(0, j as int), x, tv));
                }
            }
            j = j + 1;
        }
        proof {
            assert(s0.subrange(0, s0.len() as int) =~= s0);
            assert(index_keys(s0).subrange(0, s0.len() as int) =~= index_keys(s0));
        }
        lost
    }
}


proof fn lemma_lost_same(
    s0: Seq<(String, Vec<Listed>)>,
    s2: Seq<(String, Vec<Listed>)>,
    x: (u8, u16, Seq<char>),
    tv: Seq<Seq<char>>,
)
    requires
        s2.len() >= s0.len(),
        forall|k: int| 0 <= k < s0.len() ==> #[trigger] s2[k].0@ == s0[k].0@,
        forall|k: int|
            0 <= k < s0.len() && !tv.contains(s0[k].0@) ==> #[trigger] items_view(s2[k].1@) == items_view(
                s0[k].1@,
            ),
        forall|k: int| s0.len() <= k < s2.len() ==> tv.contains(#[trigger] s2[k].0@),
    ensures
        lost_tags(s2, x, tv) == lost_tags(s0, x, tv),
    decreases s2.len(),
{
    if s2.len() > s0.len() {
        assert(tv.contains(s2[s2.len() - 1].0@));
        lemma_lost_same(s0, s2.drop_last(), x, tv);
    } else if s2.len() > 0 {
        let k = s2.len() - 1;
        assert(s2[k].0@ == s0[k].0@);
        lemma_lost_same(s0.drop_last(), s2.drop_last(), x, tv);
    }
}

impl SwarmShell {
    /// Lists content (`d_type`, `c_id`, `header`) under `tags`, or under
    /// the empty tag when it has none (see `tagged` and `listed_tags`): the
    /// tags that gained it (see `fresh_tags`), and those that lost it (see
    /// `lost_tags`).
    pub fn update_tag_to_cid(&mut self, c_id: u16, d_type: u8, tags: Vec<String>, header: String) -> (r: (
        Vec<String>,
        Vec<String>,
    ))
        requires
            old(self).wf(),
        ensures
            final(self).wf(),
            final(self).index() == tagged(old(self).index(), (d_type, c_id, header@), names(tags@)),
            names(r.0@) == fresh_tags(old(self).index(), (d_type, c_id, header@), listed_tags(names(tags@))),
            names(r.1@) == lost_tags(old(self).tag_to_cid@, (d_type, c_id, header@), listed_tags(names(tags@))),
    {
        let ghost s0 = self.tag_to_cid@;
        let ghost m0 = index_view(s0);
        let item: Listed = (d_type, c_id, header);
        let ghost x = listed_view(item);
        let ghost given = names(tags@);
        let tags = if tags.len() == 0 {
            let mut only: Vec<String> = Vec::new();
            only.push(String::new());
            proof {
                assert(names(only@) =~= listed_tags(given));
            }
            only
        } else {
            tags
        };
        let ghost tv = names(tags@);
        proof {
            assert(tv == listed_tags(given));
            assert(listed_tags(tv) == tv);
        }
        let mut fresh: Vec<String> = Vec::new();
        let mut i: usize = 0;
        proof {
            assert(joined(m0, x, tv.subrange(0, 0)) =~= m0);
            assert(names(fresh@) =~= fresh_tags(m0, x, tv.subrange(0, 0)));
        }
        while i < tags.len()
            invariant
                i <= tags@.len(),
                tv == names(tags@),
                x == listed_view(item),
                m0 == index_view(s0),
                index_wf(self.tag_to_cid@),
                index_view(self.tag_to_cid@) == joined(m0, x, tv.subrange(0, i as int)),
                names(fresh@) == fresh_tags(m0, x, tv.subrange(0, i as int)),
                self.tag_to_cid@.len() >= s0.len(),
                forall|k: int| 0 <= k < s0.len() ==> #[trigger] self.tag_to_cid@[k].0@ == s0[k].0@,
                forall|k: int|
                    0 <= k < s0.len() && !tv.subrange(0, i as int).contains(s0[k].0@)
                        ==> #[trigger] items_view(self.tag_to_cid@[k].1@) == items_view(s0[k].1@),
                forall|k: int|
                    s0.len() <= k < self.tag_to_cid@.len() ==> tv.subrange(0, i as int).contains(
                        #[trigger] self.tag_to_cid@[k].0@,
                    ),
            decreases tags@.len() - i,
        {
            let ghost cur = self.tag_to_cid@;
            let ghost pre = tv.subrange(0, i as int);
            let ghost t = tags@[i as int]@;
            let gained = self.list_under(&tags[i], &item);
            if gained {
                fresh.push(tags[i].clone());
            }
            proof {
                let post = tv.subrange(0, i + 1);
                assert(post =~= pre.push(t));
                assert(post.drop_last() =~= pre);
                assert forall|k: Seq<char>| #[trigger] post.contains(k) == (pre.contains(k) || k == t) by {
                    lemma_push_contains(pre, t, k);
                }
                let cm = joined(m0, x, pre);
                assert(contents_of(cm, t).insert(x) =~= contents_of(m0, t).insert(x));
                assert(index_view(self.tag_to_cid@) == cm.insert(t, contents_of(cm, t).insert(x)));
                assert(index_view(self.tag_to_cid@) =~= joined(m0, x, post));
                assert(names(fresh@) =~= fresh_tags(m0, x, post));
            }
            i = i + 1;
        }
        proof {
            assert(tv.subrange(0, tv.len() as int) =~= tv);
        }
        let ghost s2 = self.tag_to_cid@;
        let lost = self.unlist_elsewhere(&item, &tags);
        proof {
            lemma_lost_same(s0, s2, x, tv);
            assert forall|k: Seq<char>| #[trigger] index_view(s2).dom().contains(k) == index_keys(s2).contains(k) by {
                lemma_view_dom(s2, k);
            }
            assert(index_view(self.tag_to_cid@) =~= tagged(m0, x, tv));
        }
        (fresh, lost)
    }

    /// The contents of tag `tag`: none when it has none.
    pub fn get_cids_for_tag(&self, tag: &String) -> (r: Vec<Listed>)
        requires
            self.wf(),
        ensures
            items_view(r@).to_set() == contents_of(self.index(), tag@),
            items_view(r@).no_duplicates(),
    {
        match find_tag(&self.tag_to_cid, tag) {
            Some(j) => {
                proof {
                    lemma_view_lookup(self.tag_to_cid@, j as int);
                }
                let v = &self.tag_to_cid[j].1;
                let mut r: Vec<Listed> = Vec::new();
                let mut i: usize = 0;
                while i < v.len()
                    invariant
                        i <= v@.len(),
                        r@.len() == i,
                        forall|k: int| 0 <= k < i ==> #[trigger] listed_view(r@[k]) == listed_view(v@[k]),
                    decreases v@.len() - i,
                {
                    r.push(copy_listed(&v[i]));
                    i = i + 1;
                }
                proof {
                    assert(items_view(r@) =~= items_view(v@));
                    assert(items_view(v@).no_duplicates());
                }
                r
            },
            None => {
                let none: Vec<Listed> = Vec::new();
                proof {
                    lemma_view_dom(self.tag_to_cid@, tag@);
                    assert(items_view(none@).to_set() =~= Set::<(u8, u16, Seq<char>)>::empty());
                }
                none
            },
        }
    }

    /// Empties every tag, keeping the tags.
    pub fn clear_tag_to_cid(&mut self)
        requires
            old(self).wf(),
        ensures
            final(self).wf(),
            final(self).index().dom() == old(self).index().dom(),
            forall|k: Seq<char>| #[trigger] final(self).index().dom().contains(k) ==> final(self).index()[k].is_empty(),
    {
        let ghost s0 = self.tag_to_cid@;
        let mut i: usize = 0;
        while i < self.tag_to_cid.len()
            invariant
                i <= self.tag_to_cid@.len() == s0.len(),
                index_wf(self.tag_to_cid@),
                index_keys(self.tag_to_cid@) == index_keys(s0),
                forall|k: int| 0 <= k < i ==> (#[trigger] self.tag_to_cid@[k]).1@.len() == 0,
            decreases s0.len() - i,
        {
            let ghost cur = self.tag_to_cid@;
            let mut entry = (String::new(), Vec::new());
            std::mem::swap(&mut entry, &mut self.tag_to_cid[i]);
            let (k, _) = entry;
            self.tag_to_cid.set(i, (k, Vec::new()));
            proof {
                assert(index_keys(self.tag_to_cid@) =~= index_keys(cur));
                assert forall|j: int| 0 <= j < self.tag_to_cid@.len() implies items_view(
                    #[trigger] self.tag_to_cid@[j].1@,
                ).no_duplicates() by {
                    if j != i {
                        assert(self.tag_to_cid@[j] == cur[j]);
                        assert(items_view(cur[j].1@).no_duplicates());
                    } else {
                        assert(items_view(self.tag_to_cid@[j].1@) =~= Seq::<(u8, u16, Seq<char>)>::empty());
                    }
                }
            }
            i = i + 1;
        }
        proof {
            assert forall|k: Seq<char>| #[trigger] index_view(self.tag_to_cid@).dom().contains(k) == index_view(s0).dom().contains(k) by {
                lemma_view_dom(self.tag_to_cid@, k);
                lemma_view_dom(s0, k);
            }
            assert(index_view(self.tag_to_cid@).dom() =~= index_view(s0).dom());
            assert forall|k: Seq<char>| #[trigger] index_view(self.tag_to_cid@).dom().contains(k) implies index_view(self.tag_to_cid@)[k].is_empty() by {
                lemma_view_dom(self.tag_to_cid@, k);
                let j = choose|j: int| 0 <= j < index_keys(self.tag_to_cid@).len() && index_keys(self.tag_to_cid@)[j] == k;
                lemma_view_lookup(self.tag_to_cid@, j);
                assert(items_view(self.tag_to_cid@[j].1@) =~= Seq::<(u8, u16, Seq<char>)>::empty());
                assert(items_view(self.tag_to_cid@[j].1@).to_set() =~= Set::<(u8, u16, Seq<char>)>::empty());
            }
        }
    }
}


/// The rings of street names that the village shows in turn, `visible` at
/// once: the first ring holds the first `visible` tags; each further tag
/// makes a ring of its own, and a ring with the empty tag closes the list
/// (the first ring takes the empty tag when it has room).
pub open spec fn tag_rings(tags: Seq<Seq<char>>, visible: int) -> Seq<Seq<Seq<char>>> {
    if tags.len() < visible {
        seq![tags.push(seq![])]
    } else {
        seq![tags.subrange(0, visible)] + Seq::new(
            (tags.len() - visible) as nat,
            |k: int| seq![tags[visible + k]],
        ) + seq![seq![seq![]]]
    }
}

/// The rings completed after the first `i` tags (see `tag_rings`).
pub open spec fn rings_before(tv: Seq<Seq<char>>, visible: int, i: int) -> Seq<Seq<Seq<char>>> {
    if i <= visible {
        seq![]
    } else {
        seq![tv.subrange(0, visible)] + Seq::new((i - visible - 1) as nat, |k: int| seq![tv[visible + k]])
    }
}

/// The ring being filled after the first `i` tags (see `tag_rings`).
pub open spec fn ring_open(tv: Seq<Seq<char>>, visible: int, i: int) -> Seq<Seq<char>> {
    if i <= visible {
        tv.subrange(0, i)
    } else {
        seq![tv[i - 1]]
    }
}

/// The rings of street names (see `tag_rings`) of the manifest's tags,
/// given in the order of their ids.
pub fn tag_ring(tags: &Vec<String>, visible: usize) -> (r: Vec<Vec<String>>)
    ensures
        r@.map_values(|ring: Vec<String>| names(ring@)) == tag_rings(names(tags@), visible as int),
{
    let ghost tv = names(tags@);
    let mut ring: Vec<Vec<String>> = Vec::new();
    let mut set: Vec<String> = Vec::new();
    let mut remaining = visible;
    let mut i: usize = 0;
    proof {
        assert(names(set@) =~= tv.subrange(0, 0));
    }
    while i < tags.len()
        invariant
            i <= tags@.len(),
            tv == names(tags@),
            remaining == if i <= visible { visible - i } else { 0 },
            ring@.map_values(|g: Vec<String>| names(g@)) == rings_before(tv, visible as int, i as int),
            names(set@) == ring_open(tv, visible as int, i as int),
        decreases tags@.len() - i,
    {
        if remaining > 0 {
            let ghost before = names(set@);
            remaining = remaining - 1;
            let t = tags[i].clone();
            set.push(t);
            proof {
                assert(i < visible);
                assert(before == tv.subrange(0, i as int));
                assert(names(set@) =~= before.push(t@));
                assert(t@ == tv[i as int]);
                assert(names(set@) =~= tv.subrange(0, i + 1));
                assert(rings_before(tv, visible as int, i + 1) =~= seq![]);
            }
        } else {
            let mut next: Vec<String> = Vec::new();
            next.push(tags[i].clone());
            std::mem::swap(&mut set, &mut next);
            let ghost closed = names(next@);
            ring.push(next);
            proof {
                assert(names(set@) =~= seq![tv[i as int]]);
                assert(closed == ring_open(tv, visible as int, i as int));
                assert(ring@.map_values(|g: Vec<String>| names(g@)) =~= rings_before(tv, visible as int, i as int).push(closed));
                if i == visible {
                    assert(ring_open(tv, visible as int, i as int) == tv.subrange(0, visible as int));
                } else {
                    assert(ring_open(tv, visible as int, i as int) == seq![tv[i - 1]]);
                }
                assert(rings_before(tv, visible as int, i as int).push(closed) =~= rings_before(tv, visible as int, i + 1));
            }
        }
        i = i + 1;
    }
    let empty = String::new();
    proof {
        assert(empty@ =~= Seq::<char>::empty());
    }
    if remaining > 0 {
        let ghost before = names(set@);
        proof {
            assert(i == tags@.len());
            assert(before == tv.subrange(0, i as int));
            assert(tv.subrange(0, i as int) =~= tv);
        }
        set.push(empty);
        let ghost last = names(set@);
        proof {
            assert(last =~= before.push(empty@));
        }
        ring.push(set);
        proof {
            assert(ring@.map_values(|g: Vec<String>| names(g@)) =~= seq![last]);
            assert(last =~= tv.push(seq![]));
        }
    } else {
        let ghost open = names(set@);
        ring.push(set);
        let mut last: Vec<String> = Vec::new();
        last.push(empty);
        let ghost lv = names(last@);
        ring.push(last);
        proof {
            assert(lv =~= seq![seq![]]);
            assert(ring@.map_values(|g: Vec<String>| names(g@)) =~= rings_before(tv, visible as int, i as int).push(open).push(lv));
        }
    }
    proof {
        assert(ring@.map_values(|g: Vec<String>| names(g@)) =~= tag_rings(tv, visible as int));
    }
    ring
}

/// The ring after the cursor left the screen upward: the front ring goes
/// to the back. A ring of fewer than two rings stays as it is.
pub open spec fn turned_up<T>(s: Seq<T>) -> Seq<T> {
    if s.len() > 1 {
        s.drop_first().push(s[0])
    } else {
        s
    }
}

/// The ring after the cursor left the screen downward: the back ring comes
/// to the front. A ring of fewer than two rings stays as it is.
pub open spec fn turned_down<T>(s: Seq<T>) -> Seq<T> {
    if s.len() > 1 {
        seq![s.last()] + s.drop_last()
    } else {
        s
    }
}

/// Turning the ring down undoes turning it up, and turning it up undoes
/// turning it down.
pub proof fn lemma_turns_undo<T>(s: Seq<T>)
    ensures
        turned_down(turned_up(s)) == s,
        turned_up(turned_down(s)) == s,
{
    if s.len() > 1 {
        assert(turned_up(s).len() == s.len());
        assert(turned_down(turned_up(s)) =~= s);
        assert(turned_down(s).len() == s.len());
        assert(turned_up(turned_down(s)) =~= s);
    }
}

/// A copy of a list of names.
pub(crate) fn copy_names(v: &Vec<String>) -> (r: Vec<String>)
    ensures
        r@ == v@,
{
    let mut r: Vec<String> = Vec::new();
    let mut i: usize = 0;
    while i < v.len()
        invariant
            i <= v@.len(),
            r@ == v@.subrange(0, i as int),
        decreases v@.len() - i,
    {
        r.push(v[i].clone());
        i = i + 1;
    }
    proof {
        assert(v@.subrange(0, v@.len() as int) =~= v@);
    }
    r
}

/// Turns the ring up (see `turned_up`) and gives the street names now in
/// front, or nothing when the ring did not turn.
pub fn turn_ring_up(ring: &mut Vec<Vec<String>>) -> (shown: Option<Vec<String>>)
    ensures
        final(ring)@ == turned_up(old(ring)@),
        match shown {
            Some(names) => old(ring)@.len() > 1 && names@ == final(ring)@[0]@,
            None => old(ring)@.len() <= 1,
        },
{
    if ring.len() > 1 {
        let ghost s = ring@;
        let front = ring.remove(0);
        ring.push(front);
        proof {
            assert(ring@ =~= s.drop_first().push(s[0]));
        }
        let names = copy_names(&ring[0]);
        Some(names)
    } else {
        None
    }
}

/// Turns the ring down (see `turned_down`) and gives the street names now
/// in front, or nothing when the ring did not turn.
pub fn turn_ring_down(ring: &mut Vec<Vec<String>>) -> (shown: Option<Vec<String>>)
    ensures
        final(ring)@ == turned_down(old(ring)@),
        match shown {
            Some(names) => old(ring)@.len() > 1 && names@ == final(ring)@[0]@,
            None => old(ring)@.len() <= 1,
        },
{
    if ring.len() > 1 {
        let ghost s = ring@;
        match ring.pop() {
            Some(back) => {
                let names = copy_names(&back);
                ring.insert(0, back);
                proof {
                    assert(ring@ =~= seq![s.last()] + s.drop_last());
                }
                Some(names)
            },
            None => None,
        }
    } else {
        None
    }
}

impl SwarmShell {
    /// Each of `streets` with its contents (see `get_cids_for_tag`), in
    /// the order given.
    pub fn streets_with_contents(&self, streets: &Vec<String>) -> (r: Vec<(String, Vec<Listed>)>)
        requires
            self.wf(),
        ensures
            r@.len() == streets@.len(),
            forall|i: int| 0 <= i < streets@.len() ==> #[trigger] r@[i].0@ == streets@[i]@,
            forall|i: int|
                0 <= i < streets@.len() ==> items_view(#[trigger] r@[i].1@).to_set() == contents_of(
                    self.index(),
                    streets@[i]@,
                ) && items_view(r@[i].1@).no_duplicates(),
    {
        let mut r: Vec<(String, Vec<Listed>)> = Vec::new();
        let mut i: usize = 0;
        while i < streets.len()
            invariant
                self.wf(),
                i <= streets@.len(),
                r@.len() == i,
                forall|k: int| 0 <= k < i ==> #[trigger] r@[k].0@ == streets@[k]@,
                forall|k: int|
                    0 <= k < i ==> items_view(#[trigger] r@[k].1@).to_set() == contents_of(
                        self.index(),
                        streets@[k]@,
                    ) && items_view(r@[k].1@).no_duplicates(),
            decreases streets@.len() - i,
        {
            let contents = self.get_cids_for_tag(&streets[i]);
            r.push((streets[i].clone(), contents));
            i = i + 1;
        }
        r
    }
}

} // verus!
