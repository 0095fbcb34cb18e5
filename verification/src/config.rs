//! The client's configuration: the configuration file's lines, the gnome
//! id in a stored swarm's directory name, and which stored neighbors to
//! contact first.
use crate::chars::chars_of;
use crate::selector::{split_words, words};
use vstd::prelude::*;
use vstd::string::*;

verus! {

/// Where the assets are unless the configuration says otherwise.
pub open spec fn default_asset_dir() -> Seq<char> {
    "/home/dxtr/projects/village-tui/assets/"@
}

/// A line that the configuration skips: a comment or an empty line.
pub open spec fn skipped(line: Seq<char>) -> bool {
    line.len() == 0 || line[0] == '#'
}

/// Reading a line panics when it is neither skipped nor has a word.
pub open spec fn lines_readable(lines: Seq<Seq<char>>) -> bool {
    forall|i: int| 0 <= i < lines.len() ==> skipped(#[trigger] lines[i]) || words(lines[i]).len() > 0
}

/// The asset directory after the first `i` lines: the word after the last
/// `ASSET_DIR` that has one.
pub open spec fn asset_dir_after(lines: Seq<Seq<char>>, i: int) -> Seq<char>
    decreases i,
{
    if i <= 0 {
        default_asset_dir()
    } else {
        let before = asset_dir_after(lines, i - 1);
        let l = lines[i - 1];
        if skipped(l) {
            before
        } else {
            let ws = words(l);
            if ws.len() >= 2 && ws[0] == "ASSET_DIR"@ {
                ws[1]
            } else {
                before
            }
        }
    }
}

/// The asset directory that the configuration file's lines set.
pub fn parse_config(lines: &Vec<String>) -> (asset_dir: String)
    requires
        lines_readable(lines@.map_values(|l: String| l@)),
    ensures
        asset_dir@ == asset_dir_after(lines@.map_values(|l: String| l@), lines@.len() as int),
{
    let ghost lv = lines@.map_values(|l: String| l@);
    let mut dir = String::from_str("/home/dxtr/projects/village-tui/assets/");
    let key = chars_of("ASSET_DIR");
    let mut i: usize = 0;
    while i < lines.len()
        invariant
            i <= lines@.len(),
            lv == lines@.map_values(|l: String| l@),
            key@ == "ASSET_DIR"@,
            dir@ == asset_dir_after(lv, i as int),
        decreases lines@.len() - i,
    {
        let l = chars_of(lines[i].as_str());
        proof {
            assert(l@ == lv[i as int]);
        }
        if l.len() == 0 || l[0] == '#' {
        } else {
            let ws = split_words(&l);
            proof {
                assert(ws@.map_values(|w: Vec<char>| w@).len() == ws@.len());
            }
            if ws.len() >= 2 {
                proof {
                    assert(ws@.map_values(|w: Vec<char>| w@)[0] == ws@[0]@);
                    assert(ws@.map_values(|w: Vec<char>| w@)[1] == ws@[1]@);
                }
                if same_chars(&ws[0], &key) {
                    dir = crate::chars::string_of(&ws[1]);
                }
            }
        }
        i = i + 1;
    }
    dir
}

/// Whether two character sequences are equal.
fn same_chars(a: &Vec<char>, b: &Vec<char>) -> (r: bool)
    ensures
        r == (a@ == b@),
{
    if a.len() != b.len() {
        return false;
    }
    let mut i: usize = 0;
    while i < a.len()
        invariant
            a.len() == b.len(),
            i <= a.len(),
            forall|k: int| 0 <= k < i ==> a@[k] == b@[k],
        decreases a.len() - i,
    {
        if a[i] != b[i] {
            return false;
        }
        i = i + 1;
    }
    proof {
        assert(a@ =~= b@);
    }
    true
}

/// The value of a hexadecimal digit.
pub open spec fn hex_value(c: char) -> int {
    if '0' <= c <= '9' {
        c as int - '0' as int
    } else if 'a' <= c <= 'f' {
        c as int - 'a' as int + 10
    } else if 'A' <= c <= 'F' {
        c as int - 'A' as int + 10
    } else {
        -1
    }
}

/// The number that the hexadecimal digits of `s` stand for.
pub open spec fn hex_number(s: Seq<char>) -> int
    decreases s.len(),
{
    if s.len() == 0 {
        0
    } else {
        hex_number(s.drop_last()) * 16 + hex_value(s.last())
    }
}

/// A directory name's part after its last `-`, when it has one.
pub open spec fn after_last_dash(s: Seq<char>) -> Option<Seq<char>>
    decreases s.len(),
{
    if s.len() == 0 {
        None
    } else if s.last() == '-' {
        Some(Seq::empty())
    } else {
        match after_last_dash(s.drop_last()) {
            Some(t) => Some(t.push(s.last())),
            None => None,
        }
    }
}

/// The digits of a number written with an optional leading `+`.
pub open spec fn unsigned_digits(t: Seq<char>) -> Seq<char> {
    if t.len() > 0 && t[0] == '+' {
        t.drop_first()
    } else {
        t
    }
}

/// Reading a stored swarm's gnome id panics unless the part after the last
/// `-` is a hexadecimal number (a `+` may lead) that fits in 64 bits.
pub open spec fn id_readable(name: Seq<char>) -> bool {
    after_last_dash(name) matches Some(t) ==> {
        let d = unsigned_digits(t);
        &&& d.len() > 0
        &&& forall|i: int| 0 <= i < d.len() ==> hex_value(#[trigger] d[i]) >= 0
        &&& hex_number(d) <= u64::MAX
    }
}

proof fn lemma_hex_number_nonneg(s: Seq<char>)
    requires
        forall|i: int| 0 <= i < s.len() ==> hex_value(#[trigger] s[i]) >= 0,
    ensures
        hex_number(s) >= 0,
    decreases s.len(),
{
    if s.len() > 0 {
        let d = s.drop_last();
        assert forall|i: int| 0 <= i < d.len() implies hex_value(#[trigger] d[i]) >= 0 by {
            assert(d[i] == s[i]);
        }
        lemma_hex_number_nonneg(d);
        assert(hex_value(s[s.len() - 1]) >= 0);
    }
}

proof fn lemma_hex_number_bound(s: Seq<char>, k: int)
    requires
        0 <= k <= s.len(),
        forall|i: int| 0 <= i < s.len() ==> hex_value(#[trigger] s[i]) >= 0,
    ensures
        0 <= hex_number(s.subrange(0, k)) <= hex_number(s),
    decreases s.len() - k,
{
    if k < s.len() {
        lemma_hex_number_bound(s, k + 1);
        let p = s.subrange(0, k + 1);
        assert(p.drop_last() =~= s.subrange(0, k));
        assert(p.last() == s[k]);
        assert(0 <= hex_value(s[k]) <= 15);
        assert(hex_number(p) == hex_number(s.subrange(0, k)) * 16 + hex_value(s[k]));
    } else {
        assert(s.subrange(0, k) =~= s);
        lemma_hex_number_nonneg(s);
    }
}

proof fn lemma_after_last_dash(s: Seq<char>, p: int)
    requires
        0 <= p < s.len(),
        s[p] == '-',
        forall|j: int| p < j < s.len() ==> s[j] != '-',
    ensures
        after_last_dash(s) == Some(s.subrange(p + 1, s.len() as int)),
    decreases s.len(),
{
    if p < s.len() - 1 {
        lemma_after_last_dash(s.drop_last(), p);
        assert(s.subrange(p + 1, s.len() - 1).push(s.last()) =~= s.subrange(p + 1, s.len() as int));
    } else {
        assert(s.subrange(p + 1, s.len() as int) =~= Seq::<char>::empty());
    }
}

proof fn lemma_no_dash(s: Seq<char>)
    requires
        forall|j: int| 0 <= j < s.len() ==> s[j] != '-',
    ensures
        after_last_dash(s) is None,
    decreases s.len(),
{
    if s.len() > 0 {
        lemma_no_dash(s.drop_last());
    }
}

/// The gnome id in a stored swarm's directory name: the hexadecimal number
/// after its last `-`; none when the name has no `-`.
pub fn dir_gnome_id(name: &str) -> (id: Option<u64>)
    requires
        id_readable(name@),
    ensures
        match after_last_dash(name@) {
            Some(t) => id == Some(hex_number(unsigned_digits(t)) as u64),
            None => id is None,
        },
{
    let s = chars_of(name);
    let n = s.len();
    let mut p: usize = n;
    while p > 0 && s[p - 1] != '-'
        invariant
            p <= n,
            n == s@.len(),
            forall|j: int| p <= j < n ==> s@[j] != '-',
        decreases p,
    {
        p = p - 1;
    }
    if p == 0 {
        proof {
            lemma_no_dash(s@);
        }
        return None;
    }
    proof {
        lemma_after_last_dash(s@, p - 1);
    }
    if p < n && s[p] == '+' {
        proof {
            assert(unsigned_digits(s@.subrange(p as int, n as int)) =~= s@.subrange(p + 1, n as int));
        }
        p = p + 1;
    } else {
        proof {
            assert(unsigned_digits(s@.subrange(p as int, n as int)) =~= s@.subrange(p as int, n as int));
        }
    }
    let ghost t = s@.subrange(p as int, n as int);
    let mut v: u64 = 0;
    let mut k: usize = p;
    while k < n
        invariant
            p <= k <= n,
            n == s@.len(),
            t == s@.subrange(p as int, n as int),
            t.len() > 0,
            forall|i: int| 0 <= i < t.len() ==> hex_value(#[trigger] t[i]) >= 0,
            hex_number(t) <= u64::MAX,
            v == hex_number(t.subrange(0, k - p)),
        decreases n - k,
    {
        let c = s[k];
        proof {
            assert(c == t[k - p]);
            lemma_hex_number_bound(t, k + 1 - p);
            let q = t.subrange(0, k + 1 - p);
            assert(q.drop_last() =~= t.subrange(0, k - p));
            assert(q.last() == c);
        }
        let d: u64 = if '0' <= c && c <= '9' {
            (c as u64) - ('0' as u64)
        } else if 'a' <= c && c <= 'f' {
            (c as u64) - ('a' as u64) + 10
        } else {
            (c as u64) - ('A' as u64) + 10
        };
        v = v * 16 + d;
        k = k + 1;
    }
    proof {
        assert(t.subrange(0, n - p) =~= t);
    }
    Some(v)
}

/// The choice of stored neighbors so far: whether an IPv4 address comes
/// next, the ids already taken, the chosen (id, swarm, address) triples,
/// and the current swarm's address count as the choice sees it.
pub struct NeighborChoice {
    pub next_v4: bool,
    pub added: Seq<u64>,
    pub out: Seq<(u64, usize, usize)>,
    pub ip_count: int,
}

/// One address of swarm `si` (gnome `g`) considered: addresses without a
/// public port are skipped (and make the swarm count as having one
/// address); IPv4 and IPv6 neighbors are taken in turn, each gnome once.
pub open spec fn consider(st: NeighborChoice, g: u64, si: usize, ii: usize, v4: bool, port: u16) -> NeighborChoice {
    let take = NeighborChoice {
        added: st.added.push(g),
        out: st.out.push((g, si, ii)),
        ..st
    };
    if port == 0 {
        NeighborChoice { ip_count: if st.ip_count > 1 { 1 } else { st.ip_count }, ..st }
    } else if st.added.contains(g) {
        st
    } else if v4 {
        if st.next_v4 {
            NeighborChoice { next_v4: false, ..take }
        } else if st.ip_count == 1 {
            take
        } else {
            st
        }
    } else if st.next_v4 && st.ip_count == 1 {
        take
    } else {
        NeighborChoice { next_v4: true, ..take }
    }
}

/// The choice after going through the swarms from swarm `si`, address `ii`.
pub open spec fn choose_from(swarms: Seq<(u64, Seq<(bool, u16)>)>, si: int, ii: int, st: NeighborChoice) -> NeighborChoice
    decreases swarms.len() - si, (if 0 <= si < swarms.len() { swarms[si].1.len() as int } else { 0 }) - ii,
{
    if si < 0 || si >= swarms.len() || ii < 0 {
        st
    } else if ii >= swarms[si].1.len() {
        choose_from(
            swarms,
            si + 1,
            0,
            NeighborChoice {
                ip_count: if si + 1 < swarms.len() { swarms[si + 1].1.len() as int } else { 0 },
                ..st
            },
        )
    } else {
        let ip = swarms[si].1[ii];
        choose_from(swarms, si, ii + 1, consider(st, swarms[si].0, si as usize, ii as usize, ip.0, ip.1))
    }
}

/// The neighbors chosen from all the stored swarms.
pub open spec fn chosen_neighbors(swarms: Seq<(u64, Seq<(bool, u16)>)>) -> Seq<(u64, usize, usize)> {
    choose_from(
        swarms,
        0,
        0,
        NeighborChoice {
            next_v4: true,
            added: seq![],
            out: seq![],
            ip_count: if swarms.len() > 0 { swarms[0].1.len() as int } else { 0 },
        },
    ).out
}

/// Chooses the stored neighbors to contact: for each swarm (its gnome id
/// and, per public address, whether it is IPv4 and its port), the triples
/// (gnome id, swarm index, address index) of the addresses taken.
pub fn storage_neighbors(swarms: &Vec<(u64, Vec<(bool, u16)>)>) -> (r: Vec<(u64, usize, usize)>)
    ensures
        r@ == chosen_neighbors(swarms@.map_values(|s: (u64, Vec<(bool, u16)>)| (s.0, s.1@))),
{
    let ghost sv = swarms@.map_values(|s: (u64, Vec<(bool, u16)>)| (s.0, s.1@));
    let ghost init = NeighborChoice {
        next_v4: true,
        added: seq![],
        out: seq![],
        ip_count: if sv.len() > 0 { sv[0].1.len() as int } else { 0 },
    };
    let mut next_v4 = true;
    let mut added: Vec<u64> = Vec::new();
    let mut out: Vec<(u64, usize, usize)> = Vec::new();
    let mut si: usize = 0;
    while si < swarms.len()
        invariant
            si <= swarms@.len(),
            sv == swarms@.map_values(|s: (u64, Vec<(bool, u16)>)| (s.0, s.1@)),
            choose_from(
                sv,
                si as int,
                0,
                NeighborChoice {
                    next_v4,
                    added: added@,
                    out: out@,
                    ip_count: if si < sv.len() { sv[si as int].1.len() as int } else { 0 },
                },
            ) == choose_from(sv, 0, 0, init),
        decreases swarms@.len() - si,
    {
        let g = swarms[si].0;
        let ips = &swarms[si].1;
        proof {
            assert(sv[si as int] == (g, ips@));
        }
        let mut ip_count: usize = ips.len();
        let mut ii: usize = 0;
        while ii < ips.len()
            invariant
                si < swarms@.len(),
                ii <= ips@.len(),
                sv == swarms@.map_values(|s: (u64, Vec<(bool, u16)>)| (s.0, s.1@)),
                sv[si as int] == (g, ips@),
                ip_count <= ips@.len(),
                choose_from(
                    sv,
                    si as int,
                    ii as int,
                    NeighborChoice { next_v4, added: added@, out: out@, ip_count: ip_count as int },
                ) == choose_from(sv, 0, 0, init),
            decreases ips@.len() - ii,
        {
            let (v4, port) = ips[ii];
            let ghost st = NeighborChoice { next_v4, added: added@, out: out@, ip_count: ip_count as int };
            proof {
                assert(sv[si as int].1[ii as int] == (v4, port));
                assert(choose_from(sv, si as int, ii as int, st)
                    == choose_from(sv, si as int, ii + 1, consider(st, g, si, ii, v4, port)));
            }
            if port == 0 {
                if ip_count > 1 {
                    ip_count = 1;
                }
            } else {
                let mut known = false;
                let mut k: usize = 0;
                while k < added.len()
                    invariant
                        k <= added@.len(),
                        known == (exists|j: int| 0 <= j < k && added@[j] == g),
                    decreases added@.len() - k,
                {
                    if added[k] == g {
                        known = true;
                    }
                    k = k + 1;
                }
                proof {
                    if known {
                        let j = choose|j: int| 0 <= j < added@.len() && added@[j] == g;
                        assert(added@.contains(g));
                    } else {
                        assert(!added@.contains(g));
                    }
                }
                if !known {
                    let take = if v4 {
                        if next_v4 {
                            next_v4 = false;
                            true
                        } else {
                            ip_count == 1
                        }
                    } else if next_v4 && ip_count == 1 {
                        true
                    } else {
                        next_v4 = true;
                        true
                    };
                    if take {
                        added.push(g);
                        out.push((g, si, ii));
                    }
                }
            }
            proof {
                assert(NeighborChoice { next_v4, added: added@, out: out@, ip_count: ip_count as int }
                    == consider(st, g, si, ii, v4, port));
            }
            ii = ii + 1;
        }
        si = si + 1;
    }
    out
}

} // verus!
