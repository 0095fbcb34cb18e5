//! The option selector: a grid of option buttons over pages, a selection
//! cursor, a set of chosen options and a filter typed by the user that
//! keeps the options containing any of its words.
use crate::board::{contains_chars, contains_seq};
use crate::chars::chars_of;
use crate::entry::{is_white_space, white_space};
use crate::keys::{key_of_char, private_key, KeyCode};
use vstd::prelude::*;

verus! {

/// What a key press asks the selector to do.
#[derive(Clone, Copy, Debug, PartialEq, Eq, Structural)]
pub enum SelAction {
    MoveLeft,
    MoveRight,
    MoveUp,
    MoveDown,
    NextPage,
    PrevPage,
    Select,
    AddToFilter(char),
    DelFromFilter,
    ClearFilter,
    Finish,
    Nothing,
}

/// A character of the Unicode control category.
pub open spec fn control(c: char) -> bool {
    (c as u32) <= 0x1f || (0x7f <= (c as u32) && (c as u32) <= 0x9f)
}

pub fn is_control_char(c: char) -> (b: bool)
    ensures
        b == control(c),
{
    let u = c as u32;
    u <= 0x1f || (0x7f <= u && u <= 0x9f)
}

/// The action of a key press: a decoded key, a control character, or a
/// character typed into the filter.
pub open spec fn spec_action(c: char, key: Option<KeyCode>) -> SelAction {
    match key {
        Some(k) => match k {
            KeyCode::AltTab => SelAction::Select,
            KeyCode::PgUp => SelAction::PrevPage,
            KeyCode::PgDn => SelAction::NextPage,
            KeyCode::Up => SelAction::MoveUp,
            KeyCode::Down => SelAction::MoveDown,
            KeyCode::Left => SelAction::MoveLeft,
            KeyCode::Right => SelAction::MoveRight,
            _ => SelAction::Nothing,
        },
        None => if control(c) {
            if c == '\u{2}' {
                SelAction::MoveLeft
            } else if c == '\u{4}' {
                SelAction::NextPage
            } else if c == '\u{6}' {
                SelAction::MoveRight
            } else if c == '\n' {
                SelAction::Select
            } else if c == '\u{b}' {
                SelAction::ClearFilter
            } else if c == '\u{e}' {
                SelAction::MoveDown
            } else if c == '\u{10}' {
                SelAction::MoveUp
            } else if c == '\u{15}' {
                SelAction::PrevPage
            } else if c == '\u{1b}' {
                SelAction::Finish
            } else if c == '\u{7f}' {
                SelAction::DelFromFilter
            } else {
                SelAction::Nothing
            }
        } else {
            SelAction::AddToFilter(c)
        },
    }
}

/// The action of character `c`, given the key decoded from it, if any.
pub fn action_for(c: char, key: Option<KeyCode>) -> (a: SelAction)
    ensures
        a == spec_action(c, key),
{
    match key {
        Some(k) => match k {
            KeyCode::AltTab => SelAction::Select,
            KeyCode::PgUp => SelAction::PrevPage,
            KeyCode::PgDn => SelAction::NextPage,
            KeyCode::Up => SelAction::MoveUp,
            KeyCode::Down => SelAction::MoveDown,
            KeyCode::Left => SelAction::MoveLeft,
            KeyCode::Right => SelAction::MoveRight,
            _ => SelAction::Nothing,
        },
        None => if is_control_char(c) {
            if c == '\u{2}' {
                SelAction::MoveLeft
            } else if c == '\u{4}' {
                SelAction::NextPage
            } else if c == '\u{6}' {
                SelAction::MoveRight
            } else if c == '\n' {
                SelAction::Select
            } else if c == '\u{b}' {
                SelAction::ClearFilter
            } else if c == '\u{e}' {
                SelAction::MoveDown
            } else if c == '\u{10}' {
                SelAction::MoveUp
            } else if c == '\u{15}' {
                SelAction::PrevPage
            } else if c == '\u{1b}' {
                SelAction::Finish
            } else if c == '\u{7f}' {
                SelAction::DelFromFilter
            } else {
                SelAction::Nothing
            }
        } else {
            SelAction::AddToFilter(c)
        },
    }
}

/// The action of a key press.
pub fn action_of(c: char) -> (a: SelAction)
    ensures
        a == spec_action(c, private_key(c)),
{
    action_for(c, key_of_char(c))
}

/// The length of the leading run of characters that are not white space.
pub open spec fn run_len(s: Seq<char>) -> int
    decreases s.len(),
{
    if s.len() == 0 || white_space(s[0]) {
        0
    } else {
        1 + run_len(s.drop_first())
    }
}

/// The words of `s`: its maximal runs of characters that are not white space.
pub open spec fn words(s: Seq<char>) -> Seq<Seq<char>>
    decreases s.len(),
{
    if s.len() == 0 {
        seq![]
    } else if white_space(s[0]) {
        words(s.drop_first())
    } else {
        let k = run_len(s);
        if 0 < k <= s.len() {
            seq![s.subrange(0, k)] + words(s.subrange(k, s.len() as int))
        } else {
            seq![]
        }
    }
}

proof fn lemma_run_len(s: Seq<char>, k: int)
    requires
        0 <= k <= s.len(),
        forall|j: int| 0 <= j < k ==> !white_space(#[trigger] s[j]),
        k == s.len() || white_space(s[k]),
    ensures
        run_len(s) == k,
    decreases s.len(),
{
    if k > 0 {
        let t = s.drop_first();
        assert forall|j: int| 0 <= j < k - 1 implies !white_space(#[trigger] t[j]) by {
            assert(t[j] == s[j + 1]);
        }
        if k < s.len() {
            assert(t[k - 1] == s[k]);
        }
        lemma_run_len(t, k - 1);
    }
}

/// The words of the filter.
pub fn split_words(s: &Vec<char>) -> (ws: Vec<Vec<char>>)
    ensures
        ws@.map_values(|w: Vec<char>| w@) == words(s@),
{
    let n = s.len();
    let mut ws: Vec<Vec<char>> = Vec::new();
    let mut p: usize = 0;
    proof {
        assert(s@.subrange(0, n as int) =~= s@);
    }
    while p < n
        invariant
            n == s.len(),
            p <= n,
            ws@.map_values(|w: Vec<char>| w@) + words(s@.subrange(p as int, n as int)) == words(
                s@,
            ),
        decreases n - p,
    {
        let ghost rest = s@.subrange(p as int, n as int);
        let ghost before = ws@.map_values(|w: Vec<char>| w@);
        if is_white_space(s[p]) {
            proof {
                assert(rest.drop_first() =~= s@.subrange(p + 1, n as int));
            }
            p = p + 1;
        } else {
            let mut q: usize = p;
            let mut w: Vec<char> = Vec::new();
            while q < n && !is_white_space(s[q])
                invariant
                    n == s.len(),
                    p <= q <= n,
                    w@ == s@.subrange(p as int, q as int),
                    forall|j: int| p <= j < q ==> !white_space(#[trigger] s@[j]),
                decreases n - q,
            {
                w.push(s[q]);
                q = q + 1;
                proof {
                    assert(w@ =~= s@.subrange(p as int, q as int));
                }
            }
            proof {
                assert forall|j: int| 0 <= j < q - p implies !white_space(#[trigger] rest[j]) by {
                    assert(rest[j] == s@[p + j]);
                }
                if q < n {
                    assert(rest[q - p] == s@[q as int]);
                }
                lemma_run_len(rest, q - p);
                assert(rest.subrange(0, q - p) =~= w@);
                assert(rest.subrange(q - p, rest.len() as int) =~= s@.subrange(q as int, n as int));
            }
            ws.push(w);
            proof {
                assert(ws@.map_values(|w: Vec<char>| w@) =~= before.push(w@));
                assert(before.push(w@) + words(s@.subrange(q as int, n as int)) =~= before + (seq![w@]
                    + words(s@.subrange(q as int, n as int))));
            }
            p = q;
        }
    }
    proof {
        assert(words(s@.subrange(n as int, n as int)) =~= Seq::<Seq<char>>::empty());
        assert(ws@.map_values(|w: Vec<char>| w@) + Seq::<Seq<char>>::empty() =~= ws@.map_values(
            |w: Vec<char>| w@,
        ));
    }
    ws
}

/// An option is kept when it contains one of the filter's words.
pub open spec fn kept_by(text: Seq<char>, ws: Seq<Seq<char>>) -> bool {
    exists|k: int| 0 <= k < ws.len() && contains_seq(text, #[trigger] ws[k])
}

/// The options (by index) kept by the filter's words; all of the first
/// `count` when there are no words.
pub open spec fn filtered(texts: Seq<Seq<char>>, ws: Seq<Seq<char>>, count: int) -> Seq<usize> {
    if ws.len() == 0 {
        Seq::new(count as nat, |i: int| i as usize)
    } else {
        Seq::new(texts.len(), |i: int| i as usize).filter(|i: usize| kept_by(texts[i as int], ws))
    }
}

/// `ids` in pages of exactly `n`, then the leftover page if any.
pub open spec fn chunks(ids: Seq<usize>, n: int) -> Seq<Seq<usize>>
    decreases ids.len(),
{
    if n <= 0 || ids.len() == 0 {
        seq![]
    } else if ids.len() <= n {
        seq![ids]
    } else {
        seq![ids.subrange(0, n)] + chunks(ids.subrange(n, ids.len() as int), n)
    }
}

/// The pages of `ids`: at least one page, empty when there are no ids.
pub open spec fn option_pages(ids: Seq<usize>, n: int) -> Seq<Seq<usize>> {
    if chunks(ids, n).len() == 0 {
        seq![Seq::<usize>::empty()]
    } else {
        chunks(ids, n)
    }
}

/// Splits `ids` into pages of `n` (see `option_pages`).
pub fn make_pages(ids: &Vec<usize>, n: usize) -> (pages: Vec<Vec<usize>>)
    requires
        n > 0 || ids.len() == 0,
    ensures
        pages@.map_values(|p: Vec<usize>| p@) == option_pages(ids@, n as int),
{
    let len = ids.len();
    let mut pages: Vec<Vec<usize>> = Vec::new();
    let mut i: usize = 0;
    proof {
        assert(ids@.subrange(0, len as int) =~= ids@);
    }
    while i < len
        invariant
            len == ids.len(),
            n > 0 || len == 0,
            i <= len,
            pages@.map_values(|p: Vec<usize>| p@) + chunks(ids@.subrange(i as int, len as int), n as int)
                == chunks(ids@, n as int),
        decreases len - i,
    {
        let ghost rest = ids@.subrange(i as int, len as int);
        let ghost before = pages@.map_values(|p: Vec<usize>| p@);
        let end = if len - i <= n {
            len
        } else {
            i + n
        };
        let mut page: Vec<usize> = Vec::new();
        let mut j: usize = i;
        while j < end
            invariant
                i <= j <= end <= len,
                len == ids.len(),
                page@ == ids@.subrange(i as int, j as int),
            decreases end - j,
        {
            page.push(ids[j]);
            j = j + 1;
            proof {
                assert(page@ =~= ids@.subrange(i as int, j as int));
            }
        }
        pages.push(page);
        proof {
            assert(pages@.map_values(|p: Vec<usize>| p@) =~= before.push(page@));
            if len - i <= n {
                assert(rest =~= page@);
                assert(chunks(rest, n as int) == seq![rest]);
                assert(ids@.subrange(end as int, len as int) =~= Seq::<usize>::empty());
                assert(before.push(page@) + chunks(ids@.subrange(end as int, len as int), n as int)
                    =~= before + seq![rest]);
            } else {
                assert(rest.subrange(0, n as int) =~= page@);
                assert(rest.subrange(n as int, rest.len() as int) =~= ids@.subrange(
                    end as int,
                    len as int,
                ));
                assert(before.push(page@) + chunks(ids@.subrange(end as int, len as int), n as int)
                    =~= before + (seq![page@] + chunks(ids@.subrange(end as int, len as int), n as int)));
            }
        }
        i = end;
    }
    proof {
        assert(chunks(ids@.subrange(len as int, len as int), n as int) =~= Seq::<Seq<usize>>::empty());
        assert(pages@.map_values(|p: Vec<usize>| p@) + Seq::<Seq<usize>>::empty() =~= pages@.map_values(
            |p: Vec<usize>| p@,
        ));
    }
    if pages.len() == 0 {
        pages.push(Vec::new());
        proof {
            assert(pages@.map_values(|p: Vec<usize>| p@) =~= seq![Seq::<usize>::empty()]);
        }
    }
    pages
}

/// Every page of `chunks(ids, n)` holds at most `n` ids.
pub proof fn lemma_chunks_bounded(ids: Seq<usize>, n: int)
    ensures
        forall|k: int| 0 <= k < chunks(ids, n).len() ==> (#[trigger] chunks(ids, n)[k]).len() <= n,
    decreases ids.len(),
{
    if n > 0 && ids.len() > n {
        let rest = ids.subrange(n, ids.len() as int);
        lemma_chunks_bounded(rest, n);
        assert forall|k: int| 0 <= k < chunks(ids, n).len() implies (#[trigger] chunks(
            ids,
            n,
        )[k]).len() <= n by {
            if k > 0 {
                assert(chunks(ids, n)[k] == chunks(rest, n)[k - 1]);
            }
        }
    }
}

/// The ids `0..n`.
fn all_ids(n: usize) -> (ids: Vec<usize>)
    ensures
        ids@ == Seq::new(n as nat, |i: int| i as usize),
{
    let mut ids: Vec<usize> = Vec::new();
    let mut i: usize = 0;
    while i < n
        invariant
            i <= n,
            ids@ == Seq::new(i as nat, |k: int| k as usize),
        decreases n - i,
    {
        ids.push(i);
        i = i + 1;
        proof {
            assert(ids@ =~= Seq::new(i as nat, |k: int| k as usize));
        }
    }
    ids
}

/// The options kept by the filter (see `filtered`).
pub fn filtered_ids(texts: &Vec<Vec<char>>, filter: &Vec<char>) -> (ids: Vec<usize>)
    ensures
        ids@ == filtered(
            texts@.map_values(|t: Vec<char>| t@),
            words(filter@),
            texts@.len() as int,
        ),
{
    let ws = split_words(filter);
    let ghost wv = ws@.map_values(|w: Vec<char>| w@);
    let ghost tv = texts@.map_values(|t: Vec<char>| t@);
    if ws.len() == 0 {
        return all_ids(texts.len());
    }
    let ghost pred = |i: usize| kept_by(tv[i as int], wv);
    let mut ids: Vec<usize> = Vec::new();
    let mut i: usize = 0;
    while i < texts.len()
        invariant
            i <= texts.len(),
            wv == ws@.map_values(|w: Vec<char>| w@),
            tv == texts@.map_values(|t: Vec<char>| t@),
            wv.len() > 0,
            pred == (|i: usize| kept_by(tv[i as int], wv)),
            ids@ == Seq::new(i as nat, |k: int| k as usize).filter(pred),
        decreases texts.len() - i,
    {
        let mut keep = false;
        let mut k: usize = 0;
        while k < ws.len()
            invariant
                i < texts.len(),
                k <= ws.len(),
                wv == ws@.map_values(|w: Vec<char>| w@),
                tv == texts@.map_values(|t: Vec<char>| t@),
                keep == exists|j: int| 0 <= j < k && contains_seq(tv[i as int], #[trigger] wv[j]),
            decreases ws.len() - k,
        {
            proof {
                assert(wv[k as int] == ws@[k as int]@);
                assert(tv[i as int] == texts@[i as int]@);
            }
            if contains_chars(&texts[i], &ws[k]) {
                keep = true;
            }
            k = k + 1;
        }
        proof {
            assert(Seq::new((i + 1) as nat, |k: int| k as usize) =~= Seq::new(
                i as nat,
                |k: int| k as usize,
            ).push(i));
            Seq::new(i as nat, |k: int| k as usize).lemma_filter_push(i, pred);
        }
        if keep {
            ids.push(i);
        }
        i = i + 1;
    }
    proof {
        assert(Seq::new(texts.len() as nat, |k: int| k as usize) =~= Seq::new(
            tv.len(),
            |k: int| k as usize,
        ));
    }
    ids
}

/// The selector's state as plain values: the pages of option ids, the page
/// shown, the cursor on it, the chosen ids, the filter text, the option id
/// each button shows, whether each button is shown, and the last button
/// brought up to date.
pub struct SelModel {
    pub pages: Seq<Seq<usize>>,
    pub page: int,
    pub cursor: int,
    pub chosen: Seq<usize>,
    pub filter: Seq<char>,
    pub shown: Seq<usize>,
    pub visible: Seq<bool>,
    pub last: int,
}

/// `n` buttons, all hidden.
pub open spec fn all_hidden(n: nat) -> Seq<bool> {
    Seq::new(n, |i: int| false)
}

pub open spec fn page_len(m: SelModel) -> int {
    m.pages[m.page].len() as int
}

/// The first button shows the first option of the page, and is hidden
/// on an empty page.
pub open spec fn show_first(m: SelModel) -> SelModel {
    SelModel {
        last: 0,
        visible: m.visible.update(0, page_len(m) > 0),
        shown: if page_len(m) > 0 {
            m.shown.update(0, m.pages[m.page][0])
        } else {
            m.shown
        },
        ..m
    }
}

/// After each key, one more button is brought up to date.
pub open spec fn lazy_update(m: SelModel, buttons: int) -> SelModel {
    if m.last + 1 < buttons {
        let l = m.last + 1;
        SelModel {
            last: l,
            shown: if l < page_len(m) {
                m.shown.update(l, m.pages[m.page][l])
            } else {
                m.shown
            },
            visible: m.visible.update(l, l < page_len(m)),
            ..m
        }
    } else {
        m
    }
}

/// After the filter changed: the kept options in pages of `buttons`, the
/// first page shown.
pub open spec fn refiltered(m: SelModel, texts: Seq<Seq<char>>, buttons: int) -> SelModel {
    show_first(
        SelModel {
            pages: option_pages(filtered(texts, words(m.filter), texts.len() as int), buttons),
            page: 0,
            cursor: 0,
            ..m
        },
    )
}

/// The cursor after moving up a row: from the first row it goes to the
/// last row's column counted so that columns line up.
pub open spec fn moved_up(cur: int, len: int, in_row: int) -> int {
    if len >= in_row {
        if cur >= in_row {
            cur - in_row
        } else {
            len - in_row + (cur + in_row - len % in_row) % in_row
        }
    } else {
        cur
    }
}

/// The cursor after moving down a row, back to the first row after the last.
pub open spec fn moved_down(cur: int, len: int, in_row: int) -> int {
    if cur + in_row >= len {
        (cur + in_row) % in_row
    } else {
        cur + in_row
    }
}

/// The first position of `x` in `s`.
pub open spec fn first_pos(s: Seq<usize>, x: usize) -> int
    decreases s.len(),
{
    if s.len() == 0 || s[0] == x {
        0
    } else {
        1 + first_pos(s.drop_first(), x)
    }
}

/// What an action does: the new state, the chosen ids when the selector
/// closes, whether the rest of the key's handling is skipped, and whether
/// the filter changed.
pub open spec fn acted(m: SelModel, a: SelAction, quit_on_first: bool, in_row: int) -> (
    SelModel,
    Option<Seq<usize>>,
    bool,
    bool,
) {
    match a {
        SelAction::Finish => (
            SelModel { cursor: 0, visible: all_hidden(m.visible.len()), ..m },
            Some(m.chosen),
            false,
            false,
        ),
        SelAction::Select => {
            let idx = m.shown[m.cursor];
            if m.chosen.contains(idx) {
                (SelModel { chosen: m.chosen.remove(first_pos(m.chosen, idx)), ..m }, None, false, false)
            } else if quit_on_first {
                (
                    SelModel { cursor: 0, chosen: seq![idx], visible: all_hidden(m.visible.len()), ..m },
                    Some(seq![idx]),
                    false,
                    false,
                )
            } else {
                (SelModel { chosen: m.chosen.push(idx), ..m }, None, false, false)
            }
        },
        SelAction::NextPage => if m.pages.len() <= 1 {
            (m, None, true, false)
        } else {
            let p = if m.page + 1 >= m.pages.len() { 0 } else { m.page + 1 };
            (show_first(SelModel { cursor: 0, page: p, ..m }), None, false, false)
        },
        SelAction::PrevPage => if m.pages.len() <= 1 {
            (m, None, true, false)
        } else {
            let p = if m.page == 0 { m.pages.len() - 1 } else { m.page - 1 };
            (show_first(SelModel { cursor: 0, page: p, ..m }), None, false, false)
        },
        SelAction::MoveUp => if page_len(m) == 0 {
            (m, None, true, false)
        } else {
            (SelModel { cursor: moved_up(m.cursor, page_len(m), in_row), ..m }, None, false, false)
        },
        SelAction::MoveDown => if page_len(m) == 0 {
            (m, None, true, false)
        } else {
            (SelModel { cursor: moved_down(m.cursor, page_len(m), in_row), ..m }, None, false, false)
        },
        SelAction::MoveRight => if page_len(m) == 0 {
            (m, None, true, false)
        } else {
            (
                SelModel { cursor: if m.cursor + 1 >= page_len(m) { 0 } else { m.cursor + 1 }, ..m },
                None,
                false,
                false,
            )
        },
        SelAction::MoveLeft => if page_len(m) == 0 {
            (m, None, true, false)
        } else {
            (
                SelModel { cursor: if m.cursor == 0 { page_len(m) - 1 } else { m.cursor - 1 }, ..m },
                None,
                false,
                false,
            )
        },
        SelAction::AddToFilter(c) => (SelModel { filter: m.filter.push(c), ..m }, None, false, true),
        SelAction::DelFromFilter => if m.filter.len() > 0 {
            (SelModel { filter: m.filter.drop_last(), ..m }, None, false, true)
        } else {
            (m, None, false, false)
        },
        SelAction::ClearFilter => if m.filter.len() > 0 {
            (SelModel { filter: Seq::<char>::empty(), ..m }, None, false, true)
        } else {
            (m, None, false, false)
        },
        SelAction::Nothing => (m, None, false, false),
    }
}

/// The whole handling of one key: the action, then (unless skipped or
/// closing) the filter's effect and one button brought up to date.
pub open spec fn stepped(
    m: SelModel,
    a: SelAction,
    texts: Seq<Seq<char>>,
    quit_on_first: bool,
    in_row: int,
    buttons: int,
) -> (SelModel, Option<Seq<usize>>) {
    let r = acted(m, a, quit_on_first, in_row);
    if r.1 is Some || r.2 {
        (r.0, r.1)
    } else {
        (lazy_update(if r.3 { refiltered(r.0, texts, buttons) } else { r.0 }, buttons), None)
    }
}

/// A consistent selector state: pages that fit the buttons, a page and a
/// cursor on it, one shown id per button.
pub open spec fn sel_wf(m: SelModel, buttons: int) -> bool {
    &&& buttons > 0
    &&& m.pages.len() >= 1
    &&& 0 <= m.page < m.pages.len()
    &&& forall|k: int| 0 <= k < m.pages.len() ==> (#[trigger] m.pages[k]).len() <= buttons
    &&& (page_len(m) > 0 ==> 0 <= m.cursor < page_len(m))
    &&& (page_len(m) == 0 ==> m.cursor == 0)
    &&& m.shown.len() == buttons
    &&& m.visible.len() == buttons
    &&& 0 <= m.last < buttons
}

/// Every key keeps the selector consistent.
pub proof fn lemma_step_keeps_wf(
    m: SelModel,
    a: SelAction,
    texts: Seq<Seq<char>>,
    quit_on_first: bool,
    in_row: int,
    buttons: int,
)
    requires
        sel_wf(m, buttons),
        in_row >= 0,
    ensures
        sel_wf(stepped(m, a, texts, quit_on_first, in_row, buttons).0, buttons),
{
    let r = acted(m, a, quit_on_first, in_row);
    let len = page_len(m);
    match a {
        SelAction::MoveUp => {
            if len > 0 && len >= in_row && m.cursor < in_row {
                let k = len % in_row;
                assert(0 <= (m.cursor + in_row - k) % in_row < in_row) by (nonlinear_arith)
                    requires
                        in_row > 0,
                ;
            }
        },
        SelAction::MoveDown => {
            if len > 0 && m.cursor + in_row >= len && in_row > 0 {
                assert((m.cursor + in_row) % in_row == m.cursor % in_row) by (nonlinear_arith)
                    requires
                        in_row > 0,
                        m.cursor >= 0,
                ;
                assert(m.cursor % in_row <= m.cursor) by (nonlinear_arith)
                    requires
                        in_row > 0,
                        m.cursor >= 0,
                ;
            }
        },
        _ => {},
    }
    if r.3 {
        let ids = filtered(texts, words(r.0.filter), texts.len() as int);
        lemma_chunks_bounded(ids, buttons);
    }
}

proof fn lemma_first_pos(s: Seq<usize>, x: usize, p: int)
    requires
        0 <= p < s.len(),
        s[p] == x,
        forall|j: int| 0 <= j < p ==> s[j] != x,
    ensures
        first_pos(s, x) == p,
    decreases s.len(),
{
    if p > 0 {
        let t = s.drop_first();
        assert forall|j: int| 0 <= j < p - 1 implies t[j] != x by {
            assert(t[j] == s[j + 1]);
        }
        lemma_first_pos(t, x, p - 1);
    }
}

/// Where `x` first stands in `s`, when it stands there.
proof fn lemma_first_pos_in(s: Seq<usize>, x: usize)
    requires
        s.contains(x),
    ensures
        0 <= first_pos(s, x) < s.len(),
        s[first_pos(s, x)] == x,
    decreases s.len(),
{
    if s[0] != x {
        let j = choose|j: int| 0 <= j < s.len() && s[j] == x;
        assert(s.drop_first()[j - 1] == x);
        lemma_first_pos_in(s.drop_first(), x);
    }
}

/// The keys of a selection handled one after the other until it closes:
/// the state after them, and the chosen ids when it closed.
pub open spec fn ran(
    m: SelModel,
    keys: Seq<SelAction>,
    texts: Seq<Seq<char>>,
    quit_on_first: bool,
    in_row: int,
    buttons: int,
) -> (SelModel, Option<Seq<usize>>)
    decreases keys.len(),
{
    if keys.len() == 0 {
        (m, None)
    } else {
        let r = stepped(m, keys[0], texts, quit_on_first, in_row, buttons);
        if r.1 is Some {
            r
        } else {
            ran(r.0, keys.drop_first(), texts, quit_on_first, in_row, buttons)
        }
    }
}

/// One key keeps the chosen ids free of repeats, and what a closing key
/// hands back holds none.
pub proof fn lemma_step_keeps_chosen_distinct(
    m: SelModel,
    a: SelAction,
    texts: Seq<Seq<char>>,
    quit_on_first: bool,
    in_row: int,
    buttons: int,
)
    requires
        m.chosen.no_duplicates(),
    ensures
        stepped(m, a, texts, quit_on_first, in_row, buttons).0.chosen.no_duplicates(),
        stepped(m, a, texts, quit_on_first, in_row, buttons).1 matches Some(v) ==> v.no_duplicates(),
{
    if a is Select {
        let idx = m.shown[m.cursor];
        if m.chosen.contains(idx) {
            let i = first_pos(m.chosen, idx);
            lemma_first_pos_in(m.chosen, idx);
            let r = m.chosen.remove(i);
            assert forall|j: int, k: int| 0 <= j < r.len() && 0 <= k < r.len() && j != k implies r[j] != r[k] by {
                let jj = if j < i { j } else { j + 1 };
                let kk = if k < i { k } else { k + 1 };
                assert(r[j] == m.chosen[jj]);
                assert(r[k] == m.chosen[kk]);
            }
        } else if !quit_on_first {
            let r = m.chosen.push(idx);
            assert forall|j: int, k: int| 0 <= j < r.len() && 0 <= k < r.len() && j != k implies r[j] != r[k] by {
                if j == m.chosen.len() as int {
                    assert(r[k] == m.chosen[k]);
                } else if k == m.chosen.len() as int {
                    assert(r[j] == m.chosen[j]);
                }
            }
        } else {
            assert(seq![idx].no_duplicates());
        }
    }
}

/// A selection that starts with no chosen id twice never holds one twice,
/// whatever keys come, and hands back no id twice when it closes.
pub proof fn lemma_selection_stays_distinct(
    m: SelModel,
    keys: Seq<SelAction>,
    texts: Seq<Seq<char>>,
    quit_on_first: bool,
    in_row: int,
    buttons: int,
)
    requires
        m.chosen.no_duplicates(),
    ensures
        ran(m, keys, texts, quit_on_first, in_row, buttons).0.chosen.no_duplicates(),
        ran(m, keys, texts, quit_on_first, in_row, buttons).1 matches Some(v) ==> v.no_duplicates(),
    decreases keys.len(),
{
    if keys.len() > 0 {
        lemma_step_keeps_chosen_distinct(m, keys[0], texts, quit_on_first, in_row, buttons);
        let r = stepped(m, keys[0], texts, quit_on_first, in_row, buttons);
        if r.1 is None {
            lemma_selection_stays_distinct(r.0, keys.drop_first(), texts, quit_on_first, in_row, buttons);
        }
    }
}

/// When a key closes the selection (Finish, or a Select that closes on the
/// first choice), every option button is hidden and the cursor is back on
/// the first option.
pub proof fn lemma_closing_hides_buttons(
    m: SelModel,
    a: SelAction,
    texts: Seq<Seq<char>>,
    quit_on_first: bool,
    in_row: int,
    buttons: int,
)
    requires
        sel_wf(m, buttons),
    ensures
        ({
            let r = stepped(m, a, texts, quit_on_first, in_row, buttons);
            r.1 is Some ==> {
                &&& forall|k: int| 0 <= k < buttons ==> !(#[trigger] r.0.visible[k])
                &&& r.0.cursor == 0
            }
        }),
{
}

/// PgUp (or Ctrl-U) shows the page before, wrapping from the first page to
/// the last, and PgDn (or Ctrl-D) the page after, wrapping from the last to
/// the first; with a single page neither moves; the pages stay, the cursor
/// goes to the first option and the selection goes on.
pub proof fn lemma_page_keys(
    m: SelModel,
    c: char,
    texts: Seq<Seq<char>>,
    quit_on_first: bool,
    in_row: int,
    buttons: int,
)
    requires
        sel_wf(m, buttons),
    ensures
        ({
            let n = m.pages.len() as int;
            let up = stepped(m, spec_action(c, Some(KeyCode::PgUp)), texts, quit_on_first, in_row, buttons);
            let down = stepped(m, spec_action(c, Some(KeyCode::PgDn)), texts, quit_on_first, in_row, buttons);
            let cu = stepped(m, spec_action('\u{15}', None), texts, quit_on_first, in_row, buttons);
            let cd = stepped(m, spec_action('\u{4}', None), texts, quit_on_first, in_row, buttons);
            &&& up.1 is None && down.1 is None
            &&& up.0.pages == m.pages && down.0.pages == m.pages
            &&& n >= 2 ==> up.0.page == (if m.page == 0 { n - 1 } else { m.page - 1 }) && up.0.cursor == 0
            &&& n >= 2 ==> down.0.page == (if m.page + 1 >= n { 0 } else { m.page + 1 }) && down.0.cursor == 0
            &&& n < 2 ==> up.0.page == m.page && down.0.page == m.page
            &&& cu == up && cd == down
        }),
{
    assert(control('\u{15}'));
    assert(control('\u{4}'));
}

/// PgUp then PgDn, and PgDn then PgUp, bring the selector back to the
/// page it was on.
pub proof fn lemma_page_keys_undo(
    m: SelModel,
    c: char,
    texts: Seq<Seq<char>>,
    quit_on_first: bool,
    in_row: int,
    buttons: int,
)
    requires
        sel_wf(m, buttons),
        in_row >= 0,
    ensures
        stepped(
            stepped(m, spec_action(c, Some(KeyCode::PgUp)), texts, quit_on_first, in_row, buttons).0,
            spec_action(c, Some(KeyCode::PgDn)),
            texts,
            quit_on_first,
            in_row,
            buttons,
        ).0.page == m.page,
        stepped(
            stepped(m, spec_action(c, Some(KeyCode::PgDn)), texts, quit_on_first, in_row, buttons).0,
            spec_action(c, Some(KeyCode::PgUp)),
            texts,
            quit_on_first,
            in_row,
            buttons,
        ).0.page == m.page,
{
    lemma_page_keys(m, c, texts, quit_on_first, in_row, buttons);
    let up = stepped(m, spec_action(c, Some(KeyCode::PgUp)), texts, quit_on_first, in_row, buttons).0;
    let down = stepped(m, spec_action(c, Some(KeyCode::PgDn)), texts, quit_on_first, in_row, buttons).0;
    lemma_step_keeps_wf(m, spec_action(c, Some(KeyCode::PgUp)), texts, quit_on_first, in_row, buttons);
    lemma_step_keeps_wf(m, spec_action(c, Some(KeyCode::PgDn)), texts, quit_on_first, in_row, buttons);
    lemma_page_keys(up, c, texts, quit_on_first, in_row, buttons);
    lemma_page_keys(down, c, texts, quit_on_first, in_row, buttons);
}

/// On a page with options, the Right key moves the cursor to the next
/// option (from the last back to the first) and the Left key undoes it.
pub proof fn lemma_right_then_left(
    m: SelModel,
    c: char,
    texts: Seq<Seq<char>>,
    quit_on_first: bool,
    in_row: int,
    buttons: int,
)
    requires
        sel_wf(m, buttons),
        in_row >= 0,
        page_len(m) > 0,
    ensures
        ({
            let r = stepped(m, spec_action(c, Some(KeyCode::Right)), texts, quit_on_first, in_row, buttons).0;
            &&& r.cursor == (if m.cursor + 1 == page_len(m) { 0 } else { m.cursor + 1 })
            &&& r.page == m.page
            &&& stepped(r, spec_action(c, Some(KeyCode::Left)), texts, quit_on_first, in_row, buttons).0.cursor
                == m.cursor
        }),
{
}

/// Escape closes the selection handing back the ids chosen so far, and
/// Enter (or AltTab) on the highlighted option chooses it when it was not
/// chosen (closing at once, with it alone, when the selection closes on
/// the first choice) and unchooses it when it was.
pub proof fn lemma_select_and_finish_keys(
    m: SelModel,
    texts: Seq<Seq<char>>,
    quit_on_first: bool,
    in_row: int,
    buttons: int,
)
    requires
        sel_wf(m, buttons),
        0 <= m.cursor < m.shown.len(),
        m.chosen.no_duplicates(),
    ensures
        stepped(m, spec_action('\u{1b}', None), texts, quit_on_first, in_row, buttons).1 == Some(m.chosen),
        ({
            let idx = m.shown[m.cursor];
            let e = stepped(m, spec_action('\n', None), texts, quit_on_first, in_row, buttons);
            let t = stepped(m, spec_action('x', Some(KeyCode::AltTab)), texts, quit_on_first, in_row, buttons);
            &&& e == t
            &&& !m.chosen.contains(idx) && !quit_on_first ==> e.1 is None && e.0.chosen == m.chosen.push(idx)
            &&& !m.chosen.contains(idx) && quit_on_first ==> e.1 == Some(seq![idx])
            &&& m.chosen.contains(idx) ==> e.1 is None && !e.0.chosen.contains(idx) && e.0.chosen.len() + 1
                == m.chosen.len()
        }),
{
    assert(control('\u{1b}'));
    assert(control('\n'));
    let idx = m.shown[m.cursor];
    if m.chosen.contains(idx) {
        lemma_first_pos_in(m.chosen, idx);
        let i = first_pos(m.chosen, idx);
        let r = m.chosen.remove(i);
        assert forall|k: int| 0 <= k < r.len() implies r[k] != idx by {
            let kk = if k < i { k } else { k + 1 };
            assert(r[k] == m.chosen[kk]);
        }
    }
}

/// A running selection over a list of options.
pub struct Selection {
    pub texts: Vec<Vec<char>>,
    pub quit_on_first_select: bool,
    pub options_in_row: usize,
    pub pages: Vec<Vec<usize>>,
    pub page: usize,
    pub cursor: usize,
    pub chosen: Vec<usize>,
    pub filter: Vec<char>,
    pub shown: Vec<usize>,
    pub visible: Vec<bool>,
    pub last_updated: usize,
}

impl Selection {
    pub open spec fn model(&self) -> SelModel {
        SelModel {
            pages: self.pages@.map_values(|p: Vec<usize>| p@),
            page: self.page as int,
            cursor: self.cursor as int,
            chosen: self.chosen@,
            filter: self.filter@,
            shown: self.shown@,
            visible: self.visible@,
            last: self.last_updated as int,
        }
    }

    pub open spec fn option_texts(&self) -> Seq<Seq<char>> {
        self.texts@.map_values(|t: Vec<char>| t@)
    }

    pub open spec fn buttons(&self) -> int {
        self.shown@.len() as int
    }

    /// The parts that never change during a selection are the same in `a` and `b`.
    pub open spec fn same_setup(a: Selection, b: Selection) -> bool {
        &&& b.texts@ == a.texts@
        &&& b.option_texts() == a.option_texts()
        &&& b.quit_on_first_select == a.quit_on_first_select
        &&& b.options_in_row == a.options_in_row
        &&& b.buttons() == a.buttons()
    }

    /// Starts selecting among `options`, `chosen` already chosen: options in
    /// pages of `per_page`, `buttons` option buttons (all showing option 0),
    /// the cursor on the first button, an empty filter.
    pub fn new(
        options: &Vec<String>,
        chosen: Vec<usize>,
        quit_on_first_select: bool,
        options_in_row: usize,
        per_page: usize,
        buttons: usize,
    ) -> (s: Selection)
        requires
            buttons > 0,
            per_page <= buttons,
            options@.len() > 0 ==> per_page > 0,
        ensures
            s.option_texts() == options@.map_values(|o: String| o@),
            s.quit_on_first_select == quit_on_first_select,
            s.options_in_row == options_in_row,
            s.model() == show_first(
                SelModel {
                    pages: option_pages(Seq::new(options@.len(), |i: int| i as usize), per_page as int),
                    page: 0,
                    cursor: 0,
                    chosen: chosen@,
                    filter: Seq::<char>::empty(),
                    shown: Seq::new(buttons as nat, |i: int| 0usize),
                    visible: all_hidden(buttons as nat),
                    last: 0,
                },
            ),
            sel_wf(s.model(), buttons as int),
    {
        let mut texts: Vec<Vec<char>> = Vec::new();
        let mut i: usize = 0;
        while i < options.len()
            invariant
                i <= options.len(),
                texts@.map_values(|t: Vec<char>| t@) == options@.subrange(0, i as int).map_values(
                    |o: String| o@,
                ),
            decreases options.len() - i,
        {
            let ghost before = texts@.map_values(|t: Vec<char>| t@);
            let t = chars_of(options[i].as_str());
            proof {
                assert(t@ == options@[i as int]@);
            }
            texts.push(t);
            i = i + 1;
            proof {
                assert(texts@.map_values(|t: Vec<char>| t@) =~= before.push(t@));
                assert(options@.subrange(0, i as int).map_values(|o: String| o@) =~= options@.subrange(
                    0,
                    i - 1,
                ).map_values(|o: String| o@).push(options@[i - 1]@));
            }
        }
        proof {
            assert(options@.subrange(0, options@.len() as int) =~= options@);
        }
        let ids = all_ids(options.len());
        let pages = make_pages(&ids, per_page);
        let mut shown: Vec<usize> = Vec::new();
        let mut b: usize = 0;
        while b < buttons
            invariant
                b <= buttons,
                shown@ == Seq::new(b as nat, |i: int| 0usize),
            decreases buttons - b,
        {
            shown.push(0);
            b = b + 1;
            proof {
                assert(shown@ =~= Seq::new(b as nat, |i: int| 0usize));
            }
        }
        let visible = hidden_buttons(buttons);
        let mut s = Selection {
            texts,
            quit_on_first_select,
            options_in_row,
            pages,
            page: 0,
            cursor: 0,
            chosen,
            filter: Vec::new(),
            shown,
            visible,
            last_updated: 0,
        };
        proof {
            lemma_chunks_bounded(ids@, per_page as int);
            assert(s.pages@.map_values(|p: Vec<usize>| p@).len() == s.pages@.len());
        }
        s.show_first_exec();
        s
    }

    fn show_first_exec(&mut self)
        requires
            old(self).page < old(self).pages@.len(),
            old(self).shown@.len() > 0,
            old(self).visible@.len() > 0,
        ensures
            final(self).model() == show_first(old(self).model()),
            Selection::same_setup(*old(self), *final(self)),
            final(self).pages@ == old(self).pages@,
    {
        self.last_updated = 0;
        proof {
            assert(self.pages@.map_values(|p: Vec<usize>| p@)[self.page as int] == self.pages@[self.page as int]@);
        }
        if self.pages[self.page].len() > 0 {
            let first = self.pages[self.page][0];
            self.shown.set(0, first);
        }
        let some = self.pages[self.page].len() > 0;
        self.visible.set(0, some);
    }

    fn lazy_exec(&mut self)
        requires
            old(self).page < old(self).pages@.len(),
            old(self).last_updated < old(self).shown@.len(),
            old(self).visible@.len() == old(self).shown@.len(),
        ensures
            final(self).model() == lazy_update(old(self).model(), old(self).buttons()),
            Selection::same_setup(*old(self), *final(self)),
    {
        if self.last_updated < self.shown.len() - 1 {
            let l = self.last_updated + 1;
            self.last_updated = l;
            proof {
                assert(self.pages@.map_values(|p: Vec<usize>| p@)[self.page as int] == self.pages@[self.page as int]@);
            }
            if l < self.pages[self.page].len() {
                let id = self.pages[self.page][l];
                self.shown.set(l, id);
            }
            let some = l < self.pages[self.page].len();
            self.visible.set(l, some);
        }
    }

    fn refilter_exec(&mut self)
        requires
            old(self).shown@.len() > 0,
            old(self).visible@.len() > 0,
        ensures
            final(self).model() == refiltered(old(self).model(), old(self).option_texts(), old(self).buttons()),
            Selection::same_setup(*old(self), *final(self)),
    {
        let ids = filtered_ids(&self.texts, &self.filter);
        self.pages = make_pages(&ids, self.shown.len());
        self.page = 0;
        self.cursor = 0;
        proof {
            assert(self.pages@.map_values(|p: Vec<usize>| p@).len() == self.pages@.len());
        }
        self.show_first_exec();
    }

    /// Carries out one action (see `stepped`); the chosen ids come back when
    /// the selection ends.
    pub fn step(&mut self, a: SelAction) -> (done: Option<Vec<usize>>)
        requires
            sel_wf(old(self).model(), old(self).buttons()),
            old(self).options_in_row < usize::MAX / 2,
            old(self).buttons() < usize::MAX / 2,
        ensures
            Selection::same_setup(*old(self), *final(self)),
            (final(self).model(), match done {
                Some(v) => Some(v@),
                None => None,
            }) == stepped(
                old(self).model(),
                a,
                old(self).option_texts(),
                old(self).quit_on_first_select,
                old(self).options_in_row as int,
                old(self).buttons(),
            ),
            sel_wf(final(self).model(), old(self).buttons()),
    {
        proof {
            lemma_step_keeps_wf(
                self.model(),
                a,
                self.option_texts(),
                self.quit_on_first_select,
                self.options_in_row as int,
                self.buttons(),
            );
            assert(self.pages@.map_values(|p: Vec<usize>| p@)[self.page as int] == self.pages@[self.page as int]@);
        }
        let len = self.pages[self.page].len();
        let in_row = self.options_in_row;
        let mut updated = false;
        match a {
            SelAction::Finish => {
                self.cursor = 0;
                self.visible = hidden_buttons(self.visible.len());
                let c = copy_usizes(&self.chosen);
                return Some(c);
            },
            SelAction::Select => {
                let idx = self.shown[self.cursor];
                let mut p: usize = 0;
                while p < self.chosen.len() && self.chosen[p] != idx
                    invariant
                        p <= self.chosen.len(),
                        forall|j: int| 0 <= j < p ==> self.chosen@[j] != idx,
                    decreases self.chosen.len() - p,
                {
                    p = p + 1;
                }
                if p < self.chosen.len() {
                    proof {
                        lemma_first_pos(self.chosen@, idx, p as int);
                        assert(self.chosen@.contains(idx));
                    }
                    self.chosen.remove(p);
                } else if self.quit_on_first_select {
                    proof {
                        assert(!self.chosen@.contains(idx));
                    }
                    self.chosen = Vec::new();
                    self.chosen.push(idx);
                    self.cursor = 0;
                    self.visible = hidden_buttons(self.visible.len());
                    let mut r: Vec<usize> = Vec::new();
                    r.push(idx);
                    proof {
                        assert(self.chosen@ =~= seq![idx]);
                        assert(r@ =~= seq![idx]);
                    }
                    return Some(r);
                } else {
                    proof {
                        assert(!self.chosen@.contains(idx));
                    }
                    self.chosen.push(idx);
                }
            },
            SelAction::NextPage => {
                if self.pages.len() <= 1 {
                    return None;
                }
                self.cursor = 0;
                self.page = if self.page + 1 >= self.pages.len() {
                    0
                } else {
                    self.page + 1
                };
                self.show_first_exec();
            },
            SelAction::PrevPage => {
                if self.pages.len() <= 1 {
                    return None;
                }
                self.page = if self.page == 0 {
                    self.pages.len() - 1
                } else {
                    self.page - 1
                };
                self.cursor = 0;
                self.show_first_exec();
            },
            SelAction::MoveUp => {
                if len == 0 {
                    return None;
                }
                if len >= in_row {
                    if self.cursor >= in_row {
                        self.cursor = self.cursor - in_row;
                    } else {
                        let k = len % in_row;
                        proof {
                            assert(0 <= (self.cursor + in_row - k) % (in_row as int) < in_row) by (nonlinear_arith)
                                requires
                                    in_row > 0,
                                    k < in_row,
                            ;
                        }
                        self.cursor = len - in_row + (self.cursor + in_row - k) % in_row;
                    }
                }
            },
            SelAction::MoveDown => {
                if len == 0 {
                    return None;
                }
                proof {
                    assert(self.cursor < len);
                    assert(len <= self.shown@.len());
                }
                let c = self.cursor + in_row;
                self.cursor = if c >= len {
                    c % in_row
                } else {
                    c
                };
            },
            SelAction::MoveRight => {
                if len == 0 {
                    return None;
                }
                self.cursor = if self.cursor + 1 >= len {
                    0
                } else {
                    self.cursor + 1
                };
            },
            SelAction::MoveLeft => {
                if len == 0 {
                    return None;
                }
                self.cursor = if self.cursor == 0 {
                    len - 1
                } else {
                    self.cursor - 1
                };
            },
            SelAction::AddToFilter(c) => {
                self.filter.push(c);
                updated = true;
            },
            SelAction::DelFromFilter => {
                if self.filter.len() > 0 {
                    self.filter.pop();
                    updated = true;
                }
            },
            SelAction::ClearFilter => {
                if self.filter.len() > 0 {
                    self.filter = Vec::new();
                    updated = true;
                }
            },
            SelAction::Nothing => {},
        }
        if updated {
            self.refilter_exec();
        }
        self.lazy_exec();
        None
    }
}

/// `n` buttons, all hidden.
fn hidden_buttons(n: usize) -> (r: Vec<bool>)
    ensures
        r@ == all_hidden(n as nat),
{
    let mut r: Vec<bool> = Vec::new();
    let mut i: usize = 0;
    while i < n
        invariant
            i <= n,
            r@ == all_hidden(i as nat),
        decreases n - i,
    {
        r.push(false);
        i = i + 1;
        proof {
            assert(r@ =~= all_hidden(i as nat));
        }
    }
    r
}

/// A copy of the ids.
fn copy_usizes(v: &Vec<usize>) -> (r: Vec<usize>)
    ensures
        r@ == v@,
{
    let mut r: Vec<usize> = Vec::new();
    let mut i: usize = 0;
    while i < v.len()
        invariant
            i <= v.len(),
            r@ == v@.subrange(0, i as int),
        decreases v.len() - i,
    {
        r.push(v[i]);
        i = i + 1;
        proof {
            assert(r@ =~= v@.subrange(0, i as int));
        }
    }
    proof {
        assert(r@ =~= v@);
    }
    r
}

/// The option buttons' places: rows 2, 4, ... below the screen's height,
/// each with `cols / 32` buttons 33 columns apart.
pub open spec fn button_places(cols: usize, rows: usize) -> Seq<(int, int)> {
    let in_row = cols as int / 32;
    let n_rows = if rows >= 2 { (rows as int - 1) / 2 } else { 0 };
    Seq::new((in_row * n_rows) as nat, |k: int| ((k % in_row) * 33, 2 + (k / in_row) * 2))
}

/// The option selector's screen: its ids, size and option buttons.
pub struct Selector {
    pub g_id: usize,
    pub display_id: usize,
    pub width: usize,
    pub height: usize,
    pub buttons: Vec<(usize, usize)>,
    pub selected_option: usize,
    pub last_updated_row: usize,
}

impl Selector {
    /// A selector for a screen of `cols` by `rows` cells, with its option
    /// buttons laid out (see `button_places`).
    pub fn new(g_id: usize, display_id: usize, cols: usize, rows: usize) -> (s: Selector)
        requires
            rows < usize::MAX / 4,
            cols < usize::MAX / 2,
        ensures
            s.g_id == g_id,
            s.display_id == display_id,
            s.width == cols,
            s.height == rows,
            s.buttons@.len() == button_places(cols, rows).len(),
            forall|k: int|
                0 <= k < s.buttons@.len() ==> s.buttons@[k].0 == button_places(cols, rows)[k].0
                    && s.buttons@[k].1 == button_places(cols, rows)[k].1,
            s.selected_option == 0,
            s.last_updated_row == 1,
    {
        let in_row = cols / 32;
        let mut buttons: Vec<(usize, usize)> = Vec::new();
        let mut y: usize = 2;
        let ghost n_rows: int = if rows >= 2 { (rows as int - 1) / 2 } else { 0 };
        let ghost places = button_places(cols, rows);
        proof {
            assert(in_row * ((y - 2) / 2) == 0) by (nonlinear_arith)
                requires
                    y == 2,
            ;
        }
        while y < rows
            invariant
                2 <= y,
                (y - 2) % 2 == 0,
                rows < usize::MAX / 4,
                in_row == cols / 32,
                y == 2 || y <= rows + 1,
                cols < usize::MAX / 2,
                buttons@.len() == in_row * ((y - 2) / 2),
                forall|k: int|
                    0 <= k < buttons@.len() ==> buttons@[k].0 == (k % (in_row as int)) * 33
                        && buttons@[k].1 == 2 + (k / (in_row as int)) * 2,
            decreases rows + 2 - y,
        {
            let mut x: usize = 0;
            let ghost base = buttons@.len();
            while x < in_row
                invariant
                    x <= in_row,
                    in_row == cols / 32,
                    base == in_row * ((y - 2) / 2),
                    buttons@.len() == base + x,
                    forall|k: int|
                        0 <= k < buttons@.len() ==> buttons@[k].0 == (k % (in_row as int)) * 33
                            && buttons@[k].1 == 2 + (k / (in_row as int)) * 2,
                    (y - 2) % 2 == 0,
                    2 <= y < rows,
                    rows < usize::MAX / 4,
                    cols < usize::MAX / 2,
                decreases in_row - x,
            {
                proof {
                    let k = base + x;
                    let r = (y - 2) / 2;
                    assert(k == in_row * r + x);
                    vstd::arithmetic::div_mod::lemma_fundamental_div_mod_converse(
                        k as int,
                        in_row as int,
                        r as int,
                        x as int,
                    );
                    assert(x * 33 <= usize::MAX) by (nonlinear_arith)
                        requires
                            x < in_row,
                            in_row == cols / 32,
                            cols < usize::MAX / 2,
                    ;
                }
                buttons.push((x * 33, y));
                x = x + 1;
            }
            proof {
                assert(in_row * ((y - 2) / 2) + in_row == in_row * ((y + 2 - 2) / 2)) by (nonlinear_arith)
                    requires
                        (y - 2) % 2 == 0,
                        y >= 2,
                ;
            }
            y = y + 2;
        }
        proof {
            assert((y - 2) / 2 == n_rows);
        }
        Selector {
            g_id,
            display_id,
            width: cols,
            height: rows,
            buttons,
            selected_option: 0,
            last_updated_row: 1,
        }
    }

    /// Closes the selection on the screen: every option button is hidden
    /// (their indexes come back in order) and the cursor goes back to the
    /// first option.
    pub fn close(&mut self) -> (hidden: Vec<usize>)
        ensures
            hidden@ == Seq::new(old(self).buttons@.len(), |i: int| i as usize),
            final(self).selected_option == 0,
            final(self).buttons == old(self).buttons,
            final(self).g_id == old(self).g_id,
            final(self).display_id == old(self).display_id,
            final(self).width == old(self).width,
            final(self).height == old(self).height,
    {
        let mut hidden: Vec<usize> = Vec::new();
        let mut k: usize = 0;
        while k < self.buttons.len()
            invariant
                k <= self.buttons@.len(),
                hidden@ == Seq::new(k as nat, |i: int| i as usize),
            decreases self.buttons@.len() - k,
        {
            hidden.push(k);
            k = k + 1;
            proof {
                assert(hidden@ =~= Seq::new(k as nat, |i: int| i as usize));
            }
        }
        self.selected_option = 0;
        hidden
    }

    /// Starts a selection among `options`: `width / 32` options in a row,
    /// `height / 2 - 1` rows to a page.
    pub fn start(&self, options: &Vec<String>, selected: Vec<usize>, quit_on_first_select: bool) -> (s: Selection)
        requires
            self.buttons@.len() > 0,
            self.height >= 2,
            (self.width / 32) * (self.height / 2 - 1) <= self.buttons@.len(),
            options@.len() > 0 ==> (self.width / 32) * (self.height / 2 - 1) > 0,
        ensures
            s.option_texts() == options@.map_values(|o: String| o@),
            s.quit_on_first_select == quit_on_first_select,
            s.options_in_row == self.width / 32,
            s.model() == show_first(
                SelModel {
                    pages: option_pages(
                        Seq::new(options@.len(), |i: int| i as usize),
                        (self.width / 32) * (self.height / 2 - 1),
                    ),
                    page: 0,
                    cursor: 0,
                    chosen: selected@,
                    filter: Seq::<char>::empty(),
                    shown: Seq::new(self.buttons@.len(), |i: int| 0usize),
                    visible: all_hidden(self.buttons@.len()),
                    last: 0,
                },
            ),
            sel_wf(s.model(), self.buttons@.len() as int),
    {
        let in_row = self.width / 32;
        let rows = self.height / 2 - 1;
        let nb = self.buttons.len();
        proof {
            assert(in_row * rows <= nb);
        }
        let per_page = in_row * rows;
        Selection::new(options, selected, quit_on_first_select, in_row, per_page, self.buttons.len())
    }
}

} // verus!
