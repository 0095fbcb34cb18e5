//! The list of headers that a content's pages are chosen from: the
//! headers shown a screenful of buttons at a time, a cursor on one button,
//! and the header chosen by its position in the whole list.
use crate::button::{Button, ButtonCmd, ButtonOp};
use vstd::prelude::*;

verus! {

/// A button drawing request as plain values.
pub enum OpView {
    Hide,
    Show,
    Rename(Seq<char>),
    Select(bool),
    Deselect(bool),
}

pub open spec fn op_view(op: ButtonOp) -> OpView {
    match op {
        ButtonOp::Hide => OpView::Hide,
        ButtonOp::Show => OpView::Show,
        ButtonOp::Rename(s) => OpView::Rename(s@),
        ButtonOp::Select(b) => OpView::Select(b),
        ButtonOp::Deselect(b) => OpView::Deselect(b),
    }
}

/// Drawing requests as plain values.
pub open spec fn cmds_view(v: Seq<ButtonCmd>) -> Seq<(Button, OpView)> {
    v.map_values(|c: ButtonCmd| (c.button, op_view(c.op)))
}

/// How many headers the screenful starting at screen `k` holds.
pub open spec fn chunk_len(h: int, b: int, k: int) -> int {
    if h - k * b < b {
        h - k * b
    } else {
        b
    }
}

/// The requests that show the screenful of `headers` from position
/// `start` (`len` of them) on buttons `i` and after: each of these buttons
/// gets its header and shows, the others hide.
pub open spec fn draw_from(
    buttons: Seq<Button>,
    headers: Seq<Seq<char>>,
    start: int,
    len: int,
    i: int,
) -> Seq<(Button, OpView)>
    decreases buttons.len() - i,
{
    if i >= buttons.len() || i < 0 {
        seq![]
    } else if i < len {
        seq![(buttons[i], OpView::Rename(headers[start + i])), (buttons[i], OpView::Show)] + draw_from(
            buttons,
            headers,
            start,
            len,
            i + 1,
        )
    } else {
        seq![(buttons[i], OpView::Hide)] + draw_from(buttons, headers, start, len, i + 1)
    }
}

/// Where a move of the cursor leads (screen, cursor, buttons in use): up
/// from the first button, or down from the last in use, turns to the
/// previous or next screen (round the list) when there is more than one,
/// and otherwise wraps round the buttons in use.
pub open spec fn moved(h: int, b: int, k: int, cur: int, vis: int, up: bool) -> (int, int, int) {
    let last = (h - 1) / b;
    if up {
        if cur == 0 {
            if h > b {
                let nk = if k == 0 {
                    last
                } else {
                    k - 1
                };
                (nk, 0, chunk_len(h, b, nk))
            } else {
                (k, vis - 1, vis)
            }
        } else {
            (k, cur - 1, vis)
        }
    } else {
        if cur == vis - 1 {
            if h > b {
                let nk = if (k + 1) * b < h {
                    k + 1
                } else {
                    0
                };
                (nk, 0, chunk_len(h, b, nk))
            } else {
                (k, 0, vis)
            }
        } else {
            (k, cur + 1, vis)
        }
    }
}

/// What a key asks of the list.
#[derive(Clone, Copy, Debug, PartialEq, Eq, Structural)]
pub enum IndexerKey {
    Up,
    Down,
    /// To the first button in use.
    First,
    /// To the last button in use.
    Last,
    /// Close without a choice.
    Finish,
    /// Choose the header under the cursor.
    Choose,
    Other,
}

/// The list: its buttons, the headers, the screen shown, how many buttons
/// are in use, and the button under the cursor.
pub struct Indexer {
    pub buttons: Vec<Button>,
    pub headers: Vec<String>,
    pub chunk_idx: usize,
    pub visible_buttons: usize,
    pub cursor_position: usize,
}

proof fn lemma_chunk(h: int, b: int, k: int)
    requires
        b > 0,
        0 <= k,
        k * b < h,
    ensures
        0 < chunk_len(h, b, k) <= b,
        k <= (h - 1) / b,
        (k + 1) * b == k * b + b,
{
    assert(k * b <= h - 1);
    assert(k <= (h - 1) / b) by (nonlinear_arith)
        requires
            k * b <= h - 1,
            b > 0,
            k >= 0,
    ;
    assert((k + 1) * b == k * b + b) by (nonlinear_arith);
}

proof fn lemma_last_chunk(h: int, b: int)
    requires
        b > 0,
        h > 0,
    ensures
        ((h - 1) / b) * b < h,
        ((h - 1) / b) * b >= 0,
        (h - 1) / b >= 0,
{
    assert(((h - 1) / b) * b <= h - 1) by (nonlinear_arith)
        requires
            b > 0,
            h > 0,
    ;
    assert(((h - 1) / b) * b >= 0) by (nonlinear_arith)
        requires
            b > 0,
            h > 0,
    ;
}

proof fn lemma_prev_chunk(b: int, k: int)
    requires
        b > 0,
        k > 0,
    ensures
        (k - 1) * b == k * b - b,
{
    assert((k - 1) * b == k * b - b) by (nonlinear_arith);
}

impl Indexer {
    /// Buttons, a screenful in use, the cursor within them; when headers
    /// are loaded, the screen shown starts within them and uses as many
    /// buttons as it has headers; before, all buttons are in use.
    pub open spec fn wf(&self) -> bool {
        let b = self.buttons@.len() as int;
        let h = self.headers@.len() as int;
        &&& b > 0
        &&& self.cursor_position < self.visible_buttons <= b
        &&& if h == 0 {
            self.chunk_idx == 0 && self.visible_buttons == b
        } else {
            &&& self.chunk_idx * b < h
            &&& self.visible_buttons == chunk_len(h, b, self.chunk_idx as int)
        }
    }

    /// The headers as plain values.
    pub open spec fn texts(&self) -> Seq<Seq<char>> {
        self.headers@.map_values(|s: String| s@)
    }

    /// A list on these buttons with no headers yet, the cursor on the
    /// first.
    pub fn new(buttons: Vec<Button>) -> (x: Indexer)
        requires
            buttons@.len() > 0,
        ensures
            x.wf(),
            x.buttons == buttons,
            x.headers@.len() == 0,
            x.cursor_position == 0,
    {
        let n = buttons.len();
        Indexer { buttons, headers: Vec::new(), chunk_idx: 0, visible_buttons: n, cursor_position: 0 }
    }

    /// Shows the screen `chunk_idx`: the cursor goes to its first button.
    fn draw_buttons(&mut self) -> (cmds: Vec<ButtonCmd>)
        requires
            old(self).buttons@.len() > 0,
            old(self).headers@.len() > 0,
            old(self).chunk_idx * old(self).buttons@.len() < old(self).headers@.len(),
        ensures
            final(self).buttons == old(self).buttons,
            final(self).headers == old(self).headers,
            final(self).chunk_idx == old(self).chunk_idx,
            final(self).cursor_position == 0,
            final(self).visible_buttons == chunk_len(
                old(self).headers@.len() as int,
                old(self).buttons@.len() as int,
                old(self).chunk_idx as int,
            ),
            final(self).wf(),
            cmds_view(cmds@) == draw_from(
                old(self).buttons@,
                old(self).texts(),
                old(self).chunk_idx * old(self).buttons@.len(),
                final(self).visible_buttons as int,
                0,
            ),
    {
        let b = self.buttons.len();
        let h = self.headers.len();
        proof {
            lemma_chunk(h as int, b as int, self.chunk_idx as int);
        }
        let start = self.chunk_idx * b;
        let len = if h - start < b {
            h - start
        } else {
            b
        };
        self.cursor_position = 0;
        self.visible_buttons = len;
        let mut cmds: Vec<ButtonCmd> = Vec::new();
        let mut i: usize = 0;
        while i < b
            invariant
                b == self.buttons@.len(),
                h == self.headers@.len(),
                start + len <= h,
                len <= b,
                i <= b,
                cmds_view(cmds@) + draw_from(self.buttons@, self.texts(), start as int, len as int, i as int)
                    == draw_from(self.buttons@, self.texts(), start as int, len as int, 0),
            decreases b - i,
        {
            let ghost before = cmds_view(cmds@);
            let button = self.buttons[i];
            if i < len {
                cmds.push(ButtonCmd { button, op: ButtonOp::Rename(self.headers[start + i].clone()) });
                cmds.push(ButtonCmd { button, op: ButtonOp::Show });
                proof {
                    assert(cmds_view(cmds@) =~= before + seq![
                        (self.buttons@[i as int], OpView::Rename(self.texts()[start + i])),
                        (self.buttons@[i as int], OpView::Show),
                    ]);
                }
            } else {
                cmds.push(ButtonCmd { button, op: ButtonOp::Hide });
                proof {
                    assert(cmds_view(cmds@) =~= before + seq![(self.buttons@[i as int], OpView::Hide)]);
                }
            }
            i = i + 1;
        }
        proof {
            assert(draw_from(self.buttons@, self.texts(), start as int, len as int, b as int) =~= seq![]);
            assert(cmds_view(cmds@) + Seq::<(Button, OpView)>::empty() =~= cmds_view(cmds@));
        }
        cmds
    }

    /// Loads headers and shows their first screen (see `draw_from`).
    pub fn load(&mut self, headers: Vec<String>) -> (cmds: Vec<ButtonCmd>)
        requires
            old(self).wf(),
            headers@.len() > 0,
        ensures
            final(self).wf(),
            final(self).buttons == old(self).buttons,
            final(self).headers == headers,
            final(self).chunk_idx == 0,
            final(self).cursor_position == 0,
            cmds_view(cmds@) == draw_from(
                old(self).buttons@,
                headers@.map_values(|s: String| s@),
                0,
                final(self).visible_buttons as int,
                0,
            ),
    {
        self.headers = headers;
        self.chunk_idx = 0;
        proof {
            assert(0 * self.buttons@.len() == 0);
        }
        self.draw_buttons()
    }

    /// Moves the cursor up or down (see `moved`): the button left is drawn
    /// as not selected, the screen drawn anew when it turns, and the button
    /// reached drawn as selected.
    pub fn move_selection(&mut self, up: bool) -> (cmds: Vec<ButtonCmd>)
        requires
            old(self).wf(),
        ensures
            final(self).wf(),
            final(self).buttons == old(self).buttons,
            final(self).headers == old(self).headers,
            ({
                let h = old(self).headers@.len() as int;
                let b = old(self).buttons@.len() as int;
                let m = moved(
                    h,
                    b,
                    old(self).chunk_idx as int,
                    old(self).cursor_position as int,
                    old(self).visible_buttons as int,
                    up,
                );
                let turned = h > b && if up {
                    old(self).cursor_position == 0
                } else {
                    old(self).cursor_position == old(self).visible_buttons - 1
                };
                &&& final(self).chunk_idx == m.0
                &&& final(self).cursor_position == m.1
                &&& final(self).visible_buttons == m.2
                &&& cmds_view(cmds@) == seq![(old(self).buttons@[old(self).cursor_position as int], OpView::Deselect(false))]
                    + (if turned {
                    draw_from(old(self).buttons@, old(self).texts(), m.0 * b, m.2, 0)
                } else {
                    Seq::<(Button, OpView)>::empty()
                }) + seq![(old(self).buttons@[m.1], OpView::Select(false))]
            }),
    {
        let b = self.buttons.len();
        let h = self.headers.len();
        let mut cmds: Vec<ButtonCmd> = Vec::new();
        cmds.push(ButtonCmd { button: self.buttons[self.cursor_position], op: ButtonOp::Deselect(false) });
        let ghost first = cmds_view(cmds@);
        let ghost k = self.chunk_idx as int;
        if up {
            if self.cursor_position == 0 {
                if h > b {
                    let last = (h - 1) / b;
                    proof {
                        lemma_last_chunk(h as int, b as int);
                        if k > 0 {
                            lemma_prev_chunk(b as int, k);
                        }
                    }
                    self.chunk_idx = if self.chunk_idx == 0 {
                        last
                    } else {
                        self.chunk_idx - 1
                    };
                    let mut drawn = self.draw_buttons();
                    cmds.append(&mut drawn);
                } else {
                    self.cursor_position = self.visible_buttons - 1;
                }
            } else {
                self.cursor_position = self.cursor_position - 1;
            }
        } else {
            if self.cursor_position == self.visible_buttons - 1 {
                if h > b {
                    proof {
                        lemma_chunk(h as int, b as int, k);
                    }
                    let start = self.chunk_idx * b;
                    self.chunk_idx = if h - start > b {
                        self.chunk_idx + 1
                    } else {
                        0
                    };
                    proof {
                        assert(0 * (b as int) == 0);
                    }
                    let mut drawn = self.draw_buttons();
                    cmds.append(&mut drawn);
                } else {
                    self.cursor_position = 0;
                }
            } else {
                self.cursor_position = self.cursor_position + 1;
            }
        }
        let ghost second = cmds_view(cmds@);
        cmds.push(ButtonCmd { button: self.buttons[self.cursor_position], op: ButtonOp::Select(false) });
        proof {
            let m = moved(h as int, b as int, k, old(self).cursor_position as int, old(self).visible_buttons as int, up);
            assert(cmds_view(cmds@) =~= second + seq![(self.buttons@[m.1], OpView::Select(false))]);
        }
        cmds
    }

    /// Answers a key: moves, jumps to the first or last button in use, or
    /// ends the list, with no choice or with the position of the header
    /// under the cursor in the whole list.
    pub fn key(&mut self, k: IndexerKey) -> (r: (Vec<ButtonCmd>, Option<Option<usize>>))
        requires
            old(self).wf(),
        ensures
            final(self).wf(),
            final(self).buttons == old(self).buttons,
            final(self).headers == old(self).headers,
            match k {
                IndexerKey::Finish => r.1 == Some(None::<usize>) && *final(self) == *old(self) && r.0@.len() == 0,
                IndexerKey::Choose => r.1 == Some(
                    Some((old(self).chunk_idx * old(self).buttons@.len() + old(self).cursor_position) as usize),
                ) && *final(self) == *old(self) && r.0@.len() == 0,
                IndexerKey::First => r.1 is None && final(self).cursor_position == 0 && final(self).chunk_idx
                    == old(self).chunk_idx && cmds_view(r.0@) == seq![
                    (old(self).buttons@[old(self).cursor_position as int], OpView::Deselect(false)),
                    (old(self).buttons@[0], OpView::Select(false)),
                ],
                IndexerKey::Last => r.1 is None && final(self).cursor_position == old(self).visible_buttons - 1
                    && final(self).chunk_idx == old(self).chunk_idx && cmds_view(r.0@) == seq![
                    (old(self).buttons@[old(self).cursor_position as int], OpView::Deselect(false)),
                    (old(self).buttons@[old(self).visible_buttons - 1], OpView::Select(false)),
                ],
                IndexerKey::Other => r.1 is None && *final(self) == *old(self) && r.0@.len() == 0,
                _ => r.1 is None && final(self).chunk_idx == moved(
                    old(self).headers@.len() as int,
                    old(self).buttons@.len() as int,
                    old(self).chunk_idx as int,
                    old(self).cursor_position as int,
                    old(self).visible_buttons as int,
                    k is Up,
                ).0 && final(self).cursor_position == moved(
                    old(self).headers@.len() as int,
                    old(self).buttons@.len() as int,
                    old(self).chunk_idx as int,
                    old(self).cursor_position as int,
                    old(self).visible_buttons as int,
                    k is Up,
                ).1,
            },
    {
        match k {
            IndexerKey::Up => (self.move_selection(true), None),
            IndexerKey::Down => (self.move_selection(false), None),
            IndexerKey::First => {
                let mut cmds: Vec<ButtonCmd> = Vec::new();
                cmds.push(ButtonCmd { button: self.buttons[self.cursor_position], op: ButtonOp::Deselect(false) });
                self.cursor_position = 0;
                cmds.push(ButtonCmd { button: self.buttons[0], op: ButtonOp::Select(false) });
                proof {
                    assert(cmds_view(cmds@) =~= seq![
                        (old(self).buttons@[old(self).cursor_position as int], OpView::Deselect(false)),
                        (old(self).buttons@[0], OpView::Select(false)),
                    ]);
                }
                (cmds, None)
            },
            IndexerKey::Last => {
                let mut cmds: Vec<ButtonCmd> = Vec::new();
                cmds.push(ButtonCmd { button: self.buttons[self.cursor_position], op: ButtonOp::Deselect(false) });
                self.cursor_position = self.visible_buttons - 1;
                cmds.push(ButtonCmd { button: self.buttons[self.cursor_position], op: ButtonOp::Select(false) });
                proof {
                    assert(cmds_view(cmds@) =~= seq![
                        (old(self).buttons@[old(self).cursor_position as int], OpView::Deselect(false)),
                        (old(self).buttons@[old(self).visible_buttons - 1], OpView::Select(false)),
                    ]);
                }
                (cmds, None)
            },
            IndexerKey::Finish => (Vec::new(), Some(None)),
            IndexerKey::Choose => {
                let b = self.buttons.len();
                let hl = self.headers.len();
                let idx = self.chunk_idx;
                let cur = self.cursor_position;
                proof {
                    let h = hl as int;
                    if h > 0 {
                        lemma_chunk(h, b as int, self.chunk_idx as int);
                        assert(chunk_len(h, b as int, self.chunk_idx as int) <= h - self.chunk_idx * b);
                        assert(self.chunk_idx * b + self.cursor_position < h);
                    } else {
                        assert(self.chunk_idx == 0);
                        assert(self.chunk_idx * b == 0) by (nonlinear_arith)
                            requires
                                self.chunk_idx == 0,
                        ;
                    }
                }
                proof {
                    if hl > 0 {
                        assert(idx * b + cur < hl);
                    } else {
                        assert(idx * b + cur == cur);
                    }
                }
                (Vec::new(), Some(Some(idx * b + cur)))
            },
            IndexerKey::Other => (Vec::new(), None),
        }
    }
}

/// The header chosen lies within the list: the screen shown and the
/// cursor point at a loaded header.
pub proof fn lemma_choice_in_list(x: Indexer)
    requires
        x.wf(),
        x.headers@.len() > 0,
    ensures
        x.chunk_idx * x.buttons@.len() + x.cursor_position < x.headers@.len(),
{
    lemma_chunk(x.headers@.len() as int, x.buttons@.len() as int, x.chunk_idx as int);
}

/// Within one screen, or anywhere when the list fits on one screen, a
/// move up is undone by a move down, and a move down by a move up.
pub proof fn lemma_moves_undo(h: int, b: int, k: int, cur: int, vis: int)
    requires
        b > 0,
        0 <= cur < vis <= b,
        h <= b ==> k == 0,
    ensures
        (h <= b || cur > 0) ==> ({
            let u = moved(h, b, k, cur, vis, true);
            moved(h, b, u.0, u.1, u.2, false) == (k, cur, vis)
        }),
        (h <= b || cur < vis - 1) ==> ({
            let d = moved(h, b, k, cur, vis, false);
            moved(h, b, d.0, d.1, d.2, true) == (k, cur, vis)
        }),
{
}

} // verus!
