//! The picture of a policy's requirement: a pyramid of blocks on the
//! screen (the policy's eye with its buttons, the top block, and up to
//! three rows of operands), where each block lies, which cells a block and
//! its frame cover, where a label's characters go, and in which order the
//! blocks and their wrappings are drawn for a given requirement tree.
use crate::poledit::{is_logic, tl, tr, Req, ReqTree};
use vstd::prelude::*;

verus! {

/// A rectangle of cells: its left column, width, top row and height.
#[derive(Clone, Copy, Debug, PartialEq, Eq, Structural)]
pub struct Block {
    pub start_x: usize,
    pub size_x: usize,
    pub start_y: usize,
    pub size_y: usize,
}

/// Where the pyramid's blocks lie on a screen: its size (at least 25
/// rows), the policy's eye, the back, run and store buttons, the top block,
/// and the rows of two, four and eight operand blocks.
#[derive(Debug)]
pub struct PyramidLayout {
    pub size: (usize, usize),
    pub eye: Block,
    pub back: Block,
    pub set_running: Block,
    pub store: Block,
    pub top: Block,
    pub second: Vec<Block>,
    pub third: Vec<Block>,
    pub fourth: Vec<Block>,
}

pub open spec fn block(x: int, sx: int, y: int, sy: int) -> Block {
    Block { start_x: x as usize, size_x: sx as usize, start_y: y as usize, size_y: sy as usize }
}

/// The pyramid on a screen `w` cells wide and `h` high, centred on the
/// middle column `m = w / 2`.
pub open spec fn layout_of(w: int, h: int) -> (
    (int, int),
    Block,
    Block,
    Block,
    Block,
    Block,
    Seq<Block>,
    Seq<Block>,
    Seq<Block>,
) {
    let m = w / 2;
    (
        (w, if h < 25 { 25 } else { h }),
        block(m - 12, 24, 1, 3),
        block(m - 22, 8, 1, 3),
        block(m + 14, 8, 1, 3),
        block(m + 24, 8, 1, 3),
        block(m - 12, 24, 6, 3),
        seq![block(m - 27, 16, 9, 3), block(m + 11, 16, 9, 3)],
        seq![block(m - 36, 12, 12, 3), block(m - 16, 12, 12, 3), block(m + 4, 12, 12, 3), block(m + 24, 12, 12, 3)],
        seq![
            block(m - 36, 3, 15, 5),
            block(m - 27, 3, 15, 5),
            block(m - 16, 3, 15, 5),
            block(m - 7, 3, 15, 5),
            block(m + 4, 3, 15, 5),
            block(m + 13, 3, 15, 5),
            block(m + 24, 3, 15, 5),
            block(m + 33, 3, 15, 5),
        ],
    )
}

impl PyramidLayout {
    /// The layout as plain values.
    pub open spec fn spec_layout(&self) -> (
        (int, int),
        Block,
        Block,
        Block,
        Block,
        Block,
        Seq<Block>,
        Seq<Block>,
        Seq<Block>,
    ) {
        (
            (self.size.0 as int, self.size.1 as int),
            self.eye,
            self.back,
            self.set_running,
            self.store,
            self.top,
            self.second@,
            self.third@,
            self.fourth@,
        )
    }

    /// The pyramid on a screen of `s_width` by `s_height` cells (see
    /// `layout_of`); the screen must leave room for its leftmost blocks.
    pub fn new(s_width: usize, s_height: usize) -> (l: PyramidLayout)
        requires
            s_width / 2 >= 36,
            s_width / 2 + 36 <= usize::MAX,
        ensures
            l.spec_layout() == layout_of(s_width as int, s_height as int),
    {
        let m = s_width / 2;
        let h = if s_height < 25 {
            25
        } else {
            s_height
        };
        let mut second: Vec<Block> = Vec::new();
        second.push(Block { start_x: m - 27, size_x: 16, start_y: 9, size_y: 3 });
        second.push(Block { start_x: m + 11, size_x: 16, start_y: 9, size_y: 3 });
        let mut third: Vec<Block> = Vec::new();
        third.push(Block { start_x: m - 36, size_x: 12, start_y: 12, size_y: 3 });
        third.push(Block { start_x: m - 16, size_x: 12, start_y: 12, size_y: 3 });
        third.push(Block { start_x: m + 4, size_x: 12, start_y: 12, size_y: 3 });
        third.push(Block { start_x: m + 24, size_x: 12, start_y: 12, size_y: 3 });
        let mut fourth: Vec<Block> = Vec::new();
        fourth.push(Block { start_x: m - 36, size_x: 3, start_y: 15, size_y: 5 });
        fourth.push(Block { start_x: m - 27, size_x: 3, start_y: 15, size_y: 5 });
        fourth.push(Block { start_x: m - 16, size_x: 3, start_y: 15, size_y: 5 });
        fourth.push(Block { start_x: m - 7, size_x: 3, start_y: 15, size_y: 5 });
        fourth.push(Block { start_x: m + 4, size_x: 3, start_y: 15, size_y: 5 });
        fourth.push(Block { start_x: m + 13, size_x: 3, start_y: 15, size_y: 5 });
        fourth.push(Block { start_x: m + 24, size_x: 3, start_y: 15, size_y: 5 });
        fourth.push(Block { start_x: m + 33, size_x: 3, start_y: 15, size_y: 5 });
        let l = PyramidLayout {
            size: (s_width, h),
            eye: Block { start_x: m - 12, size_x: 24, start_y: 1, size_y: 3 },
            back: Block { start_x: m - 22, size_x: 8, start_y: 1, size_y: 3 },
            set_running: Block { start_x: m + 14, size_x: 8, start_y: 1, size_y: 3 },
            store: Block { start_x: m + 24, size_x: 8, start_y: 1, size_y: 3 },
            top: Block { start_x: m - 12, size_x: 24, start_y: 6, size_y: 3 },
            second,
            third,
            fourth,
        };
        proof {
            assert(l.spec_layout() =~= layout_of(s_width as int, s_height as int));
        }
        l
    }
}

/// The cells (as positions in a row-major frame `w` cells wide) of the
/// rows from `y0` up to `y1`, each from column `x0` up to `x1`.
pub open spec fn fill_rows(w: int, x0: int, x1: int, y0: int, y1: int) -> Seq<int>
    decreases y1 - y0,
{
    if y1 <= y0 {
        seq![]
    } else {
        fill_rows(w, x0, x1, y0, y1 - 1) + Seq::new((x1 - x0) as nat, |i: int| (y1 - 1) * w + x0 + i)
    }
}

/// The cells that a block widened by `t` on every side covers.
pub open spec fn fill_cells_of(w: int, b: Block, t: int) -> Seq<int> {
    fill_rows(w, b.start_x - t, b.start_x + b.size_x + t, b.start_y - t, b.start_y + b.size_y + t)
}

/// The cells of a block widened by `t` (see `fill_cells_of`), in a frame
/// of `len` cells that holds all of them.
pub fn fill_cells(w: usize, b: Block, t: usize, len: usize) -> (r: Vec<usize>)
    requires
        w > 0,
        t <= b.start_x,
        t <= b.start_y,
        (b.start_y + b.size_y + t) * w <= len,
        b.start_x + b.size_x + t <= w,
    ensures
        r@.map_values(|i: usize| i as int) == fill_cells_of(w as int, b, t as int),
        forall|k: int| 0 <= k < r@.len() ==> r@[k] < len,
{
    proof {
        assert(b.start_y + b.size_y + t <= (b.start_y + b.size_y + t) * w) by (nonlinear_arith)
            requires
                w > 0,
        ;
    }
    let x0 = b.start_x - t;
    let x1 = b.start_x + b.size_x + t;
    let y0 = b.start_y - t;
    let y1 = b.start_y + b.size_y + t;
    let mut r: Vec<usize> = Vec::new();
    let mut y = y0;
    proof {
        assert(r@.map_values(|i: usize| i as int) =~= fill_rows(w as int, x0 as int, x1 as int, y0 as int, y0 as int));
    }
    while y < y1
        invariant
            y0 <= y <= y1,
            x0 <= x1 <= w,
            y1 * w <= len,
            r@.map_values(|i: usize| i as int) == fill_rows(w as int, x0 as int, x1 as int, y0 as int, y as int),
            forall|k: int| 0 <= k < r@.len() ==> r@[k] < len,
        decreases y1 - y,
    {
        proof {
            assert(y * w + w <= y1 * w) by (nonlinear_arith)
                requires
                    y < y1,
            ;
        }
        let row = y * w;
        let mut x = x0;
        let ghost before = r@.map_values(|i: usize| i as int);
        while x < x1
            invariant
                x0 <= x <= x1 <= w,
                row == y * w,
                row + w <= len,
                r@.map_values(|i: usize| i as int) == before + Seq::new((x - x0) as nat, |i: int| row + x0 + i),
                forall|k: int| 0 <= k < r@.len() ==> r@[k] < len,
            decreases x1 - x,
        {
            let ghost old_r = r@;
            r.push(row + x);
            proof {
                assert(r@ == old_r.push((row + x) as usize));
                assert(r@.map_values(|i: usize| i as int) =~= old_r.map_values(|i: usize| i as int).push(row + x));
            }
            x = x + 1;
            proof {
                assert(r@.map_values(|i: usize| i as int) =~= before + Seq::new(
                    (x - x0) as nat,
                    |i: int| row + x0 + i,
                ));
            }
        }
        y = y + 1;
        proof {
            assert(r@.map_values(|i: usize| i as int) =~= fill_rows(
                w as int,
                x0 as int,
                x1 as int,
                y0 as int,
                y as int,
            ));
        }
    }
    r
}

/// Where the characters of a label go in a block of a frame `w` cells
/// wide; `bytes` is the label's length in bytes. In a block wider than
/// high the label runs along the row below the block's top, centred when
/// it fits and cut at the block's width otherwise; in another block it
/// runs `size_x` characters to a line from the block's top row down.
pub open spec fn text_cells_of(w: int, text: Seq<char>, bytes: int, b: Block) -> Seq<(int, char)> {
    if b.size_x > b.size_y {
        let base = w * (b.start_y + 1) + b.start_x;
        let (first, room) = if bytes > b.size_x {
            (base, b.size_x as int)
        } else {
            (base + (b.size_x - bytes) / 2, bytes)
        };
        let n = if room < text.len() {
            room
        } else {
            text.len() as int
        };
        Seq::new(n as nat, |i: int| (first + i, text[i]))
    } else {
        let top = w * (b.start_y - 1) + b.start_x;
        let n = if bytes < text.len() {
            bytes
        } else {
            text.len() as int
        };
        Seq::new(n as nat, |i: int| (top + w * (1 + i / (b.size_x as int)) + i % (b.size_x as int), text[i]))
    }
}

/// The cells of a label (see `text_cells_of`), in a frame of `len` cells
/// that holds the block's rows and every cell of the label.
pub fn text_cells(w: usize, text: &Vec<char>, bytes: usize, b: Block, len: usize) -> (r: Vec<(usize, char)>)
    requires
        w > 0,
        b.size_x > 0,
        b.start_y >= 1,
        (b.start_y + 2) * w <= len,
        b.start_x + b.size_x <= w,
        forall|k: int|
            0 <= k < text_cells_of(w as int, text@, bytes as int, b).len() ==> #[trigger] text_cells_of(
                w as int,
                text@,
                bytes as int,
                b,
            )[k].0 < len,
    ensures
        r@.map_values(|c: (usize, char)| (c.0 as int, c.1)) == text_cells_of(w as int, text@, bytes as int, b),
        forall|k: int| 0 <= k < r@.len() ==> r@[k].0 < len,
{
    let ghost cells = text_cells_of(w as int, text@, bytes as int, b);
    let mut r: Vec<(usize, char)> = Vec::new();
    if b.size_x > b.size_y {
        proof {
            assert(w * (b.start_y + 1) + w <= len && b.start_y + 2 <= len) by (nonlinear_arith)
                requires
                    (b.start_y + 2) * w <= len,
                    w > 0,
            ;
        }
        let base = w * (b.start_y + 1) + b.start_x;
        let (first, room) = if bytes > b.size_x {
            (base, b.size_x)
        } else {
            (base + (b.size_x - bytes) / 2, bytes)
        };
        let n = if room < text.len() {
            room
        } else {
            text.len()
        };
        let mut i: usize = 0;
        while i < n
            invariant
                i <= n <= text@.len(),
                n == cells.len(),
                cells == text_cells_of(w as int, text@, bytes as int, b),
                b.size_x > b.size_y,
                forall|k: int| 0 <= k < cells.len() ==> #[trigger] cells[k].0 < len,
                forall|k: int| 0 <= k < n ==> #[trigger] cells[k] == (first + k, text@[k]),
                r@.map_values(|c: (usize, char)| (c.0 as int, c.1)) == Seq::new(i as nat, |k: int| (first + k, text@[k])),
                forall|k: int| 0 <= k < r@.len() ==> r@[k].0 < len,
            decreases n - i,
        {
            proof {
                assert(cells[i as int].0 < len);
            }
            let ghost old_r = r@;
            r.push((first + i, text[i]));
            proof {
                assert(r@.map_values(|c: (usize, char)| (c.0 as int, c.1)) =~= old_r.map_values(
                    |c: (usize, char)| (c.0 as int, c.1),
                ).push((first + i, text@[i as int])));
            }
            i = i + 1;
            proof {
                assert(r@.map_values(|c: (usize, char)| (c.0 as int, c.1)) =~= Seq::new(
                    i as nat,
                    |k: int| (first + k, text@[k]),
                ));
            }
        }
        proof {
            assert(r@.map_values(|c: (usize, char)| (c.0 as int, c.1)) =~= cells);
        }
    } else {
        let n = if bytes < text.len() {
            bytes
        } else {
            text.len()
        };
        proof {
            assert(w * (b.start_y - 1) + w <= len) by (nonlinear_arith)
                requires
                    b.start_y >= 1,
                    (b.start_y + 2) * w <= len,
                    w > 0,
            ;
        }
        let top = w * (b.start_y - 1) + b.start_x;
        let sx = b.size_x;
        let mut i: usize = 0;
        while i < n
            invariant
                i <= n <= text@.len(),
                n == cells.len(),
                cells == text_cells_of(w as int, text@, bytes as int, b),
                sx == b.size_x,
                sx > 0,
                b.size_x <= b.size_y,
                top == w * (b.start_y - 1) + b.start_x,
                forall|k: int| 0 <= k < cells.len() ==> #[trigger] cells[k].0 < len,
                forall|k: int| 0 <= k < n ==> #[trigger] cells[k] == (top + w * (1 + k / (sx as int)) + k % (sx as int), text@[k]),
                r@.map_values(|c: (usize, char)| (c.0 as int, c.1)) == Seq::new(
                    i as nat,
                    |k: int| (top + w * (1 + k / (sx as int)) + k % (sx as int), text@[k]),
                ),
                forall|k: int| 0 <= k < r@.len() ==> r@[k].0 < len,
            decreases n - i,
        {
            let line = i / sx;
            let col = i % sx;
            proof {
                assert(cells[i as int].0 == top + w * (1 + line) + col);
                assert(cells[i as int].0 < len);
                assert(w * (1 + line) >= 0) by (nonlinear_arith)
                    requires
                        line >= 0,
                ;
            }
            let ghost old_r = r@;
            r.push((top + w * (1 + line) + col, text[i]));
            proof {
                assert(r@.map_values(|c: (usize, char)| (c.0 as int, c.1)) =~= old_r.map_values(
                    |c: (usize, char)| (c.0 as int, c.1),
                ).push((top + w * (1 + line) + col, text@[i as int])));
            }
            i = i + 1;
            proof {
                assert(r@.map_values(|c: (usize, char)| (c.0 as int, c.1)) =~= Seq::new(
                    i as nat,
                    |k: int| (top + w * (1 + k / (sx as int)) + k % (sx as int), text@[k]),
                ));
            }
        }
        proof {
            assert(r@.map_values(|c: (usize, char)| (c.0 as int, c.1)) =~= cells);
        }
    }
    r
}

/// The colours the pyramid is drawn in.
#[derive(Clone, Copy, Debug, PartialEq, Eq, Structural)]
pub enum Color {
    Black,
    Indigo,
    Magenta,
    Green,
    Blue,
    Orange,
    Red,
}

/// One step of drawing the pyramid.
#[derive(Debug)]
pub enum PaintStep {
    /// Fill a block, widened by a frame of this thickness, with a colour.
    Fill(Block, usize, Color),
    /// Write a text in a block (see `text_cells_of`).
    Write(Block, String, Color),
    /// Write the label of a requirement block in a block.
    Label(Block, Req, Color),
}

/// A drawing step as plain values.
pub enum StepView {
    Fill(Block, usize, Color),
    Write(Block, Seq<char>, Color),
    Label(Block, Req, Color),
}

impl View for PaintStep {
    type V = StepView;

    open spec fn view(&self) -> StepView {
        match self {
            PaintStep::Fill(b, t, c) => StepView::Fill(*b, *t, *c),
            PaintStep::Write(b, s, c) => StepView::Write(*b, s@, *c),
            PaintStep::Label(b, r, c) => StepView::Label(*b, *r, *c),
        }
    }
}

pub open spec fn steps_view(v: Seq<PaintStep>) -> Seq<StepView> {
    v.map_values(|s: PaintStep| s@)
}

impl PyramidLayout {
    /// Two blocks in the second row, four in the third, eight in the fourth.
    pub open spec fn wf(&self) -> bool {
        &&& self.second@.len() == 2
        &&& self.third@.len() == 4
        &&& self.fourth@.len() == 8
    }
}

/// Whether a tree's top block holds something.
pub open spec fn filled(t: ReqTree) -> bool {
    t.r != Req::Nil
}

pub open spec fn opt_steps(b: bool, s: Seq<StepView>) -> Seq<StepView> {
    if b {
        s
    } else {
        seq![]
    }
}

/// The frame of width `th` and colour `c` round fourth-row block `k`.
pub open spec fn pillar(l: PyramidLayout, k: int, c: Color, th: usize) -> StepView {
    StepView::Fill(l.fourth@[k], th, c)
}

/// The frame round third-row block `k`.
pub open spec fn wrap3(l: PyramidLayout, k: int, c: Color, th: usize) -> StepView {
    StepView::Fill(l.third@[k], th, c)
}

/// The frame round second-row block `k`.
pub open spec fn wrap2(l: PyramidLayout, k: int, c: Color, th: usize) -> StepView {
    StepView::Fill(l.second@[k], th, c)
}

/// The wrappings of third-row block `k` whose operands both show: its two
/// pillars, itself and its second-row block, layered green, blue, orange.
pub open spec fn teeth(l: PyramidLayout, k: int) -> Seq<StepView> {
    seq![
        pillar(l, 2 * k, Color::Green, 3),
        pillar(l, 2 * k + 1, Color::Green, 3),
        wrap3(l, k, Color::Green, 2),
        wrap2(l, k / 2, Color::Green, 1),
        pillar(l, 2 * k, Color::Blue, 2),
        pillar(l, 2 * k + 1, Color::Blue, 2),
        wrap3(l, k, Color::Blue, 1),
        pillar(l, 2 * k, Color::Orange, 1),
        pillar(l, 2 * k + 1, Color::Orange, 1),
    ]
}

/// The wrappings drawn round the blocks in use, from the outside in: the
/// teeth of each third-row block whose left operand shows; else a frame
/// round each third-row block in use, with its second-row block framed
/// once per side; else a frame round each second-row block in use.
pub open spec fn wraps(l: PyramidLayout, t: ReqTree) -> Seq<StepView> {
    let t0 = filled(tl(tl(tl(t))));
    let t1 = filled(tl(tr(tl(t))));
    let t2 = filled(tl(tl(tr(t))));
    let t3 = filled(tl(tr(tr(t))));
    let a = filled(tl(tl(t))) && !t0;
    let b = filled(tr(tl(t))) && !t1;
    let c = filled(tl(tr(t))) && !t2;
    let d = filled(tr(tr(t))) && !t3;
    let left = t0 || t1 || a || b;
    let r0 = t2 || t3;
    let r1 = r0 || c;
    let right = r1 || d;
    opt_steps(t0, teeth(l, 0)) + opt_steps(t1, teeth(l, 1)) + opt_steps(t2, teeth(l, 2)) + opt_steps(t3, teeth(l, 3))
        + opt_steps(
        a,
        seq![wrap3(l, 0, Color::Green, 2)] + opt_steps(!t1, seq![wrap2(l, 0, Color::Green, 1)]) + seq![
            wrap3(l, 0, Color::Blue, 1),
        ],
    ) + opt_steps(
        b,
        seq![wrap3(l, 1, Color::Green, 2)] + opt_steps(!t0, seq![wrap2(l, 0, Color::Green, 1)]) + seq![
            wrap3(l, 1, Color::Blue, 1),
        ],
    ) + opt_steps(
        c,
        seq![wrap3(l, 2, Color::Green, 2)] + opt_steps(!t3 && !r0, seq![wrap2(l, 1, Color::Green, 1)]) + seq![
            wrap3(l, 2, Color::Blue, 1),
        ],
    ) + opt_steps(
        d,
        seq![wrap3(l, 3, Color::Green, 2)] + opt_steps(!t2 && !r1, seq![wrap2(l, 1, Color::Green, 1)]) + seq![
            wrap3(l, 3, Color::Blue, 1),
        ],
    ) + opt_steps(filled(tl(t)) && !left, seq![wrap2(l, 0, Color::Green, 1)]) + opt_steps(
        filled(tr(t)) && !right,
        seq![wrap2(l, 1, Color::Green, 1)],
    )
}

/// A pair of blocks, each filled and labelled with an operand.
pub open spec fn pair(x: Block, y: Block, rx: Req, ry: Req, c: Color) -> Seq<StepView> {
    seq![StepView::Fill(x, 0, c), StepView::Label(x, rx, c), StepView::Fill(y, 0, c), StepView::Label(y, ry, c)]
}

/// The operands of each logical block, labelled in the row below it:
/// blue in the second row, orange in the third, red in the fourth.
pub open spec fn layers(l: PyramidLayout, t: ReqTree) -> Seq<StepView> {
    opt_steps(is_logic(t.r), pair(l.second@[0], l.second@[1], tl(t).r, tr(t).r, Color::Blue)) + opt_steps(
        is_logic(tl(t).r),
        pair(l.third@[0], l.third@[1], tl(tl(t)).r, tr(tl(t)).r, Color::Orange),
    ) + opt_steps(is_logic(tr(t).r), pair(l.third@[2], l.third@[3], tl(tr(t)).r, tr(tr(t)).r, Color::Orange))
        + opt_steps(
        is_logic(tl(tl(t)).r),
        pair(l.fourth@[0], l.fourth@[1], tl(tl(tl(t))).r, tr(tl(tl(t))).r, Color::Red),
    ) + opt_steps(
        is_logic(tr(tl(t)).r),
        pair(l.fourth@[2], l.fourth@[3], tl(tr(tl(t))).r, tr(tr(tl(t))).r, Color::Red),
    ) + opt_steps(
        is_logic(tl(tr(t)).r),
        pair(l.fourth@[4], l.fourth@[5], tl(tl(tr(t))).r, tr(tl(tr(t))).r, Color::Red),
    ) + opt_steps(
        is_logic(tr(tr(t)).r),
        pair(l.fourth@[6], l.fourth@[7], tl(tr(tr(t))).r, tr(tr(tr(t))).r, Color::Red),
    )
}

/// The drawing of a policy (its text `pol`) with requirement tree `t`:
/// the buttons and the eye; then, when the tree holds something, the top
/// block, the wrappings and the operand rows.
pub open spec fn paint_of(l: PyramidLayout, pol: Seq<char>, t: ReqTree) -> Seq<StepView> {
    let head = seq![
        StepView::Fill(l.back, 0, Color::Indigo),
        StepView::Write(l.back, "Back"@, Color::Indigo),
        StepView::Fill(l.set_running, 0, Color::Indigo),
        StepView::Write(l.set_running, "Run"@, Color::Indigo),
        StepView::Fill(l.store, 0, Color::Indigo),
        StepView::Write(l.store, "Store"@, Color::Indigo),
        StepView::Fill(l.eye, 0, Color::Magenta),
        StepView::Write(l.eye, pol, Color::Magenta),
    ];
    if !filled(t) {
        head
    } else {
        head + seq![StepView::Fill(l.top, 0, Color::Green), StepView::Label(l.top, t.r, Color::Green)] + wraps(l, t)
            + layers(l, t)
    }
}

/// Appends `more` to `v`.
fn extend(v: &mut Vec<PaintStep>, more: Vec<PaintStep>)
    ensures
        steps_view(final(v)@) == steps_view(old(v)@) + steps_view(more@),
{
    let mut m = more;
    let ghost a = v@;
    let ghost b = m@;
    v.append(&mut m);
    proof {
        assert(v@ == a + b);
        assert(steps_view(v@) =~= steps_view(a) + steps_view(b));
    }
}

fn fill(b: Block, t: usize, c: Color) -> (s: PaintStep)
    ensures
        s@ == StepView::Fill(b, t, c),
{
    PaintStep::Fill(b, t, c)
}

fn teeth_steps(l: &PyramidLayout, k: usize) -> (v: Vec<PaintStep>)
    requires
        l.wf(),
        k < 4,
    ensures
        steps_view(v@) == teeth(*l, k as int),
{
    let mut v: Vec<PaintStep> = Vec::new();
    v.push(fill(l.fourth[2 * k], 3, Color::Green));
    v.push(fill(l.fourth[2 * k + 1], 3, Color::Green));
    v.push(fill(l.third[k], 2, Color::Green));
    v.push(fill(l.second[k / 2], 1, Color::Green));
    v.push(fill(l.fourth[2 * k], 2, Color::Blue));
    v.push(fill(l.fourth[2 * k + 1], 2, Color::Blue));
    v.push(fill(l.third[k], 1, Color::Blue));
    v.push(fill(l.fourth[2 * k], 1, Color::Orange));
    v.push(fill(l.fourth[2 * k + 1], 1, Color::Orange));
    proof {
        assert(steps_view(v@) =~= teeth(*l, k as int));
    }
    v
}

/// The frames round third-row block `k`, with second-row block `j` framed
/// between them when `inner`.
fn third_wrap(l: &PyramidLayout, k: usize, inner: bool, j: usize) -> (v: Vec<PaintStep>)
    requires
        l.wf(),
        k < 4,
        j < 2,
    ensures
        steps_view(v@) == seq![wrap3(*l, k as int, Color::Green, 2)] + opt_steps(
            inner,
            seq![wrap2(*l, j as int, Color::Green, 1)],
        ) + seq![wrap3(*l, k as int, Color::Blue, 1)],
{
    let mut v: Vec<PaintStep> = Vec::new();
    v.push(fill(l.third[k], 2, Color::Green));
    if inner {
        v.push(fill(l.second[j], 1, Color::Green));
    }
    v.push(fill(l.third[k], 1, Color::Blue));
    proof {
        assert(steps_view(v@) =~= seq![wrap3(*l, k as int, Color::Green, 2)] + opt_steps(
            inner,
            seq![wrap2(*l, j as int, Color::Green, 1)],
        ) + seq![wrap3(*l, k as int, Color::Blue, 1)]);
    }
    v
}

fn pair_steps(x: Block, y: Block, rx: Req, ry: Req, c: Color) -> (v: Vec<PaintStep>)
    ensures
        steps_view(v@) == pair(x, y, rx, ry, c),
{
    let mut v: Vec<PaintStep> = Vec::new();
    v.push(PaintStep::Fill(x, 0, c));
    v.push(PaintStep::Label(x, rx, c));
    v.push(PaintStep::Fill(y, 0, c));
    v.push(PaintStep::Label(y, ry, c));
    proof {
        assert(steps_view(v@) =~= pair(x, y, rx, ry, c));
    }
    v
}

fn when(b: bool, v: Vec<PaintStep>) -> (r: Vec<PaintStep>)
    ensures
        steps_view(r@) == opt_steps(b, steps_view(v@)),
{
    if b {
        v
    } else {
        let r: Vec<PaintStep> = Vec::new();
        proof {
            assert(steps_view(r@) =~= Seq::<StepView>::empty());
        }
        r
    }
}

fn wrap_steps(l: &PyramidLayout, t: &ReqTree) -> (v: Vec<PaintStep>)
    requires
        l.wf(),
    ensures
        steps_view(v@) == wraps(*l, *t),
{
    let ll = t.left().left();
    let rl = t.left().right();
    let lr = t.right().left();
    let rr = t.right().right();
    let t0 = ll.left().req().not_none();
    let t1 = rl.left().req().not_none();
    let t2 = lr.left().req().not_none();
    let t3 = rr.left().req().not_none();
    let a = ll.req().not_none() && !t0;
    let b = rl.req().not_none() && !t1;
    let c = lr.req().not_none() && !t2;
    let d = rr.req().not_none() && !t3;
    let left = t0 || t1 || a || b;
    let r0 = t2 || t3;
    let r1 = r0 || c;
    let right = r1 || d;
    let mut v: Vec<PaintStep> = Vec::new();
    extend(&mut v, when(t0, teeth_steps(l, 0)));
    extend(&mut v, when(t1, teeth_steps(l, 1)));
    extend(&mut v, when(t2, teeth_steps(l, 2)));
    extend(&mut v, when(t3, teeth_steps(l, 3)));
    extend(&mut v, when(a, third_wrap(l, 0, !t1, 0)));
    extend(&mut v, when(b, third_wrap(l, 1, !t0, 0)));
    extend(&mut v, when(c, third_wrap(l, 2, !t3 && !r0, 1)));
    extend(&mut v, when(d, third_wrap(l, 3, !t2 && !r1, 1)));
    let mut e: Vec<PaintStep> = Vec::new();
    e.push(fill(l.second[0], 1, Color::Green));
    extend(&mut v, when(t.left().req().not_none() && !left, e));
    let mut f: Vec<PaintStep> = Vec::new();
    f.push(fill(l.second[1], 1, Color::Green));
    extend(&mut v, when(t.right().req().not_none() && !right, f));
    proof {
        assert(steps_view(v@) =~= wraps(*l, *t));
    }
    v
}

fn layer_steps(l: &PyramidLayout, t: &ReqTree) -> (v: Vec<PaintStep>)
    requires
        l.wf(),
    ensures
        steps_view(v@) == layers(*l, *t),
{
    let lt = t.left();
    let rt = t.right();
    let ll = lt.left();
    let lr = lt.right();
    let rl = rt.left();
    let rr = rt.right();
    let mut v: Vec<PaintStep> = Vec::new();
    extend(&mut v, when(t.req().is_logic_fn(), pair_steps(l.second[0], l.second[1], lt.req(), rt.req(), Color::Blue)));
    extend(&mut v, when(lt.req().is_logic_fn(), pair_steps(l.third[0], l.third[1], ll.req(), lr.req(), Color::Orange)));
    extend(&mut v, when(rt.req().is_logic_fn(), pair_steps(l.third[2], l.third[3], rl.req(), rr.req(), Color::Orange)));
    extend(
        &mut v,
        when(ll.req().is_logic_fn(), pair_steps(l.fourth[0], l.fourth[1], ll.left().req(), ll.right().req(), Color::Red)),
    );
    extend(
        &mut v,
        when(lr.req().is_logic_fn(), pair_steps(l.fourth[2], l.fourth[3], lr.left().req(), lr.right().req(), Color::Red)),
    );
    extend(
        &mut v,
        when(rl.req().is_logic_fn(), pair_steps(l.fourth[4], l.fourth[5], rl.left().req(), rl.right().req(), Color::Red)),
    );
    extend(
        &mut v,
        when(rr.req().is_logic_fn(), pair_steps(l.fourth[6], l.fourth[7], rr.left().req(), rr.right().req(), Color::Red)),
    );
    proof {
        assert(steps_view(v@) =~= layers(*l, *t));
    }
    v
}

impl PyramidLayout {
    /// The steps that draw a policy (its text `pol_text`) with requirement
    /// tree `t` (see `paint_of`).
    pub fn paint_steps(&self, pol_text: String, t: &ReqTree) -> (v: Vec<PaintStep>)
        requires
            self.wf(),
        ensures
            steps_view(v@) == paint_of(*self, pol_text@, *t),
    {
        let mut v: Vec<PaintStep> = Vec::new();
        v.push(PaintStep::Fill(self.back, 0, Color::Indigo));
        v.push(PaintStep::Write(self.back, String::from_str("Back"), Color::Indigo));
        v.push(PaintStep::Fill(self.set_running, 0, Color::Indigo));
        v.push(PaintStep::Write(self.set_running, String::from_str("Run"), Color::Indigo));
        v.push(PaintStep::Fill(self.store, 0, Color::Indigo));
        v.push(PaintStep::Write(self.store, String::from_str("Store"), Color::Indigo));
        v.push(PaintStep::Fill(self.eye, 0, Color::Magenta));
        v.push(PaintStep::Write(self.eye, pol_text, Color::Magenta));
        let ghost head = steps_view(v@);
        if t.req().is_none() {
            proof {
                assert(steps_view(v@) =~= paint_of(*self, pol_text@, *t));
            }
            return v;
        }
        v.push(PaintStep::Fill(self.top, 0, Color::Green));
        v.push(PaintStep::Label(self.top, t.req(), Color::Green));
        let ghost top = steps_view(v@);
        extend(&mut v, wrap_steps(self, t));
        extend(&mut v, layer_steps(self, t));
        proof {
            assert(top =~= head + seq![
                StepView::Fill(self.top, 0, Color::Green),
                StepView::Label(self.top, t.r, Color::Green),
            ]);
            assert(steps_view(v@) =~= paint_of(*self, pol_text@, *t));
        }
        v
    }
}

} // verus!
