//! Small windows: a yes/no question and the content viewer.
use crate::text_buffer::{char_cell, CellCmd, Paint};
use vstd::prelude::*;
use vstd::string::*;

verus! {

/// Text laid out row by row in the window's cells from column 1 and row 1,
/// up to the column and row before the window's size: the first `n` cells,
/// showing `text` and then blanks.
pub open spec fn grid_cells(text: Seq<char>, n: int, w: int, h: int) -> Seq<CellCmd> {
    let cap = if w > 1 && h > 1 { (w - 1) * (h - 1) } else { 0 };
    Seq::new(
        (if n < cap { n } else { cap }) as nat,
        |k: int|
            char_cell(
                1 + k % (w - 1),
                1 + k / (w - 1),
                if k < text.len() {
                    text[k]
                } else {
                    ' '
                },
            ),
    )
}

/// The keys that answer a question.
#[derive(Clone, Copy, Debug, PartialEq, Eq, Structural)]
pub enum AnswerKey {
    Yes,
    No,
    Other,
}

/// A full-screen yes/no question.
pub struct Question {
    pub g_id: usize,
    pub width: usize,
    pub height: usize,
}

impl Question {
    pub fn new(g_id: usize, cols: usize, rows: usize) -> (q: Question)
        ensures
            q.g_id == g_id,
            q.width == cols,
            q.height == rows,
    {
        Question { g_id, width: cols, height: rows }
    }

    /// The first `n` cells of the window (see `grid_cells`).
    fn grid(&self, text: &Vec<char>, n: usize) -> (cells: Vec<CellCmd>)
        requires
            self.width < usize::MAX / 2,
            self.height < usize::MAX / 2,
        ensures
            cells@ == grid_cells(text@, n as int, self.width as int, self.height as int),
    {
        let mut cells: Vec<CellCmd> = Vec::new();
        let w = self.width;
        let h = self.height;
        if w <= 1 || h <= 1 {
            proof {
                assert(cells@ =~= grid_cells(text@, n as int, w as int, h as int));
            }
            return cells;
        }
        let m = w - 1;
        let mut k: usize = 0;
        let mut x: usize = 1;
        let mut y: usize = 1;
        proof {
            assert(0 == (y - 1) * m + (x - 1)) by (nonlinear_arith)
                requires
                    y == 1,
                    x == 1,
            ;
        }
        while k < n && y < h
            invariant
                m == w - 1,
                m >= 1,
                h > 1,
                w < usize::MAX / 2,
                h < usize::MAX / 2,
                1 <= x <= m,
                1 <= y <= h,
                k == (y - 1) * m + (x - 1),
                k <= n,
                cells@ == grid_cells(text@, n as int, w as int, h as int).subrange(0, k as int),
                k <= (y - 1) * m + m,
                y == h ==> x == 1,
            decreases n - k,
        {
            proof {
                vstd::arithmetic::div_mod::lemma_fundamental_div_mod_converse(
                    k as int,
                    m as int,
                    (y - 1) as int,
                    (x - 1) as int,
                );
                assert(k < (h - 1) * m) by (nonlinear_arith)
                    requires
                        k == (y - 1) * m + (x - 1),
                        x <= m,
                        y < h,
                ;
            }
            let c = if k < text.len() {
                text[k]
            } else {
                ' '
            };
            cells.push(CellCmd { x, y, paint: Paint::Char(c) });
            proof {
                assert(grid_cells(text@, n as int, w as int, h as int)[k as int] == char_cell(
                    x as int,
                    y as int,
                    c,
                ));
                assert(cells@ =~= grid_cells(text@, n as int, w as int, h as int).subrange(
                    0,
                    k + 1,
                ));
            }
            k = k + 1;
            x = x + 1;
            if x > m {
                x = 1;
                y = y + 1;
                proof {
                    assert((y - 2) * m + m == (y - 1) * m) by (nonlinear_arith);
                }
            }
        }
        proof {
            if y < h {
                assert(k < (h - 1) * m) by (nonlinear_arith)
                    requires
                        k == (y - 1) * m + (x - 1),
                        x <= m,
                        y < h,
                ;
            } else {
                assert(k == (h - 1) * m) by (nonlinear_arith)
                    requires
                        y == h,
                        x == 1,
                        k == (y - 1) * m + (x - 1),
                ;
            }
            let g = grid_cells(text@, n as int, w as int, h as int);
            assert(g.len() == k);
            assert(cells@ =~= g);
        }
        cells
    }

    /// The question's characters laid out row by row.
    pub fn question_cells(&self, question: &str) -> (cells: Vec<CellCmd>)
        requires
            self.width < usize::MAX / 2,
            self.height < usize::MAX / 2,
        ensures
            cells@ == grid_cells(question@, question@.len() as int, self.width as int, self.height as int),
    {
        let t = crate::chars::chars_of(question);
        self.grid(&t, t.len())
    }

    /// The blanks that clear the question: as many cells as the question
    /// has bytes.
    pub fn clear_cells(&self, question: &str) -> (cells: Vec<CellCmd>)
        requires
            question.spec_bytes().len() <= usize::MAX,
            self.width < usize::MAX / 2,
            self.height < usize::MAX / 2,
        ensures
            cells@ == grid_cells(
                Seq::empty(),
                question.spec_bytes().len() as int,
                self.width as int,
                self.height as int,
            ),
    {
        let n = question.len();
        let empty: Vec<char> = Vec::new();
        self.grid(&empty, n)
    }

    /// The answer a key gives: yes, no, or none yet.
    pub fn answer(key: AnswerKey) -> (a: Option<bool>)
        ensures
            a == match key {
                AnswerKey::Yes => Some(true),
                AnswerKey::No => Some(false),
                AnswerKey::Other => None::<bool>,
            },
    {
        match key {
            AnswerKey::Yes => Some(true),
            AnswerKey::No => Some(false),
            AnswerKey::Other => None,
        }
    }
}

/// A row of the viewer: `text` from column 2 to the column before the
/// window's width, blanks after it.
pub open spec fn viewer_row(text: Seq<char>, y: int, w: int) -> Seq<CellCmd> {
    Seq::new(
        (if w > 2 { w - 2 } else { 0 }) as nat,
        |i: int| char_cell(2 + i, y, if i < text.len() { text[i] } else { ' ' }),
    )
}

/// The viewer's title row for a known or an unknown data type.
pub open spec fn viewer_title(known: bool) -> Seq<char> {
    if known {
        "Define new DataType                       bytes left: 30"@
    } else {
        "EDIT    DataType: Unknown"@
    }
}

/// A window of at most 60 by 8 cells centered on the screen, showing a
/// content's data type and description.
pub struct Viewer {
    pub g_id: usize,
    pub width: usize,
    pub height: usize,
}

impl Viewer {
    /// The viewer's size for a screen of `cols` by `rows`, and where its
    /// top left corner goes.
    pub fn placement(cols: usize, rows: usize) -> (r: ((usize, usize), (usize, usize)))
        ensures
            r.0.0 == if cols < 60 { cols } else { 60 },
            r.0.1 == if rows < 8 { rows } else { 8 },
            r.1.0 == (cols - r.0.0) / 2,
            r.1.1 == (rows - r.0.1) / 2,
    {
        let w = if cols < 60 {
            cols
        } else {
            60
        };
        let h = if rows < 8 {
            rows
        } else {
            8
        };
        ((w, h), ((cols - w) / 2, (rows - h) / 2))
    }

    pub fn new(g_id: usize, cols: usize, rows: usize) -> (v: Viewer)
        ensures
            v.g_id == g_id,
            v.width == if cols < 60 { cols } else { 60 },
            v.height == if rows < 8 { rows } else { 8 },
    {
        let ((w, h), _pos) = Viewer::placement(cols, rows);
        Viewer { g_id, width: w, height: h }
    }

    fn row(&self, text: &Vec<char>, y: usize) -> (cells: Vec<CellCmd>)
        ensures
            cells@ == viewer_row(text@, y as int, self.width as int),
    {
        let mut cells: Vec<CellCmd> = Vec::new();
        let mut x: usize = 2;
        if self.width <= 2 {
            proof {
                assert(cells@ =~= viewer_row(text@, y as int, self.width as int));
            }
            return cells;
        }
        while x < self.width
            invariant
                2 <= x <= self.width,
                cells@ == viewer_row(text@, y as int, self.width as int).subrange(0, x - 2),
            decreases self.width - x,
        {
            let i = x - 2;
            let c = if i < text.len() {
                text[i]
            } else {
                ' '
            };
            cells.push(CellCmd { x, y, paint: Paint::Char(c) });
            proof {
                assert(viewer_row(text@, y as int, self.width as int)[i as int] == char_cell(
                    x as int,
                    y as int,
                    c,
                ));
                assert(cells@ =~= viewer_row(text@, y as int, self.width as int).subrange(
                    0,
                    x + 1 - 2,
                ));
            }
            x = x + 1;
        }
        proof {
            assert(cells@ =~= viewer_row(text@, y as int, self.width as int));
        }
        cells
    }

    /// The viewer's rows: the title on row 1, the description on row 3, the
    /// buttons on the row before the last.
    pub fn show_cells(&self, known_type: bool) -> (cells: Vec<CellCmd>)
        requires
            self.height >= 2,
        ensures
            cells@ == viewer_row(viewer_title(known_type), 1, self.width as int) + viewer_row(
                "Descpription: Plaintext file"@,
                3,
                self.width as int,
            ) + viewer_row("                    APPLY    CANCEL"@, self.height - 2, self.width as int),
    {
        let title = if known_type {
            crate::chars::chars_of("Define new DataType                       bytes left: 30")
        } else {
            crate::chars::chars_of("EDIT    DataType: Unknown")
        };
        let mut cells = self.row(&title, 1);
        let mut second = self.row(&crate::chars::chars_of("Descpription: Plaintext file"), 3);
        let mut third = self.row(
            &crate::chars::chars_of("                    APPLY    CANCEL"),
            self.height - 2,
        );
        cells.append(&mut second);
        cells.append(&mut third);
        cells
    }
}

} // verus!
