//! A rectangular text button and the cells its label occupies.
use vstd::prelude::*;

verus! {

/// A button drawn on screen: the graphic that holds it and its size in cells.
/// The terminal front end owns the graphic; the library only names it.
#[derive(Clone, Copy, Debug)]
pub struct Button {
    pub g_id: usize,
    pub size: (usize, usize),
}

/// What a button can be asked to do on screen.
#[derive(Debug)]
pub enum ButtonOp {
    Hide,
    Show,
    Rename(String),
    /// Draw as selected; `true` selects the alternative frame set.
    Select(bool),
    /// Draw as not selected; `true` selects the alternative frame set.
    Deselect(bool),
}

/// One drawing request for one button.
#[derive(Debug)]
pub struct ButtonCmd {
    pub button: Button,
    pub op: ButtonOp,
}

/// The label row of a button: the middle row.
pub open spec fn label_row(size: (usize, usize)) -> int {
    size.1 as int / 2
}

/// How many characters of a label fit: all columns but the first and the last.
pub open spec fn label_capacity(size: (usize, usize)) -> int {
    if size.0 >= 2 { size.0 - 2 } else { 0 }
}

/// The cells of a button frame (as indices into its row-major frame) that
/// hold the label, paired with the character drawn there: the label starts
/// in column 1 of the middle row and is cut to the label capacity.
pub open spec fn spec_label_cells(size: (usize, usize), text: Seq<char>) -> Seq<(usize, char)> {
    let n = if text.len() < label_capacity(size) { text.len() as int } else { label_capacity(size) };
    Seq::new(n as nat, |i: int| ((size.0 * label_row(size) + 1 + i) as usize, text[i]))
}

impl Button {
    pub fn new(g_id: usize, size: (usize, usize)) -> (b: Button)
        ensures
            b.g_id == g_id,
            b.size == size,
    {
        Button { g_id, size }
    }

    /// Positions and characters of this button's label in its frame.
    pub fn label_cells(&self, text: &Vec<char>) -> (cells: Vec<(usize, char)>)
        requires
            self.size.1 >= 1,
            self.size.0 * self.size.1 <= usize::MAX,
        ensures
            cells@ == spec_label_cells(self.size, text@),
            forall|i: int|
                0 <= i < cells.len() ==> #[trigger] cells[i].0 < self.size.0 * self.size.1,
    {
        let size = self.size;
        let row = size.1 / 2;
        let mut cells: Vec<(usize, char)> = Vec::new();
        let mut added: usize = 1;
        let mut k: usize = 0;
        let ghost n: int = if text.len() < label_capacity(size) {
            text.len() as int
        } else {
            label_capacity(size)
        };
        proof {
            assert(size.0 * row + size.0 <= size.0 * size.1) by (nonlinear_arith)
                requires
                    row == size.1 / 2,
                    size.1 >= 1,
            ;
        }
        while k < text.len()
            invariant
                row == size.1 / 2,
                size == self.size,
                added == k + 1,
                k <= n,
                n == (if text.len() < label_capacity(size) {
                    text.len() as int
                } else {
                    label_capacity(size)
                }),
                size.0 * row + size.0 <= usize::MAX,
                size.0 * row + size.0 <= size.0 * size.1,
                cells@ =~= spec_label_cells(size, text@).subrange(0, k as int),
                forall|i: int| 0 <= i < cells.len() ==> #[trigger] cells[i].0 < size.0 * size.1,
            ensures
                k == n,
                cells@ =~= spec_label_cells(size, text@).subrange(0, k as int),
                forall|i: int| 0 <= i < cells.len() ==> #[trigger] cells[i].0 < size.0 * size.1,
            decreases text.len() - k,
        {
            if size.0 < 1 || added >= size.0 - 1 {
                break;
            }
            let c = text[k];
            cells.push((size.0 * row + added, c));
            added = added + 1;
            k = k + 1;
        }
        proof {
            assert(cells@ =~= spec_label_cells(size, text@));
        }
        cells
    }
}

} // verus!
