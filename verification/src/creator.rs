//! Button navigation inside the content creator window.
use crate::button::Button;
use crate::text_buffer::{char_cell, CellCmd, Paint};
use vstd::prelude::*;
use vstd::string::*;

verus! {

/// What the user chose in the content creator window.
#[derive(Clone, Copy, Debug, PartialEq, Eq, Structural)]
pub enum CreatorResult {
    SelectDType,
    SelectTags,
    SelectDescription,
    Cancel,
    Create,
}

/// Number of buttons in the creator window: cancel, data type, description, tags, apply.
pub const CREATOR_BUTTONS: usize = 5;

/// The row of the data type field.
pub open spec fn dtype_row() -> int {
    2
}

/// The row of the description field.
pub open spec fn description_row() -> int {
    6
}

/// The row of the tags field.
pub open spec fn tags_row() -> int {
    10
}

/// The window's layout: the top row of button `b` (cancel, data type,
/// description, tags, apply), each button three rows tall at column 2,
/// beside the field it edits.
pub open spec fn button_top(b: usize) -> int {
    if b == 0 {
        24
    } else if b == 1 {
        1
    } else if b == 2 {
        5
    } else if b == 3 {
        9
    } else {
        20
    }
}

/// Whether button `b` stands beside row `y`.
pub open spec fn button_beside(b: usize, y: int) -> bool {
    button_top(b) <= y < button_top(b) + 3
}

/// Whether `b` is a button that can be focused in the given mode.
/// In read-only mode only cancel (0), description (2) and tags (3) are available.
pub open spec fn reachable_button(read_only: bool, b: usize) -> bool {
    if read_only {
        b == 0 || b == 2 || b == 3
    } else {
        b < CREATOR_BUTTONS
    }
}

/// The button focused after pressing "down" on button `curr`.
pub open spec fn spec_next_button(read_only: bool, curr: usize) -> usize {
    if read_only {
        if curr == 0 { 2 } else if curr == 2 { 3 } else { 0 }
    } else {
        if curr < 4 { (curr + 1) as usize } else { 0 }
    }
}

/// The button focused after pressing "up" on button `curr`.
pub open spec fn spec_prev_button(read_only: bool, curr: usize) -> usize {
    if read_only {
        if curr == 0 { 3 } else if curr == 3 { 2 } else { 0 }
    } else {
        if curr == 0 { 4 } else { (curr - 1) as usize }
    }
}

/// What pressing Enter on a button yields; `None` for an index that names no button.
pub open spec fn spec_result_for_button(b: usize) -> Option<CreatorResult> {
    if b == 0 {
        Some(CreatorResult::Cancel)
    } else if b == 1 {
        Some(CreatorResult::SelectDType)
    } else if b == 2 {
        Some(CreatorResult::SelectDescription)
    } else if b == 3 {
        Some(CreatorResult::SelectTags)
    } else if b == 4 {
        Some(CreatorResult::Create)
    } else {
        None
    }
}

/// Focus moves one button down, wrapping around; read-only mode skips the
/// data type and apply buttons.
fn next_button(read_only: bool, curr_button: usize) -> (r: usize)
    ensures
        r == spec_next_button(read_only, curr_button),
        reachable_button(read_only, r),
{
    if read_only {
        if curr_button == 0 {
            2
        } else if curr_button == 2 {
            3
        } else {
            0
        }
    } else {
        if curr_button == 0 {
            1
        } else if curr_button == 1 {
            2
        } else if curr_button == 2 {
            3
        } else if curr_button == 3 {
            4
        } else {
            0
        }
    }
}

/// Focus moves one button up, wrapping around; read-only mode skips the
/// data type and apply buttons.
fn prev_button(read_only: bool, curr_button: usize) -> (r: usize)
    ensures
        r == spec_prev_button(read_only, curr_button),
        reachable_button(read_only, curr_button) ==> reachable_button(read_only, r),
{
    if read_only {
        if curr_button == 0 {
            3
        } else if curr_button == 3 {
            2
        } else {
            0
        }
    } else {
        if curr_button == 0 {
            4
        } else {
            curr_button - 1
        }
    }
}

/// The result of pressing Enter with `button` focused.
pub fn result_for_button(button: usize) -> (r: Option<CreatorResult>)
    ensures
        r == spec_result_for_button(button),
{
    match button {
        0 => Some(CreatorResult::Cancel),
        1 => Some(CreatorResult::SelectDType),
        2 => Some(CreatorResult::SelectDescription),
        3 => Some(CreatorResult::SelectTags),
        4 => Some(CreatorResult::Create),
        _ => None,
    }
}

/// Enter on a button edits the field the button stands beside: the data
/// type, the description or the tags field (see `update_d_type`,
/// `update_description`, `update_tags`); the buttons beside no field
/// cancel or create, and every button gives a result.
pub proof fn lemma_enter_edits_the_field_beside(b: usize)
    requires
        b < CREATOR_BUTTONS,
    ensures
        spec_result_for_button(b) == Some(CreatorResult::SelectDType) <==> button_beside(b, dtype_row()),
        spec_result_for_button(b) == Some(CreatorResult::SelectDescription) <==> button_beside(
            b,
            description_row(),
        ),
        spec_result_for_button(b) == Some(CreatorResult::SelectTags) <==> button_beside(b, tags_row()),
        spec_result_for_button(b) is Some,
        (spec_result_for_button(b) == Some(CreatorResult::Cancel) || spec_result_for_button(b) == Some(
            CreatorResult::Create,
        )) <==> !(button_beside(b, dtype_row()) || button_beside(b, description_row()) || button_beside(
            b,
            tags_row(),
        )),
{
}

/// A read-only creator can only show its fields or close: Enter on any
/// button it can focus never creates a content nor changes the data type.
pub proof fn lemma_read_only_never_creates(b: usize)
    requires
        reachable_button(true, b),
    ensures
        spec_result_for_button(b) != Some(CreatorResult::Create),
        spec_result_for_button(b) != Some(CreatorResult::SelectDType),
{
}

/// Going down and then up returns to the same button, for every button that
/// can be focused in the given mode.
pub proof fn lemma_next_then_prev(read_only: bool, b: usize)
    requires
        reachable_button(read_only, b),
    ensures
        spec_prev_button(read_only, spec_next_button(read_only, b)) == b,
{
}

/// Going up and then down returns to the same button, for every button that
/// can be focused in the given mode.
pub proof fn lemma_prev_then_next(read_only: bool, b: usize)
    requires
        reachable_button(read_only, b),
    ensures
        spec_next_button(read_only, spec_prev_button(read_only, b)) == b,
{
}

/// The keys the creator window reacts to.
#[derive(Clone, Copy, Debug, PartialEq, Eq, Structural)]
pub enum CreatorKey {
    Escape,
    Down,
    Up,
    Enter,
    Other,
}

/// A field row: `text` from column 12 up to the column before the last,
/// blanks after it; line feeds show as spaces when `flatten` is set.
pub open spec fn field_cells(text: Seq<char>, y: int, width: int, flatten: bool) -> Seq<CellCmd> {
    Seq::new(
        (if width - 1 > 12 { width - 13 } else { 0 }) as nat,
        |i: int|
            char_cell(
                12 + i,
                y,
                if i < text.len() {
                    if flatten && text[i] == '\n' {
                        ' '
                    } else {
                        text[i]
                    }
                } else {
                    ' '
                },
            ),
    )
}

/// `label` followed by `text`, as characters.
fn labelled_chars(label: &str, text: &str) -> (v: Vec<char>)
    ensures
        v@ == label@ + text@,
{
    let mut v = crate::chars::chars_of(label);
    let t = crate::chars::chars_of(text);
    let ghost a = v@;
    let mut i: usize = 0;
    while i < t.len()
        invariant
            i <= t.len(),
            v@ == a + t@.subrange(0, i as int),
        decreases t.len() - i,
    {
        v.push(t[i]);
        i = i + 1;
        proof {
            assert(v@ =~= a + t@.subrange(0, i as int));
        }
    }
    proof {
        assert(t@.subrange(0, t.len() as int) =~= t@);
    }
    v
}

/// The content creator window: its buttons (cancel, data type,
/// description, tags, apply) and the fields beside them.
pub struct Creator {
    pub g_id: usize,
    pub display_id: usize,
    pub button_dtypes: Button,
    pub button_tags: Button,
    pub button_descr: Button,
    pub button_apply: Button,
    pub button_cancel: Button,
    pub width: usize,
    pub height: usize,
}

/// What a key does in the creator window: the newly focused button, or the
/// window closes with a result.
#[derive(Clone, Copy, Debug, PartialEq, Eq, Structural)]
pub enum CreatorStep {
    Focus(usize),
    Close(CreatorResult),
    Stay,
}

/// The creator window's keys from `keys[i]` on, the button `selected`
/// focused: the result the window closes with and how many keys were read
/// by then, or none when the keys run out first.
pub open spec fn creator_run(read_only: bool, selected: usize, keys: Seq<CreatorKey>, i: int) -> Option<
    (CreatorResult, int),
>
    decreases keys.len() - i,
{
    if i < 0 || i >= keys.len() {
        None
    } else {
        match keys[i] {
            CreatorKey::Escape => Some((CreatorResult::Cancel, i + 1)),
            CreatorKey::Down => creator_run(read_only, spec_next_button(read_only, selected), keys, i + 1),
            CreatorKey::Up => creator_run(read_only, spec_prev_button(read_only, selected), keys, i + 1),
            CreatorKey::Enter => match spec_result_for_button(selected) {
                Some(res) => Some((res, i + 1)),
                None => creator_run(read_only, selected, keys, i + 1),
            },
            CreatorKey::Other => creator_run(read_only, selected, keys, i + 1),
        }
    }
}

impl Creator {
    /// Serves the creator window over `keys`, the first button focused at
    /// the start (see `creator_run`).
    pub fn run_keys(&self, read_only: bool, keys: &Vec<CreatorKey>) -> (r: Option<(CreatorResult, usize)>)
        ensures
            match r {
                Some((res, n)) => creator_run(read_only, 0, keys@, 0) == Some((res, n as int)),
                None => creator_run(read_only, 0, keys@, 0) is None,
            },
    {
        let mut selected: usize = 0;
        let mut i: usize = 0;
        while i < keys.len()
            invariant
                i <= keys@.len(),
                creator_run(read_only, 0, keys@, 0) == creator_run(read_only, selected, keys@, i as int),
            decreases keys@.len() - i,
        {
            match self.step(keys[i], read_only, selected) {
                CreatorStep::Close(res) => {
                    return Some((res, i + 1));
                },
                CreatorStep::Focus(b) => {
                    selected = b;
                },
                CreatorStep::Stay => {},
            }
            i = i + 1;
        }
        None
    }

    pub fn next_button(&self, read_only: bool, curr_button: usize) -> (r: usize)
        ensures
            r == spec_next_button(read_only, curr_button),
            reachable_button(read_only, r),
    {
        next_button(read_only, curr_button)
    }

    pub fn prev_button(&self, read_only: bool, curr_button: usize) -> (r: usize)
        ensures
            r == spec_prev_button(read_only, curr_button),
            reachable_button(read_only, curr_button) ==> reachable_button(read_only, r),
    {
        prev_button(read_only, curr_button)
    }

    /// The repaints of a field row (see `field_cells`).
    pub fn field_row(&self, text: &Vec<char>, y: usize, flatten: bool) -> (cells: Vec<CellCmd>)
        requires
            self.width >= 1,
        ensures
            cells@ == field_cells(text@, y as int, self.width as int, flatten),
    {
        let mut cells: Vec<CellCmd> = Vec::new();
        if self.width < 14 {
            proof {
                assert(cells@ =~= field_cells(text@, y as int, self.width as int, flatten));
            }
            return cells;
        }
        let end = self.width - 1;
        let mut x: usize = 12;
        while x < end
            invariant
                12 <= x <= end,
                end == self.width - 1,
                end > 12,
                cells@ == field_cells(text@, y as int, self.width as int, flatten).subrange(0, x - 12),
            decreases end - x,
        {
            let i = x - 12;
            let c = if i < text.len() {
                if flatten && text[i] == '\n' {
                    ' '
                } else {
                    text[i]
                }
            } else {
                ' '
            };
            cells.push(CellCmd { x, y, paint: Paint::Char(c) });
            proof {
                assert(field_cells(text@, y as int, self.width as int, flatten)[i as int] == char_cell(
                    x as int,
                    y as int,
                    c,
                ));
                assert(cells@ =~= field_cells(text@, y as int, self.width as int, flatten).subrange(
                    0,
                    x + 1 - 12,
                ));
            }
            x = x + 1;
        }
        proof {
            assert(cells@ =~= field_cells(text@, y as int, self.width as int, flatten));
        }
        cells
    }

    /// The data type row: `DataType: ` and the type's name, on row 2.
    pub fn update_d_type(&self, text: &str) -> (cells: Vec<CellCmd>)
        requires
            self.width >= 1,
        ensures
            cells@ == field_cells("DataType: "@ + text@, dtype_row(), self.width as int, false),
    {
        let t = labelled_chars("DataType: ", text);
        self.field_row(&t, 2, false)
    }

    /// The tags row: `Tags: ` and the tag names, on row 10.
    pub fn update_tags(&self, text: &str) -> (cells: Vec<CellCmd>)
        requires
            self.width >= 1,
        ensures
            cells@ == field_cells("Tags: "@ + text@, tags_row(), self.width as int, false),
    {
        let t = labelled_chars("Tags: ", text);
        self.field_row(&t, 10, false)
    }

    /// The description row: `Description: ` and the description with line
    /// feeds shown as spaces, on row 6.
    pub fn update_description(&self, text: &str) -> (cells: Vec<CellCmd>)
        requires
            self.width >= 1,
        ensures
            cells@ == field_cells("Description: "@ + text@, description_row(), self.width as int, true),
    {
        let t = labelled_chars("Description: ", text);
        self.field_row(&t, 6, true)
    }

    /// What a key does with button `selected` focused: Escape cancels,
    /// Down and Up move the focus, Enter closes with the focused button's result.
    pub fn step(&self, key: CreatorKey, read_only: bool, selected: usize) -> (r: CreatorStep)
        ensures
            r == match key {
                CreatorKey::Escape => CreatorStep::Close(CreatorResult::Cancel),
                CreatorKey::Down => CreatorStep::Focus(spec_next_button(read_only, selected)),
                CreatorKey::Up => CreatorStep::Focus(spec_prev_button(read_only, selected)),
                CreatorKey::Enter => match spec_result_for_button(selected) {
                    Some(res) => CreatorStep::Close(res),
                    None => CreatorStep::Stay,
                },
                CreatorKey::Other => CreatorStep::Stay,
            },
    {
        match key {
            CreatorKey::Escape => CreatorStep::Close(CreatorResult::Cancel),
            CreatorKey::Down => CreatorStep::Focus(self.next_button(read_only, selected)),
            CreatorKey::Up => CreatorStep::Focus(self.prev_button(read_only, selected)),
            CreatorKey::Enter => match result_for_button(selected) {
                Some(res) => CreatorStep::Close(res),
                None => CreatorStep::Stay,
            },
            CreatorKey::Other => CreatorStep::Stay,
        }
    }
}

} // verus!
