//! A full-screen text input: a text buffer shown in a message box.
use crate::text_buffer::{move_cmds, moved, spec_backspace, spec_cut, spec_delete, spec_insert, CellCmd, Direction, TextBuffer};
use vstd::prelude::*;

verus! {

/// A text input for a screen of `cols` by `rows` cells.
pub struct Input {
    pub g_id: usize,
    pub buffer: TextBuffer,
}

impl Input {
    pub open spec fn ok(&self) -> bool {
        self.buffer.wf() && self.buffer.within_limits()
    }

    /// An empty input with the cursor on the first text cell.
    pub fn new(g_id: usize, cols: usize, rows: usize) -> (i: Input)
        requires
            cols >= 4,
            rows >= 3,
        ensures
            i.g_id == g_id,
            i.buffer.wf(),
            i.buffer.text() == Seq::new(rows as nat, |k: int| Seq::<char>::empty()),
            i.buffer.cursor_position == (2usize, 1usize),
            i.buffer.max_position == ((cols - 2) as usize, (rows - 2) as usize),
    {
        Input { g_id, buffer: TextBuffer::new(cols, rows) }
    }

    /// Tells whether all positions and line lengths are far below the machine limit.
    pub fn fits(&self) -> (b: bool)
        ensures
            b == self.buffer.within_limits(),
    {
        self.buffer.check_limits()
    }

    /// Types `ch` at the cursor, unless the cursor's line is full.
    pub fn insert(&mut self, ch: char) -> (cmds: Vec<CellCmd>)
        requires
            old(self).ok(),
        ensures
            final(self).buffer.wf(),
            final(self).g_id == old(self).g_id,
            final(self).buffer.max_position == old(self).buffer.max_position,
            (final(self).buffer.text(), final(self).buffer.cursor_position, cmds@) == spec_insert(
                old(self).buffer.text(),
                old(self).buffer.cursor_position,
                old(self).buffer.max_position,
                None,
                ch,
            ),
    {
        self.buffer.insert(None, ch)
    }

    pub fn backspace(&mut self) -> (cmds: Vec<CellCmd>)
        requires
            old(self).ok(),
        ensures
            final(self).buffer.wf(),
            final(self).g_id == old(self).g_id,
            final(self).buffer.max_position == old(self).buffer.max_position,
            (final(self).buffer.text(), final(self).buffer.cursor_position, cmds@)
                == spec_backspace(old(self).buffer.text(), old(self).buffer.cursor_position),
    {
        self.buffer.backspace()
    }

    pub fn delete(&mut self) -> (cmds: Vec<CellCmd>)
        requires
            old(self).ok(),
        ensures
            final(self).buffer.wf(),
            final(self).g_id == old(self).g_id,
            final(self).buffer.max_position == old(self).buffer.max_position,
            final(self).buffer.cursor_position == old(self).buffer.cursor_position,
            (final(self).buffer.text(), cmds@) == spec_delete(
                old(self).buffer.text(),
                old(self).buffer.cursor_position,
                old(self).buffer.max_position,
            ),
    {
        self.buffer.delete()
    }

    /// Cuts the cursor's line at the cursor; the cut characters are dropped.
    pub fn remove_chars_from_cursor_to_end(&mut self) -> (cmds: Vec<CellCmd>)
        requires
            old(self).ok(),
        ensures
            final(self).buffer.wf(),
            final(self).g_id == old(self).g_id,
            final(self).buffer.max_position == old(self).buffer.max_position,
            final(self).buffer.cursor_position == old(self).buffer.cursor_position,
            final(self).buffer.text() == spec_cut(old(self).buffer.text(), old(self).buffer.cursor_position).0,
            cmds@ == spec_cut(old(self).buffer.text(), old(self).buffer.cursor_position).1,
    {
        let (_cut, cmds) = self.buffer.cut_to_end();
        cmds
    }

    pub fn move_to_line_start(&mut self) -> (cmds: Vec<CellCmd>)
        requires
            old(self).buffer.wf(),
        ensures
            final(self).buffer.wf(),
            final(self).g_id == old(self).g_id,
            final(self).buffer.lines == old(self).buffer.lines,
            final(self).buffer.max_position == old(self).buffer.max_position,
            final(self).buffer.cursor_position == (2usize, old(self).buffer.cursor_position.1),
            cmds@ == move_cmds(old(self).buffer.cursor_position, final(self).buffer.cursor_position),
    {
        self.buffer.move_to_line_start()
    }

    pub fn move_to_line_end(&mut self) -> (cmds: Vec<CellCmd>)
        requires
            old(self).ok(),
        ensures
            final(self).buffer.wf(),
            final(self).g_id == old(self).g_id,
            final(self).buffer.lines == old(self).buffer.lines,
            final(self).buffer.max_position == old(self).buffer.max_position,
            final(self).buffer.cursor_position == (
                (old(self).buffer.text()[old(self).buffer.cursor_position.1 as int].len() + 2) as usize,
                old(self).buffer.cursor_position.1,
            ),
            cmds@ == move_cmds(old(self).buffer.cursor_position, final(self).buffer.cursor_position),
    {
        self.buffer.move_to_line_end()
    }

    pub fn move_cursor(&mut self, direction: Direction) -> (cmds: Vec<CellCmd>)
        requires
            old(self).ok(),
        ensures
            final(self).buffer.wf(),
            final(self).g_id == old(self).g_id,
            final(self).buffer.lines == old(self).buffer.lines,
            final(self).buffer.max_position == old(self).buffer.max_position,
            final(self).buffer.cursor_position == moved(
                old(self).buffer.cursor_position,
                old(self).buffer.max_position,
                direction,
            ),
            cmds@ == move_cmds(old(self).buffer.cursor_position, final(self).buffer.cursor_position),
    {
        self.buffer.move_cursor(direction)
    }
}

} // verus!
