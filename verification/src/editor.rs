//! The full-screen text editor: its modes, collecting and loading its text,
//! and what every key does.
use crate::chars::{
    chars_of, char_utf8_len, first_newline, lemma_first_newline, lemma_utf8_size_prefix, spec_lines,
    split_lines, string_of, strip_cr, utf8_len, utf8_size,
};
use crate::keys::{key_of_char, private_key, KeyCode};
use crate::text_buffer::{
    blank_cmds, cell, char_cell, lemma_shift_empty, lemma_shift_push, move_cmds, moved, shift_cmds,
    small, spec_backspace, spec_cut, spec_delete, spec_insert, CellCmd, Direction, Paint,
    TextBuffer,
};
use vstd::prelude::*;

verus! {

/// A cut line as the editor hands it out: a line feed is added to a
/// non-empty cut that does not already end in one, when newlines are allowed.
pub open spec fn with_newline(old: Seq<char>, allow_newlines: bool) -> Seq<char> {
    if allow_newlines && old.len() > 0 && old.last() != '\n' {
        old.push('\n')
    } else {
        old
    }
}

/// The text of rows `1..=r` collected as `take_text` collects it.
pub open spec fn collected(lines: Seq<Seq<char>>, allow_newlines: bool, r: int) -> Seq<char>
    decreases r,
{
    if r <= 0 {
        seq![]
    } else {
        collected(lines, allow_newlines, r - 1) + with_newline(lines[r], allow_newlines)
    }
}

/// The repaints of clearing rows `1..=r`.
pub open spec fn clear_cmds(lines: Seq<Seq<char>>, r: int) -> Seq<CellCmd>
    decreases r,
{
    if r <= 0 {
        seq![]
    } else {
        clear_cmds(lines, r - 1) + seq![cell(2, r, Paint::BlankCursor)] + blank_cmds(
            lines[r].len(),
            2,
            r,
        ) + seq![char_cell(2, r, ' ')]
    }
}

/// The text with characters dropped from its end until its UTF-8 size is
/// within `limit`.
pub open spec fn truncate_to(s: Seq<char>, limit: nat) -> Seq<char>
    decreases s.len(),
{
    if utf8_size(s) <= limit || s.len() == 0 {
        s
    } else {
        truncate_to(s.drop_last(), limit)
    }
}

/// The lines after `take_text`: every text row emptied, the frame rows kept.
pub open spec fn emptied(lines: Seq<Seq<char>>) -> Seq<Seq<char>> {
    Seq::new(
        lines.len(),
        |i: int|
            if 1 <= i < lines.len() - 1 {
                Seq::<char>::empty()
            } else {
                lines[i]
            },
    )
}

/// Repaints of a line longer than the editor's width, wrapped over several
/// rows starting at row `y`.
pub open spec fn wrap_cmds(t: Seq<char>, y: int, mx: int) -> Seq<CellCmd> {
    Seq::new(t.len(), |i: int| char_cell(2 + i % (mx - 1), y + i / (mx - 1), t[i]))
}

/// One line of loaded text: a line shorter than the width is drawn and
/// stored on row `y`; a longer one is only drawn, wrapped.
pub open spec fn set_text_step(
    st: (Seq<Seq<char>>, Seq<CellCmd>, int),
    t: Seq<char>,
    mx: int,
) -> (Seq<Seq<char>>, Seq<CellCmd>, int) {
    let (lines, cmds, y) = st;
    if t.len() < mx - 2 {
        (
            if t.len() > 0 { lines.update(y, lines[y] + t) } else { lines },
            cmds + shift_cmds(t, 2, y),
            y + 1,
        )
    } else {
        (lines, cmds + wrap_cmds(t, y, mx), y + (t.len() as int) / (mx - 1) + 1)
    }
}

/// The state after loading the first `j` lines of text.
pub open spec fn set_text_state(lines: Seq<Seq<char>>, mx: int, ts: Seq<Seq<char>>, j: int) -> (
    Seq<Seq<char>>,
    Seq<CellCmd>,
    int,
)
    decreases j,
{
    if j <= 0 {
        (lines, seq![], 1)
    } else {
        set_text_step(set_text_state(lines, mx, ts, j - 1), ts[j - 1], mx)
    }
}

/// Every stored line of the first `j` lines of text lands on an existing row.
pub open spec fn set_text_fits(lines: Seq<Seq<char>>, mx: int, ts: Seq<Seq<char>>, j: int) -> bool
    decreases j,
{
    j <= 0 || (set_text_fits(lines, mx, ts, j - 1) && (0 < ts[j - 1].len() < mx - 2 ==> set_text_state(
        lines,
        mx,
        ts,
        j - 1,
    ).2 < lines.len()))
}

/// The character of the title row at offset `i`: the title, then a line.
pub open spec fn title_char(title: Seq<char>, i: int) -> char {
    if i < title.len() {
        title[i]
    } else {
        '─'
    }
}

/// The title row: the title's characters from column 1, then a line.
pub open spec fn title_cmds(title: Seq<char>, mx: int) -> Seq<CellCmd> {
    Seq::new(
        if mx > 1 { (mx - 1) as nat } else { 0 },
        |i: int| char_cell(i + 1, 0, title_char(title, i)),
    )
}

/// What one key press asks the editor to do.
#[derive(Clone, Copy, Debug, PartialEq, Eq, Structural)]
pub enum EditorKey {
    Move(Direction),
    /// Four steps left or right.
    Jump(Direction),
    LineStart,
    LineEnd,
    Delete,
    Backspace,
    CutToEnd,
    EnableEditing,
    Finish,
    Insert(char),
    Ignore,
}

/// What a key press means, given the decoded key (if the character encodes
/// one) and the editor's modes.
pub open spec fn spec_decide(
    ch: char,
    key: Option<KeyCode>,
    allow_newlines: bool,
    read_only: bool,
    can_edit: bool,
) -> EditorKey {
    match key {
        Some(k) => match k {
            KeyCode::Up => if allow_newlines {
                EditorKey::Move(Direction::Up)
            } else {
                EditorKey::Ignore
            },
            KeyCode::Down => if allow_newlines {
                EditorKey::Move(Direction::Down)
            } else {
                EditorKey::Ignore
            },
            KeyCode::Left => EditorKey::Move(Direction::Left),
            KeyCode::Right => EditorKey::Move(Direction::Right),
            KeyCode::Home => EditorKey::LineStart,
            KeyCode::End => EditorKey::LineEnd,
            KeyCode::Delete => if read_only {
                EditorKey::Ignore
            } else {
                EditorKey::Delete
            },
            KeyCode::F8 => if read_only && can_edit {
                EditorKey::EnableEditing
            } else {
                EditorKey::Ignore
            },
            KeyCode::AltB => EditorKey::Jump(Direction::Left),
            KeyCode::AltF => EditorKey::Jump(Direction::Right),
            _ => EditorKey::Ignore,
        },
        None => {
            if ch == '\t' {
                EditorKey::Finish
            } else if ch == '\u{7f}' {
                if read_only {
                    EditorKey::Ignore
                } else {
                    EditorKey::Backspace
                }
            } else if ch == '\u{1}' {
                EditorKey::LineStart
            } else if ch == '\u{5}' {
                EditorKey::LineEnd
            } else if ch == '\u{b}' {
                if read_only {
                    EditorKey::Ignore
                } else {
                    EditorKey::CutToEnd
                }
            } else if ch == '\u{e}' {
                if allow_newlines {
                    EditorKey::Move(Direction::Down)
                } else {
                    EditorKey::Ignore
                }
            } else if ch == '\u{10}' {
                if allow_newlines {
                    EditorKey::Move(Direction::Up)
                } else {
                    EditorKey::Ignore
                }
            } else if ch == '\u{2}' {
                EditorKey::Move(Direction::Left)
            } else if ch == '\u{6}' {
                EditorKey::Move(Direction::Right)
            } else if ch == '\n' && !allow_newlines {
                EditorKey::Ignore
            } else if !read_only {
                EditorKey::Insert(ch)
            } else {
                EditorKey::Ignore
            }
        },
    }
}

/// The cursor after `n` steps in `dir`.
pub open spec fn moved_n(c: (usize, usize), max: (usize, usize), dir: Direction, n: nat) -> (
    usize,
    usize,
)
    decreases n,
{
    if n == 0 {
        c
    } else {
        moved(moved_n(c, max, dir, (n - 1) as nat), max, dir)
    }
}

/// The repaints of `n` steps in `dir`.
pub open spec fn moved_n_cmds(c: (usize, usize), max: (usize, usize), dir: Direction, n: nat) -> Seq<
    CellCmd,
>
    decreases n,
{
    if n == 0 {
        seq![]
    } else {
        moved_n_cmds(c, max, dir, (n - 1) as nat) + move_cmds(
            moved_n(c, max, dir, (n - 1) as nat),
            moved_n(c, max, dir, n),
        )
    }
}

/// What `take_text` hands out for an editor in state `e`.
pub open spec fn taken_text(e: Editor) -> Seq<char> {
    let all = collected(e.buffer.text(), e.allow_newlines, e.buffer.max_position.1 as int);
    match e.byte_limit {
        Some(l) => truncate_to(all, l as nat),
        None => all,
    }
}

/// Everything but the text area is the same in `a` and `b`.
pub open spec fn settings_kept(a: Editor, b: Editor) -> bool {
    &&& b.g_id == a.g_id
    &&& b.display_id == a.display_id
    &&& b.allow_newlines == a.allow_newlines
    &&& b.read_only == a.read_only
    &&& b.can_edit == a.can_edit
    &&& b.byte_limit == a.byte_limit
    &&& b.buffer.max_position == a.buffer.max_position
}

/// The editor went from `a` to `b` on key `k`, answering `step` and repainting `cmds`.
pub open spec fn applied(a: Editor, b: Editor, k: EditorKey, step: EditorStep, cmds: Seq<CellCmd>) -> bool {
    let t = a.buffer.text();
    let c = a.buffer.cursor_position;
    let max = a.buffer.max_position;
    &&& b.wf()
    &&& match k {
        EditorKey::EnableEditing => {
            &&& !b.read_only
            &&& b.g_id == a.g_id
            &&& b.display_id == a.display_id
            &&& b.allow_newlines == a.allow_newlines
            &&& b.can_edit == a.can_edit
            &&& b.byte_limit == a.byte_limit
            &&& b.buffer.max_position == max
        },
        _ => settings_kept(a, b),
    }
    &&& match k {
        EditorKey::Finish => step matches EditorStep::Finish(r) && (if a.read_only {
            r is None
        } else {
            r matches Some(s) && s@ == taken_text(a)
        }),
        _ => step is Continue,
    }
    &&& match k {
        EditorKey::Move(d) => {
            &&& b.buffer.text() == t
            &&& b.buffer.cursor_position == moved(c, max, d)
            &&& cmds == move_cmds(c, moved(c, max, d))
        },
        EditorKey::Jump(d) => {
            &&& b.buffer.text() == t
            &&& b.buffer.cursor_position == moved_n(c, max, d, 4)
            &&& cmds == moved_n_cmds(c, max, d, 4)
        },
        EditorKey::LineStart => {
            &&& b.buffer.text() == t
            &&& b.buffer.cursor_position == (2usize, c.1)
            &&& cmds == move_cmds(c, (2usize, c.1))
        },
        EditorKey::LineEnd => {
            &&& b.buffer.text() == t
            &&& b.buffer.cursor_position == ((t[c.1 as int].len() + 2) as usize, c.1)
            &&& cmds == move_cmds(c, ((t[c.1 as int].len() + 2) as usize, c.1))
        },
        EditorKey::Delete => {
            &&& b.buffer.cursor_position == c
            &&& (b.buffer.text(), cmds) == spec_delete(t, c, max)
        },
        EditorKey::Backspace => (b.buffer.text(), b.buffer.cursor_position, cmds) == spec_backspace(
            t,
            c,
        ),
        EditorKey::CutToEnd => {
            &&& b.buffer.cursor_position == c
            &&& b.buffer.text() == spec_cut(t, c).0
            &&& cmds == spec_cut(t, c).1
        },
        EditorKey::EnableEditing => {
            &&& b.buffer.text() == t
            &&& b.buffer.cursor_position == c
            &&& cmds.len() == 0
        },
        EditorKey::Finish => {
            &&& b.buffer.text() == emptied(t)
            &&& b.buffer.cursor_position == (2usize, 1usize)
            &&& cmds == clear_cmds(t, max.1 as int) + seq![cell(2, 1, Paint::BlankCursor)]
        },
        EditorKey::Insert(ch) => (b.buffer.text(), b.buffer.cursor_position, cmds) == spec_insert(
            t,
            c,
            max,
            a.byte_limit,
            ch,
        ),
        EditorKey::Ignore => {
            &&& b.buffer.text() == t
            &&& b.buffer.cursor_position == c
            &&& cmds.len() == 0
        },
    }
}

/// What a key press means: the decision of `spec_decide`, computed from the
/// key decoded from `ch` (if any).
pub fn decide_key(
    ch: char,
    key: Option<KeyCode>,
    allow_newlines: bool,
    read_only: bool,
    can_edit: bool,
) -> (k: EditorKey)
    ensures
        k == spec_decide(ch, key, allow_newlines, read_only, can_edit),
{
    match key {
        Some(code) => match code {
            KeyCode::Up => if allow_newlines {
                EditorKey::Move(Direction::Up)
            } else {
                EditorKey::Ignore
            },
            KeyCode::Down => if allow_newlines {
                EditorKey::Move(Direction::Down)
            } else {
                EditorKey::Ignore
            },
            KeyCode::Left => EditorKey::Move(Direction::Left),
            KeyCode::Right => EditorKey::Move(Direction::Right),
            KeyCode::Home => EditorKey::LineStart,
            KeyCode::End => EditorKey::LineEnd,
            KeyCode::Delete => if read_only {
                EditorKey::Ignore
            } else {
                EditorKey::Delete
            },
            KeyCode::F8 => if read_only && can_edit {
                EditorKey::EnableEditing
            } else {
                EditorKey::Ignore
            },
            KeyCode::AltB => EditorKey::Jump(Direction::Left),
            KeyCode::AltF => EditorKey::Jump(Direction::Right),
            _ => EditorKey::Ignore,
        },
        None => {
            if ch == '\t' {
                EditorKey::Finish
            } else if ch == '\u{7f}' {
                if read_only {
                    EditorKey::Ignore
                } else {
                    EditorKey::Backspace
                }
            } else if ch == '\u{1}' {
                EditorKey::LineStart
            } else if ch == '\u{5}' {
                EditorKey::LineEnd
            } else if ch == '\u{b}' {
                if read_only {
                    EditorKey::Ignore
                } else {
                    EditorKey::CutToEnd
                }
            } else if ch == '\u{e}' {
                if allow_newlines {
                    EditorKey::Move(Direction::Down)
                } else {
                    EditorKey::Ignore
                }
            } else if ch == '\u{10}' {
                if allow_newlines {
                    EditorKey::Move(Direction::Up)
                } else {
                    EditorKey::Ignore
                }
            } else if ch == '\u{2}' {
                EditorKey::Move(Direction::Left)
            } else if ch == '\u{6}' {
                EditorKey::Move(Direction::Right)
            } else if ch == '\n' && !allow_newlines {
                EditorKey::Ignore
            } else if !read_only {
                EditorKey::Insert(ch)
            } else {
                EditorKey::Ignore
            }
        },
    }
}

/// Whether a key press ended editing, and with which text (`None` when the
/// editor was read-only).
#[derive(Debug)]
pub enum EditorStep {
    Continue,
    Finish(Option<String>),
}

/// How to open the editor: title, initial text, whether line feeds may be
/// typed, the characters allowed (all when none), the text's byte limit,
/// and whether the text is only shown.
#[derive(Debug)]
pub struct EditorParams {
    pub title: String,
    pub initial_text: Option<String>,
    pub allow_newlines: bool,
    pub chars_limit: Option<Vec<char>>,
    pub text_limit: Option<u16>,
    pub read_only: bool,
}

/// The editor: a screen-sized text buffer plus its modes. A read-only editor
/// can be switched to editing with F8 when `can_edit` is set.
pub struct Editor {
    pub g_id: usize,
    pub display_id: usize,
    pub buffer: TextBuffer,
    pub allow_newlines: bool,
    pub read_only: bool,
    pub can_edit: bool,
    pub byte_limit: Option<u16>,
}

impl Editor {
    pub open spec fn wf(&self) -> bool {
        self.buffer.wf()
    }

    pub open spec fn ok(&self) -> bool {
        self.buffer.wf() && self.buffer.within_limits()
    }

    /// A new editor for a screen of `cols` by `rows` cells: empty, cursor on
    /// the first text cell, newlines allowed, editable, no byte limit.
    pub fn new(g_id: usize, display_id: usize, cols: usize, rows: usize) -> (e: Editor)
        requires
            cols >= 4,
            rows >= 3,
        ensures
            e.wf(),
            e.g_id == g_id,
            e.display_id == display_id,
            e.buffer.text() == Seq::new(rows as nat, |i: int| Seq::<char>::empty()),
            e.buffer.cursor_position == (2usize, 1usize),
            e.buffer.max_position == ((cols - 2) as usize, (rows - 2) as usize),
            e.allow_newlines,
            !e.read_only,
            e.can_edit,
            e.byte_limit is None,
    {
        Editor {
            g_id,
            display_id,
            buffer: TextBuffer::new(cols, rows),
            allow_newlines: true,
            read_only: false,
            can_edit: true,
            byte_limit: None,
        }
    }

    pub fn allow_newlines(&mut self, allow: bool)
        ensures
            final(self).allow_newlines == allow,
            final(self).buffer == old(self).buffer,
            final(self).read_only == old(self).read_only,
            final(self).can_edit == old(self).can_edit,
            final(self).byte_limit == old(self).byte_limit,
    {
        self.allow_newlines = allow;
    }

    pub fn set_limit(&mut self, limit: Option<u16>)
        ensures
            final(self).byte_limit == limit,
            final(self).buffer == old(self).buffer,
            final(self).read_only == old(self).read_only,
            final(self).can_edit == old(self).can_edit,
            final(self).allow_newlines == old(self).allow_newlines,
    {
        self.byte_limit = limit;
    }

    pub fn set_mode(&mut self, mode: (bool, bool))
        ensures
            final(self).read_only == mode.0,
            final(self).can_edit == mode.1,
            final(self).buffer == old(self).buffer,
            final(self).allow_newlines == old(self).allow_newlines,
            final(self).byte_limit == old(self).byte_limit,
    {
        self.read_only = mode.0;
        self.can_edit = mode.1;
    }

    /// Types `ch` at the cursor, within the byte limit and the line width.
    pub fn insert(&mut self, ch: char) -> (cmds: Vec<CellCmd>)
        requires
            old(self).ok(),
        ensures
            final(self).ok(),
            settings_kept(*old(self), *final(self)),
            final(self).buffer.max_position == old(self).buffer.max_position,
            (final(self).buffer.text(), final(self).buffer.cursor_position, cmds@) == spec_insert(
                old(self).buffer.text(),
                old(self).buffer.cursor_position,
                old(self).buffer.max_position,
                old(self).byte_limit,
                ch,
            ),
    {
        self.buffer.insert(self.byte_limit, ch)
    }

    pub fn backspace(&mut self) -> (cmds: Vec<CellCmd>)
        requires
            old(self).ok(),
        ensures
            final(self).wf(),
            settings_kept(*old(self), *final(self)),
            final(self).buffer.max_position == old(self).buffer.max_position,
            (final(self).buffer.text(), final(self).buffer.cursor_position, cmds@)
                == spec_backspace(old(self).buffer.text(), old(self).buffer.cursor_position),
    {
        self.buffer.backspace()
    }

    pub fn delete(&mut self) -> (cmds: Vec<CellCmd>)
        requires
            old(self).ok(),
        ensures
            final(self).ok(),
            final(self).wf(),
            settings_kept(*old(self), *final(self)),
            final(self).buffer.max_position == old(self).buffer.max_position,
            final(self).buffer.cursor_position == old(self).buffer.cursor_position,
            (final(self).buffer.text(), cmds@) == spec_delete(
                old(self).buffer.text(),
                old(self).buffer.cursor_position,
                old(self).buffer.max_position,
            ),
    {
        self.buffer.delete()
    }

    /// Cuts the cursor's line at the cursor and returns the cut characters,
    /// with a line feed added as `with_newline` says.
    pub fn remove_chars_from_cursor_to_end(&mut self) -> (r: (String, Vec<CellCmd>))
        requires
            old(self).ok(),
        ensures
            final(self).ok(),
            final(self).wf(),
            settings_kept(*old(self), *final(self)),
            final(self).buffer.max_position == old(self).buffer.max_position,
            final(self).buffer.cursor_position == old(self).buffer.cursor_position,
            ({
                let sp = spec_cut(old(self).buffer.text(), old(self).buffer.cursor_position);
                &&& final(self).buffer.text() == sp.0
                &&& r.1@ == sp.1
                &&& r.0@ == with_newline(sp.2, old(self).allow_newlines)
            }),
    {
        let (mut old_part, cmds) = self.buffer.cut_to_end();
        if self.allow_newlines && old_part.len() > 0 && old_part[old_part.len() - 1] != '\n' {
            old_part.push('\n');
        }
        (string_of(&old_part), cmds)
    }

    pub fn move_to_line_start(&mut self) -> (cmds: Vec<CellCmd>)
        requires
            old(self).wf(),
        ensures
            final(self).wf(),
            settings_kept(*old(self), *final(self)),
            final(self).buffer.lines == old(self).buffer.lines,
            final(self).buffer.max_position == old(self).buffer.max_position,
            final(self).buffer.cursor_position == (2usize, old(self).buffer.cursor_position.1),
            cmds@ == move_cmds(old(self).buffer.cursor_position, final(self).buffer.cursor_position),
    {
        self.buffer.move_to_line_start()
    }

    pub fn move_to_line_end(&mut self) -> (cmds: Vec<CellCmd>)
        requires
            old(self).ok(),
        ensures
            final(self).wf(),
            settings_kept(*old(self), *final(self)),
            final(self).buffer.lines == old(self).buffer.lines,
            final(self).buffer.max_position == old(self).buffer.max_position,
            final(self).buffer.cursor_position == (
                (old(self).buffer.text()[old(self).buffer.cursor_position.1 as int].len()
                    + 2) as usize,
                old(self).buffer.cursor_position.1,
            ),
            cmds@ == move_cmds(old(self).buffer.cursor_position, final(self).buffer.cursor_position),
    {
        self.buffer.move_to_line_end()
    }

    pub fn move_cursor(&mut self, direction: Direction) -> (cmds: Vec<CellCmd>)
        requires
            old(self).ok(),
        ensures
            final(self).ok(),
            final(self).wf(),
            settings_kept(*old(self), *final(self)),
            final(self).buffer.lines == old(self).buffer.lines,
            final(self).buffer.max_position == old(self).buffer.max_position,
            final(self).buffer.cursor_position == moved(
                old(self).buffer.cursor_position,
                old(self).buffer.max_position,
                direction,
            ),
            cmds@ == move_cmds(old(self).buffer.cursor_position, final(self).buffer.cursor_position),
    {
        self.buffer.move_cursor(direction)
    }

    /// The title row's repaints.
    pub fn set_title(&self, title: &str) -> (cmds: Vec<CellCmd>)
        requires
            self.wf(),
        ensures
            cmds@ == title_cmds(title@, self.buffer.max_position.0 as int),
    {
        let t = chars_of(title);
        let mx = self.buffer.max_position.0;
        let mut cmds: Vec<CellCmd> = Vec::new();
        let mut i: usize = 1;
        while i < mx
            invariant
                1 <= i <= mx,
                t@ == title@,
                mx == self.buffer.max_position.0,
                mx >= 2,
                cmds@ == title_cmds(title@, mx as int).subrange(0, i - 1),
            decreases mx - i,
        {
            let c = if i - 1 < t.len() {
                t[i - 1]
            } else {
                '─'
            };
            cmds.push(CellCmd { x: i, y: 0, paint: Paint::Char(c) });
            proof {
                assert(c == title_char(title@, i - 1));
                assert(title_cmds(title@, mx as int)[i - 1] == char_cell(i as int, 0, c));
                assert(cmds@ =~= title_cmds(title@, mx as int).subrange(0, i as int));
            }
            i = i + 1;
        }
        proof {
            assert(cmds@ =~= title_cmds(title@, mx as int));
        }
        cmds
    }

    /// Collects the text of all rows into one string, emptying the rows; the
    /// result is cut to the byte limit. The cursor returns to the first cell.
    pub fn take_text(&mut self) -> (r: (String, Vec<CellCmd>))
        requires
            old(self).ok(),
        ensures
            final(self).ok(),
            final(self).wf(),
            settings_kept(*old(self), *final(self)),
            final(self).buffer.max_position == old(self).buffer.max_position,
            final(self).buffer.cursor_position == (2usize, 1usize),
            final(self).buffer.text() == emptied(old(self).buffer.text()),
            r.0@ == match old(self).byte_limit {
                Some(l) => truncate_to(
                    collected(
                        old(self).buffer.text(),
                        old(self).allow_newlines,
                        old(self).buffer.max_position.1 as int,
                    ),
                    l as nat,
                ),
                None => collected(
                    old(self).buffer.text(),
                    old(self).allow_newlines,
                    old(self).buffer.max_position.1 as int,
                ),
            },
            r.1@ == clear_cmds(old(self).buffer.text(), old(self).buffer.max_position.1 as int)
                + seq![cell(2, 1, Paint::BlankCursor)],
    {
        let ghost old_text = self.buffer.text();
        let my = self.buffer.max_position.1;
        let mut result: Vec<char> = Vec::new();
        let mut cmds: Vec<CellCmd> = Vec::new();
        let mut row: usize = 1;
        while row <= my
            invariant
                1 <= row <= my + 1,
                my == self.buffer.max_position.1,
                my == old(self).buffer.max_position.1,
                self.buffer.max_position == old(self).buffer.max_position,
                self.buffer.wf(),
                self.buffer.within_limits(),
                settings_kept(*old(self), *self),
                old_text.len() == my + 2,
                self.buffer.text().len() == my + 2,
                forall|i: int|
                    0 <= i < my + 2 ==> #[trigger] self.buffer.text()[i] == if 1 <= i < row {
                        Seq::<char>::empty()
                    } else {
                        old_text[i]
                    },
                result@ == collected(old_text, self.allow_newlines, row - 1),
                cmds@ == clear_cmds(old_text, row - 1),
            decreases my + 1 - row,
        {
            self.buffer.cursor_position = (2, row);
            let (mut taken, cut) = self.buffer.cut_to_end();
            if self.allow_newlines && taken.len() > 0 && taken[taken.len() - 1] != '\n' {
                taken.push('\n');
            }
            let ghost before = result@;
            let mut j: usize = 0;
            while j < taken.len()
                invariant
                    j <= taken.len(),
                    result@ == before + taken@.subrange(0, j as int),
                decreases taken.len() - j,
            {
                result.push(taken[j]);
                j = j + 1;
                proof {
                    assert(result@ =~= before + taken@.subrange(0, j as int));
                }
            }
            let ghost cmds_before = cmds@;
            let mut k: usize = 0;
            while k < cut.len()
                invariant
                    k <= cut.len(),
                    cmds@ == cmds_before + cut@.subrange(0, k as int),
                decreases cut.len() - k,
            {
                cmds.push(cut[k]);
                k = k + 1;
                proof {
                    assert(cmds@ =~= cmds_before + cut@.subrange(0, k as int));
                }
            }
            cmds.push(CellCmd { x: 2, y: row, paint: Paint::Char(' ') });
            proof {
                assert(taken@.subrange(0, taken.len() as int) =~= taken@);
                assert(cut@.subrange(0, cut.len() as int) =~= cut@);
                assert(result@ =~= collected(old_text, self.allow_newlines, row as int));
                assert(cmds@ =~= clear_cmds(old_text, row as int));
            }
            row = row + 1;
        }
        self.buffer.cursor_position = (2, 1);
        cmds.push(CellCmd { x: 2, y: 1, paint: Paint::BlankCursor });
        proof {
            assert(self.buffer.text() =~= emptied(old_text));
        }
        let text = match self.byte_limit {
            Some(l) => truncate_bytes(&result, l),
            None => result,
        };
        (string_of(&text), cmds)
    }

    /// Loads `text` into the editor, line by line from the first text row:
    /// lines shorter than the width are appended to their row and drawn,
    /// longer lines are drawn wrapped but not stored.
    pub fn set_text(&mut self, text: &str) -> (cmds: Vec<CellCmd>)
        requires
            old(self).ok(),
            small(text@.len() as int + 2),
            set_text_fits(
                old(self).buffer.text(),
                old(self).buffer.max_position.0 as int,
                spec_lines(text@),
                spec_lines(text@).len() as int,
            ),
        ensures
            final(self).wf(),
            settings_kept(*old(self), *final(self)),
            final(self).buffer.max_position == old(self).buffer.max_position,
            final(self).buffer.cursor_position == old(self).buffer.cursor_position,
            ({
                let st = set_text_state(
                    old(self).buffer.text(),
                    old(self).buffer.max_position.0 as int,
                    spec_lines(text@),
                    spec_lines(text@).len() as int,
                );
                final(self).buffer.text() == st.0 && cmds@ == st.1
            }),
    {
        let ghost old_text = self.buffer.text();
        let chars = chars_of(text);
        let ts = split_lines(&chars);
        let ghost tss = spec_lines(text@);
        let mx = self.buffer.max_position.0;
        let mut cmds: Vec<CellCmd> = Vec::new();
        let mut y: usize = 1;
        let mut j: usize = 0;
        proof {
            lemma_lines_small(text@);
        }
        while j < ts.len()
            invariant
                j <= ts.len(),
                tss == spec_lines(text@),
                ts@.map_values(|l: Vec<char>| l@) == tss,
                ts.len() == tss.len(),
                mx == self.buffer.max_position.0,
                mx >= 2,
                small(mx as int),
                self.buffer.max_position == old(self).buffer.max_position,
                self.buffer.cursor_position == old(self).buffer.cursor_position,
                self.buffer.lines.len() == old(self).buffer.lines.len(),
                settings_kept(*old(self), *self),
                set_text_fits(old_text, mx as int, tss, tss.len() as int),
                y <= 1 + j + sum_lens(tss, j as int),
                tss.len() + sum_lens(tss, tss.len() as int) <= text@.len() + 1,
                small(text@.len() as int + 2),
                old_text.len() == self.buffer.lines.len(),
                set_text_state(old_text, mx as int, tss, j as int) == (
                    self.buffer.text(),
                    cmds@,
                    y as int,
                ),
            decreases ts.len() - j,
        {
            proof {
                lemma_fits_prefix(old_text, mx as int, tss, j + 1, tss.len() as int);
                lemma_sum_lens_mono(tss, j + 1, tss.len() as int);
                assert(ts@[j as int]@ == tss[j as int]);
                assert(sum_lens(tss, j + 1) == sum_lens(tss, j as int) + tss[j as int].len());
            }
            let t = &ts[j];
            let ll = t.len();
            let ghost st = (self.buffer.text(), cmds@, y as int);
            if ll < mx - 2 {
                let mut x: usize = 2;
                let mut i: usize = 0;
                let ghost cmds0 = cmds@;
                if ll > 0 {
                    proof {
                        assert(0 < tss[j as int].len() < mx - 2);
                        assert(y < old_text.len());
                        assert(y < self.buffer.lines.len());
                    }
                    let mut line = copy_line(&self.buffer.lines[y]);
                    let ghost line0 = line@;
                    while i < ll
                        invariant
                            i <= ll,
                            ll == t.len(),
                            x == 2 + i,
                            small(ll as int),
                            small(y as int),
                            line@ == line0 + t@.subrange(0, i as int),
                            cmds@ == cmds0 + shift_cmds(t@.subrange(0, i as int), 2, y as int),
                        decreases ll - i,
                    {
                        let c = t[i];
                        proof {
                            assert(t@.subrange(0, i + 1) =~= t@.subrange(0, i as int).push(c));
                            lemma_shift_push(t@.subrange(0, i as int), 2, y as int, c);
                        }
                        line.push(c);
                        cmds.push(CellCmd { x, y, paint: Paint::Char(c) });
                        x = x + 1;
                        i = i + 1;
                        proof {
                            assert(line@ =~= line0 + t@.subrange(0, i as int));
                            assert(cmds@ =~= cmds0 + shift_cmds(t@.subrange(0, i as int), 2, y as int));
                        }
                    }
                    self.set_row(y, line);
                } else {
                    proof {
                        lemma_shift_empty(t@, 2, y as int);
                        assert(cmds@ =~= cmds0 + shift_cmds(t@, 2, y as int));
                    }
                }
                proof {
                    assert(t@.subrange(0, ll as int) =~= t@);
                }
                y = y + 1;
            } else {
                let m = mx - 1;
                let mut x: usize = 2;
                let mut row: usize = 0;
                let mut i: usize = 0;
                let ghost cmds0 = cmds@;
                while i < ll
                    invariant
                        i <= ll,
                        ll == t.len(),
                        m == mx - 1,
                        m >= 1,
                        small(m as int),
                        small(ll as int),
                        small(y as int + ll as int),
                        2 <= x <= mx,
                        x - 2 < m,
                        i == row * m + (x - 2),
                        row <= i,
                        cmds@ == cmds0 + wrap_cmds(t@.subrange(0, i as int), y as int, mx as int),
                    decreases ll - i,
                {
                    let c = t[i];
                    proof {
                        vstd::arithmetic::div_mod::lemma_fundamental_div_mod_converse(
                            i as int,
                            m as int,
                            row as int,
                            x - 2,
                        );
                    }
                    cmds.push(CellCmd { x, y: y + row, paint: Paint::Char(c) });
                    proof {
                        let w0 = wrap_cmds(t@.subrange(0, i as int), y as int, mx as int);
                        let w1 = wrap_cmds(t@.subrange(0, i + 1), y as int, mx as int);
                        assert forall|k: int| 0 <= k < i implies w1[k] == w0[k] by {
                            assert(t@.subrange(0, i + 1)[k] == t@.subrange(0, i as int)[k]);
                        }
                        assert(w1[i as int] == char_cell(2 + (i as int) % (m as int), y + (i as int) / (m as int), c));
                        assert(w1 =~= w0.push(char_cell(2 + (i as int) % (m as int), y + (i as int) / (m as int), c)));
                        assert(cmds@ =~= cmds0 + w1);
                    }
                    x = x + 1;
                    if x > mx {
                        x = 2;
                        proof {
                            assert(row * m + m == (row + 1) * m) by (nonlinear_arith);
                        }
                        row = row + 1;
                    }
                    i = i + 1;
                }
                proof {
                    vstd::arithmetic::div_mod::lemma_fundamental_div_mod_converse(
                        ll as int,
                        m as int,
                        row as int,
                        x - 2,
                    );
                    assert(t@.subrange(0, ll as int) =~= t@);
                }
                y = y + row + 1;
            }
            j = j + 1;
            proof {
                assert(set_text_state(old_text, mx as int, tss, j as int) == set_text_step(
                    st,
                    tss[j - 1],
                    mx as int,
                ));
            }
        }
        cmds
    }

    /// Tells whether all positions and line lengths are far below the machine limit.
    pub fn fits(&self) -> (b: bool)
        ensures
            b == self.buffer.within_limits(),
    {
        self.buffer.check_limits()
    }

    /// What pressing `ch` means for this editor.
    pub fn decide(&self, ch: char) -> (k: EditorKey)
        ensures
            k == spec_decide(ch, private_key(ch), self.allow_newlines, self.read_only, self.can_edit),
    {
        let key = key_of_char(ch);
        decide_key(ch, key, self.allow_newlines, self.read_only, self.can_edit)
    }

    /// Four steps in `dir`.
    fn jump(&mut self, dir: Direction) -> (cmds: Vec<CellCmd>)
        requires
            old(self).ok(),
        ensures
            final(self).ok(),
            final(self).wf(),
            settings_kept(*old(self), *final(self)),
            final(self).buffer.lines == old(self).buffer.lines,
            final(self).buffer.cursor_position == moved_n(
                old(self).buffer.cursor_position,
                old(self).buffer.max_position,
                dir,
                4,
            ),
            cmds@ == moved_n_cmds(
                old(self).buffer.cursor_position,
                old(self).buffer.max_position,
                dir,
                4,
            ),
    {
        let ghost c0 = self.buffer.cursor_position;
        let ghost max = self.buffer.max_position;
        let mut cmds: Vec<CellCmd> = Vec::new();
        let mut n: usize = 0;
        proof {
            assert(cmds@ =~= moved_n_cmds(c0, max, dir, 0));
        }
        while n < 4
            invariant
                n <= 4,
                self.ok(),
                settings_kept(*old(self), *self),
                self.buffer.lines == old(self).buffer.lines,
                max == self.buffer.max_position,
                self.buffer.cursor_position == moved_n(c0, max, dir, n as nat),
                cmds@ == moved_n_cmds(c0, max, dir, n as nat),
            decreases 4 - n,
        {
            let mut step = self.move_cursor(dir);
            cmds.append(&mut step);
            n = n + 1;
            proof {
                assert(moved_n(c0, max, dir, n as nat) == moved(
                    moved_n(c0, max, dir, (n - 1) as nat),
                    max,
                    dir,
                ));
                assert(cmds@ =~= moved_n_cmds(c0, max, dir, n as nat));
            }
        }
        cmds
    }

    /// Carries out what key `k` asks for, telling whether editing has ended.
    pub fn apply(&mut self, k: EditorKey) -> (r: (EditorStep, Vec<CellCmd>))
        requires
            old(self).ok(),
        ensures
            applied(*old(self), *final(self), k, r.0, r.1@),
    {
        match k {
            EditorKey::Move(d) => (EditorStep::Continue, self.move_cursor(d)),
            EditorKey::Jump(d) => (EditorStep::Continue, self.jump(d)),
            EditorKey::LineStart => (EditorStep::Continue, self.move_to_line_start()),
            EditorKey::LineEnd => (EditorStep::Continue, self.move_to_line_end()),
            EditorKey::Delete => (EditorStep::Continue, self.delete()),
            EditorKey::Backspace => (EditorStep::Continue, self.backspace()),
            EditorKey::CutToEnd => {
                let (_cut, cmds) = self.remove_chars_from_cursor_to_end();
                (EditorStep::Continue, cmds)
            },
            EditorKey::EnableEditing => {
                self.read_only = false;
                (EditorStep::Continue, Vec::new())
            },
            EditorKey::Finish => {
                let ghost before = *self;
                let (taken, cmds) = self.take_text();
                if self.read_only {
                    (EditorStep::Finish(None), cmds)
                } else {
                    (EditorStep::Finish(Some(taken)), cmds)
                }
            },
            EditorKey::Insert(ch) => (EditorStep::Continue, self.insert(ch)),
            EditorKey::Ignore => (EditorStep::Continue, Vec::new()),
        }
    }

    /// One key press: decides what `ch` means and carries it out. A key
    /// pressed when a position or a line has grown near the machine's
    /// limit (see `TextBuffer::within_limits`) is let go.
    pub fn handle_char(&mut self, ch: char) -> (r: (EditorStep, Vec<CellCmd>))
        requires
            old(self).wf(),
        ensures
            final(self).wf(),
            !old(self).ok() ==> *final(self) == *old(self) && r.0 is Continue && r.1@.len() == 0,
            old(self).ok() ==> applied(
                *old(self),
                *final(self),
                spec_decide(
                    ch,
                    private_key(ch),
                    old(self).allow_newlines,
                    old(self).read_only,
                    old(self).can_edit,
                ),
                r.0,
                r.1@,
            ),
    {
        if !self.fits() {
            return (EditorStep::Continue, Vec::new());
        }
        let k = self.decide(ch);
        self.apply(k)
    }

    fn set_row(&mut self, y: usize, line: Vec<char>)
        requires
            y < old(self).buffer.lines.len(),
        ensures
            final(self).buffer.text() == old(self).buffer.text().update(y as int, line@),
            final(self).buffer.lines.len() == old(self).buffer.lines.len(),
            final(self).buffer.cursor_position == old(self).buffer.cursor_position,
            final(self).buffer.max_position == old(self).buffer.max_position,
            settings_kept(*old(self), *final(self)),
    {
        self.buffer.lines.set(y, line);
        proof {
            assert(self.buffer.text() =~= old(self).buffer.text().update(y as int, line@));
        }
    }
}

/// The total length of the first `j` lines.
pub open spec fn sum_lens(ts: Seq<Seq<char>>, j: int) -> nat
    decreases j,
{
    if j <= 0 {
        0
    } else {
        sum_lens(ts, j - 1) + ts[j - 1].len()
    }
}

proof fn lemma_sum_lens_mono(ts: Seq<Seq<char>>, a: int, b: int)
    requires
        0 <= a <= b,
    ensures
        sum_lens(ts, a) <= sum_lens(ts, b),
    decreases b - a,
{
    if a < b {
        lemma_sum_lens_mono(ts, a, b - 1);
    }
}

proof fn lemma_fits_prefix(lines: Seq<Seq<char>>, mx: int, ts: Seq<Seq<char>>, a: int, b: int)
    requires
        0 <= a <= b,
        set_text_fits(lines, mx, ts, b),
    ensures
        set_text_fits(lines, mx, ts, a),
    decreases b - a,
{
    if a < b {
        lemma_fits_prefix(lines, mx, ts, a, b - 1);
    }
}

/// Prepending a line adds its length to every prefix sum.
proof fn lemma_sum_lens_cons(a: Seq<char>, r: Seq<Seq<char>>, k: int)
    requires
        0 <= k <= r.len(),
    ensures
        sum_lens(seq![a] + r, k + 1) == a.len() + sum_lens(r, k),
    decreases k,
{
    if k > 0 {
        lemma_sum_lens_cons(a, r, k - 1);
        assert((seq![a] + r)[k] == r[k - 1]);
        assert(sum_lens(seq![a] + r, k + 1) == sum_lens(seq![a] + r, k) + r[k - 1].len());
        assert(sum_lens(r, k) == sum_lens(r, k - 1) + r[k - 1].len());
    } else {
        assert((seq![a] + r)[0] == a);
        assert(sum_lens(seq![a] + r, 0) == 0);
        assert(sum_lens(r, 0) == 0);
        assert(sum_lens(seq![a] + r, 1) == sum_lens(seq![a] + r, 0) + a.len());
    }
}

/// Each line is no longer than the sum of all lines.
proof fn lemma_sum_lens_elem(ts: Seq<Seq<char>>, i: int, n: int)
    requires
        0 <= i < n <= ts.len(),
    ensures
        ts[i].len() <= sum_lens(ts, n),
    decreases n,
{
    if i < n - 1 {
        lemma_sum_lens_elem(ts, i, n - 1);
    }
}

/// A text has at most one more line than characters, counting each line's
/// characters too.
proof fn lemma_lines_small(s: Seq<char>)
    ensures
        spec_lines(s).len() + sum_lens(spec_lines(s), spec_lines(s).len() as int) <= s.len() + 1,
    decreases s.len(),
{
    if s.len() > 0 {
        let k = first_newline(s);
        lemma_first_newline(s);
        if k < s.len() {
            let rest = s.subrange(k + 1, s.len() as int);
            lemma_lines_small(rest);
            let a = strip_cr(s.subrange(0, k));
            assert(spec_lines(s) == seq![a] + spec_lines(rest));
            lemma_sum_lens_cons(a, spec_lines(rest), spec_lines(rest).len() as int);
        } else {
            let a = strip_cr(s);
            assert(spec_lines(s) == seq![a]);
            assert(sum_lens(seq![a], 1) == sum_lens(seq![a], 0) + a.len());
        }
    }
}

fn copy_line(line: &Vec<char>) -> (r: Vec<char>)
    ensures
        r@ == line@,
{
    let mut r: Vec<char> = Vec::new();
    let mut i: usize = 0;
    while i < line.len()
        invariant
            i <= line.len(),
            r@ == line@.subrange(0, i as int),
        decreases line.len() - i,
    {
        r.push(line[i]);
        i = i + 1;
        proof {
            assert(r@ =~= line@.subrange(0, i as int));
        }
    }
    proof {
        assert(r@ =~= line@);
    }
    r
}

/// Drops characters from the end of `v` until its UTF-8 size is within `limit`.
pub fn truncate_bytes(v: &Vec<char>, limit: u16) -> (r: Vec<char>)
    ensures
        r@ == truncate_to(v@, limit as nat),
{
    let mut size: usize = 0;
    let mut i: usize = 0;
    proof {
        assert(v@.subrange(0, 0) =~= Seq::<char>::empty());
    }
    while i < v.len()
        invariant_except_break
            size + 0 <= limit,
        invariant
            i <= v.len(),
            size == utf8_size(v@.subrange(0, i as int)),
            size <= limit,
        ensures
            i == v.len() || utf8_size(v@.subrange(0, i + 1)) > limit,
        decreases v.len() - i,
    {
        let n = size + char_utf8_len(v[i]);
        proof {
            assert(v@.subrange(0, i + 1).drop_last() =~= v@.subrange(0, i as int));
        }
        if n > limit as usize {
            break;
        }
        size = n;
        i = i + 1;
    }
    proof {
        lemma_truncate_scan(v@, limit as nat, i as int);
    }
    copy_prefix_of(v, i)
}

fn copy_prefix_of(v: &Vec<char>, k: usize) -> (r: Vec<char>)
    requires
        k <= v.len(),
    ensures
        r@ == v@.subrange(0, k as int),
{
    crate::text_buffer::copy_prefix(v, k)
}

/// Scanning forward while the prefix fits finds the same text as dropping
/// characters from the end.
pub proof fn lemma_truncate_scan(s: Seq<char>, limit: nat, i: int)
    requires
        0 <= i <= s.len(),
        utf8_size(s.subrange(0, i)) <= limit,
        i == s.len() || utf8_size(s.subrange(0, i + 1)) > limit,
    ensures
        truncate_to(s, limit) == s.subrange(0, i),
    decreases s.len(),
{
    if utf8_size(s) <= limit || s.len() == 0 {
        if i < s.len() {
            lemma_utf8_size_prefix(s, i + 1);
        }
        assert(s.subrange(0, s.len() as int) =~= s);
    } else {
        let t = s.drop_last();
        if i == s.len() {
            assert(s.subrange(0, i) =~= s);
        }
        assert(t.subrange(0, i) =~= s.subrange(0, i));
        if i < t.len() {
            assert(t.subrange(0, i + 1) =~= s.subrange(0, i + 1));
        }
        lemma_truncate_scan(t, limit, i);
    }
}

/// In a writable editor the Delete key removes the character under the
/// cursor, when the cursor is on one and not in the last column, and
/// changes nothing else: the cursor stays, the text before it stays, and
/// the other lines stay.
pub proof fn lemma_delete_key_removes_under_cursor(
    a: Editor,
    b: Editor,
    ch: char,
    step: EditorStep,
    cmds: Seq<CellCmd>,
)
    requires
        a.wf(),
        !a.read_only,
        applied(a, b, spec_decide(ch, Some(KeyCode::Delete), a.allow_newlines, a.read_only, a.can_edit), step, cmds),
    ensures
        ({
            let t = a.buffer.text();
            let (x, y) = a.buffer.cursor_position;
            let line = t[y as int];
            &&& step is Continue
            &&& b.buffer.cursor_position == a.buffer.cursor_position
            &&& b.buffer.text() == t.update(y as int, b.buffer.text()[y as int])
            &&& (x - 2 < line.len() && x + 1 <= a.buffer.max_position.0) ==> b.buffer.text()[y as int]
                == line.remove(x - 2)
            &&& !(x - 2 < line.len() && x + 1 <= a.buffer.max_position.0) ==> b.buffer.text() == t
        }),
{
    let t = a.buffer.text();
    let (x, y) = a.buffer.cursor_position;
    let line = t[y as int];
    if x - 2 < line.len() && x + 1 <= a.buffer.max_position.0 {
        if line.len() == x - 1 {
            assert(line.drop_last() =~= line.remove(x - 2));
        } else {
            assert(line.subrange(0, x - 2) + line.subrange(x - 1, line.len() as int) =~= line.remove(x - 2));
        }
    } else {
        assert(t.update(y as int, t[y as int]) =~= t);
    }
}

/// In a writable editor Backspace inside a line (right of its first
/// column, not past its end) removes the character before the cursor and
/// moves the cursor one column left; the other lines stay.
pub proof fn lemma_backspace_key_removes_before_cursor(a: Editor, b: Editor, step: EditorStep, cmds: Seq<CellCmd>)
    requires
        a.wf(),
        !a.read_only,
        applied(a, b, spec_decide('\u{7f}', None, a.allow_newlines, a.read_only, a.can_edit), step, cmds),
        a.buffer.cursor_position.0 > 2,
        a.buffer.cursor_position.0 - 2 <= a.buffer.text()[a.buffer.cursor_position.1 as int].len(),
    ensures
        ({
            let t = a.buffer.text();
            let (x, y) = a.buffer.cursor_position;
            &&& step is Continue
            &&& b.buffer.cursor_position == ((x - 1) as usize, y)
            &&& b.buffer.text() == t.update(y as int, t[y as int].remove(x - 3))
        }),
{
    let t = a.buffer.text();
    let (x, y) = a.buffer.cursor_position;
    let line = t[y as int];
    if line.len() == x - 2 {
        assert(line.drop_last() =~= line.remove(x - 3));
    } else {
        assert(line.subrange(0, x - 3) + line.subrange(x - 2, line.len() as int) =~= line.remove(x - 3));
    }
}

/// The arrow keys move the cursor by one cell and the opposite arrow takes
/// it back: Right then Left, and Left then Right, return to the same cell
/// on the text area; Up and Down do the same across rows where line feeds
/// are allowed. Moving left or right on a row of more than one cell always
/// changes the cell.
pub proof fn lemma_arrow_keys_undo(
    ch: char,
    allow_newlines: bool,
    read_only: bool,
    can_edit: bool,
    c: (usize, usize),
    max: (usize, usize),
)
    requires
        2 <= c.0 <= max.0,
        1 <= c.1 <= max.1,
    ensures
        ({
            let r = spec_decide(ch, Some(KeyCode::Right), allow_newlines, read_only, can_edit);
            let l = spec_decide(ch, Some(KeyCode::Left), allow_newlines, read_only, can_edit);
            &&& r matches EditorKey::Move(dr) && l matches EditorKey::Move(dl) && moved(moved(c, max, dr), max, dl)
                == c && moved(moved(c, max, dl), max, dr) == c && (max.0 > 2 ==> moved(c, max, dr) != c
                && moved(c, max, dl) != c) && moved(c, max, dr).1 == c.1 && moved(c, max, dl).1 == c.1
        }),
        allow_newlines ==> ({
            let u = spec_decide(ch, Some(KeyCode::Up), allow_newlines, read_only, can_edit);
            let d = spec_decide(ch, Some(KeyCode::Down), allow_newlines, read_only, can_edit);
            &&& u matches EditorKey::Move(du) && d matches EditorKey::Move(dd) && moved(moved(c, max, du), max, dd)
                == c && moved(moved(c, max, dd), max, du) == c && moved(c, max, du).0 == c.0 && moved(c, max, dd).0
                == c.0
        }),
{
}

/// Home puts the cursor at the start of its line and End right after the
/// line's last character; neither changes the text.
pub proof fn lemma_home_end_keys(a: Editor, b: Editor, ch: char, home: bool, step: EditorStep, cmds: Seq<CellCmd>)
    requires
        a.ok(),
        applied(
            a,
            b,
            spec_decide(
                ch,
                Some(if home { KeyCode::Home } else { KeyCode::End }),
                a.allow_newlines,
                a.read_only,
                a.can_edit,
            ),
            step,
            cmds,
        ),
    ensures
        b.buffer.text() == a.buffer.text(),
        b.buffer.cursor_position.1 == a.buffer.cursor_position.1,
        home ==> b.buffer.cursor_position.0 == 2,
        !home ==> b.buffer.cursor_position.0 - 2 == a.buffer.text()[a.buffer.cursor_position.1 as int].len(),
{
    let y = a.buffer.cursor_position.1 as int;
    assert(a.buffer.text()[y] == a.buffer.lines@[y]@);
    assert(crate::text_buffer::small(a.buffer.lines@[y].len() + 2));
}

} // verus!
