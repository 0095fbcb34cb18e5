//! A screen-sized text buffer with a cursor, shared by the editor and the
//! text input. Every operation updates the buffer and returns the cells the
//! front end has to repaint.
use crate::chars::{char_utf8_len, lemma_utf8_size_prefix, utf8_size};
use vstd::prelude::*;

verus! {

/// How one screen cell is repainted.
#[derive(Clone, Copy, Debug, PartialEq, Eq, Structural)]
pub enum Paint {
    /// A plain glyph showing the character.
    Char(char),
    /// The glyph already there, blinking and reversed: the cursor.
    CursorOn,
    /// The glyph already there, neither blinking nor reversed.
    CursorOff,
    /// A blank cursor: a space, blinking and reversed.
    BlankCursor,
}

/// One repaint request: column `x`, row `y`.
#[derive(Clone, Copy, Debug, PartialEq, Eq, Structural)]
pub struct CellCmd {
    pub x: usize,
    pub y: usize,
    pub paint: Paint,
}

/// Cursor movement directions.
#[derive(Clone, Copy, Debug, PartialEq, Eq, Structural)]
pub enum Direction {
    Left,
    Right,
    Up,
    Down,
}

pub open spec fn cell(x: int, y: int, p: Paint) -> CellCmd {
    CellCmd { x: x as usize, y: y as usize, paint: p }
}

/// A plain glyph showing `c` at column `x`, row `y`.
pub open spec fn char_cell(x: int, y: int, c: char) -> CellCmd {
    cell(x, y, Paint::Char(c))
}

/// `n` spaces.
pub open spec fn spaces(n: nat) -> Seq<char> {
    Seq::new(n, |i: int| ' ')
}

/// Repaints of `rest` drawn from column `x0` rightwards on row `y`.
pub open spec fn shift_cmds(rest: Seq<char>, x0: int, y: int) -> Seq<CellCmd> {
    Seq::new(rest.len(), |i: int| char_cell(x0 + i, y, rest[i]))
}

/// No characters, no repaints.
pub proof fn lemma_shift_empty(rest: Seq<char>, x0: int, y: int)
    requires
        rest.len() == 0,
    ensures
        shift_cmds(rest, x0, y) == Seq::<CellCmd>::empty(),
{
    assert(shift_cmds(rest, x0, y) =~= Seq::<CellCmd>::empty());
}

/// Drawing one more character extends the repaints by one cell.
pub proof fn lemma_shift_push(rest: Seq<char>, x0: int, y: int, c: char)
    ensures
        shift_cmds(rest.push(c), x0, y) == shift_cmds(rest, x0, y).push(
            char_cell(x0 + rest.len(), y, c),
        ),
{
    assert(shift_cmds(rest.push(c), x0, y) =~= shift_cmds(rest, x0, y).push(
        char_cell(x0 + rest.len(), y, c),
    ));
}

/// Blanks the `n` cells right of column `x` on row `y`.
pub open spec fn blank_cmds(n: nat, x: int, y: int) -> Seq<CellCmd> {
    Seq::new(n, |i: int| char_cell(x + 1 + i, y, ' '))
}

/// The line with `ch` placed at character index `at`: inserted when `at` is
/// within the line, appended after padding spaces otherwise.
pub open spec fn inserted_line(line: Seq<char>, at: int, ch: char) -> Seq<char> {
    if at <= line.len() {
        line.subrange(0, at) + seq![ch] + line.subrange(at, line.len() as int)
    } else {
        line + spaces((at - line.len()) as nat) + seq![ch]
    }
}

/// The UTF-8 size of all lines together.
pub open spec fn total_size(lines: Seq<Seq<char>>) -> nat
    decreases lines.len(),
{
    if lines.len() == 0 {
        0
    } else {
        total_size(lines.drop_last()) + utf8_size(lines.last())
    }
}

/// Where the cursor goes after typing `ch`: a line feed moves to the start of
/// the next row unless on the last row; any other character moves right,
/// wrapping to the start of the next row (the last row at most).
pub open spec fn cursor_after_insert(c: (usize, usize), max: (usize, usize), ch: char) -> (
    usize,
    usize,
) {
    if ch == '\n' {
        if c.1 < max.1 {
            (2, (c.1 + 1) as usize)
        } else {
            c
        }
    } else {
        if c.0 + 1 > max.0 {
            (2, if c.1 + 1 > max.1 { max.1 } else { (c.1 + 1) as usize })
        } else {
            ((c.0 + 1) as usize, c.1)
        }
    }
}

/// Typing is refused when the byte limit is reached or the cursor's line is full.
pub open spec fn insert_blocked(
    lines: Seq<Seq<char>>,
    c: (usize, usize),
    max: (usize, usize),
    limit: Option<u16>,
) -> bool {
    ||| (limit matches Some(l) && total_size(lines) >= l)
    ||| lines[c.1 as int].len() >= max.0 - 2
}

/// Typing `ch`: the new lines, cursor and repaints.
pub open spec fn spec_insert(
    lines: Seq<Seq<char>>,
    c: (usize, usize),
    max: (usize, usize),
    limit: Option<u16>,
    ch: char,
) -> (Seq<Seq<char>>, (usize, usize), Seq<CellCmd>) {
    if insert_blocked(lines, c, max, limit) {
        (lines, c, seq![])
    } else {
        let line = lines[c.1 as int];
        let at = c.0 - 2;
        let shifted = if at < line.len() {
            shift_cmds(line.subrange(at, line.len() as int), c.0 + 1, c.1 as int)
        } else {
            seq![]
        };
        let glyph = if ch == '\n' { ' ' } else { ch };
        let nc = cursor_after_insert(c, max, ch);
        (
            lines.update(c.1 as int, inserted_line(line, at, ch)),
            nc,
            shifted + seq![
                cell(c.0 as int, c.1 as int, Paint::Char(glyph)),
                cell(nc.0 as int, nc.1 as int, Paint::CursorOn),
            ],
        )
    }
}

/// Backspace: removes the character left of the cursor and moves the cursor
/// left, to the end of the previous line from the line start.
pub open spec fn spec_backspace(lines: Seq<Seq<char>>, c: (usize, usize)) -> (
    Seq<Seq<char>>,
    (usize, usize),
    Seq<CellCmd>,
) {
    let line = lines[c.1 as int];
    let len = line.len() as int;
    let x = c.0 as int;
    let y = c.1 as int;
    if len > x - 2 && x == 2 {
        (lines, c, seq![])
    } else {
        let (new_lines, cmds0, last_char) = if len < x - 2 {
            (lines, Seq::<CellCmd>::empty(), false)
        } else if len == x - 2 {
            (
                lines.update(y, if len > 0 { line.drop_last() } else { line }),
                seq![cell(x, y, Paint::Char(' ')), cell(x, y, Paint::Char(' '))],
                true,
            )
        } else {
            let rest = line.subrange(x - 2, len);
            (
                lines.update(y, line.subrange(0, x - 3) + rest),
                seq![cell(x, y, Paint::Char(' '))] + shift_cmds(rest, x - 1, y) + seq![
                    cell(x - 1 + rest.len(), y, Paint::Char(' ')),
                ],
                false,
            )
        };
        let nc: (usize, usize) = if x - 1 < 2 {
            if y - 1 == 0 {
                (2, 1)
            } else {
                ((new_lines[y - 1].len() + 2) as usize, (y - 1) as usize)
            }
        } else {
            ((x - 1) as usize, c.1)
        };
        (
            new_lines,
            nc,
            cmds0 + seq![
                cell(
                    nc.0 as int,
                    nc.1 as int,
                    if last_char { Paint::BlankCursor } else { Paint::CursorOn },
                ),
            ],
        )
    }
}

/// Delete: removes the character under the cursor; the cursor stays. Nothing
/// happens in the last column.
pub open spec fn spec_delete(lines: Seq<Seq<char>>, c: (usize, usize), max: (usize, usize)) -> (
    Seq<Seq<char>>,
    Seq<CellCmd>,
) {
    let line = lines[c.1 as int];
    let len = line.len() as int;
    let x = c.0 as int;
    let y = c.1 as int;
    if x + 1 > max.0 {
        (lines, seq![])
    } else {
        let (new_lines, cmds0) = if len < x - 1 {
            (lines, Seq::<CellCmd>::empty())
        } else if len == x - 1 {
            (lines.update(y, line.drop_last()), seq![cell(x, y, Paint::Char(' '))])
        } else {
            let rest = line.subrange(x - 1, len);
            (
                lines.update(y, line.subrange(0, x - 2) + rest),
                shift_cmds(rest, x, y) + seq![cell(x + rest.len(), y, Paint::Char(' '))],
            )
        };
        (new_lines, cmds0 + seq![cell(x, y, Paint::CursorOn)])
    }
}

/// The split point of the cursor's line: the cursor column, or the line's end.
pub open spec fn cut_at(line: Seq<char>, x: int) -> int {
    if x - 2 < line.len() { x - 2 } else { line.len() as int }
}

/// Cutting the cursor's line at the cursor: the new lines, the repaints, and
/// the characters removed.
pub open spec fn spec_cut(lines: Seq<Seq<char>>, c: (usize, usize)) -> (
    Seq<Seq<char>>,
    Seq<CellCmd>,
    Seq<char>,
) {
    let line = lines[c.1 as int];
    let k = cut_at(line, c.0 as int);
    let old = line.subrange(k, line.len() as int);
    (
        lines.update(c.1 as int, line.subrange(0, k)),
        seq![cell(c.0 as int, c.1 as int, Paint::BlankCursor)] + blank_cmds(
            old.len(),
            c.0 as int,
            c.1 as int,
        ),
        old,
    )
}

/// The cursor after one step in `dir`, wrapping around the text area.
pub open spec fn moved(c: (usize, usize), max: (usize, usize), dir: Direction) -> (usize, usize) {
    match dir {
        Direction::Up => if c.1 - 1 < 1 { (c.0, max.1) } else { (c.0, (c.1 - 1) as usize) },
        Direction::Down => if c.1 + 1 > max.1 { (c.0, 1) } else { (c.0, (c.1 + 1) as usize) },
        Direction::Left => if c.0 - 1 < 2 { (max.0, c.1) } else { ((c.0 - 1) as usize, c.1) },
        Direction::Right => if c.0 + 1 > max.0 { (2, c.1) } else { ((c.0 + 1) as usize, c.1) },
    }
}

/// Moving the cursor from `a` to `b`: the old cell stops blinking, the new one blinks.
pub open spec fn move_cmds(a: (usize, usize), b: (usize, usize)) -> Seq<CellCmd> {
    seq![cell(a.0 as int, a.1 as int, Paint::CursorOff), cell(b.0 as int, b.1 as int, Paint::CursorOn)]
}

/// The text area: one line per screen row, a cursor in screen coordinates
/// (column 2 is the first text column, row 1 the first text row), and the
/// last usable column and row.
pub struct TextBuffer {
    pub lines: Vec<Vec<char>>,
    pub cursor_position: (usize, usize),
    pub max_position: (usize, usize),
}

/// Values far below the machine limit, so that column arithmetic cannot overflow.
pub open spec fn small(n: int) -> bool {
    n < usize::MAX / 4
}

/// Limits kept when one line changes, within them, and the cursor too.
proof fn lemma_one_line_changed(a: TextBuffer, b: TextBuffer, y: int)
    requires
        a.within_limits(),
        b.lines.len() == a.lines.len(),
        b.max_position == a.max_position,
        small(b.cursor_position.0 + 2),
        0 <= y < a.lines.len(),
        b.text() == a.text().update(y, b.text()[y]),
        small(b.text()[y].len() + 2int),
    ensures
        b.within_limits(),
{
    assert forall|i: int| 0 <= i < b.lines.len() implies small(#[trigger] b.lines@[i].len() + 2) by {
        assert(b.text()[i] == b.lines@[i]@);
        assert(a.text()[i] == a.lines@[i]@);
        if i != y {
            assert(b.text()[i] == a.text()[i]);
            assert(small(a.lines@[i].len() + 2));
        }
    }
}

impl TextBuffer {
    pub open spec fn text(&self) -> Seq<Seq<char>> {
        self.lines@.map_values(|l: Vec<char>| l@)
    }

    /// One line per screen row (rows 0 and `max.1 + 1` are the frame), the
    /// cursor inside the text rows and at or right of the first text column.
    pub open spec fn wf(&self) -> bool {
        &&& self.lines.len() == self.max_position.1 + 2
        &&& self.max_position.0 >= 2
        &&& self.max_position.1 >= 1
        &&& 2 <= self.cursor_position.0
        &&& 1 <= self.cursor_position.1 <= self.max_position.1
    }

    /// All positions and line lengths are far below the machine limit.
    pub open spec fn within_limits(&self) -> bool {
        &&& small(self.cursor_position.0 + 2)
        &&& small(self.max_position.0 + 2)
        &&& small(self.max_position.1 as int)
        &&& forall|i: int| 0 <= i < self.lines.len() ==> small(#[trigger] self.lines@[i].len() + 2)
    }

    /// Tells whether all positions and line lengths are far below the machine limit.
    pub fn check_limits(&self) -> (b: bool)
        ensures
            b == self.within_limits(),
    {
        let bound = usize::MAX / 4;
        if self.cursor_position.0 >= bound - 2 || self.max_position.0 >= bound - 2
            || self.max_position.1 >= bound {
            return false;
        }
        let mut i: usize = 0;
        while i < self.lines.len()
            invariant
                i <= self.lines.len(),
                bound == usize::MAX / 4,
                forall|k: int| 0 <= k < i ==> small(#[trigger] self.lines@[k].len() + 2),
            decreases self.lines.len() - i,
        {
            if self.lines[i].len() >= bound - 2 {
                return false;
            }
            i = i + 1;
        }
        true
    }

    /// An empty buffer for a screen of `cols` by `rows` cells.
    pub fn new(cols: usize, rows: usize) -> (b: TextBuffer)
        requires
            cols >= 4,
            rows >= 3,
        ensures
            b.wf(),
            b.text() == Seq::new(rows as nat, |i: int| Seq::<char>::empty()),
            b.cursor_position == (2usize, 1usize),
            b.max_position == ((cols - 2) as usize, (rows - 2) as usize),
    {
        let mut lines: Vec<Vec<char>> = Vec::new();
        let mut i: usize = 0;
        while i < rows
            invariant
                i <= rows,
                lines.len() == i,
                forall|j: int| 0 <= j < i ==> #[trigger] lines@[j]@ == Seq::<char>::empty(),
            decreases rows - i,
        {
            lines.push(Vec::new());
            i = i + 1;
        }
        let b = TextBuffer { lines, cursor_position: (2, 1), max_position: (cols - 2, rows - 2) };
        proof {
            assert(b.text() =~= Seq::new(rows as nat, |i: int| Seq::<char>::empty()));
        }
        b
    }

    fn line_len(&self, y: usize) -> (n: usize)
        requires
            y < self.lines.len(),
        ensures
            n == self.text()[y as int].len(),
    {
        self.lines[y].len()
    }

    fn replace_line(&mut self, y: usize, line: Vec<char>)
        requires
            y < old(self).lines.len(),
        ensures
            final(self).text() == old(self).text().update(y as int, line@),
            final(self).lines.len() == old(self).lines.len(),
            final(self).cursor_position == old(self).cursor_position,
            final(self).max_position == old(self).max_position,
    {
        self.lines.set(y, line);
        proof {
            assert(self.text() =~= old(self).text().update(y as int, line@));
        }
    }

    /// Whether the UTF-8 size of all lines reaches `limit`.
    fn size_reaches(&self, limit: u16) -> (r: bool)
        ensures
            r == (total_size(self.text()) >= limit),
    {
        if limit == 0 {
            return true;
        }
        let mut total: usize = 0;
        let mut i: usize = 0;
        proof {
            assert(self.text().subrange(0, 0) =~= Seq::<Seq<char>>::empty());
        }
        while i < self.lines.len()
            invariant
                i <= self.lines.len(),
                total == total_size(self.text().subrange(0, i as int)),
                total < limit,
            decreases self.lines.len() - i,
        {
            let line = &self.lines[i];
            let mut j: usize = 0;
            let mut line_size: usize = 0;
            proof {
                assert(line@.subrange(0, 0) =~= Seq::<char>::empty());
            }
            while j < line.len()
                invariant
                    i < self.lines.len(),
                    line@ == self.lines@[i as int]@,
                    total == total_size(self.text().subrange(0, i as int)),
                    j <= line.len(),
                    line_size == utf8_size(line@.subrange(0, j as int)),
                    total + line_size < limit,
                decreases line.len() - j,
            {
                proof {
                    assert(line@.subrange(0, j + 1).drop_last() =~= line@.subrange(0, j as int));
                }
                line_size = line_size + char_utf8_len(line[j]);
                if total + line_size >= limit as usize {
                    proof {
                        self.lemma_total_prefix_grows(i as int, j as int + 1);
                    }
                    return true;
                }
                j = j + 1;
            }
            proof {
                assert(line@.subrange(0, j as int) =~= line@);
                assert(self.text().subrange(0, i + 1).drop_last() =~= self.text().subrange(
                    0,
                    i as int,
                ));
            }
            total = total + line_size;
            i = i + 1;
        }
        proof {
            assert(self.text().subrange(0, i as int) =~= self.text());
        }
        false
    }

    proof fn lemma_total_prefix_grows(&self, i: int, j: int)
        requires
            0 <= i < self.lines.len(),
            0 <= j <= self.lines@[i].len(),
        ensures
            total_size(self.text()) >= total_size(self.text().subrange(0, i)) + utf8_size(
                self.lines@[i]@.subrange(0, j),
            ),
    {
        lemma_utf8_size_prefix(self.lines@[i]@, j);
        assert(self.text().subrange(0, i + 1).drop_last() =~= self.text().subrange(0, i));
        lemma_total_size_prefix(self.text(), i + 1);
    }

    /// Typing `ch` at the cursor, unless the limit is reached or the line is full.
    pub fn insert(&mut self, limit: Option<u16>, ch: char) -> (cmds: Vec<CellCmd>)
        requires
            old(self).wf(),
            old(self).within_limits(),
        ensures
            final(self).within_limits(),
            final(self).wf(),
            final(self).max_position == old(self).max_position,
            final(self).lines.len() == old(self).lines.len(),
            (final(self).text(), final(self).cursor_position, cmds@) == spec_insert(
                old(self).text(),
                old(self).cursor_position,
                old(self).max_position,
                limit,
                ch,
            ),
    {
        let ghost old_text = self.text();
        if let Some(byte_limit) = limit {
            if self.size_reaches(byte_limit) {
                return Vec::new();
            }
        }
        let (cx, cy) = self.cursor_position;
        let max = self.max_position;
        let count = self.line_len(cy);
        if count >= max.0 - 2 {
            return Vec::new();
        }
        let at = cx - 2;
        proof {
            assert(old_text[cy as int] == self.lines@[cy as int]@);
            assert(small(count as int));
        }
        let mut cmds: Vec<CellCmd> = Vec::new();
        let mut new_line: Vec<char> = Vec::new();
        let mut i: usize = 0;
        while i < at
            invariant
                at == cx - 2,
                cy < self.lines.len(),
                self.text() == old_text,
                count == old_text[cy as int].len(),
                i <= at,
                cmds@ == Seq::<CellCmd>::empty(),
                new_line@ == (if i <= count {
                    old_text[cy as int].subrange(0, i as int)
                } else {
                    old_text[cy as int] + spaces((i - count) as nat)
                }),
            decreases at - i,
        {
            if i < count {
                new_line.push(self.lines[cy][i]);
            } else {
                new_line.push(' ');
            }
            i = i + 1;
            proof {
                if i <= count {
                    assert(new_line@ =~= old_text[cy as int].subrange(0, i as int));
                } else {
                    assert(new_line@ =~= old_text[cy as int] + spaces((i - count) as nat));
                }
            }
        }
        new_line.push(ch);
        let mut k: usize = at;
        let ghost prefix = new_line@;
        proof {
            if at <= count {
                assert(old_text[cy as int].subrange(at as int, at as int) =~= Seq::<char>::empty());
                lemma_shift_empty(old_text[cy as int].subrange(at as int, at as int), cx + 1, cy as int);
                assert(cmds@ =~= shift_cmds(
                    old_text[cy as int].subrange(at as int, at as int),
                    cx + 1,
                    cy as int,
                ));
                assert(new_line@ =~= prefix + old_text[cy as int].subrange(at as int, at as int));
            }
        }
        if at < count {
        while k < count
            invariant
                at == cx - 2,
                at <= k <= count,
                small(count as int),
                cy < self.lines.len(),
                self.text() == old_text,
                count == old_text[cy as int].len(),
                small(cx as int),
                new_line@ == prefix + old_text[cy as int].subrange(at as int, k as int),
                cmds@ == shift_cmds(
                    old_text[cy as int].subrange(at as int, k as int),
                    cx + 1,
                    cy as int,
                ),
            decreases count - k,
        {
            proof {
                assert(old_text[cy as int] == self.lines@[cy as int]@);
            }
            let c = self.lines[cy][k];
            new_line.push(c);
            cmds.push(CellCmd { x: cx + 1 + (k - at), y: cy, paint: Paint::Char(c) });
            proof {
                assert(old_text[cy as int].subrange(at as int, k + 1) =~= old_text[cy as int].subrange(
                    at as int,
                    k as int,
                ).push(c));
                lemma_shift_push(old_text[cy as int].subrange(at as int, k as int), cx + 1, cy as int, c);
            }
            k = k + 1;
            proof {
                assert(new_line@ =~= prefix + old_text[cy as int].subrange(at as int, k as int));
                assert(cmds@ =~= shift_cmds(
                    old_text[cy as int].subrange(at as int, k as int),
                    cx + 1,
                    cy as int,
                ));
            }
        }
        }
        proof {
            if at < count {
                assert(new_line@ =~= inserted_line(old_text[cy as int], at as int, ch));
            } else if at == count {
                assert(old_text[cy as int].subrange(at as int, count as int) =~= Seq::<char>::empty());
                assert(new_line@ =~= inserted_line(old_text[cy as int], at as int, ch));
                assert(cmds@ =~= Seq::<CellCmd>::empty());
            } else if at <= count {
                assert(new_line@ =~= inserted_line(old_text[cy as int], at as int, ch));
            } else {
                assert(new_line@ =~= inserted_line(old_text[cy as int], at as int, ch));
                assert(cmds@ =~= Seq::<CellCmd>::empty());
            }
        }
        self.replace_line(cy, new_line);
        let glyph = if ch == '\n' {
            ' '
        } else {
            ch
        };
        cmds.push(CellCmd { x: cx, y: cy, paint: Paint::Char(glyph) });
        if ch == '\n' {
            if cy < max.1 {
                self.cursor_position = (2, cy + 1);
            }
        } else {
            if cx + 1 > max.0 {
                let ny = if cy + 1 > max.1 {
                    max.1
                } else {
                    cy + 1
                };
                self.cursor_position = (2, ny);
            } else {
                self.cursor_position = (cx + 1, cy);
            }
        }
        cmds.push(
            CellCmd { x: self.cursor_position.0, y: self.cursor_position.1, paint: Paint::CursorOn },
        );
        proof {
            let sp = spec_insert(old_text, (cx, cy), max, limit, ch);
            assert(cmds@ =~= sp.2);
            assert(old_text[cy as int] == old(self).lines@[cy as int]@);
            assert(self.text() =~= old_text.update(cy as int, self.text()[cy as int]));
            assert(self.text()[cy as int].len() <= if at <= count { count + 1 } else { at + 1 });
            lemma_one_line_changed(*old(self), *self, cy as int);
        }
        cmds
    }

    /// Backspace at the cursor.
    pub fn backspace(&mut self) -> (cmds: Vec<CellCmd>)
        requires
            old(self).wf(),
            old(self).within_limits(),
        ensures
            final(self).wf(),
            final(self).max_position == old(self).max_position,
            final(self).lines.len() == old(self).lines.len(),
            (final(self).text(), final(self).cursor_position, cmds@) == spec_backspace(
                old(self).text(),
                old(self).cursor_position,
            ),
    {
        let ghost old_text = self.text();
        let (cx, cy) = self.cursor_position;
        let len = self.line_len(cy);
        let mut cmds: Vec<CellCmd> = Vec::new();
        let mut last_char = false;
        if len < cx - 2 {
        } else if len == cx - 2 {
            cmds.push(CellCmd { x: cx, y: cy, paint: Paint::Char(' ') });
            last_char = true;
            if len > 0 {
                let new_line = copy_prefix(&self.lines[cy], len - 1);
                proof {
                    assert(new_line@ =~= old_text[cy as int].drop_last());
                }
                self.replace_line(cy, new_line);
            }
            cmds.push(CellCmd { x: cx, y: cy, paint: Paint::Char(' ') });
        } else {
            if cx == 2 {
                return cmds;
            }
            cmds.push(CellCmd { x: cx, y: cy, paint: Paint::Char(' ') });
            let mut new_line = copy_prefix(&self.lines[cy], cx - 3);
            let ghost prefix = new_line@;
            let ghost head = cmds@;
            let mut k: usize = cx - 2;
            proof {
                assert(old_text[cy as int] == self.lines@[cy as int]@);
                assert(small(self.lines@[cy as int].len() as int));
                assert(old_text[cy as int].subrange(cx - 2, cx - 2) =~= Seq::<char>::empty());
                lemma_shift_empty(old_text[cy as int].subrange(cx - 2, cx - 2), cx - 1, cy as int);
                assert(cmds@ =~= head + shift_cmds(
                    old_text[cy as int].subrange(cx - 2, cx - 2),
                    cx - 1,
                    cy as int,
                ));
                assert(new_line@ =~= prefix + old_text[cy as int].subrange(cx - 2, cx - 2));
            }
            while k < len
                invariant
                    cx - 2 <= k <= len,
                    cx >= 3,
                    small(cx as int),
                    small(len as int),
                    cy < self.lines.len(),
                    self.text() == old_text,
                    len == old_text[cy as int].len(),
                    new_line@ == prefix + old_text[cy as int].subrange(cx - 2, k as int),
                    cmds@ == head + shift_cmds(
                        old_text[cy as int].subrange(cx - 2, k as int),
                        cx - 1,
                        cy as int,
                    ),
                decreases len - k,
            {
                proof {
                    assert(old_text[cy as int] == self.lines@[cy as int]@);
                }
                let c = self.lines[cy][k];
                new_line.push(c);
                cmds.push(CellCmd { x: cx - 1 + (k - (cx - 2)), y: cy, paint: Paint::Char(c) });
                proof {
                    assert(old_text[cy as int].subrange(cx - 2, k + 1) =~= old_text[cy as int].subrange(
                        cx - 2,
                        k as int,
                    ).push(c));
                    lemma_shift_push(old_text[cy as int].subrange(cx - 2, k as int), cx - 1, cy as int, c);
                }
                k = k + 1;
                proof {
                    assert(new_line@ =~= prefix + old_text[cy as int].subrange(cx - 2, k as int));
                    assert(cmds@ =~= head + shift_cmds(
                        old_text[cy as int].subrange(cx - 2, k as int),
                        cx - 1,
                        cy as int,
                    ));
                }
            }
            let moved_count = len - (cx - 2);
            cmds.push(CellCmd { x: cx - 1 + moved_count, y: cy, paint: Paint::Char(' ') });
            self.replace_line(cy, new_line);
        }
        let ghost mid_text = self.text();
        if cx - 1 < 2 {
            if cy - 1 == 0 {
                self.cursor_position = (2, 1);
            } else {
                let pl = self.line_len(cy - 1);
                proof {
                    assert(mid_text[cy - 1] == old_text[cy - 1]);
                    assert(old_text[cy - 1] == old(self).lines@[cy - 1]@);
                    assert(small(old(self).lines@[cy - 1].len() as int));
                }
                self.cursor_position = (pl + 2, cy - 1);
            }
        } else {
            self.cursor_position = (cx - 1, cy);
        }
        let paint = if last_char {
            Paint::BlankCursor
        } else {
            Paint::CursorOn
        };
        cmds.push(CellCmd { x: self.cursor_position.0, y: self.cursor_position.1, paint });
        proof {
            let sp = spec_backspace(old_text, (cx, cy));
            assert(mid_text =~= sp.0);
            assert(cmds@ =~= sp.2);
        }
        cmds
    }

    /// Delete at the cursor.
    pub fn delete(&mut self) -> (cmds: Vec<CellCmd>)
        requires
            old(self).wf(),
            old(self).within_limits(),
        ensures
            final(self).within_limits(),
            final(self).wf(),
            final(self).max_position == old(self).max_position,
            final(self).lines.len() == old(self).lines.len(),
            final(self).cursor_position == old(self).cursor_position,
            (final(self).text(), cmds@) == spec_delete(
                old(self).text(),
                old(self).cursor_position,
                old(self).max_position,
            ),
    {
        let ghost old_text = self.text();
        let (cx, cy) = self.cursor_position;
        let mut cmds: Vec<CellCmd> = Vec::new();
        if cx + 1 > self.max_position.0 {
            return cmds;
        }
        let len = self.line_len(cy);
        if len < cx - 1 {
        } else if len == cx - 1 {
            let new_line = copy_prefix(&self.lines[cy], len - 1);
            proof {
                assert(new_line@ =~= old_text[cy as int].drop_last());
            }
            self.replace_line(cy, new_line);
            cmds.push(CellCmd { x: cx, y: cy, paint: Paint::Char(' ') });
        } else {
            let mut new_line = copy_prefix(&self.lines[cy], cx - 2);
            let ghost prefix = new_line@;
            let mut k: usize = cx - 1;
            proof {
                assert(old_text[cy as int] == self.lines@[cy as int]@);
                assert(small(self.lines@[cy as int].len() as int));
                assert(old_text[cy as int].subrange(cx - 1, cx - 1) =~= Seq::<char>::empty());
                lemma_shift_empty(old_text[cy as int].subrange(cx - 1, cx - 1), cx as int, cy as int);
                assert(cmds@ =~= shift_cmds(
                    old_text[cy as int].subrange(cx - 1, cx - 1),
                    cx as int,
                    cy as int,
                ));
                assert(new_line@ =~= prefix + old_text[cy as int].subrange(cx - 1, cx - 1));
            }
            while k < len
                invariant
                    cx - 1 <= k <= len,
                    cx >= 2,
                    small(cx as int),
                    small(len as int),
                    cy < self.lines.len(),
                    self.text() == old_text,
                    len == old_text[cy as int].len(),
                    new_line@ == prefix + old_text[cy as int].subrange(cx - 1, k as int),
                    cmds@ == shift_cmds(
                        old_text[cy as int].subrange(cx - 1, k as int),
                        cx as int,
                        cy as int,
                    ),
                decreases len - k,
            {
                proof {
                    assert(old_text[cy as int] == self.lines@[cy as int]@);
                }
                let c = self.lines[cy][k];
                new_line.push(c);
                cmds.push(CellCmd { x: cx + (k - (cx - 1)), y: cy, paint: Paint::Char(c) });
                proof {
                    assert(old_text[cy as int].subrange(cx - 1, k + 1) =~= old_text[cy as int].subrange(
                        cx - 1,
                        k as int,
                    ).push(c));
                    lemma_shift_push(old_text[cy as int].subrange(cx - 1, k as int), cx as int, cy as int, c);
                }
                k = k + 1;
                proof {
                    assert(new_line@ =~= prefix + old_text[cy as int].subrange(cx - 1, k as int));
                    assert(cmds@ =~= shift_cmds(
                        old_text[cy as int].subrange(cx - 1, k as int),
                        cx as int,
                        cy as int,
                    ));
                }
            }
            cmds.push(CellCmd { x: cx + (len - (cx - 1)), y: cy, paint: Paint::Char(' ') });
            self.replace_line(cy, new_line);
        }
        cmds.push(CellCmd { x: cx, y: cy, paint: Paint::CursorOn });
        proof {
            let sp = spec_delete(old_text, (cx, cy), self.max_position);
            assert(self.text() =~= sp.0);
            assert(cmds@ =~= sp.1);
            assert(self.text() =~= old_text.update(cy as int, self.text()[cy as int]));
            assert(old_text[cy as int] == old(self).lines@[cy as int]@);
            assert(self.text()[cy as int].len() <= old_text[cy as int].len());
            lemma_one_line_changed(*old(self), *self, cy as int);
        }
        cmds
    }

    /// Cuts the cursor's line at the cursor, returning what was cut.
    pub fn cut_to_end(&mut self) -> (r: (Vec<char>, Vec<CellCmd>))
        requires
            old(self).wf(),
            old(self).within_limits(),
        ensures
            final(self).wf(),
            final(self).max_position == old(self).max_position,
            final(self).lines.len() == old(self).lines.len(),
            final(self).cursor_position == old(self).cursor_position,
            final(self).within_limits(),
            (final(self).text(), r.1@, r.0@) == spec_cut(
                old(self).text(),
                old(self).cursor_position,
            ),
    {
        let ghost old_text = self.text();
        let (cx, cy) = self.cursor_position;
        let len = self.line_len(cy);
        let k = if cx - 2 < len {
            cx - 2
        } else {
            len
        };
        proof {
            assert(old_text[cy as int] == self.lines@[cy as int]@);
            assert(small(self.lines@[cy as int].len() as int));
        }
        let new_line = copy_prefix(&self.lines[cy], k);
        let mut old_part: Vec<char> = Vec::new();
        let mut cmds: Vec<CellCmd> = Vec::new();
        cmds.push(CellCmd { x: cx, y: cy, paint: Paint::BlankCursor });
        let mut j: usize = k;
        while j < len
            invariant
                k <= j <= len,
                small(cx as int),
                small(len as int),
                cy < self.lines.len(),
                self.text() == old_text,
                len == old_text[cy as int].len(),
                old_part@ == old_text[cy as int].subrange(k as int, j as int),
                cmds@ == seq![cell(cx as int, cy as int, Paint::BlankCursor)] + blank_cmds(
                    (j - k) as nat,
                    cx as int,
                    cy as int,
                ),
            decreases len - j,
        {
            old_part.push(self.lines[cy][j]);
            cmds.push(CellCmd { x: cx + 1 + (j - k), y: cy, paint: Paint::Char(' ') });
            j = j + 1;
            proof {
                assert(old_part@ =~= old_text[cy as int].subrange(k as int, j as int));
                assert(cmds@ =~= seq![cell(cx as int, cy as int, Paint::BlankCursor)] + blank_cmds(
                    (j - k) as nat,
                    cx as int,
                    cy as int,
                ));
            }
        }
        self.replace_line(cy, new_line);
        proof {
            assert(self.text()[cy as int].len() <= old_text[cy as int].len());
            lemma_one_line_changed(*old(self), *self, cy as int);
        }
        (old_part, cmds)
    }

    /// Moves the cursor to the start of its line.
    pub fn move_to_line_start(&mut self) -> (cmds: Vec<CellCmd>)
        requires
            old(self).wf(),
        ensures
            final(self).wf(),
            final(self).lines == old(self).lines,
            final(self).max_position == old(self).max_position,
            final(self).cursor_position == (2usize, old(self).cursor_position.1),
            cmds@ == move_cmds(old(self).cursor_position, final(self).cursor_position),
    {
        let old_c = self.cursor_position;
        self.cursor_position = (2, old_c.1);
        let mut cmds: Vec<CellCmd> = Vec::new();
        cmds.push(CellCmd { x: old_c.0, y: old_c.1, paint: Paint::CursorOff });
        cmds.push(CellCmd { x: 2, y: old_c.1, paint: Paint::CursorOn });
        cmds
    }

    /// Moves the cursor right after the last character of its line.
    pub fn move_to_line_end(&mut self) -> (cmds: Vec<CellCmd>)
        requires
            old(self).wf(),
            old(self).within_limits(),
        ensures
            final(self).wf(),
            final(self).lines == old(self).lines,
            final(self).max_position == old(self).max_position,
            final(self).cursor_position == (
                (old(self).text()[old(self).cursor_position.1 as int].len() + 2) as usize,
                old(self).cursor_position.1,
            ),
            cmds@ == move_cmds(old(self).cursor_position, final(self).cursor_position),
    {
        let old_c = self.cursor_position;
        let len = self.line_len(old_c.1);
        proof {
            assert(self.lines@[old_c.1 as int]@ == self.text()[old_c.1 as int]);
            assert(small(self.lines@[old_c.1 as int].len() as int));
        }
        self.cursor_position = (len + 2, old_c.1);
        let mut cmds: Vec<CellCmd> = Vec::new();
        cmds.push(CellCmd { x: old_c.0, y: old_c.1, paint: Paint::CursorOff });
        cmds.push(CellCmd { x: len + 2, y: old_c.1, paint: Paint::CursorOn });
        cmds
    }

    /// Moves the cursor one step, wrapping around the text area.
    pub fn move_cursor(&mut self, direction: Direction) -> (cmds: Vec<CellCmd>)
        requires
            old(self).wf(),
            old(self).within_limits(),
        ensures
            final(self).within_limits(),
            final(self).wf(),
            final(self).lines == old(self).lines,
            final(self).max_position == old(self).max_position,
            final(self).cursor_position == moved(
                old(self).cursor_position,
                old(self).max_position,
                direction,
            ),
            cmds@ == move_cmds(old(self).cursor_position, final(self).cursor_position),
    {
        let old_c = self.cursor_position;
        let max = self.max_position;
        let new_c = match direction {
            Direction::Up => if old_c.1 - 1 < 1 {
                (old_c.0, max.1)
            } else {
                (old_c.0, old_c.1 - 1)
            },
            Direction::Down => if old_c.1 + 1 > max.1 {
                (old_c.0, 1)
            } else {
                (old_c.0, old_c.1 + 1)
            },
            Direction::Left => if old_c.0 - 1 < 2 {
                (max.0, old_c.1)
            } else {
                (old_c.0 - 1, old_c.1)
            },
            Direction::Right => if old_c.0 + 1 > max.0 {
                (2, old_c.1)
            } else {
                (old_c.0 + 1, old_c.1)
            },
        };
        self.cursor_position = new_c;
        let mut cmds: Vec<CellCmd> = Vec::new();
        cmds.push(CellCmd { x: old_c.0, y: old_c.1, paint: Paint::CursorOff });
        cmds.push(CellCmd { x: new_c.0, y: new_c.1, paint: Paint::CursorOn });
        cmds
    }
}

/// The total size of a prefix of lines is at most the total size.
pub proof fn lemma_total_size_prefix(lines: Seq<Seq<char>>, k: int)
    requires
        0 <= k <= lines.len(),
    ensures
        total_size(lines.subrange(0, k)) <= total_size(lines),
    decreases lines.len() - k,
{
    if k < lines.len() {
        lemma_total_size_prefix(lines, k + 1);
        assert(lines.subrange(0, k + 1).drop_last() =~= lines.subrange(0, k));
    } else {
        assert(lines.subrange(0, k) =~= lines);
    }
}

/// The first `k` characters of a line.
pub fn copy_prefix(line: &Vec<char>, k: usize) -> (r: Vec<char>)
    requires
        k <= line.len(),
    ensures
        r@ == line@.subrange(0, k as int),
{
    let mut r: Vec<char> = Vec::new();
    let mut i: usize = 0;
    while i < k
        invariant
            i <= k <= line.len(),
            r@ == line@.subrange(0, i as int),
        decreases k - i,
    {
        r.push(line[i]);
        i = i + 1;
        proof {
            assert(r@ =~= line@.subrange(0, i as int));
        }
    }
    r
}

/// Backspace undoes typing: a character other than a line feed typed
/// within its line (neither past the line's end nor into a full line, and
/// under the byte limit), then taken back with backspace, leaves the lines
/// and the cursor as they were.
pub proof fn lemma_backspace_undoes_insert(
    lines: Seq<Seq<char>>,
    c: (usize, usize),
    max: (usize, usize),
    limit: Option<u16>,
    ch: char,
)
    requires
        ch != '\n',
        1 <= c.1 < lines.len(),
        2 <= c.0,
        c.0 - 2 <= lines[c.1 as int].len() < max.0 - 2,
        limit matches Some(l) ==> total_size(lines) < l,
    ensures
        ({
            let typed = spec_insert(lines, c, max, limit, ch);
            let back = spec_backspace(typed.0, typed.1);
            back.0 == lines && back.1 == c
        }),
{
    let line = lines[c.1 as int];
    let at = c.0 - 2;
    let typed = spec_insert(lines, c, max, limit, ch);
    let new_line = inserted_line(line, at, ch);
    assert(typed.0[c.1 as int] == new_line);
    assert(typed.1 == ((c.0 + 1) as usize, c.1));
    if at == line.len() {
        assert(new_line.drop_last() =~= line);
    } else {
        assert(new_line.subrange(0, at) + new_line.subrange(at + 1, new_line.len() as int) =~= line);
    }
    assert(spec_backspace(typed.0, typed.1).0 =~= lines);
}

} // verus!
