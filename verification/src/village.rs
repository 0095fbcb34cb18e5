//! The village screen: a grid of tiles (the owner's home, neighbors,
//! contents on streets, empty fields), the selected tile, and where new
//! neighbors and contents are placed.
use crate::selector::words;
use vstd::prelude::*;

verus! {

/// What a tile shows: a home or a neighbor (by owner id), an empty field,
/// an application, or a content (data type code and content id).
#[derive(Clone, Copy, Debug, PartialEq, Eq, Structural)]
pub enum TileType {
    Home(u64),
    Neighbor(u64),
    Field,
    Application,
    Content(u8, u16),
}

impl TileType {
    pub fn is_content(&self, c_id: u16) -> (b: bool)
        ensures
            b == (*self matches TileType::Content(_, c) && c == c_id),
    {
        match self {
            TileType::Content(_d, c) => *c == c_id,
            _ => false,
        }
    }

    pub fn is_home(&self) -> (b: bool)
        ensures
            b == (*self is Home),
    {
        matches!(self, TileType::Home(_))
    }

    pub fn is_field(&self) -> (b: bool)
        ensures
            b == (*self is Field),
    {
        matches!(self, TileType::Field)
    }
}

/// A tile: its graphic and text ids, what it shows, and the frames shown
/// when it is selected or not.
#[derive(Clone, Copy, Debug, PartialEq, Eq, Structural)]
pub struct Tile {
    pub id: usize,
    pub text_id: usize,
    pub tile_type: TileType,
    pub select_frame: usize,
    pub deselect_frame: usize,
}

/// The frames (selected, not selected) of a tile of each kind.
pub open spec fn frames(t: TileType, is_my: bool) -> (usize, usize) {
    match t {
        TileType::Home(_) => if is_my {
            (9, 8)
        } else {
            (3, 2)
        },
        TileType::Neighbor(_) => (7, 6),
        TileType::Content(_, _) => (5, 4),
        _ => (1, 0),
    }
}

impl Tile {
    /// A new tile shows an empty field.
    pub fn new(id: usize, text_id: usize) -> (t: Tile)
        ensures
            t == (Tile { id, text_id, tile_type: TileType::Field, select_frame: 1, deselect_frame: 0 }),
    {
        Tile { id, text_id, tile_type: TileType::Field, select_frame: 1, deselect_frame: 0 }
    }

    pub fn set_to_home(&mut self, owner_id: u64, is_my: bool)
        ensures
            final(self).id == old(self).id,
            final(self).text_id == old(self).text_id,
            final(self).tile_type == TileType::Home(owner_id),
            (final(self).select_frame, final(self).deselect_frame) == frames(TileType::Home(owner_id), is_my),
    {
        if is_my {
            self.select_frame = 9;
            self.deselect_frame = 8;
        } else {
            self.select_frame = 3;
            self.deselect_frame = 2;
        }
        self.tile_type = TileType::Home(owner_id);
    }

    pub fn set_to_neighbor(&mut self, n_id: u64)
        ensures
            *final(self) == (Tile { tile_type: TileType::Neighbor(n_id), select_frame: 7, deselect_frame: 6, ..*old(self) }),
    {
        self.select_frame = 7;
        self.deselect_frame = 6;
        self.tile_type = TileType::Neighbor(n_id);
    }

    pub fn set_to_content(&mut self, d_type: u8, c_id: u16)
        ensures
            *final(self) == (Tile { tile_type: TileType::Content(d_type, c_id), select_frame: 5, deselect_frame: 4, ..*old(self) }),
    {
        self.select_frame = 5;
        self.deselect_frame = 4;
        self.tile_type = TileType::Content(d_type, c_id);
    }

    pub fn set_to_field(&mut self)
        ensures
            *final(self) == (Tile { tile_type: TileType::Field, select_frame: 1, deselect_frame: 0, ..*old(self) }),
    {
        self.select_frame = 1;
        self.deselect_frame = 0;
        self.tile_type = TileType::Field;
    }
}

/// The text cells of a tile (12 columns by 7 rows): the first five words
/// of `text`, one per row from row 1, each cut to 10 characters from column 1.
pub open spec fn tile_text_cells(ws: Seq<Seq<char>>, k: int) -> Seq<(usize, char)>
    decreases k,
{
    if k <= 0 {
        seq![]
    } else {
        let w = ws[k - 1];
        let n = if w.len() < 10 { w.len() as int } else { 10 };
        tile_text_cells(ws, k - 1) + Seq::new(n as nat, |i: int| ((k * 12 + 1 + i) as usize, w[i]))
    }
}

/// The text cells shown on a tile for `text`.
pub open spec fn tile_text(text: Seq<char>) -> Seq<(usize, char)> {
    let ws = words(text);
    tile_text_cells(ws, if ws.len() < 5 { ws.len() as int } else { 5 })
}

/// The cells (frame index, character) that show `text` on a tile.
pub fn update_tile_text(text: &Vec<char>) -> (cells: Vec<(usize, char)>)
    ensures
        cells@ == tile_text(text@),
{
    let ws = crate::selector::split_words(text);
    let ghost wv = ws@.map_values(|w: Vec<char>| w@);
    let n = if ws.len() < 5 {
        ws.len()
    } else {
        5
    };
    let mut cells: Vec<(usize, char)> = Vec::new();
    let mut k: usize = 0;
    while k < n
        invariant
            k <= n <= 5,
            n <= ws.len(),
            wv == ws@.map_values(|w: Vec<char>| w@),
            cells@ == tile_text_cells(wv, k as int),
        decreases n - k,
    {
        let w = &ws[k];
        proof {
            assert(wv[k as int] == w@);
        }
        let m = if w.len() < 10 {
            w.len()
        } else {
            10
        };
        let ghost before = cells@;
        let mut i: usize = 0;
        while i < m
            invariant
                i <= m <= 10,
                m <= w.len(),
                k < 5,
                cells@ == before + Seq::new(i as nat, |j: int| (((k + 1) * 12 + 1 + j) as usize, w@[j])),
            decreases m - i,
        {
            cells.push(((k + 1) * 12 + 1 + i, w[i]));
            i = i + 1;
            proof {
                assert(cells@ =~= before + Seq::new(
                    i as nat,
                    |j: int| (((k + 1) * 12 + 1 + j) as usize, w@[j]),
                ));
            }
        }
        k = k + 1;
        proof {
            assert(cells@ =~= tile_text_cells(wv, k as int));
        }
    }
    cells
}

/// The lowercase hexadecimal digits of `n`, without leading zeros.
pub open spec fn hex(n: nat) -> Seq<char>
    decreases n,
{
    if n < 16 {
        seq![hex_digit(n)]
    } else {
        hex(n / 16).push(hex_digit(n % 16))
    }
}

pub open spec fn hex_digit(d: nat) -> char {
    if d < 10 {
        (d + 48) as char
    } else {
        (d + 87) as char
    }
}

fn hex_digit_char(d: u64) -> (c: char)
    requires
        d < 16,
    ensures
        c == hex_digit(d as nat),
{
    if d < 10 {
        ((d + 48) as u8) as char
    } else {
        ((d + 87) as u8) as char
    }
}

/// The hexadecimal digits of `n`.
pub fn hex_of(n: u64) -> (v: Vec<char>)
    ensures
        v@ == hex(n as nat),
    decreases n,
{
    if n < 16 {
        let mut v: Vec<char> = Vec::new();
        v.push(hex_digit_char(n));
        v
    } else {
        let mut v = hex_of(n / 16);
        v.push(hex_digit_char(n % 16));
        v
    }
}

/// The label of a neighbor's tile: `Nejbor ` and the neighbor's id in hexadecimal.
pub fn neighbor_label(n_id: u64) -> (v: Vec<char>)
    ensures
        v@ == "Nejbor "@ + hex(n_id as nat),
{
    let mut v = crate::chars::chars_of("Nejbor ");
    let h = hex_of(n_id);
    let ghost a = v@;
    let mut i: usize = 0;
    while i < h.len()
        invariant
            i <= h.len(),
            v@ == a + h@.subrange(0, i as int),
        decreases h.len() - i,
    {
        v.push(h[i]);
        i = i + 1;
        proof {
            assert(v@ =~= a + h@.subrange(0, i as int));
        }
    }
    proof {
        assert(h@.subrange(0, h.len() as int) =~= h@);
    }
    v
}

/// Where tile (`row`, `col`) goes on the screen: columns 12 cells apart
/// with a gap of 4 after the second; rows alternately 7 and 8 cells apart.
pub open spec fn tile_offset(row: int, col: int) -> (int, int) {
    (
        if col > 1 { 4 + col * 12 } else { col * 12 },
        if row % 2 == 0 {
            row * 7
        } else if row > 1 {
            row * 8 - 2
        } else {
            row * 8
        },
    )
}

/// The first neighbor location listed for `n_id`.
pub open spec fn neighbor_lookup(ns: Seq<(u64, (u8, u8))>, n_id: u64) -> Option<(u8, u8)>
    decreases ns.len(),
{
    if ns.len() == 0 {
        None
    } else if ns[0].0 == n_id {
        Some(ns[0].1)
    } else {
        neighbor_lookup(ns.drop_first(), n_id)
    }
}

/// The selection one step in `dir`, wrapping around, and whether it wrapped.
pub open spec fn next_tile(sel: (u8, u8), dir: crate::text_buffer::Direction, cols: u8, rows: u8) -> ((u8, u8), bool) {
    match dir {
        crate::text_buffer::Direction::Left => if sel.1 == 0 {
            ((sel.0, (cols - 1) as u8), true)
        } else {
            ((sel.0, (sel.1 - 1) as u8), false)
        },
        crate::text_buffer::Direction::Right => if sel.1 + 1 == cols {
            ((sel.0, 0u8), true)
        } else {
            ((sel.0, ((sel.1 + 1) % 256) as u8), false)
        },
        crate::text_buffer::Direction::Up => if sel.0 == 0 {
            (((rows - 1) as u8, sel.1), true)
        } else {
            (((sel.0 - 1) as u8, sel.1), false)
        },
        crate::text_buffer::Direction::Down => if sel.0 + 1 == rows {
            ((0u8, sel.1), true)
        } else {
            ((((sel.0 + 1) % 256) as u8, sel.1), false)
        },
    }
}

/// The tiles as plain values, with the grid's size.
pub struct Grid {
    pub tiles: Seq<Tile>,
    pub cols: u8,
    pub rows: u8,
}

impl Grid {
    pub open spec fn placed(self) -> bool {
        self.tiles.len() == self.rows * self.cols && self.tiles.len() > 0
    }

    pub open spec fn has(self, r: int, c: int) -> bool {
        self.placed() && 0 <= r < self.rows && 0 <= c < self.cols
    }

    pub open spec fn tile(self, r: int, c: int) -> Tile {
        self.tiles[slot(r, c, self.cols as int)]
    }

    /// The grid with tile (`r`, `c`) showing `t` with frames `f`.
    pub open spec fn set(self, r: int, c: int, t: TileType, f: (usize, usize)) -> Grid {
        if self.has(r, c) {
            let k = slot(r, c, self.cols as int);
            Grid {
                tiles: self.tiles.update(
                    k,
                    Tile { tile_type: t, select_frame: f.0, deselect_frame: f.1, ..self.tiles[k] },
                ),
                ..self
            }
        } else {
            self
        }
    }
}

/// The village grid: `tiles_in_row` columns and `visible_rows` rows of
/// tiles (row-major, empty before the tiles are placed), the home tile,
/// the selected tile, the neighbors' tiles, and the rows of each street.
pub struct VillageLayout {
    pub founder: u64,
    pub tiles_in_row: u8,
    pub visible_rows: u8,
    pub home_tile: (u8, u8),
    pub selected_tile: (u8, u8),
    pub tiles: Vec<Tile>,
    pub neighbors: Vec<(u64, (u8, u8))>,
    pub street_to_rows: Vec<(String, Vec<u8>)>,
}

/// The index of tile (`r`, `c`) in a grid of `cols` columns.
pub open spec fn slot(r: int, c: int, cols: int) -> int {
    r * cols + c
}

impl VillageLayout {
    pub open spec fn grid(&self) -> Grid {
        Grid { tiles: self.tiles@, cols: self.tiles_in_row, rows: self.visible_rows }
    }

    /// Tile (`r`, `c`) exists.
    pub open spec fn has(&self, r: int, c: int) -> bool {
        self.grid().has(r, c)
    }

    pub open spec fn tile(&self, r: int, c: int) -> Tile {
        self.grid().tile(r, c)
    }

    /// A layout for a screen of `x_size` by `y_size` cells: a tile is 12
    /// columns wide, every 8 rows start a row of tiles, plus one.
    pub fn new(size: (usize, usize)) -> (v: VillageLayout)
        requires
            (size.1 / 8) % 256 < 255,
        ensures
            v.tiles_in_row == (size.0 / 12) % 256,
            v.visible_rows == (size.1 / 8) % 256 + 1,
            v.home_tile == (2u8, 1u8),
            v.selected_tile == (2u8, 1u8),
            v.tiles@.len() == 0,
            v.neighbors@.len() == 0,
            v.street_to_rows@.len() == 0,
    {
        let cols = ((size.0 / 12) % 256) as u8;
        let rows = ((size.1 / 8) % 256) as u8 + 1;
        VillageLayout {
            founder: u64::MAX,
            tiles_in_row: cols,
            visible_rows: rows,
            home_tile: (2, 1),
            selected_tile: (2, 1),
            tiles: Vec::new(),
            neighbors: Vec::new(),
            street_to_rows: Vec::new(),
        }
    }

    /// Where each tile goes on the screen, row by row.
    pub fn tile_offsets(&self) -> (offs: Vec<(isize, isize)>)
        ensures
            offs@.len() == self.visible_rows * self.tiles_in_row,
            forall|r: int, c: int|
                0 <= r < self.visible_rows && 0 <= c < self.tiles_in_row ==> (#[trigger] offs@[slot(
                    r,
                    c,
                    self.tiles_in_row as int,
                )]).0 == tile_offset(r, c).0 && offs@[slot(r, c, self.tiles_in_row as int)].1
                    == tile_offset(r, c).1,
    {
        let rows = self.visible_rows;
        let cols = self.tiles_in_row;
        let mut offs: Vec<(isize, isize)> = Vec::new();
        let mut r: u8 = 0;
        while r < rows
            invariant
                r <= rows,
                rows == self.visible_rows,
                cols == self.tiles_in_row,
                offs@.len() == r * cols,
                forall|rr: int, c: int|
                    0 <= rr < r && 0 <= c < cols ==> (#[trigger] offs@[slot(rr, c, cols as int)]).0
                        == tile_offset(rr, c).0 && offs@[slot(rr, c, cols as int)].1 == tile_offset(
                        rr,
                        c,
                    ).1,
            decreases rows - r,
        {
            let mut c: u8 = 0;
            let ghost base = offs@.len();
            while c < cols
                invariant
                    c <= cols,
                    r < rows,
                    rows == self.visible_rows,
                    cols == self.tiles_in_row,
                    base == r * cols,
                    offs@.len() == base + c,
                    forall|rr: int, cc: int|
                        0 <= rr < r && 0 <= cc < cols ==> (#[trigger] offs@[slot(rr, cc, cols as int)]).0
                            == tile_offset(rr, cc).0 && offs@[slot(rr, cc, cols as int)].1
                            == tile_offset(rr, cc).1,
                    forall|cc: int|
                        0 <= cc < c ==> (#[trigger] offs@[slot(r as int, cc, cols as int)]).0
                            == tile_offset(r as int, cc).0 && offs@[slot(r as int, cc, cols as int)].1
                            == tile_offset(r as int, cc).1,
                decreases cols - c,
            {
                let off_x: isize = if c > 1 {
                    4 + (c as isize) * 12
                } else {
                    (c as isize) * 12
                };
                let off_y: isize = if r % 2 == 0 {
                    (r as isize) * 7
                } else if r > 1 {
                    (r as isize) * 8 - 2
                } else {
                    (r as isize) * 8
                };
                proof {
                    assert(slot(r as int, c as int, cols as int) == base + c);
                    assert forall|rr: int, cc: int|
                        0 <= rr < r && 0 <= cc < cols implies slot(rr, cc, cols as int) < base by {
                        assert(rr * cols + cc < (rr + 1) * cols) by (nonlinear_arith)
                            requires
                                cc < cols,
                        ;
                        assert((rr + 1) * cols <= r * cols) by (nonlinear_arith)
                            requires
                                rr + 1 <= r,
                                cols >= 0,
                        ;
                    }
                    assert forall|cc: int| 0 <= cc < c implies slot(r as int, cc, cols as int) < base + c by {}
                }
                offs.push((off_x, off_y));
                c = c + 1;
            }
            proof {
                assert(r * cols + cols == (r + 1) * cols) by (nonlinear_arith);
                assert forall|rr: int, cc: int|
                    0 <= rr < r + 1 && 0 <= cc < cols implies (#[trigger] offs@[slot(
                        rr,
                        cc,
                        cols as int,
                    )]).0 == tile_offset(rr, cc).0 && offs@[slot(rr, cc, cols as int)].1
                        == tile_offset(rr, cc).1 by {
                    if rr < r {
                    } else {
                        assert(rr == r);
                    }
                }
            }
            r = r + 1;
        }
        offs
    }

    /// Places the tiles (graphic and text ids, row by row), all empty
    /// fields but the home tile, which shows `owner_id`'s home; the owner
    /// becomes the village's founder. Gives the number of visible streets.
    pub fn initialize(&mut self, owner_id: u64, ids: Vec<(usize, usize)>) -> (streets: u8)
        requires
            ids@.len() == old(self).visible_rows * old(self).tiles_in_row,
        ensures
            streets == old(self).visible_rows / 2,
            final(self).founder == owner_id,
            final(self).tiles_in_row == old(self).tiles_in_row,
            final(self).visible_rows == old(self).visible_rows,
            final(self).home_tile == old(self).home_tile,
            final(self).selected_tile == old(self).selected_tile,
            final(self).neighbors@ == old(self).neighbors@,
            final(self).tiles@.len() == ids@.len(),
            forall|k: int|
                0 <= k < ids@.len() ==> (#[trigger] final(self).tiles@[k]).id == ids@[k].0
                    && final(self).tiles@[k].text_id == ids@[k].1,
            forall|k: int|
                0 <= k < ids@.len() && (!(old(self).home_tile.0 < old(self).visible_rows
                    && old(self).home_tile.1 < old(self).tiles_in_row) || k != slot(old(self).home_tile.0 as int, old(self).home_tile.1 as int, old(self).tiles_in_row as int))
                    ==> (#[trigger] final(self).tiles@[k]).tile_type == TileType::Field
                    && final(self).tiles@[k].select_frame == 1 && final(self).tiles@[k].deselect_frame == 0,
            ids@.len() > 0 && old(self).home_tile.0 < old(self).visible_rows && old(self).home_tile.1 < old(self).tiles_in_row
                ==> final(self).tile(old(self).home_tile.0 as int, old(self).home_tile.1 as int).tile_type == TileType::Home(owner_id)
                && final(self).tile(old(self).home_tile.0 as int, old(self).home_tile.1 as int).select_frame == 9,
    {
        self.founder = owner_id;
        let mut tiles: Vec<Tile> = Vec::new();
        let mut k: usize = 0;
        while k < ids.len()
            invariant
                k <= ids@.len(),
                tiles@.len() == k,
                forall|j: int|
                    0 <= j < k ==> (#[trigger] tiles@[j]) == (Tile {
                        id: ids@[j].0,
                        text_id: ids@[j].1,
                        tile_type: TileType::Field,
                        select_frame: 1,
                        deselect_frame: 0,
                    }),
            decreases ids@.len() - k,
        {
            tiles.push(Tile::new(ids[k].0, ids[k].1));
            k = k + 1;
        }
        self.tiles = tiles;
        let (hr, hc) = self.home_tile;
        if ids.len() > 0 && hr < self.visible_rows && hc < self.tiles_in_row {
            proof {
                assert(hr * self.tiles_in_row + hc < self.visible_rows * self.tiles_in_row) by (nonlinear_arith)
                    requires
                        hr < self.visible_rows,
                        hc < self.tiles_in_row,
                ;
            }
            let i = (hr as usize) * (self.tiles_in_row as usize) + (hc as usize);
            let mut t = self.tiles[i];
            t.set_to_home(owner_id, true);
            self.tiles.set(i, t);
        }
        self.visible_rows / 2
    }

    /// The owner shown on the home tile, if the home tile shows a home.
    pub fn get_owner(&self) -> (o: Option<u64>)
        ensures
            o == (if self.has(self.home_tile.0 as int, self.home_tile.1 as int) {
                match self.tile(self.home_tile.0 as int, self.home_tile.1 as int).tile_type {
                    TileType::Home(owner) => Some(owner),
                    _ => None,
                }
            } else {
                None
            }),
    {
        let (hr, hc) = self.home_tile;
        proof {
            assert((self.visible_rows as u64) * (self.tiles_in_row as u64) <= 65025) by (nonlinear_arith)
                requires
                    self.visible_rows <= 255,
                    self.tiles_in_row <= 255,
            ;
        }
        if self.tiles.len() > 0 && (self.tiles.len() as u64) == (self.visible_rows as u64) * (self.tiles_in_row as u64)
            && hr < self.visible_rows && hc < self.tiles_in_row {
            proof {
                assert(hr * self.tiles_in_row + hc < self.visible_rows * self.tiles_in_row) by (nonlinear_arith)
                    requires
                        hr < self.visible_rows,
                        hc < self.tiles_in_row,
                ;
            }
            let i = (hr as usize) * (self.tiles_in_row as usize) + (hc as usize);
            match self.tiles[i].tile_type {
                TileType::Home(owner) => Some(owner),
                _ => None,
            }
        } else {
            None
        }
    }

    /// The index of tile (`r`, `c`) when it exists.
    fn find(&self, r: u8, c: u8) -> (i: Option<usize>)
        ensures
            i is Some <==> self.has(r as int, c as int),
            i matches Some(k) ==> k as int == slot(r as int, c as int, self.tiles_in_row as int) && k
                < self.tiles@.len(),
    {
        proof {
            assert((self.visible_rows as u64) * (self.tiles_in_row as u64) <= 65025) by (nonlinear_arith)
                requires
                    self.visible_rows <= 255,
                    self.tiles_in_row <= 255,
            ;
        }
        if self.tiles.len() > 0 && (self.tiles.len() as u64) == (self.visible_rows as u64) * (self.tiles_in_row as u64)
            && r < self.visible_rows && c < self.tiles_in_row {
            proof {
                assert(r * self.tiles_in_row + c < self.visible_rows * self.tiles_in_row) by (nonlinear_arith)
                    requires
                        r < self.visible_rows,
                        c < self.tiles_in_row,
                ;
            }
            Some((r as usize) * (self.tiles_in_row as usize) + (c as usize))
        } else {
            None
        }
    }

    /// Shows `owner_id`'s home on the home tile.
    pub fn set_owner(&mut self, owner_id: u64)
        ensures
            final(self).founder == old(self).founder,
            final(self).tiles_in_row == old(self).tiles_in_row,
            final(self).visible_rows == old(self).visible_rows,
            final(self).home_tile == old(self).home_tile,
            final(self).selected_tile == old(self).selected_tile,
            final(self).neighbors@ == old(self).neighbors@,
            final(self).tiles@ == if old(self).has(old(self).home_tile.0 as int, old(self).home_tile.1 as int) {
                let k = slot(old(self).home_tile.0 as int, old(self).home_tile.1 as int, old(self).tiles_in_row as int);
                let t = old(self).tiles@[k];
                let f = frames(TileType::Home(owner_id), owner_id == old(self).founder);
                old(self).tiles@.update(k, Tile { tile_type: TileType::Home(owner_id), select_frame: f.0, deselect_frame: f.1, ..t })
            } else {
                old(self).tiles@
            },
    {
        let (hr, hc) = self.home_tile;
        match self.find(hr, hc) {
            Some(i) => {
                let mut t = self.tiles[i];
                t.set_to_home(owner_id, owner_id == self.founder);
                self.tiles.set(i, t);
            },
            None => {},
        }
    }

    /// Selects tile `idx` when it exists.
    pub fn select(&mut self, idx: (u8, u8))
        ensures
            final(self).selected_tile == if old(self).has(idx.0 as int, idx.1 as int) {
                idx
            } else {
                old(self).selected_tile
            },
            final(self).tiles@ == old(self).tiles@,
            final(self).neighbors@ == old(self).neighbors@,
            final(self).tiles_in_row == old(self).tiles_in_row,
            final(self).visible_rows == old(self).visible_rows,
    {
        if self.find(idx.0, idx.1).is_some() {
            self.selected_tile = idx;
        }
    }

    /// What the selected tile shows.
    pub fn get_selection(&self) -> (t: TileType)
        requires
            self.has(self.selected_tile.0 as int, self.selected_tile.1 as int),
        ensures
            t == self.tile(self.selected_tile.0 as int, self.selected_tile.1 as int).tile_type,
    {
        let i = self.find(self.selected_tile.0, self.selected_tile.1).unwrap();
        self.tiles[i].tile_type
    }

    /// The first field tile for a neighbor, searched as the village searches
    /// it: for each `y`, tile (row 0, column `y`) when it exists, answered as
    /// (`y`, 0); otherwise tile (row 1, column `y`), answered as (`y`, 1).
    /// (255, 255) when there is none.
    pub fn next_neighbor_field_tile(&self) -> (pos: (u8, u8))
        ensures
            pos == spec_next_neighbor_field(self.grid(), 0),
    {
        let mut y: u8 = 0;
        while y < self.visible_rows
            invariant
                y <= self.visible_rows,
                spec_next_neighbor_field(self.grid(), y as int) == spec_next_neighbor_field(self.grid(), 0),
            decreases self.visible_rows - y,
        {
            match self.find(0, y) {
                Some(i) => {
                    if self.tiles[i].tile_type.is_field() {
                        return (y, 0);
                    }
                },
                None => match self.find(1, y) {
                    Some(i) => {
                        if self.tiles[i].tile_type.is_field() {
                            return (y, 1);
                        }
                    },
                    None => {},
                },
            }
            y = y + 1;
        }
        (255, 255)
    }

    /// The first field tile on the given rows, column by column from the
    /// third column; (255, 255) when there is none.
    pub fn next_field_tile(&self, restricted_rows: &Vec<u8>) -> (pos: (u8, u8))
        ensures
            pos == spec_next_field(self.grid(), restricted_rows@, 2, 0),
    {
        let mut x: u8 = 2;
        while x < self.tiles_in_row
            invariant
                2 <= x,
                spec_next_field(self.grid(), restricted_rows@, x as int, 0) == spec_next_field(self.grid(), restricted_rows@, 2, 0),
            decreases self.tiles_in_row - x,
        {
            let mut k: usize = 0;
            while k < restricted_rows.len()
                invariant
                    k <= restricted_rows@.len(),
                    2 <= x < self.tiles_in_row,
                    spec_next_field(self.grid(), restricted_rows@, x as int, k as int) == spec_next_field(self.grid(), restricted_rows@, 2, 0),
                decreases restricted_rows@.len() - k,
            {
                let y = restricted_rows[k];
                match self.find(y, x) {
                    Some(i) => {
                        if self.tiles[i].tile_type.is_field() {
                            return (y, x);
                        }
                    },
                    None => {},
                }
                k = k + 1;
            }
            proof {
                assert(spec_next_field(self.grid(), restricted_rows@, x as int, k as int) == spec_next_field(
                    self.grid(),
                    restricted_rows@,
                    x + 1,
                    0,
                ));
            }
            x = x + 1;
        }
        (255, 255)
    }

    /// Moves the selection one tile, wrapping around the grid; tells whether
    /// it left the screen's edge. The selection changes only onto an existing tile.
    pub fn select_next(&mut self, direction: crate::text_buffer::Direction) -> (out_of_screen: bool)
        requires
            old(self).tiles_in_row > 0,
            old(self).visible_rows > 0,
        ensures
            (final(self).selected_tile, out_of_screen) == {
                let n = next_tile(old(self).selected_tile, direction, old(self).tiles_in_row, old(self).visible_rows);
                (if old(self).has(n.0.0 as int, n.0.1 as int) { n.0 } else { old(self).selected_tile }, n.1)
            },
            final(self).tiles@ == old(self).tiles@,
            final(self).neighbors@ == old(self).neighbors@,
            final(self).tiles_in_row == old(self).tiles_in_row,
            final(self).visible_rows == old(self).visible_rows,
    {
        let (r, c) = self.selected_tile;
        let (new_index, out) = match direction {
            crate::text_buffer::Direction::Left => if c == 0 {
                ((r, self.tiles_in_row - 1), true)
            } else {
                ((r, c - 1), false)
            },
            crate::text_buffer::Direction::Right => if c as u16 + 1 == self.tiles_in_row as u16 {
                ((r, 0), true)
            } else {
                ((r, ((c as u16 + 1) % 256) as u8), false)
            },
            crate::text_buffer::Direction::Up => if r == 0 {
                ((self.visible_rows - 1, c), true)
            } else {
                ((r - 1, c), false)
            },
            crate::text_buffer::Direction::Down => if r as u16 + 1 == self.visible_rows as u16 {
                ((0, c), true)
            } else {
                ((((r as u16 + 1) % 256) as u8, c), false)
            },
        };
        self.select(new_index);
        out
    }

    /// Where the context menu opens: right of the selected tile (left of the
    /// last column), and on its row (one row up on the last row).
    pub fn cm_position(&self) -> (pos: (isize, isize))
        requires
            self.tiles_in_row > 0,
        ensures
            pos.0 == if self.selected_tile.1 >= self.tiles_in_row - 1 {
                (self.tiles_in_row - 1) * 12
            } else {
                (self.selected_tile.1 + 1) * 12
            },
            pos.1 == if self.selected_tile.0 + 1 >= self.visible_rows {
                (self.selected_tile.0 - 1) * 8
            } else {
                self.selected_tile.0 * 8
            },
    {
        let x: isize = if self.selected_tile.1 >= self.tiles_in_row - 1 {
            (self.tiles_in_row as isize - 1) * 12
        } else {
            (self.selected_tile.1 as isize + 1) * 12
        };
        let y: isize = if self.selected_tile.0 as u16 + 1 >= self.visible_rows as u16 {
            (self.selected_tile.0 as isize - 1) * 8
        } else {
            (self.selected_tile.0 as isize) * 8
        };
        (x, y)
    }

    /// The location of neighbor `n_id`'s tile, if known.
    fn neighbor_at(&self, n_id: u64) -> (loc: Option<(u8, u8)>)
        ensures
            loc == neighbor_lookup(self.neighbors@, n_id),
    {
        let mut k: usize = 0;
        proof {
            assert(self.neighbors@.subrange(0, self.neighbors@.len() as int) =~= self.neighbors@);
        }
        while k < self.neighbors.len()
            invariant
                k <= self.neighbors@.len(),
                neighbor_lookup(self.neighbors@.subrange(k as int, self.neighbors@.len() as int), n_id)
                    == neighbor_lookup(self.neighbors@, n_id),
            decreases self.neighbors@.len() - k,
        {
            let ghost rest = self.neighbors@.subrange(k as int, self.neighbors@.len() as int);
            if self.neighbors[k].0 == n_id {
                return Some(self.neighbors[k].1);
            }
            proof {
                assert(rest.drop_first() =~= self.neighbors@.subrange(k + 1, self.neighbors@.len() as int));
            }
            k = k + 1;
        }
        None
    }

    /// Gives neighbor `n_id` a tile: its known tile, or the next free one
    /// (see `next_neighbor_field_tile`), which then shows the neighbor.
    pub fn add_new_neighbor(&mut self, n_id: u64) -> (loc: (u8, u8))
        ensures
            final(self).tiles_in_row == old(self).tiles_in_row,
            final(self).visible_rows == old(self).visible_rows,
            final(self).selected_tile == old(self).selected_tile,
            match neighbor_lookup(old(self).neighbors@, n_id) {
                Some(l) => loc == l && final(self).neighbors@ == old(self).neighbors@
                    && final(self).tiles@ == old(self).tiles@,
                None => {
                    &&& loc == spec_next_neighbor_field(old(self).grid(), 0)
                    &&& final(self).neighbors@ == old(self).neighbors@.push((n_id, loc))
                    &&& final(self).tiles@ == if old(self).has(loc.0 as int, loc.1 as int) {
                        let k = slot(loc.0 as int, loc.1 as int, old(self).tiles_in_row as int);
                        old(self).tiles@.update(k, Tile { tile_type: TileType::Neighbor(n_id), select_frame: 7, deselect_frame: 6, ..old(self).tiles@[k] })
                    } else {
                        old(self).tiles@
                    }
                },
            },
    {
        match self.neighbor_at(n_id) {
            Some(l) => l,
            None => {
                let loc = self.next_neighbor_field_tile();
                self.neighbors.push((n_id, loc));
                match self.find(loc.0, loc.1) {
                    Some(i) => {
                        let mut t = self.tiles[i];
                        t.set_to_neighbor(n_id);
                        self.tiles.set(i, t);
                    },
                    None => {},
                }
                loc
            },
        }
    }

    /// Turns neighbor `n_id`'s tile back into a field and gives its
    /// location; (255, 255) for an unknown neighbor. The neighbor stays listed.
    pub fn remove_neighbor(&mut self, n_id: u64) -> (loc: (u8, u8))
        ensures
            final(self).neighbors@ == old(self).neighbors@,
            final(self).tiles_in_row == old(self).tiles_in_row,
            final(self).visible_rows == old(self).visible_rows,
            match neighbor_lookup(old(self).neighbors@, n_id) {
                Some(l) => loc == l && final(self).tiles@ == if old(self).has(l.0 as int, l.1 as int) {
                    let k = slot(l.0 as int, l.1 as int, old(self).tiles_in_row as int);
                    old(self).tiles@.update(k, Tile { tile_type: TileType::Field, select_frame: 1, deselect_frame: 0, ..old(self).tiles@[k] })
                } else {
                    old(self).tiles@
                },
                None => loc == (255u8, 255u8) && final(self).tiles@ == old(self).tiles@,
            },
    {
        match self.neighbor_at(n_id) {
            Some(l) => {
                match self.find(l.0, l.1) {
                    Some(i) => {
                        let mut t = self.tiles[i];
                        t.set_to_field();
                        self.tiles.set(i, t);
                    },
                    None => {},
                }
                l
            },
            None => (255, 255),
        }
    }

    pub open spec fn streets(&self) -> Seq<(Seq<char>, Seq<u8>)> {
        self.street_to_rows@.map_values(|e: (String, Vec<u8>)| (e.0@, e.1@))
    }

    /// Changes tile `k` to show `t` with frames `f`.
    fn set_tile(&mut self, k: usize, t: TileType, f: (usize, usize))
        requires
            k < old(self).tiles@.len(),
        ensures
            final(self).tiles@ == old(self).tiles@.update(
                k as int,
                Tile { tile_type: t, select_frame: f.0, deselect_frame: f.1, ..old(self).tiles@[k as int] },
            ),
            final(self).tiles_in_row == old(self).tiles_in_row,
            final(self).visible_rows == old(self).visible_rows,
            final(self).neighbors@ == old(self).neighbors@,
            final(self).street_to_rows@ == old(self).street_to_rows@,
            final(self).selected_tile == old(self).selected_tile,
            final(self).home_tile == old(self).home_tile,
            final(self).founder == old(self).founder,
    {
        let mut tile = self.tiles[k];
        tile.tile_type = t;
        tile.select_frame = f.0;
        tile.deselect_frame = f.1;
        self.tiles.set(k, tile);
    }

    /// Places each content on the first field of the rows.
    pub fn add_contents_to_rows(&mut self, contents: &Vec<(u8, u16)>, restricted_rows: &Vec<u8>)
        ensures
            final(self).grid() == place_contents(old(self).grid(), restricted_rows@, contents@, contents@.len() as int),
            final(self).tiles_in_row == old(self).tiles_in_row,
            final(self).visible_rows == old(self).visible_rows,
            final(self).neighbors@ == old(self).neighbors@,
            final(self).street_to_rows@ == old(self).street_to_rows@,
            final(self).selected_tile == old(self).selected_tile,
            final(self).home_tile == old(self).home_tile,
            final(self).founder == old(self).founder,
    {
        let mut j: usize = 0;
        while j < contents.len()
            invariant
                j <= contents@.len(),
                self.grid() == place_contents(old(self).grid(), restricted_rows@, contents@, j as int),
                self.tiles_in_row == old(self).tiles_in_row,
                self.visible_rows == old(self).visible_rows,
                self.neighbors@ == old(self).neighbors@,
                self.street_to_rows@ == old(self).street_to_rows@,
                self.selected_tile == old(self).selected_tile,
                self.home_tile == old(self).home_tile,
                self.founder == old(self).founder,
            decreases contents@.len() - j,
        {
            let (d, c) = contents[j];
            let loc = self.next_field_tile(restricted_rows);
            match self.find(loc.0, loc.1) {
                Some(k) => {
                    self.set_tile(k, TileType::Content(d, c), (5, 4));
                },
                None => {},
            }
            j = j + 1;
            proof {
                assert(self.grid() =~= place_contents(old(self).grid(), restricted_rows@, contents@, j as int));
            }
        }
    }

    /// The rows of the street named `name`.
    fn street_of(&self, name: &String) -> (rows: Option<&Vec<u8>>)
        ensures
            match rows {
                Some(r) => street_lookup(self.streets(), name@) == Some(r@),
                None => street_lookup(self.streets(), name@) is None,
            },
    {
        let mut k: usize = 0;
        proof {
            assert(self.streets().subrange(0, self.streets().len() as int) =~= self.streets());
        }
        while k < self.street_to_rows.len()
            invariant
                k <= self.street_to_rows@.len(),
                street_lookup(self.streets().subrange(k as int, self.streets().len() as int), name@)
                    == street_lookup(self.streets(), name@),
            decreases self.street_to_rows@.len() - k,
        {
            let ghost rest = self.streets().subrange(k as int, self.streets().len() as int);
            proof {
                assert(rest[0] == (self.street_to_rows@[k as int].0@, self.street_to_rows@[k as int].1@));
            }
            if self.street_to_rows[k].0 == *name {
                return Some(&self.street_to_rows[k].1);
            }
            proof {
                assert(rest.drop_first() =~= self.streets().subrange(k + 1, self.streets().len() as int));
            }
            k = k + 1;
        }
        None
    }

    /// Gives the street named `name` the rows `rows` (see `street_insert`).
    fn insert_street(&mut self, name: String, rows: Vec<u8>)
        ensures
            final(self).streets() == street_insert(old(self).streets(), name@, rows@),
            final(self).tiles@ == old(self).tiles@,
            final(self).tiles_in_row == old(self).tiles_in_row,
            final(self).visible_rows == old(self).visible_rows,
            final(self).neighbors@ == old(self).neighbors@,
            final(self).selected_tile == old(self).selected_tile,
            final(self).home_tile == old(self).home_tile,
            final(self).founder == old(self).founder,
    {
        let ghost st = self.streets();
        let mut k: usize = 0;
        proof {
            assert(st.subrange(0, st.len() as int) =~= st);
        }
        while k < self.street_to_rows.len()
            invariant
                k <= self.street_to_rows@.len(),
                st == self.streets(),
                self.street_to_rows@ == old(self).street_to_rows@,
                self.tiles@ == old(self).tiles@,
                self.tiles_in_row == old(self).tiles_in_row,
                self.visible_rows == old(self).visible_rows,
                self.neighbors@ == old(self).neighbors@,
                self.selected_tile == old(self).selected_tile,
                self.home_tile == old(self).home_tile,
                self.founder == old(self).founder,
                street_index(st, name@) == k + street_index(st.subrange(k as int, st.len() as int), name@),
            decreases self.street_to_rows@.len() - k,
        {
            let ghost rest = st.subrange(k as int, st.len() as int);
            proof {
                assert(rest[0] == (self.street_to_rows@[k as int].0@, self.street_to_rows@[k as int].1@));
            }
            if self.street_to_rows[k].0 == name {
                let ghost old_list = self.street_to_rows@;
                self.street_to_rows.set(k, (name, rows));
                proof {
                    assert(self.streets() =~= st.update(k as int, (name@, rows@)));
                }
                return;
            }
            proof {
                assert(rest.drop_first() =~= st.subrange(k + 1, st.len() as int));
            }
            k = k + 1;
        }
        let ghost nm = name@;
        let ghost rw = rows@;
        self.street_to_rows.push((name, rows));
        proof {
            assert(self.streets() =~= st.push((nm, rw)));
        }
    }

    /// Names the visible streets, giving each its rows, and places each
    /// street's contents on its rows.
    pub fn set_street_names(&mut self, names: Vec<(String, Vec<(u8, u16)>)>)
        requires
            names@.len() <= 128,
        ensures
            (final(self).grid(), final(self).streets()) == named_streets(
                old(self).grid(),
                names@.map_values(|e: (String, Vec<(u8, u16)>)| (e.0@, e.1@)),
                names@.len() as int,
            ),
            final(self).neighbors@ == old(self).neighbors@,
            final(self).selected_tile == old(self).selected_tile,
            final(self).home_tile == old(self).home_tile,
            final(self).founder == old(self).founder,
    {
        let ghost nv = names@.map_values(|e: (String, Vec<(u8, u16)>)| (e.0@, e.1@));
        let ghost g0 = self.grid();
        self.street_to_rows = Vec::new();
        proof {
            assert(self.streets() =~= Seq::<(Seq<char>, Seq<u8>)>::empty());
        }
        let n = names.len();
        let mut i: usize = 0;
        let mut rest = names;
        let mut items: Vec<(String, Vec<(u8, u16)>)> = Vec::new();
        // walk the names in order
        let mut idx: usize = 0;
        while idx < n
            invariant
                n == nv.len(),
                n <= 128,
                idx <= n,
                rest@.len() == n,
                nv == rest@.map_values(|e: (String, Vec<(u8, u16)>)| (e.0@, e.1@)),
                self.tiles_in_row == old(self).tiles_in_row,
                self.visible_rows == old(self).visible_rows,
                g0.cols == old(self).tiles_in_row,
                g0.rows == old(self).visible_rows,
                g0 == old(self).grid(),
                (self.grid(), self.streets()) == named_streets(g0, nv, idx as int),
                self.neighbors@ == old(self).neighbors@,
                self.selected_tile == old(self).selected_tile,
                self.home_tile == old(self).home_tile,
                self.founder == old(self).founder,
            decreases n - idx,
        {
            let r2: u8 = (2 * idx) as u8;
            let mut rows: Vec<u8> = Vec::new();
            rows.push(r2);
            if (1 + 2 * idx) < self.visible_rows as usize {
                rows.push(r2 + 1);
            }
            proof {
                assert(rows@ =~= street_rows(idx as int, g0.rows as int));
                assert(nv[idx as int] == (rest@[idx as int].0@, rest@[idx as int].1@));
            }
            self.add_contents_to_rows(&rest[idx].1, &rows);
            let name = rest[idx].0.clone();
            self.insert_street(name, rows);
            idx = idx + 1;
        }
    }

    /// Places content `c_id` on the first field of each tag's street.
    pub fn add_new_content(&mut self, d_type: u8, c_id: u16, tags: &Vec<String>)
        ensures
            final(self).grid() == place_tagged(
                old(self).grid(),
                old(self).streets(),
                tags@.map_values(|t: String| t@),
                d_type,
                c_id,
                tags@.len() as int,
            ),
            final(self).street_to_rows@ == old(self).street_to_rows@,
            final(self).neighbors@ == old(self).neighbors@,
            final(self).selected_tile == old(self).selected_tile,
    {
        let ghost tv = tags@.map_values(|t: String| t@);
        let mut j: usize = 0;
        while j < tags.len()
            invariant
                j <= tags@.len(),
                tv == tags@.map_values(|t: String| t@),
                self.grid() == place_tagged(old(self).grid(), old(self).streets(), tv, d_type, c_id, j as int),
                self.street_to_rows@ == old(self).street_to_rows@,
                self.neighbors@ == old(self).neighbors@,
                self.selected_tile == old(self).selected_tile,
            decreases tags@.len() - j,
        {
            proof {
                assert(tv[j as int] == tags@[j as int]@);
            }
            match self.street_of(&tags[j]) {
                Some(rows) => {
                    let rows_copy = copy_rows(rows);
                    let loc = self.next_field_tile(&rows_copy);
                    match self.find(loc.0, loc.1) {
                        Some(k) => {
                            self.set_tile(k, TileType::Content(d_type, c_id), (5, 4));
                        },
                        None => {},
                    }
                },
                None => {},
            }
            j = j + 1;
            proof {
                assert(self.grid() =~= place_tagged(old(self).grid(), old(self).streets(), tv, d_type, c_id, j as int));
            }
        }
    }

    /// The first tile on `rows` showing content `cid` (see `find_content`).
    fn find_content_tile(&self, rows: &Vec<u8>, cid: u16) -> (p: Option<(u8, u8)>)
        ensures
            match p {
                Some(q) => find_content(self.grid(), rows@, cid, 0, 2) == Some((q.0 as int, q.1 as int)),
                None => find_content(self.grid(), rows@, cid, 0, 2) is None,
            },
    {
        let mut k: usize = 0;
        while k < rows.len()
            invariant
                k <= rows@.len(),
                find_content(self.grid(), rows@, cid, k as int, 2) == find_content(self.grid(), rows@, cid, 0, 2),
            decreases rows@.len() - k,
        {
            let r = rows[k];
            let mut x: u8 = 2;
            while x < self.tiles_in_row
                invariant
                    k < rows@.len(),
                    r == rows@[k as int],
                    x >= 2,
                    find_content(self.grid(), rows@, cid, k as int, x as int) == find_content(self.grid(), rows@, cid, 0, 2),
                decreases self.tiles_in_row - x,
            {
                match self.find(r, x) {
                    Some(i) => {
                        if self.tiles[i].tile_type.is_content(cid) {
                            return Some((r, x));
                        }
                    },
                    None => {},
                }
                x = x + 1;
            }
            proof {
                assert(find_content(self.grid(), rows@, cid, k as int, x as int) == find_content(self.grid(), rows@, cid, k + 1, 2));
            }
            k = k + 1;
        }
        None
    }

    /// Turns content `c_id`'s first tile on each tag's street back into a field.
    pub fn hide_content(&mut self, c_id: u16, tags: &Vec<String>)
        ensures
            final(self).grid() == hide_tagged(
                old(self).grid(),
                old(self).streets(),
                tags@.map_values(|t: String| t@),
                c_id,
                tags@.len() as int,
            ),
            final(self).street_to_rows@ == old(self).street_to_rows@,
            final(self).neighbors@ == old(self).neighbors@,
            final(self).selected_tile == old(self).selected_tile,
    {
        let ghost tv = tags@.map_values(|t: String| t@);
        let mut j: usize = 0;
        while j < tags.len()
            invariant
                j <= tags@.len(),
                tv == tags@.map_values(|t: String| t@),
                self.grid() == hide_tagged(old(self).grid(), old(self).streets(), tv, c_id, j as int),
                self.street_to_rows@ == old(self).street_to_rows@,
                self.neighbors@ == old(self).neighbors@,
                self.selected_tile == old(self).selected_tile,
            decreases tags@.len() - j,
        {
            proof {
                assert(tv[j as int] == tags@[j as int]@);
            }
            match self.street_of(&tags[j]) {
                Some(rows) => {
                    let rows_copy = copy_rows(rows);
                    match self.find_content_tile(&rows_copy, c_id) {
                        Some(p) => {
                            proof {
                                lemma_find_content_has(self.grid(), rows_copy@, c_id, 0, 2);
                            }
                            let i = self.find(p.0, p.1).unwrap();
                            self.set_tile(i, TileType::Field, (1, 0));
                        },
                        None => {},
                    }
                },
                None => {},
            }
            j = j + 1;
            proof {
                assert(self.grid() =~= hide_tagged(old(self).grid(), old(self).streets(), tv, c_id, j as int));
            }
        }
    }

    /// The street names among `tags`, in the streets' order.
    pub fn filter_visible_tags(&self, tags: &Vec<String>) -> (r: Vec<String>)
        ensures
            r@.map_values(|t: String| t@) == self.streets().map_values(|e: (Seq<char>, Seq<u8>)| e.0).filter(
                |n: Seq<char>| tags@.map_values(|t: String| t@).contains(n),
            ),
    {
        let ghost tv = tags@.map_values(|t: String| t@);
        let ghost names = self.streets().map_values(|e: (Seq<char>, Seq<u8>)| e.0);
        let ghost pred = |n: Seq<char>| tv.contains(n);
        let mut r: Vec<String> = Vec::new();
        let mut k: usize = 0;
        while k < self.street_to_rows.len()
            invariant
                k <= self.street_to_rows@.len(),
                tv == tags@.map_values(|t: String| t@),
                names == self.streets().map_values(|e: (Seq<char>, Seq<u8>)| e.0),
                pred == (|n: Seq<char>| tv.contains(n)),
                r@.map_values(|t: String| t@) == names.subrange(0, k as int).filter(pred),
            decreases self.street_to_rows@.len() - k,
        {
            let name = &self.street_to_rows[k].0;
            let mut found = false;
            let mut j: usize = 0;
            while j < tags.len()
                invariant
                    j <= tags@.len(),
                    k < self.street_to_rows@.len(),
                    tv == tags@.map_values(|t: String| t@),
                    found == exists|q: int| 0 <= q < j && tv[q] == name@,
                decreases tags@.len() - j,
            {
                proof {
                    assert(tv[j as int] == tags@[j as int]@);
                }
                if tags[j] == *name {
                    found = true;
                }
                j = j + 1;
            }
            proof {
                assert(names[k as int] == name@);
                assert(names.subrange(0, k + 1) =~= names.subrange(0, k as int).push(name@));
                names.subrange(0, k as int).lemma_filter_push(name@, pred);
                if found {
                    let q = choose|q: int| 0 <= q < tags@.len() && tv[q] == name@;
                    assert(tv.contains(name@));
                } else {
                    assert(!tv.contains(name@));
                }
            }
            let ghost before = r@.map_values(|t: String| t@);
            if found {
                let c = name.clone();
                r.push(c);
                proof {
                    assert(r@.map_values(|t: String| t@) =~= before.push(name@));
                }
            }
            k = k + 1;
        }
        proof {
            assert(names.subrange(0, names.len() as int) =~= names);
        }
        r
    }

    /// Whether row `r` holds a content's tile.
    pub fn row_shows_content(&self, r: u8) -> (b: bool)
        requires
            self.tiles_in_row > 0,
        ensures
            b == content_in_row(self.grid(), r as int),
    {
        let cols = self.tiles_in_row as usize;
        let mut k: usize = 0;
        while k < self.tiles.len()
            invariant
                k <= self.tiles@.len(),
                cols == self.tiles_in_row,
                cols > 0,
                forall|q: int| 0 <= q < k ==> !(q / (cols as int) == r && #[trigger] self.tiles@[q].tile_type is Content),
            decreases self.tiles@.len() - k,
        {
            let is_content = match self.tiles[k].tile_type {
                TileType::Content(_, _) => true,
                _ => false,
            };
            if k / cols == r as usize && is_content {
                return true;
            }
            k = k + 1;
        }
        false
    }

    /// Whether a street named `name` runs along a row holding a content's
    /// tile.
    pub fn street_shows_content(&self, name: &String) -> (b: bool)
        requires
            self.tiles_in_row > 0,
        ensures
            b == street_with_content(self.streets(), self.grid(), name@),
    {
        let ghost st = self.streets();
        let mut i: usize = 0;
        while i < self.street_to_rows.len()
            invariant
                i <= self.street_to_rows@.len(),
                st == self.streets(),
                self.tiles_in_row > 0,
                forall|p: int, j: int|
                    0 <= p < i && 0 <= j < st[p].1.len() && st[p].0 == name@ ==> !content_in_row(
                        self.grid(),
                        #[trigger] st[p].1[j] as int,
                    ),
            decreases self.street_to_rows@.len() - i,
        {
            proof {
                assert(st[i as int] == (self.street_to_rows@[i as int].0@, self.street_to_rows@[i as int].1@));
            }
            if self.street_to_rows[i].0 == *name {
                let mut j: usize = 0;
                while j < self.street_to_rows[i].1.len()
                    invariant
                        j <= self.street_to_rows@[i as int].1@.len(),
                        i < self.street_to_rows@.len(),
                        st == self.streets(),
                        self.tiles_in_row > 0,
                        st[i as int] == (self.street_to_rows@[i as int].0@, self.street_to_rows@[i as int].1@),
                        st[i as int].0 == name@,
                        forall|q: int| 0 <= q < j ==> !content_in_row(self.grid(), #[trigger] st[i as int].1[q] as int),
                    decreases self.street_to_rows@[i as int].1@.len() - j,
                {
                    if self.row_shows_content(self.street_to_rows[i].1[j]) {
                        proof {
                            assert(content_in_row(self.grid(), st[i as int].1[j as int] as int));
                            assert(street_with_content(st, self.grid(), name@));
                        }
                        return true;
                    }
                    j = j + 1;
                }
            }
            i = i + 1;
        }
        false
    }

    /// The streets among `tags` that a new content goes on: those shown
    /// (see `filter_visible_tags`) that do not run along a row already
    /// holding a content's tile.
    pub fn new_content_streets(&self, tags: &Vec<String>) -> (r: Vec<String>)
        requires
            self.tiles_in_row > 0,
        ensures
            r@.map_values(|t: String| t@) == self.streets().map_values(|e: (Seq<char>, Seq<u8>)| e.0).filter(
                |n: Seq<char>| tags@.map_values(|t: String| t@).contains(n),
            ).filter(|n: Seq<char>| !street_with_content(self.streets(), self.grid(), n)),
    {
        let visible = self.filter_visible_tags(tags);
        let ghost vv = visible@.map_values(|t: String| t@);
        let ghost pred = |n: Seq<char>| !street_with_content(self.streets(), self.grid(), n);
        let mut r: Vec<String> = Vec::new();
        let mut k: usize = 0;
        while k < visible.len()
            invariant
                k <= visible@.len(),
                self.tiles_in_row > 0,
                vv == visible@.map_values(|t: String| t@),
                pred == (|n: Seq<char>| !street_with_content(self.streets(), self.grid(), n)),
                r@.map_values(|t: String| t@) == vv.subrange(0, k as int).filter(pred),
            decreases visible@.len() - k,
        {
            proof {
                assert(vv.subrange(0, k + 1) =~= vv.subrange(0, k as int).push(vv[k as int]));
                vv.subrange(0, k as int).lemma_filter_push(vv[k as int], pred);
            }
            let ghost before = r@.map_values(|t: String| t@);
            if !self.street_shows_content(&visible[k]) {
                r.push(visible[k].clone());
                proof {
                    assert(r@.map_values(|t: String| t@) =~= before.push(vv[k as int]));
                }
            }
            k = k + 1;
        }
        proof {
            assert(vv.subrange(0, vv.len() as int) =~= vv);
        }
        r
    }

    /// What the home tile shows as its owner.
    pub open spec fn get_owner_spec(&self) -> Option<u64> {
        if self.has(self.home_tile.0 as int, self.home_tile.1 as int) {
            match self.tile(self.home_tile.0 as int, self.home_tile.1 as int).tile_type {
                TileType::Home(owner) => Some(owner),
                _ => None,
            }
        } else {
            None
        }
    }

    /// Lists neighbor `n_id` at `loc` (see `neighbor_insert`).
    fn insert_neighbor(&mut self, n_id: u64, loc: (u8, u8))
        ensures
            final(self).neighbors@ == neighbor_insert(old(self).neighbors@, n_id, loc),
            final(self).tiles@ == old(self).tiles@,
            final(self).tiles_in_row == old(self).tiles_in_row,
            final(self).visible_rows == old(self).visible_rows,
            final(self).founder == old(self).founder,
            final(self).home_tile == old(self).home_tile,
            final(self).selected_tile == old(self).selected_tile,
    {
        let ghost ns = self.neighbors@;
        let mut k: usize = 0;
        proof {
            assert(ns.subrange(0, ns.len() as int) =~= ns);
        }
        while k < self.neighbors.len()
            invariant
                k <= self.neighbors@.len(),
                ns == self.neighbors@,
                ns == old(self).neighbors@,
                self.tiles@ == old(self).tiles@,
                self.tiles_in_row == old(self).tiles_in_row,
                self.visible_rows == old(self).visible_rows,
                self.founder == old(self).founder,
                self.home_tile == old(self).home_tile,
                self.selected_tile == old(self).selected_tile,
                neighbor_index(ns, n_id) == k + neighbor_index(ns.subrange(k as int, ns.len() as int), n_id),
            decreases self.neighbors@.len() - k,
        {
            let ghost rest = ns.subrange(k as int, ns.len() as int);
            if self.neighbors[k].0 == n_id {
                self.neighbors.set(k, (n_id, loc));
                return;
            }
            proof {
                assert(rest.drop_first() =~= ns.subrange(k + 1, ns.len() as int));
            }
            k = k + 1;
        }
        self.neighbors.push((n_id, loc));
    }

    /// Brings back a saved tile at (`r`, `c`) (one step of `restored`).
    fn restore_tile(&mut self, r: usize, c: usize, t: TileType)
        ensures
            final(self).tiles_in_row == old(self).tiles_in_row,
            final(self).visible_rows == old(self).visible_rows,
            final(self).founder == old(self).founder,
            (final(self).grid(), final(self).neighbors@) == match t {
                TileType::Home(o) => (old(self).grid().set(r as int, c as int, TileType::Home(o), frames(TileType::Home(o), o == old(self).founder)), old(self).neighbors@),
                TileType::Neighbor(m) => if old(self).grid().has(r as int, c as int) {
                    (old(self).grid().set(r as int, c as int, TileType::Neighbor(m), (7, 6)), neighbor_insert(old(self).neighbors@, m, (r as u8, c as u8)))
                } else {
                    (old(self).grid(), old(self).neighbors@)
                },
                TileType::Field => (old(self).grid().set(r as int, c as int, TileType::Field, (1, 0)), old(self).neighbors@),
                _ => (old(self).grid(), old(self).neighbors@),
            },
    {
        let found = if r < 256 && c < 256 {
            self.find(r as u8, c as u8)
        } else {
            None
        };
        match t {
            TileType::Home(o) => match found {
                Some(i) => {
                    let f: (usize, usize) = if o == self.founder {
                        (9, 8)
                    } else {
                        (3, 2)
                    };
                    self.set_tile(i, TileType::Home(o), f);
                },
                None => {},
            },
            TileType::Neighbor(m) => match found {
                Some(i) => {
                    self.insert_neighbor(m, (r as u8, c as u8));
                    self.set_tile(i, TileType::Neighbor(m), (7, 6));
                },
                None => {},
            },
            TileType::Field => match found {
                Some(i) => {
                    self.set_tile(i, TileType::Field, (1, 0));
                },
                None => {},
            },
            _ => {},
        }
    }

    /// Clears the streets' names and the tiles: with `keep_neighbors` only
    /// the tiles right of the second column become fields; otherwise every
    /// tile does, the neighbors are forgotten, the home tile shows
    /// `owner_id`'s home and is selected.
    pub fn reset_tiles(&mut self, owner_id: u64, keep_neighbors: bool)
        ensures
            final(self).streets() == named_streets(
                old(self).grid(),
                Seq::new((old(self).visible_rows / 2) as nat, |i: int| (Seq::<char>::empty(), Seq::<(u8, u16)>::empty())),
                (old(self).visible_rows / 2) as int,
            ).1,
            final(self).tiles_in_row == old(self).tiles_in_row,
            final(self).visible_rows == old(self).visible_rows,
            final(self).home_tile == old(self).home_tile,
            final(self).founder == old(self).founder,
            keep_neighbors ==> {
                &&& final(self).neighbors@ == old(self).neighbors@
                &&& final(self).selected_tile == old(self).selected_tile
                &&& final(self).tiles@ == if old(self).grid().placed() {
                    fields_right(old(self).grid())
                } else {
                    old(self).tiles@
                }
            },
            !keep_neighbors ==> {
                &&& final(self).neighbors@.len() == 0
                &&& final(self).selected_tile == old(self).home_tile
                &&& final(self).grid() == (Grid {
                    tiles: Seq::new(old(self).tiles@.len(), |k: int| as_field(old(self).tiles@[k])),
                    ..old(self).grid()
                }).set(
                    old(self).home_tile.0 as int,
                    old(self).home_tile.1 as int,
                    TileType::Home(owner_id),
                    frames(TileType::Home(owner_id), owner_id == old(self).founder),
                )
            },
    {
        let vs = self.visible_rows / 2;
        let mut names: Vec<(String, Vec<(u8, u16)>)> = Vec::new();
        let mut i: u8 = 0;
        while i < vs
            invariant
                i <= vs,
                vs == self.visible_rows / 2,
                names@.map_values(|e: (String, Vec<(u8, u16)>)| (e.0@, e.1@)) == Seq::new(
                    i as nat,
                    |k: int| (Seq::<char>::empty(), Seq::<(u8, u16)>::empty()),
                ),
            decreases vs - i,
        {
            let ghost before = names@.map_values(|e: (String, Vec<(u8, u16)>)| (e.0@, e.1@));
            let e = String::new();
            let v: Vec<(u8, u16)> = Vec::new();
            proof {
                assert(e@ =~= Seq::<char>::empty());
                assert(v@ =~= Seq::<(u8, u16)>::empty());
            }
            names.push((e, v));
            i = i + 1;
            proof {
                assert(names@.map_values(|e: (String, Vec<(u8, u16)>)| (e.0@, e.1@)) =~= before.push(
                    (Seq::<char>::empty(), Seq::<(u8, u16)>::empty()),
                ));
                assert(names@.map_values(|e: (String, Vec<(u8, u16)>)| (e.0@, e.1@)) =~= Seq::new(
                    i as nat,
                    |k: int| (Seq::<char>::empty(), Seq::<(u8, u16)>::empty()),
                ));
            }
        }
        let ghost g0 = self.grid();
        let ghost nv = names@.map_values(|e: (String, Vec<(u8, u16)>)| (e.0@, e.1@));
        self.set_street_names(names);
        proof {
            lemma_empty_streets_keep_grid(g0, nv, vs as int);
        }
        let ghost st1 = self.street_to_rows@;
        proof {
            assert(self.tiles@ == old(self).tiles@);
            assert((self.visible_rows as u64) * (self.tiles_in_row as u64) <= 65025) by (nonlinear_arith)
                requires
                    self.visible_rows <= 255,
                    self.tiles_in_row <= 255,
            ;
        }
        let n = self.tiles.len();
        let placed = n > 0 && (n as u64) == (self.visible_rows as u64) * (self.tiles_in_row as u64);
        if keep_neighbors {
            if placed {
                proof {
                    assert(self.tiles_in_row > 0) by (nonlinear_arith)
                        requires
                            n > 0,
                            n == self.visible_rows * self.tiles_in_row,
                    ;
                }
                let cols = self.tiles_in_row as usize;
                let ghost t0 = self.tiles@;
                let mut k: usize = 0;
                while k < n
                    invariant
                        k <= n,
                        n == self.tiles@.len(),
                        cols == g0.cols,
                        cols > 0,
                        t0 == g0.tiles,
                        self.tiles@.len() == t0.len(),
                        forall|q: int| 0 <= q < k ==> #[trigger] self.tiles@[q] == fields_right(g0)[q],
                        forall|q: int| k <= q < n ==> #[trigger] self.tiles@[q] == t0[q],
                        self.tiles_in_row == old(self).tiles_in_row,
                        self.visible_rows == old(self).visible_rows,
                        self.neighbors@ == old(self).neighbors@,
                        self.selected_tile == old(self).selected_tile,
                        self.home_tile == old(self).home_tile,
                        self.founder == old(self).founder,
                        self.street_to_rows@ == st1,
                    decreases n - k,
                {
                    if k % cols >= 2 && !self.tiles[k].tile_type.is_field() {
                        self.set_tile(k, TileType::Field, (1, 0));
                    }
                    k = k + 1;
                }
                proof {
                    assert(self.tiles@ =~= fields_right(g0));
                }
            }
        } else {
            self.neighbors = Vec::new();
            let ghost t0 = self.tiles@;
            let mut k: usize = 0;
            while k < n
                invariant
                    k <= n,
                    n == self.tiles@.len(),
                    self.tiles@.len() == t0.len(),
                    forall|q: int| 0 <= q < k ==> #[trigger] self.tiles@[q] == as_field(t0[q]),
                    forall|q: int| k <= q < n ==> #[trigger] self.tiles@[q] == t0[q],
                    self.tiles_in_row == old(self).tiles_in_row,
                    self.visible_rows == old(self).visible_rows,
                    self.neighbors@.len() == 0,
                    self.home_tile == old(self).home_tile,
                    self.founder == old(self).founder,
                    self.street_to_rows@ == st1,
                decreases n - k,
            {
                self.set_tile(k, TileType::Field, (1, 0));
                k = k + 1;
            }
            let ghost cleared = self.grid();
            proof {
                assert(self.tiles@ =~= Seq::new(old(self).tiles@.len(), |k: int| as_field(old(self).tiles@[k])));
                assert(cleared == (Grid {
                    tiles: Seq::new(old(self).tiles@.len(), |k: int| as_field(old(self).tiles@[k])),
                    ..old(self).grid()
                }));
            }
            let (hr, hc) = self.home_tile;
            match self.find(hr, hc) {
                Some(i) => {
                    let is_my = owner_id == self.founder;
                    let f: (usize, usize) = if is_my {
                        (9, 8)
                    } else {
                        (3, 2)
                    };
                    self.set_tile(i, TileType::Home(owner_id), f);
                },
                None => {},
            }
            self.selected_tile = self.home_tile;
        }
    }

    /// Shows another village: for the placeholder id every tile but fields
    /// and homes becomes a field and the neighbors are forgotten; otherwise
    /// the shown village's tiles are saved under its owner, `n_id` becomes
    /// the owner, and `n_id`'s saved tiles come back (or the tiles are reset
    /// when none were saved). Nothing happens without an owner.
    pub fn swap_tiles(&mut self, n_id: u64, n_is_any: bool, villages: &mut Vec<(u64, Vec<(usize, TileType)>)>)
        ensures
            final(self).tiles_in_row == old(self).tiles_in_row,
            final(self).visible_rows == old(self).visible_rows,
            final(self).founder == old(self).founder,
            n_is_any ==> final(self).neighbors@.len() == 0 && final(self).tiles@ == fields_but_homes(old(self).tiles@)
                && final(villages)@ == old(villages)@,
            !n_is_any && old(self).get_owner_spec() is None ==> final(self).tiles@ == old(self).tiles@
                && final(self).neighbors@ == old(self).neighbors@ && final(villages)@ == old(villages)@,
            (!n_is_any && old(self).get_owner_spec() is Some) ==> {
                let owner = old(self).get_owner_spec()->Some_0;
                let saved = village_views(old(villages)@);
                let stored = village_store(saved, owner, headers_of(old(self).tiles@));
                let k = village_index(stored, n_id);
                let owned = old(self).grid().set(
                    old(self).home_tile.0 as int,
                    old(self).home_tile.1 as int,
                    TileType::Home(n_id),
                    frames(TileType::Home(n_id), n_id == old(self).founder),
                );
                if k < stored.len() {
                    &&& village_views(final(villages)@) == stored.remove(k)
                    &&& (final(self).grid(), final(self).neighbors@) == restored(
                        owned,
                        old(self).neighbors@,
                        old(self).founder,
                        stored[k].1,
                        stored[k].1.len() as int,
                    )
                } else {
                    &&& village_views(final(villages)@) == stored
                    &&& final(self).neighbors@.len() == 0
                    &&& final(self).selected_tile == old(self).home_tile
                }
            },
    {
        if n_is_any {
            self.neighbors = Vec::new();
            let n = self.tiles.len();
            let ghost t0 = self.tiles@;
            let mut k: usize = 0;
            while k < n
                invariant
                    k <= n,
                    n == self.tiles@.len(),
                    self.tiles@.len() == t0.len(),
                    forall|q: int| 0 <= q < k ==> #[trigger] self.tiles@[q] == fields_but_homes(t0)[q],
                    forall|q: int| k <= q < n ==> #[trigger] self.tiles@[q] == t0[q],
                    self.tiles_in_row == old(self).tiles_in_row,
                    self.visible_rows == old(self).visible_rows,
                    self.neighbors@.len() == 0,
                    self.founder == old(self).founder,
                    t0 == old(self).tiles@,
                decreases n - k,
            {
                let t = self.tiles[k].tile_type;
                if !t.is_field() && !t.is_home() {
                    self.set_tile(k, TileType::Field, (1, 0));
                }
                k = k + 1;
            }
            proof {
                assert(self.tiles@ =~= fields_but_homes(t0));
            }
            return;
        }
        match self.get_owner() {
            None => {},
            Some(owner) => {
                let headers = self.get_tile_headers();
                let ghost hv = headers@;
                proof {
                    assert(hv =~= headers_of(old(self).tiles@));
                }
                store_village(villages, owner, headers);
                self.set_owner(n_id);
                let ghost owned = self.grid();
                match take_village(villages, n_id) {
                    Some(saved) => {
                        let mut j: usize = 0;
                        let ghost ns0 = self.neighbors@;
                        while j < saved.len()
                            invariant
                                j <= saved@.len(),
                                owned.cols == self.tiles_in_row,
                                self.tiles_in_row == old(self).tiles_in_row,
                                self.visible_rows == old(self).visible_rows,
                                self.founder == old(self).founder,
                                (self.grid(), self.neighbors@) == restored(owned, ns0, self.founder, saved@, j as int),
                            decreases saved@.len() - j,
                        {
                            let (k, t) = saved[j];
                            if self.tiles_in_row > 0 {
                                let cols = self.tiles_in_row as usize;
                                let r = k / cols;
                                let c = k % cols;
                                self.restore_tile(r, c, t);
                            } else {
                                proof {
                                    assert(self.grid().rows * self.grid().cols == 0) by (nonlinear_arith)
                                        requires
                                            self.grid().cols == 0,
                                    ;
                                    assert(!self.grid().placed());
                                }
                            }
                            j = j + 1;
                        }
                    },
                    None => {
                        self.reset_tiles(n_id, false);
                    },
                }
            },
        }
    }

    /// The slots and what their tiles show, row by row.
    pub fn get_tile_headers(&self) -> (h: Vec<(usize, TileType)>)
        ensures
            h@.len() == self.tiles@.len(),
            forall|k: int| 0 <= k < h@.len() ==> #[trigger] h@[k] == (k as usize, self.tiles@[k].tile_type),
    {
        let mut h: Vec<(usize, TileType)> = Vec::new();
        let mut k: usize = 0;
        while k < self.tiles.len()
            invariant
                k <= self.tiles@.len(),
                h@.len() == k,
                forall|j: int| 0 <= j < k ==> #[trigger] h@[j] == (j as usize, self.tiles@[j].tile_type),
            decreases self.tiles@.len() - k,
        {
            h.push((k, self.tiles[k].tile_type));
            k = k + 1;
        }
        h
    }
}

/// Row `r` of the grid holds a content's tile.
pub open spec fn content_in_row(g: Grid, r: int) -> bool {
    exists|k: int| 0 <= k < g.tiles.len() && k / (g.cols as int) == r && (#[trigger] g.tiles[k]).tile_type is Content
}

/// A street named `n` runs along a row holding a content's tile.
pub open spec fn street_with_content(streets: Seq<(Seq<char>, Seq<u8>)>, g: Grid, n: Seq<char>) -> bool {
    exists|p: int, j: int|
        0 <= p < streets.len() && 0 <= j < streets[p].1.len() && streets[p].0 == n && content_in_row(
            g,
            #[trigger] streets[p].1[j] as int,
        )
}

/// A step right moves the selection one column right on the same row, or
/// from the last column back to the first (and only then says it wrapped);
/// a step left undoes it, and a step right undoes a step left.
pub proof fn lemma_right_and_left(sel: (u8, u8), cols: u8, rows: u8)
    requires
        sel.0 < rows,
        sel.1 < cols,
    ensures
        ({
            let (r, w) = next_tile(sel, crate::text_buffer::Direction::Right, cols, rows);
            &&& r.0 == sel.0
            &&& w == (sel.1 + 1 == cols)
            &&& w ==> r.1 == 0
            &&& !w ==> r.1 == sel.1 + 1
            &&& next_tile(r, crate::text_buffer::Direction::Left, cols, rows).0 == sel
        }),
        next_tile(next_tile(sel, crate::text_buffer::Direction::Left, cols, rows).0, crate::text_buffer::Direction::Right, cols, rows).0 == sel,
        cols >= 2 ==> next_tile(sel, crate::text_buffer::Direction::Right, cols, rows).0 != sel,
        cols >= 2 ==> next_tile(sel, crate::text_buffer::Direction::Left, cols, rows).0 != sel,
{
}

/// A step down moves the selection one row down in the same column, or
/// from the last row back to the first (and only then says it wrapped); a
/// step up undoes it, and a step down undoes a step up.
pub proof fn lemma_down_and_up(sel: (u8, u8), cols: u8, rows: u8)
    requires
        sel.0 < rows,
        sel.1 < cols,
    ensures
        ({
            let (r, w) = next_tile(sel, crate::text_buffer::Direction::Down, cols, rows);
            &&& r.1 == sel.1
            &&& w == (sel.0 + 1 == rows)
            &&& w ==> r.0 == 0
            &&& !w ==> r.0 == sel.0 + 1
            &&& next_tile(r, crate::text_buffer::Direction::Up, cols, rows).0 == sel
        }),
        next_tile(next_tile(sel, crate::text_buffer::Direction::Up, cols, rows).0, crate::text_buffer::Direction::Down, cols, rows).0 == sel,
        rows >= 2 ==> next_tile(sel, crate::text_buffer::Direction::Down, cols, rows).0 != sel,
        rows >= 2 ==> next_tile(sel, crate::text_buffer::Direction::Up, cols, rows).0 != sel,
{
}

/// The search of `next_neighbor_field_tile` from `y` on.
pub open spec fn spec_next_neighbor_field(v: Grid, y: int) -> (u8, u8)
    decreases v.rows - y,
{
    if y < 0 || y >= v.rows {
        (255, 255)
    } else if v.has(0, y) {
        if v.tile(0, y).tile_type is Field {
            (y as u8, 0)
        } else {
            spec_next_neighbor_field(v, y + 1)
        }
    } else if v.has(1, y) && v.tile(1, y).tile_type is Field {
        (y as u8, 1)
    } else {
        spec_next_neighbor_field(v, y + 1)
    }
}

/// The search of `next_field_tile` from column `x`, row entry `k` on.
pub open spec fn spec_next_field(v: Grid, rows: Seq<u8>, x: int, k: int) -> (u8, u8)
    decreases v.cols - x, rows.len() - k,
{
    if x < 0 || x >= v.cols || k < 0 {
        (255, 255)
    } else if k >= rows.len() {
        spec_next_field(v, rows, x + 1, 0)
    } else if v.has(rows[k] as int, x) && v.tile(rows[k] as int, x).tile_type is Field {
        (rows[k], x as u8)
    } else {
        spec_next_field(v, rows, x, k + 1)
    }
}

/// Street `i`'s rows: `2i`, and `2i + 1` when that row is visible.
pub open spec fn street_rows(i: int, vr: int) -> Seq<u8> {
    if 1 + 2 * i < vr {
        seq![(2 * i) as u8, (2 * i + 1) as u8]
    } else {
        seq![(2 * i) as u8]
    }
}

/// The grid after placing the first `j` contents, each on the first field
/// of the rows (see `spec_next_field`).
pub open spec fn place_contents(g: Grid, rows: Seq<u8>, contents: Seq<(u8, u16)>, j: int) -> Grid
    decreases j,
{
    if j <= 0 {
        g
    } else {
        let g0 = place_contents(g, rows, contents, j - 1);
        let loc = spec_next_field(g0, rows, 2, 0);
        g0.set(
            loc.0 as int,
            loc.1 as int,
            TileType::Content(contents[j - 1].0, contents[j - 1].1),
            (5, 4),
        )
    }
}

/// The rows of the first street named `name`.
pub open spec fn street_lookup(streets: Seq<(Seq<char>, Seq<u8>)>, name: Seq<char>) -> Option<Seq<u8>>
    decreases streets.len(),
{
    if streets.len() == 0 {
        None
    } else if streets[0].0 == name {
        Some(streets[0].1)
    } else {
        street_lookup(streets.drop_first(), name)
    }
}

/// The first position of the street named `name`, or the number of streets.
pub open spec fn street_index(streets: Seq<(Seq<char>, Seq<u8>)>, name: Seq<char>) -> int
    decreases streets.len(),
{
    if streets.len() == 0 || streets[0].0 == name {
        0
    } else {
        1 + street_index(streets.drop_first(), name)
    }
}

/// The streets with `name` given `rows`: a listed street's rows replaced,
/// a new one added at the end.
pub open spec fn street_insert(streets: Seq<(Seq<char>, Seq<u8>)>, name: Seq<char>, rows: Seq<u8>) -> Seq<
    (Seq<char>, Seq<u8>),
> {
    let i = street_index(streets, name);
    if i < streets.len() {
        streets.update(i, (name, rows))
    } else {
        streets.push((name, rows))
    }
}

/// The grid and the streets after naming the first `j` streets and placing
/// their contents.
pub open spec fn named_streets(
    g: Grid,
    names: Seq<(Seq<char>, Seq<(u8, u16)>)>,
    j: int,
) -> (Grid, Seq<(Seq<char>, Seq<u8>)>)
    decreases j,
{
    if j <= 0 {
        (g, seq![])
    } else {
        let prev = named_streets(g, names, j - 1);
        let rows = street_rows(j - 1, g.rows as int);
        (
            place_contents(prev.0, rows, names[j - 1].1, names[j - 1].1.len() as int),
            street_insert(prev.1, names[j - 1].0, rows),
        )
    }
}

/// The grid after placing a content on the first field of each of the
/// first `j` tags' streets.
pub open spec fn place_tagged(
    g: Grid,
    streets: Seq<(Seq<char>, Seq<u8>)>,
    tags: Seq<Seq<char>>,
    d: u8,
    c: u16,
    j: int,
) -> Grid
    decreases j,
{
    if j <= 0 {
        g
    } else {
        let g0 = place_tagged(g, streets, tags, d, c, j - 1);
        match street_lookup(streets, tags[j - 1]) {
            Some(rows) => {
                let loc = spec_next_field(g0, rows, 2, 0);
                g0.set(loc.0 as int, loc.1 as int, TileType::Content(d, c), (5, 4))
            },
            None => g0,
        }
    }
}

/// The first tile on the rows (row by row, from the third column) showing
/// content `cid`.
pub open spec fn find_content(g: Grid, rows: Seq<u8>, cid: u16, k: int, x: int) -> Option<(int, int)>
    decreases rows.len() - k, g.cols - x,
{
    if k < 0 || k >= rows.len() {
        None
    } else if x >= g.cols || x < 0 {
        if x < 0 {
            None
        } else {
            find_content(g, rows, cid, k + 1, 2)
        }
    } else if g.has(rows[k] as int, x) && (g.tile(rows[k] as int, x).tile_type matches TileType::Content(
        _,
        cc,
    ) && cc == cid) {
        Some((rows[k] as int, x))
    } else {
        find_content(g, rows, cid, k, x + 1)
    }
}

/// The grid after hiding content `cid` from the first `j` tags' streets:
/// its first tile on each street becomes a field.
pub open spec fn hide_tagged(
    g: Grid,
    streets: Seq<(Seq<char>, Seq<u8>)>,
    tags: Seq<Seq<char>>,
    cid: u16,
    j: int,
) -> Grid
    decreases j,
{
    if j <= 0 {
        g
    } else {
        let g0 = hide_tagged(g, streets, tags, cid, j - 1);
        match street_lookup(streets, tags[j - 1]) {
            Some(rows) => match find_content(g0, rows, cid, 0, 2) {
                Some(p) => g0.set(p.0, p.1, TileType::Field, (1, 0)),
                None => g0,
            },
            None => g0,
        }
    }
}

/// A copy of the rows.
fn copy_rows(v: &Vec<u8>) -> (r: Vec<u8>)
    ensures
        r@ == v@,
{
    let mut r: Vec<u8> = Vec::new();
    let mut i: usize = 0;
    while i < v.len()
        invariant
            i <= v.len(),
            r@ == v@.subrange(0, i as int),
        decreases v.len() - i,
    {
        r.push(v[i]);
        i = i + 1;
        proof {
            assert(r@ =~= v@.subrange(0, i as int));
        }
    }
    proof {
        assert(r@ =~= v@);
    }
    r
}

/// A content found on a street is on an existing tile.
pub proof fn lemma_find_content_has(g: Grid, rows: Seq<u8>, cid: u16, k: int, x: int)
    ensures
        find_content(g, rows, cid, k, x) matches Some(p) ==> g.has(p.0, p.1) && 0 <= p.0 < 256
            && 0 <= p.1 < 256,
    decreases rows.len() - k, g.cols - x,
{
    if k < 0 || k >= rows.len() {
    } else if x >= g.cols || x < 0 {
        if x >= 0 {
            lemma_find_content_has(g, rows, cid, k + 1, 2);
        }
    } else if g.has(rows[k] as int, x) && (g.tile(rows[k] as int, x).tile_type matches TileType::Content(
        _,
        cc,
    ) && cc == cid) {
    } else {
        lemma_find_content_has(g, rows, cid, k, x + 1);
    }
}

/// A tile turned into an empty field.
pub open spec fn as_field(t: Tile) -> Tile {
    Tile { tile_type: TileType::Field, select_frame: 1, deselect_frame: 0, ..t }
}

/// The tiles with every tile right of the second column that is no field
/// turned into one.
pub open spec fn fields_right(g: Grid) -> Seq<Tile> {
    Seq::new(
        g.tiles.len(),
        |k: int|
            if k % (g.cols as int) >= 2 && !(g.tiles[k].tile_type is Field) {
                as_field(g.tiles[k])
            } else {
                g.tiles[k]
            },
    )
}

/// The tiles with every tile that is neither a field nor a home turned into a field.
pub open spec fn fields_but_homes(tiles: Seq<Tile>) -> Seq<Tile> {
    Seq::new(
        tiles.len(),
        |k: int|
            if !(tiles[k].tile_type is Field) && !(tiles[k].tile_type is Home) {
                as_field(tiles[k])
            } else {
                tiles[k]
            },
    )
}

/// The neighbors with `n_id` at `loc`: a listed neighbor moved, a new one added.
pub open spec fn neighbor_insert(ns: Seq<(u64, (u8, u8))>, n_id: u64, loc: (u8, u8)) -> Seq<(u64, (u8, u8))> {
    let i = neighbor_index(ns, n_id);
    if i < ns.len() {
        ns.update(i, (n_id, loc))
    } else {
        ns.push((n_id, loc))
    }
}

/// The first position of neighbor `n_id`, or the number of neighbors.
pub open spec fn neighbor_index(ns: Seq<(u64, (u8, u8))>, n_id: u64) -> int
    decreases ns.len(),
{
    if ns.len() == 0 || ns[0].0 == n_id {
        0
    } else {
        1 + neighbor_index(ns.drop_first(), n_id)
    }
}

/// The grid and the neighbors after restoring the first `j` saved tiles:
/// homes and neighbors (which are listed again) and fields come back;
/// applications and contents are left as they are.
pub open spec fn restored(
    g: Grid,
    ns: Seq<(u64, (u8, u8))>,
    founder: u64,
    hs: Seq<(usize, TileType)>,
    j: int,
) -> (Grid, Seq<(u64, (u8, u8))>)
    decreases j,
{
    if j <= 0 {
        (g, ns)
    } else {
        let prev = restored(g, ns, founder, hs, j - 1);
        let k = hs[j - 1].0 as int;
        let r = k / (g.cols as int);
        let c = k % (g.cols as int);
        match hs[j - 1].1 {
            TileType::Home(o) => (prev.0.set(r, c, TileType::Home(o), frames(TileType::Home(o), o == founder)), prev.1),
            TileType::Neighbor(m) => if prev.0.has(r, c) {
                (prev.0.set(r, c, TileType::Neighbor(m), (7, 6)), neighbor_insert(prev.1, m, (r as u8, c as u8)))
            } else {
                prev
            },
            TileType::Field => (prev.0.set(r, c, TileType::Field, (1, 0)), prev.1),
            _ => prev,
        }
    }
}

/// The first position of village `id` among the saved ones, or their number.
pub open spec fn village_index(vs: Seq<(u64, Seq<(usize, TileType)>)>, id: u64) -> int
    decreases vs.len(),
{
    if vs.len() == 0 || vs[0].0 == id {
        0
    } else {
        1 + village_index(vs.drop_first(), id)
    }
}

/// The saved villages with `id`'s tiles stored: replaced when saved before, added otherwise.
pub open spec fn village_store(
    vs: Seq<(u64, Seq<(usize, TileType)>)>,
    id: u64,
    hs: Seq<(usize, TileType)>,
) -> Seq<(u64, Seq<(usize, TileType)>)> {
    let i = village_index(vs, id);
    if i < vs.len() {
        vs.update(i, (id, hs))
    } else {
        vs.push((id, hs))
    }
}

/// Each tile's slot and what it shows.
pub open spec fn headers_of(tiles: Seq<Tile>) -> Seq<(usize, TileType)> {
    Seq::new(tiles.len(), |k: int| (k as usize, tiles[k].tile_type))
}

/// The saved villages as plain values.
pub open spec fn village_views(vs: Seq<(u64, Vec<(usize, TileType)>)>) -> Seq<(u64, Seq<(usize, TileType)>)> {
    vs.map_values(|e: (u64, Vec<(usize, TileType)>)| (e.0, e.1@))
}

/// Saves village `id`'s tiles (see `village_store`).
fn store_village(vs: &mut Vec<(u64, Vec<(usize, TileType)>)>, id: u64, hs: Vec<(usize, TileType)>)
    ensures
        village_views(final(vs)@) == village_store(village_views(old(vs)@), id, hs@),
{
    let ghost v0 = village_views(vs@);
    let mut k: usize = 0;
    proof {
        assert(v0.subrange(0, v0.len() as int) =~= v0);
    }
    while k < vs.len()
        invariant
            k <= vs@.len(),
            v0 == village_views(vs@),
            v0 == village_views(old(vs)@),
            village_index(v0, id) == k + village_index(v0.subrange(k as int, v0.len() as int), id),
        decreases vs@.len() - k,
    {
        let ghost rest = v0.subrange(k as int, v0.len() as int);
        if vs[k].0 == id {
            let ghost h = hs@;
            vs.set(k, (id, hs));
            proof {
                assert(village_views(vs@) =~= v0.update(k as int, (id, h)));
            }
            return;
        }
        proof {
            assert(rest.drop_first() =~= v0.subrange(k + 1, v0.len() as int));
        }
        k = k + 1;
    }
    let ghost h = hs@;
    vs.push((id, hs));
    proof {
        assert(village_views(vs@) =~= v0.push((id, h)));
    }
}

/// Takes out village `id`'s saved tiles, if saved.
fn take_village(vs: &mut Vec<(u64, Vec<(usize, TileType)>)>, id: u64) -> (r: Option<Vec<(usize, TileType)>>)
    ensures
        ({
            let v0 = village_views(old(vs)@);
            let k = village_index(v0, id);
            if k < v0.len() {
                r matches Some(h) && h@ == v0[k].1 && village_views(final(vs)@) == v0.remove(k)
            } else {
                r is None && village_views(final(vs)@) == v0
            }
        }),
{
    let ghost v0 = village_views(vs@);
    let mut k: usize = 0;
    proof {
        assert(v0.subrange(0, v0.len() as int) =~= v0);
    }
    while k < vs.len()
        invariant
            k <= vs@.len(),
            v0 == village_views(vs@),
            v0 == village_views(old(vs)@),
            village_index(v0, id) == k + village_index(v0.subrange(k as int, v0.len() as int), id),
        decreases vs@.len() - k,
    {
        let ghost rest = v0.subrange(k as int, v0.len() as int);
        if vs[k].0 == id {
            let (_, h) = vs.remove(k);
            proof {
                assert(village_views(vs@) =~= v0.remove(k as int));
            }
            return Some(h);
        }
        proof {
            assert(rest.drop_first() =~= v0.subrange(k + 1, v0.len() as int));
        }
        k = k + 1;
    }
    None
}

/// Naming streets with no contents leaves the tiles as they are.
pub proof fn lemma_empty_streets_keep_grid(g: Grid, names: Seq<(Seq<char>, Seq<(u8, u16)>)>, j: int)
    requires
        forall|i: int| 0 <= i < names.len() ==> (#[trigger] names[i]).1.len() == 0,
        j <= names.len(),
    ensures
        named_streets(g, names, j).0 == g,
    decreases j,
{
    if j > 0 {
        lemma_empty_streets_keep_grid(g, names, j - 1);
    }
}

} // verus!
