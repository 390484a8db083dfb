use vstd::prelude::*;

use crate::bag::Bag;
use crate::laws::{
    lemma_cleared_once_wf, lemma_initial_wf, lemma_not_on_board, lemma_shifted_wf, lemma_ticked_wf,
    lemma_turned_wf, lemma_with_piece_wf,
};
use crate::model::{
    all_colors, all_piece_types, award, cell_index, cells_cleared, clear_rounds, cells_moved, cells_placed, covers,
    distinct_cells, grid_line, in_bounds, initial, legal_cell, lowest_full_row, num_cells, on_grid, paint,
    part_cell, piece_paint,
    row_full, spawn_piece, GameView, CLEAR_ANIMATION_FRAMES, HEIGHT, SPAWN_COLUMN, TOP_ROW, WIDTH,
};
use crate::part::PartView;
use crate::piece::{
    lemma_delta_range, lemma_rise_step, next_rotation, rise, Color, Rotation, TetrisPiece, TetrisPieceType,
};

verus! {

/// The board engine: occupancy table, pieces, active piece, preview queue,
/// bags, score and row-clear highlight.
pub struct TetrisGame {
    grid: Vec<Option<usize>>,
    pieces: Vec<TetrisPiece>,
    active_piece: Option<usize>,
    next_pieces: Vec<TetrisPiece>,
    piece_bag: Bag<TetrisPieceType>,
    color_bag: Bag<Color>,
    score: u64,
    level: u32,
    clear_ticks: u64,
    cleared_rows: Vec<i64>,
}

impl View for TetrisGame {
    type V = GameView;

    closed spec fn view(&self) -> GameView {
        GameView {
            cells: self.grid@,
            pieces: self.pieces@.map_values(|p: TetrisPiece| p@),
            active: self.active_piece,
            next_pieces: self.next_pieces@.map_values(|p: TetrisPiece| p@),
            piece_bag: self.piece_bag@,
            color_bag: self.color_bag@,
            score: self.score as int,
            level: self.level as int,
            clear_ticks: self.clear_ticks as int,
            cleared_rows: self.cleared_rows@.map_values(|r: i64| r as int),
        }
    }
}

/// A cell to paint, with the colour of the piece it belongs to.
#[derive(Clone, Copy, Debug, PartialEq, Eq, Structural)]
pub struct PaintedCell {
    pub x: i64,
    pub y: i64,
    pub color: Color,
}

impl View for PaintedCell {
    type V = (int, int, Color);

    open spec fn view(&self) -> (int, int, Color) {
        (self.x as int, self.y as int, self.color)
    }
}

/// A line of the board's grid, from `(x0, y0)` to `(x1, y1)` in cell units.
#[derive(Clone, Copy, Debug, PartialEq, Eq, Structural)]
pub struct GridLine {
    pub x0: i64,
    pub y0: i64,
    pub x1: i64,
    pub y1: i64,
}

/// What a frame shows: the visible cells of every piece, and the rows to
/// highlight after a clear.
pub struct Frame {
    pub cells: Vec<PaintedCell>,
    pub flash_rows: Vec<i64>,
}

/// Index of an on-board cell in the occupancy table.
fn cell_of(x: i64, y: i64) -> (c: usize)
    requires
        on_grid(x as int, y as int),
    ensures
        c as int == cell_index(x as int, y as int),
        c < num_cells(),
{
    ((y - TOP_ROW) * WIDTH + x) as usize
}

/// An occupancy table with every cell free.
fn empty_grid() -> (grid: Vec<Option<usize>>)
    ensures
        grid@ == Seq::new(num_cells() as nat, |c: int| None::<usize>),
{
    let mut grid: Vec<Option<usize>> = Vec::new();
    for c in 0..(WIDTH * (HEIGHT - TOP_ROW)) as usize
        invariant
            grid@ == Seq::new(c as nat, |k: int| None::<usize>),
    {
        grid.push(None);
        assert(grid@ =~= Seq::new((c + 1) as nat, |k: int| None::<usize>));
    }
    grid
}

/// Sets every cell under a part of `p` to `v`.
fn fill_cells(grid: &mut Vec<Option<usize>>, p: &TetrisPiece, v: Option<usize>)
    requires
        old(grid)@.len() == num_cells(),
        forall|i: int| 0 <= i < 4 ==> on_grid(#[trigger] p@.parts[i].x, p@.parts[i].y),
    ensures
        final(grid)@ == Seq::new(old(grid)@.len(), |c: int| if covers(p@, c) { v } else { old(grid)@[c] }),
{
    let ghost orig = grid@;
    for i in 0..4
        invariant
            grid@.len() == orig.len(),
            orig.len() == num_cells(),
            forall|k: int| 0 <= k < 4 ==> on_grid(#[trigger] p@.parts[k].x, p@.parts[k].y),
            forall|c: int|
                0 <= c < orig.len() ==> #[trigger] grid@[c] == if exists|k: int|
                    0 <= k < i && part_cell(p@, k) == c {
                    v
                } else {
                    orig[c]
                },
    {
        assert(p@.parts[i as int] == p.parts[i as int]@);
        assert(on_grid(p@.parts[i as int].x, p@.parts[i as int].y));
        let c = cell_of(p.parts[i].x, p.parts[i].y);
        grid.set(c, v);
        assert forall|d: int| 0 <= d < orig.len() implies #[trigger] grid@[d] == if exists|k: int|
            0 <= k < i + 1 && part_cell(p@, k) == d {
            v
        } else {
            orig[d]
        } by {
            if d == c as int {
                assert(0 <= i < i + 1 && part_cell(p@, i as int) == d);
            } else if exists|k: int| 0 <= k < i + 1 && part_cell(p@, k) == d {
                let k = choose|k: int| 0 <= k < i + 1 && part_cell(p@, k) == d;
                assert(k < i);
            }
        }
    }
    assert(grid@ =~= Seq::new(orig.len(), |c: int| if covers(p@, c) { v } else { orig[c] }));
}

impl TetrisGame {
    /// Whether `cand` fits where piece `id` is allowed to go.
    fn fits(&self, id: usize, cand: &TetrisPiece) -> (r: bool)
        requires
            self@.wf(),
            forall|i: int| 0 <= i < 4 ==> #[trigger] cand@.parts[i].y >= TOP_ROW,
        ensures
            r == self@.fits(id, cand@),
    {
        for i in 0..4
            invariant
                self@.wf(),
                forall|k: int| 0 <= k < 4 ==> #[trigger] cand@.parts[k].y >= TOP_ROW,
                forall|k: int|
                    0 <= k < i ==> legal_cell(#[trigger] cand@.parts[k].x, cand@.parts[k].y) && (
                    self@.cells[part_cell(cand@, k)] is None || self@.cells[part_cell(cand@, k)] == Some(id)),
        {
            let q = cand.parts[i];
            assert(cand@.parts[i as int] == q@);
            if q.x < 0 || q.x >= WIDTH || q.y >= HEIGHT {
                assert(!legal_cell(cand@.parts[i as int].x, cand@.parts[i as int].y));
                return false;
            }
            assert(cand@.parts[i as int].y >= TOP_ROW);
            let c = cell_of(q.x, q.y);
            match self.grid[c] {
                Some(o) => {
                    if o != id {
                        assert(self@.cells[part_cell(cand@, i as int)] == Some(o));
                        return false;
                    }
                },
                None => {},
            }
        }
        true
    }

    /// Moves piece `id` to `cand` in the table and in the piece store.
    fn relocate(&mut self, id: usize, cand: TetrisPiece)
        requires
            old(self)@.wf(),
            old(self)@.active == Some(id),
            old(self)@.fits(id, cand@),
            forall|i: int| 0 <= i < 4 ==> #[trigger] cand@.parts[i].y >= TOP_ROW,
        ensures
            final(self)@ == old(self)@.relocated(id, cand@),
    {
        let cur = self.pieces[id];
        assert(self@.pieces[id as int] == cur@);
        assert forall|i: int| 0 <= i < 4 implies on_grid(#[trigger] cur@.parts[i].x, cur@.parts[i].y) by {
            assert(cur@.parts[i].visible);
        }
        assert forall|i: int| 0 <= i < 4 implies on_grid(#[trigger] cand@.parts[i].x, cand@.parts[i].y) by {
            assert(legal_cell(cand@.parts[i].x, cand@.parts[i].y));
            assert(cand@.parts[i].y >= TOP_ROW);
        }
        fill_cells(&mut self.grid, &cur, None);
        fill_cells(&mut self.grid, &cand, Some(id));
        self.pieces.set(id, cand);
        assert(self@.cells =~= cells_moved(old(self)@.cells, cur@, cand@, id));
        assert(self@.pieces =~= old(self)@.pieces.update(id as int, cand@));
    }

    /// Moves the active piece by `(dx, dy)` if that is legal; an illegal
    /// downward move lands it.
    fn shift(&mut self, dx: i64, dy: i64)
        requires
            old(self)@.wf(),
            -1 <= dx <= 1,
            0 <= dy <= 1,
        ensures
            final(self)@ == old(self)@.shifted(dx as int, dy as int),
            final(self)@.wf(),
    {
        proof {
            lemma_shifted_wf(self@, dx as int, dy as int);
        }
        let id = match self.active_piece {
            None => return ,
            Some(id) => id,
        };
        let cur = self.pieces[id];
        assert(self@.pieces[id as int] == cur@);
        assert forall|i: int| 0 <= i < 4 implies i64::MIN <= #[trigger] cur@.moved_by(dx as int, dy as int).parts[i].x
            <= i64::MAX && i64::MIN <= cur@.moved_by(dx as int, dy as int).parts[i].y <= i64::MAX by {
            assert(on_grid(cur@.parts[i].x, cur@.parts[i].y));
        }
        let cand = cur.moved_by(dx, dy);
        assert forall|i: int| 0 <= i < 4 implies #[trigger] cand@.parts[i].y >= TOP_ROW by {
            assert(on_grid(cur@.parts[i].x, cur@.parts[i].y));
        }
        if self.fits(id, &cand) {
            self.relocate(id, cand);
        } else if dy > 0 {
            self.active_piece = None;
        }
    }

    /// Moves the active piece one column left, unless a cell there is off the
    /// board or owned by another piece.
    pub fn move_left(&mut self)
        requires
            old(self)@.wf(),
        ensures
            final(self)@ == old(self)@.shifted(-1, 0),
            final(self)@.wf(),
    {
        self.shift(-1, 0);
    }

    /// Moves the active piece one column right, unless a cell there is off
    /// the board or owned by another piece.
    pub fn move_right(&mut self)
        requires
            old(self)@.wf(),
        ensures
            final(self)@ == old(self)@.shifted(1, 0),
            final(self)@.wf(),
    {
        self.shift(1, 0);
    }

    /// Moves the active piece one row down; where a cell below is off the
    /// board or owned by another piece, the piece lands and stops being active.
    pub fn move_down(&mut self)
        requires
            old(self)@.wf(),
        ensures
            final(self)@ == old(self)@.shifted(0, 1),
            final(self)@.wf(),
    {
        self.shift(0, 1);
    }

    /// Turns the active piece once by its rotation table, unless a turned part
    /// would leave the columns, go below the floor, land on another piece's
    /// cell or share a cell with another part. Parts may go above row 0 (at
    /// most one row, as the rotation tables allow).
    pub fn rotate(&mut self)
        requires
            old(self)@.wf(),
        ensures
            final(self)@ == old(self)@.turned(),
            final(self)@.wf(),
    {
        proof {
            lemma_turned_wf(self@);
        }
        let id = match self.active_piece {
            None => return ,
            Some(id) => id,
        };
        let cur = self.pieces[id];
        assert(self@.pieces[id as int] == cur@);
        assert forall|i: int| 0 <= i < 4 implies i64::MIN <= #[trigger] cur@.rotated().parts[i].x <= i64::MAX
            && i64::MIN <= cur@.rotated().parts[i].y <= i64::MAX by {
            assert(on_grid(cur@.parts[i].x, cur@.parts[i].y));
            lemma_delta_range(cur.piece_type, cur.rotation, i);
        }
        let cand = cur.rotated();
        assert forall|i: int| 0 <= i < 4 implies #[trigger] cand@.parts[i].y >= TOP_ROW by {
            assert(cur@.parts[i].y >= rise(cur.piece_type, cur.rotation, i));
            lemma_rise_step(cur.piece_type, cur.rotation, i);
            lemma_rise_step(cur.piece_type, next_rotation(cur.rotation), i);
        }
        if self.fits(id, &cand) && distinct(&cand) {
            self.relocate(id, cand);
        }
    }
}

/// Whether the four parts of `p`, all in the occupancy table, stand on four
/// different cells.
fn distinct(p: &TetrisPiece) -> (r: bool)
    requires
        forall|i: int| 0 <= i < 4 ==> on_grid(#[trigger] p@.parts[i].x, p@.parts[i].y),
    ensures
        r == distinct_cells(p@),
{
    let mut i: usize = 0;
    while i < 4
        invariant
            0 <= i <= 4,
            forall|k: int| 0 <= k < 4 ==> on_grid(#[trigger] p@.parts[k].x, p@.parts[k].y),
            forall|a: int, b: int|
                0 <= a < i && 0 <= b < 4 && a != b ==> #[trigger] part_cell(p@, a) != #[trigger] part_cell(p@, b),
        decreases 4 - i,
    {
        let mut j: usize = 0;
        while j < 4
            invariant
                0 <= i < 4,
                0 <= j <= 4,
                forall|k: int| 0 <= k < 4 ==> on_grid(#[trigger] p@.parts[k].x, p@.parts[k].y),
                forall|a: int, b: int|
                    0 <= a < i && 0 <= b < 4 && a != b ==> #[trigger] part_cell(p@, a) != #[trigger] part_cell(p@, b),
                forall|b: int| 0 <= b < j && b != i ==> part_cell(p@, i as int) != #[trigger] part_cell(p@, b),
            decreases 4 - j,
        {
            if j != i && p.parts[i].x == p.parts[j].x && p.parts[i].y == p.parts[j].y {
                assert(part_cell(p@, i as int) == part_cell(p@, j as int));
                return false;
            }
            assert(p@.parts[i as int] == p.parts[i as int]@ && p@.parts[j as int] == p.parts[j as int]@);
            assert(on_grid(p@.parts[i as int].x, p@.parts[i as int].y));
            assert(on_grid(p@.parts[j as int].x, p@.parts[j as int].y));
            j = j + 1;
        }
        i = i + 1;
    }
    true
}

/// Points for clearing `rows` rows in one batch at level `level`:
/// 100, 300, 500 or 800 times the level for one to four rows, else nothing.
pub fn line_clear_award(rows: usize, level: u32) -> (points: u64)
    ensures
        points == award(rows as int, level as int),
{
    let l = level as u64;
    if rows == 1 {
        100 * l
    } else if rows == 2 {
        300 * l
    } else if rows == 3 {
        500 * l
    } else if rows == 4 {
        800 * l
    } else {
        0
    }
}

/// A part during row collapse: hidden if it was in `row`, moved one row down
/// if it was in a row from `y` up to just above `row`.
spec fn collapsing(o: PartView, row: int, y: int) -> PartView {
    if o.y == row {
        PartView { visible: false, ..o }
    } else if y <= o.y < row {
        PartView { y: o.y + 1, ..o }
    } else {
        o
    }
}

/// Clears row `row` of one piece: its parts there are hidden, then every row
/// above is lowered by one, from the row just above `row` up to the row
/// above the board.
fn collapse_row(p: &mut TetrisPiece, row: i64)
    requires
        0 <= row < HEIGHT,
    ensures
        final(p)@ == old(p)@.row_cleared(row as int),
{
    let ghost orig = p@;
    p.hide_row(row);
    let mut y: i64 = row;
    while y > TOP_ROW
        invariant
            TOP_ROW <= y <= row < HEIGHT,
            p@.color == orig.color,
            p@.piece_type == orig.piece_type,
            p@.rotation == orig.rotation,
            p@.parts.len() == 4,
            forall|k: int| 0 <= k < 4 ==> #[trigger] p@.parts[k] == collapsing(orig.parts[k], row as int, y as int),
        decreases y - TOP_ROW,
    {
        y = y - 1;
        p.lower_row(y, 1);
    }
    assert(p@.parts =~= orig.row_cleared(row as int).parts);
}

impl TetrisGame {
    /// The seven piece types, in a fixed order.
    pub fn new_piece_type_bag() -> (r: Vec<TetrisPieceType>)
        ensures
            r@ == all_piece_types(),
    {
        let r = vec![
            TetrisPieceType::Q,
            TetrisPieceType::Z,
            TetrisPieceType::S,
            TetrisPieceType::T,
            TetrisPieceType::I,
            TetrisPieceType::L,
            TetrisPieceType::J,
        ];
        assert(r@ =~= all_piece_types());
        r
    }

    /// The seven colours, in a fixed order.
    pub fn new_color_bag() -> (r: Vec<Color>)
        ensures
            r@ == all_colors(),
    {
        let r = vec![
            Color::Pink,
            Color::Red,
            Color::Yellow,
            Color::Green,
            Color::Orange,
            Color::LightBlue,
            Color::DarkBlue,
        ];
        assert(r@ =~= all_colors());
        r
    }

    /// Whether `p` can be put down as a new piece.
    fn placeable(&self, p: &TetrisPiece) -> (r: bool)
        requires
            self@.wf(),
        ensures
            r == self@.placeable(p@),
    {
        if p.rotation != Rotation::R0 {
            return false;
        }
        for i in 0..4
            invariant
                self@.wf(),
                forall|k: int|
                    0 <= k < i ==> (#[trigger] p@.parts[k]).visible && in_bounds(p@.parts[k].x, p@.parts[k].y)
                        && self@.cells[part_cell(p@, k)] is None,
        {
            let q = p.parts[i];
            assert(p@.parts[i as int] == q@);
            if !q.visible || q.x < 0 || q.x >= WIDTH || q.y < 0 || q.y >= HEIGHT {
                let ghost k = i as int;
                assert(0 <= k < 4);
                assert(!(p@.parts[k].visible && in_bounds(p@.parts[k].x, p@.parts[k].y)));
                proof {
                    lemma_not_on_board(p@, k);
                }
                return false;
            }
            let c = cell_of(q.x, q.y);
            if self.grid[c].is_some() {
                assert(self@.cells[part_cell(p@, i as int)] is Some);
                return false;
            }
        }
        distinct(p)
    }

    /// Puts down `p`, known to be placeable, as the new active piece.
    fn place(&mut self, p: TetrisPiece)
        requires
            old(self)@.wf(),
            old(self)@.placeable(p@),
            old(self)@.pieces.len() < usize::MAX,
        ensures
            final(self)@ == old(self)@.with_piece(p@),
    {
        let id = self.pieces.len();
        assert forall|i: int| 0 <= i < 4 implies on_grid(#[trigger] p@.parts[i].x, p@.parts[i].y) by {
            assert(p@.parts[i].visible);
            assert(in_bounds(p@.parts[i].x, p@.parts[i].y));
        }
        fill_cells(&mut self.grid, &p, Some(id));
        self.pieces.push(p);
        self.active_piece = Some(id);
        assert(self@.cells =~= cells_placed(old(self)@.cells, p@, id));
        assert(self@.pieces =~= old(self)@.pieces.push(p@));
    }

    /// Adds `piece` as the new active piece if it is at orientation R0, as a
    /// spawned piece is, and its four parts are visible, on the board, on
    /// distinct cells and on free cells; returns whether it was added. A piece
    /// that was active before stays where it is.
    pub fn add_piece(&mut self, piece: TetrisPiece) -> (added: bool)
        requires
            old(self)@.wf(),
            old(self)@.pieces.len() < usize::MAX,
        ensures
            (added, final(self)@) == old(self)@.added(piece@),
            final(self)@.wf(),
    {
        if self.placeable(&piece) {
            proof {
                lemma_with_piece_wf(self@, piece@);
            }
            self.place(piece);
            true
        } else {
            false
        }
    }

    /// Whether every cell of row `y` is occupied.
    fn row_is_full(&self, y: i64) -> (r: bool)
        requires
            self@.wf(),
            0 <= y < HEIGHT,
        ensures
            r == row_full(self@.cells, y as int),
    {
        for x in 0..WIDTH
            invariant
                self@.wf(),
                0 <= y < HEIGHT,
                forall|k: int| 0 <= k < x ==> #[trigger] self@.cells[cell_index(k, y as int)] is Some,
        {
            let c = cell_of(x, y);
            if self.grid[c].is_none() {
                return false;
            }
        }
        true
    }

    /// Clears row `row` from the table and from every piece.
    fn clear_row(&mut self, row: i64)
        requires
            old(self)@.wf(),
            0 <= row < HEIGHT,
        ensures
            final(self)@ == old(self)@.row_cleared(row as int),
    {
        let n = self.pieces.len();
        for id in 0..n
            invariant
                n == self.pieces.len(),
                0 <= row < HEIGHT,
                old(self)@.wf(),
                self@ == (GameView { pieces: self@.pieces, ..old(self)@ }),
                self@.pieces.len() == n,
                old(self)@.pieces.len() == n,
                forall|k: int|
                    0 <= k < n ==> #[trigger] self@.pieces[k] == if k < id {
                        old(self)@.pieces[k].row_cleared(row as int)
                    } else {
                        old(self)@.pieces[k]
                    },
        {
            let mut p = self.pieces[id];
            assert(self@.pieces[id as int] == p@);
            assert forall|k: int| 0 <= k < n && k != id implies #[trigger] self@.pieces[k] == if k < id {
                old(self)@.pieces[k].row_cleared(row as int)
            } else {
                old(self)@.pieces[k]
            } by {}
            assert(p@ == old(self)@.pieces[id as int]);
            collapse_row(&mut p, row);
            let ghost before = self@.pieces;
            self.pieces.set(id, p);
            assert(self@.pieces =~= before.update(id as int, p@));
        }
        let mut grid: Vec<Option<usize>> = Vec::new();
        let first_kept = ((row + 1 - TOP_ROW) * WIDTH) as usize;
        let first_shifted = WIDTH as usize;
        let total = (WIDTH * (HEIGHT - TOP_ROW)) as usize;
        for c in 0..total
            invariant
                0 <= row < HEIGHT,
                first_kept == cell_index(0, row as int + 1),
                first_shifted == cell_index(0, TOP_ROW + 1),
                total == num_cells(),
                self.grid@.len() == num_cells(),
                grid@ == cells_cleared(self.grid@, row as int).subrange(0, c as int),
        {
            let v = if c >= first_kept {
                self.grid[c]
            } else if c >= first_shifted {
                self.grid[c - WIDTH as usize]
            } else {
                None
            };
            grid.push(v);
            assert(grid@ =~= cells_cleared(self.grid@, row as int).subrange(0, c + 1));
        }
        self.grid = grid;
        assert(self@.cells =~= cells_cleared(old(self)@.cells, row as int));
        assert(self@.pieces =~= old(self)@.row_cleared(row as int).pieces);
    }

    /// Scans the rows from the bottom up and clears the first full one: its
    /// parts become invisible and every row above it, up to the row above the
    /// board, moves one row down.
    /// Returns the index of the cleared row, or `None` when no row is full or
    /// a piece is still falling (then nothing changes).
    pub fn check_and_clear_rows(&mut self) -> (cleared: Option<i64>)
        requires
            old(self)@.wf(),
        ensures
            old(self)@.cleared_once() == (
            match cleared {
                Some(y) => Some(y as int),
                None => None,
            },
            final(self)@),
            final(self)@.wf(),
    {
        proof {
            lemma_cleared_once_wf(self@);
        }
        if self.active_piece.is_some() {
            return None;
        }
        let mut y: i64 = HEIGHT - 1;
        while y >= 0
            invariant
                -1 <= y < HEIGHT,
                self@ == old(self)@,
                old(self)@.wf(),
                old(self)@.active is None,
                old(self)@.cleared_once().1.wf(),
                lowest_full_row(self@.cells, HEIGHT - 1) == lowest_full_row(self@.cells, y as int),
            decreases y + 1,
        {
            if self.row_is_full(y) {
                assert(lowest_full_row(self@.cells, y as int) == Some(y as int));
                self.clear_row(y);
                assert(self@ == old(self)@.row_cleared(y as int));
                assert(old(self)@.cleared_once().1 == old(self)@.row_cleared(y as int));
                return Some(y);
            }
            y = y - 1;
        }
        None
    }
}

impl TetrisGame {
    /// A fresh engine at level `level` (at least 1): an empty board and a
    /// queue of three pieces drawn from full bags, the k-th with the random
    /// numbers `rolls[k]` for its type and its colour.
    pub fn new(level: u32, rolls: [(usize, usize); 3]) -> (g: TetrisGame)
        requires
            level >= 1,
        ensures
            g@ == initial(level as int, rolls@),
            g@.wf(),
    {
        let mut piece_bag = Bag::new(TetrisGame::new_piece_type_bag());
        let mut color_bag = Bag::new(TetrisGame::new_color_bag());
        let ghost b0 = piece_bag@;
        let ghost c0 = color_bag@;
        let t0 = piece_bag.draw(rolls[0].0);
        let c0v = color_bag.draw(rolls[0].1);
        let t1 = piece_bag.draw(rolls[1].0);
        let c1v = color_bag.draw(rolls[1].1);
        let t2 = piece_bag.draw(rolls[2].0);
        let c2v = color_bag.draw(rolls[2].1);
        let mut next_pieces: Vec<TetrisPiece> = Vec::new();
        next_pieces.push(TetrisPiece::new(t0, SPAWN_COLUMN, c0v));
        next_pieces.push(TetrisPiece::new(t1, SPAWN_COLUMN, c1v));
        next_pieces.push(TetrisPiece::new(t2, SPAWN_COLUMN, c2v));
        let g = TetrisGame {
            grid: empty_grid(),
            pieces: Vec::new(),
            active_piece: None,
            next_pieces,
            piece_bag,
            color_bag,
            score: 0,
            level,
            clear_ticks: 0,
            cleared_rows: Vec::new(),
        };
        proof {
            let types = rolls@.map_values(|r: (usize, usize)| r.0);
            let colors = rolls@.map_values(|r: (usize, usize)| r.1);
            crate::bag::lemma_draw_three(b0, types);
            crate::bag::lemma_draw_three(c0, colors);
            let init = initial(level as int, rolls@);
            assert(g@.next_pieces =~= init.next_pieces);
            assert(g@.pieces =~= init.pieces);
            assert(g@.cleared_rows =~= init.cleared_rows);
            lemma_initial_wf(level as int, rolls@);
        }
        g
    }

    /// One gravity step. With an active piece this is `move_down`. Without
    /// one, full rows are cleared until none is left, the batch is scored
    /// (100, 300, 500 or 800 times the level for one to four rows; the score
    /// stays at its maximum once it gets there) and highlighted, and the front
    /// of the queue spawns as the active piece where its cells are free; the
    /// queue is then refilled with a piece whose type and colour come from the
    /// bags with the random numbers `roll_type` and `roll_color`. Where the
    /// front piece's cells are taken, no piece spawns.
    pub fn tick(&mut self, roll_type: usize, roll_color: usize)
        requires
            old(self)@.wf(),
            old(self)@.pieces.len() < usize::MAX,
        ensures
            final(self)@ == old(self)@.ticked(roll_type, roll_color),
            final(self)@.wf(),
    {
        proof {
            lemma_ticked_wf(self@, roll_type, roll_color);
        }
        if self.active_piece.is_some() {
            self.move_down();
            return ;
        }
        let mut rows: Vec<i64> = Vec::new();
        let rounds: i64 = HEIGHT - TOP_ROW;
        let mut round: i64 = 0;
        while round < rounds
            invariant_except_break
                0 <= round <= rounds,
                old(self)@.cleared_all(clear_rounds()) == (rows@.map_values(|r: i64| r as int) + self@.cleared_all(
                    (rounds - round) as nat,
                ).0, self@.cleared_all((rounds - round) as nat).1),
            invariant
                self@.wf(),
                self@.active is None,
                self@.pieces.len() == old(self)@.pieces.len(),
                rows.len() <= round <= rounds,
                rounds == clear_rounds(),
            ensures
                old(self)@.cleared_all(clear_rounds()) == (rows@.map_values(|r: i64| r as int), self@),
            decreases rounds - round,
        {
            let ghost before = self@;
            let ghost before_rows = rows@.map_values(|r: i64| r as int);
            match self.check_and_clear_rows() {
                Some(y) => {
                    rows.push(y);
                    proof {
                        let k = (rounds - round) as nat;
                        let rest = self@.cleared_all((k - 1) as nat);
                        assert(before.cleared_all(k) == (seq![y as int] + rest.0, rest.1));
                        assert(rows@.map_values(|r: i64| r as int) =~= before_rows.push(y as int));
                        assert(before_rows + (seq![y as int] + rest.0) =~= rows@.map_values(|r: i64| r as int)
                            + rest.0);
                    }
                },
                None => {
                    assert(before.cleared_all((rounds - round) as nat) == (Seq::<int>::empty(), before));
                    assert(before_rows + Seq::<int>::empty() =~= before_rows);
                    break ;
                },
            }
            round = round + 1;
            if round == rounds {
                proof {
                    let e = Seq::<int>::empty();
                    assert(rows@.map_values(|r: i64| r as int) + e =~= rows@.map_values(|r: i64| r as int));
                }
            }
        }
        let ghost cleared = self@;
        let n = rows.len();
        let points = line_clear_award(n, self.level);
        self.score = self.score.saturating_add(points);
        if n > 0 {
            self.clear_ticks = CLEAR_ANIMATION_FRAMES;
            self.cleared_rows = rows;
        }
        assert(self@ == cleared.scored(rows@.map_values(|r: i64| r as int)));
        let front = self.next_pieces[0];
        assert(self@.next_pieces[0] == front@);
        if self.placeable(&front) {
            let ghost s = self@;
            proof {
                lemma_with_piece_wf(self@, front@);
            }
            self.place(front);
            let t = self.piece_bag.draw(roll_type);
            let c = self.color_bag.draw(roll_color);
            self.next_pieces.remove(0);
            self.next_pieces.push(TetrisPiece::new(t, SPAWN_COLUMN, c));
            assert(self@.next_pieces =~= s.next_pieces.drop_first().push(spawn_piece(t, c)));
            assert(self@ == s.spawned(roll_type, roll_color));
        }
    }

    /// Points scored so far.
    pub fn score(&self) -> (r: u64)
        ensures
            r == self@.score,
    {
        self.score
    }

    /// Level that multiplies the points of a row clear.
    pub fn level(&self) -> (r: u32)
        ensures
            r == self@.level,
    {
        self.level
    }

    /// Sets the level that multiplies the points of later row clears.
    pub fn set_level(&mut self, level: u32)
        requires
            old(self)@.wf(),
            level >= 1,
        ensures
            final(self)@ == (GameView { level: level as int, ..old(self)@ }),
            final(self)@.wf(),
    {
        self.level = level;
    }

    /// Identifier of the falling piece, if any.
    pub fn active_piece(&self) -> (r: Option<usize>)
        ensures
            r == self@.active,
    {
        self.active_piece
    }

    /// Number of pieces spawned so far; identifiers run from 0 to this value.
    pub fn piece_count(&self) -> (r: usize)
        ensures
            r == self@.pieces.len(),
    {
        self.pieces.len()
    }

    /// The piece with identifier `id`.
    pub fn piece(&self, id: usize) -> (r: TetrisPiece)
        requires
            id < self@.pieces.len(),
        ensures
            r@ == self@.pieces[id as int],
    {
        self.pieces[id]
    }

    /// Owner of cell `(x, y)`; `None` for a free cell or one outside the
    /// occupancy table (which holds the board and the row above it).
    pub fn occupant(&self, x: i64, y: i64) -> (r: Option<usize>)
        requires
            self@.wf(),
        ensures
            r == if on_grid(x as int, y as int) {
                self@.cells[cell_index(x as int, y as int)]
            } else {
                None
            },
    {
        if x < 0 || x >= WIDTH || y < TOP_ROW || y >= HEIGHT {
            None
        } else {
            self.grid[cell_of(x, y)]
        }
    }

    /// The pieces waiting to spawn, front first.
    pub fn next_pieces(&self) -> (r: Vec<TetrisPiece>)
        ensures
            r@.map_values(|p: TetrisPiece| p@) == self@.next_pieces,
    {
        let mut r: Vec<TetrisPiece> = Vec::new();
        for k in 0..self.next_pieces.len()
            invariant
                r@ == self.next_pieces@.subrange(0, k as int),
        {
            r.push(self.next_pieces[k]);
            assert(r@ =~= self.next_pieces@.subrange(0, k + 1));
        }
        assert(r@ =~= self.next_pieces@);
        r
    }

    /// Frames left in the highlight of the last cleared rows.
    pub fn clear_ticks(&self) -> (r: u64)
        ensures
            r == self@.clear_ticks,
    {
        self.clear_ticks
    }

    /// The rows cleared by the last batch that cleared any, in clearing order.
    pub fn cleared_rows(&self) -> (r: Vec<i64>)
        ensures
            r@.map_values(|y: i64| y as int) == self@.cleared_rows,
    {
        let mut r: Vec<i64> = Vec::new();
        for k in 0..self.cleared_rows.len()
            invariant
                r@ == self.cleared_rows@.subrange(0, k as int),
        {
            r.push(self.cleared_rows[k]);
            assert(r@ =~= self.cleared_rows@.subrange(0, k + 1));
        }
        assert(r@ =~= self.cleared_rows@);
        r
    }
}

impl TetrisGame {
    /// The visible parts of every piece, piece after piece, with their colours.
    pub fn draw_pieces(&self) -> (r: Vec<PaintedCell>)
        ensures
            r@.map_values(|c: PaintedCell| c@) == paint(self@.pieces, self@.pieces.len() as int),
    {
        let mut r: Vec<PaintedCell> = Vec::new();
        let n = self.pieces.len();
        for id in 0..n
            invariant
                n == self.pieces.len(),
                r@.map_values(|c: PaintedCell| c@) == paint(self@.pieces, id as int),
        {
            let p = self.pieces[id];
            assert(self@.pieces[id as int] == p@);
            for k in 0..4
                invariant
                    n == self.pieces.len(),
                    id < n,
                    self@.pieces[id as int] == p@,
                    r@.map_values(|c: PaintedCell| c@) == paint(self@.pieces, id as int) + piece_paint(p@, k as int),
            {
                let q = p.parts[k];
                assert(p@.parts[k as int] == q@);
                let ghost before = r@;
                if q.visible {
                    r.push(PaintedCell { x: q.x, y: q.y, color: p.color });
                    assert(r@.map_values(|c: PaintedCell| c@) =~= before.map_values(|c: PaintedCell| c@).push(
                        (q.x as int, q.y as int, p.color),
                    ));
                }
                assert(r@.map_values(|c: PaintedCell| c@) =~= paint(self@.pieces, id as int) + piece_paint(
                    p@,
                    k + 1,
                ));
            }
        }
        r
    }

    /// The lines of the board's grid: the horizontal ones from the top edge
    /// down, then the vertical ones from the left edge rightwards.
    pub fn draw_game_board() -> (r: Vec<GridLine>)
        ensures
            r@.len() == HEIGHT + 1 + WIDTH + 1,
            forall|k: int|
                0 <= k < r@.len() ==> (r@[k].x0 as int, r@[k].y0 as int, r@[k].x1 as int, r@[k].y1 as int)
                    == #[trigger] grid_line(k),
    {
        let mut r: Vec<GridLine> = Vec::new();
        for n in 0..HEIGHT + 1
            invariant
                r@.len() == n,
                forall|k: int|
                    0 <= k < r@.len() ==> (r@[k].x0 as int, r@[k].y0 as int, r@[k].x1 as int, r@[k].y1 as int)
                        == #[trigger] grid_line(k),
        {
            r.push(GridLine { x0: 0, y0: n, x1: WIDTH, y1: n });
        }
        for n in 0..WIDTH + 1
            invariant
                r@.len() == HEIGHT + 1 + n,
                forall|k: int|
                    0 <= k < r@.len() ==> (r@[k].x0 as int, r@[k].y0 as int, r@[k].x1 as int, r@[k].y1 as int)
                        == #[trigger] grid_line(k),
        {
            r.push(GridLine { x0: n, y0: 0, x1: n, y1: HEIGHT });
        }
        r
    }

    /// The frame to paint: every visible part, and the last cleared rows
    /// while their highlight lasts. Each call uses up one frame of the
    /// highlight; nothing else changes.
    pub fn draw(&mut self) -> (frame: Frame)
        ensures
            frame.cells@.map_values(|c: PaintedCell| c@) == paint(old(self)@.pieces, old(self)@.pieces.len() as int),
            frame.flash_rows@.map_values(|y: i64| y as int) == if old(self)@.clear_ticks > 0 {
                old(self)@.cleared_rows
            } else {
                Seq::empty()
            },
            final(self)@ == (GameView {
                clear_ticks: if old(self)@.clear_ticks > 0 { old(self)@.clear_ticks - 1 } else { 0 },
                ..old(self)@
            }),
    {
        let cells = self.draw_pieces();
        let flash_rows = if self.clear_ticks > 0 {
            self.clear_ticks = self.clear_ticks - 1;
            self.cleared_rows()
        } else {
            let e: Vec<i64> = Vec::new();
            assert(e@.map_values(|y: i64| y as int) =~= Seq::<int>::empty());
            e
        };
        Frame { cells, flash_rows }
    }
}

} // verus!
