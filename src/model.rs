use vstd::prelude::*;

use crate::bag::BagView;
use crate::part::PartView;
use crate::piece::{rise, spawn_parts, Color, PieceView, Rotation, TetrisPieceType};

verus! {

/// Columns of the board.
pub const WIDTH: i64 = 10;

/// Rows of the board; row 0 is the top one.
pub const HEIGHT: i64 = 22;

/// Highest row a part can reach: the row just above the board, which a
/// piece turned right after it spawns may reach. The occupancy table keeps
/// it; it is never scanned for full rows, but a clear shifts it down with
/// the rows of the board.
pub const TOP_ROW: i64 = -1;

/// Column at which new pieces are laid out.
pub const SPAWN_COLUMN: i64 = 3;

/// Number of pieces waiting in the preview queue.
pub const NEXT_QUEUE_LEN: usize = 3;

/// Frames during which cleared rows are highlighted.
pub const CLEAR_ANIMATION_FRAMES: u64 = 20;

/// Cell `(x, y)` is on the board proper.
pub open spec fn in_bounds(x: int, y: int) -> bool {
    0 <= x < WIDTH && 0 <= y < HEIGHT
}

/// Cell `(x, y)` is in the occupancy table: on the board or in the row above.
pub open spec fn on_grid(x: int, y: int) -> bool {
    0 <= x < WIDTH && TOP_ROW <= y < HEIGHT
}

/// A move or a turn may take a part to `(x, y)` as far as bounds go: inside
/// the columns and above the floor.
pub open spec fn legal_cell(x: int, y: int) -> bool {
    0 <= x < WIDTH && y < HEIGHT
}

/// Index of cell `(x, y)` in the row-major occupancy table, which starts
/// at row `TOP_ROW`.
pub open spec fn cell_index(x: int, y: int) -> int {
    (y - TOP_ROW) * WIDTH + x
}

pub open spec fn num_cells() -> int {
    WIDTH * (HEIGHT - TOP_ROW)
}

/// Cell of part `i` of `p`.
pub open spec fn part_cell(p: PieceView, i: int) -> int {
    cell_index(p.parts[i].x, p.parts[i].y)
}

/// Some part of `p`, visible or not, stands on cell `c`.
pub open spec fn covers(p: PieceView, c: int) -> bool {
    exists|i: int| 0 <= i < 4 && part_cell(p, i) == c
}

/// No two parts of `p` share a cell.
pub open spec fn distinct_cells(p: PieceView) -> bool {
    forall|i: int, j: int|
        0 <= i < 4 && 0 <= j < 4 && i != j ==> #[trigger] part_cell(p, i) != #[trigger] part_cell(p, j)
}

/// Every part of `p` is visible and on the board.
pub open spec fn on_board(p: PieceView) -> bool {
    forall|i: int|
        0 <= i < 4 ==> #[trigger] p.parts[i].visible && in_bounds(p.parts[i].x, p.parts[i].y)
}

/// Every part of `p` is visible and in the occupancy table.
pub open spec fn in_play(p: PieceView) -> bool {
    forall|i: int|
        0 <= i < 4 ==> #[trigger] p.parts[i].visible && on_grid(p.parts[i].x, p.parts[i].y)
}

/// No part of `p` stands above where it stood at orientation R0 by more than
/// the rotation table lifted it, so that no turn can take it above `TOP_ROW`.
pub open spec fn rise_respected(p: PieceView) -> bool {
    forall|i: int| 0 <= i < 4 ==> #[trigger] p.parts[i].y >= rise(p.piece_type, p.rotation, i)
}

/// The occupancy table after piece `id` moved from `from` to `to`: the old
/// cells are released, then the new ones taken.
pub open spec fn cells_moved(cells: Seq<Option<usize>>, from: PieceView, to: PieceView, id: usize) -> Seq<
    Option<usize>,
> {
    Seq::new(
        cells.len(),
        |c: int|
            if covers(to, c) {
                Some(id)
            } else if covers(from, c) {
                None
            } else {
                cells[c]
            },
    )
}

/// The occupancy table after piece `id` was put down at `p`.
pub open spec fn cells_placed(cells: Seq<Option<usize>>, p: PieceView, id: usize) -> Seq<Option<usize>> {
    Seq::new(cells.len(), |c: int| if covers(p, c) { Some(id) } else { cells[c] })
}

/// The occupancy table after row `row` was removed and every row above it,
/// up to the row above the board, moved one row down; the row above the
/// board is left empty.
pub open spec fn cells_cleared(cells: Seq<Option<usize>>, row: int) -> Seq<Option<usize>> {
    Seq::new(
        cells.len(),
        |c: int|
            if c >= cell_index(0, row + 1) {
                cells[c]
            } else if c >= cell_index(0, TOP_ROW + 1) {
                cells[c - WIDTH]
            } else {
                None
            },
    )
}

/// Rounds of a tick's clearing batch: one per row of the occupancy table.
/// Each round removes a full board row, and the row above the board can turn
/// into a full board row at most once, so no batch needs more.
pub open spec fn clear_rounds() -> nat {
    (HEIGHT - TOP_ROW) as nat
}

/// Every cell of row `y` is occupied.
pub open spec fn row_full(cells: Seq<Option<usize>>, y: int) -> bool {
    forall|x: int| 0 <= x < WIDTH ==> #[trigger] cells[cell_index(x, y)] is Some
}

/// The lowest full row among rows `0..=y`, if any.
pub open spec fn lowest_full_row(cells: Seq<Option<usize>>, y: int) -> Option<int>
    decreases y + 1,
{
    if y < 0 {
        None
    } else if row_full(cells, y) {
        Some(y)
    } else {
        lowest_full_row(cells, y - 1)
    }
}

/// A piece of type `t` and colour `c` as it is laid out at the spawn column.
pub open spec fn spawn_piece(t: TetrisPieceType, c: Color) -> PieceView {
    PieceView { parts: spawn_parts(t, SPAWN_COLUMN as int), color: c, piece_type: t, rotation: Rotation::R0 }
}

pub open spec fn all_piece_types() -> Seq<TetrisPieceType> {
    seq![
        TetrisPieceType::Q,
        TetrisPieceType::Z,
        TetrisPieceType::S,
        TetrisPieceType::T,
        TetrisPieceType::I,
        TetrisPieceType::L,
        TetrisPieceType::J,
    ]
}

pub open spec fn all_colors() -> Seq<Color> {
    seq![
        Color::Pink,
        Color::Red,
        Color::Yellow,
        Color::Green,
        Color::Orange,
        Color::LightBlue,
        Color::DarkBlue,
    ]
}

/// Points for clearing `rows` rows in one batch at level `level`.
pub open spec fn award(rows: int, level: int) -> int {
    if rows == 1 {
        100 * level
    } else if rows == 2 {
        300 * level
    } else if rows == 3 {
        500 * level
    } else if rows == 4 {
        800 * level
    } else {
        0
    }
}

impl PieceView {
    /// The piece after row `row` was cleared: its parts in that row become
    /// invisible, its parts in the rows above it (up to the row above the
    /// board) move one row down, hidden or not.
    pub open spec fn row_cleared(self, row: int) -> PieceView {
        PieceView {
            parts: self.parts.map_values(
                |p: PartView|
                    if p.y == row {
                        PartView { visible: false, ..p }
                    } else if TOP_ROW <= p.y < row {
                        PartView { y: p.y + 1, ..p }
                    } else {
                        p
                    },
            ),
            ..self
        }
    }
}

/// Cells painted for the first `k` parts of `p`: each visible one, with the
/// piece's colour.
pub open spec fn piece_paint(p: PieceView, k: int) -> Seq<(int, int, Color)>
    decreases k,
{
    if k <= 0 {
        Seq::empty()
    } else {
        let q = p.parts[k - 1];
        piece_paint(p, k - 1) + if q.visible {
            seq![(q.x, q.y, p.color)]
        } else {
            Seq::empty()
        }
    }
}

/// Cells painted for the first `n` pieces, piece after piece.
pub open spec fn paint(pieces: Seq<PieceView>, n: int) -> Seq<(int, int, Color)>
    decreases n,
{
    if n <= 0 {
        Seq::empty()
    } else {
        paint(pieces, n - 1) + piece_paint(pieces[n - 1], 4)
    }
}

/// Line `k` of the board's grid, from `(x0, y0)` to `(x1, y1)` in cell
/// units: first the horizontal lines from the top edge down, then the
/// vertical ones from the left edge rightwards.
pub open spec fn grid_line(k: int) -> (int, int, int, int) {
    if k <= HEIGHT {
        (0, k, WIDTH as int, k)
    } else {
        let x = k - HEIGHT - 1;
        (x, 0, x, HEIGHT as int)
    }
}

/// A fresh engine at level `level`: an empty board, no pieces, and a queue of
/// pieces drawn from full bags, the k-th with the random numbers `rolls[k]`
/// (for its type, then for its colour).
pub open spec fn initial(level: int, rolls: Seq<(usize, usize)>) -> GameView {
    let types = BagView { pool: all_piece_types(), full: all_piece_types() }.draw_all(
        rolls.map_values(|r: (usize, usize)| r.0),
    );
    let colors = BagView { pool: all_colors(), full: all_colors() }.draw_all(
        rolls.map_values(|r: (usize, usize)| r.1),
    );
    GameView {
        cells: Seq::new(num_cells() as nat, |c: int| None),
        pieces: Seq::empty(),
        active: None,
        next_pieces: Seq::new(rolls.len(), |k: int| spawn_piece(types.0[k], colors.0[k])),
        piece_bag: types.1,
        color_bag: colors.1,
        score: 0,
        level,
        clear_ticks: 0,
        cleared_rows: Seq::empty(),
    }
}

/// The whole engine state as a mathematical value.
pub struct GameView {
    /// Owner of each cell, row by row.
    pub cells: Seq<Option<usize>>,
    /// Every piece ever spawned, by identifier.
    pub pieces: Seq<PieceView>,
    pub active: Option<usize>,
    pub next_pieces: Seq<PieceView>,
    pub piece_bag: BagView<TetrisPieceType>,
    pub color_bag: BagView<Color>,
    pub score: int,
    pub level: int,
    pub clear_ticks: int,
    pub cleared_rows: Seq<int>,
}

impl GameView {
    /// The occupancy table and the pieces agree: each visible part owns its
    /// cell, each owned cell holds a visible part of its owner, and no two
    /// visible parts of a piece share a cell.
    pub open spec fn occupancy_consistent(self) -> bool {
        &&& self.cells.len() == num_cells()
        &&& forall|id: int, i: int|
            0 <= id < self.pieces.len() && 0 <= i < 4 && (#[trigger] self.pieces[id].parts[i]).visible
                ==> self.cells[part_cell(self.pieces[id], i)] == Some(id as usize)
        &&& forall|c: int|
            0 <= c < num_cells() && (#[trigger] self.cells[c]) is Some ==> {
                let id = self.cells[c]->0 as int;
                &&& id < self.pieces.len()
                &&& exists|i: int|
                    0 <= i < 4 && (#[trigger] self.pieces[id].parts[i]).visible && part_cell(self.pieces[id], i) == c
            }
        &&& forall|id: int, i: int, j: int|
            0 <= id < self.pieces.len() && 0 <= i < 4 && 0 <= j < 4 && i != j && (
            #[trigger] self.pieces[id].parts[i]).visible && (#[trigger] self.pieces[id].parts[j]).visible
                ==> part_cell(self.pieces[id], i) != part_cell(self.pieces[id], j)
    }

    /// Every part of every piece lies in the occupancy table.
    pub open spec fn parts_in_bounds(self) -> bool {
        forall|id: int, i: int|
            0 <= id < self.pieces.len() && 0 <= i < 4 ==> on_grid(
                (#[trigger] self.pieces[id].parts[i]).x,
                self.pieces[id].parts[i].y,
            )
    }

    pub open spec fn wf(self) -> bool {
        &&& self.pieces.len() <= usize::MAX
        &&& forall|id: int| 0 <= id < self.pieces.len() ==> (#[trigger] self.pieces[id]).wf()
        &&& self.parts_in_bounds()
        &&& self.occupancy_consistent()
        &&& self.active matches Some(id) ==> id < self.pieces.len() && in_play(self.pieces[id as int])
            && rise_respected(self.pieces[id as int])
        &&& self.next_pieces.len() == NEXT_QUEUE_LEN
        &&& forall|k: int|
            0 <= k < NEXT_QUEUE_LEN ==> #[trigger] self.next_pieces[k] == spawn_piece(
                self.next_pieces[k].piece_type,
                self.next_pieces[k].color,
            )
        &&& self.piece_bag.wf()
        &&& self.piece_bag.full == all_piece_types()
        &&& self.color_bag.wf()
        &&& self.color_bag.full == all_colors()
        &&& 1 <= self.level <= u32::MAX
        &&& 0 <= self.score <= u64::MAX
        &&& 0 <= self.clear_ticks <= u64::MAX
    }

    /// Every cell of `p` is inside the columns, above the floor, and free or
    /// owned by piece `id`.
    pub open spec fn fits(self, id: usize, p: PieceView) -> bool {
        forall|i: int|
            0 <= i < 4 ==> legal_cell(#[trigger] p.parts[i].x, p.parts[i].y) && (self.cells[part_cell(p, i)] is None
                || self.cells[part_cell(p, i)] == Some(id))
    }

    /// `p` can be put down as a new piece: at orientation R0, as a spawned
    /// piece is, with four visible parts on four distinct free cells of the
    /// board.
    pub open spec fn placeable(self, p: PieceView) -> bool {
        &&& p.wf()
        &&& p.rotation == Rotation::R0
        &&& on_board(p)
        &&& distinct_cells(p)
        &&& forall|i: int| 0 <= i < 4 ==> self.cells[#[trigger] part_cell(p, i)] is None
    }

    /// Piece `id` relocated to `p`.
    pub open spec fn relocated(self, id: usize, p: PieceView) -> GameView {
        GameView {
            cells: cells_moved(self.cells, self.pieces[id as int], p, id),
            pieces: self.pieces.update(id as int, p),
            ..self
        }
    }

    /// The active piece moved by `(dx, dy)` where that is legal. A downward
    /// move that is not legal lands the piece; a sideways one changes nothing.
    pub open spec fn shifted(self, dx: int, dy: int) -> GameView {
        match self.active {
            None => self,
            Some(id) => {
                let cand = self.pieces[id as int].moved_by(dx, dy);
                if self.fits(id, cand) {
                    self.relocated(id, cand)
                } else if dy > 0 {
                    GameView { active: None, ..self }
                } else {
                    self
                }
            },
        }
    }

    /// The active piece turned once, unless a turned part would leave the
    /// columns, go below the floor, land on another piece's cell, or share a
    /// cell with another part. A part may go above row 0.
    pub open spec fn turned(self) -> GameView {
        match self.active {
            None => self,
            Some(id) => {
                let cand = self.pieces[id as int].rotated();
                if self.fits(id, cand) && distinct_cells(cand) {
                    self.relocated(id, cand)
                } else {
                    self
                }
            },
        }
    }

    /// `p` put down as a new piece, which becomes the active one.
    pub open spec fn with_piece(self, p: PieceView) -> GameView {
        GameView {
            cells: cells_placed(self.cells, p, self.pieces.len() as usize),
            pieces: self.pieces.push(p),
            active: Some(self.pieces.len() as usize),
            ..self
        }
    }

    /// Result and state of adding `p` as a new active piece: refused (and
    /// nothing changes) unless it is placeable.
    pub open spec fn added(self, p: PieceView) -> (bool, GameView) {
        if self.placeable(p) {
            (true, self.with_piece(p))
        } else {
            (false, self)
        }
    }

    /// Row `row` cleared in the table and in every piece.
    pub open spec fn row_cleared(self, row: int) -> GameView {
        GameView {
            cells: cells_cleared(self.cells, row),
            pieces: self.pieces.map_values(|p: PieceView| p.row_cleared(row)),
            ..self
        }
    }

    /// One scan for a full row from the bottom up, clearing the first one
    /// found. Nothing is cleared while a piece is falling.
    pub open spec fn cleared_once(self) -> (Option<int>, GameView) {
        if self.active is Some {
            (None, self)
        } else {
            match lowest_full_row(self.cells, HEIGHT - 1) {
                None => (None, self),
                Some(row) => (Some(row), self.row_cleared(row)),
            }
        }
    }

    /// Clearing repeated until no row is full, at most `rounds` times: the
    /// rows cleared, in order, and the resulting state.
    pub open spec fn cleared_all(self, rounds: nat) -> (Seq<int>, GameView)
        decreases rounds,
    {
        if rounds == 0 {
            (Seq::empty(), self)
        } else {
            match self.cleared_once() {
                (None, _) => (Seq::empty(), self),
                (Some(row), next) => {
                    let (rows, last) = next.cleared_all((rounds - 1) as nat);
                    (seq![row] + rows, last)
                },
            }
        }
    }

    /// The state after clearing the rows `rows` in one batch: the award is
    /// added to the score (which stays at its maximum once it reaches it),
    /// and the rows are highlighted if there are any.
    pub open spec fn scored(self, rows: Seq<int>) -> GameView {
        let total = self.score + award(rows.len() as int, self.level);
        GameView {
            score: if total > u64::MAX { u64::MAX as int } else { total },
            clear_ticks: if rows.len() > 0 { CLEAR_ANIMATION_FRAMES as int } else { self.clear_ticks },
            cleared_rows: if rows.len() > 0 { rows } else { self.cleared_rows },
            ..self
        }
    }

    /// The front of the queue becomes the active piece, if its cells are free,
    /// and a new piece drawn from the bags with the random numbers `roll_type`
    /// and `roll_color` joins the back of the queue. Otherwise nothing changes.
    pub open spec fn spawned(self, roll_type: usize, roll_color: usize) -> GameView {
        let front = self.next_pieces[0];
        if self.placeable(front) {
            let (t, piece_bag) = self.piece_bag.draw(roll_type as int);
            let (c, color_bag) = self.color_bag.draw(roll_color as int);
            GameView {
                next_pieces: self.next_pieces.drop_first().push(spawn_piece(t, c)),
                piece_bag,
                color_bag,
                ..self.with_piece(front)
            }
        } else {
            self
        }
    }

    /// One gravity step: the active piece moves down (or lands); with no
    /// active piece, full rows are cleared and scored and the next piece spawns.
    pub open spec fn ticked(self, roll_type: usize, roll_color: usize) -> GameView {
        if self.active is Some {
            self.shifted(0, 1)
        } else {
            let (rows, cleared) = self.cleared_all(clear_rounds());
            cleared.scored(rows).spawned(roll_type, roll_color)
        }
    }
}

} // verus!
