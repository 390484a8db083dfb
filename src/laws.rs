use vstd::prelude::*;

use crate::bag::BagView;
use crate::model::{
    all_colors, all_piece_types, award, cell_index, cells_cleared, covers, distinct_cells, in_bounds, in_play,
    clear_rounds, initial, legal_cell, lowest_full_row, num_cells, on_board, on_grid, part_cell, rise_respected, row_full,
    spawn_piece, GameView, HEIGHT, NEXT_QUEUE_LEN, TOP_ROW, WIDTH,
};
use crate::part::PartView;
use crate::piece::{lemma_rise_step, rise, PieceView};

verus! {

/// Relocating the active piece onto cells that fit it keeps the state well formed.
proof fn lemma_relocated_wf(g: GameView, id: usize, cand: PieceView)
    requires
        g.wf(),
        g.active == Some(id),
        cand.wf(),
        in_play(cand),
        rise_respected(cand),
        distinct_cells(cand),
        g.fits(id, cand),
    ensures
        g.relocated(id, cand).wf(),
{
    let p = g.pieces[id as int];
    let h = g.relocated(id, cand);
    assert forall|id2: int, i: int|
        0 <= id2 < h.pieces.len() && 0 <= i < 4 && (#[trigger] h.pieces[id2].parts[i]).visible implies h.cells[part_cell(
        h.pieces[id2],
        i,
    )] == Some(id2 as usize) by {
        let c = part_cell(h.pieces[id2], i);
        if id2 == id as int {
            assert(0 <= i < 4 && part_cell(cand, i) == c);
            assert(covers(cand, c));
            assert(on_grid(cand.parts[i].x, cand.parts[i].y));
        } else {
            assert(g.pieces[id2].parts[i] == h.pieces[id2].parts[i]);
            assert(on_grid(g.pieces[id2].parts[i].x, g.pieces[id2].parts[i].y));
            assert(g.cells[c] == Some(id2 as usize));
            if covers(cand, c) {
                let j = choose|j: int| 0 <= j < 4 && part_cell(cand, j) == c;
                assert(on_grid(cand.parts[j].x, cand.parts[j].y));
            }
            if covers(p, c) {
                let j = choose|j: int| 0 <= j < 4 && part_cell(p, j) == c;
                assert(p.parts[j].visible);
            }
        }
    }
    assert forall|c: int| 0 <= c < num_cells() && (#[trigger] h.cells[c]) is Some implies {
        let o = h.cells[c]->0 as int;
        &&& o < h.pieces.len()
        &&& exists|i: int|
            0 <= i < 4 && (#[trigger] h.pieces[o].parts[i]).visible && part_cell(h.pieces[o], i) == c
    } by {
        let o = h.cells[c]->0 as int;
        if covers(cand, c) {
            let j = choose|j: int| 0 <= j < 4 && part_cell(cand, j) == c;
            assert(cand.parts[j].visible);
            assert(h.pieces[o].parts[j].visible && part_cell(h.pieces[o], j) == c);
        } else {
            assert(g.cells[c] == h.cells[c]);
            let i = choose|i: int|
                0 <= i < 4 && (#[trigger] g.pieces[o].parts[i]).visible && part_cell(g.pieces[o], i) == c;
            if o == id as int {
                assert(covers(p, c));
            }
            assert(h.pieces[o] == g.pieces[o]);
            assert(h.pieces[o].parts[i].visible && part_cell(h.pieces[o], i) == c);
        }
    }
    assert forall|id2: int, i: int, j: int|
        0 <= id2 < h.pieces.len() && 0 <= i < 4 && 0 <= j < 4 && i != j && (
        #[trigger] h.pieces[id2].parts[i]).visible && (#[trigger] h.pieces[id2].parts[j]).visible implies part_cell(
        h.pieces[id2],
        i,
    ) != part_cell(h.pieces[id2], j) by {
        if id2 == id as int {
            assert(part_cell(cand, i) != part_cell(cand, j));
        }
    }
    assert forall|id2: int, i: int| 0 <= id2 < h.pieces.len() && 0 <= i < 4 implies on_grid(
        (#[trigger] h.pieces[id2].parts[i]).x,
        h.pieces[id2].parts[i].y,
    ) by {
        if id2 == id as int {
            assert(cand.parts[i].visible);
        } else {
            assert(h.pieces[id2] == g.pieces[id2]);
            assert(on_grid(g.pieces[id2].parts[i].x, g.pieces[id2].parts[i].y));
        }
    }
    assert forall|id2: int| 0 <= id2 < h.pieces.len() implies (#[trigger] h.pieces[id2]).wf() by {}
}

/// Putting down a placeable piece keeps the state well formed.
pub proof fn lemma_with_piece_wf(g: GameView, p: PieceView)
    requires
        g.wf(),
        g.placeable(p),
        g.pieces.len() < usize::MAX,
    ensures
        g.with_piece(p).wf(),
{
    let h = g.with_piece(p);
    let n = g.pieces.len() as int;
    assert forall|id2: int, i: int|
        0 <= id2 < h.pieces.len() && 0 <= i < 4 && (#[trigger] h.pieces[id2].parts[i]).visible implies h.cells[part_cell(
        h.pieces[id2],
        i,
    )] == Some(id2 as usize) by {
        let c = part_cell(h.pieces[id2], i);
        if id2 == n {
            assert(0 <= i < 4 && part_cell(p, i) == c);
            assert(in_bounds(p.parts[i].x, p.parts[i].y));
        } else {
            assert(g.pieces[id2].parts[i] == h.pieces[id2].parts[i]);
            assert(on_grid(g.pieces[id2].parts[i].x, g.pieces[id2].parts[i].y));
            assert(g.cells[c] == Some(id2 as usize));
            if covers(p, c) {
                let j = choose|j: int| 0 <= j < 4 && part_cell(p, j) == c;
                assert(g.cells[part_cell(p, j)] is None);
            }
        }
    }
    assert forall|c: int| 0 <= c < num_cells() && (#[trigger] h.cells[c]) is Some implies {
        let o = h.cells[c]->0 as int;
        &&& o < h.pieces.len()
        &&& exists|i: int|
            0 <= i < 4 && (#[trigger] h.pieces[o].parts[i]).visible && part_cell(h.pieces[o], i) == c
    } by {
        let o = h.cells[c]->0 as int;
        if covers(p, c) {
            let j = choose|j: int| 0 <= j < 4 && part_cell(p, j) == c;
            assert(p.parts[j].visible);
            assert(h.pieces[o].parts[j].visible && part_cell(h.pieces[o], j) == c);
        } else {
            assert(g.cells[c] == h.cells[c]);
            let i = choose|i: int|
                0 <= i < 4 && (#[trigger] g.pieces[o].parts[i]).visible && part_cell(g.pieces[o], i) == c;
            assert(h.pieces[o] == g.pieces[o]);
            assert(h.pieces[o].parts[i].visible && part_cell(h.pieces[o], i) == c);
        }
    }
    assert forall|id2: int, i: int, j: int|
        0 <= id2 < h.pieces.len() && 0 <= i < 4 && 0 <= j < 4 && i != j && (
        #[trigger] h.pieces[id2].parts[i]).visible && (#[trigger] h.pieces[id2].parts[j]).visible implies part_cell(
        h.pieces[id2],
        i,
    ) != part_cell(h.pieces[id2], j) by {
        if id2 == n {
            assert(part_cell(p, i) != part_cell(p, j));
        }
    }
    assert forall|id2: int, i: int| 0 <= id2 < h.pieces.len() && 0 <= i < 4 implies on_grid(
        (#[trigger] h.pieces[id2].parts[i]).x,
        h.pieces[id2].parts[i].y,
    ) by {
        if id2 == n {
            assert(p.parts[i].visible);
        } else {
            assert(h.pieces[id2] == g.pieces[id2]);
            assert(on_grid(g.pieces[id2].parts[i].x, g.pieces[id2].parts[i].y));
        }
    }
    assert forall|id2: int| 0 <= id2 < h.pieces.len() implies (#[trigger] h.pieces[id2]).wf() by {}
}

/// Clearing a row while no piece is falling keeps the state well formed.
proof fn lemma_row_cleared_wf(g: GameView, row: int)
    requires
        g.wf(),
        g.active is None,
        0 <= row < HEIGHT,
    ensures
        g.row_cleared(row).wf(),
{
    let h = g.row_cleared(row);
    assert forall|id: int, i: int|
        0 <= id < h.pieces.len() && 0 <= i < 4 && (#[trigger] h.pieces[id].parts[i]).visible implies h.cells[part_cell(
        h.pieces[id],
        i,
    )] == Some(id as usize) by {
        let q = g.pieces[id].parts[i];
        assert(on_grid(q.x, q.y));
        assert(g.cells[part_cell(g.pieces[id], i)] == Some(id as usize));
        if TOP_ROW <= q.y < row {
            assert(part_cell(h.pieces[id], i) == part_cell(g.pieces[id], i) + WIDTH);
        }
    }
    assert forall|c: int| 0 <= c < num_cells() && (#[trigger] h.cells[c]) is Some implies {
        let o = h.cells[c]->0 as int;
        &&& o < h.pieces.len()
        &&& exists|i: int|
            0 <= i < 4 && (#[trigger] h.pieces[o].parts[i]).visible && part_cell(h.pieces[o], i) == c
    } by {
        let o = h.cells[c]->0 as int;
        if c >= cell_index(0, row + 1) {
            let i = choose|i: int|
                0 <= i < 4 && (#[trigger] g.pieces[o].parts[i]).visible && part_cell(g.pieces[o], i) == c;
            let q = g.pieces[o].parts[i];
            assert(on_grid(q.x, q.y));
            assert(q.y > row);
            assert(h.pieces[o].parts[i].visible && part_cell(h.pieces[o], i) == c);
        } else {
            assert(c >= cell_index(0, TOP_ROW + 1));
            let c0 = c - WIDTH;
            assert(g.cells[c0] is Some);
            let i = choose|i: int|
                0 <= i < 4 && (#[trigger] g.pieces[o].parts[i]).visible && part_cell(g.pieces[o], i) == c0;
            let q = g.pieces[o].parts[i];
            assert(on_grid(q.x, q.y));
            assert(TOP_ROW <= q.y < row);
            assert(h.pieces[o].parts[i].visible && part_cell(h.pieces[o], i) == c);
        }
    }
    assert forall|id: int, i: int, j: int|
        0 <= id < h.pieces.len() && 0 <= i < 4 && 0 <= j < 4 && i != j && (
        #[trigger] h.pieces[id].parts[i]).visible && (#[trigger] h.pieces[id].parts[j]).visible implies part_cell(
        h.pieces[id],
        i,
    ) != part_cell(h.pieces[id], j) by {
        let qi = g.pieces[id].parts[i];
        let qj = g.pieces[id].parts[j];
        assert(on_grid(qi.x, qi.y));
        assert(on_grid(qj.x, qj.y));
        assert(part_cell(g.pieces[id], i) != part_cell(g.pieces[id], j));
    }
    assert forall|id: int, i: int| 0 <= id < h.pieces.len() && 0 <= i < 4 implies on_grid(
        (#[trigger] h.pieces[id].parts[i]).x,
        h.pieces[id].parts[i].y,
    ) by {
        let q = g.pieces[id].parts[i];
        assert(on_grid(q.x, q.y));
    }
    assert forall|id: int| 0 <= id < h.pieces.len() implies (#[trigger] h.pieces[id]).wf() by {
        assert(g.pieces[id].wf());
    }
}

/// A piece with a hidden or off-board part is not on the board.
pub(crate) proof fn lemma_not_on_board(p: PieceView, k: int)
    requires
        0 <= k < 4,
        !(p.parts[k].visible && in_bounds(p.parts[k].x, p.parts[k].y)),
    ensures
        !on_board(p),
{
}

/// A move by one cell sideways or down keeps the state well formed.
pub proof fn lemma_shifted_wf(g: GameView, dx: int, dy: int)
    requires
        g.wf(),
        -1 <= dx <= 1,
        0 <= dy <= 1,
    ensures
        g.shifted(dx, dy).wf(),
{
    if let Some(id) = g.active {
        let p = g.pieces[id as int];
        let cand = p.moved_by(dx, dy);
        if g.fits(id, cand) {
            assert forall|i: int| 0 <= i < 4 implies #[trigger] cand.parts[i].visible && on_grid(
                cand.parts[i].x,
                cand.parts[i].y,
            ) by {
                assert(p.parts[i].visible);
                assert(on_grid(p.parts[i].x, p.parts[i].y));
            }
            assert forall|i: int| 0 <= i < 4 implies #[trigger] cand.parts[i].y >= rise(
                cand.piece_type,
                cand.rotation,
                i,
            ) by {
                assert(p.parts[i].y >= rise(p.piece_type, p.rotation, i));
            }
            assert forall|i: int, j: int| 0 <= i < 4 && 0 <= j < 4 && i != j implies #[trigger] part_cell(
                cand,
                i,
            ) != #[trigger] part_cell(cand, j) by {
                assert(p.parts[i].visible && p.parts[j].visible);
                assert(part_cell(p, i) != part_cell(p, j));
            }
            lemma_relocated_wf(g, id, cand);
        }
    }
}

/// A rotation keeps the state well formed.
pub proof fn lemma_turned_wf(g: GameView)
    requires
        g.wf(),
    ensures
        g.turned().wf(),
{
    if let Some(id) = g.active {
        let p = g.pieces[id as int];
        let cand = p.rotated();
        if g.fits(id, cand) && distinct_cells(cand) {
            assert forall|i: int| 0 <= i < 4 implies #[trigger] cand.parts[i].visible && on_grid(
                cand.parts[i].x,
                cand.parts[i].y,
            ) by {
                assert(p.parts[i].visible);
                assert(p.parts[i].y >= rise(p.piece_type, p.rotation, i));
                lemma_rise_step(p.piece_type, p.rotation, i);
                lemma_rise_step(cand.piece_type, cand.rotation, i);
            }
            assert forall|i: int| 0 <= i < 4 implies #[trigger] cand.parts[i].y >= rise(
                cand.piece_type,
                cand.rotation,
                i,
            ) by {
                assert(p.parts[i].y >= rise(p.piece_type, p.rotation, i));
                lemma_rise_step(p.piece_type, p.rotation, i);
            }
            lemma_relocated_wf(g, id, cand);
        }
    }
}

/// One clearing scan keeps the state well formed.
pub proof fn lemma_cleared_once_wf(g: GameView)
    requires
        g.wf(),
    ensures
        g.cleared_once().1.wf(),
        g.cleared_once().1.active == g.active,
        g.cleared_once().1.pieces.len() == g.pieces.len(),
        g.cleared_once().0 matches Some(row) ==> 0 <= row < HEIGHT,
{
    if g.active is None {
        lemma_lowest_full_row_range(g.cells, HEIGHT - 1);
        if let Some(row) = lowest_full_row(g.cells, HEIGHT - 1) {
            lemma_row_cleared_wf(g, row);
        }
    }
}

proof fn lemma_lowest_full_row_range(cells: Seq<Option<usize>>, y: int)
    ensures
        lowest_full_row(cells, y) matches Some(row) ==> 0 <= row <= y && row_full(cells, row),
        lowest_full_row(cells, y) is None ==> forall|r: int| 0 <= r <= y ==> !row_full(cells, r),
    decreases y + 1,
{
    if y >= 0 {
        lemma_lowest_full_row_range(cells, y - 1);
    }
}

/// Repeated clearing keeps the state well formed.
pub proof fn lemma_cleared_all_wf(g: GameView, rounds: nat)
    requires
        g.wf(),
    ensures
        g.cleared_all(rounds).1.wf(),
        g.cleared_all(rounds).1.active == g.active,
        g.cleared_all(rounds).1.pieces.len() == g.pieces.len(),
        g.cleared_all(rounds).0.len() <= rounds,
    decreases rounds,
{
    if rounds > 0 {
        lemma_cleared_once_wf(g);
        if let (Some(row), next) = g.cleared_once() {
            lemma_cleared_all_wf(next, (rounds - 1) as nat);
        }
    }
}

proof fn lemma_draw_wf<T>(b: BagView<T>, roll: int)
    requires
        b.wf(),
        roll >= 0,
    ensures
        b.draw(roll).1.wf(),
        b.draw(roll).1.full == b.full,
{
}

/// A tick keeps the state well formed.
pub proof fn lemma_ticked_wf(g: GameView, roll_type: usize, roll_color: usize)
    requires
        g.wf(),
        g.pieces.len() < usize::MAX,
    ensures
        g.ticked(roll_type, roll_color).wf(),
{
    if g.active is Some {
        lemma_shifted_wf(g, 0, 1);
    } else {
        let (rows, cleared) = g.cleared_all(clear_rounds());
        lemma_cleared_all_wf(g, clear_rounds());
        let s = cleared.scored(rows);
        assert(s.wf());
        let front = s.next_pieces[0];
        if s.placeable(front) {
            lemma_with_piece_wf(s, front);
            lemma_draw_wf(s.piece_bag, roll_type as int);
            lemma_draw_wf(s.color_bag, roll_color as int);
            let h = s.spawned(roll_type, roll_color);
            assert forall|k: int| 0 <= k < NEXT_QUEUE_LEN implies #[trigger] h.next_pieces[k] == spawn_piece(
                h.next_pieces[k].piece_type,
                h.next_pieces[k].color,
            ) by {
                if k + 1 < NEXT_QUEUE_LEN {
                    assert(h.next_pieces[k] == s.next_pieces[k + 1]);
                }
            }
        }
    }
}

/// The occupied cells of the table.
pub open spec fn occupied_cells(g: GameView) -> Set<int> {
    Set::new(|c: int| 0 <= c < num_cells() && g.cells[c] is Some)
}

/// The visible parts of all pieces, as pairs of piece identifier and part index.
pub open spec fn visible_parts(g: GameView) -> Set<(int, int)> {
    Set::new(
        |q: (int, int)| 0 <= q.0 < g.pieces.len() && 0 <= q.1 < 4 && g.pieces[q.0].parts[q.1].visible,
    )
}

spec fn part_slots(n: int) -> Set<(int, int)> {
    Set::new(|q: (int, int)| 0 <= q.0 < n && 0 <= q.1 < 4)
}

proof fn lemma_part_slots_finite(n: int)
    requires
        n >= 0,
    ensures
        part_slots(n).finite(),
    decreases n,
{
    if n > 0 {
        lemma_part_slots_finite(n - 1);
        let extra = set![(n - 1, 0int), (n - 1, 1int), (n - 1, 2int), (n - 1, 3int)];
        assert(part_slots(n) =~= part_slots(n - 1).union(extra));
    } else {
        assert(part_slots(n) =~= Set::<(int, int)>::empty());
    }
}

/// In a well-formed state every visible part owns the cell it stands on, and
/// there are exactly as many occupied cells as visible parts.
pub proof fn lemma_occupancy_consistent(g: GameView)
    requires
        g.wf(),
    ensures
        forall|id: int, i: int|
            0 <= id < g.pieces.len() && 0 <= i < 4 && (#[trigger] g.pieces[id].parts[i]).visible ==> g.cells[cell_index(
                g.pieces[id].parts[i].x,
                g.pieces[id].parts[i].y,
            )] == Some(id as usize),
        occupied_cells(g).len() == visible_parts(g).len(),
{
    let vis = visible_parts(g);
    let occ = occupied_cells(g);
    let f = |q: (int, int)| part_cell(g.pieces[q.0], q.1);
    lemma_part_slots_finite(g.pieces.len() as int);
    assert(vis.subset_of(part_slots(g.pieces.len() as int)));
    vstd::set_lib::lemma_set_subset_finite(part_slots(g.pieces.len() as int), vis);
    assert forall|a: (int, int), b: (int, int)| vis.contains(a) && vis.contains(b) && #[trigger] f(a) == #[trigger] f(
        b,
    ) implies a == b by {
        let ca = part_cell(g.pieces[a.0], a.1);
        assert(g.cells[ca] == Some(a.0 as usize));
        assert(g.cells[ca] == Some(b.0 as usize));
        if a.0 == b.0 && a.1 != b.1 {
            assert(g.pieces[a.0].parts[a.1].visible && g.pieces[a.0].parts[b.1].visible);
        }
    }
    assert(vstd::relations::injective_on(f, vis));
    assert forall|c: int| occ.contains(c) <==> #[trigger] vis.map(f).contains(c) by {
        if occ.contains(c) {
            let id = g.cells[c]->0 as int;
            assert(g.cells[c] is Some);
            let i = choose|i: int|
                0 <= i < 4 && (#[trigger] g.pieces[id].parts[i]).visible && part_cell(g.pieces[id], i) == c;
            assert(vis.contains((id, i)));
            assert(f((id, i)) == c);
        }
        if vis.map(f).contains(c) {
            let q = choose|q: (int, int)| vis.contains(q) && f(q) == c;
            assert(g.pieces[q.0].parts[q.1].visible);
            assert(on_grid(g.pieces[q.0].parts[q.1].x, g.pieces[q.0].parts[q.1].y));
        }
    }
    assert(vis.map(f) =~= occ);
    vstd::set_lib::lemma_map_size(vis, occ, f);
}

proof fn lemma_lowest_full_row_is(cells: Seq<Option<usize>>, y: int, row: int)
    requires
        0 <= row <= y,
        row_full(cells, row),
        forall|r: int| row < r <= y ==> !row_full(cells, r),
    ensures
        lowest_full_row(cells, y) == Some(row),
    decreases y - row,
{
    if y > row {
        lemma_lowest_full_row_is(cells, y - 1, row);
    }
}

/// With no piece falling and exactly one full row `row`, a clearing scan
/// returns `row`; every part that was visible in it becomes invisible, every
/// part above it (up to the row above the board) moves one row down, the
/// occupancy of each row above moves one row down with it, the row above the
/// board is left empty, the rows below are untouched, and the state stays
/// well formed.
pub proof fn lemma_row_clear(g: GameView, row: int)
    requires
        g.wf(),
        g.active is None,
        0 <= row < HEIGHT,
        row_full(g.cells, row),
        forall|y: int| 0 <= y < HEIGHT && y != row ==> !row_full(g.cells, y),
    ensures
        g.cleared_once().0 == Some(row),
        g.cleared_once().1.wf(),
        g.cleared_once().1.pieces.len() == g.pieces.len(),
        forall|id: int, i: int|
            0 <= id < g.pieces.len() && 0 <= i < 4 && (#[trigger] g.pieces[id].parts[i]).visible
                && g.pieces[id].parts[i].y == row ==> g.cleared_once().1.pieces[id].parts[i] == (PartView {
                visible: false,
                ..g.pieces[id].parts[i]
            }),
        forall|id: int, i: int|
            0 <= id < g.pieces.len() && 0 <= i < 4 && TOP_ROW <= (#[trigger] g.pieces[id].parts[i]).y < row
                ==> g.cleared_once().1.pieces[id].parts[i] == (PartView {
                y: g.pieces[id].parts[i].y + 1,
                ..g.pieces[id].parts[i]
            }),
        forall|x: int, y: int|
            0 <= x < WIDTH && TOP_ROW <= y < row ==> g.cleared_once().1.cells[cell_index(x, y + 1)]
                == #[trigger] g.cells[cell_index(x, y)],
        forall|x: int, y: int|
            0 <= x < WIDTH && row < y < HEIGHT ==> g.cleared_once().1.cells[cell_index(x, y)]
                == #[trigger] g.cells[cell_index(x, y)],
        forall|x: int|
            0 <= x < WIDTH ==> (#[trigger] g.cleared_once().1.cells[cell_index(x, TOP_ROW as int)] is None),
{
    lemma_lowest_full_row_is(g.cells, HEIGHT - 1, row);
    lemma_cleared_once_wf(g);
}

/// Every part of every piece of a well-formed state lies inside the columns
/// and above the floor (at worst one row above the board).
pub proof fn lemma_parts_in_bounds(g: GameView)
    requires
        g.wf(),
    ensures
        forall|id: int, i: int|
            0 <= id < g.pieces.len() && 0 <= i < 4 ==> 0 <= (#[trigger] g.pieces[id].parts[i]).x < WIDTH && TOP_ROW
                <= g.pieces[id].parts[i].y < HEIGHT,
{
    assert forall|id: int, i: int| 0 <= id < g.pieces.len() && 0 <= i < 4 implies 0 <= (
    #[trigger] g.pieces[id].parts[i]).x < WIDTH && TOP_ROW <= g.pieces[id].parts[i].y < HEIGHT by {
        assert(on_grid(g.pieces[id].parts[i].x, g.pieces[id].parts[i].y));
    }
}

/// The cell below part `i` of piece `id` is off the board or owned by
/// another piece.
pub open spec fn blocked_below(g: GameView, id: usize, i: int) -> bool {
    let q = g.pieces[id as int].parts[i];
    !legal_cell(q.x, q.y + 1) || (g.cells[cell_index(q.x, q.y + 1)] is Some && g.cells[cell_index(q.x, q.y + 1)]
        != Some(id))
}

/// A downward move lands the active piece (it stops being active and stays
/// where it is) exactly when the cell below one of its parts is off the
/// board or owned by another piece; otherwise the piece moves one row down
/// and stays active.
pub proof fn lemma_landing(g: GameView)
    requires
        g.wf(),
        g.active is Some,
    ensures
        ({
            let id = g.active->0;
            let h = g.shifted(0, 1);
            if exists|i: int| 0 <= i < 4 && #[trigger] blocked_below(g, id, i) {
                &&& h.active is None
                &&& h.pieces == g.pieces
            } else {
                &&& h.active == Some(id)
                &&& h.pieces == g.pieces.update(id as int, g.pieces[id as int].moved_by(0, 1))
            }
        }),
{
    let id = g.active->0;
    let cand = g.pieces[id as int].moved_by(0, 1);
    if exists|i: int| 0 <= i < 4 && #[trigger] blocked_below(g, id, i) {
        let i = choose|i: int| 0 <= i < 4 && #[trigger] blocked_below(g, id, i);
        assert(cand.parts[i].y == g.pieces[id as int].parts[i].y + 1);
        assert(cand.parts[i].x == g.pieces[id as int].parts[i].x);
        assert(part_cell(cand, i) == cell_index(g.pieces[id as int].parts[i].x, g.pieces[id as int].parts[i].y + 1));
        assert(!g.fits(id, cand));
    } else {
        assert forall|i: int| 0 <= i < 4 implies legal_cell(#[trigger] cand.parts[i].x, cand.parts[i].y) && (
        g.cells[part_cell(cand, i)] is None || g.cells[part_cell(cand, i)] == Some(id)) by {
            assert(!blocked_below(g, id, i));
        }
    }
}

/// With no piece falling, a tick adds to the score exactly the award for the
/// number of rows its clearing batch removes: 100, 300, 500 or 800 times the
/// level for one to four rows, nothing otherwise (the score stops at its
/// maximum).
pub proof fn lemma_tick_score(g: GameView, roll_type: usize, roll_color: usize)
    requires
        g.wf(),
        g.active is None,
    ensures
        ({
            let n = g.cleared_all(clear_rounds()).0.len() as int;
            let total = g.score + award(n, g.level);
            &&& g.ticked(roll_type, roll_color).score == if total > u64::MAX {
                u64::MAX as int
            } else {
                total
            }
            &&& award(n, g.level) == if n == 1 {
                100 * g.level
            } else if n == 2 {
                300 * g.level
            } else if n == 3 {
                500 * g.level
            } else if n == 4 {
                800 * g.level
            } else {
                0
            }
        }),
{
    lemma_cleared_all_wf(g, clear_rounds());
    lemma_cleared_all_keeps_score(g, clear_rounds());
}

proof fn lemma_cleared_all_keeps_score(g: GameView, rounds: nat)
    ensures
        g.cleared_all(rounds).1.score == g.score,
        g.cleared_all(rounds).1.level == g.level,
    decreases rounds,
{
    if rounds > 0 {
        if let (Some(row), next) = g.cleared_once() {
            lemma_cleared_all_keeps_score(next, (rounds - 1) as nat);
        }
    }
}

/// The full rows of a table.
pub open spec fn full_rows(cells: Seq<Option<usize>>) -> Set<int> {
    Set::new(|y: int| 0 <= y < HEIGHT && row_full(cells, y))
}

proof fn lemma_full_rows_finite(cells: Seq<Option<usize>>)
    ensures
        full_rows(cells).finite(),
        full_rows(cells).len() <= HEIGHT,
{
    vstd::set_lib::lemma_int_range(0, HEIGHT as int);
    assert(full_rows(cells).subset_of(vstd::set_lib::set_int_range(0, HEIGHT as int)));
    vstd::set_lib::lemma_len_subset(full_rows(cells), vstd::set_lib::set_int_range(0, HEIGHT as int));
}

/// Full rows that a clearing batch may still have to remove: the full board
/// rows, plus one if the row above the board is full (a clear moves it into
/// row 0).
pub open spec fn pending_clears(cells: Seq<Option<usize>>) -> int {
    full_rows(cells).len() + if row_full(cells, TOP_ROW as int) {
        1int
    } else {
        0int
    }
}

/// Clearing a full row leaves one pending clear fewer.
proof fn lemma_clear_removes_one_full_row(cells: Seq<Option<usize>>, row: int)
    requires
        cells.len() == num_cells(),
        0 <= row < HEIGHT,
        row_full(cells, row),
    ensures
        pending_clears(cells_cleared(cells, row)) + 1 == pending_clears(cells),
{
    let c2 = cells_cleared(cells, row);
    let before = full_rows(cells);
    let after = full_rows(c2);
    let m = |y: int| if y > row { y } else { y + 1 };
    lemma_full_rows_finite(cells);
    lemma_full_rows_finite(c2);
    let rest = before.remove(row);
    let top_full = row_full(cells, TOP_ROW as int);
    assert forall|y: int| after.contains(y) <==> #[trigger] rest.map(m).contains(y) || (y == 0 && top_full) by {
        if y > row && 0 <= y < HEIGHT {
            assert forall|x: int| 0 <= x < WIDTH implies #[trigger] c2[cell_index(x, y)] == cells[cell_index(x, y)] by {}
            if row_full(c2, y) {
                assert forall|x: int| 0 <= x < WIDTH implies #[trigger] cells[cell_index(x, y)] is Some by {
                    assert(c2[cell_index(x, y)] is Some);
                }
                assert(rest.contains(y) && m(y) == y);
            }
            if rest.map(m).contains(y) {
                let z = choose|z: int| rest.contains(z) && m(z) == y;
                assert forall|x: int| 0 <= x < WIDTH implies #[trigger] c2[cell_index(x, y)] is Some by {
                    assert(cells[cell_index(x, y)] is Some);
                }
            }
        } else if 1 <= y <= row {
            assert forall|x: int| 0 <= x < WIDTH implies #[trigger] c2[cell_index(x, y)] == cells[cell_index(
                x,
                y - 1,
            )] by {}
            if row_full(c2, y) {
                assert forall|x: int| 0 <= x < WIDTH implies #[trigger] cells[cell_index(x, y - 1)] is Some by {
                    assert(c2[cell_index(x, y)] is Some);
                }
                assert(rest.contains(y - 1) && m(y - 1) == y);
            }
            if rest.map(m).contains(y) {
                let z = choose|z: int| rest.contains(z) && m(z) == y;
                assert(z == y - 1);
                assert forall|x: int| 0 <= x < WIDTH implies #[trigger] c2[cell_index(x, y)] is Some by {
                    assert(cells[cell_index(x, y - 1)] is Some);
                }
            }
        } else if y == 0 {
            assert forall|x: int| 0 <= x < WIDTH implies #[trigger] c2[cell_index(x, 0)] == cells[cell_index(
                x,
                TOP_ROW as int,
            )] by {}
            if row_full(c2, 0) {
                assert forall|x: int| 0 <= x < WIDTH implies #[trigger] cells[cell_index(x, TOP_ROW as int)] is Some by {
                    assert(c2[cell_index(x, 0)] is Some);
                }
            }
            if top_full {
                assert forall|x: int| 0 <= x < WIDTH implies #[trigger] c2[cell_index(x, 0)] is Some by {
                    assert(cells[cell_index(x, TOP_ROW as int)] is Some);
                }
            }
            if rest.map(m).contains(y) {
                let z = choose|z: int| rest.contains(z) && m(z) == y;
            }
        } else {
            if rest.map(m).contains(y) {
                let z = choose|z: int| rest.contains(z) && m(z) == y;
            }
        }
    }
    assert(!row_full(c2, TOP_ROW as int)) by {
        assert(c2[cell_index(0, TOP_ROW as int)] is None);
    }
    assert(vstd::relations::injective_on(m, rest));
    let shifted = rest.map(m);
    rest.lemma_map_finite(m);
    vstd::set_lib::lemma_map_size(rest, shifted, m);
    assert(before.contains(row));
    if top_full {
        assert(!shifted.contains(0)) by {
            if shifted.contains(0) {
                let z = choose|z: int| rest.contains(z) && m(z) == 0;
            }
        }
        assert(after =~= shifted.insert(0));
    } else {
        assert(after =~= shifted);
    }
}

/// Once a tick's clearing batch is done, no row is full: the bound on the
/// number of rounds never cuts a batch short.
pub proof fn lemma_cleared_all_complete(g: GameView)
    requires
        g.wf(),
        g.active is None,
    ensures
        lowest_full_row(g.cleared_all(clear_rounds()).1.cells, HEIGHT - 1) is None,
        forall|y: int| 0 <= y < HEIGHT ==> !(#[trigger] row_full(g.cleared_all(clear_rounds()).1.cells, y)),
{
    lemma_full_rows_finite(g.cells);
    lemma_cleared_all_until_none(g, clear_rounds());
    lemma_lowest_full_row_range(g.cleared_all(clear_rounds()).1.cells, HEIGHT - 1);
}

proof fn lemma_cleared_all_until_none(g: GameView, rounds: nat)
    requires
        g.wf(),
        g.active is None,
        pending_clears(g.cells) <= rounds,
    ensures
        lowest_full_row(g.cleared_all(rounds).1.cells, HEIGHT - 1) is None,
    decreases rounds,
{
    lemma_full_rows_finite(g.cells);
    lemma_lowest_full_row_range(g.cells, HEIGHT - 1);
    if rounds == 0 {
        if let Some(row) = lowest_full_row(g.cells, HEIGHT - 1) {
            assert(full_rows(g.cells).contains(row));
        }
    } else {
        if let Some(row) = lowest_full_row(g.cells, HEIGHT - 1) {
            lemma_row_cleared_wf(g, row);
            lemma_clear_removes_one_full_row(g.cells, row);
            lemma_cleared_all_until_none(g.row_cleared(row), (rounds - 1) as nat);
        }
    }
}

/// A fresh engine is well formed.
pub proof fn lemma_initial_wf(level: int, rolls: Seq<(usize, usize)>)
    requires
        1 <= level <= u32::MAX,
        rolls.len() == NEXT_QUEUE_LEN,
    ensures
        initial(level, rolls).wf(),
{
    let g = initial(level, rolls);
    let types = rolls.map_values(|r: (usize, usize)| r.0);
    let colors = rolls.map_values(|r: (usize, usize)| r.1);
    let pb = BagView { pool: all_piece_types(), full: all_piece_types() };
    let cb = BagView { pool: all_colors(), full: all_colors() };
    crate::bag::lemma_draw_three(pb, types);
    crate::bag::lemma_draw_three(cb, colors);
    let (v0, p1) = pb.draw(types[0] as int);
    let (v1, p2) = p1.draw(types[1] as int);
    lemma_draw_wf(pb, types[0] as int);
    lemma_draw_wf(p1, types[1] as int);
    lemma_draw_wf(p2, types[2] as int);
    let (w0, c1) = cb.draw(colors[0] as int);
    let (w1, c2) = c1.draw(colors[1] as int);
    lemma_draw_wf(cb, colors[0] as int);
    lemma_draw_wf(c1, colors[1] as int);
    lemma_draw_wf(c2, colors[2] as int);
    assert forall|c: int| 0 <= c < num_cells() implies (#[trigger] g.cells[c]) is None by {}
}

/// With no piece falling and exactly one full row `row` (the row above the
/// board not full either), a tick clears that
/// row and no other: it scores 100 times the level (the score stops at its
/// maximum), highlights `row`, and leaves every existing piece as the single
/// clearing scan of `lemma_row_clear` describes; a spawned piece, if any, is
/// added after them.
pub proof fn lemma_tick_clears_one_row(g: GameView, row: int, roll_type: usize, roll_color: usize)
    requires
        g.wf(),
        g.active is None,
        0 <= row < HEIGHT,
        row_full(g.cells, row),
        forall|y: int| TOP_ROW <= y < HEIGHT && y != row ==> !row_full(g.cells, y),
    ensures
        g.cleared_all(clear_rounds()) == (seq![row], g.cleared_once().1),
        g.ticked(roll_type, roll_color).score == if g.score + 100 * g.level > u64::MAX {
            u64::MAX as int
        } else {
            g.score + 100 * g.level
        },
        g.ticked(roll_type, roll_color).cleared_rows == seq![row],
        g.ticked(roll_type, roll_color).pieces.len() >= g.pieces.len(),
        forall|id: int|
            0 <= id < g.pieces.len() ==> #[trigger] g.ticked(roll_type, roll_color).pieces[id]
                == g.cleared_once().1.pieces[id],
{
    lemma_row_clear(g, row);
    let next = g.cleared_once().1;
    lemma_full_rows_finite(g.cells);
    assert(full_rows(g.cells) =~= set![row]);
    lemma_clear_removes_one_full_row(g.cells, row);
    lemma_full_rows_finite(next.cells);
    assert forall|y: int| 0 <= y < HEIGHT implies !row_full(next.cells, y) by {
        if row_full(next.cells, y) {
            assert(full_rows(next.cells).contains(y));
        }
    }
    lemma_lowest_full_row_range(next.cells, HEIGHT - 1);
    assert(lowest_full_row(next.cells, HEIGHT - 1) is None);
    assert(next.cleared_all((clear_rounds() - 1) as nat) == (Seq::<int>::empty(), next));
    assert(seq![row] + Seq::<int>::empty() =~= seq![row]);
}

} // verus!
