use vstd::prelude::*;

use crate::part::{PartView, TetrisPart};

verus! {

/// The seven piece shapes.
#[derive(Clone, Copy, Debug, PartialEq, Eq, Structural)]
pub enum TetrisPieceType {
    Q,
    Z,
    S,
    T,
    I,
    L,
    J,
}

/// The four orientations, visited in the cycle R0, R1, R2, R3, R0, ...
#[derive(Clone, Copy, Debug, PartialEq, Eq, Structural)]
pub enum Rotation {
    R0,
    R1,
    R2,
    R3,
}

/// The seven display colours a piece can have.
#[derive(Clone, Copy, Debug, PartialEq, Eq, Structural)]
pub enum Color {
    Pink,
    Red,
    Yellow,
    Green,
    Orange,
    LightBlue,
    DarkBlue,
}

/// A piece as a mathematical value.
pub struct PieceView {
    pub parts: Seq<PartView>,
    pub color: Color,
    pub piece_type: TetrisPieceType,
    pub rotation: Rotation,
}

/// Four parts, a colour, a shape and an orientation. The order of the parts
/// matters: the rotation tables give one offset per part position.
#[derive(Clone, Copy, Debug, PartialEq, Eq)]
pub struct TetrisPiece {
    pub parts: [TetrisPart; 4],
    pub color: Color,
    pub piece_type: TetrisPieceType,
    pub rotation: Rotation,
}

impl View for TetrisPiece {
    type V = PieceView;

    open spec fn view(&self) -> PieceView {
        PieceView {
            parts: self.parts@.map_values(|p: TetrisPart| p@),
            color: self.color,
            piece_type: self.piece_type,
            rotation: self.rotation,
        }
    }
}

/// Offsets from `(start_x, 0)` of the four parts of a freshly spawned piece.
pub open spec fn spawn_offsets(t: TetrisPieceType) -> Seq<(int, int)> {
    match t {
        TetrisPieceType::Q => seq![(0, 0), (1, 0), (0, 1), (1, 1)],
        TetrisPieceType::Z => seq![(0, 0), (1, 0), (1, 1), (2, 1)],
        TetrisPieceType::S => seq![(1, 0), (2, 0), (0, 1), (1, 1)],
        TetrisPieceType::T => seq![(0, 1), (1, 1), (2, 1), (1, 0)],
        TetrisPieceType::I => seq![(0, 0), (1, 0), (2, 0), (3, 0)],
        TetrisPieceType::L => seq![(0, 1), (1, 1), (2, 1), (2, 0)],
        TetrisPieceType::J => seq![(0, 0), (0, 1), (1, 1), (2, 1)],
    }
}

/// The parts of a piece of type `t` spawned at column `start_x`.
pub open spec fn spawn_parts(t: TetrisPieceType, start_x: int) -> Seq<PartView> {
    Seq::new(
        4,
        |i: int| PartView { x: start_x + spawn_offsets(t)[i].0, y: spawn_offsets(t)[i].1, visible: true },
    )
}

pub open spec fn rotation_index(r: Rotation) -> int {
    match r {
        Rotation::R0 => 0,
        Rotation::R1 => 1,
        Rotation::R2 => 2,
        Rotation::R3 => 3,
    }
}

pub open spec fn next_rotation(r: Rotation) -> Rotation {
    match r {
        Rotation::R0 => Rotation::R1,
        Rotation::R1 => Rotation::R2,
        Rotation::R2 => Rotation::R3,
        Rotation::R3 => Rotation::R0,
    }
}

/// Rotation table of a shape: entry `4 * r + i` is the offset that part `i`
/// moves by when the piece turns from orientation `r` to the next one.
/// The square has no table: turning it changes nothing.
pub open spec fn rotation_table(t: TetrisPieceType) -> Seq<(int, int)> {
    match t {
        TetrisPieceType::Q => Seq::new(16, |i: int| (0, 0)),
        TetrisPieceType::Z => seq![
            (2, 0), (1, 1), (0, 0), (-1, 1),
            (0, 2), (-1, 1), (0, 0), (-1, -1),
            (-2, 0), (-1, -1), (0, 0), (1, -1),
            (0, -2), (1, -1), (0, 0), (1, 1),
        ],
        TetrisPieceType::S => seq![
            (1, 1), (0, 2), (1, -1), (0, 0),
            (-1, 1), (-2, 0), (1, 1), (0, 0),
            (-1, -1), (0, -2), (-1, 1), (0, 0),
            (1, -1), (2, 0), (-1, -1), (0, 0),
        ],
        TetrisPieceType::T => seq![
            (1, -1), (0, 0), (-1, 1), (1, 1),
            (1, 1), (0, 0), (-1, -1), (-1, 1),
            (-1, 1), (0, 0), (1, -1), (-1, -1),
            (-1, -1), (0, 0), (1, 1), (1, -1),
        ],
        TetrisPieceType::I => seq![
            (2, -1), (1, 0), (0, 1), (-1, 2),
            (1, 2), (0, 1), (-1, 0), (-2, -1),
            (-2, 1), (-1, 0), (0, -1), (1, -2),
            (-1, -2), (0, -1), (1, 0), (2, 1),
        ],
        TetrisPieceType::L => seq![
            (1, -1), (0, 0), (-1, 1), (0, 2),
            (1, 1), (0, 0), (-1, -1), (-2, 0),
            (-1, 1), (0, 0), (1, -1), (0, -2),
            (-1, -1), (0, 0), (1, 1), (2, 0),
        ],
        TetrisPieceType::J => seq![
            (2, 0), (1, -1), (0, 0), (-1, 1),
            (0, 2), (1, 1), (0, 0), (-1, -1),
            (-2, 0), (-1, 1), (0, 0), (1, -1),
            (0, -2), (-1, -1), (0, 0), (1, 1),
        ],
    }
}

pub open spec fn rotation_delta(t: TetrisPieceType, r: Rotation, i: int) -> (int, int) {
    rotation_table(t)[4 * rotation_index(r) + i]
}

impl PieceView {
    /// Exactly four parts.
    pub open spec fn wf(self) -> bool {
        self.parts.len() == 4
    }

    /// The piece turned once by its rotation table; a square is returned as it is.
    pub open spec fn rotated(self) -> PieceView {
        if self.piece_type == TetrisPieceType::Q {
            self
        } else {
            PieceView {
                parts: Seq::new(
                    self.parts.len(),
                    |i: int|
                        PartView {
                            x: self.parts[i].x + rotation_delta(self.piece_type, self.rotation, i).0,
                            y: self.parts[i].y + rotation_delta(self.piece_type, self.rotation, i).1,
                            visible: self.parts[i].visible,
                        },
                ),
                rotation: next_rotation(self.rotation),
                ..self
            }
        }
    }

    /// The piece moved by `(dx, dy)`.
    pub open spec fn moved_by(self, dx: int, dy: int) -> PieceView {
        PieceView {
            parts: self.parts.map_values(
                |p: PartView| PartView { x: p.x + dx, y: p.y + dy, visible: p.visible },
            ),
            ..self
        }
    }

    /// The piece with every part in row `row` made invisible.
    pub open spec fn row_hidden(self, row: int) -> PieceView {
        PieceView {
            parts: self.parts.map_values(
                |p: PartView| if p.y == row { PartView { visible: false, ..p } } else { p },
            ),
            ..self
        }
    }

    /// The piece with every part in row `row` moved `n` rows down.
    pub open spec fn row_lowered(self, row: int, n: int) -> PieceView {
        PieceView {
            parts: self.parts.map_values(
                |p: PartView| if p.y == row { PartView { y: p.y + n, ..p } } else { p },
            ),
            ..self
        }
    }
}

/// How far part `i` of a piece of type `t` has moved down (negative: up)
/// since the piece was at orientation R0, now that it is at orientation `r`.
pub open spec fn rise(t: TetrisPieceType, r: Rotation, i: int) -> int {
    match r {
        Rotation::R0 => 0,
        Rotation::R1 => rotation_delta(t, Rotation::R0, i).1,
        Rotation::R2 => rotation_delta(t, Rotation::R0, i).1 + rotation_delta(t, Rotation::R1, i).1,
        Rotation::R3 => rotation_delta(t, Rotation::R0, i).1 + rotation_delta(t, Rotation::R1, i).1
            + rotation_delta(t, Rotation::R2, i).1,
    }
}

/// A turn moves each part by the change of its rise, and no orientation
/// lifts a part more than one row above where it stood at R0.
pub proof fn lemma_rise_step(t: TetrisPieceType, r: Rotation, i: int)
    requires
        0 <= i < 4,
    ensures
        t != TetrisPieceType::Q ==> rise(t, next_rotation(r), i) == rise(t, r, i) + rotation_delta(t, r, i).1,
        t == TetrisPieceType::Q ==> rise(t, r, i) == 0,
        rise(t, r, i) >= -1,
{
}

/// Turning a piece four times brings every part back to where it was, and the
/// piece back to its orientation.
pub proof fn lemma_rotation_closure(p: PieceView)
    requires
        p.wf(),
    ensures
        p.rotated().rotated().rotated().rotated() == p,
{
    let q = p.rotated().rotated().rotated().rotated();
    if p.piece_type != TetrisPieceType::Q {
        assert forall|i: int| 0 <= i < 4 implies #[trigger] q.parts[i] == p.parts[i] by {
            let t = p.piece_type;
            let r0 = p.rotation;
            let r1 = next_rotation(r0);
            let r2 = next_rotation(r1);
            let r3 = next_rotation(r2);
            assert(rotation_delta(t, r0, i).0 + rotation_delta(t, r1, i).0 + rotation_delta(t, r2, i).0
                + rotation_delta(t, r3, i).0 == 0);
            assert(rotation_delta(t, r0, i).1 + rotation_delta(t, r1, i).1 + rotation_delta(t, r2, i).1
                + rotation_delta(t, r3, i).1 == 0);
        }
        assert(q.parts =~= p.parts);
    }
}

pub(crate) proof fn lemma_delta_range(t: TetrisPieceType, r: Rotation, i: int)
    requires
        0 <= i < 4,
    ensures
        -2 <= rotation_delta(t, r, i).0 <= 2,
        -2 <= rotation_delta(t, r, i).1 <= 2,
{
}

/// Exact offset of part `i` when a piece of type `t` turns from orientation `r`.
fn rotation_step(t: TetrisPieceType, r: Rotation, i: usize) -> (d: (i64, i64))
    requires
        i < 4,
    ensures
        d.0 == rotation_delta(t, r, i as int).0,
        d.1 == rotation_delta(t, r, i as int).1,
{
    let k: usize = match r {
        Rotation::R0 => 0,
        Rotation::R1 => 4,
        Rotation::R2 => 8,
        Rotation::R3 => 12,
    } + i;
    match t {
        TetrisPieceType::Q => (0, 0),
        TetrisPieceType::Z => {
            let table: [(i64, i64); 16] = [
                (2, 0), (1, 1), (0, 0), (-1, 1),
                (0, 2), (-1, 1), (0, 0), (-1, -1),
                (-2, 0), (-1, -1), (0, 0), (1, -1),
                (0, -2), (1, -1), (0, 0), (1, 1),
            ];
            table[k]
        },
        TetrisPieceType::S => {
            let table: [(i64, i64); 16] = [
                (1, 1), (0, 2), (1, -1), (0, 0),
                (-1, 1), (-2, 0), (1, 1), (0, 0),
                (-1, -1), (0, -2), (-1, 1), (0, 0),
                (1, -1), (2, 0), (-1, -1), (0, 0),
            ];
            table[k]
        },
        TetrisPieceType::T => {
            let table: [(i64, i64); 16] = [
                (1, -1), (0, 0), (-1, 1), (1, 1),
                (1, 1), (0, 0), (-1, -1), (-1, 1),
                (-1, 1), (0, 0), (1, -1), (-1, -1),
                (-1, -1), (0, 0), (1, 1), (1, -1),
            ];
            table[k]
        },
        TetrisPieceType::I => {
            let table: [(i64, i64); 16] = [
                (2, -1), (1, 0), (0, 1), (-1, 2),
                (1, 2), (0, 1), (-1, 0), (-2, -1),
                (-2, 1), (-1, 0), (0, -1), (1, -2),
                (-1, -2), (0, -1), (1, 0), (2, 1),
            ];
            table[k]
        },
        TetrisPieceType::L => {
            let table: [(i64, i64); 16] = [
                (1, -1), (0, 0), (-1, 1), (0, 2),
                (1, 1), (0, 0), (-1, -1), (-2, 0),
                (-1, 1), (0, 0), (1, -1), (0, -2),
                (-1, -1), (0, 0), (1, 1), (2, 0),
            ];
            table[k]
        },
        TetrisPieceType::J => {
            let table: [(i64, i64); 16] = [
                (2, 0), (1, -1), (0, 0), (-1, 1),
                (0, 2), (1, 1), (0, 0), (-1, -1),
                (-2, 0), (-1, 1), (0, 0), (1, -1),
                (0, -2), (-1, -1), (0, 0), (1, 1),
            ];
            table[k]
        },
    }
}

fn next_rotation_of(r: Rotation) -> (n: Rotation)
    ensures
        n == next_rotation(r),
{
    match r {
        Rotation::R0 => Rotation::R1,
        Rotation::R1 => Rotation::R2,
        Rotation::R2 => Rotation::R3,
        Rotation::R3 => Rotation::R0,
    }
}

/// Every coordinate of the piece fits in an `i64`.
pub open spec fn coords_fit(p: PieceView) -> bool {
    forall|i: int|
        0 <= i < p.parts.len() ==> i64::MIN <= #[trigger] p.parts[i].x <= i64::MAX && i64::MIN <= p.parts[i].y
            <= i64::MAX
}

impl TetrisPiece {
    /// A piece of type `piece_type` at orientation R0, laid out from column `start_x`.
    pub fn new(piece_type: TetrisPieceType, start_x: i64, color: Color) -> (r: TetrisPiece)
        requires
            start_x <= i64::MAX - 3,
        ensures
            r@ == (PieceView { parts: spawn_parts(piece_type, start_x as int), color, piece_type, rotation: Rotation::R0 }),
    {
        let x = start_x;
        let parts: [TetrisPart; 4] = match piece_type {
            TetrisPieceType::Q => [
                TetrisPart::new(x, 0),
                TetrisPart::new(x + 1, 0),
                TetrisPart::new(x, 1),
                TetrisPart::new(x + 1, 1),
            ],
            TetrisPieceType::Z => [
                TetrisPart::new(x, 0),
                TetrisPart::new(x + 1, 0),
                TetrisPart::new(x + 1, 1),
                TetrisPart::new(x + 2, 1),
            ],
            TetrisPieceType::S => [
                TetrisPart::new(x + 1, 0),
                TetrisPart::new(x + 2, 0),
                TetrisPart::new(x, 1),
                TetrisPart::new(x + 1, 1),
            ],
            TetrisPieceType::T => [
                TetrisPart::new(x, 1),
                TetrisPart::new(x + 1, 1),
                TetrisPart::new(x + 2, 1),
                TetrisPart::new(x + 1, 0),
            ],
            TetrisPieceType::I => [
                TetrisPart::new(x, 0),
                TetrisPart::new(x + 1, 0),
                TetrisPart::new(x + 2, 0),
                TetrisPart::new(x + 3, 0),
            ],
            TetrisPieceType::L => [
                TetrisPart::new(x, 1),
                TetrisPart::new(x + 1, 1),
                TetrisPart::new(x + 2, 1),
                TetrisPart::new(x + 2, 0),
            ],
            TetrisPieceType::J => [
                TetrisPart::new(x, 0),
                TetrisPart::new(x, 1),
                TetrisPart::new(x + 1, 1),
                TetrisPart::new(x + 2, 1),
            ],
        };
        let r = TetrisPiece { parts, color, piece_type, rotation: Rotation::R0 };
        assert(r@.parts =~= spawn_parts(piece_type, start_x as int));
        r
    }

    /// Makes every part in row `row` invisible.
    pub fn hide_row(&mut self, row: i64)
        ensures
            final(self)@ == old(self)@.row_hidden(row as int),
    {
        for i in 0..4
            invariant
                self.color == old(self).color,
                self.piece_type == old(self).piece_type,
                self.rotation == old(self).rotation,
                forall|k: int|
                    0 <= k < 4 ==> #[trigger] self.parts[k] == if k < i && old(self).parts[k].y == row {
                        TetrisPart { visible: false, ..old(self).parts[k] }
                    } else {
                        old(self).parts[k]
                    },
        {
            if self.parts[i].y == row {
                self.parts[i].visible = false;
            }
        }
        assert(self@.parts =~= old(self)@.row_hidden(row as int).parts);
    }

    /// Moves every part in row `row`, hidden or not, down by `lower_num` rows.
    pub fn lower_row(&mut self, row: i64, lower_num: i64)
        requires
            i64::MIN <= row + lower_num <= i64::MAX,
        ensures
            final(self)@ == old(self)@.row_lowered(row as int, lower_num as int),
    {
        for i in 0..4
            invariant
                i64::MIN <= row + lower_num <= i64::MAX,
                self.color == old(self).color,
                self.piece_type == old(self).piece_type,
                self.rotation == old(self).rotation,
                forall|k: int|
                    0 <= k < 4 ==> #[trigger] self.parts[k] == if k < i && old(self).parts[k].y == row {
                        TetrisPart { y: (row + lower_num) as i64, ..old(self).parts[k] }
                    } else {
                        old(self).parts[k]
                    },
        {
            if self.parts[i].y == row {
                self.parts[i].y = row + lower_num;
            }
        }
        assert(self@.parts =~= old(self)@.row_lowered(row as int, lower_num as int).parts);
    }

    /// The piece moved by `(dx, dy)`.
    pub fn moved_by(&self, dx: i64, dy: i64) -> (r: TetrisPiece)
        requires
            coords_fit(self@.moved_by(dx as int, dy as int)),
        ensures
            r@ == self@.moved_by(dx as int, dy as int),
    {
        let mut r = *self;
        for i in 0..4
            invariant
                coords_fit(self@.moved_by(dx as int, dy as int)),
                r.color == self.color,
                r.piece_type == self.piece_type,
                r.rotation == self.rotation,
                forall|k: int|
                    0 <= k < 4 ==> #[trigger] r.parts[k] == if k < i {
                        TetrisPart { x: (self.parts[k].x + dx) as i64, y: (self.parts[k].y + dy) as i64, ..self.parts[k] }
                    } else {
                        self.parts[k]
                    },
        {
            assert(self@.parts[i as int] == self.parts[i as int]@);
            assert(self@.moved_by(dx as int, dy as int).parts[i as int].x == self@.parts[i as int].x + dx);
            r.parts[i].x = self.parts[i].x + dx;
            r.parts[i].y = self.parts[i].y + dy;
        }
        let ghost target = self@.moved_by(dx as int, dy as int);
        assert forall|k: int| 0 <= k < 4 implies #[trigger] r@.parts[k] == target.parts[k] by {
            assert(i64::MIN <= target.parts[k].x <= i64::MAX);
        }
        assert(r@.parts =~= target.parts);
        r
    }

    /// The piece turned once by its rotation table (a square is returned unchanged).
    pub fn rotated(&self) -> (r: TetrisPiece)
        requires
            coords_fit(self@.rotated()),
        ensures
            r@ == self@.rotated(),
    {
        if self.piece_type == TetrisPieceType::Q {
            return *self;
        }
        let mut r = *self;
        for i in 0..4
            invariant
                self.piece_type != TetrisPieceType::Q,
                coords_fit(self@.rotated()),
                r.color == self.color,
                r.piece_type == self.piece_type,
                r.rotation == self.rotation,
                forall|k: int|
                    0 <= k < 4 ==> #[trigger] r.parts[k] == if k < i {
                        TetrisPart {
                            x: (self.parts[k].x + rotation_delta(self.piece_type, self.rotation, k).0) as i64,
                            y: (self.parts[k].y + rotation_delta(self.piece_type, self.rotation, k).1) as i64,
                            ..self.parts[k]
                        }
                    } else {
                        self.parts[k]
                    },
        {
            assert(self@.parts[i as int] == self.parts[i as int]@);
            assert(self@.rotated().parts[i as int].x == self@.parts[i as int].x + rotation_delta(
                self.piece_type,
                self.rotation,
                i as int,
            ).0);
            proof {
                lemma_delta_range(self.piece_type, self.rotation, i as int);
            }
            let d = rotation_step(self.piece_type, self.rotation, i);
            r.parts[i].x = self.parts[i].x + d.0;
            r.parts[i].y = self.parts[i].y + d.1;
        }
        r.rotation = next_rotation_of(self.rotation);
        let ghost target = self@.rotated();
        assert forall|k: int| 0 <= k < 4 implies #[trigger] r@.parts[k] == target.parts[k] by {
            assert(i64::MIN <= target.parts[k].x <= i64::MAX);
        }
        assert(r@.parts =~= target.parts);
        r
    }
}

} // verus!
