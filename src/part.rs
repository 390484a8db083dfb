use vstd::prelude::*;

verus! {

/// One cell of a piece, in board coordinates, with its mathematical form.
pub struct PartView {
    pub x: int,
    pub y: int,
    pub visible: bool,
}

/// One cell of a piece. A part that a row clear has removed stays attached to
/// its piece but is no longer visible and occupies no cell.
#[derive(Clone, Copy, Debug, PartialEq, Eq, Structural)]
pub struct TetrisPart {
    pub x: i64,
    pub y: i64,
    pub visible: bool,
}

impl View for TetrisPart {
    type V = PartView;

    open spec fn view(&self) -> PartView {
        PartView { x: self.x as int, y: self.y as int, visible: self.visible }
    }
}

impl TetrisPart {
    /// A visible part at `(x, y)`.
    pub fn new(x: i64, y: i64) -> (r: TetrisPart)
        ensures
            r == (TetrisPart { x, y, visible: true }),
    {
        TetrisPart { x, y, visible: true }
    }
}

} // verus!
