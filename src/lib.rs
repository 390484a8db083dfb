//! Rules engine of a falling-block puzzle game: board occupancy, pieces,
//! gravity, movement, rotation, row clearing and scoring.
//!
//! The engine draws no random numbers itself: the caller hands it the random
//! numbers that pick piece types and colours from the bags.

pub mod bag;
pub mod game;
pub mod laws;
pub mod model;
pub mod part;
pub mod piece;

pub use bag::{Bag, BagView};
pub use game::{line_clear_award, Frame, GridLine, PaintedCell, TetrisGame};
pub use model::{CLEAR_ANIMATION_FRAMES, HEIGHT, NEXT_QUEUE_LEN, SPAWN_COLUMN, TOP_ROW, WIDTH};
pub use part::{PartView, TetrisPart};
pub use piece::{Color, PieceView, Rotation, TetrisPiece, TetrisPieceType};
