//! A board stores the complete state of the game, including the pieces.
use vstd::prelude::*;

use crate::pieces::Piece;

verus! {

/// Side length of the square board.
pub const BOARD_SIZE: usize = 8;

/// One square of the board.
pub struct Cell<'a> {
    /// The piece standing on the square, if there is one.
    pieces: Option<&'a Piece>,
}

} // verus!
