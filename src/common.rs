//! Small types shared across the board and the pieces.
use vstd::prelude::*;

verus! {

/// The most destinations a single piece can ever have on an 8x8 board.
pub const MAX_LEGAL_MOVES: usize = 64;

/// `x,y` coordinates, `0,0` being the top-left corner.
///
/// A negative `x` marks a piece that is dead.
pub type Pos = [i8; 2];

/// A fixed-capacity list of destinations.
pub type LegalMoves = [Pos; MAX_LEGAL_MOVES];

} // verus!
