//! Typed errors of the codec, the rule engine and the search.

use vstd::prelude::*;

verus! {

/// A byte string that is not a valid board or piece encoding.
#[derive(Clone, Copy, Debug, PartialEq, Eq, Structural)]
pub enum EncodingError {
    /// A piece byte whose payload is neither empty, the King pattern, nor a
    /// valid bottom/top code combination.
    InvalidPiece { value: u8 },
    /// The square at `index` of a board encoding holds an invalid piece byte.
    InvalidSquare { index: usize, value: u8 },
}

/// A square name that is not a column letter followed by a row digit.
#[derive(Clone, Copy, Debug, PartialEq, Eq, Structural)]
pub enum SquareNameError {
    /// The name is not two characters long.
    Length,
    /// The first character is not a column letter `A` to `I`.
    Column,
    /// The second character is not a row digit `1` to `9`.
    Row,
}

/// A move that cannot be applied to a board.
#[derive(Clone, Copy, Debug, PartialEq, Eq, Structural)]
pub enum MoveError {
    /// A square index lies outside the board.
    OutOfBounds,
    /// There is no piece on the source square.
    NoPiece,
    /// An unstack was asked of a King.
    UnstackKing,
    /// An unstack was asked of a piece without a top piece.
    NoTopPiece,
    /// The destination holds a friendly King or a full stack.
    NotStackable,
    /// Stacking was asked onto a piece of the other color.
    ColorMismatch,
    /// A piece that already carries a top piece cannot be stacked onto another.
    AlreadyStacked,
    /// A King cannot become the top piece of a stack.
    KingOnTop,
    /// Only the top piece was to move, but the candidate cannot unstack.
    NotUnstackable,
    /// The whole stack was to move, but only its top piece may make this move.
    MustUnstack,
}

/// Why the search found no move.
#[derive(Clone, Copy, Debug, PartialEq, Eq, Structural)]
pub enum SearchError {
    /// The board bytes do not decode.
    Encoding(EncodingError),
    /// The side to move has no legal move.
    NoLegalMoves,
}

} // verus!
