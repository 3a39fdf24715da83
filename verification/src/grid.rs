//! The squares of the board and what stands on them.

use crate::board::{Coordinate, GamePiece};
use vstd::prelude::*;

verus! {

/// The occupied squares and their pieces: a board as a mathematical value.
pub type Squares = Map<Coordinate, GamePiece>;

/// The piece on a square, if there is one.
pub open spec fn piece_at(squares: Squares, location: Coordinate) -> Option<GamePiece> {
    if squares.dom().contains(location) {
        Some(squares[location])
    } else {
        None
    }
}

/// Whether every occupied position is a square of the board.
pub open spec fn within_board(squares: Squares) -> bool {
    forall|location: Coordinate| #[trigger]
        squares.dom().contains(location) ==> location.on_board()
}

/// An 8x8 grid in which each square is empty or holds one piece.
pub struct Board {
    squares: [[Option<GamePiece>; 8]; 8],
}

impl View for Board {
    type V = Squares;

    closed spec fn view(&self) -> Squares {
        Map::new(
            |location: Coordinate|
                location.on_board() && self.squares[location.0 as int][location.1 as int] is Some,
            |location: Coordinate| self.squares[location.0 as int][location.1 as int]->0,
        )
    }
}

impl Board {
    /// A board never holds a piece outside its 64 squares.
    pub proof fn lemma_within_board(&self)
        ensures
            within_board(self@),
    {
    }

    /// The empty board.
    pub fn new() -> (board: Board)
        ensures
            board@ == Squares::empty(),
    {
        let board = Board { squares: [[None; 8]; 8] };
        assert(board@ =~= Squares::empty());
        board
    }

    /// The piece on a square; nothing for an empty square or a position
    /// off the board.
    pub fn get(&self, location: Coordinate) -> (piece: Option<GamePiece>)
        ensures
            piece == piece_at(self@, location),
    {
        let Coordinate(x, y) = location;
        if x < 8 && y < 8 {
            self.squares[x][y]
        } else {
            None
        }
    }

    /// Puts a piece on a square, in place of whatever stood there.
    pub fn set(&mut self, location: Coordinate, piece: GamePiece)
        requires
            location.on_board(),
        ensures
            final(self)@ == old(self)@.insert(location, piece),
    {
        let Coordinate(x, y) = location;
        self.squares[x][y] = Some(piece);
        assert(self@ =~= old(self)@.insert(location, piece));
    }

    /// Empties a square.  A position off the board is left alone.
    pub fn clear(&mut self, location: Coordinate)
        ensures
            final(self)@ == old(self)@.remove(location),
    {
        let Coordinate(x, y) = location;
        if x < 8 && y < 8 {
            self.squares[x][y] = None;
        }
        assert(self@ =~= old(self)@.remove(location));
    }
}

} // verus!
