//! The list of moves kept for each color.

use crate::board::{Move, PieceColor};
use vstd::prelude::*;

verus! {

/// For each of the two colors, an ordered list of moves.  A color that
/// was never given a list has the empty one.
pub struct MoveCache {
    black: Vec<Move>,
    white: Vec<Move>,
}

impl MoveCache {
    /// The list kept for a color.
    pub closed spec fn moves(&self, color: PieceColor) -> Seq<Move> {
        match color {
            PieceColor::Black => self.black@,
            PieceColor::White => self.white@,
        }
    }

    /// A cache with no move for either color.
    pub fn new() -> (cache: MoveCache)
        ensures
            cache.moves(PieceColor::Black) == Seq::<Move>::empty(),
            cache.moves(PieceColor::White) == Seq::<Move>::empty(),
    {
        MoveCache { black: Vec::new(), white: Vec::new() }
    }

    /// The list kept for a color.
    pub fn get(&self, color: PieceColor) -> (list: &Vec<Move>)
        ensures
            list@ == self.moves(color),
    {
        match color {
            PieceColor::Black => &self.black,
            PieceColor::White => &self.white,
        }
    }

    /// Whether a move is in the list of a color.
    pub fn contains(&self, color: PieceColor, movement: &Move) -> (found: bool)
        ensures
            found == self.moves(color).contains(*movement),
    {
        let list = self.get(color);
        let mut i: usize = 0;
        while i < list.len()
            invariant
                i <= list.len(),
                list@ == self.moves(color),
                forall|k: int| 0 <= k < i ==> list[k] != *movement,
            decreases list.len() - i,
        {
            if list[i] == *movement {
                return true;
            }
            i += 1;
        }
        false
    }

    /// Replaces the list of a color; the other color keeps its list.
    pub fn insert(&mut self, color: PieceColor, list: Vec<Move>)
        ensures
            final(self).moves(color) == list@,
            forall|other: PieceColor| other != color ==> final(self).moves(other) == old(self).moves(other),
    {
        match color {
            PieceColor::Black => {
                self.black = list;
            },
            PieceColor::White => {
                self.white = list;
            },
        }
    }

    /// Adds moves at the end of the list of a color; the other color keeps
    /// its list.
    pub fn append(&mut self, color: PieceColor, list: Vec<Move>)
        ensures
            final(self).moves(color) == old(self).moves(color) + list@,
            forall|other: PieceColor| other != color ==> final(self).moves(other) == old(self).moves(other),
    {
        let mut list = list;
        match color {
            PieceColor::Black => {
                self.black.append(&mut list);
            },
            PieceColor::White => {
                self.white.append(&mut list);
            },
        }
    }
}

} // verus!
