//! The rules of movement, stated over plain values.

use crate::board::{directions, Coordinate, GamePiece, Move, PieceColor};
use crate::grid::{piece_at, within_board, Squares};
use crate::seq_facts::{lemma_filter_map_membership, lemma_filter_membership, lemma_map_membership};
use vstd::prelude::*;

verus! {

/// How far apart two indices are.
pub open spec fn gap(a: usize, b: usize) -> int {
    if a >= b {
        a - b
    } else {
        b - a
    }
}

/// Whether a move is one that geometry allows: it ends on the board, one
/// or two squares away along a diagonal.
pub open spec fn reachable(movement: Move) -> bool {
    &&& movement.to.on_board()
    &&& gap(movement.to.0, movement.from.0) == gap(movement.to.1, movement.from.1)
    &&& (gap(movement.to.1, movement.from.1) == 1 || gap(movement.to.1, movement.from.1) == 2)
}

/// The move from a fixed origin, as a function of the destination.
pub open spec fn leaving(from: Coordinate) -> spec_fn(Coordinate) -> Move {
    |to: Coordinate| Move { from, to }
}

/// Every move that geometry allows from a position: the single steps,
/// then the jumps.  What stands on the board plays no part.
pub open spec fn moves_from(location: Coordinate) -> Seq<Move> {
    location.neighbors(1).map_values(leaving(location)) + location.neighbors(2).map_values(
        leaving(location),
    )
}

/// The direction rule: an uncrowned black piece moves toward lower `y`, an
/// uncrowned white piece toward higher `y`; a crowned piece moves either
/// way.
pub open spec fn heads_the_right_way(piece: GamePiece, movement: Move) -> bool {
    piece.crowned || match piece.color {
        PieceColor::Black => movement.to.1 < movement.from.1,
        PieceColor::White => movement.to.1 > movement.from.1,
    }
}

/// Whether a move is a jump: it covers two rows.
pub open spec fn spans_two_rows(movement: Move) -> bool {
    gap(movement.to.1, movement.from.1) == 2
}

/// The square halfway between the two ends of a move.
pub open spec fn midpoint(movement: Move) -> Coordinate {
    Coordinate(
        ((movement.from.0 + movement.to.0) / 2) as usize,
        ((movement.from.1 + movement.to.1) / 2) as usize,
    )
}

/// The destination rule: the move ends on an empty square of the board.
pub open spec fn lands_on_empty(squares: Squares, movement: Move) -> bool {
    movement.to.on_board() && piece_at(squares, movement.to) is None
}

/// The jump rule: the square halfway holds a piece of the other color.
pub open spec fn leaps_over_opponent(squares: Squares, piece: GamePiece, movement: Move) -> bool {
    piece_at(squares, midpoint(movement)) matches Some(jumped) && jumped.color != piece.color
}

/// Whether a piece may make a move on a board: the direction rule, the
/// destination rule and, for a jump, the jump rule.
pub open spec fn is_legal(squares: Squares, piece: GamePiece, movement: Move) -> bool {
    &&& heads_the_right_way(piece, movement)
    &&& lands_on_empty(squares, movement)
    &&& spans_two_rows(movement) ==> leaps_over_opponent(squares, piece, movement)
}

/// The direction rule for a fixed piece, as a function of the move.
pub open spec fn direction_rule(piece: GamePiece) -> spec_fn(Move) -> bool {
    |movement: Move| heads_the_right_way(piece, movement)
}

/// The destination rule for a fixed board, as a function of the move.
pub open spec fn destination_rule(squares: Squares) -> spec_fn(Move) -> bool {
    |movement: Move| lands_on_empty(squares, movement)
}

/// The jump rule for a fixed board and piece, as a function of the move:
/// it binds jumps only.
pub open spec fn jump_rule(squares: Squares, piece: GamePiece) -> spec_fn(Move) -> bool {
    |movement: Move| spans_two_rows(movement) ==> leaps_over_opponent(squares, piece, movement)
}

/// `is_legal` for a fixed board and piece, as a function of the move.
pub open spec fn legal_for(squares: Squares, piece: GamePiece) -> spec_fn(Move) -> bool {
    |movement: Move| is_legal(squares, piece, movement)
}

/// The legal ones among some moves, in their order.
pub open spec fn legal_among(squares: Squares, piece: GamePiece, moves: Seq<Move>) -> Seq<Move> {
    moves.filter(legal_for(squares, piece))
}

/// The legal moves of whatever stands on a square; none for an empty one.
pub open spec fn legal_from(squares: Squares, location: Coordinate) -> Seq<Move> {
    match piece_at(squares, location) {
        Some(piece) => legal_among(squares, piece, moves_from(location)),
        None => Seq::empty(),
    }
}

/// The promotion rule: black is crowned on row 0, white on row 7.
pub open spec fn reaches_far_row(piece: GamePiece, location: Coordinate) -> bool {
    match piece.color {
        PieceColor::Black => location.1 == 0,
        PieceColor::White => location.1 == 7,
    }
}

/// The other side.
pub open spec fn opponent(color: PieceColor) -> PieceColor {
    match color {
        PieceColor::Black => PieceColor::White,
        PieceColor::White => PieceColor::Black,
    }
}

/// The squares in the order of a full scan: row by row, each row from
/// `x = 0` upward.
pub open spec fn scanned(k: int) -> Coordinate {
    Coordinate((k % 8) as usize, (k / 8) as usize)
}

/// The legal moves of one color found on the first `count` squares of a
/// full scan.
pub open spec fn legal_within(squares: Squares, color: PieceColor, count: nat) -> Seq<Move>
    decreases count,
{
    if count == 0 {
        Seq::empty()
    } else {
        let location = scanned(count - 1);
        let found = match piece_at(squares, location) {
            Some(piece) if piece.color == color => legal_from(squares, location),
            _ => Seq::empty(),
        };
        legal_within(squares, color, (count - 1) as nat) + found
    }
}

/// All legal moves of one color, found by scanning the whole board.
pub open spec fn all_legal(squares: Squares, color: PieceColor) -> Seq<Move> {
    legal_within(squares, color, 64)
}

/// Whether a move is legal right now for a color: a piece of that color
/// stands at its origin, geometry allows the move, and the rules do.
pub open spec fn currently_legal(squares: Squares, color: PieceColor, movement: Move) -> bool {
    &&& piece_at(squares, movement.from) matches Some(piece)
    &&& piece.color == color
    &&& reachable(movement)
    &&& is_legal(squares, piece, movement)
}

/// The squares generated at distance 1 or 2 are exactly the squares of the
/// board that far away along both axes.
pub proof fn lemma_neighbors(location: Coordinate, distance: int, target: Coordinate)
    requires
        distance == 1 || distance == 2,
    ensures
        location.neighbors(distance).contains(target) <==> ({
            &&& target.on_board()
            &&& gap(target.0, location.0) == distance
            &&& gap(target.1, location.1) == distance
        }),
{
    let dirs = directions();
    let towards = location.toward(distance);
    lemma_filter_map_membership(dirs, towards, target);
    if location.neighbors(distance).contains(target) {
        let i = choose|i: int| 0 <= i < dirs.len() && towards(#[trigger] dirs[i]) == Some(target);
        assert(location.shifted(dirs[i], distance) == Some(target));
    }
    if target.on_board() && gap(target.0, location.0) == distance && gap(target.1, location.1)
        == distance {
        let i: int = if target.0 < location.0 {
            if target.1 > location.1 {
                0
            } else {
                1
            }
        } else {
            if target.1 < location.1 {
                2
            } else {
                3
            }
        };
        assert(towards(dirs[i]) == Some(target));
    }
}

/// The moves generated from a position are exactly the moves from it that
/// geometry allows.
pub proof fn lemma_moves_from(location: Coordinate, movement: Move)
    ensures
        moves_from(location).contains(movement) <==> movement.from == location && reachable(
            movement,
        ),
{
    let steps = location.neighbors(1);
    let jumps = location.neighbors(2);
    let wrap = leaving(location);
    lemma_map_membership(steps, wrap, movement);
    lemma_map_membership(jumps, wrap, movement);
    lemma_neighbors(location, 1, movement.to);
    lemma_neighbors(location, 2, movement.to);
    let first = steps.map_values(wrap);
    let second = jumps.map_values(wrap);
    if moves_from(location).contains(movement) {
        let i = choose|i: int| 0 <= i < (first + second).len() && (first + second)[i] == movement;
        if i < first.len() {
            assert(first[i] == movement);
            assert(steps.contains(steps[i]));
        } else {
            assert(second[i - first.len()] == movement);
            assert(jumps.contains(jumps[i - first.len()]));
        }
    }
    if movement.from == location && reachable(movement) {
        if gap(movement.to.1, movement.from.1) == 1 {
            let i = choose|i: int| 0 <= i < steps.len() && steps[i] == movement.to;
            assert((first + second)[i] == movement);
        } else {
            let i = choose|i: int| 0 <= i < jumps.len() && jumps[i] == movement.to;
            assert((first + second)[first.len() + i] == movement);
        }
    }
}

/// The legal moves kept for a square are exactly the moves from it that
/// geometry and the rules allow to the piece standing there.
pub proof fn lemma_legal_from(squares: Squares, location: Coordinate, movement: Move)
    ensures
        legal_from(squares, location).contains(movement) <==> ({
            &&& movement.from == location
            &&& piece_at(squares, location) matches Some(piece)
            &&& reachable(movement)
            &&& is_legal(squares, piece, movement)
        }),
{
    if let Some(piece) = piece_at(squares, location) {
        lemma_filter_membership(moves_from(location), legal_for(squares, piece), movement);
        lemma_moves_from(location, movement);
    }
}

/// A scan of the first `count` squares finds exactly the currently legal
/// moves that start on one of them.
pub proof fn lemma_legal_within(squares: Squares, color: PieceColor, count: nat, movement: Move)
    requires
        count <= 64,
    ensures
        legal_within(squares, color, count).contains(movement) <==> ({
            &&& currently_legal(squares, color, movement)
            &&& exists|k: int| 0 <= k < count && #[trigger] scanned(k) == movement.from
        }),
    decreases count,
{
    if count > 0 {
        let location = scanned(count - 1);
        let before = legal_within(squares, color, (count - 1) as nat);
        let found = match piece_at(squares, location) {
            Some(piece) if piece.color == color => legal_from(squares, location),
            _ => Seq::empty(),
        };
        lemma_legal_within(squares, color, (count - 1) as nat, movement);
        lemma_legal_from(squares, location, movement);
        let whole = before + found;
        if whole.contains(movement) {
            let i = choose|i: int| 0 <= i < whole.len() && whole[i] == movement;
            if i < before.len() {
                assert(before[i] == movement);
                let k = choose|k: int|
                    0 <= k < count - 1 && #[trigger] scanned(k) == movement.from;
                assert(scanned(k) == movement.from);
            } else {
                assert(found[i - before.len()] == movement);
                assert(scanned(count - 1) == movement.from);
            }
        }
        if currently_legal(squares, color, movement) && exists|k: int|
            0 <= k < count && #[trigger] scanned(k) == movement.from {
            let k = choose|k: int| 0 <= k < count && #[trigger] scanned(k) == movement.from;
            if k < count - 1 {
                let i = choose|i: int| 0 <= i < before.len() && before[i] == movement;
                assert(whole[i] == movement);
            } else {
                let i = choose|i: int| 0 <= i < found.len() && found[i] == movement;
                assert(whole[before.len() + i] == movement);
            }
        }
    }
}

/// A full scan finds exactly the currently legal moves.
pub proof fn lemma_all_legal(squares: Squares, color: PieceColor, movement: Move)
    requires
        within_board(squares),
    ensures
        all_legal(squares, color).contains(movement) <==> currently_legal(
            squares,
            color,
            movement,
        ),
{
    lemma_legal_within(squares, color, 64, movement);
    if currently_legal(squares, color, movement) {
        let from = movement.from;
        assert(squares.dom().contains(from));
        assert(scanned(from.1 * 8 + from.0) == from);
    }
}

} // verus!
